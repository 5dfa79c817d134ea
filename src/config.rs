use vstd::prelude::*;
use vstd::string::*;

use crate::errors::FlareSyncError;
use crate::text::{
    decimal_value, digit_value, is_digit, is_digit_char, push_char, trim_to_string, trimmed,
};

verus! {

/// The settings of the service.
#[derive(Clone, Debug)]
pub struct Config {
    pub api_token: String,
    pub zone_id: String,
    /// The domains whose records are kept up to date, in the order given.
    pub domain_names: Vec<String>,
    /// The time between two cycles, in whole minutes (at least 1).
    pub update_interval_minutes: u64,
}

/// A character that separates two domain names in a list.
pub open spec fn is_separator(c: char) -> bool {
    c == ',' || c == ';'
}

/// The pieces of `s` between separators, in order (one more than there are separators).
pub open spec fn pieces(s: Seq<char>) -> Seq<Seq<char>>
    decreases s.len(),
{
    if s.len() == 0 {
        seq![Seq::empty()]
    } else {
        let p = pieces(s.drop_last());
        if is_separator(s.last()) {
            p.push(Seq::empty())
        } else {
            p.update(p.len() - 1, p.last().push(s.last()))
        }
    }
}

/// The pieces, each without white space at either end, with the empty ones left out.
pub open spec fn kept_names(ps: Seq<Seq<char>>) -> Seq<Seq<char>>
    decreases ps.len(),
{
    if ps.len() == 0 {
        Seq::empty()
    } else {
        let rest = kept_names(ps.drop_last());
        if trimmed(ps.last()).len() > 0 {
            rest.push(trimmed(ps.last()))
        } else {
            rest
        }
    }
}

/// The domain names that a list such as `example.com; other.org` names.
pub open spec fn domain_list(s: Seq<char>) -> Seq<Seq<char>> {
    kept_names(pieces(s))
}

/// The digits of a decimal number, after an optional leading `+`.
pub open spec fn unsigned_digits(s: Seq<char>) -> Seq<char> {
    if s.len() > 0 && s[0] == '+' {
        s.drop_first()
    } else {
        s
    }
}

/// Every character of `s` is a decimal digit.
pub open spec fn all_digits(s: Seq<char>) -> bool {
    forall|k: int| 0 <= k < s.len() ==> is_digit(#[trigger] s[k])
}

/// The unsigned 64-bit number that `s` denotes: an optional `+`, then one or more decimal
/// digits, worth at most `u64::MAX`.
pub open spec fn parsed_u64(s: Seq<char>) -> Option<u64> {
    let d = unsigned_digits(s);
    if d.len() > 0 && all_digits(d) && decimal_value(d) <= u64::MAX {
        Some(decimal_value(d) as u64)
    } else {
        None
    }
}

proof fn lemma_decimal_value_prefix(s: Seq<char>, k: int)
    requires
        0 <= k <= s.len(),
    ensures
        decimal_value(s.subrange(0, k)) <= decimal_value(s),
    decreases s.len(),
{
    if k < s.len() {
        lemma_decimal_value_prefix(s.drop_last(), k);
        assert(s.drop_last().subrange(0, k) == s.subrange(0, k));
    } else {
        assert(s.subrange(0, k) == s);
    }
}

/// Reads an unsigned 64-bit decimal number, as `str::parse::<u64>` does.
pub fn parse_u64(s: &str) -> (r: Option<u64>)
    ensures
        r == parsed_u64(s@),
{
    let n = s.unicode_len();
    let start: usize = if n > 0 && s.get_char(0) == '+' {
        1
    } else {
        0
    };
    let ghost d = unsigned_digits(s@);
    proof {
        assert(d == s@.subrange(start as int, n as int));
    }
    if start == n {
        return None;
    }
    let mut i: usize = start;
    let mut acc: u64 = 0;
    while i < n
        invariant
            n == s@.len(),
            start <= i <= n,
            d == s@.subrange(start as int, n as int),
            d == unsigned_digits(s@),
            forall|k: int| start <= k < i ==> is_digit(#[trigger] s@[k]),
            acc == decimal_value(s@.subrange(start as int, i as int)),
        decreases n - i,
    {
        let c = s.get_char(i);
        if !is_digit_char(c) {
            proof {
                assert(d[i - start] == c);
                assert(!is_digit(d[i - start]));
                assert(!all_digits(d));
            }
            return None;
        }
        let v = digit_value(c) as u64;
        proof {
            let next = s@.subrange(start as int, i + 1);
            assert(next.drop_last() == s@.subrange(start as int, i as int));
        }
        if acc > (u64::MAX - v) / 10 {
            proof {
                let next = s@.subrange(start as int, i + 1);
                assert(decimal_value(next) == acc * 10 + v);
                assert(acc * 10 + v > u64::MAX) by (nonlinear_arith)
                    requires
                        acc > (u64::MAX - v) / 10,
                        v < 10,
                ;
                lemma_decimal_value_prefix(d, i + 1 - start);
                assert(d.subrange(0, i + 1 - start) == s@.subrange(start as int, i + 1));
            }
            return None;
        }
        acc = acc * 10 + v;
        i = i + 1;
    }
    proof {
        assert(forall|k: int| 0 <= k < d.len() ==> d[k] == s@[k + start]);
    }
    Some(acc)
}

proof fn lemma_pieces_nonempty(s: Seq<char>)
    ensures
        pieces(s).len() >= 1,
    decreases s.len(),
{
    if s.len() > 0 {
        lemma_pieces_nonempty(s.drop_last());
    }
}

/// Splits a list of domain names at `,` and `;`, trims each name and leaves out the empty ones.
pub fn split_domain_names(list: &str) -> (r: Vec<String>)
    ensures
        r@.map_values(|x: String| x@) == domain_list(list@),
{
    let n = list.unicode_len();
    let mut names: Vec<String> = Vec::new();
    let mut current = String::new();
    let mut i: usize = 0;
    proof {
        assert(list@.subrange(0, 0) == Seq::<char>::empty());
        assert(names@.map_values(|x: String| x@) =~= Seq::<Seq<char>>::empty());
    }
    while i < n
        invariant
            n == list@.len(),
            i <= n,
            pieces(list@.subrange(0, i as int)).len() >= 1,
            names@.map_values(|x: String| x@) == kept_names(
                pieces(list@.subrange(0, i as int)).drop_last(),
            ),
            current@ == pieces(list@.subrange(0, i as int)).last(),
        decreases n - i,
    {
        let c = list.get_char(i);
        let ghost before = list@.subrange(0, i as int);
        let ghost after = list@.subrange(0, i + 1);
        proof {
            assert(after.drop_last() == before);
            assert(after.last() == c);
            lemma_pieces_nonempty(after);
        }
        if c == ',' || c == ';' {
            let name = trim_to_string(current.as_str());
            proof {
                assert(pieces(after).drop_last() == pieces(before));
                assert(pieces(before).drop_last().push(pieces(before).last()) == pieces(before));
            }
            if name.unicode_len() > 0 {
                let ghost old_names = names@;
                names.push(name);
                proof {
                    assert(names@.map_values(|x: String| x@) =~= old_names.map_values(
                        |x: String| x@,
                    ).push(name@));
                }
            }
            current = String::new();
        } else {
            push_char(&mut current, c);
            proof {
                assert(pieces(after).drop_last() =~= pieces(before).drop_last());
            }
        }
        i = i + 1;
    }
    let name = trim_to_string(current.as_str());
    proof {
        let p = pieces(list@.subrange(0, n as int));
        assert(list@.subrange(0, n as int) == list@);
        assert(p.drop_last().push(p.last()) == p);
    }
    if name.unicode_len() > 0 {
        let ghost old_names = names@;
        names.push(name);
        proof {
            assert(names@.map_values(|x: String| x@) =~= old_names.map_values(|x: String| x@).push(
                name@,
            ));
        }
    }
    names
}

/// The longest update interval, in minutes, whose length in seconds fits in a `u64`.
pub const MAX_INTERVAL_MINUTES: u64 = 307445734561825860;

/// The settings are all present and valid: at least one domain name, and an interval of at
/// least one minute whose length in seconds fits in a `u64`.
pub open spec fn settings_valid(
    api_token: Option<String>,
    zone_id: Option<String>,
    domain_names: Option<String>,
    update_interval: Option<String>,
) -> bool {
    &&& api_token is Some
    &&& zone_id is Some
    &&& domain_names is Some
    &&& domain_list(domain_names->0@).len() > 0
    &&& update_interval is Some
    &&& parsed_u64(update_interval->0@) matches Some(m) && 1 <= m <= MAX_INTERVAL_MINUTES
}

fn config_error(text: &str) -> (r: FlareSyncError)
    ensures
        r is Config,
{
    FlareSyncError::Config(String::from_str(text))
}

impl Config {
    /// Builds the settings from their raw texts, each `None` where it was not given: the API
    /// token, the zone id, the list of domain names (separated by `,` or `;`) and the update
    /// interval in minutes.
    pub fn from_values(
        api_token: Option<String>,
        zone_id: Option<String>,
        domain_names: Option<String>,
        update_interval: Option<String>,
    ) -> (r: Result<Config, FlareSyncError>)
        ensures
            r is Ok <==> settings_valid(api_token, zone_id, domain_names, update_interval),
            match r {
                Ok(c) => {
                    &&& api_token == Some(c.api_token)
                    &&& zone_id == Some(c.zone_id)
                    &&& c.domain_names@.map_values(|x: String| x@) == domain_list(
                        domain_names->0@,
                    )
                    &&& parsed_u64(update_interval->0@) == Some(c.update_interval_minutes)
                },
                Err(e) => e is Config,
            },
    {
        let api_token = match api_token {
            Some(t) => t,
            None => return Err(config_error("CLOUDFLARE_API_TOKEN must be set")),
        };
        let zone_id = match zone_id {
            Some(z) => z,
            None => return Err(config_error("CLOUDFLARE_ZONE_ID must be set")),
        };
        let list = match domain_names {
            Some(l) => l,
            None => return Err(config_error("DOMAIN_NAME must be set")),
        };
        let names = split_domain_names(list.as_str());
        if names.len() == 0 {
            return Err(config_error("DOMAIN_NAME must name at least one domain"));
        }
        let interval = match update_interval {
            Some(u) => u,
            None => return Err(config_error("UPDATE_INTERVAL must be set")),
        };
        let minutes = match parse_u64(interval.as_str()) {
            Some(m) => m,
            None => return Err(config_error("UPDATE_INTERVAL must be a number")),
        };
        if minutes < 1 || minutes > MAX_INTERVAL_MINUTES {
            return Err(config_error("UPDATE_INTERVAL is out of range"));
        }
        Ok(Config { api_token, zone_id, domain_names: names, update_interval_minutes: minutes })
    }

    /// The update interval in seconds, or `u64::MAX` where that does not fit.
    pub fn update_interval_secs(&self) -> (r: u64)
        ensures
            r == if self.update_interval_minutes <= MAX_INTERVAL_MINUTES {
                self.update_interval_minutes * 60
            } else {
                u64::MAX as int
            },
    {
        if self.update_interval_minutes <= MAX_INTERVAL_MINUTES {
            self.update_interval_minutes * 60
        } else {
            u64::MAX
        }
    }
}

} // verus!
