use vstd::prelude::*;

use crate::text::{
    decimal_value, digit_char, digit_to_char, digit_value, is_digit, is_digit_char, push_char,
    trim_to_string, trimmed,
};
use vstd::string::*;

verus! {

/// An IPv4 address as its four octets, most significant first.
#[derive(Clone, Copy, Debug, PartialEq, Eq, Structural)]
pub struct Ipv4 {
    pub a: u8,
    pub b: u8,
    pub c: u8,
    pub d: u8,
}

/// The shortest decimal rendering of an octet (no leading zeros).
pub open spec fn octet_text(v: u8) -> Seq<char> {
    let n = v as int;
    if n < 10 {
        seq![digit_char(n)]
    } else if n < 100 {
        seq![digit_char(n / 10), digit_char(n % 10)]
    } else {
        seq![digit_char(n / 100), digit_char((n / 10) % 10), digit_char(n % 10)]
    }
}

/// The canonical dotted-quad text of an address, such as `203.0.113.9`.
pub open spec fn dotted(ip: Ipv4) -> Seq<char> {
    octet_text(ip.a) + seq!['.'] + octet_text(ip.b) + seq!['.'] + octet_text(ip.c) + seq!['.']
        + octet_text(ip.d)
}

/// `t` holds the text of octet `v` at `start`, and no further digit follows it.
pub open spec fn octet_at(t: Seq<char>, start: int, v: u8) -> bool {
    let e = start + octet_text(v).len();
    &&& 0 <= start
    &&& e <= t.len()
    &&& t.subrange(start, e) == octet_text(v)
    &&& (e == t.len() || !is_digit(t[e]))
}

proof fn lemma_octet_text(v: u8)
    ensures
        1 <= octet_text(v).len() <= 3,
        forall|k: int| 0 <= k < octet_text(v).len() ==> is_digit(#[trigger] octet_text(v)[k]),
        octet_text(v).len() > 1 ==> octet_text(v)[0] != '0',
        decimal_value(octet_text(v)) == v,
{
    reveal_with_fuel(decimal_value, 4);
    let s = octet_text(v);
    if v < 10 {
        assert(s.drop_last().len() == 0);
    } else if v < 100 {
        assert(s.drop_last() == seq![digit_char(v as int / 10)]);
        assert(s.drop_last().drop_last().len() == 0);
    } else {
        assert(s.drop_last() == seq![digit_char(v as int / 100), digit_char((v as int / 10) % 10)]);
        assert(s.drop_last().drop_last() == seq![digit_char(v as int / 100)]);
        assert(s.drop_last().drop_last().drop_last().len() == 0);
    }
}

/// A run of one to three digits, without a leading zero and worth at most 255, is the text of
/// the octet that it denotes.
proof fn lemma_digits_are_octet(s: Seq<char>)
    requires
        1 <= s.len() <= 3,
        forall|k: int| 0 <= k < s.len() ==> is_digit(#[trigger] s[k]),
        s.len() > 1 ==> s[0] != '0',
        decimal_value(s) <= 255,
    ensures
        octet_text(decimal_value(s) as u8) == s,
{
    reveal_with_fuel(decimal_value, 4);
    let v = decimal_value(s) as u8;
    if s.len() == 1 {
        assert(s.drop_last().len() == 0);
        assert(octet_text(v) == s);
    } else if s.len() == 2 {
        assert(s.drop_last().drop_last().len() == 0);
        assert(is_digit(s[0]) && is_digit(s[1]));
        assert(octet_text(v) == s);
    } else {
        assert(s.drop_last().drop_last().drop_last().len() == 0);
        assert(is_digit(s[0]) && is_digit(s[1]) && is_digit(s[2]));
        assert(octet_text(v) == s);
    }
}

/// At most one octet can stand at a given place.
proof fn lemma_octet_at_unique(t: Seq<char>, start: int, v: u8, w: u8)
    requires
        octet_at(t, start, v),
        octet_at(t, start, w),
    ensures
        v == w,
{
    lemma_octet_text(v);
    lemma_octet_text(w);
    let lv = octet_text(v).len() as int;
    let lw = octet_text(w).len() as int;
    if lv < lw {
        assert(t[start + lv] == octet_text(w)[lv]);
    } else if lw < lv {
        assert(t[start + lw] == octet_text(v)[lw]);
    } else {
        assert(octet_text(v) == octet_text(w));
    }
}

/// Every octet that stands at `start` spans the whole run of digits that begins there.
proof fn lemma_octet_spans_run(t: Seq<char>, start: int, end: int, v: u8)
    requires
        0 <= start <= end <= t.len(),
        forall|k: int| start <= k < end ==> is_digit(#[trigger] t[k]),
        end == t.len() || !is_digit(t[end]) || end - start >= 4,
        octet_at(t, start, v),
    ensures
        end - start <= 3,
        t.subrange(start, end) == octet_text(v),
{
    lemma_octet_text(v);
    let l = octet_text(v).len() as int;
    assert(forall|k: int| 0 <= k < l ==> t[start + k] == #[trigger] octet_text(v)[k]) by {
        assert forall|k: int| 0 <= k < l implies t[start + k] == #[trigger] octet_text(v)[k] by {
            assert(t.subrange(start, start + l)[k] == t[start + k]);
        }
    }
    if l < end - start {
        assert(is_digit(t[start + l]));
    } else if l > end - start {
        assert(t[end] == octet_text(v)[end - start]);
    }
}

/// Reads the octet whose digits begin at `start` in `t`.
fn read_octet(t: &str, start: usize) -> (r: Option<(u8, usize)>)
    requires
        start <= t@.len(),
    ensures
        match r {
            Some((v, e)) => octet_at(t@, start as int, v) && e == start + octet_text(v).len(),
            None => forall|v: u8| !octet_at(t@, start as int, v),
        },
{
    let n = t.unicode_len();
    let mut end: usize = start;
    let mut val: u32 = 0;
    while end < n && end - start < 4 && is_digit_char(t.get_char(end))
        invariant
            n == t@.len(),
            start <= end <= n,
            end - start <= 4,
            forall|k: int| start <= k < end ==> is_digit(#[trigger] t@[k]),
            val == decimal_value(t@.subrange(start as int, end as int)),
            val < 10000,
            end - start <= 3 ==> val < 1000,
            end - start <= 2 ==> val < 100,
            end - start <= 1 ==> val < 10,
        decreases n - end,
    {
        let d = digit_value(t.get_char(end));
        proof {
            let next = t@.subrange(start as int, end + 1);
            assert(next.drop_last() == t@.subrange(start as int, end as int));
            assert(next.last() == t@[end as int]);
        }
        val = val * 10 + d as u32;
        end = end + 1;
    }
    let len = end - start;
    proof {
        assert(len >= 4 ==> end - start >= 4);
    }
    if len == 0 || len > 3 || val > 255 || (len > 1 && t.get_char(start) == '0') {
        proof {
            assert forall|v: u8| !octet_at(t@, start as int, v) by {
                if octet_at(t@, start as int, v) {
                    lemma_octet_spans_run(t@, start as int, end as int, v);
                    lemma_octet_text(v);
                    assert(t@.subrange(start as int, end as int)[0] == t@[start as int]);
                }
            }
        }
        return None;
    }
    let sub = Ghost(t@.subrange(start as int, end as int));
    proof {
        assert(sub@[0] == t@[start as int]);
        lemma_digits_are_octet(sub@);
    }
    Some((val as u8, end))
}

/// Whether `t` holds `c` at `i`.
fn char_is_at(t: &str, i: usize, c: char) -> (r: bool)
    ensures
        r == (i < t@.len() && t@[i as int] == c),
{
    i < t.unicode_len() && t.get_char(i) == c
}

proof fn lemma_dotted_structure(ip: Ipv4)
    ensures
        ({
            let s = dotted(ip);
            let la = octet_text(ip.a).len() as int;
            let lb = octet_text(ip.b).len() as int;
            let lc = octet_text(ip.c).len() as int;
            let ld = octet_text(ip.d).len() as int;
            &&& octet_at(s, 0, ip.a)
            &&& s[la] == '.'
            &&& octet_at(s, la + 1, ip.b)
            &&& s[la + lb + 1] == '.'
            &&& octet_at(s, la + lb + 2, ip.c)
            &&& s[la + lb + lc + 2] == '.'
            &&& octet_at(s, la + lb + lc + 3, ip.d)
            &&& s.len() == la + lb + lc + ld + 3
        }),
{
    let s = dotted(ip);
    let ta = octet_text(ip.a);
    let tb = octet_text(ip.b);
    let tc = octet_text(ip.c);
    let td = octet_text(ip.d);
    let la = ta.len() as int;
    let lb = tb.len() as int;
    let lc = tc.len() as int;
    let ld = td.len() as int;
    let dot = seq!['.'];
    assert(s == ta + dot + tb + dot + tc + dot + td);
    assert(s.subrange(0, la) == ta);
    assert(s.subrange(la + 1, la + 1 + lb) == tb);
    assert(s.subrange(la + lb + 2, la + lb + 2 + lc) == tc);
    assert(s.subrange(la + lb + lc + 3, la + lb + lc + 3 + ld) == td);
    assert(s[la] == '.');
    assert(s[la + lb + 1] == '.');
    assert(s[la + lb + lc + 2] == '.');
}

/// `t` holds octet `v` at `start`, followed by a dot, or by the end of `t` when `last`.
pub open spec fn part_at(t: Seq<char>, start: int, v: u8, last: bool) -> bool {
    let e = start + octet_text(v).len();
    &&& octet_at(t, start, v)
    &&& if last {
        e == t.len()
    } else {
        e < t.len() && t[e] == '.'
    }
}

/// Where the part after octet `v` at `start` begins.
pub open spec fn after_part(start: int, v: u8) -> int {
    start + octet_text(v).len() + 1
}

proof fn lemma_dotted_parts(ip: Ipv4)
    ensures
        ({
            let t = dotted(ip);
            let pos1 = after_part(0, ip.a);
            let pos2 = after_part(pos1, ip.b);
            let pos3 = after_part(pos2, ip.c);
            &&& part_at(t, 0, ip.a, false)
            &&& part_at(t, pos1, ip.b, false)
            &&& part_at(t, pos2, ip.c, false)
            &&& part_at(t, pos3, ip.d, true)
        }),
{
    lemma_dotted_structure(ip);
}

/// If the parts before the `n`-th were read as `a`, `b`, `c` and no part can be read at the
/// `n`-th place `at`, `t` is the text of no address.
proof fn lemma_not_dotted(t: Seq<char>, a: u8, b: u8, c: u8, n: int, at: int, last: bool)
    requires
        0 <= n <= 3,
        n >= 1 ==> part_at(t, 0, a, false),
        n >= 2 ==> part_at(t, after_part(0, a), b, false),
        n >= 3 ==> part_at(t, after_part(after_part(0, a), b), c, false),
        at == if n == 0 {
            0
        } else if n == 1 {
            after_part(0, a)
        } else if n == 2 {
            after_part(after_part(0, a), b)
        } else {
            after_part(after_part(after_part(0, a), b), c)
        },
        last == (n == 3),
        forall|v: u8| !#[trigger] part_at(t, at, v, last),
    ensures
        forall|ip: Ipv4| t != dotted(ip),
{
    assert forall|ip: Ipv4| t != dotted(ip) by {
        if t == dotted(ip) {
            lemma_dotted_parts(ip);
            if n >= 1 {
                lemma_octet_at_unique(t, 0, a, ip.a);
            }
            if n >= 2 {
                lemma_octet_at_unique(t, after_part(0, a), b, ip.b);
            }
            if n >= 3 {
                lemma_octet_at_unique(t, after_part(after_part(0, a), b), c, ip.c);
            }
        }
    }
}

/// Reads the octet at `start` and the dot after it, or the end of `t` when `last`; returns the
/// octet and where the next part begins.
fn read_part(t: &str, start: usize, last: bool) -> (r: Option<(u8, usize)>)
    requires
        start <= t@.len(),
    ensures
        match r {
            Some((v, next)) => part_at(t@, start as int, v, last) && (!last ==> next
                == after_part(start as int, v)),
            None => forall|v: u8| !part_at(t@, start as int, v, last),
        },
{
    match read_octet(t, start) {
        None => None,
        Some((v, e)) => {
            let n = t.unicode_len();
            let ok = if last {
                e == n
            } else {
                char_is_at(t, e, '.')
            };
            if ok && last {
                Some((v, e))
            } else if ok {
                Some((v, e + 1))
            } else {
                proof {
                    assert forall|w: u8| !part_at(t@, start as int, w, last) by {
                        if octet_at(t@, start as int, w) {
                            lemma_octet_at_unique(t@, start as int, v, w);
                        }
                    }
                }
                None
            }
        },
    }
}

/// Reads an IPv4 address from `s`: white space at either end is ignored, and the rest must be
/// the canonical dotted-quad text of an address (four decimal octets without leading zeros).
pub fn parse_ipv4(s: &str) -> (r: Option<Ipv4>)
    ensures
        match r {
            Some(ip) => trimmed(s@) == dotted(ip),
            None => forall|ip: Ipv4| trimmed(s@) != dotted(ip),
        },
{
    let owned = trim_to_string(s);
    let t = owned.as_str();
    let ghost ts = t@;
    let (a, pos1) = match read_part(t, 0, false) {
        Some(x) => x,
        None => {
            proof {
                lemma_not_dotted(ts, 0, 0, 0, 0, 0, false);
            }
            return None;
        },
    };
    let (b, pos2) = match read_part(t, pos1, false) {
        Some(x) => x,
        None => {
            proof {
                lemma_not_dotted(ts, a, 0, 0, 1, pos1 as int, false);
            }
            return None;
        },
    };
    let (c, pos3) = match read_part(t, pos2, false) {
        Some(x) => x,
        None => {
            proof {
                lemma_not_dotted(ts, a, b, 0, 2, pos2 as int, false);
            }
            return None;
        },
    };
    let (d, _) = match read_part(t, pos3, true) {
        Some(x) => x,
        None => {
            proof {
                lemma_not_dotted(ts, a, b, c, 3, pos3 as int, true);
            }
            return None;
        },
    };
    let ip = Ipv4 { a, b, c, d };
    proof {
        let e1 = pos1 - 1;
        let e2 = pos2 - 1;
        let e3 = pos3 - 1;
        assert(ts =~= ts.subrange(0, e1) + seq!['.'] + ts.subrange(pos1 as int, e2) + seq!['.']
            + ts.subrange(pos2 as int, e3) + seq!['.'] + ts.subrange(pos3 as int, ts.len() as int));
    }
    Some(ip)
}

/// Appends the text of octet `v` to `out`.
fn push_octet(out: &mut String, v: u8)
    ensures
        final(out)@ == old(out)@ + octet_text(v),
{
    let ghost start = out@;
    if v >= 100 {
        push_char(out, digit_to_char(v / 100));
    }
    if v >= 10 {
        push_char(out, digit_to_char((v / 10) % 10));
    }
    push_char(out, digit_to_char(v % 10));
    proof {
        assert(out@ == start + octet_text(v));
    }
}

impl Ipv4 {
    /// The canonical dotted-quad text of the address.
    pub fn to_string(&self) -> (r: String)
        ensures
            r@ == dotted(*self),
    {
        let mut out = String::new();
        push_octet(&mut out, self.a);
        push_char(&mut out, '.');
        push_octet(&mut out, self.b);
        push_char(&mut out, '.');
        push_octet(&mut out, self.c);
        push_char(&mut out, '.');
        push_octet(&mut out, self.d);
        proof {
            assert(out@ == dotted(*self));
        }
        out
    }
}

} // verus!
