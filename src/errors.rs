use vstd::prelude::*;
use vstd::string::*;

verus! {

/// The code with which the provider reports that a client is rate limited.
pub const RATE_LIMITED_CODE: i64 = 1015;

/// One error object of a provider response.
#[derive(Clone, Debug)]
pub struct ApiError {
    pub code: Option<i64>,
    pub message: Option<String>,
}

/// What went wrong in a transport-level request.
#[derive(Clone, Debug)]
pub struct NetworkFailure {
    /// The HTTP status of the response, where one came.
    pub status: Option<u16>,
    /// Whether a deadline passed while sending the request or reading the response.
    pub timed_out: bool,
    pub message: String,
}

/// The errors of this library.
#[derive(Clone, Debug)]
pub enum FlareSyncError {
    /// A missing or invalid setting.
    Config(String),
    /// A failure to create the backup directory or to write a backup.
    Io(String),
    /// A transport-level failure.
    Network(NetworkFailure),
    /// A response body that could not be decoded.
    Json(String),
    /// A response in which the provider reported failure, with its error objects.
    Cloudflare(Vec<ApiError>),
    /// An address source answered with text that is not an IPv4 address.
    InvalidIp(String),
    /// No address was reported by a strict majority of the sources.
    QuorumNotReached,
    /// A reconciler was told of an event that does not fit where it stands.
    OutOfOrder,
}

/// `c` with ASCII upper case letters made lower case.
pub open spec fn ascii_lower(c: char) -> char {
    if 'A' <= c && c <= 'Z' {
        ((c as u8) + 32) as char
    } else {
        c
    }
}

/// `needle` stands at `i` in `hay`, ignoring ASCII case in `hay`.
pub open spec fn folded_match_at(hay: Seq<char>, needle: Seq<char>, i: int) -> bool {
    &&& 0 <= i
    &&& i + needle.len() <= hay.len()
    &&& forall|k: int| 0 <= k < needle.len() ==> ascii_lower(#[trigger] hay[i + k]) == needle[k]
}

/// `hay` contains `needle`, ignoring ASCII case in `hay`.
pub open spec fn contains_folded(hay: Seq<char>, needle: Seq<char>) -> bool {
    exists|i: int| folded_match_at(hay, needle, i)
}

/// A provider message that says the request may succeed later.
pub open spec fn transient_message(m: Seq<char>) -> bool {
    contains_folded(m, "rate limit"@) || contains_folded(m, "ratelimit"@) || contains_folded(
        m,
        "too many requests"@,
    ) || contains_folded(m, "temporar"@) || contains_folded(m, "timeout"@) || contains_folded(
        m,
        "try again"@,
    )
}

/// A provider error object that says the request may succeed later.
pub open spec fn transient_api_error(e: ApiError) -> bool {
    e.code == Some(RATE_LIMITED_CODE) || (e.message is Some && transient_message(
        e.message->0@,
    ))
}

/// Provider error objects of which at least one is transient.
pub open spec fn transient_api_errors(es: Seq<ApiError>) -> bool {
    exists|i: int| 0 <= i < es.len() && transient_api_error(#[trigger] es[i])
}

/// An HTTP status that asks the client to come back later: 429 or any 5xx.
pub open spec fn transient_status(s: u16) -> bool {
    s == 429 || (500 <= s && s <= 599)
}

/// A transport-level failure that may not recur: no response at all, a deadline that passed,
/// or a status that asks the client to come back later.
pub open spec fn transient_network(f: NetworkFailure) -> bool {
    f.timed_out || match f.status {
        None => true,
        Some(s) => transient_status(s),
    }
}

/// Whether an error is worth retrying.
pub open spec fn transient(e: FlareSyncError) -> bool {
    match e {
        FlareSyncError::Network(f) => transient_network(f),
        FlareSyncError::Cloudflare(es) => transient_api_errors(es@),
        _ => false,
    }
}

fn ascii_lower_char(c: char) -> (r: char)
    ensures
        r == ascii_lower(c),
{
    if 'A' <= c && c <= 'Z' {
        ((c as u8) + 32) as char
    } else {
        c
    }
}

/// Whether `hay` contains `needle`, ignoring ASCII case in `hay`.
pub fn contains_ignoring_case(hay: &str, needle: &str) -> (r: bool)
    ensures
        r == contains_folded(hay@, needle@),
{
    let n = hay.unicode_len();
    let m = needle.unicode_len();
    if m > n {
        return false;
    }
    let mut i: usize = 0;
    while i <= n - m
        invariant
            n == hay@.len(),
            m == needle@.len(),
            m <= n,
            forall|j: int| 0 <= j < i ==> !folded_match_at(hay@, needle@, j),
        decreases n - m + 1 - i,
    {
        let mut k: usize = 0;
        let mut ok = true;
        while k < m && ok
            invariant
                n == hay@.len(),
                m == needle@.len(),
                i + m <= n,
                k <= m,
                ok ==> forall|q: int| 0 <= q < k ==> ascii_lower(#[trigger] hay@[i + q])
                    == needle@[q],
                !ok ==> !folded_match_at(hay@, needle@, i as int),
            decreases m - k,
        {
            if ascii_lower_char(hay.get_char(i + k)) != needle.get_char(k) {
                ok = false;
            }
            k = k + 1;
        }
        if ok {
            assert(folded_match_at(hay@, needle@, i as int));
            return true;
        }
        i = i + 1;
    }
    false
}

/// Whether a provider message says the request may succeed later.
pub fn is_transient_message(m: &str) -> (r: bool)
    ensures
        r == transient_message(m@),
{
    contains_ignoring_case(m, "rate limit") || contains_ignoring_case(m, "ratelimit")
        || contains_ignoring_case(m, "too many requests") || contains_ignoring_case(m, "temporar")
        || contains_ignoring_case(m, "timeout") || contains_ignoring_case(m, "try again")
}

impl ApiError {
    /// Whether this error object says the request may succeed later.
    pub fn is_transient(&self) -> (r: bool)
        ensures
            r == transient_api_error(*self),
    {
        if self.code == Some(RATE_LIMITED_CODE) {
            return true;
        }
        match &self.message {
            Some(m) => is_transient_message(m.as_str()),
            None => false,
        }
    }
}

/// Whether at least one of the provider's error objects is transient.
pub fn any_transient(errors: &Vec<ApiError>) -> (r: bool)
    ensures
        r == transient_api_errors(errors@),
{
    let mut i: usize = 0;
    while i < errors.len()
        invariant
            i <= errors@.len(),
            forall|j: int| 0 <= j < i ==> !transient_api_error(#[trigger] errors@[j]),
        decreases errors@.len() - i,
    {
        if errors[i].is_transient() {
            return true;
        }
        i = i + 1;
    }
    false
}

/// Whether an HTTP status asks the client to come back later.
pub fn is_transient_status(s: u16) -> (r: bool)
    ensures
        r == transient_status(s),
{
    s == 429 || (500 <= s && s <= 599)
}

impl NetworkFailure {
    /// Whether this failure may not recur.
    pub fn is_transient(&self) -> (r: bool)
        ensures
            r == transient_network(*self),
    {
        if self.timed_out {
            return true;
        }
        match self.status {
            None => true,
            Some(s) => is_transient_status(s),
        }
    }
}

impl FlareSyncError {
    /// Whether the failed operation is worth retrying.
    pub fn is_transient(&self) -> (r: bool)
        ensures
            r == transient(*self),
    {
        match self {
            FlareSyncError::Network(f) => f.is_transient(),
            FlareSyncError::Cloudflare(es) => any_transient(es),
            _ => false,
        }
    }
}

/// The messages of the provider's error objects that carry one, separated by `; `.
pub open spec fn joined_messages(es: Seq<ApiError>) -> Seq<char>
    decreases es.len(),
{
    if es.len() == 0 {
        Seq::empty()
    } else {
        let rest = joined_messages(es.drop_last());
        match es.last().message {
            None => rest,
            Some(m) => if rest.len() == 0 {
                m@
            } else {
                rest + "; "@ + m@
            },
        }
    }
}

/// The text that describes an error to an operator.
pub open spec fn error_text(e: FlareSyncError) -> Seq<char> {
    match e {
        FlareSyncError::Config(s) => "Configuration error: "@ + s@,
        FlareSyncError::Io(s) => "IO error: "@ + s@,
        FlareSyncError::Network(f) => "Network error: "@ + f.message@,
        FlareSyncError::Json(s) => "JSON error: "@ + s@,
        FlareSyncError::Cloudflare(es) => "Cloudflare API error: "@ + joined_messages(es@),
        FlareSyncError::InvalidIp(s) => "Failed to parse IP address: "@ + s@,
        FlareSyncError::QuorumNotReached => "IP address quorum not reached"@,
        FlareSyncError::OutOfOrder => "Reconciliation event out of order"@,
    }
}

fn append_messages(out: &mut String, es: &Vec<ApiError>)
    ensures
        final(out)@ == old(out)@ + joined_messages(es@),
{
    let ghost start = out@;
    let mut any = false;
    let mut i: usize = 0;
    while i < es.len()
        invariant
            i <= es@.len(),
            out@ == start + joined_messages(es@.subrange(0, i as int)),
            any == (joined_messages(es@.subrange(0, i as int)).len() > 0),
        decreases es@.len() - i,
    {
        proof {
            let next = es@.subrange(0, i + 1);
            assert(next.drop_last() == es@.subrange(0, i as int));
            reveal_strlit("; ");
        }
        match &es[i].message {
            Some(m) => {
                if any {
                    out.append("; ");
                }
                out.append(m.as_str());
                proof {
                    assert(out@ =~= start + joined_messages(es@.subrange(0, i + 1)));
                }
                any = any || m.unicode_len() > 0;
            },
            None => {},
        }
        i = i + 1;
    }
    proof {
        assert(es@.subrange(0, i as int) == es@);
    }
}

fn prefixed(prefix: &str, rest: &str) -> (r: String)
    ensures
        r@ == prefix@ + rest@,
{
    let mut out = String::from_str(prefix);
    out.append(rest);
    out
}

impl FlareSyncError {
    /// The text that describes the error to an operator, such as
    /// `Configuration error: DOMAIN_NAME must be set`.
    pub fn to_string(&self) -> (r: String)
        ensures
            r@ == error_text(*self),
    {
        match self {
            FlareSyncError::Config(s) => prefixed("Configuration error: ", s.as_str()),
            FlareSyncError::Io(s) => prefixed("IO error: ", s.as_str()),
            FlareSyncError::Network(f) => prefixed("Network error: ", f.message.as_str()),
            FlareSyncError::Json(s) => prefixed("JSON error: ", s.as_str()),
            FlareSyncError::Cloudflare(es) => {
                let mut out = String::from_str("Cloudflare API error: ");
                append_messages(&mut out, es);
                out
            },
            FlareSyncError::InvalidIp(s) => prefixed("Failed to parse IP address: ", s.as_str()),
            FlareSyncError::QuorumNotReached => String::from_str("IP address quorum not reached"),
            FlareSyncError::OutOfOrder => String::from_str("Reconciliation event out of order"),
        }
    }
}

/// A provider error object with the rate-limited code is transient, whatever its message says,
/// and so is a provider failure that reports one among its errors.
pub proof fn lemma_rate_limited_is_transient(message: Option<String>, errors: Seq<ApiError>, i: int)
    requires
        0 <= i < errors.len(),
        errors[i].code == Some(RATE_LIMITED_CODE),
    ensures
        transient_api_error(ApiError { code: Some(RATE_LIMITED_CODE), message }),
        transient_api_errors(errors),
{
    assert(transient_api_error(errors[i]));
}

} // verus!
