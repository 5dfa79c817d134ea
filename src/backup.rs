use vstd::prelude::*;
use vstd::string::*;

use crate::text::push_char;

verus! {

/// The most characters of a record name that go into a backup file name.
pub const MAX_NAME_CHARS: usize = 128;

/// The directory that holds the backups.
pub const BACKUP_DIR: &'static str = "backups";

/// The strftime pattern of the timestamp that begins a backup file name.
pub const TIMESTAMP_FORMAT: &'static str = "%Y%m%d_%H%M%S";

/// A character that may stand in a backup file name.
pub open spec fn is_safe(c: char) -> bool {
    ('a' <= c && c <= 'z') || ('A' <= c && c <= 'Z') || ('0' <= c && c <= '9') || c == '.'
        || c == '_' || c == '-'
}

/// `c`, or `_` where `c` may not stand in a file name.
pub open spec fn safe_char(c: char) -> char {
    if is_safe(c) {
        c
    } else {
        '_'
    }
}

/// What stands for an empty record name.
pub open spec fn placeholder() -> Seq<char> {
    "unnamed"@
}

/// The file-name-safe form of a record name: each character that may not stand in a file name
/// becomes `_`, at most the first 128 characters are kept, and the empty name becomes the
/// placeholder.
pub open spec fn sanitized(s: Seq<char>) -> Seq<char> {
    if s.len() == 0 {
        placeholder()
    } else {
        Seq::new(
            if s.len() <= MAX_NAME_CHARS {
                s.len()
            } else {
                MAX_NAME_CHARS as nat
            },
            |i: int| safe_char(s[i]),
        )
    }
}

/// The name of the backup file of a record named `name`, written at `timestamp`.
pub open spec fn backup_name(timestamp: Seq<char>, name: Seq<char>) -> Seq<char> {
    timestamp + seq!['_'] + sanitized(name) + "_backup.json"@
}

fn safe_char_of(c: char) -> (r: char)
    ensures
        r == safe_char(c),
{
    if ('a' <= c && c <= 'z') || ('A' <= c && c <= 'Z') || ('0' <= c && c <= '9') || c == '.'
        || c == '_' || c == '-' {
        c
    } else {
        '_'
    }
}

/// The file-name-safe form of a record name.
pub fn sanitize_name(name: &str) -> (r: String)
    ensures
        r@ == sanitized(name@),
{
    let n = name.unicode_len();
    if n == 0 {
        return String::from_str("unnamed");
    }
    let limit = if n <= MAX_NAME_CHARS {
        n
    } else {
        MAX_NAME_CHARS
    };
    let mut out = String::new();
    let mut i: usize = 0;
    while i < limit
        invariant
            n == name@.len(),
            limit <= n,
            i <= limit,
            out@ == Seq::new(i as nat, |k: int| safe_char(name@[k])),
        decreases limit - i,
    {
        push_char(&mut out, safe_char_of(name.get_char(i)));
        i = i + 1;
        proof {
            assert(out@ =~= Seq::new(i as nat, |k: int| safe_char(name@[k])));
        }
    }
    proof {
        assert(out@ =~= sanitized(name@));
    }
    out
}

/// The name of the backup file of a record named `name`, written at `timestamp`:
/// `{timestamp}_{sanitized name}_backup.json`.
pub fn backup_file_name(timestamp: &str, name: &str) -> (r: String)
    ensures
        r@ == backup_name(timestamp@, name@),
{
    let mut out = String::from_str(timestamp);
    push_char(&mut out, '_');
    let safe = sanitize_name(name);
    out.append(safe.as_str());
    out.append("_backup.json");
    out
}

/// Relies on `chrono::Local::now` and `DateTime::format`: the local time now, formatted by the
/// strftime pattern `fmt`, which is one that chrono can format (else `to_string` panics).
#[verifier::external_body]
fn local_time_text(fmt: &str) -> (r: String)
    requires
        fmt@ == TIMESTAMP_FORMAT@,
{
    chrono::Local::now().format(fmt).to_string()
}

/// The name of the backup file of a record named `name`, written now: the local time as
/// `YYYYMMDD_HHMMSS`, then `_`, the sanitized name and `_backup.json`.
pub fn backup_file_name_now(name: &str) -> (r: String)
    ensures
        exists|timestamp: Seq<char>| r@ == backup_name(timestamp, name@),
{
    let timestamp = local_time_text(TIMESTAMP_FORMAT);
    backup_file_name(timestamp.as_str(), name)
}

/// Sanitization is total and idempotent: every name gives a non-empty result of at most 128
/// characters, each a letter or digit of ASCII, `.`, `_` or `-`, and sanitizing that result
/// again changes nothing.
pub proof fn lemma_sanitize_safe_and_idempotent(s: Seq<char>)
    ensures
        0 < sanitized(s).len() <= MAX_NAME_CHARS,
        forall|i: int| 0 <= i < sanitized(s).len() ==> is_safe(#[trigger] sanitized(s)[i]),
        sanitized(sanitized(s)) == sanitized(s),
{
    reveal_strlit("unnamed");
    let t = sanitized(s);
    assert(sanitized(t) =~= t);
}

} // verus!
