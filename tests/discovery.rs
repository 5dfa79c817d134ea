use flaresync::discovery::{resolve_quorum, source_outcome};
use flaresync::errors::FlareSyncError;
use flaresync::ipv4::{parse_ipv4, Ipv4};

fn ip(a: u8, b: u8, c: u8, d: u8) -> Ipv4 {
    Ipv4 { a, b, c, d }
}

#[test]
fn parses_plain_address() {
    assert_eq!(parse_ipv4("203.0.113.9"), Some(ip(203, 0, 113, 9)));
    assert_eq!(parse_ipv4("0.0.0.0"), Some(ip(0, 0, 0, 0)));
    assert_eq!(parse_ipv4("255.255.255.255"), Some(ip(255, 255, 255, 255)));
}

#[test]
fn parses_address_with_surrounding_whitespace() {
    assert_eq!(parse_ipv4("  198.51.100.7\n"), Some(ip(198, 51, 100, 7)));
    assert_eq!(parse_ipv4("\t10.0.0.1\r\n"), Some(ip(10, 0, 0, 1)));
}

#[test]
fn rejects_malformed_addresses() {
    assert_eq!(parse_ipv4(""), None);
    assert_eq!(parse_ipv4("   "), None);
    assert_eq!(parse_ipv4("1.2.3"), None);
    assert_eq!(parse_ipv4("1.2.3.4.5"), None);
    assert_eq!(parse_ipv4("256.1.1.1"), None);
    assert_eq!(parse_ipv4("1.2.3.1000"), None);
    assert_eq!(parse_ipv4("01.2.3.4"), None);
    assert_eq!(parse_ipv4("1..3.4"), None);
    assert_eq!(parse_ipv4("1.2.3.4."), None);
    assert_eq!(parse_ipv4("a.b.c.d"), None);
    assert_eq!(parse_ipv4("1.2.3.4 x"), None);
    assert_eq!(parse_ipv4("<html>1.2.3.4</html>"), None);
}

#[test]
fn renders_dotted_quad() {
    assert_eq!(ip(203, 0, 113, 9).to_string(), "203.0.113.9");
    assert_eq!(ip(0, 10, 100, 255).to_string(), "0.10.100.255");
}

#[test]
fn rendering_parses_back() {
    let samples = [ip(1, 2, 3, 4), ip(99, 100, 9, 10), ip(255, 0, 128, 7)];
    for s in samples {
        assert_eq!(parse_ipv4(&s.to_string()), Some(s));
    }
}

#[test]
fn quorum_two_of_three_agree() {
    let a = ip(203, 0, 113, 9);
    let b = ip(198, 51, 100, 1);
    let r = resolve_quorum(&vec![Some(a), Some(a), Some(b)]);
    assert!(matches!(r, Ok(x) if x == a));
    let r = resolve_quorum(&vec![Some(b), Some(a), Some(a)]);
    assert!(matches!(r, Ok(x) if x == a));
}

#[test]
fn quorum_all_distinct_fails() {
    let r = resolve_quorum(&vec![Some(ip(1, 1, 1, 1)), Some(ip(2, 2, 2, 2)), Some(ip(3, 3, 3, 3))]);
    assert!(matches!(r, Err(FlareSyncError::QuorumNotReached)));
}

#[test]
fn quorum_two_agree_one_failed() {
    let a = ip(203, 0, 113, 9);
    let r = resolve_quorum(&vec![Some(a), None, Some(a)]);
    assert!(matches!(r, Ok(x) if x == a));
}

#[test]
fn quorum_all_failed() {
    let r = resolve_quorum(&vec![None, None, None]);
    assert!(matches!(r, Err(FlareSyncError::QuorumNotReached)));
}

#[test]
fn quorum_single_answer_is_not_enough() {
    let r = resolve_quorum(&vec![Some(ip(1, 2, 3, 4)), None, None]);
    assert!(matches!(r, Err(FlareSyncError::QuorumNotReached)));
    let r = resolve_quorum(&vec![]);
    assert!(matches!(r, Err(FlareSyncError::QuorumNotReached)));
}

#[test]
fn source_outcome_reads_body() {
    let ok: Result<String, FlareSyncError> = Ok(" 203.0.113.9\n".to_string());
    assert_eq!(source_outcome(&ok), Some(ip(203, 0, 113, 9)));
    let bad: Result<String, FlareSyncError> = Ok("not an address".to_string());
    assert_eq!(source_outcome(&bad), None);
    let failed: Result<String, FlareSyncError> = Err(FlareSyncError::QuorumNotReached);
    assert_eq!(source_outcome(&failed), None);
}
