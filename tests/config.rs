use flaresync::config::{parse_u64, split_domain_names, Config};
use flaresync::errors::FlareSyncError;

fn some(s: &str) -> Option<String> {
    Some(s.to_string())
}

#[test]
fn test_config_from_env_missing_vars() {
    let result = Config::from_values(None, None, None, None);
    assert!(result.is_err());
}

#[test]
fn test_config_from_env_success() {
    let config = Config::from_values(
        some("test_token"),
        some("test_zone_id"),
        some("example.com;another.com"),
        some("15"),
    )
    .unwrap();
    assert_eq!(config.api_token, "test_token");
    assert_eq!(config.zone_id, "test_zone_id");
    assert_eq!(config.domain_names, vec!["example.com", "another.com"]);
    assert_eq!(config.update_interval_secs(), 15 * 60);
}

#[test]
fn each_missing_setting_is_a_config_error() {
    let all = [some("t"), some("z"), some("a.com"), some("5")];
    for missing in 0..4 {
        let mut v = all.clone();
        v[missing] = None;
        let [t, z, d, u] = v;
        assert!(matches!(Config::from_values(t, z, d, u), Err(FlareSyncError::Config(_))));
    }
}

#[test]
fn invalid_interval_is_rejected() {
    for bad in ["0", "abc", "-5", "", "1.5", "18446744073709551616", "307445734561825861"] {
        let r = Config::from_values(some("t"), some("z"), some("a.com"), some(bad));
        assert!(matches!(r, Err(FlareSyncError::Config(_))), "{bad}");
    }
    let r = Config::from_values(some("t"), some("z"), some("a.com"), some("307445734561825860"));
    assert_eq!(r.unwrap().update_interval_secs(), 307445734561825860 * 60);
}

#[test]
fn domain_list_without_names_is_rejected() {
    let r = Config::from_values(some("t"), some("z"), some(" ; , "), some("5"));
    assert!(matches!(r, Err(FlareSyncError::Config(_))));
}

#[test]
fn domain_names_are_split_trimmed_and_filtered() {
    assert_eq!(
        split_domain_names(" a.com , b.org;;c.net ; "),
        vec!["a.com", "b.org", "c.net"]
    );
    assert_eq!(split_domain_names("single.example"), vec!["single.example"]);
    assert!(split_domain_names("").is_empty());
}

#[test]
fn parse_u64_follows_std() {
    assert_eq!(parse_u64("15"), Some(15));
    assert_eq!(parse_u64("+15"), Some(15));
    assert_eq!(parse_u64("007"), Some(7));
    assert_eq!(parse_u64("18446744073709551615"), Some(u64::MAX));
    assert_eq!(parse_u64("18446744073709551616"), None);
    assert_eq!(parse_u64("+"), None);
    assert_eq!(parse_u64(""), None);
    assert_eq!(parse_u64("-1"), None);
    assert_eq!(parse_u64(" 1"), None);
    for s in ["0", "42", "+9", "1x", "99999999999999999999"] {
        assert_eq!(parse_u64(s), s.parse::<u64>().ok(), "{s}");
    }
}
