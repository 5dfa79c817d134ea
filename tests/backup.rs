use flaresync::backup::{backup_file_name, backup_file_name_now, sanitize_name};
use flaresync::cloudflare::DnsRecord;

#[test]
fn test_backup_dns_record() {
    let record = DnsRecord {
        id: "1".to_string(),
        name: "test.com".to_string(),
        content: "127.0.0.1".to_string(),
        record_type: "A".to_string(),
        proxied: false,
        ttl: 120,
    };
    let name = backup_file_name_now(&record.name);
    assert!(name.contains("test.com_backup.json"), "Backup file was not found");
    assert_eq!(name.len(), "YYYYMMDD_HHMMSS".len() + "_test.com_backup.json".len());
    assert!(name[..8].chars().all(|c| c.is_ascii_digit()));
    assert_eq!(&name[8..9], "_");
}

#[test]
fn backup_file_name_layout() {
    assert_eq!(
        backup_file_name("20240131_235959", "home.example.com"),
        "20240131_235959_home.example.com_backup.json"
    );
}

#[test]
fn sanitize_replaces_separators() {
    assert_eq!(sanitize_name("../weird/name"), ".._weird_name");
    assert_eq!(sanitize_name("a\\b c:d"), "a_b_c_d");
    assert_eq!(sanitize_name("ok-name_1.example"), "ok-name_1.example");
    assert_eq!(sanitize_name("ünï"), "_n_");
}

#[test]
fn sanitize_empty_gives_placeholder() {
    assert_eq!(sanitize_name(""), "unnamed");
}

#[test]
fn sanitize_caps_length() {
    let long = "x".repeat(300);
    assert_eq!(sanitize_name(&long), "x".repeat(128));
    let exact = "y".repeat(128);
    assert_eq!(sanitize_name(&exact), exact);
}

#[test]
fn sanitize_is_idempotent_and_safe() {
    for s in ["", "../weird/name", "a b/c", "日本語", "host.example.com", &"z/".repeat(100)] {
        let once = sanitize_name(s);
        assert_eq!(sanitize_name(&once), once);
        assert!(!once.is_empty() && once.chars().count() <= 128);
        assert!(once.chars().all(|c| c.is_ascii_alphanumeric() || c == '.' || c == '_' || c == '-'));
    }
}

#[test]
fn backup_file_name_sanitizes_record_name() {
    assert_eq!(backup_file_name("T", "a/b"), "T_a_b_backup.json");
    assert_eq!(backup_file_name("T", ""), "T_unnamed_backup.json");
}
