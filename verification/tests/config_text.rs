use away::config::Config;
use away::text::{hex_encode, parse_u64, split_comma_list, trimmed, u64_to_decimal};

#[test]
fn defaults_when_nothing_is_set() {
    let c = Config::from_vars(None, None, None, None, None, None, None);
    assert_eq!(c.bind, "127.0.0.1:9000");
    assert_eq!(c.accounts_path, "accounts.json");
    assert!(c.turn_secret.is_none());
    assert!(c.turn_urls.is_empty());
    assert_eq!(c.stun_urls, vec!["stun:stun.l.google.com:19302".to_string()]);
    assert_eq!(c.turn_ttl, 600);
    assert!(!c.allow_register);
}

#[test]
fn values_from_the_environment() {
    let c = Config::from_vars(
        Some("0.0.0.0:9100".into()),
        Some("/var/lib/away/accounts.json".into()),
        Some("s3cret".into()),
        Some("turn:relay:3478?transport=udp, turns:relay:5349 ,".into()),
        Some("stun:relay:3478".into()),
        Some("120".into()),
        Some("yes".into()),
    );
    assert_eq!(c.bind, "0.0.0.0:9100");
    assert_eq!(c.accounts_path, "/var/lib/away/accounts.json");
    assert_eq!(c.turn_secret.as_deref(), Some("s3cret"));
    assert_eq!(c.turn_urls, vec!["turn:relay:3478?transport=udp".to_string(), "turns:relay:5349".to_string()]);
    assert_eq!(c.stun_urls, vec!["stun:relay:3478".to_string()]);
    assert_eq!(c.turn_ttl, 120);
    assert!(c.allow_register);
}

#[test]
fn empty_secret_bad_ttl_and_other_flags() {
    let c = Config::from_vars(None, None, Some("".into()), None, Some(" , ".into()), Some("-5".into()), Some("on".into()));
    assert!(c.turn_secret.is_none());
    assert_eq!(c.stun_urls, vec!["stun:stun.l.google.com:19302".to_string()]);
    assert_eq!(c.turn_ttl, 600);
    assert!(!c.allow_register);
    for yes in ["1", "true", "yes"] {
        assert!(Config::from_vars(None, None, None, None, None, None, Some(yes.into())).allow_register);
    }
}

#[test]
fn numbers_parse_like_std() {
    assert_eq!(parse_u64("600"), Some(600));
    assert_eq!(parse_u64("+7"), Some(7));
    assert_eq!(parse_u64("18446744073709551615"), Some(u64::MAX));
    assert_eq!(parse_u64("18446744073709551616"), None);
    assert_eq!(parse_u64(""), None);
    assert_eq!(parse_u64("+"), None);
    assert_eq!(parse_u64(" 1"), None);
    assert_eq!(parse_u64("1a"), None);
    for n in [0u64, 9, 10, 1234567890, u64::MAX] {
        assert_eq!(parse_u64(&u64_to_decimal(n)), Some(n));
        assert_eq!(u64_to_decimal(n), n.to_string());
    }
}

#[test]
fn text_helpers() {
    assert_eq!(trimmed("  a b \t"), "a b");
    assert_eq!(hex_encode(&[0x00, 0xab, 0x10, 0xff]), "00ab10ff");
    assert_eq!(split_comma_list("a, b,,c ,"), vec!["a".to_string(), "b".to_string(), "c".to_string()]);
}
