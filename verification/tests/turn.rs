use away::config::Config;
use away::turn::{ice_servers_at, ice_servers_for, sign};

fn cfg(secret: Option<&str>, turn: Vec<&str>, stun: Vec<&str>) -> Config {
    Config {
        bind: "127.0.0.1:0".into(),
        accounts_path: "accounts.json".into(),
        turn_secret: secret.map(|s| s.to_string()),
        turn_urls: turn.into_iter().map(String::from).collect(),
        stun_urls: stun.into_iter().map(String::from).collect(),
        turn_ttl: 600,
        allow_register: false,
    }
}

#[test]
fn stun_only_when_no_turn_secret() {
    let cfg = Config {
        bind: "127.0.0.1:0".into(),
        accounts_path: "accounts.json".into(),
        turn_secret: None,
        turn_urls: vec!["turn:example:3478".into()],
        stun_urls: vec!["stun:example:3478".into()],
        turn_ttl: 600,
        allow_register: false,
    };
    let s = ice_servers_for(&cfg, "murat");
    assert_eq!(s.len(), 1);
    assert!(s[0].username.is_none());
}

#[test]
fn turn_credentials_are_generated() {
    let cfg = Config {
        bind: "127.0.0.1:0".into(),
        accounts_path: "accounts.json".into(),
        turn_secret: Some("topsecret".into()),
        turn_urls: vec!["turn:example:3478".into()],
        stun_urls: vec![],
        turn_ttl: 600,
        allow_register: false,
    };
    let s = ice_servers_for(&cfg, "murat");
    assert_eq!(s.len(), 1);
    let turn = &s[0];
    assert!(turn.username.as_ref().unwrap().ends_with(":murat"));
    assert!(turn.credential.is_some());
}

#[test]
fn sign_matches_known_hmac_sha1_vector() {
    // HMAC-SHA1("key", "The quick brown fox jumps over the lazy dog")
    // = de7c9b85b8b78aa6bc8a7a36f70a90701c9db4d9
    assert_eq!(sign("key", "The quick brown fox jumps over the lazy dog"), "3nybhbi3iqa8ino29wqQcBydtNk=");
    assert_eq!(sign("", "").len(), 28);
    assert_eq!(sign("a much longer secret than any block of sixty-four bytes would hold, really", "x").len(), 28);
}

#[test]
fn turn_entry_at_a_given_time() {
    let c = cfg(Some("topsecret"), vec!["turn:relay:3478", "turns:relay:5349"], vec!["stun:relay:3478"]);
    let s = ice_servers_at(&c, "murat", 1_000);
    assert_eq!(s.len(), 2);
    assert_eq!(s[0].urls, vec!["stun:relay:3478".to_string()]);
    assert!(s[0].username.is_none() && s[0].credential.is_none());
    assert_eq!(s[1].urls, vec!["turn:relay:3478".to_string(), "turns:relay:5349".to_string()]);
    assert_eq!(s[1].username.as_deref(), Some("1600:murat"));
    assert_eq!(s[1].credential.as_deref(), Some(sign("topsecret", "1600:murat").as_str()));
    // base64 of a 20-byte tag is 28 characters.
    assert_eq!(s[1].credential.as_ref().unwrap().len(), 28);
}

#[test]
fn turn_needs_urls_as_well_as_a_secret() {
    let c = cfg(Some("topsecret"), vec![], vec!["stun:relay:3478"]);
    let s = ice_servers_at(&c, "murat", 5);
    assert_eq!(s.len(), 1);
    assert!(s[0].username.is_none());
    let none = cfg(None, vec![], vec![]);
    assert!(ice_servers_at(&none, "murat", 5).is_empty());
}

#[test]
fn turn_expiry_wraps_like_unsigned_arithmetic() {
    let c = cfg(Some("s"), vec!["turn:x"], vec![]);
    let s = ice_servers_at(&c, "u", u64::MAX);
    assert_eq!(s[0].username.as_deref(), Some("599:u"));
}
