use away::config::Config;
use away::protocol::{ClientMessage, ErrorCode, ServerMessage, SignalPayload, PROTOCOL_VERSION};
use away::state::{AppState, Outgoing};
use away::users::{FileUserStore, UserStore};
use away::ws::{disconnect, handle_client_msg};

fn config(stun: Vec<&str>) -> Config {
    Config {
        bind: "127.0.0.1:0".into(),
        accounts_path: "away-test.json".into(),
        turn_secret: None,
        turn_urls: vec![],
        stun_urls: stun.into_iter().map(String::from).collect(),
        turn_ttl: 600,
        allow_register: false,
    }
}

fn login(user: &str, pass: &str) -> ClientMessage {
    ClientMessage::Login {
        protocol_version: PROTOCOL_VERSION,
        username: user.into(),
        password: pass.into(),
    }
}

fn only_to(out: &[Outgoing], conn: u64) -> &ServerMessage {
    assert_eq!(out.len(), 1, "{out:?}");
    assert_eq!(out[0].conn, conn);
    &out[0].msg
}

#[test]
fn full_signaling_flow() {
    let mut users = FileUserStore::from_records("away-test.json".into(), vec![]);
    users.register("murat", "sifre1").unwrap();
    users.register("ahmet", "sifre2").unwrap();
    let mut state = AppState::new(config(vec!["stun:stun.l.google.com:19302"]), users);
    let (a, b) = (1u64, 2u64);
    let (mut auth_a, mut auth_b) = (None, None);

    let step = handle_client_msg(&mut state, a, &mut auth_a, login("murat", "sifre1"));
    assert!(matches!(only_to(&step.out, a), ServerMessage::LoggedIn { .. }));
    let step = handle_client_msg(&mut state, b, &mut auth_b, login("ahmet", "sifre2"));
    assert!(matches!(only_to(&step.out, b), ServerMessage::LoggedIn { .. }));

    let step = handle_client_msg(&mut state, a, &mut auth_a, ClientMessage::Connect { to: "ahmet".into() });
    let session = match only_to(&step.out, b) {
        ServerMessage::IncomingConnect { session, from, ice_servers } => {
            assert_eq!(from, "murat");
            assert_eq!(ice_servers.len(), 1);
            assert_eq!(ice_servers[0].urls, vec!["stun:stun.l.google.com:19302".to_string()]);
            session.clone()
        }
        other => panic!("IncomingConnect beklendi, geldi: {other:?}"),
    };
    assert_eq!(session.len(), 32);

    let step = handle_client_msg(
        &mut state,
        b,
        &mut auth_b,
        ClientMessage::ConnectResponse { session: session.clone(), to: "murat".into(), accept: true, reason: None },
    );
    match only_to(&step.out, a) {
        ServerMessage::ConnectAccepted { session: s, peer, .. } => {
            assert_eq!(s, &session);
            assert_eq!(peer, "ahmet");
        }
        other => panic!("ConnectAccepted beklendi, geldi: {other:?}"),
    }

    let step = handle_client_msg(
        &mut state,
        a,
        &mut auth_a,
        ClientMessage::Signal {
            session: session.clone(),
            to: "ahmet".into(),
            payload: SignalPayload::Offer { sdp: "v=0...".into() },
        },
    );
    match only_to(&step.out, b) {
        ServerMessage::Signal { from, payload: SignalPayload::Offer { sdp }, .. } => {
            assert_eq!(from, "murat");
            assert_eq!(sdp, "v=0...");
        }
        other => panic!("Signal(Offer) beklendi, geldi: {other:?}"),
    }

    let step = handle_client_msg(
        &mut state,
        b,
        &mut auth_b,
        ClientMessage::Signal {
            session: session.clone(),
            to: "murat".into(),
            payload: SignalPayload::Answer { sdp: "v=0-answer".into() },
        },
    );
    match only_to(&step.out, a) {
        ServerMessage::Signal { from, payload: SignalPayload::Answer { sdp }, .. } => {
            assert_eq!(from, "ahmet");
            assert_eq!(sdp, "v=0-answer");
        }
        other => panic!("Signal(Answer) beklendi, geldi: {other:?}"),
    }
}

#[test]
fn connect_to_offline_user_errors() {
    let mut users = FileUserStore::from_records("away-test-off.json".into(), vec![]);
    users.register("murat", "sifre1").unwrap();
    let mut state = AppState::new(config(vec![]), users);
    let mut auth = None;
    let step = handle_client_msg(&mut state, 1, &mut auth, login("murat", "sifre1"));
    assert!(matches!(only_to(&step.out, 1), ServerMessage::LoggedIn { .. }));

    let step = handle_client_msg(&mut state, 1, &mut auth, ClientMessage::Connect { to: "yok".into() });
    assert!(matches!(only_to(&step.out, 1), ServerMessage::Error { .. }));
}

/// Builds a state where "murat" (conn 1) and "ahmet" (conn 2) are registered
/// in the store and logged in.
fn two_logged_in() -> (AppState, Option<String>, Option<String>) {
    let mut users = FileUserStore::from_records("x.json".into(), vec![]);
    users.register("murat", "p1").unwrap();
    users.register("ahmet", "p2").unwrap();
    let mut state = AppState::new(config(vec![]), users);
    let (mut a, mut b) = (None, None);
    handle_client_msg(&mut state, 1, &mut a, login("murat", "p1"));
    handle_client_msg(&mut state, 2, &mut b, login("ahmet", "p2"));
    (state, a, b)
}

#[test]
fn requests_before_login_are_refused() {
    let users = FileUserStore::from_records("x.json".into(), vec![]);
    let mut state = AppState::new(config(vec![]), users);
    let mut auth = None;
    let step = handle_client_msg(&mut state, 7, &mut auth, ClientMessage::Connect { to: "ahmet".into() });
    match only_to(&step.out, 7) {
        ServerMessage::Error { code, message } => {
            assert_eq!(*code, ErrorCode::NotAuthenticated);
            assert_eq!(message, "önce giriş yapmalısın");
        }
        other => panic!("{other:?}"),
    }
    assert!(auth.is_none());
}

#[test]
fn wrong_protocol_version_is_refused() {
    let users = FileUserStore::from_records("x.json".into(), vec![]);
    let mut state = AppState::new(config(vec![]), users);
    let mut auth = None;
    let msg = ClientMessage::Login { protocol_version: 2, username: "murat".into(), password: "p".into() };
    let step = handle_client_msg(&mut state, 1, &mut auth, msg);
    match only_to(&step.out, 1) {
        ServerMessage::Error { code, message } => {
            assert_eq!(*code, ErrorCode::ProtocolMismatch);
            assert_eq!(message, "sunucu protokol sürümü 1");
        }
        other => panic!("{other:?}"),
    }
}

#[test]
fn wrong_password_and_unknown_user_are_refused() {
    let mut users = FileUserStore::from_records("x.json".into(), vec![]);
    users.register("murat", "p1").unwrap();
    let mut state = AppState::new(config(vec![]), users);
    let mut auth = None;
    let step = handle_client_msg(&mut state, 1, &mut auth, login("murat", "yanlis"));
    assert!(matches!(only_to(&step.out, 1), ServerMessage::Error { code: ErrorCode::InvalidCredentials, .. }));
    let step = handle_client_msg(&mut state, 1, &mut auth, login("kimse", "p1"));
    assert!(matches!(only_to(&step.out, 1), ServerMessage::Error { code: ErrorCode::InvalidCredentials, .. }));
    assert!(auth.is_none());
    assert!(!state.is_online("murat"));
}

#[test]
fn registration_over_the_socket_is_closed_by_default() {
    let users = FileUserStore::from_records("x.json".into(), vec![]);
    let mut state = AppState::new(config(vec![]), users);
    let mut auth = None;
    let msg = ClientMessage::Register { protocol_version: PROTOCOL_VERSION, username: "yeni".into(), password: "p".into() };
    let step = handle_client_msg(&mut state, 1, &mut auth, msg);
    match only_to(&step.out, 1) {
        ServerMessage::Error { code, .. } => assert_eq!(*code, ErrorCode::BadRequest),
        other => panic!("{other:?}"),
    }
    assert!(step.registration.is_none());
}

#[test]
fn cannot_connect_to_yourself() {
    let (mut state, mut a, _b) = two_logged_in();
    let step = handle_client_msg(&mut state, 1, &mut a, ClientMessage::Connect { to: "murat".into() });
    match only_to(&step.out, 1) {
        ServerMessage::Error { code, message } => {
            assert_eq!(*code, ErrorCode::BadRequest);
            assert_eq!(message, "kendine bağlanamazsın");
        }
        other => panic!("{other:?}"),
    }
}

#[test]
fn offline_target_error_names_the_user() {
    let (mut state, mut a, _b) = two_logged_in();
    let step = handle_client_msg(&mut state, 1, &mut a, ClientMessage::Connect { to: "yok".into() });
    match only_to(&step.out, 1) {
        ServerMessage::Error { code, message } => {
            assert_eq!(*code, ErrorCode::PeerNotFound);
            assert_eq!(message, "yok çevrimiçi değil");
        }
        other => panic!("{other:?}"),
    }
}

#[test]
fn ping_is_answered_with_pong() {
    let (mut state, mut a, _b) = two_logged_in();
    let step = handle_client_msg(&mut state, 1, &mut a, ClientMessage::Ping);
    assert!(matches!(only_to(&step.out, 1), ServerMessage::Pong));
}

#[test]
fn disconnect_tells_the_other_party() {
    let (mut state, mut a, mut b) = two_logged_in();
    let step = handle_client_msg(&mut state, 1, &mut a, ClientMessage::Connect { to: "ahmet".into() });
    let session = match &step.out[0].msg {
        ServerMessage::IncomingConnect { session, .. } => session.clone(),
        other => panic!("{other:?}"),
    };
    handle_client_msg(
        &mut state,
        2,
        &mut b,
        ClientMessage::ConnectResponse { session: session.clone(), to: "murat".into(), accept: true, reason: None },
    );
    let out = disconnect(&mut state, 1, a);
    assert_eq!(out.len(), 2);
    assert_eq!(out[0].conn, 2);
    assert!(matches!(&out[0].msg, ServerMessage::Hangup { session: s } if *s == session));
    assert!(matches!(&out[1].msg, ServerMessage::Presence { user, online: false } if user == "murat"));
    assert!(!state.is_online("murat"));
    assert!(state.is_online("ahmet"));
    assert!(state.get_session(&session).is_none());
}

#[test]
fn second_login_takes_over_and_old_close_keeps_it() {
    let mut users = FileUserStore::from_records("x.json".into(), vec![]);
    users.register("murat", "p1").unwrap();
    let mut state = AppState::new(config(vec![]), users);
    let (mut first, mut second) = (None, None);
    handle_client_msg(&mut state, 1, &mut first, login("murat", "p1"));
    let step = handle_client_msg(&mut state, 2, &mut second, login("murat", "p1"));
    // The old connection is told, the new one is logged in.
    assert_eq!(step.out.len(), 2);
    assert_eq!(step.out[0].conn, 1);
    assert!(matches!(&step.out[0].msg, ServerMessage::Error { code: ErrorCode::Internal, message } if message == "başka bir yerden giriş yapıldı"));
    assert_eq!(step.out[1].conn, 2);
    let out = disconnect(&mut state, 1, first);
    assert!(out.is_empty());
    assert!(state.is_online("murat"));
}

#[test]
fn rejection_is_forwarded_with_reason() {
    let (mut state, mut a, mut b) = two_logged_in();
    let step = handle_client_msg(&mut state, 1, &mut a, ClientMessage::Connect { to: "ahmet".into() });
    let session = match &step.out[0].msg {
        ServerMessage::IncomingConnect { session, .. } => session.clone(),
        other => panic!("{other:?}"),
    };
    let step = handle_client_msg(
        &mut state,
        2,
        &mut b,
        ClientMessage::ConnectResponse {
            session: session.clone(),
            to: "murat".into(),
            accept: false,
            reason: Some("meşgul".into()),
        },
    );
    match only_to(&step.out, 1) {
        ServerMessage::ConnectRejected { peer, reason } => {
            assert_eq!(peer, "ahmet");
            assert_eq!(reason, "meşgul");
        }
        other => panic!("{other:?}"),
    }
    assert!(state.get_session(&session).is_none());
}

#[test]
fn accounts_file_records_load_back_the_same_accounts() {
    let mut users = FileUserStore::from_records("x.json".into(), vec![]);
    users.register("murat", "p1").unwrap();
    users.register("ahmet", "p2").unwrap();
    let records = users.records();
    assert_eq!(records.len(), 2);
    let loaded = FileUserStore::from_records("x.json".into(), records);
    assert_eq!(loaded.verify("murat", "p1").unwrap(), true);
    assert_eq!(loaded.verify("ahmet", "p2").unwrap(), true);
    assert_eq!(loaded.verify("ahmet", "p1").unwrap(), false);
    assert!(loaded.user_exists("murat") && !loaded.user_exists("veli"));
    assert_eq!(loaded.path_str(), "x.json");
}

#[test]
fn account_store_refuses_blank_and_taken_names() {
    let mut users = FileUserStore::from_records("x.json".into(), vec![]);
    assert_eq!(users.register("  ", "p").unwrap_err().message(), "boş kullanıcı adı/şifre");
    assert_eq!(users.register("murat", "").unwrap_err().message(), "boş kullanıcı adı/şifre");
    users.register("murat", "p1").unwrap();
    assert!(users.register("murat", "p2").is_err());
    assert_eq!(users.verify("murat", "p1").unwrap(), true);
}

#[test]
fn open_registration_refuses_blank_and_taken_names_with_their_codes() {
    let mut users = FileUserStore::from_records("x.json".into(), vec![]);
    users.register("murat", "p1").unwrap();
    let mut cfg = config(vec![]);
    cfg.allow_register = true;
    let mut state = AppState::new(cfg, users);
    let mut auth = None;
    let reg = |u: &str, p: &str| ClientMessage::Register { protocol_version: PROTOCOL_VERSION, username: u.into(), password: p.into() };
    for (u, p) in [("  ", "p"), ("yeni", "")] {
        let step = handle_client_msg(&mut state, 1, &mut auth, reg(u, p));
        match only_to(&step.out, 1) {
            ServerMessage::Error { code, message } => {
                assert_eq!(*code, ErrorCode::BadRequest);
                assert_eq!(message, "boş kullanıcı adı/şifre");
            }
            other => panic!("{other:?}"),
        }
        assert!(step.registration.is_none());
    }
    let step = handle_client_msg(&mut state, 1, &mut auth, reg("murat", "p2"));
    match only_to(&step.out, 1) {
        ServerMessage::Error { code, message } => {
            assert_eq!(*code, ErrorCode::UsernameTaken);
            assert_eq!(message, "kullanıcı adı zaten var");
        }
        other => panic!("{other:?}"),
    }
    let step = handle_client_msg(&mut state, 1, &mut auth, reg("yeni", "p3"));
    assert!(step.out.is_empty());
    assert_eq!(step.registration.as_deref(), Some("yeni"));
}
