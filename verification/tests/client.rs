use away::decode::{frame_from_planes, DecodedPlanes, H264Decoder};
use away::engine::UiCommand;
use away::forms::{auto_connect, connect_box, register_form};
use away::input::{forward_key, modifier_events, KeyCode, KeyEvent, Modifiers, MouseButton};
use away::protocol::{ErrorCode, IceServer, ServerMessage};
use away::signaling::{call_answer, call_request, error_code_name, login_reply, register_reply, CallAnswer, CallRequest, Reply};

const NONE: Modifiers = Modifiers { ctrl: false, shift: false, alt: false };

#[test]
fn modifier_changes_become_key_events() {
    let now = Modifiers { ctrl: true, shift: false, alt: true };
    assert_eq!(
        modifier_events(NONE, now),
        vec![KeyEvent::Key { k: KeyCode::Ctrl, down: true }, KeyEvent::Key { k: KeyCode::Alt, down: true }]
    );
    assert!(modifier_events(now, now).is_empty());
    let later = Modifiers { ctrl: false, shift: true, alt: true };
    assert_eq!(
        modifier_events(now, later),
        vec![KeyEvent::Key { k: KeyCode::Ctrl, down: false }, KeyEvent::Key { k: KeyCode::Shift, down: true }]
    );
    // Releasing everything lets go of each held key.
    assert_eq!(
        modifier_events(later, NONE),
        vec![KeyEvent::Key { k: KeyCode::Shift, down: false }, KeyEvent::Key { k: KeyCode::Alt, down: false }]
    );
}

#[test]
fn keys_travel_as_keys_shortcuts_as_characters() {
    assert_eq!(forward_key(Some(KeyCode::Enter), None, true, false, false), Some(KeyEvent::Key { k: KeyCode::Enter, down: true }));
    assert_eq!(forward_key(Some(KeyCode::F5), None, false, false, true), Some(KeyEvent::Key { k: KeyCode::F5, down: false }));
    // Repeats are dropped: the host repeats on its own.
    assert_eq!(forward_key(Some(KeyCode::Enter), None, true, true, false), None);
    // A letter goes as text, unless it is part of a shortcut.
    assert_eq!(forward_key(None, Some('c'), true, false, false), None);
    assert_eq!(forward_key(None, Some('c'), true, false, true), Some(KeyEvent::Char { c: 'c', down: true }));
    assert_eq!(forward_key(None, None, true, false, true), None);
    assert_ne!(MouseButton::Left, MouseButton::Right);
}

#[test]
fn account_form_checks_in_order() {
    let err = |r: Result<UiCommand, String>| r.err().unwrap();
    assert_eq!(err(register_form("s", "  ", "", "")), "kullanıcı adı boş olamaz");
    assert_eq!(err(register_form("s", "murat", "", "")), "şifre boş olamaz");
    assert_eq!(err(register_form("s", "murat", "a", "b")), "şifreler eşleşmiyor");
    match register_form("wss://x/ws", "  murat ", "gizli", "gizli") {
        Ok(UiCommand::Register { server, user, pass }) => {
            assert_eq!((server.as_str(), user.as_str(), pass.as_str()), ("wss://x/ws", "murat", "gizli"));
        }
        other => panic!("{other:?}"),
    }
}

#[test]
fn connect_box_trims_and_refuses_blank() {
    assert!(connect_box(" \t").is_none());
    match connect_box(" ahmet ") {
        Some(UiCommand::Connect { to }) => assert_eq!(to, "ahmet"),
        other => panic!("{other:?}"),
    }
}

#[test]
fn automatic_connection_happens_once_at_home() {
    let peer = Some("ahmet".to_string());
    assert_eq!(auto_connect(false, &peer, true, true).as_deref(), Some("ahmet"));
    assert_eq!(auto_connect(true, &peer, true, true), None);
    assert_eq!(auto_connect(false, &peer, false, true), None);
    assert_eq!(auto_connect(false, &peer, true, false), None);
    assert_eq!(auto_connect(false, &None, true, true), None);
}

#[test]
fn login_wait_outcomes() {
    let ok = login_reply(Some(ServerMessage::LoggedIn { username: "murat".into(), session_token: "tok".into() }));
    assert!(matches!(ok, Reply::Done(t) if t == "tok"));
    let bad = login_reply(Some(ServerMessage::Error { code: ErrorCode::InvalidCredentials, message: "kullanıcı adı veya şifre hatalı".into() }));
    assert!(matches!(bad, Reply::Failed(m) if m == "giriş hatası InvalidCredentials: kullanıcı adı veya şifre hatalı"));
    assert!(matches!(login_reply(Some(ServerMessage::Pong)), Reply::Wait));
    assert!(matches!(login_reply(None), Reply::Failed(m) if m == "bağlantı kapandı"));
}

#[test]
fn account_wait_outcomes() {
    assert!(matches!(register_reply(Some(ServerMessage::Registered { username: "yeni".into() })), Reply::Done(u) if u == "yeni"));
    let taken = register_reply(Some(ServerMessage::Error { code: ErrorCode::UsernameTaken, message: "alınmış".into() }));
    assert!(matches!(taken, Reply::Failed(m) if m == "kayıt hatası UsernameTaken: alınmış"));
    assert!(matches!(register_reply(Some(ServerMessage::Presence { user: "x".into(), online: true })), Reply::Wait));
    assert_eq!(error_code_name(ErrorCode::PeerBusy), "PeerBusy");
}

#[test]
fn caller_and_callee_waits() {
    let acc = call_answer(Some(ServerMessage::ConnectAccepted {
        session: "s".into(),
        peer: "ahmet".into(),
        ice_servers: vec![IceServer { urls: vec!["stun:x".into()], username: None, credential: None }],
    }));
    assert!(matches!(acc, CallAnswer::Accepted { session, ice } if session == "s" && ice.len() == 1));
    let rej = call_answer(Some(ServerMessage::ConnectRejected { peer: "ahmet".into(), reason: "reddedildi".into() }));
    assert!(matches!(rej, CallAnswer::Failed(m) if m == "bağlantı reddedildi: reddedildi"));
    let err = call_answer(Some(ServerMessage::Error { code: ErrorCode::PeerNotFound, message: "yok".into() }));
    assert!(matches!(err, CallAnswer::Failed(m) if m == "hata: yok"));
    assert!(matches!(call_answer(None), CallAnswer::Failed(m) if m == "bağlantı kapandı"));
    assert!(matches!(call_answer(Some(ServerMessage::Pong)), CallAnswer::Wait));
    let inc = call_request(Some(ServerMessage::IncomingConnect { session: "s".into(), from: "murat".into(), ice_servers: vec![] }));
    assert!(matches!(inc, CallRequest::Incoming { session, from, .. } if session == "s" && from == "murat"));
    assert!(matches!(call_request(Some(ServerMessage::Pong)), CallRequest::Wait));
    assert!(matches!(call_request(None), CallRequest::Closed));
}

#[test]
fn planes_become_a_picture() {
    let p = DecodedPlanes {
        y: vec![235, 16, 0, 235, 16, 0],
        u: vec![128, 0, 0],
        v: vec![128, 0, 0],
        strides: (3, 3, 3),
        width: 3,
        height: 2,
    };
    let f = frame_from_planes(p).unwrap().unwrap();
    // The odd last column is dropped.
    assert_eq!((f.width, f.height), (2, 2));
    assert_eq!(f.pixels, vec![(255, 255, 255), (0, 0, 0), (255, 255, 255), (0, 0, 0)]);
}

#[test]
fn empty_or_short_planes() {
    let empty = DecodedPlanes { y: vec![], u: vec![], v: vec![], strides: (0, 0, 0), width: 1, height: 8 };
    assert!(frame_from_planes(empty).unwrap().is_none());
    let short = DecodedPlanes { y: vec![0; 3], u: vec![0; 1], v: vec![0; 1], strides: (2, 1, 1), width: 2, height: 2 };
    assert_eq!(frame_from_planes(short).err().unwrap(), "decode: eksik kare düzlemi");
}

#[test]
fn decoder_needs_a_stream_before_a_picture() {
    let mut d = H264Decoder::new().unwrap();
    // No parameter sets yet: either no picture or a refused bitstream.
    match d.decode(&[0, 0, 0, 1, 0x65, 0x88, 0x84]) {
        Ok(None) => {}
        Ok(Some(f)) => panic!("unexpected picture {}x{}", f.width, f.height),
        Err(e) => assert!(e.starts_with("decode: ")),
    }
}
