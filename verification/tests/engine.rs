use away::engine::{
    Action, AuthRequest, Creds, Engine, IceCandidate, PeerState, Role, Screen, UiCommand, UiState,
    KEEPALIVE_SECS, RECONNECT_TRIES,
};
use away::protocol::{ClientMessage, ErrorCode, IceServer, ServerMessage, SignalPayload};

fn incoming(session: &str, from: &str) -> ServerMessage {
    ServerMessage::IncomingConnect {
        session: session.into(),
        from: from.into(),
        ice_servers: vec![IceServer { urls: vec!["stun:x".into()], username: None, credential: None }],
    }
}

fn ice(c: &str) -> SignalPayload {
    SignalPayload::IceCandidate { candidate: c.into(), sdp_mid: Some("0".into()), sdp_mline_index: Some(0) }
}

fn signal(p: SignalPayload) -> ServerMessage {
    ServerMessage::Signal { session: "s1".into(), from: "ahmet".into(), payload: p }
}

fn logged_in() -> Engine {
    let mut e = Engine::new();
    let req = e
        .auth_request(UiCommand::Login { server: "ws://x/ws".into(), user: "murat".into(), pass: "p".into() })
        .unwrap();
    e.auth_result(req, Ok(()));
    e
}

fn viewer_session() -> Engine {
    let mut e = logged_in();
    e.viewer_started("s1".into(), "ahmet".into(), Ok(()));
    e
}

fn host_session() -> Engine {
    let mut e = logged_in();
    e.host_started("s1".into(), "ahmet".into(), Ok(()));
    e
}

#[test]
fn starts_at_the_login_form() {
    let e = Engine::new();
    assert!(matches!(e.ui().screen, Screen::Login));
    assert!(e.ui().my_username.is_none());
    assert_eq!(e.ui().status, "");
    assert!(e.saved_creds().is_none());
    let d = UiState::default();
    assert!(matches!(d.screen, Screen::Login));
    assert!(d.my_username.is_none() && d.status.is_empty());
    assert_eq!(KEEPALIVE_SECS, 25);
    assert_eq!(RECONNECT_TRIES, 5);
    assert!(matches!(Engine::keepalive(), ClientMessage::Ping));
}

#[test]
fn login_request_and_success() {
    let mut e = Engine::new();
    let req = e.auth_request(UiCommand::Login { server: "srv".into(), user: "murat".into(), pass: "p".into() });
    let req = req.unwrap();
    assert!(!req.new_account);
    assert_eq!(e.ui().status, "sunucuya bağlanılıyor…");
    e.auth_result(req, Ok(()));
    assert!(matches!(e.ui().screen, Screen::Home));
    assert_eq!(e.ui().my_username.as_deref(), Some("murat"));
    assert_eq!(e.ui().status, "hazır");
    let c = e.saved_creds().unwrap();
    assert_eq!((c.server.as_str(), c.user.as_str(), c.pass.as_str()), ("srv", "murat", "p"));
}

#[test]
fn failed_account_request_returns_to_its_form() {
    let mut e = Engine::new();
    let req = e
        .auth_request(UiCommand::Register { server: "srv".into(), user: "yeni".into(), pass: "p".into() })
        .unwrap();
    assert!(req.new_account);
    assert_eq!(e.ui().status, "hesap oluşturuluyor…");
    e.auth_result(req, Err("kayıt hatası UsernameTaken: alınmış".into()));
    assert!(matches!(e.ui().screen, Screen::Register));
    assert_eq!(e.ui().status, "kayıt hatası UsernameTaken: alınmış");
    assert!(e.saved_creds().is_none());
    let req = AuthRequest { creds: Creds { server: "s".into(), user: "u".into(), pass: "p".into() }, new_account: false };
    e.auth_result(req, Err("sunucuya bağlanılamadı: x".into()));
    assert!(matches!(e.ui().screen, Screen::Login));
}

#[test]
fn other_commands_are_ignored_before_login() {
    let mut e = Engine::new();
    assert!(e.auth_request(UiCommand::Accept).is_none());
    assert!(e.auth_request(UiCommand::Connect { to: "x".into() }).is_none());
    assert!(matches!(e.ui().screen, Screen::Login));
    assert_eq!(e.ui().status, "");
}

#[test]
fn reconnect_attempts_and_giving_up() {
    let mut e = logged_in();
    e.begin_reconnect(3);
    assert!(matches!(e.ui().screen, Screen::Reconnecting));
    assert_eq!(e.ui().status, "bağlantı koptu — yeniden bağlanılıyor (3/5)");
    assert_eq!(Engine::reconnect_delay_secs(3), 6);
    e.reconnected();
    assert!(matches!(e.ui().screen, Screen::Home));
    assert_eq!(e.ui().status, "yeniden bağlandı");
    assert_eq!(e.ui().my_username.as_deref(), Some("murat"));
    e.reconnect_gave_up();
    assert!(matches!(e.ui().screen, Screen::Login));
    assert!(e.ui().my_username.is_none());
    assert_eq!(e.ui().status, "yeniden bağlanılamadı — tekrar giriş yap");
}

#[test]
fn silent_reconnecting_tries_five_times_then_gives_up() {
    let mut e = logged_in();
    let mut attempt = 1;
    e.begin_reconnect(attempt);
    let mut tries = 1;
    while let Some(next) = e.reconnect_failed(attempt) {
        assert_eq!(next, attempt + 1);
        assert!(matches!(e.ui().screen, Screen::Reconnecting));
        assert_eq!(e.ui().status, format!("bağlantı koptu — yeniden bağlanılıyor ({next}/5)"));
        attempt = next;
        tries += 1;
    }
    assert_eq!(tries, 5);
    assert!(matches!(e.ui().screen, Screen::Login));
    assert!(e.ui().my_username.is_none());
    assert_eq!(e.ui().status, "yeniden bağlanılamadı — tekrar giriş yap");
}

#[test]
fn connect_sends_a_request() {
    let mut e = logged_in();
    let acts = e.on_command(UiCommand::Connect { to: "ahmet".into() });
    assert_eq!(acts.len(), 1);
    assert!(matches!(&acts[0], Action::Send(ClientMessage::Connect { to }) if to == "ahmet"));
    assert!(matches!(&e.ui().screen, Screen::Connecting { peer } if peer == "ahmet"));
    assert_eq!(e.ui().status, "bağlantı isteği gönderildi…");
}

#[test]
fn connect_refuses_blank_name_and_busy_engine() {
    let mut e = logged_in();
    let acts = e.on_command(UiCommand::Connect { to: "   ".into() });
    assert!(acts.is_empty());
    assert_eq!(e.ui().status, "kullanıcı adı boş");
    assert!(matches!(e.ui().screen, Screen::Home));
    let mut v = viewer_session();
    let acts = v.on_command(UiCommand::Connect { to: "veli".into() });
    assert!(acts.is_empty());
    assert_eq!(v.ui().status, "zaten bir oturumdasın");
}

#[test]
fn incoming_request_is_shown_then_accepted() {
    let mut e = logged_in();
    let acts = e.on_server(incoming("s1", "ahmet"));
    assert!(acts.is_empty());
    assert!(matches!(&e.ui().screen, Screen::Incoming { from } if from == "ahmet"));
    assert_eq!(e.ui().status, "ahmet bağlanmak istiyor");
    let acts = e.on_command(UiCommand::Accept);
    assert_eq!(acts.len(), 1);
    match &acts[0] {
        Action::StartHost(inc) => {
            assert_eq!(inc.session, "s1");
            assert_eq!(inc.from, "ahmet");
            assert_eq!(inc.ice.len(), 1);
        }
        other => panic!("{other:?}"),
    }
    // Accepting again does nothing: the request was taken.
    assert!(e.on_command(UiCommand::Accept).is_empty());
    e.host_started("s1".into(), "ahmet".into(), Ok(()));
    assert!(matches!(&e.ui().screen, Screen::Sharing { peer } if peer == "ahmet"));
    assert_eq!(e.ui().status, "ahmet ekranını izliyor");
    let s = e.session().unwrap();
    assert_eq!(s.role, Role::Host);
    assert!(s.capture_waiting && !s.has_input && !s.remote_set);
}

#[test]
fn busy_engine_refuses_a_second_request() {
    let mut e = logged_in();
    e.on_server(incoming("s1", "ahmet"));
    let acts = e.on_server(incoming("s2", "veli"));
    assert_eq!(acts.len(), 1);
    match &acts[0] {
        Action::Send(ClientMessage::ConnectResponse { session, to, accept, reason }) => {
            assert_eq!((session.as_str(), to.as_str(), *accept), ("s2", "veli", false));
            assert_eq!(reason.as_deref(), Some("meşgul"));
        }
        other => panic!("{other:?}"),
    }
    assert!(matches!(&e.ui().screen, Screen::Incoming { from } if from == "ahmet"));
}

#[test]
fn reject_answers_and_returns_home() {
    let mut e = logged_in();
    e.on_server(incoming("s1", "ahmet"));
    let acts = e.on_command(UiCommand::Reject);
    assert_eq!(acts.len(), 1);
    match &acts[0] {
        Action::Send(ClientMessage::ConnectResponse { session, to, accept, reason }) => {
            assert_eq!((session.as_str(), to.as_str(), *accept), ("s1", "ahmet", false));
            assert_eq!(reason.as_deref(), Some("reddedildi"));
        }
        other => panic!("{other:?}"),
    }
    assert!(matches!(e.ui().screen, Screen::Home));
    assert_eq!(e.ui().status, "hazır");
    // A second reject has nobody to answer.
    assert!(e.on_command(UiCommand::Reject).is_empty());
}

#[test]
fn host_failure_shows_the_error() {
    let mut e = logged_in();
    e.host_started("s1".into(), "ahmet".into(), Err("pc yok".into()));
    assert!(matches!(&e.ui().screen, Screen::Message { text, error: true } if text == "paylaşım başlatılamadı: pc yok"));
    assert_eq!(e.ui().status, "hata");
    assert!(e.session().is_none());
    e.viewer_started("s1".into(), "ahmet".into(), Err("x".into()));
    assert!(matches!(&e.ui().screen, Screen::Message { text, error: true } if text == "bağlantı kurulamadı: x"));
}

#[test]
fn accepted_request_starts_the_viewer() {
    let mut e = logged_in();
    let acts = e.on_server(ServerMessage::ConnectAccepted { session: "s1".into(), peer: "ahmet".into(), ice_servers: vec![] });
    assert_eq!(acts.len(), 1);
    assert!(matches!(&acts[0], Action::StartViewer { session, peer, ice } if session == "s1" && peer == "ahmet" && ice.is_empty()));
    e.viewer_started("s1".into(), "ahmet".into(), Ok(()));
    assert!(matches!(&e.ui().screen, Screen::Connecting { peer } if peer == "ahmet"));
    assert_eq!(e.ui().status, "kabul edildi, video bekleniyor…");
    e.track_arrived("ahmet".into());
    assert!(matches!(&e.ui().screen, Screen::RemoteScreen { peer } if peer == "ahmet"));
    assert_eq!(e.ui().status, "ahmet ekranı");
}

#[test]
fn rejected_request_and_server_error() {
    let mut e = logged_in();
    e.on_server(ServerMessage::ConnectRejected { peer: "ahmet".into(), reason: "meşgul".into() });
    assert!(matches!(&e.ui().screen, Screen::Message { text, error: true } if text == "bağlantı reddedildi: meşgul"));
    assert_eq!(e.ui().status, "reddedildi");
    e.on_server(ServerMessage::Error { code: ErrorCode::PeerNotFound, message: "yok çevrimiçi değil".into() });
    assert_eq!(e.ui().status, "sunucu: yok çevrimiçi değil");
    assert!(e.on_server(ServerMessage::Pong).is_empty());
}

#[test]
fn early_candidates_wait_for_the_remote_description() {
    let mut e = viewer_session();
    assert!(e.on_server(signal(ice("c1"))).is_empty());
    assert!(e.on_server(signal(ice("c2"))).is_empty());
    assert_eq!(e.session().unwrap().pending.len(), 2);
    let acts = e.on_server(signal(SignalPayload::Offer { sdp: "v=0".into() }));
    assert!(matches!(&acts[..], [Action::AcceptOffer { sdp }] if sdp == "v=0"));
    let waiting: Vec<IceCandidate> = e.remote_description_set();
    let names: Vec<&str> = waiting.iter().map(|c| c.candidate.as_str()).collect();
    assert_eq!(names, vec!["c1", "c2"]);
    assert!(e.session().unwrap().remote_set);
    assert!(e.session().unwrap().pending.is_empty());
    // From now on candidates pass straight through.
    let acts = e.on_server(signal(ice("c3")));
    assert!(matches!(&acts[..], [Action::AddIce(c)] if c.candidate == "c3" && c.sdp_mid.as_deref() == Some("0")));
}

#[test]
fn answer_is_handed_on_and_signals_without_session_are_dropped() {
    let mut e = host_session();
    let acts = e.on_server(signal(SignalPayload::Answer { sdp: "v=0-answer".into() }));
    assert!(matches!(&acts[..], [Action::AcceptAnswer { sdp }] if sdp == "v=0-answer"));
    let mut idle = logged_in();
    assert!(idle.on_server(signal(ice("c1"))).is_empty());
    assert!(idle.remote_description_set().is_empty());
}

#[test]
fn capture_starts_once_when_connected() {
    let mut e = host_session();
    let acts = e.on_peer_state(PeerState::Connected);
    assert!(matches!(&acts[..], [Action::StartCapture]));
    assert_eq!(e.ui().status, "eş bağlantısı kuruldu");
    assert!(e.on_peer_state(PeerState::Connected).is_empty());
    assert!(e.on_peer_state(PeerState::Other).is_empty());
    let mut v = viewer_session();
    assert!(v.on_peer_state(PeerState::Connected).is_empty());
}

#[test]
fn failed_peer_ends_the_session() {
    let mut e = host_session();
    let acts = e.on_peer_state(PeerState::Failed);
    assert_eq!(acts.len(), 3);
    assert!(matches!(&acts[0], Action::Send(ClientMessage::Hangup { session }) if session == "s1"));
    assert!(matches!(acts[1], Action::ClosePeer));
    assert!(matches!(acts[2], Action::ClearFrames));
    assert!(e.session().is_none());
    assert!(matches!(&e.ui().screen, Screen::Message { text, error: true } if text == "eş bağlantısı koptu (doğrudan P2P yolu kurulamadı)"));
    assert_eq!(e.ui().status, "koptu");
}

#[test]
fn hangup_command_and_remote_hangup() {
    let mut e = viewer_session();
    let acts = e.on_command(UiCommand::Hangup);
    assert_eq!(acts.len(), 3);
    assert!(matches!(&acts[0], Action::Send(ClientMessage::Hangup { session }) if session == "s1"));
    assert!(matches!(acts[1], Action::ClosePeer));
    assert!(matches!(acts[2], Action::ClearFrames));
    assert!(matches!(e.ui().screen, Screen::Home));
    assert_eq!(e.ui().status, "bağlantı kapatıldı");
    let acts = e.on_command(UiCommand::Hangup);
    assert!(matches!(&acts[..], [Action::ClearFrames]));

    let mut h = host_session();
    let acts = h.on_server(ServerMessage::Hangup { session: "s1".into() });
    assert!(matches!(&acts[..], [Action::ClosePeer, Action::ClearFrames]));
    assert!(h.session().is_none());
    assert!(matches!(&h.ui().screen, Screen::Message { text, error: false } if text == "karşı taraf bağlantıyı kapattı"));
    assert_eq!(h.ui().status, "kapandı");
}

#[test]
fn input_goes_only_from_a_viewer_session() {
    let mut v = viewer_session();
    assert!(matches!(&v.on_command(UiCommand::Input)[..], [Action::ForwardInput]));
    let mut h = host_session();
    assert!(h.on_command(UiCommand::Input).is_empty());
    let mut idle = logged_in();
    assert!(idle.on_command(UiCommand::Input).is_empty());
    assert!(idle.on_command(UiCommand::Login { server: "a".into(), user: "b".into(), pass: "c".into() }).is_empty());
}

#[test]
fn lost_signaling_ends_everything() {
    let mut e = viewer_session();
    let acts = e.signal_lost();
    assert!(matches!(&acts[..], [Action::ClosePeer, Action::ClearFrames]));
    assert!(e.session().is_none());
    let mut w = logged_in();
    w.on_server(incoming("s9", "veli"));
    let acts = w.signal_lost();
    assert!(matches!(&acts[..], [Action::ClearFrames]));
    // The waiting request is gone too: accepting finds nothing.
    assert!(w.on_command(UiCommand::Accept).is_empty());
}

#[test]
fn window_moves_between_screens() {
    let mut e = logged_in();
    e.on_server(ServerMessage::ConnectRejected { peer: "ahmet".into(), reason: "meşgul".into() });
    e.show(Screen::Home, "hazır".into());
    assert!(matches!(e.ui().screen, Screen::Home));
    assert_eq!(e.ui().status, "hazır");
    assert_eq!(e.ui().my_username.as_deref(), Some("murat"));
    let mut f = Engine::new();
    f.show(Screen::Register, "yeni hesap".into());
    assert!(matches!(f.ui().screen, Screen::Register));
    assert_eq!(f.ui().status, "yeni hesap");
}
