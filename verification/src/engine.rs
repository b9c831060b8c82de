//! The client's connection engine as a state machine. The window shows the
//! `UiState`; the engine turns user commands, server messages and peer
//! connection events into a new state and a list of actions. The caller owns
//! the signaling socket and the WebRTC peer connection, performs the actions
//! and reports back what came of them. One session at a time: the viewer asks
//! to connect, the host accepts and produces the WebRTC offer.

use vstd::prelude::*;

use crate::protocol::{
    ClientMessage, ClientMessageV, IceServer, IceServerV, ServerMessage, ServerMessageV,
    SignalPayload, SignalPayloadV, ice_views, opt_view,
};
use crate::text::{decimal, trimmed, u64_to_decimal};
use crate::users::blank;

verus! {

/// How many times a lost signaling connection is re-established silently
/// before the login form is shown again.
pub const RECONNECT_TRIES: u32 = 5;

/// Seconds between application-level pings that keep the signaling socket
/// alive through proxies that close idle connections.
pub const KEEPALIVE_SECS: u64 = 25;

/// The screen the window shows.
#[derive(Debug, Clone)]
pub enum Screen {
    /// Login form (server, user, password).
    Login,
    /// Account creation form.
    Register,
    /// The signaling connection dropped; logging in again automatically.
    Reconnecting,
    /// Own username and the connect box; incoming requests are listened for.
    Home,
    /// An outgoing connection is being set up.
    Connecting { peer: String },
    /// An incoming request waits for accept or reject.
    Incoming { from: String },
    /// Watching the remote screen (viewer).
    RemoteScreen { peer: String },
    /// Sharing the own screen (host).
    Sharing { peer: String },
    /// Information or error (OK returns to Home).
    Message { text: String, error: bool },
}

/// What the window shows: the screen, the logged-in username and a status line.
#[derive(Debug, Clone)]
pub struct UiState {
    pub screen: Screen,
    pub my_username: Option<String>,
    pub status: String,
}

/// A screen as plain values.
pub enum ScreenV {
    Login,
    Register,
    Reconnecting,
    Home,
    Connecting { peer: Seq<char> },
    Incoming { from: Seq<char> },
    RemoteScreen { peer: Seq<char> },
    Sharing { peer: Seq<char> },
    Message { text: Seq<char>, error: bool },
}

impl View for Screen {
    type V = ScreenV;

    open spec fn view(&self) -> ScreenV {
        match self {
            Screen::Login => ScreenV::Login,
            Screen::Register => ScreenV::Register,
            Screen::Reconnecting => ScreenV::Reconnecting,
            Screen::Home => ScreenV::Home,
            Screen::Connecting { peer } => ScreenV::Connecting { peer: peer@ },
            Screen::Incoming { from } => ScreenV::Incoming { from: from@ },
            Screen::RemoteScreen { peer } => ScreenV::RemoteScreen { peer: peer@ },
            Screen::Sharing { peer } => ScreenV::Sharing { peer: peer@ },
            Screen::Message { text, error } => ScreenV::Message { text: text@, error: *error },
        }
    }
}

/// The window state as plain values.
pub struct UiStateV {
    pub screen: ScreenV,
    pub my_username: Option<Seq<char>>,
    pub status: Seq<char>,
}

impl View for UiState {
    type V = UiStateV;

    open spec fn view(&self) -> UiStateV {
        UiStateV { screen: self.screen@, my_username: opt_view(self.my_username), status: self.status@ }
    }
}

impl Default for UiState {
    /// The login form, nobody logged in, an empty status line.
    fn default() -> (r: Self)
        ensures
            r@ == (UiStateV { screen: ScreenV::Login, my_username: None, status: Seq::empty() }),
    {
        UiState { screen: Screen::Login, my_username: None, status: String::new() }
    }
}

/// A command from the window.
#[derive(Debug)]
pub enum UiCommand {
    Login { server: String, user: String, pass: String },
    /// Create an account, then log in with the same credentials.
    Register { server: String, user: String, pass: String },
    Connect { to: String },
    Accept,
    Hangup,
    Reject,
    /// A mouse or keyboard event for the remote machine; the event itself
    /// travels beside the command and is forwarded only within a session
    /// that carries input.
    Input,
}

/// A window command as plain values.
pub enum UiCommandV {
    Login { server: Seq<char>, user: Seq<char>, pass: Seq<char> },
    Register { server: Seq<char>, user: Seq<char>, pass: Seq<char> },
    Connect { to: Seq<char> },
    Accept,
    Hangup,
    Reject,
    Input,
}

impl View for UiCommand {
    type V = UiCommandV;

    open spec fn view(&self) -> UiCommandV {
        match self {
            UiCommand::Login { server, user, pass } => UiCommandV::Login {
                server: server@,
                user: user@,
                pass: pass@,
            },
            UiCommand::Register { server, user, pass } => UiCommandV::Register {
                server: server@,
                user: user@,
                pass: pass@,
            },
            UiCommand::Connect { to } => UiCommandV::Connect { to: to@ },
            UiCommand::Accept => UiCommandV::Accept,
            UiCommand::Hangup => UiCommandV::Hangup,
            UiCommand::Reject => UiCommandV::Reject,
            UiCommand::Input => UiCommandV::Input,
        }
    }
}

/// Login credentials, kept so that a lost connection can log in again.
#[derive(Debug)]
pub struct Creds {
    pub server: String,
    pub user: String,
    pub pass: String,
}

/// Credentials as plain values.
pub struct CredsV {
    pub server: Seq<char>,
    pub user: Seq<char>,
    pub pass: Seq<char>,
}

impl View for Creds {
    type V = CredsV;

    open spec fn view(&self) -> CredsV {
        CredsV { server: self.server@, user: self.user@, pass: self.pass@ }
    }
}

/// The side of a session.
#[derive(Debug, Clone, Copy, PartialEq, Eq, Structural)]
pub enum Role {
    /// Shares its screen and receives input.
    Host,
    /// Watches the remote screen and sends input.
    Viewer,
}

/// One ICE candidate of the other party.
#[derive(Debug)]
pub struct IceCandidate {
    pub candidate: String,
    pub sdp_mid: Option<String>,
    pub sdp_mline_index: Option<u16>,
}

/// An ICE candidate as plain values.
pub struct IceCandidateV {
    pub candidate: Seq<char>,
    pub sdp_mid: Option<Seq<char>>,
    pub sdp_mline_index: Option<u16>,
}

impl View for IceCandidate {
    type V = IceCandidateV;

    open spec fn view(&self) -> IceCandidateV {
        IceCandidateV {
            candidate: self.candidate@,
            sdp_mid: opt_view(self.sdp_mid),
            sdp_mline_index: self.sdp_mline_index,
        }
    }
}

/// The views of a list of candidates.
pub open spec fn candidate_views(v: Seq<IceCandidate>) -> Seq<IceCandidateV> {
    v.map_values(|c: IceCandidate| c@)
}

/// The active session. ICE candidates that arrive before the remote
/// description is set wait in `pending`.
#[derive(Debug)]
pub struct SessionState {
    pub id: String,
    pub peer: String,
    pub role: Role,
    pub remote_set: bool,
    pub pending: Vec<IceCandidate>,
    /// Host: screen capture starts only once the peer connection is up, so
    /// that the first key frame reaches a live track.
    pub capture_waiting: bool,
    /// Viewer: input events are forwarded to the host.
    pub has_input: bool,
}

/// A session as plain values.
pub struct SessionV {
    pub id: Seq<char>,
    pub peer: Seq<char>,
    pub role: Role,
    pub remote_set: bool,
    pub pending: Seq<IceCandidateV>,
    pub capture_waiting: bool,
    pub has_input: bool,
}

impl View for SessionState {
    type V = SessionV;

    open spec fn view(&self) -> SessionV {
        SessionV {
            id: self.id@,
            peer: self.peer@,
            role: self.role,
            remote_set: self.remote_set,
            pending: candidate_views(self.pending@),
            capture_waiting: self.capture_waiting,
            has_input: self.has_input,
        }
    }
}

/// An incoming request waiting for accept or reject.
#[derive(Debug)]
pub struct IncomingRequest {
    pub session: String,
    pub from: String,
    pub ice: Vec<IceServer>,
}

/// An incoming request as plain values.
pub struct IncomingV {
    pub session: Seq<char>,
    pub from: Seq<char>,
    pub ice: Seq<IceServerV>,
}

impl View for IncomingRequest {
    type V = IncomingV;

    open spec fn view(&self) -> IncomingV {
        IncomingV { session: self.session@, from: self.from@, ice: ice_views(self.ice@) }
    }
}

/// What the caller is asked to do.
#[derive(Debug)]
pub enum Action {
    /// Send a message to the signaling server.
    Send(ClientMessage),
    /// Become the host of an accepted request: set up the peer connection,
    /// the screen track and the input channel, send the acceptance and the
    /// offer, then report with `host_started`.
    StartHost(IncomingRequest),
    /// Become the viewer of an accepted request: set up the peer connection
    /// and wait for the host's offer, then report with `viewer_started`.
    StartViewer { session: String, peer: String, ice: Vec<IceServer> },
    /// Set the host's offer as remote description and send back an answer;
    /// once the remote description is set, report with `remote_description_set`.
    AcceptOffer { sdp: String },
    /// Set the host's answer as remote description; once it is set, report
    /// with `remote_description_set`.
    AcceptAnswer { sdp: String },
    /// Hand an ICE candidate to the peer connection.
    AddIce(IceCandidate),
    /// Close the session's peer connection.
    ClosePeer,
    /// Drop the last received frame.
    ClearFrames,
    /// Forward the input event to the host.
    ForwardInput,
    /// Start screen capture and encoding (host).
    StartCapture,
}

/// An action as plain values.
pub enum ActionV {
    Send(ClientMessageV),
    StartHost(IncomingV),
    StartViewer { session: Seq<char>, peer: Seq<char>, ice: Seq<IceServerV> },
    AcceptOffer { sdp: Seq<char> },
    AcceptAnswer { sdp: Seq<char> },
    AddIce(IceCandidateV),
    ClosePeer,
    ClearFrames,
    ForwardInput,
    StartCapture,
}

impl View for Action {
    type V = ActionV;

    open spec fn view(&self) -> ActionV {
        match self {
            Action::Send(m) => ActionV::Send(m@),
            Action::StartHost(i) => ActionV::StartHost(i@),
            Action::StartViewer { session, peer, ice } => ActionV::StartViewer {
                session: session@,
                peer: peer@,
                ice: ice_views(ice@),
            },
            Action::AcceptOffer { sdp } => ActionV::AcceptOffer { sdp: sdp@ },
            Action::AcceptAnswer { sdp } => ActionV::AcceptAnswer { sdp: sdp@ },
            Action::AddIce(c) => ActionV::AddIce(c@),
            Action::ClosePeer => ActionV::ClosePeer,
            Action::ClearFrames => ActionV::ClearFrames,
            Action::ForwardInput => ActionV::ForwardInput,
            Action::StartCapture => ActionV::StartCapture,
        }
    }
}

/// The views of a list of actions.
pub open spec fn action_views(v: Seq<Action>) -> Seq<ActionV> {
    v.map_values(|a: Action| a@)
}

/// The engine: what the window shows, the active session, a waiting
/// incoming request, and the credentials of the last successful login.
pub struct Engine {
    ui: UiState,
    session: Option<SessionState>,
    incoming: Option<IncomingRequest>,
    creds: Option<Creds>,
}

/// The engine as plain values.
pub struct EngineV {
    pub ui: UiStateV,
    pub session: Option<SessionV>,
    pub incoming: Option<IncomingV>,
    pub creds: Option<CredsV>,
}

pub open spec fn session_view(s: Option<SessionState>) -> Option<SessionV> {
    match s {
        Some(s) => Some(s@),
        None => None,
    }
}

pub open spec fn incoming_view(i: Option<IncomingRequest>) -> Option<IncomingV> {
    match i {
        Some(i) => Some(i@),
        None => None,
    }
}

pub open spec fn creds_view(c: Option<Creds>) -> Option<CredsV> {
    match c {
        Some(c) => Some(c@),
        None => None,
    }
}

impl View for Engine {
    type V = EngineV;

    closed spec fn view(&self) -> EngineV {
        EngineV {
            ui: self.ui@,
            session: session_view(self.session),
            incoming: incoming_view(self.incoming),
            creds: creds_view(self.creds),
        }
    }
}

/// The engine with another screen and status line.
pub open spec fn with_ui(e: EngineV, screen: ScreenV, status: Seq<char>) -> EngineV {
    EngineV { ui: UiStateV { screen, my_username: e.ui.my_username, status }, ..e }
}

/// The engine with another status line.
pub open spec fn with_status(e: EngineV, status: Seq<char>) -> EngineV {
    EngineV { ui: UiStateV { status, ..e.ui }, ..e }
}

/// The engine with no active session.
pub open spec fn without_session(e: EngineV) -> EngineV {
    EngineV { session: None, ..e }
}

/// The engine with no waiting request.
pub open spec fn without_incoming(e: EngineV) -> EngineV {
    EngineV { incoming: None, ..e }
}

/// What a window command does once logged in.
pub open spec fn command_step(e: EngineV, cmd: UiCommandV) -> (EngineV, Seq<ActionV>) {
    match cmd {
        UiCommandV::Login { .. } | UiCommandV::Register { .. } => (e, seq![]),
        UiCommandV::Connect { to } => {
            if e.session is Some {
                (with_status(e, "zaten bir oturumdasın"@), seq![])
            } else if blank(to) {
                (with_status(e, "kullanıcı adı boş"@), seq![])
            } else {
                (
                    with_ui(e, ScreenV::Connecting { peer: to }, "bağlantı isteği gönderildi…"@),
                    seq![ActionV::Send(ClientMessageV::Connect { to })],
                )
            }
        },
        UiCommandV::Accept => match e.incoming {
            Some(inc) => (without_incoming(e), seq![ActionV::StartHost(inc)]),
            None => (e, seq![]),
        },
        UiCommandV::Reject => match e.incoming {
            Some(inc) => (
                with_ui(without_incoming(e), ScreenV::Home, "hazır"@),
                seq![
                    ActionV::Send(
                        ClientMessageV::ConnectResponse {
                            session: inc.session,
                            to: inc.from,
                            accept: false,
                            reason: Some("reddedildi"@),
                        },
                    ),
                ],
            ),
            None => (with_ui(e, ScreenV::Home, "hazır"@), seq![]),
        },
        UiCommandV::Hangup => match e.session {
            Some(s) => (
                with_ui(without_session(e), ScreenV::Home, "bağlantı kapatıldı"@),
                seq![
                    ActionV::Send(ClientMessageV::Hangup { session: s.id }),
                    ActionV::ClosePeer,
                    ActionV::ClearFrames,
                ],
            ),
            None => (with_ui(e, ScreenV::Home, "bağlantı kapatıldı"@), seq![ActionV::ClearFrames]),
        },
        UiCommandV::Input => {
            if e.session is Some && e.session->0.has_input {
                (e, seq![ActionV::ForwardInput])
            } else {
                (e, seq![])
            }
        },
    }
}

/// What a signal from the other party does to the session: a description
/// is handed on; a candidate is handed on once the remote description is
/// set, and waits in `pending` until then.
pub open spec fn signal_step(s: SessionV, payload: SignalPayloadV) -> (SessionV, Seq<ActionV>) {
    match payload {
        SignalPayloadV::Offer { sdp } => (s, seq![ActionV::AcceptOffer { sdp }]),
        SignalPayloadV::Answer { sdp } => (s, seq![ActionV::AcceptAnswer { sdp }]),
        SignalPayloadV::IceCandidate { candidate, sdp_mid, sdp_mline_index } => {
            let c = IceCandidateV { candidate, sdp_mid, sdp_mline_index };
            if s.remote_set {
                (s, seq![ActionV::AddIce(c)])
            } else {
                (SessionV { pending: s.pending.push(c), ..s }, seq![])
            }
        },
    }
}

/// The message that carries `payload` to the other party of session `s`.
pub open spec fn to_peer(s: SessionV, payload: SignalPayloadV) -> ClientMessageV {
    ClientMessageV::Signal { session: s.id, to: s.peer, payload }
}

/// What a server message does once logged in.
pub open spec fn server_step(e: EngineV, msg: ServerMessageV) -> (EngineV, Seq<ActionV>) {
    match msg {
        ServerMessageV::IncomingConnect { session, from, ice_servers } => {
            if e.session is Some || e.incoming is Some {
                (
                    e,
                    seq![
                        ActionV::Send(
                            ClientMessageV::ConnectResponse {
                                session,
                                to: from,
                                accept: false,
                                reason: Some("meşgul"@),
                            },
                        ),
                    ],
                )
            } else {
                (
                    with_ui(
                        EngineV { incoming: Some(IncomingV { session, from, ice: ice_servers }), ..e },
                        ScreenV::Incoming { from },
                        from + " bağlanmak istiyor"@,
                    ),
                    seq![],
                )
            }
        },
        ServerMessageV::ConnectAccepted { session, peer, ice_servers } => (
            e,
            seq![ActionV::StartViewer { session, peer, ice: ice_servers }],
        ),
        ServerMessageV::ConnectRejected { reason, .. } => (
            with_ui(
                e,
                ScreenV::Message { text: "bağlantı reddedildi: "@ + reason, error: true },
                "reddedildi"@,
            ),
            seq![],
        ),
        ServerMessageV::Signal { payload, .. } => match e.session {
            Some(s) => {
                let (s2, acts) = signal_step(s, payload);
                (EngineV { session: Some(s2), ..e }, acts)
            },
            None => (e, seq![]),
        },
        ServerMessageV::Hangup { .. } => (
            with_ui(
                without_session(e),
                ScreenV::Message { text: "karşı taraf bağlantıyı kapattı"@, error: false },
                "kapandı"@,
            ),
            if e.session is Some {
                seq![ActionV::ClosePeer, ActionV::ClearFrames]
            } else {
                seq![ActionV::ClearFrames]
            },
        ),
        ServerMessageV::Error { message, .. } => (with_status(e, "sunucu: "@ + message), seq![]),
        _ => (e, seq![]),
    }
}

/// A change of the peer connection's state, as far as the engine cares.
#[derive(Debug, Clone, Copy, PartialEq, Eq, Structural)]
pub enum PeerState {
    /// The peer-to-peer path is up.
    Connected,
    /// The peer-to-peer path died.
    Failed,
    /// Any other state.
    Other,
}

/// A login or account request taken from the form.
#[derive(Debug)]
pub struct AuthRequest {
    pub creds: Creds,
    pub new_account: bool,
}

/// A login request as plain values.
pub struct AuthRequestV {
    pub creds: CredsV,
    pub new_account: bool,
}

impl View for AuthRequest {
    type V = AuthRequestV;

    open spec fn view(&self) -> AuthRequestV {
        AuthRequestV { creds: self.creds@, new_account: self.new_account }
    }
}

/// What a peer connection state change does.
pub open spec fn peer_state_step(e: EngineV, st: PeerState) -> (EngineV, Seq<ActionV>) {
    match st {
        PeerState::Connected => {
            let e2 = with_status(e, "eş bağlantısı kuruldu"@);
            match e.session {
                Some(s) => if s.capture_waiting {
                    (
                        EngineV { session: Some(SessionV { capture_waiting: false, ..s }), ..e2 },
                        seq![ActionV::StartCapture],
                    )
                } else {
                    (e2, seq![])
                },
                None => (e2, seq![]),
            }
        },
        PeerState::Failed => (
            with_ui(
                without_session(e),
                ScreenV::Message { text: "eş bağlantısı koptu (doğrudan P2P yolu kurulamadı)"@, error: true },
                "koptu"@,
            ),
            match e.session {
                Some(s) => seq![
                    ActionV::Send(ClientMessageV::Hangup { session: s.id }),
                    ActionV::ClosePeer,
                    ActionV::ClearFrames,
                ],
                None => seq![ActionV::ClearFrames],
            },
        ),
        PeerState::Other => (e, seq![]),
    }
}

/// A new session on the given side with nothing received yet.
pub open spec fn fresh_session(id: Seq<char>, peer: Seq<char>, role: Role) -> SessionV {
    SessionV {
        id,
        peer,
        role,
        remote_set: false,
        pending: seq![],
        capture_waiting: role == Role::Host,
        has_input: role == Role::Viewer,
    }
}

/// The engine after the host side was set up, or failed to be.
pub open spec fn host_started_step(e: EngineV, session: Seq<char>, from: Seq<char>, result: Result<(), Seq<char>>) -> EngineV {
    match result {
        Ok(()) => with_ui(
            EngineV { session: Some(fresh_session(session, from, Role::Host)), ..e },
            ScreenV::Sharing { peer: from },
            from + " ekranını izliyor"@,
        ),
        Err(m) => with_ui(
            e,
            ScreenV::Message { text: "paylaşım başlatılamadı: "@ + m, error: true },
            "hata"@,
        ),
    }
}

/// The engine after the viewer side was set up, or failed to be.
pub open spec fn viewer_started_step(e: EngineV, session: Seq<char>, peer: Seq<char>, result: Result<(), Seq<char>>) -> EngineV {
    match result {
        Ok(()) => with_ui(
            EngineV { session: Some(fresh_session(session, peer, Role::Viewer)), ..e },
            ScreenV::Connecting { peer },
            "kabul edildi, video bekleniyor…"@,
        ),
        Err(m) => with_ui(
            e,
            ScreenV::Message { text: "bağlantı kurulamadı: "@ + m, error: true },
            "hata"@,
        ),
    }
}

/// The status line while reconnecting, attempt `attempt` of `RECONNECT_TRIES`.
pub open spec fn reconnect_status(attempt: nat) -> Seq<char> {
    "bağlantı koptu — yeniden bağlanılıyor ("@ + decimal(attempt) + "/"@ + decimal(RECONNECT_TRIES as nat) + ")"@
}

/// The engine once every silent attempt to log in again has failed: the
/// login form, with nobody logged in.
pub open spec fn gave_up(e: EngineV) -> EngineV {
    EngineV {
        ui: UiStateV {
            screen: ScreenV::Login,
            my_username: None,
            status: "yeniden bağlanılamadı — tekrar giriş yap"@,
        },
        ..e
    }
}

/// The attempt that follows failed attempt `attempt`, if any remains.
pub open spec fn next_reconnect_attempt(attempt: nat) -> Option<nat> {
    if attempt < RECONNECT_TRIES {
        Some(attempt + 1)
    } else {
        None
    }
}

/// How many attempts are made in all, counting from attempt `attempt`, until
/// one is followed by none.
pub open spec fn attempts_from(attempt: nat) -> nat
    decreases RECONNECT_TRIES - attempt,
{
    match next_reconnect_attempt(attempt) {
        Some(n) => 1 + attempts_from(n),
        None => 1,
    }
}

/// The window state once logged in as `user`.
pub open spec fn logged_in_ui(user: Seq<char>, status: Seq<char>) -> UiStateV {
    UiStateV { screen: ScreenV::Home, my_username: Some(user), status }
}

impl Engine {
    /// A fresh engine: the login form, no session, no saved credentials.
    pub fn new() -> (r: Self)
        ensures
            r@ == (EngineV {
                ui: UiStateV { screen: ScreenV::Login, my_username: None, status: Seq::empty() },
                session: None,
                incoming: None,
                creds: None,
            }),
    {
        Engine { ui: UiState::default(), session: None, incoming: None, creds: None }
    }

    /// What the window shows.
    pub fn ui(&self) -> (r: &UiState)
        ensures
            r@ == self@.ui,
    {
        &self.ui
    }

    /// The credentials of the last successful login.
    pub fn saved_creds(&self) -> (r: Option<&Creds>)
        ensures
            match r {
                Some(c) => self@.creds == Some(c@),
                None => self@.creds is None,
            },
    {
        self.creds.as_ref()
    }

    /// The active session.
    pub fn session(&self) -> (r: Option<&SessionState>)
        ensures
            match r {
                Some(s) => self@.session == Some(s@),
                None => self@.session is None,
            },
    {
        self.session.as_ref()
    }

    /// Shows `screen` with status line `status`: the window's own moves
    /// (back home from a message, between the login and account forms, a
    /// form's complaint).
    pub fn show(&mut self, screen: Screen, status: String)
        ensures
            final(self)@ == with_ui(old(self)@, screen@, status@),
    {
        self.set_screen(screen, status);
    }

    fn set_screen(&mut self, screen: Screen, status: String)
        ensures
            final(self)@ == with_ui(old(self)@, screen@, status@),
    {
        self.ui.screen = screen;
        self.ui.status = status;
    }

    fn set_status(&mut self, status: String)
        ensures
            final(self)@ == with_status(old(self)@, status@),
    {
        self.ui.status = status;
    }

    /// Handles a window command while logged in.
    pub fn on_command(&mut self, cmd: UiCommand) -> (r: Vec<Action>)
        ensures
            final(self)@ == command_step(old(self)@, cmd@).0,
            action_views(r@) == command_step(old(self)@, cmd@).1,
    {
        let ghost e = self@;
        let mut out: Vec<Action> = Vec::new();
        match cmd {
            UiCommand::Login { .. } | UiCommand::Register { .. } => {},
            UiCommand::Connect { to } => {
                if self.session.is_some() {
                    self.set_status(String::from_str("zaten bir oturumdasın"));
                } else if trimmed(to.as_str()).as_str().unicode_len() == 0 {
                    self.set_status(String::from_str("kullanıcı adı boş"));
                } else {
                    let peer = to.clone();
                    self.set_screen(
                        Screen::Connecting { peer },
                        String::from_str("bağlantı isteği gönderildi…"),
                    );
                    out.push(Action::Send(ClientMessage::Connect { to }));
                }
            },
            UiCommand::Accept => {
                if let Some(inc) = self.incoming.take() {
                    out.push(Action::StartHost(inc));
                }
            },
            UiCommand::Reject => {
                if let Some(inc) = self.incoming.take() {
                    out.push(
                        Action::Send(
                            ClientMessage::ConnectResponse {
                                session: inc.session,
                                to: inc.from,
                                accept: false,
                                reason: Some(String::from_str("reddedildi")),
                            },
                        ),
                    );
                }
                self.set_screen(Screen::Home, String::from_str("hazır"));
            },
            UiCommand::Hangup => {
                if let Some(s) = self.session.take() {
                    out.push(Action::Send(ClientMessage::Hangup { session: s.id }));
                    out.push(Action::ClosePeer);
                }
                out.push(Action::ClearFrames);
                self.set_screen(Screen::Home, String::from_str("bağlantı kapatıldı"));
            },
            UiCommand::Input => {
                let forward = match &self.session {
                    Some(s) => s.has_input,
                    None => false,
                };
                if forward {
                    out.push(Action::ForwardInput);
                }
            },
        }
        assert(action_views(out@) =~= command_step(e, cmd@).1);
        out
    }
}

impl SessionState {
    /// A new session on side `role` with `peer`, nothing received yet.
    pub fn new(id: String, peer: String, role: Role) -> (r: Self)
        ensures
            r@ == fresh_session(id@, peer@, role),
    {
        let s = SessionState {
            id,
            peer,
            role,
            remote_set: false,
            pending: Vec::new(),
            capture_waiting: match role {
                Role::Host => true,
                Role::Viewer => false,
            },
            has_input: match role {
                Role::Host => false,
                Role::Viewer => true,
            },
        };
        assert(candidate_views(s.pending@) =~= seq![]);
        s
    }

    /// The remote description is set: candidates are handed on directly from
    /// now on, and the ones that waited are returned, in arrival order.
    pub fn remote_description_set(&mut self) -> (r: Vec<IceCandidate>)
        ensures
            final(self)@ == (SessionV { remote_set: true, pending: seq![], ..old(self)@ }),
            candidate_views(r@) == old(self)@.pending,
    {
        self.remote_set = true;
        let mut waiting: Vec<IceCandidate> = Vec::new();
        std::mem::swap(&mut waiting, &mut self.pending);
        assert(candidate_views(self.pending@) =~= seq![]);
        waiting
    }

    /// The answer to an accepted offer, addressed to the other party under
    /// the session id.
    pub fn answer_message(&self, sdp: String) -> (r: ClientMessage)
        ensures
            r@ == to_peer(self@, SignalPayloadV::Answer { sdp: sdp@ }),
    {
        ClientMessage::Signal {
            session: self.id.clone(),
            to: self.peer.clone(),
            payload: SignalPayload::Answer { sdp },
        }
    }

    /// Applies a signal from the other party (see `signal_step`).
    pub fn on_signal(&mut self, payload: SignalPayload) -> (r: Vec<Action>)
        ensures
            final(self)@ == signal_step(old(self)@, payload@).0,
            action_views(r@) == signal_step(old(self)@, payload@).1,
    {
        let ghost s0 = self@;
        let mut out: Vec<Action> = Vec::new();
        match payload {
            SignalPayload::Offer { sdp } => out.push(Action::AcceptOffer { sdp }),
            SignalPayload::Answer { sdp } => out.push(Action::AcceptAnswer { sdp }),
            SignalPayload::IceCandidate { candidate, sdp_mid, sdp_mline_index } => {
                let c = IceCandidate { candidate, sdp_mid, sdp_mline_index };
                if self.remote_set {
                    out.push(Action::AddIce(c));
                } else {
                    self.pending.push(c);
                    assert(candidate_views(self.pending@) =~= s0.pending.push(c@));
                }
            },
        }
        assert(action_views(out@) =~= signal_step(s0, payload@).1);
        out
    }
}

impl Engine {
    /// Handles a server message while logged in.
    pub fn on_server(&mut self, msg: ServerMessage) -> (r: Vec<Action>)
        ensures
            final(self)@ == server_step(old(self)@, msg@).0,
            action_views(r@) == server_step(old(self)@, msg@).1,
    {
        let ghost e = self@;
        let mut out: Vec<Action> = Vec::new();
        match msg {
            ServerMessage::IncomingConnect { session, from, ice_servers } => {
                if self.session.is_some() || self.incoming.is_some() {
                    out.push(
                        Action::Send(
                            ClientMessage::ConnectResponse {
                                session,
                                to: from,
                                accept: false,
                                reason: Some(String::from_str("meşgul")),
                            },
                        ),
                    );
                } else {
                    let shown = from.clone();
                    let status = from.clone().concat(" bağlanmak istiyor");
                    self.incoming = Some(IncomingRequest { session, from, ice: ice_servers });
                    self.set_screen(Screen::Incoming { from: shown }, status);
                }
            },
            ServerMessage::ConnectAccepted { session, peer, ice_servers } => {
                out.push(Action::StartViewer { session, peer, ice: ice_servers });
            },
            ServerMessage::ConnectRejected { reason, .. } => {
                let text = String::from_str("bağlantı reddedildi: ").concat(reason.as_str());
                self.set_screen(Screen::Message { text, error: true }, String::from_str("reddedildi"));
            },
            ServerMessage::Signal { payload, .. } => {
                let taken = self.session.take();
                match taken {
                    Some(mut s) => {
                        out = s.on_signal(payload);
                        self.session = Some(s);
                    },
                    None => {},
                }
            },
            ServerMessage::Hangup { .. } => {
                if self.session.take().is_some() {
                    out.push(Action::ClosePeer);
                }
                out.push(Action::ClearFrames);
                self.set_screen(
                    Screen::Message { text: String::from_str("karşı taraf bağlantıyı kapattı"), error: false },
                    String::from_str("kapandı"),
                );
            },
            ServerMessage::Error { message, .. } => {
                let status = String::from_str("sunucu: ").concat(message.as_str());
                self.set_status(status);
            },
            _ => {},
        }
        assert(action_views(out@) =~= server_step(e, msg@).1);
        out
    }
}

impl Engine {
    /// Handles a change of the peer connection's state. Once connected, the
    /// host starts capturing (so the first key frame reaches a live track);
    /// a failed peer-to-peer path ends the session.
    pub fn on_peer_state(&mut self, st: PeerState) -> (r: Vec<Action>)
        ensures
            final(self)@ == peer_state_step(old(self)@, st).0,
            action_views(r@) == peer_state_step(old(self)@, st).1,
    {
        let ghost e = self@;
        let mut out: Vec<Action> = Vec::new();
        match st {
            PeerState::Connected => {
                let taken = self.session.take();
                match taken {
                    Some(mut s) => {
                        if s.capture_waiting {
                            s.capture_waiting = false;
                            out.push(Action::StartCapture);
                        }
                        self.session = Some(s);
                    },
                    None => {},
                }
                self.set_status(String::from_str("eş bağlantısı kuruldu"));
            },
            PeerState::Failed => {
                if let Some(s) = self.session.take() {
                    out.push(Action::Send(ClientMessage::Hangup { session: s.id }));
                    out.push(Action::ClosePeer);
                }
                out.push(Action::ClearFrames);
                self.set_screen(
                    Screen::Message {
                        text: String::from_str("eş bağlantısı koptu (doğrudan P2P yolu kurulamadı)"),
                        error: true,
                    },
                    String::from_str("koptu"),
                );
            },
            PeerState::Other => {},
        }
        assert(action_views(out@) =~= peer_state_step(e, st).1);
        out
    }

    /// Reports how setting up the host side of `session` (requested by
    /// `from`) went.
    pub fn host_started(&mut self, session: String, from: String, result: Result<(), String>)
        ensures
            final(self)@ == host_started_step(
                old(self)@,
                session@,
                from@,
                match result {
                    Ok(()) => Ok(()),
                    Err(m) => Err(m@),
                },
            ),
    {
        match result {
            Ok(()) => {
                let shown = from.clone();
                let status = from.clone().concat(" ekranını izliyor");
                let s = SessionState {
                    id: session,
                    peer: from,
                    role: Role::Host,
                    remote_set: false,
                    pending: Vec::new(),
                    capture_waiting: true,
                    has_input: false,
                };
                assert(candidate_views(s.pending@) =~= seq![]);
                self.session = Some(s);
                self.set_screen(Screen::Sharing { peer: shown }, status);
            },
            Err(m) => {
                let text = String::from_str("paylaşım başlatılamadı: ").concat(m.as_str());
                self.set_screen(Screen::Message { text, error: true }, String::from_str("hata"));
            },
        }
    }

    /// Reports how setting up the viewer side of `session` with `peer` went.
    pub fn viewer_started(&mut self, session: String, peer: String, result: Result<(), String>)
        ensures
            final(self)@ == viewer_started_step(
                old(self)@,
                session@,
                peer@,
                match result {
                    Ok(()) => Ok(()),
                    Err(m) => Err(m@),
                },
            ),
    {
        match result {
            Ok(()) => {
                let shown = peer.clone();
                let s = SessionState {
                    id: session,
                    peer,
                    role: Role::Viewer,
                    remote_set: false,
                    pending: Vec::new(),
                    capture_waiting: false,
                    has_input: true,
                };
                assert(candidate_views(s.pending@) =~= seq![]);
                self.session = Some(s);
                self.set_screen(
                    Screen::Connecting { peer: shown },
                    String::from_str("kabul edildi, video bekleniyor…"),
                );
            },
            Err(m) => {
                let text = String::from_str("bağlantı kurulamadı: ").concat(m.as_str());
                self.set_screen(Screen::Message { text, error: true }, String::from_str("hata"));
            },
        }
    }

    /// The remote screen's video track arrived (viewer).
    pub fn track_arrived(&mut self, peer: String)
        ensures
            final(self)@ == with_ui(old(self)@, ScreenV::RemoteScreen { peer: peer@ }, peer@ + " ekranı"@),
    {
        let status = peer.clone().concat(" ekranı");
        self.set_screen(Screen::RemoteScreen { peer }, status);
    }

    /// The remote description is set: candidates are handed on directly from
    /// now on, and the ones that waited are returned, in arrival order.
    pub fn remote_description_set(&mut self) -> (r: Vec<IceCandidate>)
        ensures
            match old(self)@.session {
                Some(s) => {
                    &&& final(self)@ == (EngineV {
                        session: Some(SessionV { remote_set: true, pending: seq![], ..s }),
                        ..old(self)@
                    })
                    &&& candidate_views(r@) == s.pending
                },
                None => final(self)@ == old(self)@ && r@.len() == 0,
            },
    {
        let taken = self.session.take();
        match taken {
            Some(mut s) => {
                let waiting = s.remote_description_set();
                self.session = Some(s);
                waiting
            },
            None => Vec::new(),
        }
    }

    /// The answer to an accepted offer for the current session; none
    /// without a session.
    pub fn answer_message(&self, sdp: String) -> (r: Option<ClientMessage>)
        ensures
            match self@.session {
                Some(s) => r matches Some(m) && m@ == to_peer(s, SignalPayloadV::Answer { sdp: sdp@ }),
                None => r is None,
            },
    {
        match &self.session {
            Some(s) => Some(s.answer_message(sdp)),
            None => None,
        }
    }

    /// The signaling connection is gone (or the window closed): the session
    /// and any waiting request end.
    pub fn signal_lost(&mut self) -> (r: Vec<Action>)
        ensures
            final(self)@ == (EngineV { session: None, incoming: None, ..old(self)@ }),
            action_views(r@) == if old(self)@.session is Some {
                seq![ActionV::ClosePeer, ActionV::ClearFrames]
            } else {
                seq![ActionV::ClearFrames]
            },
    {
        let ghost e = self@;
        let mut out: Vec<Action> = Vec::new();
        if self.session.take().is_some() {
            out.push(Action::ClosePeer);
        }
        out.push(Action::ClearFrames);
        self.incoming = None;
        assert(action_views(out@) =~= if e.session is Some {
            seq![ActionV::ClosePeer, ActionV::ClearFrames]
        } else {
            seq![ActionV::ClearFrames]
        });
        out
    }

    /// The message that keeps the signaling connection alive.
    pub fn keepalive() -> (m: ClientMessage)
        ensures
            m@ == ClientMessageV::Ping,
    {
        ClientMessage::Ping
    }

    /// Shows attempt `attempt` of logging in again after the connection dropped.
    pub fn begin_reconnect(&mut self, attempt: u32)
        requires
            1 <= attempt <= RECONNECT_TRIES,
        ensures
            final(self)@ == with_ui(old(self)@, ScreenV::Reconnecting, reconnect_status(attempt as nat)),
    {
        let status = String::from_str("bağlantı koptu — yeniden bağlanılıyor (")
            .concat(u64_to_decimal(attempt as u64).as_str())
            .concat("/")
            .concat(u64_to_decimal(RECONNECT_TRIES as u64).as_str())
            .concat(")");
        self.set_screen(Screen::Reconnecting, status);
    }

    /// Logged in again with the saved credentials.
    pub fn reconnected(&mut self)
        requires
            old(self)@.creds is Some,
        ensures
            final(self)@ == (EngineV {
                ui: logged_in_ui(old(self)@.creds->0.user, "yeniden bağlandı"@),
                ..old(self)@
            }),
    {
        let user = match &self.creds {
            Some(c) => c.user.clone(),
            None => String::new(),
        };
        self.ui.my_username = Some(user);
        self.set_screen(Screen::Home, String::from_str("yeniden bağlandı"));
    }

    /// Every attempt to log in again failed: back to the login form.
    pub fn reconnect_gave_up(&mut self)
        ensures
            final(self)@ == gave_up(old(self)@),
    {
        self.ui.my_username = None;
        self.set_screen(Screen::Login, String::from_str("yeniden bağlanılamadı — tekrar giriş yap"));
    }

    /// After failed attempt `attempt` and its wait: the next attempt begins
    /// (its number is returned and shown) while fewer than `RECONNECT_TRIES`
    /// have been made; otherwise reconnecting gives up, back to the login form.
    pub fn reconnect_failed(&mut self, attempt: u32) -> (r: Option<u32>)
        ensures
            match next_reconnect_attempt(attempt as nat) {
                Some(n) => r == Some(n as u32) && final(self)@ == with_ui(
                    old(self)@,
                    ScreenV::Reconnecting,
                    reconnect_status(n),
                ),
                None => r is None && final(self)@ == gave_up(old(self)@),
            },
    {
        if attempt < RECONNECT_TRIES {
            let next = attempt + 1;
            self.begin_reconnect(next);
            Some(next)
        } else {
            self.reconnect_gave_up();
            None
        }
    }

    /// Takes a login or account request from the window before logging in;
    /// other commands are ignored then.
    pub fn auth_request(&mut self, cmd: UiCommand) -> (r: Option<AuthRequest>)
        ensures
            match cmd@ {
                UiCommandV::Login { server, user, pass } => {
                    &&& r matches Some(q) && q@ == (AuthRequestV {
                        creds: CredsV { server, user, pass },
                        new_account: false,
                    })
                    &&& final(self)@ == with_status(old(self)@, "sunucuya bağlanılıyor…"@)
                },
                UiCommandV::Register { server, user, pass } => {
                    &&& r matches Some(q) && q@ == (AuthRequestV {
                        creds: CredsV { server, user, pass },
                        new_account: true,
                    })
                    &&& final(self)@ == with_status(old(self)@, "hesap oluşturuluyor…"@)
                },
                _ => r is None && final(self)@ == old(self)@,
            },
    {
        match cmd {
            UiCommand::Login { server, user, pass } => {
                self.set_status(String::from_str("sunucuya bağlanılıyor…"));
                Some(AuthRequest { creds: Creds { server, user, pass }, new_account: false })
            },
            UiCommand::Register { server, user, pass } => {
                self.set_status(String::from_str("hesap oluşturuluyor…"));
                Some(AuthRequest { creds: Creds { server, user, pass }, new_account: true })
            },
            _ => None,
        }
    }

    /// Reports how a login request went: logged in (the credentials are
    /// kept for reconnecting), or back to the form it came from with the error.
    pub fn auth_result(&mut self, req: AuthRequest, result: Result<(), String>)
        ensures
            match result {
                Ok(()) => final(self)@ == (EngineV {
                    ui: logged_in_ui(req.creds.user@, "hazır"@),
                    creds: Some(req.creds@),
                    ..old(self)@
                }),
                Err(m) => final(self)@ == with_ui(
                    old(self)@,
                    if req.new_account {
                        ScreenV::Register
                    } else {
                        ScreenV::Login
                    },
                    m@,
                ),
            },
    {
        match result {
            Ok(()) => {
                self.ui.my_username = Some(req.creds.user.clone());
                self.set_screen(Screen::Home, String::from_str("hazır"));
                self.creds = Some(req.creds);
            },
            Err(m) => {
                let form = if req.new_account {
                    Screen::Register
                } else {
                    Screen::Login
                };
                self.set_screen(form, m);
            },
        }
    }

    /// Seconds to wait after failed reconnect attempt `attempt`.
    pub fn reconnect_delay_secs(attempt: u32) -> (r: u64)
        ensures
            r == 2 * attempt,
    {
        2 * (attempt as u64)
    }
}

} // verus!
