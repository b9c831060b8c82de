//! The signaling protocol spoken between clients and the server. On the wire
//! each message is a JSON object tagged by `type` (and a signal payload by
//! `kind`); the field names are stable. The server treats signal payloads as
//! opaque and only forwards them.

use vstd::prelude::*;

use crate::text::string_views;

verus! {

/// Protocol version; a client sends it when it registers or logs in.
pub const PROTOCOL_VERSION: u32 = 1;

/// A STUN/TURN server entry for the client's ICE configuration. TURN entries
/// carry short-lived credentials: `username = "<expiry_unix>:<user>"`,
/// `credential = base64(hmac_sha1(secret, username))`.
#[derive(Debug)]
pub struct IceServer {
    pub urls: Vec<String>,
    pub username: Option<String>,
    pub credential: Option<String>,
}

/// Error codes, so that a client can show a meaningful message.
#[derive(Debug, Clone, Copy, PartialEq, Eq, Structural)]
pub enum ErrorCode {
    /// The protocol version does not match.
    ProtocolMismatch,
    /// The username already exists (registration).
    UsernameTaken,
    /// Wrong username or password (login).
    InvalidCredentials,
    /// An operation was tried before logging in.
    NotAuthenticated,
    /// The target user is unknown or not online.
    PeerNotFound,
    /// The target user is busy.
    PeerBusy,
    /// Unknown session reference.
    UnknownSession,
    /// Malformed or forbidden request.
    BadRequest,
    /// Server-side failure.
    Internal,
}

/// WebRTC negotiation data, opaque to the server.
#[derive(Debug)]
pub enum SignalPayload {
    /// Session description (offer).
    Offer { sdp: String },
    /// Session description (answer).
    Answer { sdp: String },
    /// One ICE candidate (trickle ICE).
    IceCandidate { candidate: String, sdp_mid: Option<String>, sdp_mline_index: Option<u16> },
}

/// Messages a client sends to the server.
#[derive(Debug)]
pub enum ClientMessage {
    /// Create an account.
    Register { protocol_version: u32, username: String, password: String },
    /// Log in; on success this connection counts as `username` being online.
    Login { protocol_version: u32, username: String, password: String },
    /// Ask to connect to a user (viewer side).
    Connect { to: String },
    /// Answer an incoming connection request (host side).
    ConnectResponse { session: String, to: String, accept: bool, reason: Option<String> },
    /// Forward WebRTC data to the other party of a session.
    Signal { session: String, to: String, payload: SignalPayload },
    /// End a session.
    Hangup { session: String },
    /// Application-level keepalive.
    Ping,
}

/// Messages the server sends to a client.
#[derive(Debug)]
pub enum ServerMessage {
    /// Registration succeeded.
    Registered { username: String },
    /// Login succeeded.
    LoggedIn { username: String, session_token: String },
    /// Someone asks to connect to you.
    IncomingConnect { session: String, from: String, ice_servers: Vec<IceServer> },
    /// Your connection request was accepted; SDP/ICE exchange begins.
    ConnectAccepted { session: String, peer: String, ice_servers: Vec<IceServer> },
    /// Your connection request was rejected or could not be delivered.
    ConnectRejected { peer: String, reason: String },
    /// WebRTC data from the other party.
    Signal { session: String, from: String, payload: SignalPayload },
    /// The other party closed the session.
    Hangup { session: String },
    /// A user's online state changed.
    Presence { user: String, online: bool },
    /// An error report.
    Error { code: ErrorCode, message: String },
    /// Answer to `Ping`.
    Pong,
}

/// The view of an optional string.
pub open spec fn opt_view(o: Option<String>) -> Option<Seq<char>> {
    match o {
        Some(s) => Some(s@),
        None => None,
    }
}

/// An ICE server entry as plain values.
pub struct IceServerV {
    pub urls: Seq<Seq<char>>,
    pub username: Option<Seq<char>>,
    pub credential: Option<Seq<char>>,
}

impl View for IceServer {
    type V = IceServerV;

    open spec fn view(&self) -> IceServerV {
        IceServerV {
            urls: string_views(self.urls@),
            username: opt_view(self.username),
            credential: opt_view(self.credential),
        }
    }
}

/// The views of a list of ICE server entries.
pub open spec fn ice_views(v: Seq<IceServer>) -> Seq<IceServerV> {
    v.map_values(|s: IceServer| s@)
}

/// A signal payload as plain values.
pub enum SignalPayloadV {
    Offer { sdp: Seq<char> },
    Answer { sdp: Seq<char> },
    IceCandidate {
        candidate: Seq<char>,
        sdp_mid: Option<Seq<char>>,
        sdp_mline_index: Option<u16>,
    },
}

impl View for SignalPayload {
    type V = SignalPayloadV;

    open spec fn view(&self) -> SignalPayloadV {
        match self {
            SignalPayload::Offer { sdp } => SignalPayloadV::Offer { sdp: sdp@ },
            SignalPayload::Answer { sdp } => SignalPayloadV::Answer { sdp: sdp@ },
            SignalPayload::IceCandidate { candidate, sdp_mid, sdp_mline_index } => {
                SignalPayloadV::IceCandidate {
                    candidate: candidate@,
                    sdp_mid: opt_view(*sdp_mid),
                    sdp_mline_index: *sdp_mline_index,
                }
            },
        }
    }
}

/// A client message as plain values.
pub enum ClientMessageV {
    Register { protocol_version: u32, username: Seq<char>, password: Seq<char> },
    Login { protocol_version: u32, username: Seq<char>, password: Seq<char> },
    Connect { to: Seq<char> },
    ConnectResponse {
        session: Seq<char>,
        to: Seq<char>,
        accept: bool,
        reason: Option<Seq<char>>,
    },
    Signal { session: Seq<char>, to: Seq<char>, payload: SignalPayloadV },
    Hangup { session: Seq<char> },
    Ping,
}

impl View for ClientMessage {
    type V = ClientMessageV;

    open spec fn view(&self) -> ClientMessageV {
        match self {
            ClientMessage::Register { protocol_version, username, password } => {
                ClientMessageV::Register {
                    protocol_version: *protocol_version,
                    username: username@,
                    password: password@,
                }
            },
            ClientMessage::Login { protocol_version, username, password } => {
                ClientMessageV::Login {
                    protocol_version: *protocol_version,
                    username: username@,
                    password: password@,
                }
            },
            ClientMessage::Connect { to } => ClientMessageV::Connect { to: to@ },
            ClientMessage::ConnectResponse { session, to, accept, reason } => {
                ClientMessageV::ConnectResponse {
                    session: session@,
                    to: to@,
                    accept: *accept,
                    reason: opt_view(*reason),
                }
            },
            ClientMessage::Signal { session, to, payload } => ClientMessageV::Signal {
                session: session@,
                to: to@,
                payload: payload@,
            },
            ClientMessage::Hangup { session } => ClientMessageV::Hangup { session: session@ },
            ClientMessage::Ping => ClientMessageV::Ping,
        }
    }
}

/// A server message as plain values.
pub enum ServerMessageV {
    Registered { username: Seq<char> },
    LoggedIn { username: Seq<char>, session_token: Seq<char> },
    IncomingConnect { session: Seq<char>, from: Seq<char>, ice_servers: Seq<IceServerV> },
    ConnectAccepted { session: Seq<char>, peer: Seq<char>, ice_servers: Seq<IceServerV> },
    ConnectRejected { peer: Seq<char>, reason: Seq<char> },
    Signal { session: Seq<char>, from: Seq<char>, payload: SignalPayloadV },
    Hangup { session: Seq<char> },
    Presence { user: Seq<char>, online: bool },
    Error { code: ErrorCode, message: Seq<char> },
    Pong,
}

impl View for ServerMessage {
    type V = ServerMessageV;

    open spec fn view(&self) -> ServerMessageV {
        match self {
            ServerMessage::Registered { username } => ServerMessageV::Registered {
                username: username@,
            },
            ServerMessage::LoggedIn { username, session_token } => ServerMessageV::LoggedIn {
                username: username@,
                session_token: session_token@,
            },
            ServerMessage::IncomingConnect { session, from, ice_servers } => {
                ServerMessageV::IncomingConnect {
                    session: session@,
                    from: from@,
                    ice_servers: ice_views(ice_servers@),
                }
            },
            ServerMessage::ConnectAccepted { session, peer, ice_servers } => {
                ServerMessageV::ConnectAccepted {
                    session: session@,
                    peer: peer@,
                    ice_servers: ice_views(ice_servers@),
                }
            },
            ServerMessage::ConnectRejected { peer, reason } => ServerMessageV::ConnectRejected {
                peer: peer@,
                reason: reason@,
            },
            ServerMessage::Signal { session, from, payload } => ServerMessageV::Signal {
                session: session@,
                from: from@,
                payload: payload@,
            },
            ServerMessage::Hangup { session } => ServerMessageV::Hangup { session: session@ },
            ServerMessage::Presence { user, online } => ServerMessageV::Presence {
                user: user@,
                online: *online,
            },
            ServerMessage::Error { code, message } => ServerMessageV::Error {
                code: *code,
                message: message@,
            },
            ServerMessage::Pong => ServerMessageV::Pong,
        }
    }
}

} // verus!
