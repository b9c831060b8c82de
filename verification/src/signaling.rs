//! The signaling client's waits: which server message ends a login, an
//! account request, or the wait for a connection answer, and with what.
//! The caller owns the socket and hands in each message as it arrives
//! (`None` once the connection closed).

use vstd::prelude::*;

use crate::protocol::{ErrorCode, IceServer, IceServerV, ServerMessage, ServerMessageV, ice_views};

verus! {

/// The name of an error code, as it is printed in messages.
pub open spec fn error_code_name_spec(c: ErrorCode) -> Seq<char> {
    match c {
        ErrorCode::ProtocolMismatch => "ProtocolMismatch"@,
        ErrorCode::UsernameTaken => "UsernameTaken"@,
        ErrorCode::InvalidCredentials => "InvalidCredentials"@,
        ErrorCode::NotAuthenticated => "NotAuthenticated"@,
        ErrorCode::PeerNotFound => "PeerNotFound"@,
        ErrorCode::PeerBusy => "PeerBusy"@,
        ErrorCode::UnknownSession => "UnknownSession"@,
        ErrorCode::BadRequest => "BadRequest"@,
        ErrorCode::Internal => "Internal"@,
    }
}

/// The name of an error code, as it is printed in messages.
pub fn error_code_name(c: ErrorCode) -> (r: String)
    ensures
        r@ == error_code_name_spec(c),
{
    match c {
        ErrorCode::ProtocolMismatch => String::from_str("ProtocolMismatch"),
        ErrorCode::UsernameTaken => String::from_str("UsernameTaken"),
        ErrorCode::InvalidCredentials => String::from_str("InvalidCredentials"),
        ErrorCode::NotAuthenticated => String::from_str("NotAuthenticated"),
        ErrorCode::PeerNotFound => String::from_str("PeerNotFound"),
        ErrorCode::PeerBusy => String::from_str("PeerBusy"),
        ErrorCode::UnknownSession => String::from_str("UnknownSession"),
        ErrorCode::BadRequest => String::from_str("BadRequest"),
        ErrorCode::Internal => String::from_str("Internal"),
    }
}

/// Where a wait for an answer stands after one message.
#[derive(Debug)]
pub enum Reply {
    /// The wait is over and succeeded (a login hands back its session token).
    Done(String),
    /// The wait is over and failed, with the error text.
    Failed(String),
    /// The message does not concern this wait; wait for the next one.
    Wait,
}

/// A wait's state as plain values.
pub enum ReplyV {
    Done(Seq<char>),
    Failed(Seq<char>),
    Wait,
}

impl View for Reply {
    type V = ReplyV;

    open spec fn view(&self) -> ReplyV {
        match self {
            Reply::Done(s) => ReplyV::Done(s@),
            Reply::Failed(s) => ReplyV::Failed(s@),
            Reply::Wait => ReplyV::Wait,
        }
    }
}

/// The error text when the connection closed while waiting.
pub open spec fn closed_text() -> Seq<char> {
    "bağlantı kapandı"@
}

/// How a login wait treats a message: `LoggedIn` ends it with the session
/// token, an error ends it with `giriş hatası <code>: <message>`.
pub open spec fn login_reply_spec(msg: Option<ServerMessageV>) -> ReplyV {
    match msg {
        Some(ServerMessageV::LoggedIn { session_token, .. }) => ReplyV::Done(session_token),
        Some(ServerMessageV::Error { code, message }) => ReplyV::Failed(
            "giriş hatası "@ + error_code_name_spec(code) + ": "@ + message,
        ),
        Some(_) => ReplyV::Wait,
        None => ReplyV::Failed(closed_text()),
    }
}

/// How a login wait treats the next message.
pub fn login_reply(msg: Option<ServerMessage>) -> (r: Reply)
    ensures
        r@ == login_reply_spec(
            match msg {
                Some(m) => Some(m@),
                None => None,
            },
        ),
{
    match msg {
        Some(ServerMessage::LoggedIn { session_token, .. }) => Reply::Done(session_token),
        Some(ServerMessage::Error { code, message }) => Reply::Failed(
            String::from_str("giriş hatası ").concat(error_code_name(code).as_str()).concat(": ").concat(
                message.as_str(),
            ),
        ),
        Some(_) => Reply::Wait,
        None => Reply::Failed(String::from_str("bağlantı kapandı")),
    }
}

/// How an account request wait treats a message: `Registered` ends it (with
/// the username), an error ends it with `kayıt hatası <code>: <message>`.
pub open spec fn register_reply_spec(msg: Option<ServerMessageV>) -> ReplyV {
    match msg {
        Some(ServerMessageV::Registered { username }) => ReplyV::Done(username),
        Some(ServerMessageV::Error { code, message }) => ReplyV::Failed(
            "kayıt hatası "@ + error_code_name_spec(code) + ": "@ + message,
        ),
        Some(_) => ReplyV::Wait,
        None => ReplyV::Failed(closed_text()),
    }
}

/// How an account request wait treats the next message.
pub fn register_reply(msg: Option<ServerMessage>) -> (r: Reply)
    ensures
        r@ == register_reply_spec(
            match msg {
                Some(m) => Some(m@),
                None => None,
            },
        ),
{
    match msg {
        Some(ServerMessage::Registered { username }) => Reply::Done(username),
        Some(ServerMessage::Error { code, message }) => Reply::Failed(
            String::from_str("kayıt hatası ").concat(error_code_name(code).as_str()).concat(": ").concat(
                message.as_str(),
            ),
        ),
        Some(_) => Reply::Wait,
        None => Reply::Failed(String::from_str("bağlantı kapandı")),
    }
}

/// Where the caller's wait for an answer to its connection request stands.
#[derive(Debug)]
pub enum CallAnswer {
    /// Accepted: the session and the ICE servers to use.
    Accepted { session: String, ice: Vec<IceServer> },
    /// Rejected, failed, or the connection closed.
    Failed(String),
    /// Keep waiting.
    Wait,
}

/// A call answer as plain values.
pub enum CallAnswerV {
    Accepted { session: Seq<char>, ice: Seq<IceServerV> },
    Failed(Seq<char>),
    Wait,
}

impl View for CallAnswer {
    type V = CallAnswerV;

    open spec fn view(&self) -> CallAnswerV {
        match self {
            CallAnswer::Accepted { session, ice } => CallAnswerV::Accepted {
                session: session@,
                ice: ice_views(ice@),
            },
            CallAnswer::Failed(s) => CallAnswerV::Failed(s@),
            CallAnswer::Wait => CallAnswerV::Wait,
        }
    }
}

/// How the caller's wait treats a message.
pub open spec fn call_answer_spec(msg: Option<ServerMessageV>) -> CallAnswerV {
    match msg {
        Some(ServerMessageV::ConnectAccepted { session, ice_servers, .. }) => CallAnswerV::Accepted {
            session,
            ice: ice_servers,
        },
        Some(ServerMessageV::ConnectRejected { reason, .. }) => CallAnswerV::Failed(
            "bağlantı reddedildi: "@ + reason,
        ),
        Some(ServerMessageV::Error { message, .. }) => CallAnswerV::Failed("hata: "@ + message),
        Some(_) => CallAnswerV::Wait,
        None => CallAnswerV::Failed(closed_text()),
    }
}

/// How the caller's wait treats the next message.
pub fn call_answer(msg: Option<ServerMessage>) -> (r: CallAnswer)
    ensures
        r@ == call_answer_spec(
            match msg {
                Some(m) => Some(m@),
                None => None,
            },
        ),
{
    match msg {
        Some(ServerMessage::ConnectAccepted { session, ice_servers, .. }) => CallAnswer::Accepted {
            session,
            ice: ice_servers,
        },
        Some(ServerMessage::ConnectRejected { reason, .. }) => CallAnswer::Failed(
            String::from_str("bağlantı reddedildi: ").concat(reason.as_str()),
        ),
        Some(ServerMessage::Error { message, .. }) => CallAnswer::Failed(
            String::from_str("hata: ").concat(message.as_str()),
        ),
        Some(_) => CallAnswer::Wait,
        None => CallAnswer::Failed(String::from_str("bağlantı kapandı")),
    }
}

/// Where the callee's wait for a request stands.
#[derive(Debug)]
pub enum CallRequest {
    /// A request arrived.
    Incoming { session: String, from: String, ice: Vec<IceServer> },
    /// The connection closed.
    Closed,
    /// Keep waiting.
    Wait,
}

/// A call request as plain values.
pub enum CallRequestV {
    Incoming { session: Seq<char>, from: Seq<char>, ice: Seq<IceServerV> },
    Closed,
    Wait,
}

impl View for CallRequest {
    type V = CallRequestV;

    open spec fn view(&self) -> CallRequestV {
        match self {
            CallRequest::Incoming { session, from, ice } => CallRequestV::Incoming {
                session: session@,
                from: from@,
                ice: ice_views(ice@),
            },
            CallRequest::Closed => CallRequestV::Closed,
            CallRequest::Wait => CallRequestV::Wait,
        }
    }
}

/// How the callee's wait treats the next message: only a request ends it.
pub fn call_request(msg: Option<ServerMessage>) -> (r: CallRequest)
    ensures
        r@ == match msg {
            Some(m) => match m@ {
                ServerMessageV::IncomingConnect { session, from, ice_servers } => CallRequestV::Incoming {
                    session,
                    from,
                    ice: ice_servers,
                },
                _ => CallRequestV::Wait,
            },
            None => CallRequestV::Closed,
        },
{
    match msg {
        Some(ServerMessage::IncomingConnect { session, from, ice_servers }) => CallRequest::Incoming {
            session,
            from,
            ice: ice_servers,
        },
        Some(_) => CallRequest::Wait,
        None => CallRequest::Closed,
    }
}

} // verus!
