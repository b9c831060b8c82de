//! The signaling server's decisions for one client connection:
//! connect -> (Register | Login) -> Connect / IncomingConnect ->
//! ConnectResponse -> ConnectAccepted -> Signal (SDP/ICE both ways) -> Hangup.
//! Each incoming message becomes a state change and the messages to deliver;
//! the caller owns the sockets and delivers them.

use vstd::prelude::*;

use crate::config::ConfigV;
use crate::protocol::{
    ClientMessage, ClientMessageV, ErrorCode, IceServerV, PROTOCOL_VERSION, ServerMessage,
    ServerMessageV, SignalPayloadV, ice_views,
};
use crate::state::{
    AppState, AppStateV, ConnId, Outgoing, OutgoingV, Session, SessionV, Undelivered,
    UndeliveredV, is_session_id, out_views, peer_of_spec, route, sessions_without, to_conn,
};
use crate::text::{decimal, str_eq, u64_to_decimal};
use crate::turn::{ice_servers_for, ice_servers_spec};
use crate::users::{
    UserError, UserStore, argon2_accepts, blank, phc_parses, user_error_message, verify_outcome,
};

verus! {

/// What one client message leads to: messages to deliver, and possibly a new
/// account (by username) that must be written to the accounts file before
/// the client is answered (see `registration_stored`).
#[derive(Debug)]
pub struct Step {
    pub out: Vec<Outgoing>,
    pub registration: Option<String>,
}

/// The values that come from outside the decision: a fresh random id for a new
/// session, a fresh random login token, the clock, and the outcome of hashing
/// a new password with a random salt.
pub struct Fresh {
    pub session_id: Seq<char>,
    pub token: Seq<char>,
    pub now: u64,
    pub hash: Result<Seq<char>, Seq<char>>,
}

/// What every outcome of those outside sources satisfies: ids and tokens are
/// 32 lowercase hex digits, and a password hash verifies the password it
/// was made from.
pub open spec fn fresh_fits(f: Fresh, m: ClientMessageV) -> bool {
    &&& is_session_id(f.session_id)
    &&& is_session_id(f.token)
    &&& match (f.hash, m) {
        (Ok(h), ClientMessageV::Register { password, .. }) => phc_parses(h) && argon2_accepts(
            password,
            h,
        ),
        _ => true,
    }
}

/// A handled message as plain values.
pub struct StepV {
    pub state: AppStateV,
    pub authed: Option<Seq<char>>,
    pub out: Seq<OutgoingV>,
    pub registration: Option<Seq<char>>,
}

/// An error message.
pub open spec fn err_spec(code: ErrorCode, message: Seq<char>) -> ServerMessageV {
    ServerMessageV::Error { code, message }
}

/// The answer to a message sent before logging in.
pub open spec fn not_authed_spec() -> ServerMessageV {
    err_spec(ErrorCode::NotAuthenticated, "önce giriş yapmalısın"@)
}

/// The answer to a protocol version mismatch.
pub open spec fn protocol_mismatch_spec() -> ServerMessageV {
    err_spec(ErrorCode::ProtocolMismatch, "sunucu protokol sürümü "@ + decimal(PROTOCOL_VERSION as nat))
}

/// Only an answer on the sender's connection.
pub open spec fn answer(s: AppStateV, conn: ConnId, authed: Option<Seq<char>>, msg: ServerMessageV) -> StepV {
    StepV { state: s, authed, out: seq![to_conn(conn, msg)], registration: None }
}

/// Nothing happens.
pub open spec fn nothing(s: AppStateV, authed: Option<Seq<char>>) -> StepV {
    StepV { state: s, authed, out: seq![], registration: None }
}

/// State `s` with other sessions.
pub open spec fn with_sessions(s: AppStateV, sessions: Map<Seq<char>, SessionV>) -> AppStateV {
    AppStateV { sessions, ..s }
}

/// Handling a `Register`.
pub open spec fn register_spec(
    s: AppStateV,
    conn: ConnId,
    authed: Option<Seq<char>>,
    protocol_version: u32,
    username: Seq<char>,
    password: Seq<char>,
    f: Fresh,
) -> StepV {
    if protocol_version != PROTOCOL_VERSION {
        answer(s, conn, authed, protocol_mismatch_spec())
    } else if !s.cfg.allow_register {
        answer(
            s,
            conn,
            authed,
            err_spec(ErrorCode::BadRequest, "açık kayıt kapalı — hesap yöneticiye açtırılır"@),
        )
    } else if blank(username) || password.len() == 0 {
        answer(s, conn, authed, err_spec(ErrorCode::BadRequest, "boş kullanıcı adı/şifre"@))
    } else {
        match f.hash {
            Err(d) => answer(s, conn, authed, err_spec(ErrorCode::Internal, "argon2 hash: "@ + d)),
            Ok(h) => if s.accounts.contains_key(username) {
                answer(s, conn, authed, err_spec(ErrorCode::UsernameTaken, "kullanıcı adı zaten var"@))
            } else {
                StepV {
                    state: AppStateV { accounts: s.accounts.insert(username, h), ..s },
                    authed,
                    out: seq![],
                    registration: Some(username),
                }
            },
        }
    }
}

/// Handling a `Login`.
pub open spec fn login_spec(
    s: AppStateV,
    conn: ConnId,
    authed: Option<Seq<char>>,
    protocol_version: u32,
    username: Seq<char>,
    password: Seq<char>,
    f: Fresh,
) -> StepV {
    if protocol_version != PROTOCOL_VERSION {
        answer(s, conn, authed, protocol_mismatch_spec())
    } else {
        match verify_outcome(s.accounts, username, password) {
            Some(true) => {
                let kicked: Seq<OutgoingV> = if s.online.contains_key(username) {
                    seq![
                        to_conn(
                            s.online[username],
                            err_spec(ErrorCode::Internal, "başka bir yerden giriş yapıldı"@),
                        ),
                    ]
                } else {
                    seq![]
                };
                StepV {
                    state: AppStateV { online: s.online.insert(username, conn), ..s },
                    authed: Some(username),
                    out: kicked.push(
                        to_conn(
                            conn,
                            ServerMessageV::LoggedIn { username, session_token: f.token },
                        ),
                    ),
                    registration: None,
                }
            },
            Some(false) => answer(
                s,
                conn,
                authed,
                err_spec(ErrorCode::InvalidCredentials, "kullanıcı adı ya da şifre hatalı"@),
            ),
            None => answer(s, conn, authed, err_spec(ErrorCode::Internal, "giriş işlemi başarısız"@)),
        }
    }
}

/// Handling a `Connect`.
pub open spec fn connect_spec(s: AppStateV, conn: ConnId, authed: Option<Seq<char>>, to: Seq<char>, f: Fresh) -> StepV {
    match authed {
        None => answer(s, conn, authed, not_authed_spec()),
        Some(me) => if to == me {
            answer(s, conn, authed, err_spec(ErrorCode::BadRequest, "kendine bağlanamazsın"@))
        } else if !s.online.contains_key(to) {
            answer(s, conn, authed, err_spec(ErrorCode::PeerNotFound, to + " çevrimiçi değil"@))
        } else {
            StepV {
                state: with_sessions(
                    s,
                    s.sessions.insert(
                        f.session_id,
                        SessionV { initiator: me, target: to, accepted: false },
                    ),
                ),
                authed,
                out: seq![
                    OutgoingV {
                        conn: s.online[to],
                        msg: ServerMessageV::IncomingConnect {
                            session: f.session_id,
                            from: me,
                            ice_servers: ice_servers_spec(s.cfg, to, f.now),
                        },
                        if_undelivered: Some(
                            UndeliveredV { requester: conn, session: f.session_id, to },
                        ),
                    },
                ],
                registration: None,
            }
        },
    }
}

/// Handling a `ConnectResponse`.
pub open spec fn connect_response_spec(
    s: AppStateV,
    conn: ConnId,
    authed: Option<Seq<char>>,
    session: Seq<char>,
    to: Seq<char>,
    accept: bool,
    reason: Option<Seq<char>>,
    f: Fresh,
) -> StepV {
    match authed {
        None => answer(s, conn, authed, not_authed_spec()),
        Some(me) => if !s.sessions.contains_key(session) {
            answer(s, conn, authed, err_spec(ErrorCode::UnknownSession, "oturum bulunamadı"@))
        } else if s.sessions[session].target != me || s.sessions[session].initiator != to {
            answer(s, conn, authed, err_spec(ErrorCode::BadRequest, "bu oturuma yanıt veremezsin"@))
        } else if accept {
            StepV {
                state: with_sessions(
                    s,
                    s.sessions.insert(session, SessionV { accepted: true, ..s.sessions[session] }),
                ),
                authed,
                out: route(
                    s.online,
                    to,
                    ServerMessageV::ConnectAccepted {
                        session,
                        peer: me,
                        ice_servers: ice_servers_spec(s.cfg, to, f.now),
                    },
                ),
                registration: None,
            }
        } else {
            StepV {
                state: with_sessions(s, s.sessions.remove(session)),
                authed,
                out: route(
                    s.online,
                    to,
                    ServerMessageV::ConnectRejected {
                        peer: me,
                        reason: match reason {
                            Some(r) => r,
                            None => "reddedildi"@,
                        },
                    },
                ),
                registration: None,
            }
        },
    }
}

/// Handling a `Signal`.
pub open spec fn signal_spec(
    s: AppStateV,
    conn: ConnId,
    authed: Option<Seq<char>>,
    session: Seq<char>,
    to: Seq<char>,
    payload: SignalPayloadV,
) -> StepV {
    match authed {
        None => answer(s, conn, authed, not_authed_spec()),
        Some(me) => if !s.sessions.contains_key(session) {
            answer(s, conn, authed, err_spec(ErrorCode::UnknownSession, "oturum bulunamadı"@))
        } else if peer_of_spec(s.sessions[session], me) != Some(to) {
            answer(s, conn, authed, err_spec(ErrorCode::BadRequest, "bu oturumun tarafı değilsin"@))
        } else {
            StepV {
                state: s,
                authed,
                out: route(s.online, to, ServerMessageV::Signal { session, from: me, payload }),
                registration: None,
            }
        },
    }
}

/// Handling a `Hangup`: the session goes away, and its other party hears of it.
pub open spec fn hangup_spec(s: AppStateV, authed: Option<Seq<char>>, session: Seq<char>) -> StepV {
    match authed {
        None => nothing(s, authed),
        Some(me) => if !s.sessions.contains_key(session) {
            nothing(s, authed)
        } else {
            StepV {
                state: with_sessions(s, s.sessions.remove(session)),
                authed,
                out: match peer_of_spec(s.sessions[session], me) {
                    Some(p) => route(s.online, p, ServerMessageV::Hangup { session }),
                    None => seq![],
                },
                registration: None,
            }
        },
    }
}

/// What handling message `m` from connection `conn` (logged in as `authed`)
/// does to state `s`, given the outside values `f`.
pub open spec fn handle_spec(s: AppStateV, conn: ConnId, authed: Option<Seq<char>>, m: ClientMessageV, f: Fresh) -> StepV {
    match m {
        ClientMessageV::Register { protocol_version, username, password } => register_spec(
            s,
            conn,
            authed,
            protocol_version,
            username,
            password,
            f,
        ),
        ClientMessageV::Login { protocol_version, username, password } => login_spec(
            s,
            conn,
            authed,
            protocol_version,
            username,
            password,
            f,
        ),
        ClientMessageV::Connect { to } => connect_spec(s, conn, authed, to, f),
        ClientMessageV::ConnectResponse { session, to, accept, reason } => connect_response_spec(
            s,
            conn,
            authed,
            session,
            to,
            accept,
            reason,
            f,
        ),
        ClientMessageV::Signal { session, to, payload } => signal_spec(
            s,
            conn,
            authed,
            session,
            to,
            payload,
        ),
        ClientMessageV::Hangup { session } => hangup_spec(s, authed, session),
        ClientMessageV::Ping => answer(s, conn, authed, ServerMessageV::Pong),
    }
}

/// The view of an optional string.
pub open spec fn opt_str(o: Option<String>) -> Option<Seq<char>> {
    crate::protocol::opt_view(o)
}

/// An error message.
pub fn err(code: ErrorCode, message: String) -> (m: ServerMessage)
    ensures
        m@ == err_spec(code, message@),
{
    ServerMessage::Error { code, message }
}

/// The answer to a message sent before logging in.
pub fn not_authed() -> (m: ServerMessage)
    ensures
        m@ == not_authed_spec(),
{
    err(ErrorCode::NotAuthenticated, String::from_str("önce giriş yapmalısın"))
}

/// The answer to a protocol version mismatch.
pub fn protocol_mismatch() -> (m: ServerMessage)
    ensures
        m@ == protocol_mismatch_spec(),
{
    let mut text = String::from_str("sunucu protokol sürümü ");
    let v = u64_to_decimal(PROTOCOL_VERSION as u64);
    text.append(v.as_str());
    err(ErrorCode::ProtocolMismatch, text)
}

/// One message on connection `conn`.
fn only(conn: ConnId, msg: ServerMessage) -> (r: Step)
    ensures
        out_views(r.out@) == seq![to_conn(conn, msg@)],
        r.registration is None,
{
    let mut out: Vec<Outgoing> = Vec::new();
    out.push(Outgoing { conn, msg, if_undelivered: None });
    assert(out_views(out@) =~= seq![to_conn(conn, msg@)]);
    Step { out, registration: None }
}

/// No message at all.
fn silent() -> (r: Step)
    ensures
        out_views(r.out@) == Seq::<OutgoingV>::empty(),
        r.registration is None,
{
    let out: Vec<Outgoing> = Vec::new();
    assert(out_views(out@) =~= Seq::<OutgoingV>::empty());
    Step { out, registration: None }
}

/// The message routed to a user, as a step.
fn routed(o: Option<Outgoing>) -> (r: Step)
    ensures
        out_views(r.out@) == match o {
            Some(x) => seq![x@],
            None => Seq::<OutgoingV>::empty(),
        },
        r.registration is None,
{
    let mut out: Vec<Outgoing> = Vec::new();
    match o {
        Some(x) => {
            out.push(x);
        },
        None => {},
    }
    assert(out_views(out@) =~= match o {
        Some(x) => seq![x@],
        None => Seq::<OutgoingV>::empty(),
    });
    Step { out, registration: None }
}

/// The step handling matches `handle_spec` for some fitting outside values.
pub open spec fn handled(
    old_state: AppStateV,
    conn: ConnId,
    old_authed: Option<Seq<char>>,
    m: ClientMessageV,
    new_state: AppStateV,
    new_authed: Option<Seq<char>>,
    r: Step,
) -> bool {
    exists|f: Fresh|
        fresh_fits(f, m) && handle_spec(old_state, conn, old_authed, m, f) == (StepV {
            state: new_state,
            authed: new_authed,
            out: out_views(r.out@),
            registration: opt_str(r.registration),
        })
}


/// Outside values for a message whose handling reads none of them.
pub open spec fn some_fresh() -> Fresh {
    Fresh {
        session_id: Seq::new(32, |i: int| 'a'),
        token: Seq::new(32, |i: int| 'a'),
        now: 0,
        hash: Err(Seq::empty()),
    }
}

proof fn lemma_some_fresh_fits(m: ClientMessageV)
    ensures
        fresh_fits(some_fresh(), m),
{
    assert(is_session_id(Seq::new(32, |i: int| 'a')));
}

fn handle_register(
    state: &mut AppState,
    conn: ConnId,
    authed: &Option<String>,
    protocol_version: u32,
    username: String,
    password: String,
) -> (r: Step)
    ensures
        handled(
            old(state)@,
            conn,
            opt_str(*authed),
            ClientMessageV::Register { protocol_version, username: username@, password: password@ },
            final(state)@,
            opt_str(*authed),
            r,
        ),
{
    let ghost m = ClientMessageV::Register {
        protocol_version,
        username: username@,
        password: password@,
    };
    let ghost s0 = state@;
    let ghost a = opt_str(*authed);
    proof {
        lemma_some_fresh_fits(m);
    }
    if protocol_version != PROTOCOL_VERSION {
        let r = only(conn, protocol_mismatch());
        assert(handle_spec(s0, conn, a, m, some_fresh()) == (StepV { state: state@, authed: a, out: out_views(r.out@), registration: opt_str(r.registration) }));
        return r;
    }
    if !state.allow_register() {
        let r = only(
            conn,
            err(
                ErrorCode::BadRequest,
                String::from_str("açık kayıt kapalı — hesap yöneticiye açtırılır"),
            ),
        );
        assert(handle_spec(s0, conn, a, m, some_fresh()) == (StepV { state: state@, authed: a, out: out_views(r.out@), registration: opt_str(r.registration) }));
        return r;
    }
    let res = state.register_user(username.as_str(), password.as_str());
    match res {
        Ok(()) => {
            let ghost uname = username@;
            let out: Vec<Outgoing> = Vec::new();
            let r = Step { out, registration: Some(username) };
            proof {
                let h = choose|h: Seq<char>|
                    phc_parses(h) && argon2_accepts(password@, h) && state@.accounts
                        == s0.accounts.insert(uname, h);
                let f = Fresh { hash: Ok(h), ..some_fresh() };
                assert(fresh_fits(f, m));
                assert(out_views(r.out@) =~= Seq::<OutgoingV>::empty());
                assert(state@ =~= (AppStateV { accounts: s0.accounts.insert(uname, h), ..s0 }));
                assert(handle_spec(s0, conn, a, m, f) == (StepV { state: state@, authed: a, out: out_views(r.out@), registration: opt_str(r.registration) }));
            }
            r
        },
        Err(e) => {
            let code = match &e {
                UserError::EmptyCredentials => ErrorCode::BadRequest,
                UserError::UsernameTaken => ErrorCode::UsernameTaken,
                UserError::Hash(_) => ErrorCode::Internal,
                UserError::HashParse(_) => ErrorCode::Internal,
            };
            let text = e.message();
            let r = only(conn, err(code, text));
            proof {
                assert(state@ =~= s0);
                match e {
                    UserError::EmptyCredentials => {
                        assert(handle_spec(s0, conn, a, m, some_fresh()) == (StepV { state: state@, authed: a, out: out_views(r.out@), registration: opt_str(r.registration) }));
                    },
                    UserError::UsernameTaken => {
                        let h = choose|h: Seq<char>| phc_parses(h) && argon2_accepts(password@, h);
                        let f = Fresh { hash: Ok(h), ..some_fresh() };
                        assert(fresh_fits(f, m));
                        assert(handle_spec(s0, conn, a, m, f) == (StepV { state: state@, authed: a, out: out_views(r.out@), registration: opt_str(r.registration) }));
                    },
                    UserError::Hash(d) => {
                        let f = Fresh { hash: Err(d@), ..some_fresh() };
                        assert(fresh_fits(f, m));
                        assert(handle_spec(s0, conn, a, m, f) == (StepV { state: state@, authed: a, out: out_views(r.out@), registration: opt_str(r.registration) }));
                    },
                    UserError::HashParse(_) => {},
                }
            }
            r
        },
    }
}

fn handle_login(
    state: &mut AppState,
    conn: ConnId,
    authed: &mut Option<String>,
    protocol_version: u32,
    username: String,
    password: String,
) -> (r: Step)
    ensures
        handled(
            old(state)@,
            conn,
            opt_str(*old(authed)),
            ClientMessageV::Login { protocol_version, username: username@, password: password@ },
            final(state)@,
            opt_str(*final(authed)),
            r,
        ),
{
    let ghost m = ClientMessageV::Login { protocol_version, username: username@, password: password@ };
    let ghost s0 = state@;
    let ghost a = opt_str(*authed);
    proof {
        lemma_some_fresh_fits(m);
    }
    if protocol_version != PROTOCOL_VERSION {
        let r = only(conn, protocol_mismatch());
        assert(handle_spec(s0, conn, a, m, some_fresh()) == (StepV { state: state@, authed: opt_str(*authed), out: out_views(r.out@), registration: opt_str(r.registration) }));
        return r;
    }
    match state.verify_user(username.as_str(), password.as_str()) {
        Ok(true) => {
            let previous = state.set_online(username.as_str(), conn);
            let mut out: Vec<Outgoing> = Vec::new();
            match previous {
                Some(c) => {
                    out.push(
                        Outgoing {
                            conn: c,
                            msg: err(
                                ErrorCode::Internal,
                                String::from_str("başka bir yerden giriş yapıldı"),
                            ),
                            if_undelivered: None,
                        },
                    );
                },
                None => {},
            }
            let ghost kicked = out_views(out@);
            *authed = Some(username.clone());
            let token = AppState::new_session_id();
            let ghost tv = token@;
            let ghost uv = username@;
            out.push(
                Outgoing {
                    conn,
                    msg: ServerMessage::LoggedIn { username, session_token: token },
                    if_undelivered: None,
                },
            );
            let r = Step { out, registration: None };
            proof {
                let f = Fresh { token: tv, ..some_fresh() };
                assert(fresh_fits(f, m));
                assert(out_views(r.out@) =~= kicked.push(
                    to_conn(conn, ServerMessageV::LoggedIn { username: uv, session_token: tv }),
                ));
                assert(kicked =~= (if s0.online.contains_key(uv) {
                    seq![to_conn(s0.online[uv], err_spec(ErrorCode::Internal, "başka bir yerden giriş yapıldı"@))]
                } else {
                    Seq::<OutgoingV>::empty()
                }));
                assert(handle_spec(s0, conn, a, m, f) == (StepV { state: state@, authed: opt_str(*authed), out: out_views(r.out@), registration: opt_str(r.registration) }));
            }
            r
        },
        Ok(false) => {
            let r = only(
                conn,
                err(ErrorCode::InvalidCredentials, String::from_str("kullanıcı adı ya da şifre hatalı")),
            );
            assert(handle_spec(s0, conn, a, m, some_fresh()) == (StepV { state: state@, authed: opt_str(*authed), out: out_views(r.out@), registration: opt_str(r.registration) }));
            r
        },
        Err(_) => {
            let r = only(conn, err(ErrorCode::Internal, String::from_str("giriş işlemi başarısız")));
            assert(handle_spec(s0, conn, a, m, some_fresh()) == (StepV { state: state@, authed: opt_str(*authed), out: out_views(r.out@), registration: opt_str(r.registration) }));
            r
        },
    }
}


/// A requested connection did not reach its target: the session is dropped
/// and the requester is told that the target could not be reached.
pub fn connect_undelivered(state: &mut AppState, u: Undelivered) -> (r: Outgoing)
    ensures
        final(state)@ == with_sessions(old(state)@, old(state)@.sessions.remove(u.session@)),
        r@ == to_conn(u.requester, err_spec(ErrorCode::PeerNotFound, u.to@ + " ulaşılamadı"@)),
{
    state.remove_session(u.session.as_str());
    let text = u.to.concat(" ulaşılamadı");
    Outgoing { conn: u.requester, msg: err(ErrorCode::PeerNotFound, text), if_undelivered: None }
}

/// The answer once a new account has been written (or failed to be written)
/// to the accounts file: `Registered`, or the write error as an internal error.
pub fn registration_stored(conn: ConnId, username: String, stored: Result<(), String>) -> (r: Outgoing)
    ensures
        r@ == to_conn(
            conn,
            match stored {
                Ok(()) => ServerMessageV::Registered { username: username@ },
                Err(e) => err_spec(ErrorCode::Internal, e@),
            },
        ),
{
    match stored {
        Ok(()) => Outgoing { conn, msg: ServerMessage::Registered { username }, if_undelivered: None },
        Err(e) => Outgoing { conn, msg: err(ErrorCode::Internal, e), if_undelivered: None },
    }
}

fn handle_connect(state: &mut AppState, conn: ConnId, authed: &Option<String>, to: String) -> (r: Step)
    ensures
        handled(
            old(state)@,
            conn,
            opt_str(*authed),
            ClientMessageV::Connect { to: to@ },
            final(state)@,
            opt_str(*authed),
            r,
        ),
{
    let ghost m = ClientMessageV::Connect { to: to@ };
    let ghost s0 = state@;
    let ghost a = opt_str(*authed);
    proof {
        lemma_some_fresh_fits(m);
    }
    let me = match authed {
        Some(x) => x.clone(),
        None => {
            let r = only(conn, not_authed());
            assert(handle_spec(s0, conn, a, m, some_fresh()) == (StepV { state: state@, authed: a, out: out_views(r.out@), registration: opt_str(r.registration) }));
            return r;
        },
    };
    if str_eq(to.as_str(), me.as_str()) {
        let r = only(conn, err(ErrorCode::BadRequest, String::from_str("kendine bağlanamazsın")));
        assert(handle_spec(s0, conn, a, m, some_fresh()) == (StepV { state: state@, authed: a, out: out_views(r.out@), registration: opt_str(r.registration) }));
        return r;
    }
    if !state.is_online(to.as_str()) {
        let text = to.clone().concat(" çevrimiçi değil");
        let r = only(conn, err(ErrorCode::PeerNotFound, text));
        assert(handle_spec(s0, conn, a, m, some_fresh()) == (StepV { state: state@, authed: a, out: out_views(r.out@), registration: opt_str(r.registration) }));
        return r;
    }
    let session = AppState::new_session_id();
    let ghost sid = session@;
    state.insert_session(
        session.clone(),
        Session { initiator: me.clone(), target: to.clone(), accepted: false },
    );
    let ice = state.ice_servers_for(to.as_str());
    let ghost now = choose|now: u64| ice_views(ice@) == ice_servers_spec(state@.cfg, to@, now);
    let ghost ice_v = ice_views(ice@);
    let delivered = state.send_to(
        to.as_str(),
        ServerMessage::IncomingConnect { session: session.clone(), from: me, ice_servers: ice },
    );
    match delivered {
        Some(o) => {
            proof {
                assert(seq![o@][0] == route(state@.online, to@, ServerMessageV::IncomingConnect { session: sid, from: a->0, ice_servers: ice_v })[0]);
                assert(o.conn == s0.online[to@]);
                assert(o.msg@ == ServerMessageV::IncomingConnect { session: sid, from: a->0, ice_servers: ice_v });
            }
            let o2 = Outgoing {
                conn: o.conn,
                msg: o.msg,
                if_undelivered: Some(Undelivered { requester: conn, session, to }),
            };
            let r = routed(Some(o2));
            proof {
                let f = Fresh { session_id: sid, now, ..some_fresh() };
                assert(fresh_fits(f, m));
                assert(handle_spec(s0, conn, a, m, f) == (StepV { state: state@, authed: a, out: out_views(r.out@), registration: opt_str(r.registration) }));
            }
            r
        },
        None => {
            // The target was online a moment ago; this branch is not taken.
            proof {
                assert(state@.online.contains_key(to@));
                assert(route(state@.online, to@, ServerMessageV::IncomingConnect { session: sid, from: a->0, ice_servers: ice_v }).len() == 1);
            }
            let e = connect_undelivered(state, Undelivered { requester: conn, session, to });
            routed(Some(e))
        },
    }
}

fn handle_connect_response(
    state: &mut AppState,
    conn: ConnId,
    authed: &Option<String>,
    session: String,
    to: String,
    accept: bool,
    reason: Option<String>,
) -> (r: Step)
    ensures
        handled(
            old(state)@,
            conn,
            opt_str(*authed),
            ClientMessageV::ConnectResponse { session: session@, to: to@, accept, reason: opt_str(reason) },
            final(state)@,
            opt_str(*authed),
            r,
        ),
{
    let ghost m = ClientMessageV::ConnectResponse {
        session: session@,
        to: to@,
        accept,
        reason: opt_str(reason),
    };
    let ghost s0 = state@;
    let ghost a = opt_str(*authed);
    proof {
        lemma_some_fresh_fits(m);
    }
    let me = match authed {
        Some(x) => x.clone(),
        None => {
            let r = only(conn, not_authed());
            assert(handle_spec(s0, conn, a, m, some_fresh()) == (StepV { state: state@, authed: a, out: out_views(r.out@), registration: opt_str(r.registration) }));
            return r;
        },
    };
    let s = match state.get_session(session.as_str()) {
        Some(s) => s,
        None => {
            let r = only(conn, err(ErrorCode::UnknownSession, String::from_str("oturum bulunamadı")));
            assert(handle_spec(s0, conn, a, m, some_fresh()) == (StepV { state: state@, authed: a, out: out_views(r.out@), registration: opt_str(r.registration) }));
            return r;
        },
    };
    if !str_eq(s.target.as_str(), me.as_str()) || !str_eq(s.initiator.as_str(), to.as_str()) {
        let r = only(conn, err(ErrorCode::BadRequest, String::from_str("bu oturuma yanıt veremezsin")));
        assert(handle_spec(s0, conn, a, m, some_fresh()) == (StepV { state: state@, authed: a, out: out_views(r.out@), registration: opt_str(r.registration) }));
        return r;
    }
    if accept {
        state.accept_session(session.as_str());
        let ice = state.ice_servers_for(to.as_str());
        let ghost now = choose|now: u64| ice_views(ice@) == ice_servers_spec(state@.cfg, to@, now);
        let o = state.send_to(
            to.as_str(),
            ServerMessage::ConnectAccepted { session, peer: me, ice_servers: ice },
        );
        let r = routed(o);
        proof {
            let f = Fresh { now, ..some_fresh() };
            assert(fresh_fits(f, m));
            assert(handle_spec(s0, conn, a, m, f) == (StepV { state: state@, authed: a, out: out_views(r.out@), registration: opt_str(r.registration) }));
        }
        r
    } else {
        state.remove_session(session.as_str());
        let reason = match reason {
            Some(x) => x,
            None => String::from_str("reddedildi"),
        };
        let o = state.send_to(to.as_str(), ServerMessage::ConnectRejected { peer: me, reason });
        let r = routed(o);
        assert(handle_spec(s0, conn, a, m, some_fresh()) == (StepV { state: state@, authed: a, out: out_views(r.out@), registration: opt_str(r.registration) }));
        r
    }
}

fn handle_signal(
    state: &mut AppState,
    conn: ConnId,
    authed: &Option<String>,
    session: String,
    to: String,
    payload: crate::protocol::SignalPayload,
) -> (r: Step)
    ensures
        handled(
            old(state)@,
            conn,
            opt_str(*authed),
            ClientMessageV::Signal { session: session@, to: to@, payload: payload@ },
            final(state)@,
            opt_str(*authed),
            r,
        ),
{
    let ghost m = ClientMessageV::Signal { session: session@, to: to@, payload: payload@ };
    let ghost s0 = state@;
    let ghost a = opt_str(*authed);
    proof {
        lemma_some_fresh_fits(m);
    }
    let me = match authed {
        Some(x) => x.clone(),
        None => {
            let r = only(conn, not_authed());
            assert(handle_spec(s0, conn, a, m, some_fresh()) == (StepV { state: state@, authed: a, out: out_views(r.out@), registration: opt_str(r.registration) }));
            return r;
        },
    };
    let s = match state.get_session(session.as_str()) {
        Some(s) => s,
        None => {
            let r = only(conn, err(ErrorCode::UnknownSession, String::from_str("oturum bulunamadı")));
            assert(handle_spec(s0, conn, a, m, some_fresh()) == (StepV { state: state@, authed: a, out: out_views(r.out@), registration: opt_str(r.registration) }));
            return r;
        },
    };
    let is_peer = match s.peer_of(me.as_str()) {
        Some(p) => str_eq(p, to.as_str()),
        None => false,
    };
    if !is_peer {
        let r = only(conn, err(ErrorCode::BadRequest, String::from_str("bu oturumun tarafı değilsin")));
        assert(handle_spec(s0, conn, a, m, some_fresh()) == (StepV { state: state@, authed: a, out: out_views(r.out@), registration: opt_str(r.registration) }));
        return r;
    }
    let o = state.send_to(to.as_str(), ServerMessage::Signal { session, from: me, payload });
    let r = routed(o);
    assert(handle_spec(s0, conn, a, m, some_fresh()) == (StepV { state: state@, authed: a, out: out_views(r.out@), registration: opt_str(r.registration) }));
    r
}

fn handle_hangup(state: &mut AppState, conn: ConnId, authed: &Option<String>, session: String) -> (r: Step)
    ensures
        handled(
            old(state)@,
            conn,
            opt_str(*authed),
            ClientMessageV::Hangup { session: session@ },
            final(state)@,
            opt_str(*authed),
            r,
        ),
{
    let ghost m = ClientMessageV::Hangup { session: session@ };
    let ghost s0 = state@;
    let ghost a = opt_str(*authed);
    proof {
        lemma_some_fresh_fits(m);
    }
    let me = match authed {
        Some(x) => x.clone(),
        None => {
            let r = silent();
            assert(handle_spec(s0, conn, a, m, some_fresh()) == (StepV { state: state@, authed: a, out: out_views(r.out@), registration: opt_str(r.registration) }));
            return r;
        },
    };
    let r = match state.remove_session(session.as_str()) {
        Some(s) => match s.peer_of(me.as_str()) {
            Some(p) => {
                let o = state.send_to(p, ServerMessage::Hangup { session });
                routed(o)
            },
            None => silent(),
        },
        None => silent(),
    };
    proof {
        if !s0.sessions.contains_key(session@) {
            assert(s0.sessions.remove(session@) =~= s0.sessions);
            assert(state@ =~= s0);
        }
    }
    assert(handle_spec(s0, conn, a, m, some_fresh()) == (StepV { state: state@, authed: a, out: out_views(r.out@), registration: opt_str(r.registration) }));
    r
}

/// Handles one message from connection `conn`, whose login is `authed`.
/// What it does is `handle_spec` for some outside values that fit: a random
/// session id and login token, the clock, and a salted password hash.
pub fn handle_client_msg(state: &mut AppState, conn: ConnId, authed: &mut Option<String>, msg: ClientMessage) -> (r: Step)
    ensures
        handled(old(state)@, conn, opt_str(*old(authed)), msg@, final(state)@, opt_str(*final(authed)), r),
{
    match msg {
        ClientMessage::Register { protocol_version, username, password } => handle_register(
            state,
            conn,
            authed,
            protocol_version,
            username,
            password,
        ),
        ClientMessage::Login { protocol_version, username, password } => handle_login(
            state,
            conn,
            authed,
            protocol_version,
            username,
            password,
        ),
        ClientMessage::Connect { to } => handle_connect(state, conn, authed, to),
        ClientMessage::ConnectResponse { session, to, accept, reason } => handle_connect_response(
            state,
            conn,
            authed,
            session,
            to,
            accept,
            reason,
        ),
        ClientMessage::Signal { session, to, payload } => handle_signal(
            state,
            conn,
            authed,
            session,
            to,
            payload,
        ),
        ClientMessage::Hangup { session } => handle_hangup(state, conn, authed, session),
        ClientMessage::Ping => {
            let r = only(conn, ServerMessage::Pong);
            proof {
                lemma_some_fresh_fits(msg@);
                assert(handle_spec(state@, conn, opt_str(*authed), msg@, some_fresh()) == (StepV { state: state@, authed: opt_str(*authed), out: out_views(r.out@), registration: opt_str(r.registration) }));
            }
            r
        },
    }
}


/// The notices to the other parties of sessions that ended because `user`
/// went away: for each, `Hangup` then `Presence` (offline), where delivered.
pub open spec fn hangup_notices(
    online: Map<Seq<char>, ConnId>,
    user: Seq<char>,
    dropped: Seq<(Seq<char>, Seq<char>)>,
) -> Seq<OutgoingV>
    decreases dropped.len(),
{
    if dropped.len() == 0 {
        seq![]
    } else {
        hangup_notices(online, user, dropped.drop_last()) + route(
            online,
            dropped.last().1,
            ServerMessageV::Hangup { session: dropped.last().0 },
        ) + route(online, dropped.last().1, ServerMessageV::Presence { user, online: false })
    }
}

/// `dropped` lists, once each, exactly the sessions that `user` takes part
/// in, each with its other party.
pub open spec fn dropped_sessions(
    sessions: Map<Seq<char>, SessionV>,
    user: Seq<char>,
    dropped: Seq<(Seq<char>, Seq<char>)>,
) -> bool {
    &&& forall|i: int|
        0 <= i < dropped.len() ==> sessions.contains_key(#[trigger] dropped[i].0) && peer_of_spec(
            sessions[dropped[i].0],
            user,
        ) == Some(dropped[i].1)
    &&& forall|i: int, j: int| 0 <= i < j < dropped.len() ==> #[trigger] dropped[i].0 != #[trigger] dropped[j].0
    &&& forall|id: Seq<char>|
        #![trigger sessions[id]]
        sessions.contains_key(id) && peer_of_spec(sessions[id], user) is Some ==> exists|i: int|
            0 <= i < dropped.len() && dropped[i].0 == id
}

/// `online` after `user`'s connection `conn` closed.
pub open spec fn offline_if(online: Map<Seq<char>, ConnId>, user: Seq<char>, conn: ConnId) -> Map<Seq<char>, ConnId> {
    if online.contains_key(user) && online[user] == conn {
        online.remove(user)
    } else {
        online
    }
}

/// Connection `conn` (logged in as `authed`) closed: the user goes offline
/// (unless a newer connection took over), the user's sessions end, and
/// their other parties get `Hangup` and an offline `Presence`.
pub fn disconnect(state: &mut AppState, conn: ConnId, authed: Option<String>) -> (r: Vec<Outgoing>)
    ensures
        match authed {
            None => final(state)@ == old(state)@ && r@.len() == 0,
            Some(user) => exists|dropped: Seq<(Seq<char>, Seq<char>)>|
                dropped_sessions(old(state)@.sessions, user@, dropped) && final(state)@ == (AppStateV {
                    online: offline_if(old(state)@.online, user@, conn),
                    sessions: sessions_without(old(state)@.sessions, user@),
                    ..old(state)@
                }) && out_views(r@) == hangup_notices(final(state)@.online, user@, dropped),
        },
{
    let mut out: Vec<Outgoing> = Vec::new();
    match authed {
        None => out,
        Some(user) => {
            state.set_offline_if(user.as_str(), conn);
            let dropped = state.drop_sessions_of(user.as_str());
            let ghost dv = dropped@.map_values(|p: (String, String)| (p.0@, p.1@));
            proof {
                assert forall|i: int| 0 <= i < dv.len() implies old(state)@.sessions.contains_key(#[trigger] dv[i].0)
                    && peer_of_spec(old(state)@.sessions[dv[i].0], user@) == Some(dv[i].1) by {
                    assert(dv[i].0 == dropped@[i].0@);
                }
                assert forall|i: int, j: int| 0 <= i < j < dv.len() implies #[trigger] dv[i].0 != #[trigger] dv[j].0 by {
                    assert(dv[i].0 == dropped@[i].0@);
                    assert(dv[j].0 == dropped@[j].0@);
                }
                assert forall|id: Seq<char>|
                    #![trigger old(state)@.sessions[id]]
                    old(state)@.sessions.contains_key(id) && peer_of_spec(old(state)@.sessions[id], user@) is Some
                        implies exists|i: int| 0 <= i < dv.len() && dv[i].0 == id by {
                    let i = choose|i: int| 0 <= i < dropped@.len() && dropped@[i].0@ == id;
                    assert(dv[i].0 == id);
                }
                assert(dropped_sessions(old(state)@.sessions, user@, dv));
            }
            let n = dropped.len();
            let mut i: usize = 0;
            while i < n
                invariant
                    n == dropped@.len(),
                    i <= n,
                    dv == dropped@.map_values(|p: (String, String)| (p.0@, p.1@)),
                    out_views(out@) == hangup_notices(state@.online, user@, dv.subrange(0, i as int)),
                decreases n - i,
            {
                let session = dropped[i].0.clone();
                let peer = &dropped[i].1;
                let ghost before = out_views(out@);
                let h = state.send_to(peer.as_str(), ServerMessage::Hangup { session });
                let ghost hv = match h { Some(ref x) => seq![x@], None => Seq::<OutgoingV>::empty() };
                match h {
                    Some(x) => out.push(x),
                    None => {},
                }
                let p = state.send_to(peer.as_str(), ServerMessage::Presence { user: user.clone(), online: false });
                let ghost pv = match p { Some(ref x) => seq![x@], None => Seq::<OutgoingV>::empty() };
                match p {
                    Some(x) => out.push(x),
                    None => {},
                }
                proof {
                    assert(out_views(out@) =~= before + hv + pv);
                    let sub = dv.subrange(0, i + 1);
                    assert(sub.drop_last() =~= dv.subrange(0, i as int));
                    assert(sub.last() == dv[i as int]);
                }
                i = i + 1;
            }
            proof {
                assert(dv.subrange(0, n as int) =~= dv);
            }
            out
        },
    }
}

} // verus!
