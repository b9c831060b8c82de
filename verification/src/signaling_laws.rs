//! Properties of the signaling server over the whole protocol: what a login,
//! a connection request, its answer and the SDP/ICE relay give, and what the
//! server keeps true of its state.

use vstd::prelude::*;

use crate::protocol::{ClientMessageV, ErrorCode, PROTOCOL_VERSION, ServerMessageV, SignalPayloadV};
use crate::state::{AppStateV, ConnId, SessionV, peer_of_spec, route, sessions_without, to_conn};
use crate::turn::ice_servers_spec;
use crate::users::{argon2_accepts, phc_parses, verify_outcome};
use crate::ws::{Fresh, StepV, err_spec, fresh_fits, handle_spec, not_authed_spec, offline_if};

verus! {

/// A signal from one party of a session to the other is relayed unchanged,
/// tagged with the sender, to the other party's connection; the state does
/// not change. The server does not look into the payload.
pub proof fn law_signal_is_relayed(
    s: AppStateV,
    conn: ConnId,
    me: Seq<char>,
    session: Seq<char>,
    to: Seq<char>,
    payload: SignalPayloadV,
    f: Fresh,
)
    requires
        s.sessions.contains_key(session),
        peer_of_spec(s.sessions[session], me) == Some(to),
        s.online.contains_key(to),
    ensures
        handle_spec(s, conn, Some(me), ClientMessageV::Signal { session, to, payload }, f) == (StepV {
            state: s,
            authed: Some(me),
            out: seq![to_conn(s.online[to], ServerMessageV::Signal { session, from: me, payload })],
            registration: None,
        }),
{
}

/// A connection request to a user who is not online is answered with
/// `PeerNotFound` and changes nothing.
pub proof fn law_connect_to_offline_user_errors(
    s: AppStateV,
    conn: ConnId,
    me: Seq<char>,
    to: Seq<char>,
    f: Fresh,
)
    requires
        !s.online.contains_key(to),
        to != me,
    ensures
        handle_spec(s, conn, Some(me), ClientMessageV::Connect { to }, f) == (StepV {
            state: s,
            authed: Some(me),
            out: seq![to_conn(conn, err_spec(ErrorCode::PeerNotFound, to + " çevrimiçi değil"@))],
            registration: None,
        }),
{
}

/// A connection request to an online user records a new, not yet accepted
/// session from the requester to the target, and the target is asked to
/// accept under that session id; the requester hears nothing yet.
pub proof fn law_connect_asks_the_target(s: AppStateV, conn: ConnId, me: Seq<char>, to: Seq<char>, f: Fresh)
    requires
        s.online.contains_key(to),
        to != me,
    ensures
        ({
            let r = handle_spec(s, conn, Some(me), ClientMessageV::Connect { to }, f);
            &&& r.state.sessions == s.sessions.insert(
                f.session_id,
                SessionV { initiator: me, target: to, accepted: false },
            )
            &&& r.state.online == s.online
            &&& r.out.len() == 1
            &&& r.out[0].conn == s.online[to]
            &&& r.out[0].msg == ServerMessageV::IncomingConnect {
                session: f.session_id,
                from: me,
                ice_servers: ice_servers_spec(s.cfg, to, f.now),
            }
        }),
{
}

/// When the target accepts, the session becomes accepted and the requester
/// is told, under the same session id, who accepted.
pub proof fn law_accept_tells_the_requester(
    s: AppStateV,
    conn: ConnId,
    me: Seq<char>,
    session: Seq<char>,
    to: Seq<char>,
    f: Fresh,
)
    requires
        s.sessions.contains_key(session),
        s.sessions[session].target == me,
        s.sessions[session].initiator == to,
        s.online.contains_key(to),
    ensures
        ({
            let r = handle_spec(
                s,
                conn,
                Some(me),
                ClientMessageV::ConnectResponse { session, to, accept: true, reason: None },
                f,
            );
            &&& r.state.sessions.contains_key(session)
            &&& r.state.sessions[session] == SessionV { initiator: to, target: me, accepted: true }
            &&& r.out == seq![
                to_conn(
                    s.online[to],
                    ServerMessageV::ConnectAccepted {
                        session,
                        peer: me,
                        ice_servers: ice_servers_spec(s.cfg, to, f.now),
                    },
                ),
            ]
        }),
{
}

/// Only the target of a session may answer it, and only on behalf of its
/// initiator; anyone else is refused and nothing changes.
pub proof fn law_only_the_target_answers(
    s: AppStateV,
    conn: ConnId,
    me: Seq<char>,
    session: Seq<char>,
    to: Seq<char>,
    accept: bool,
    reason: Option<Seq<char>>,
    f: Fresh,
)
    requires
        s.sessions.contains_key(session),
        s.sessions[session].target != me || s.sessions[session].initiator != to,
    ensures
        handle_spec(s, conn, Some(me), ClientMessageV::ConnectResponse { session, to, accept, reason }, f)
            == (StepV {
            state: s,
            authed: Some(me),
            out: seq![to_conn(conn, err_spec(ErrorCode::BadRequest, "bu oturuma yanıt veremezsin"@))],
            registration: None,
        }),
{
}

/// Before logging in, only `Register`, `Login` and `Ping` do anything: other
/// requests are answered `NotAuthenticated` (a hang-up is ignored), and the
/// state does not change.
pub proof fn law_requests_need_login(s: AppStateV, conn: ConnId, m: ClientMessageV, f: Fresh)
    requires
        !(m is Register || m is Login || m is Ping),
    ensures
        handle_spec(s, conn, None, m, f).state == s,
        handle_spec(s, conn, None, m, f).authed is None,
        handle_spec(s, conn, None, m, f).out == if m is Hangup {
            Seq::<crate::state::OutgoingV>::empty()
        } else {
            seq![to_conn(conn, not_authed_spec())]
        },
{
}

/// A registered account logs in with the password it was registered with:
/// registering a new name (open registration on) stores a hash, and a login
/// with the same password then succeeds, marks the user online on that
/// connection and answers `LoggedIn` with the token.
pub proof fn law_registered_user_can_log_in(
    s: AppStateV,
    conn: ConnId,
    authed: Option<Seq<char>>,
    username: Seq<char>,
    password: Seq<char>,
    f1: Fresh,
    conn2: ConnId,
    f2: Fresh,
)
    requires
        s.cfg.allow_register,
        !crate::users::blank(username),
        password.len() > 0,
        !s.accounts.contains_key(username),
        f1.hash is Ok,
        fresh_fits(
            f1,
            ClientMessageV::Register { protocol_version: PROTOCOL_VERSION, username, password },
        ),
    ensures
        ({
            let r1 = handle_spec(
                s,
                conn,
                authed,
                ClientMessageV::Register { protocol_version: PROTOCOL_VERSION, username, password },
                f1,
            );
            let r2 = handle_spec(
                r1.state,
                conn2,
                None,
                ClientMessageV::Login { protocol_version: PROTOCOL_VERSION, username, password },
                f2,
            );
            &&& r1.registration == Some(username)
            &&& r2.authed == Some(username)
            &&& r2.state.online == s.online.insert(username, conn2)
            &&& r2.out.last() == to_conn(
                conn2,
                ServerMessageV::LoggedIn { username, session_token: f2.token },
            )
        }),
{
    let h = f1.hash->Ok_0;
    assert(phc_parses(h) && argon2_accepts(password, h));
    let r1 = handle_spec(
        s,
        conn,
        authed,
        ClientMessageV::Register { protocol_version: PROTOCOL_VERSION, username, password },
        f1,
    );
    assert(r1.state.accounts == s.accounts.insert(username, h));
    assert(verify_outcome(r1.state.accounts, username, password) == Some(true));
}

/// A wrong password (one that argon2 does not accept against the stored
/// hash) is answered `InvalidCredentials`, and nothing changes.
pub proof fn law_wrong_password_is_refused(
    s: AppStateV,
    conn: ConnId,
    authed: Option<Seq<char>>,
    username: Seq<char>,
    password: Seq<char>,
    f: Fresh,
)
    requires
        s.accounts.contains_key(username),
        phc_parses(s.accounts[username]),
        !argon2_accepts(password, s.accounts[username]),
    ensures
        handle_spec(
            s,
            conn,
            authed,
            ClientMessageV::Login { protocol_version: PROTOCOL_VERSION, username, password },
            f,
        ) == (StepV {
            state: s,
            authed,
            out: seq![
                to_conn(
                    conn,
                    err_spec(ErrorCode::InvalidCredentials, "kullanıcı adı ya da şifre hatalı"@),
                ),
            ],
            registration: None,
        }),
{
}

/// Logging in where the user is already online moves the user to the new
/// connection, and the old connection is told so before the new one hears
/// `LoggedIn`.
pub proof fn law_second_login_takes_over(
    s: AppStateV,
    conn: ConnId,
    authed: Option<Seq<char>>,
    username: Seq<char>,
    password: Seq<char>,
    f: Fresh,
)
    requires
        verify_outcome(s.accounts, username, password) == Some(true),
        s.online.contains_key(username),
    ensures
        ({
            let r = handle_spec(
                s,
                conn,
                authed,
                ClientMessageV::Login { protocol_version: PROTOCOL_VERSION, username, password },
                f,
            );
            &&& r.state.online[username] == conn
            &&& r.out == seq![
                to_conn(s.online[username], err_spec(ErrorCode::Internal, "başka bir yerden giriş yapıldı"@)),
                to_conn(conn, ServerMessageV::LoggedIn { username, session_token: f.token }),
            ]
        }),
{
}

/// The closing of an old connection does not take a user offline who has
/// since logged in on another connection.
pub proof fn law_old_connection_closing_keeps_new_login(
    online: Map<Seq<char>, ConnId>,
    user: Seq<char>,
    old_conn: ConnId,
    new_conn: ConnId,
)
    requires
        old_conn != new_conn,
    ensures
        offline_if(online.insert(user, new_conn), user, old_conn) == online.insert(user, new_conn),
{
}

/// After a user's connection closes, no session that the user took part in
/// is left.
pub proof fn law_no_sessions_left_after_disconnect(sessions: Map<Seq<char>, SessionV>, user: Seq<char>)
    ensures
        forall|id: Seq<char>| #[trigger] sessions_without(sessions, user).contains_key(id) ==> peer_of_spec(
            sessions_without(sessions, user)[id],
            user,
        ) is None,
{
}

/// Nobody has a session with themselves: if no recorded session has the
/// same user at both ends, none does after any message.
pub proof fn law_no_self_sessions(s: AppStateV, conn: ConnId, authed: Option<Seq<char>>, m: ClientMessageV, f: Fresh)
    requires
        forall|id: Seq<char>| #[trigger] s.sessions.contains_key(id) ==> s.sessions[id].initiator
            != s.sessions[id].target,
    ensures
        forall|id: Seq<char>|
            #[trigger] handle_spec(s, conn, authed, m, f).state.sessions.contains_key(id) ==> handle_spec(
                s,
                conn,
                authed,
                m,
                f,
            ).state.sessions[id].initiator != handle_spec(s, conn, authed, m, f).state.sessions[id].target,
{
}

/// A hang-up by a party of a session removes it and tells the other party
/// (when online) under the same session id.
pub proof fn law_hangup_tells_the_other_party(
    s: AppStateV,
    conn: ConnId,
    me: Seq<char>,
    session: Seq<char>,
    f: Fresh,
)
    requires
        s.sessions.contains_key(session),
        peer_of_spec(s.sessions[session], me) is Some,
    ensures
        ({
            let r = handle_spec(s, conn, Some(me), ClientMessageV::Hangup { session }, f);
            let other = peer_of_spec(s.sessions[session], me)->Some_0;
            &&& !r.state.sessions.contains_key(session)
            &&& r.out == route(s.online, other, ServerMessageV::Hangup { session })
        }),
{
}

} // verus!
