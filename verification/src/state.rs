//! The server's runtime state: who is online on which connection, and the
//! sessions between users. A connection is named by an id; the caller keeps
//! the channel behind each id and delivers the messages routed here.

use vstd::prelude::*;

use rand::Rng;

use crate::config::{Config, ConfigV};
use crate::protocol::{IceServer, ServerMessage, ServerMessageV, ice_views};
use crate::turn::ice_servers_spec;
use crate::strmap::StrMap;
use crate::text::{hex_encode, hex_lower, is_lower_hex_digit, str_eq};
use crate::users::{FileUserStore, UserError, UserStore, argon2_accepts, blank, phc_parses, verify_outcome};

verus! {

/// A session between two users, being set up or established.
#[derive(Debug)]
pub struct Session {
    pub initiator: String,
    pub target: String,
    pub accepted: bool,
}

/// A session as plain values.
pub struct SessionV {
    pub initiator: Seq<char>,
    pub target: Seq<char>,
    pub accepted: bool,
}

impl View for Session {
    type V = SessionV;

    open spec fn view(&self) -> SessionV {
        SessionV { initiator: self.initiator@, target: self.target@, accepted: self.accepted }
    }
}

/// The other party of `s` for `user`, when `user` takes part in it.
pub open spec fn peer_of_spec(s: SessionV, user: Seq<char>) -> Option<Seq<char>> {
    if user == s.initiator {
        Some(s.target)
    } else if user == s.target {
        Some(s.initiator)
    } else {
        None
    }
}

impl Session {
    /// If `user` is a party of this session, the other party.
    pub fn peer_of(&self, user: &str) -> (r: Option<&str>)
        ensures
            match r {
                Some(p) => peer_of_spec(self@, user@) == Some(p@),
                None => peer_of_spec(self@, user@) is None,
            },
    {
        if str_eq(user, self.initiator.as_str()) {
            Some(self.target.as_str())
        } else if str_eq(user, self.target.as_str()) {
            Some(self.initiator.as_str())
        } else {
            None
        }
    }

    /// A copy of this session.
    pub fn duplicate(&self) -> (r: Session)
        ensures
            r@ == self@,
    {
        Session {
            initiator: self.initiator.clone(),
            target: self.target.clone(),
            accepted: self.accepted,
        }
    }
}

/// Connection ids; each client connection has one.
pub type ConnId = u64;

/// A requested connection whose request did not reach the target: the
/// requester's connection, the session and the target.
#[derive(Debug)]
pub struct Undelivered {
    pub requester: ConnId,
    pub session: String,
    pub to: String,
}

/// A message to deliver on a connection. `if_undelivered` is set on a
/// connection request: when the target's channel is closed, pass it to
/// `AppState::connect_undelivered`.
#[derive(Debug)]
pub struct Outgoing {
    pub conn: ConnId,
    pub msg: ServerMessage,
    pub if_undelivered: Option<Undelivered>,
}

/// An undelivered-request note as plain values.
pub struct UndeliveredV {
    pub requester: ConnId,
    pub session: Seq<char>,
    pub to: Seq<char>,
}

/// An outgoing message as plain values.
pub struct OutgoingV {
    pub conn: ConnId,
    pub msg: ServerMessageV,
    pub if_undelivered: Option<UndeliveredV>,
}

impl View for Outgoing {
    type V = OutgoingV;

    open spec fn view(&self) -> OutgoingV {
        OutgoingV {
            conn: self.conn,
            msg: self.msg@,
            if_undelivered: match self.if_undelivered {
                Some(u) => Some(UndeliveredV { requester: u.requester, session: u.session@, to: u.to@ }),
                None => None,
            },
        }
    }
}

/// The views of a list of outgoing messages.
pub open spec fn out_views(v: Seq<Outgoing>) -> Seq<OutgoingV> {
    v.map_values(|o: Outgoing| o@)
}

/// A message for connection `conn`.
pub open spec fn to_conn(conn: ConnId, msg: ServerMessageV) -> OutgoingV {
    OutgoingV { conn, msg, if_undelivered: None }
}

/// What `send_to(user, msg)` routes in `online`: the message on the user's
/// connection, or nothing when the user is offline.
pub open spec fn route(online: Map<Seq<char>, ConnId>, user: Seq<char>, msg: ServerMessageV) -> Seq<
    OutgoingV,
> {
    if online.contains_key(user) {
        seq![to_conn(online[user], msg)]
    } else {
        seq![]
    }
}

/// `sessions` without those that `user` takes part in.
pub open spec fn sessions_without(sessions: Map<Seq<char>, SessionV>, user: Seq<char>) -> Map<
    Seq<char>,
    SessionV,
> {
    Map::new(
        |id: Seq<char>| sessions.contains_key(id) && peer_of_spec(sessions[id], user) is None,
        |id: Seq<char>| sessions[id],
    )
}

/// The server state.
pub struct AppState {
    pub cfg: Config,
    pub users: FileUserStore,
    online: StrMap<ConnId>,
    sessions: StrMap<Session>,
}

/// The server state as plain values.
pub struct AppStateV {
    pub cfg: ConfigV,
    pub accounts: Map<Seq<char>, Seq<char>>,
    pub accounts_path: Seq<char>,
    pub online: Map<Seq<char>, ConnId>,
    pub sessions: Map<Seq<char>, SessionV>,
}

impl View for AppState {
    type V = AppStateV;

    closed spec fn view(&self) -> AppStateV {
        AppStateV {
            cfg: self.cfg@,
            accounts: self.users.accounts(),
            accounts_path: self.users.path(),
            online: self.online.map(),
            sessions: self.sessions.map(),
        }
    }
}

/// Sixteen random bytes from the thread-local generator (`rand::thread_rng`,
/// `Rng::gen`). Nothing is claimed of them: they are random.
#[verifier::external_body]
fn random_bytes16() -> (b: [u8; 16]) {
    let mut rng = rand::thread_rng();
    rng.gen()
}

/// A session id or login token: 32 lowercase hexadecimal digits.
pub open spec fn is_session_id(id: Seq<char>) -> bool {
    id.len() == 32 && forall|i: int| 0 <= i < id.len() ==> is_lower_hex_digit(#[trigger] id[i])
}

impl AppState {
    /// A fresh state: nobody online, no sessions.
    pub fn new(cfg: Config, users: FileUserStore) -> (s: AppState)
        ensures
            s@.cfg == cfg@,
            s@.accounts == users.accounts(),
            s@.accounts_path == users.path(),
            s@.online == Map::<Seq<char>, ConnId>::empty(),
            s@.sessions == Map::<Seq<char>, SessionV>::empty(),
    {
        AppState { cfg, users, online: StrMap::new(), sessions: StrMap::new() }
    }

    /// Whether open registration is allowed.
    pub fn allow_register(&self) -> (r: bool)
        ensures
            r == self@.cfg.allow_register,
    {
        self.cfg.allow_register
    }

    /// The ICE servers to offer `user` now (see `turn::ice_servers_for`).
    pub fn ice_servers_for(&self, user: &str) -> (r: Vec<IceServer>)
        ensures
            exists|now: u64| ice_views(r@) == ice_servers_spec(self@.cfg, user@, now),
    {
        crate::turn::ice_servers_for(&self.cfg, user)
    }

    /// Creates an account in the store (see `UserStore::register`).
    pub fn register_user(&mut self, username: &str, password: &str) -> (r: Result<(), UserError>)
        ensures
            final(self)@.cfg == old(self)@.cfg,
            final(self)@.accounts_path == old(self)@.accounts_path,
            final(self)@.online == old(self)@.online,
            final(self)@.sessions == old(self)@.sessions,
            r matches Err(UserError::EmptyCredentials) <==> (blank(username@) || password@.len()
                == 0),
            r matches Err(UserError::EmptyCredentials) ==> final(self)@.accounts == old(self)@.accounts,
            r matches Err(UserError::UsernameTaken) ==> old(self)@.accounts.contains_key(username@)
                && final(self)@.accounts == old(self)@.accounts && exists|h: Seq<char>|
                phc_parses(h) && argon2_accepts(password@, h),
            r matches Err(UserError::Hash(_)) ==> final(self)@.accounts == old(self)@.accounts,
            r is Err ==> (r matches Err(UserError::EmptyCredentials)) || (r matches Err(
                UserError::UsernameTaken,
            )) || (r matches Err(UserError::Hash(_))),
            r is Ok ==> !old(self)@.accounts.contains_key(username@) && exists|h: Seq<char>|
                phc_parses(h) && argon2_accepts(password@, h) && final(self)@.accounts == old(
                    self,
                )@.accounts.insert(username@, h),
    {
        self.users.register(username, password)
    }

    /// Checks a username and password against the store (see `UserStore::verify`).
    pub fn verify_user(&self, username: &str, password: &str) -> (r: Result<bool, UserError>)
        ensures
            match r {
                Ok(b) => verify_outcome(self@.accounts, username@, password@) == Some(b),
                Err(e) => verify_outcome(self@.accounts, username@, password@) is None,
            },
    {
        self.users.verify(username, password)
    }

    /// Marks `user` online on connection `conn`. A user online elsewhere is
    /// moved to this connection; the previous connection is returned so that
    /// the caller can tell it.
    pub fn set_online(&mut self, user: &str, conn: ConnId) -> (r: Option<ConnId>)
        ensures
            final(self)@ == (AppStateV { online: old(self)@.online.insert(user@, conn), ..old(self)@ }),
            r == (if old(self)@.online.contains_key(user@) {
                Some(old(self)@.online[user@])
            } else {
                None
            }),
    {
        self.online.insert(String::from_str(user), conn)
    }

    /// Marks `user` offline, but only if the connection on record is `conn`
    /// (a newer login of the same user must not be dropped by the old one's
    /// closing).
    pub fn set_offline_if(&mut self, user: &str, conn: ConnId)
        ensures
            final(self)@ == (AppStateV {
                online: if old(self)@.online.contains_key(user@) && old(self)@.online[user@] == conn {
                    old(self)@.online.remove(user@)
                } else {
                    old(self)@.online
                },
                ..old(self)@
            }),
    {
        let current = match self.online.get(user) {
            Some(c) => Some(*c),
            None => None,
        };
        if current == Some(conn) {
            self.online.remove(user);
        }
    }

    /// Whether `user` is online.
    pub fn is_online(&self, user: &str) -> (r: bool)
        ensures
            r == self@.online.contains_key(user@),
    {
        self.online.contains_key(user)
    }

    /// Routes `msg` to `user`'s connection; `None` when `user` is offline.
    pub fn send_to(&self, user: &str, msg: ServerMessage) -> (r: Option<Outgoing>)
        ensures
            match r {
                Some(o) => seq![o@] == route(self@.online, user@, msg@),
                None => route(self@.online, user@, msg@) == Seq::<OutgoingV>::empty(),
            },
    {
        match self.online.get(user) {
            Some(c) => Some(Outgoing { conn: *c, msg, if_undelivered: None }),
            None => None,
        }
    }

    /// A fresh random session id (also used as a login token): 16 random
    /// bytes in lowercase hexadecimal.
    pub fn new_session_id() -> (id: String)
        ensures
            is_session_id(id@),
            exists|b: Seq<u8>| b.len() == 16 && id@ == hex_lower(b),
    {
        let bytes = random_bytes16();
        hex_encode(&bytes)
    }

    /// Records session `id`.
    pub fn insert_session(&mut self, id: String, session: Session)
        ensures
            final(self)@ == (AppStateV { sessions: old(self)@.sessions.insert(id@, session@), ..old(self)@ }),
    {
        self.sessions.insert(id, session);
    }

    /// A copy of session `id`, if it exists.
    pub fn get_session(&self, id: &str) -> (r: Option<Session>)
        ensures
            match r {
                Some(s) => self@.sessions.contains_key(id@) && s@ == self@.sessions[id@],
                None => !self@.sessions.contains_key(id@),
            },
    {
        match self.sessions.get(id) {
            Some(s) => Some(s.duplicate()),
            None => None,
        }
    }

    /// Marks session `id` accepted and returns a copy of it.
    pub fn accept_session(&mut self, id: &str) -> (r: Option<Session>)
        ensures
            match r {
                Some(s) => old(self)@.sessions.contains_key(id@) && s@ == (SessionV {
                    accepted: true,
                    ..old(self)@.sessions[id@]
                }) && final(self)@ == (AppStateV {
                    sessions: old(self)@.sessions.insert(id@, s@),
                    ..old(self)@
                }),
                None => !old(self)@.sessions.contains_key(id@) && final(self)@ == old(self)@,
            },
    {
        match self.sessions.get(id) {
            Some(s) => {
                let updated = Session {
                    initiator: s.initiator.clone(),
                    target: s.target.clone(),
                    accepted: true,
                };
                let copy = updated.duplicate();
                self.sessions.insert(String::from_str(id), updated);
                Some(copy)
            },
            None => None,
        }
    }

    /// Removes every session that `user` takes part in; returns each removed
    /// session's id with the other party (to tell them that it ended). The
    /// pairs come in the order the sessions were recorded.
    pub fn drop_sessions_of(&mut self, user: &str) -> (r: Vec<(String, String)>)
        ensures
            final(self)@ == (AppStateV {
                sessions: sessions_without(old(self)@.sessions, user@),
                ..old(self)@
            }),
            forall|i: int|
                0 <= i < r@.len() ==> old(self)@.sessions.contains_key(#[trigger] r@[i].0@)
                    && peer_of_spec(old(self)@.sessions[r@[i].0@], user@) == Some(r@[i].1@),
            forall|i: int, j: int| 0 <= i < j < r@.len() ==> #[trigger] r@[i].0@ != #[trigger] r@[j].0@,
            forall|id: Seq<char>|
                #![trigger old(self)@.sessions[id]]
                old(self)@.sessions.contains_key(id) && peer_of_spec(old(self)@.sessions[id], user@) is Some
                    ==> exists|i: int| 0 <= i < r@.len() && r@[i].0@ == id,
    {
        let ghost old_self = self@;
        proof {
            use_type_invariant(&self.sessions);
        }
        let ghost sm = self.sessions;
        proof {
            sm.lemma_view();
        }
        let mut affected: Vec<(String, String)> = Vec::new();
        let ghost mut idx: Seq<int> = seq![];
        let n = self.sessions.len();
        let mut i: usize = 0;
        while i < n
            invariant
                n == sm.size(),
                i <= n,
                self@ == old_self,
                self.sessions == sm,
                idx.len() == affected@.len(),
                forall|k: int| 0 <= k < idx.len() ==> 0 <= #[trigger] idx[k] < i,
                forall|k: int, l: int| 0 <= k < l < idx.len() ==> #[trigger] idx[k] < #[trigger] idx[l],
                forall|k: int|
                    0 <= k < idx.len() ==> #[trigger] affected@[k].0@ == sm.keys()[idx[k]]
                        && peer_of_spec(sm.vals()[idx[k]], user@) == Some(affected@[k].1@),
                forall|j: int|
                    0 <= j < i && #[trigger] peer_of_spec(sm.vals()[j], user@) is Some
                        ==> exists|k: int| 0 <= k < idx.len() && idx[k] == j,
            decreases n - i,
        {
            let ghost old_idx = idx;
            let s = self.sessions.value_at(i);
            match s.peer_of(user) {
                Some(p) => {
                    let id = self.sessions.key_at(i).clone();
                    affected.push((id, String::from_str(p)));
                    proof {
                        idx = idx.push(i as int);
                    }
                },
                None => {},
            }
            proof {
                assert forall|j: int|
                    0 <= j < i + 1 && #[trigger] peer_of_spec(sm.vals()[j], user@) is Some
                        implies exists|k: int| 0 <= k < idx.len() && idx[k] == j by {
                    if j == i {
                        assert(idx[idx.len() - 1] == i);
                    } else {
                        let k = choose|k: int| 0 <= k < old_idx.len() && old_idx[k] == j;
                        assert(idx[k] == j);
                    }
                }
            }
            i = i + 1;
        }
        proof {
            assert forall|k: int, l: int| 0 <= k < l < affected@.len() implies #[trigger] affected@[k].0@
                != #[trigger] affected@[l].0@ by {
                assert(idx[k] < idx[l]);
            }
            assert(Set::new(|id: Seq<char>| exists|k: int| 0 <= k < 0 && affected@[k].0@ == id) =~= Set::<Seq<char>>::empty());
            assert(old_self.sessions.remove_keys(Set::<Seq<char>>::empty()) =~= old_self.sessions);
        }
        let m = affected.len();
        let mut j: usize = 0;
        while j < m
            invariant
                m == affected@.len(),
                j <= m,
                self@ == (AppStateV {
                    sessions: old_self.sessions.remove_keys(
                        Set::new(|id: Seq<char>| exists|k: int| 0 <= k < j && affected@[k].0@ == id),
                    ),
                    ..old_self
                }),
            decreases m - j,
        {
            self.sessions.remove(affected[j].0.as_str());
            proof {
                let before = Set::new(|id: Seq<char>| exists|k: int| 0 <= k < j && affected@[k].0@ == id);
                let after = Set::new(|id: Seq<char>| exists|k: int| 0 <= k < j + 1 && affected@[k].0@ == id);
                assert(after =~= before.insert(affected@[j as int].0@));
                assert(old_self.sessions.remove_keys(before).remove(affected@[j as int].0@) =~= old_self.sessions.remove_keys(after));
            }
            j = j + 1;
        }
        proof {
            assert(old_self.sessions == sm.map());
            assert forall|k: int| 0 <= k < affected@.len() implies old_self.sessions.contains_key(#[trigger] affected@[k].0@)
                && peer_of_spec(old_self.sessions[affected@[k].0@], user@) == Some(affected@[k].1@) by {
                let ix = idx[k];
                assert(sm.map().contains_key(sm.keys()[ix]));
            }
            assert forall|id: Seq<char>|
                #![trigger old_self.sessions[id]]
                old_self.sessions.contains_key(id) && peer_of_spec(old_self.sessions[id], user@) is Some
                    implies exists|k: int| 0 <= k < affected@.len() && affected@[k].0@ == id by {
                assert(sm.map().contains_key(id));
                let ix = choose|ix: int| 0 <= ix < sm.size() && sm.keys()[ix] == id;
                assert(sm.map().contains_key(sm.keys()[ix]));
                assert(peer_of_spec(sm.vals()[ix], user@) is Some);
                let k = choose|k: int| 0 <= k < idx.len() && idx[k] == ix;
                assert(affected@[k].0@ == id);
            }
            let all = Set::new(|id: Seq<char>| exists|k: int| 0 <= k < m && affected@[k].0@ == id);
            assert(old_self.sessions.remove_keys(all) =~= sessions_without(old_self.sessions, user@));
        }
        affected
    }

    /// Removes session `id`, returning it.
    pub fn remove_session(&mut self, id: &str) -> (r: Option<Session>)
        ensures
            final(self)@ == (AppStateV { sessions: old(self)@.sessions.remove(id@), ..old(self)@ }),
            match r {
                Some(s) => old(self)@.sessions.contains_key(id@) && s@ == old(self)@.sessions[id@],
                None => !old(self)@.sessions.contains_key(id@),
            },
    {
        self.sessions.remove(id)
    }
}

} // verus!
