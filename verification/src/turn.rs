//! Short-lived TURN credentials (coturn `use-auth-secret` / REST API). With
//! the secret shared with coturn:
//!   username   = "<expiry_unix>:<user>"
//!   credential = base64( HMAC-SHA1( secret, username ) )
//! so the server hands out temporary credentials without storing TURN users.

use vstd::prelude::*;
use vstd::utf8::encode_utf8;

use base64::Engine;
use hmac::{Hmac, Mac};
use sha1::Sha1;

use crate::config::{Config, ConfigV};
use crate::protocol::{IceServer, IceServerV, ice_views};
use crate::text::{decimal, string_views, u64_to_decimal};

verus! {

/// The HMAC-SHA1 tag of `message` under `key` (RFC 2104 with SHA-1).
pub uninterp spec fn hmac_sha1(key: Seq<u8>, message: Seq<u8>) -> Seq<u8>;

/// `hmac::Hmac::<sha1::Sha1>`: keyed with `key` (`Mac::new_from_slice`, which
/// takes a key of any length), fed `message`, finalized. Claims: the tag is
/// `hmac_sha1(key, message)`, and it is 20 bytes long (SHA-1's output size).
#[verifier::external_body]
fn hmac_sha1_tag(key: &[u8], message: &[u8]) -> (tag: Vec<u8>)
    ensures
        tag@ == hmac_sha1(key@, message@),
        tag@.len() == 20,
{
    let mut mac = <Hmac<Sha1> as Mac>::new_from_slice(key).expect("HMAC takes a key of any size");
    mac.update(message);
    mac.finalize().into_bytes().to_vec()
}

/// The character of a base64 sextet in the standard alphabet.
pub open spec fn base64_char(i: int) -> char {
    if i < 26 {
        (65 + i) as char
    } else if i < 52 {
        (71 + i) as char
    } else if i < 62 {
        (i - 4) as char
    } else if i == 62 {
        '+'
    } else {
        '/'
    }
}

/// Standard base64 (RFC 4648 alphabet, `=` padding).
pub open spec fn base64_standard(b: Seq<u8>) -> Seq<char>
    decreases b.len(),
{
    let b0 = if b.len() > 0 { b[0] as int } else { 0 };
    let b1 = if b.len() > 1 { b[1] as int } else { 0 };
    let b2 = if b.len() > 2 { b[2] as int } else { 0 };
    if b.len() == 0 {
        seq![]
    } else if b.len() == 1 {
        seq![base64_char(b0 / 4), base64_char((b0 % 4) * 16), '=', '=']
    } else if b.len() == 2 {
        seq![
            base64_char(b0 / 4),
            base64_char((b0 % 4) * 16 + b1 / 16),
            base64_char((b1 % 16) * 4),
            '=',
        ]
    } else {
        seq![
            base64_char(b0 / 4),
            base64_char((b0 % 4) * 16 + b1 / 16),
            base64_char((b1 % 16) * 4 + b2 / 64),
            base64_char(b2 % 64),
        ] + base64_standard(b.subrange(3, b.len() as int))
    }
}

/// `base64::engine::general_purpose::STANDARD.encode`: claims the result is the
/// standard padded base64 of the input. The input is bounded so that the
/// encoded length cannot overflow (the crate panics on that overflow).
#[verifier::external_body]
fn base64_encode(bytes: &[u8]) -> (s: String)
    requires
        bytes@.len() <= 0x3fff_ffff,
    ensures
        s@ == base64_standard(bytes@),
{
    base64::engine::general_purpose::STANDARD.encode(bytes)
}

/// The credential for a TURN username: base64 of its HMAC-SHA1 under the secret.
pub open spec fn turn_credential(secret: Seq<char>, username: Seq<char>) -> Seq<char> {
    base64_standard(hmac_sha1(encode_utf8(secret), encode_utf8(username)))
}

/// Padded base64 writes four characters for every three bytes begun.
pub proof fn lemma_base64_length(b: Seq<u8>)
    ensures
        base64_standard(b).len() == 4 * ((b.len() + 2) / 3),
    decreases b.len(),
{
    if b.len() > 2 {
        lemma_base64_length(b.subrange(3, b.len() as int));
    }
}

/// `base64(hmac_sha1(secret, message))` over the UTF-8 bytes of both; the
/// 20-byte tag always gives 28 characters.
pub fn sign(secret: &str, message: &str) -> (r: String)
    ensures
        r@ == turn_credential(secret@, message@),
        r@.len() == 28,
{
    let tag = hmac_sha1_tag(secret.as_bytes(), message.as_bytes());
    proof {
        lemma_base64_length(tag@);
    }
    base64_encode(tag.as_slice())
}

/// Seconds since the Unix epoch from the system clock (`SystemTime::now`
/// and `duration_since(UNIX_EPOCH)`), or `None` if the clock is before the
/// epoch. Nothing is claimed of the value: it is the time.
#[verifier::external_body]
fn secs_since_unix_epoch() -> (r: Option<u64>) {
    std::time::SystemTime::now().duration_since(std::time::UNIX_EPOCH).ok().map(|d| d.as_secs())
}

/// The current Unix time in seconds; 0 if the clock is before the epoch.
pub fn now_unix() -> u64 {
    match secs_since_unix_epoch() {
        Some(s) => s,
        None => 0,
    }
}

/// The TURN username that expires at `expiry`: `"<expiry>:<user>"`.
pub open spec fn turn_username(expiry: u64, user: Seq<char>) -> Seq<char> {
    decimal(expiry as nat) + ":"@ + user
}

/// The ICE servers offered to `user` at Unix time `now`: a STUN entry when
/// STUN URLs are configured, then a TURN entry with fresh credentials when a
/// secret and TURN URLs are configured. The expiry is `now + turn_ttl`,
/// wrapping as unsigned 64-bit arithmetic does.
pub open spec fn ice_servers_spec(cfg: ConfigV, user: Seq<char>, now: u64) -> Seq<IceServerV> {
    let stun: Seq<IceServerV> = if cfg.stun_urls.len() > 0 {
        seq![IceServerV { urls: cfg.stun_urls, username: None, credential: None }]
    } else {
        seq![]
    };
    match cfg.turn_secret {
        Some(secret) => if cfg.turn_urls.len() > 0 {
            let username = turn_username(
                vstd::wrapping::u64_specs::wrapping_add(now, cfg.turn_ttl),
                user,
            );
            stun.push(
                IceServerV {
                    urls: cfg.turn_urls,
                    username: Some(username),
                    credential: Some(turn_credential(secret, username)),
                },
            )
        } else {
            stun
        },
        None => stun,
    }
}

/// A copy of a list of strings.
pub fn clone_strings(v: &Vec<String>) -> (r: Vec<String>)
    ensures
        string_views(r@) == string_views(v@),
{
    let mut r: Vec<String> = Vec::new();
    let mut i: usize = 0;
    while i < v.len()
        invariant
            i <= v@.len(),
            r@.len() == i,
            string_views(r@) == string_views(v@.subrange(0, i as int)),
        decreases v@.len() - i,
    {
        let c = v[i].clone();
        assert(c == v@[i as int]);
        let ghost old_r = r@;
        r.push(c);
        proof {
            assert forall|j: int| 0 <= j < i + 1 implies #[trigger] string_views(r@)[j]
                == string_views(v@.subrange(0, i + 1))[j] by {
                assert(string_views(r@)[j] == r@[j]@);
                assert(string_views(v@.subrange(0, i + 1))[j] == v@[j]@);
                if j < i {
                    assert(r@[j] == old_r[j]);
                    assert(string_views(old_r)[j] == old_r[j]@);
                    assert(string_views(v@.subrange(0, i as int))[j] == v@[j]@);
                    assert(string_views(old_r)[j] == string_views(v@.subrange(0, i as int))[j]);
                } else {
                    assert(r@[j] == c);
                }
            }
            assert(string_views(r@) =~= string_views(v@.subrange(0, i + 1)));
        }
        i = i + 1;
    }
    assert(v@.subrange(0, v@.len() as int) =~= v@);
    r
}

/// The ICE servers for `user` at Unix time `now` (see `ice_servers_spec`).
pub fn ice_servers_at(cfg: &Config, user: &str, now: u64) -> (r: Vec<IceServer>)
    ensures
        ice_views(r@) == ice_servers_spec(cfg@, user@, now),
{
    let mut servers: Vec<IceServer> = Vec::new();
    if cfg.stun_urls.len() > 0 {
        servers.push(
            IceServer { urls: clone_strings(&cfg.stun_urls), username: None, credential: None },
        );
    }
    assert(ice_views(servers@) =~= (if cfg@.stun_urls.len() > 0 {
        seq![IceServerV { urls: cfg@.stun_urls, username: None, credential: None }]
    } else {
        seq![]
    }));
    match &cfg.turn_secret {
        Some(secret) => {
            if cfg.turn_urls.len() > 0 {
                let expiry = now.wrapping_add(cfg.turn_ttl);
                let mut username = u64_to_decimal(expiry);
                username.append(":");
                username.append(user);
                let credential = sign(secret.as_str(), username.as_str());
                let ghost username_view = username@;
                servers.push(
                    IceServer {
                        urls: clone_strings(&cfg.turn_urls),
                        username: Some(username),
                        credential: Some(credential),
                    },
                );
                assert(username_view == turn_username(expiry, user@));
            }
        },
        None => {},
    }
    assert(ice_views(servers@) =~= ice_servers_spec(cfg@, user@, now));
    servers
}

/// The ICE servers for `user` now: a STUN entry, plus a TURN entry with
/// credentials when TURN is configured. Reads the clock, so what it returns
/// is `ice_servers_spec` at some time.
pub fn ice_servers_for(cfg: &Config, user: &str) -> (r: Vec<IceServer>)
    ensures
        exists|now: u64| ice_views(r@) == ice_servers_spec(cfg@, user@, now),
{
    let now = now_unix();
    ice_servers_at(cfg, user, now)
}


/// Without a TURN secret no entry carries credentials, and at most the STUN
/// entry is offered.
pub proof fn law_no_secret_no_credentials(cfg: ConfigV, user: Seq<char>, now: u64)
    requires
        cfg.turn_secret is None,
    ensures
        ice_servers_spec(cfg, user, now).len() <= 1,
        forall|i: int|
            0 <= i < ice_servers_spec(cfg, user, now).len() ==> (#[trigger] ice_servers_spec(cfg, user, now)[i]).username
                is None && ice_servers_spec(cfg, user, now)[i].credential is None,
{
}

/// With a secret and TURN URLs, the last entry is the TURN entry: its
/// username is `"<now + ttl>:<user>"` (so it ends with `":<user>"`) and its
/// credential is base64 of the HMAC-SHA1 of that username under the secret.
pub proof fn law_turn_entry_for_the_user(cfg: ConfigV, user: Seq<char>, now: u64)
    requires
        cfg.turn_secret is Some,
        cfg.turn_urls.len() > 0,
    ensures
        ({
            let s = ice_servers_spec(cfg, user, now);
            let t = s.last();
            let expiry = vstd::wrapping::u64_specs::wrapping_add(now, cfg.turn_ttl);
            &&& s.len() == (if cfg.stun_urls.len() > 0 {
                2int
            } else {
                1int
            })
            &&& t.urls == cfg.turn_urls
            &&& t.username == Some(decimal(expiry as nat) + ":"@ + user)
            &&& t.username->0.subrange(t.username->0.len() - user.len() - 1, t.username->0.len() as int) == ":"@
                + user
            &&& t.credential == Some(turn_credential(cfg.turn_secret->0, t.username->0))
        }),
{
    let expiry = vstd::wrapping::u64_specs::wrapping_add(now, cfg.turn_ttl);
    let u = decimal(expiry as nat) + ":"@ + user;
    reveal_strlit(":");
    assert(u.subrange(u.len() - user.len() - 1, u.len() as int) =~= ":"@ + user);
}

} // verus!
