//! The window's form decisions: what the account form, the connect box and
//! the automatic connection send to the engine.

use vstd::prelude::*;

use crate::engine::{UiCommand, UiCommandV};
use crate::text::{str_eq, trim, trimmed};
use crate::users::blank;

verus! {

/// What the account form sends: the `Register` command (with the username
/// trimmed), or the reason it is not sent, checked in this order: blank
/// username, empty password, passwords that differ.
pub open spec fn register_form_spec(server: Seq<char>, user: Seq<char>, pass: Seq<char>, pass2: Seq<char>) -> Result<UiCommandV, Seq<char>> {
    if blank(user) {
        Err("kullanıcı adı boş olamaz"@)
    } else if pass.len() == 0 {
        Err("şifre boş olamaz"@)
    } else if pass != pass2 {
        Err("şifreler eşleşmiyor"@)
    } else {
        Ok(UiCommandV::Register { server, user: trim(user), pass })
    }
}

/// Checks the account form before anything goes to the server.
pub fn register_form(server: &str, user: &str, pass: &str, pass2: &str) -> (r: Result<UiCommand, String>)
    ensures
        match (r, register_form_spec(server@, user@, pass@, pass2@)) {
            (Ok(c), Ok(cv)) => c@ == cv,
            (Err(m), Err(mv)) => m@ == mv,
            _ => false,
        },
{
    let u = trimmed(user);
    if u.as_str().unicode_len() == 0 {
        return Err(String::from_str("kullanıcı adı boş olamaz"));
    }
    if pass.unicode_len() == 0 {
        return Err(String::from_str("şifre boş olamaz"));
    }
    if !str_eq(pass, pass2) {
        return Err(String::from_str("şifreler eşleşmiyor"));
    }
    Ok(UiCommand::Register { server: server.to_string(), user: u, pass: pass.to_string() })
}

/// What the connect box sends: a connection request to the trimmed name,
/// unless it is blank.
pub fn connect_box(peer: &str) -> (r: Option<UiCommand>)
    ensures
        blank(peer@) ==> r is None,
        !blank(peer@) ==> (r matches Some(c) && c@ == (UiCommandV::Connect { to: trim(peer@) })),
{
    let t = trimmed(peer);
    if t.as_str().unicode_len() == 0 {
        None
    } else {
        Some(UiCommand::Connect { to: t })
    }
}

/// The peer to connect to automatically, once: when one was given on the
/// command line, the user is logged in and the home screen shows.
pub fn auto_connect(done: bool, peer: &Option<String>, logged_in: bool, at_home: bool) -> (r: Option<String>)
    ensures
        match peer {
            Some(p) if !done && logged_in && at_home => r matches Some(q) && q@ == p@,
            _ => r is None,
        },
{
    if done || !logged_in || !at_home {
        return None;
    }
    match peer {
        Some(p) => Some(p.clone()),
        None => None,
    }
}

} // verus!
