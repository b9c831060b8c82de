//! Server configuration. The values come from the environment:
//!   AWAY_BIND, AWAY_ACCOUNTS, AWAY_TURN_SECRET, AWAY_TURN_URLS,
//!   AWAY_STUN_URLS, AWAY_TURN_TTL, AWAY_ALLOW_REGISTER.
//! Reading the environment is the caller's part; here the raw values become a
//! `Config`.

use vstd::prelude::*;

use crate::text::{comma_list, split_comma_list, spec_parse_u64, parse_u64, str_eq, string_views};

verus! {

/// Server settings.
pub struct Config {
    /// Address to listen on (localhost behind nginx).
    pub bind: String,
    /// Account store file (argon2 hashes).
    pub accounts_path: String,
    /// Secret shared with coturn; without it TURN is off and only STUN is offered.
    pub turn_secret: Option<String>,
    /// TURN URLs.
    pub turn_urls: Vec<String>,
    /// STUN URLs.
    pub stun_urls: Vec<String>,
    /// Lifetime of generated TURN credentials, in seconds.
    pub turn_ttl: u64,
    /// Allow open registration over the WebSocket (off by default).
    pub allow_register: bool,
}

/// A configuration as plain values.
pub struct ConfigV {
    pub bind: Seq<char>,
    pub accounts_path: Seq<char>,
    pub turn_secret: Option<Seq<char>>,
    pub turn_urls: Seq<Seq<char>>,
    pub stun_urls: Seq<Seq<char>>,
    pub turn_ttl: u64,
    pub allow_register: bool,
}

impl View for Config {
    type V = ConfigV;

    open spec fn view(&self) -> ConfigV {
        ConfigV {
            bind: self.bind@,
            accounts_path: self.accounts_path@,
            turn_secret: crate::protocol::opt_view(self.turn_secret),
            turn_urls: string_views(self.turn_urls@),
            stun_urls: string_views(self.stun_urls@),
            turn_ttl: self.turn_ttl,
            allow_register: self.allow_register,
        }
    }
}

/// A list variable: absent means empty; otherwise comma-separated, trimmed,
/// empty items dropped.
pub open spec fn list_var(v: Option<Seq<char>>) -> Seq<Seq<char>> {
    match v {
        Some(s) => comma_list(s),
        None => seq![],
    }
}

/// The configuration that the given environment values describe.
pub open spec fn config_from_vars(
    bind: Option<Seq<char>>,
    accounts: Option<Seq<char>>,
    turn_secret: Option<Seq<char>>,
    turn_urls: Option<Seq<char>>,
    stun_urls: Option<Seq<char>>,
    turn_ttl: Option<Seq<char>>,
    allow_register: Option<Seq<char>>,
) -> ConfigV {
    ConfigV {
        bind: match bind {
            Some(b) => b,
            None => "127.0.0.1:9000"@,
        },
        accounts_path: match accounts {
            Some(a) => a,
            None => "accounts.json"@,
        },
        turn_secret: match turn_secret {
            Some(s) => if s.len() > 0 {
                Some(s)
            } else {
                None
            },
            None => None,
        },
        turn_urls: list_var(turn_urls),
        stun_urls: if list_var(stun_urls).len() == 0 {
            seq!["stun:stun.l.google.com:19302"@]
        } else {
            list_var(stun_urls)
        },
        turn_ttl: match turn_ttl {
            Some(t) => match spec_parse_u64(t) {
                Some(n) => n,
                None => 600,
            },
            None => 600,
        },
        allow_register: match allow_register {
            Some(a) => a == "1"@ || a == "true"@ || a == "yes"@,
            None => false,
        },
    }
}

fn list_from_var(v: &Option<String>) -> (r: Vec<String>)
    ensures
        string_views(r@) == list_var(crate::protocol::opt_view(*v)),
{
    match v {
        Some(s) => split_comma_list(s.as_str()),
        None => {
            let r: Vec<String> = Vec::new();
            assert(string_views(r@) =~= seq![]);
            r
        },
    }
}

impl Config {
    /// Builds the configuration from the raw environment values (`None` where
    /// a variable is unset or not valid Unicode).
    pub fn from_vars(
        bind: Option<String>,
        accounts: Option<String>,
        turn_secret: Option<String>,
        turn_urls: Option<String>,
        stun_urls: Option<String>,
        turn_ttl: Option<String>,
        allow_register: Option<String>,
    ) -> (c: Config)
        ensures
            c@ == config_from_vars(
                crate::protocol::opt_view(bind),
                crate::protocol::opt_view(accounts),
                crate::protocol::opt_view(turn_secret),
                crate::protocol::opt_view(turn_urls),
                crate::protocol::opt_view(stun_urls),
                crate::protocol::opt_view(turn_ttl),
                crate::protocol::opt_view(allow_register),
            ),
    {
        let bind = match bind {
            Some(b) => b,
            None => String::from_str("127.0.0.1:9000"),
        };
        let accounts_path = match accounts {
            Some(a) => a,
            None => String::from_str("accounts.json"),
        };
        let turn_secret = match turn_secret {
            Some(s) => if s.as_str().unicode_len() > 0 {
                Some(s)
            } else {
                None
            },
            None => None,
        };
        let mut stun = list_from_var(&stun_urls);
        if stun.len() == 0 {
            stun.push(String::from_str("stun:stun.l.google.com:19302"));
            assert(string_views(stun@) =~= seq!["stun:stun.l.google.com:19302"@]);
        }
        let turn = list_from_var(&turn_urls);
        let ttl = match &turn_ttl {
            Some(t) => match parse_u64(t.as_str()) {
                Some(n) => n,
                None => 600,
            },
            None => 600,
        };
        let allow = match &allow_register {
            Some(a) => str_eq(a.as_str(), "1") || str_eq(a.as_str(), "true") || str_eq(
                a.as_str(),
                "yes",
            ),
            None => false,
        };
        Config {
            bind,
            accounts_path,
            turn_secret,
            turn_urls: turn,
            stun_urls: stun,
            turn_ttl: ttl,
            allow_register: allow,
        }
    }
}

} // verus!
