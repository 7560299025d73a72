//! Saved accounts as the configuration screen edits them: each names a host
//! and how to authenticate, by a password kept in the keychain or by a key.
use vstd::prelude::*;
use vstd::string::StringExecFns;
use crate::text::{push_char, trim, trimmed};

verus! {

/// How an account authenticates.
#[derive(Debug, Clone, Copy, PartialEq, Eq, Structural)]
pub enum AuthType {
    /// A password stored in the keychain.
    Password,
    /// An SSH key (a given private key file, or the user's default keys).
    SshKey,
}

/// One saved account.
#[derive(Debug, Clone)]
pub struct ServerConfig {
    pub name: String,
    pub host: String,
    pub port: u16,
    pub username: String,
    pub auth_type: AuthType,
    pub keychain_service: Option<String>,
    pub keychain_account: Option<String>,
    pub private_key: Option<String>,
}

/// The saved accounts.
#[derive(Debug, Clone)]
pub struct Config {
    pub servers: Vec<ServerConfig>,
}

/// The model of a [`ServerConfig`]: strings become character sequences.
pub struct ServerConfigModel {
    pub name: Seq<char>,
    pub host: Seq<char>,
    pub port: u16,
    pub username: Seq<char>,
    pub auth_type: AuthType,
    pub keychain_service: Option<Seq<char>>,
    pub keychain_account: Option<Seq<char>>,
    pub private_key: Option<Seq<char>>,
}

pub open spec fn opt_view(o: Option<String>) -> Option<Seq<char>> {
    match o {
        Some(s) => Some(s@),
        None => None,
    }
}

impl View for ServerConfig {
    type V = ServerConfigModel;

    open spec fn view(&self) -> ServerConfigModel {
        ServerConfigModel {
            name: self.name@,
            host: self.host@,
            port: self.port,
            username: self.username@,
            auth_type: self.auth_type,
            keychain_service: opt_view(self.keychain_service),
            keychain_account: opt_view(self.keychain_account),
            private_key: opt_view(self.private_key),
        }
    }
}

/// The keychain service an account's password is stored under: the one it
/// names, or `AshLogin`.
pub open spec fn keychain_service_of(s: ServerConfigModel) -> Seq<char> {
    match s.keychain_service {
        Some(v) => v,
        None => "AshLogin"@,
    }
}

/// `username@name` from the trimmed fields, or nothing if either is blank.
pub open spec fn default_account(username: Seq<char>, name: Seq<char>) -> Seq<char> {
    if trim(username).len() == 0 || trim(name).len() == 0 {
        Seq::empty()
    } else {
        trim(username) + seq!['@'] + trim(name)
    }
}

/// The keychain account an account's password is stored under: the one it
/// names, or `username@name`.
pub open spec fn keychain_account_of(s: ServerConfigModel) -> Seq<char> {
    match s.keychain_account {
        Some(v) => v,
        None => default_account(s.username, s.name),
    }
}

/// `username@name` from the trimmed strings, or an empty string if either is blank.
pub fn default_account_exec(username: &str, name: &str) -> (r: String)
    ensures
        r@ == default_account(username@, name@),
{
    let u = trimmed(username);
    let n = trimmed(name);
    if u.as_str().is_empty() || n.as_str().is_empty() {
        String::new()
    } else {
        let mut out = u;
        push_char(&mut out, '@');
        out.append(n.as_str());
        out
    }
}

impl ServerConfig {
    /// The keychain service the password is stored under.
    pub fn keychain_service(&self) -> (r: String)
        ensures
            r@ == keychain_service_of(self@),
    {
        match &self.keychain_service {
            Some(v) => v.clone(),
            None => String::from_str("AshLogin"),
        }
    }

    /// The keychain account the password is stored under.
    pub fn keychain_account(&self) -> (r: String)
        ensures
            r@ == keychain_account_of(self@),
    {
        match &self.keychain_account {
            Some(v) => v.clone(),
            None => default_account_exec(self.username.as_str(), self.name.as_str()),
        }
    }
}

} // verus!
