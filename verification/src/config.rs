//! Command-line options, the saved configuration, and how they combine into
//! SSH connection parameters.

use vstd::prelude::*;

use crate::text::{chars_of, new_string, owned, push_str, starts_with, string_from_chars};

verus! {

/// Default SSH port.
pub const DEFAULT_SSH_PORT: u16 = 22;

/// Default Docker container of Xray.
pub const DEFAULT_CONTAINER: &'static str = "amnezia-xray";

/// Command-line options (parsed by the program's argument parser).
#[derive(Debug, Clone)]
pub struct Cli {
    pub host: Option<String>,
    pub port: Option<u16>,
    pub user: Option<String>,
    pub key_path: Option<String>,
    pub list_users: bool,
    pub user_url: Option<String>,
    pub user_qr: Option<String>,
    pub online_status: bool,
    pub server_info: bool,
    pub local: bool,
    pub telegram_bot: bool,
    pub telegram_token: Option<String>,
    pub admin_id: Option<i64>,
    pub add_user: Option<String>,
    pub delete_user: Option<String>,
    pub yes: bool,
}

/// The saved configuration.
#[derive(Debug, Clone, PartialEq)]
pub struct Config {
    /// SSH host (IP or hostname).
    pub host: Option<String>,
    pub port: u16,
    pub user: String,
    /// Path of the SSH private key.
    pub key_path: Option<String>,
    /// Alias of a `Host` entry of the SSH client configuration.
    pub ssh_host: Option<String>,
    /// Docker container of Xray.
    pub container: String,
    pub telegram_token: Option<String>,
    /// Telegram chat of the bot's administrator.
    pub telegram_admin_chat_id: Option<i64>,
    /// Docker image of the bot.
    pub bot_image: String,
    pub snapshot_dir: Option<String>,
}

/// The text of an optional string.
pub open spec fn opt_view(o: Option<String>) -> Option<Seq<char>> {
    match o {
        Some(s) => Some(s@),
        None => None,
    }
}

fn opt_clone(o: &Option<String>) -> (r: Option<String>)
    ensures
        opt_view(r) == opt_view(*o),
{
    match o {
        Some(s) => Some(owned(s.as_str())),
        None => None,
    }
}

impl Config {
    /// The configuration used when none is saved: port 22, user `root`,
    /// container `amnezia-xray`, nothing else set.
    pub open spec fn is_default(&self) -> bool {
        &&& self.host is None
        &&& self.port == 22
        &&& self.user@ == "root"@
        &&& self.key_path is None
        &&& self.ssh_host is None
        &&& self.container@ == "amnezia-xray"@
        &&& self.telegram_token is None
        &&& self.telegram_admin_chat_id is None
        &&& self.bot_image@ == Seq::<char>::empty()
        &&& self.snapshot_dir is None
    }
}

impl Default for Config {
    fn default() -> (c: Self)
        ensures
            c.is_default(),
    {
        Config {
            host: None,
            port: DEFAULT_SSH_PORT,
            user: owned("root"),
            key_path: None,
            ssh_host: None,
            container: owned(DEFAULT_CONTAINER),
            telegram_token: None,
            telegram_admin_chat_id: None,
            bot_image: new_string(),
            snapshot_dir: None,
        }
    }
}

impl Config {
    /// Apply command-line options; each option given overrides the saved
    /// value, the others are kept.
    pub fn merge_cli(&mut self, cli: &Cli)
        ensures
            opt_view(final(self).host) == match cli.host {
                Some(h) => Some(h@),
                None => opt_view(old(self).host),
            },
            final(self).port == match cli.port {
                Some(p) => p,
                None => old(self).port,
            },
            final(self).user@ == match cli.user {
                Some(u) => u@,
                None => old(self).user@,
            },
            opt_view(final(self).key_path) == match cli.key_path {
                Some(k) => Some(k@),
                None => opt_view(old(self).key_path),
            },
            final(self).telegram_admin_chat_id == match cli.admin_id {
                Some(a) => Some(a),
                None => old(self).telegram_admin_chat_id,
            },
            cli.host is None ==> final(self).host == old(self).host,
            cli.user is None ==> final(self).user == old(self).user,
            cli.key_path is None ==> final(self).key_path == old(self).key_path,
            final(self).ssh_host == old(self).ssh_host,
            final(self).container == old(self).container,
            final(self).telegram_token == old(self).telegram_token,
            final(self).bot_image == old(self).bot_image,
            final(self).snapshot_dir == old(self).snapshot_dir,
    {
        if let Some(host) = &cli.host {
            self.host = Some(owned(host.as_str()));
        }
        if let Some(port) = cli.port {
            self.port = port;
        }
        if let Some(user) = &cli.user {
            self.user = owned(user.as_str());
        }
        if let Some(key_path) = &cli.key_path {
            self.key_path = Some(owned(key_path.as_str()));
        }
        if let Some(admin_id) = cli.admin_id {
            self.telegram_admin_chat_id = Some(admin_id);
        }
    }
}

/// Connection parameters found for an alias in the SSH client
/// configuration (`HostName`, `Port`, `User`, `IdentityFile`).
#[derive(Debug, Clone)]
pub struct SshHostEntry {
    pub hostname: Option<String>,
    pub port: Option<u16>,
    pub user: Option<String>,
    pub identity_file: Option<String>,
}

/// `path` with a leading `~/` replaced by the home directory `home`
/// (unchanged when it does not start with `~/` or no home is known).
pub open spec fn tilde_expanded(path: Seq<char>, home: Option<Seq<char>>) -> Seq<char> {
    if starts_with(path, "~/"@) && home is Some {
        home->0 + path.subrange(1, path.len() as int)
    } else {
        path
    }
}

/// Replace a leading `~/` of `path` by `home`.
pub fn expand_tilde_with(path: &str, home: Option<&str>) -> (r: String)
    ensures
        r@ == tilde_expanded(path@, match home {
            Some(h) => Some(h@),
            None => None,
        }),
{
    proof {
        reveal_strlit("~/");
    }
    let v = chars_of(path);
    let tilde = v.len() >= 2 && v[0] == '~' && v[1] == '/';
    assert(tilde == starts_with(path@, "~/"@)) by {
        assert("~/"@ =~= seq!['~', '/']);
        if v.len() >= 2 {
            assert(v@.subrange(0, 2) =~= seq![v@[0], v@[1]]);
        }
    }
    match home {
        Some(h) if tilde => {
            let mut r = owned(h);
            let rest = string_from_chars(&v, 1, v.len());
            push_str(&mut r, rest.as_str());
            r
        },
        _ => owned(path),
    }
}

/// The home directory (`dirs::home_dir`), as text.  It comes from the
/// environment, so nothing is stated of it.
#[verifier::external_body]
pub(crate) fn home_dir_text() -> Option<String> {
    dirs::home_dir().map(|h| h.display().to_string())
}

/// Replaces a leading `~/` of `path` by the home directory.
pub fn expand_tilde(path: &str) -> (r: String)
    ensures
        exists|home: Option<Seq<char>>| r@ == #[trigger] tilde_expanded(path@, home),
{
    let home = home_dir_text();
    let r = match &home {
        Some(h) => expand_tilde_with(path, Some(h.as_str())),
        None => expand_tilde_with(path, None),
    };
    assert(r@ == tilde_expanded(path@, opt_view(home)));
    r
}

/// A key path with its `~/` expanded by `home`.
pub open spec fn key_path_expanded(p: Option<Seq<char>>, home: Option<Seq<char>>) -> Option<
    Seq<char>,
> {
    match p {
        Some(s) => Some(tilde_expanded(s, home)),
        None => None,
    }
}

/// `expand_key_path` with a given home directory.
pub fn expand_key_path_with(path: &Option<String>, home: Option<&str>) -> (r: Option<String>)
    ensures
        opt_view(r) == key_path_expanded(opt_view(*path), match home {
            Some(h) => Some(h@),
            None => None,
        }),
{
    match path {
        Some(p) => Some(expand_tilde_with(p.as_str(), home)),
        None => None,
    }
}

/// Expands a leading `~/` of a key path with the home directory.
pub fn expand_key_path(path: &Option<String>) -> (r: Option<String>)
    ensures
        exists|home: Option<Seq<char>>| opt_view(r) == #[trigger] key_path_expanded(opt_view(*path), home),
{
    let home = home_dir_text();
    let r = match &home {
        Some(h) => expand_key_path_with(path, Some(h.as_str())),
        None => expand_key_path_with(path, None),
    };
    assert(opt_view(r) == key_path_expanded(opt_view(*path), opt_view(home)));
    r
}

} // verus!
