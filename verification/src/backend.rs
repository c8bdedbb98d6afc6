//! The hosts the tool drives and what it reports back about them.

use vstd::prelude::*;

use crate::ssh::CommandOutput;
use crate::text::{owned, push_str, trim, trim_str};
use crate::config::{
    home_dir_text, key_path_expanded, opt_view, expand_key_path_with, Config, SshHostEntry,
};
use crate::error::AppError;

verus! {

/// What every backend tells about the host it drives. Running commands is
/// the caller's business (it is I/O); this is the part the library reads.
pub trait XrayBackend {
    /// The Docker container of Xray (empty on native installs).
    fn container_name(&self) -> &str;

    /// The host name or IP the server is reached at (used in vless:// URLs).
    fn hostname(&self) -> &str;
}

/// A backend that runs commands on the local host, directly.
pub struct LocalBackend {
    hostname: String,
}

impl LocalBackend {
    pub closed spec fn host_view(&self) -> Seq<char> {
        self.hostname@
    }

    pub fn new(hostname: String) -> (b: Self)
        ensures
            b.host_view() == hostname@,
    {
        LocalBackend { hostname }
    }
}

impl XrayBackend for LocalBackend {
    fn container_name(&self) -> (s: &str)
        ensures
            s@ == Seq::<char>::empty(),
    {
        proof {
            reveal_strlit("");
        }
        ""
    }

    fn hostname(&self) -> (s: &str)
        ensures
            s@ == self.host_view(),
    {
        self.hostname.as_str()
    }
}

/// A backend for Xray installed as a native systemd service, run on the
/// local host.
pub struct NativeLocalBackend {
    hostname: String,
}

impl NativeLocalBackend {
    pub closed spec fn host_view(&self) -> Seq<char> {
        self.hostname@
    }

    pub fn new(hostname: String) -> (b: Self)
        ensures
            b.host_view() == hostname@,
    {
        NativeLocalBackend { hostname }
    }
}

impl XrayBackend for NativeLocalBackend {
    fn container_name(&self) -> (s: &str)
        ensures
            s@ == Seq::<char>::empty(),
    {
        proof {
            reveal_strlit("");
        }
        ""
    }

    fn hostname(&self) -> (s: &str)
        ensures
            s@ == self.host_view(),
    {
        self.hostname.as_str()
    }
}

/// Why a vless URL was requested.
#[derive(Debug, Clone, Copy, PartialEq, Eq)]
pub enum VlessUrlIntent {
    /// Copy the URL to the clipboard.
    Clipboard,
    /// Show the URL as a QR code.
    Qr,
}

/// A user that was added, with the URL to hand out.
pub struct AddedUser {
    pub name: String,
    pub uuid: String,
    pub vless_url: String,
}

/// The entry an optional reference points to.
pub open spec fn entry_opt(entry: Option<&SshHostEntry>) -> Option<SshHostEntry> {
    match entry {
        Some(e) => Some(*e),
        None => None,
    }
}

/// Host, port, user and key file of an SSH connection.
pub type Connection = (String, u16, String, Option<String>);

pub open spec fn connection_view(c: Connection) -> (Seq<char>, u16, Seq<char>, Option<Seq<char>>) {
    (c.0@, c.1, c.2@, opt_view(c.3))
}

/// Where the tool connects: through an SSH alias (with what the SSH client
/// configuration says of it, or the alias as host name), else the
/// configured host.
pub open spec fn connection_of(
    config: Config,
    entry: Option<SshHostEntry>,
    home: Option<Seq<char>>,
) -> Result<(Seq<char>, u16, Seq<char>, Option<Seq<char>>), Seq<char>> {
    match config.ssh_host {
        Some(alias) => match entry {
            Some(sc) => Ok(
                (
                    match sc.hostname {
                        Some(h) => h@,
                        None => alias@,
                    },
                    match sc.port {
                        Some(p) => p,
                        None => config.port,
                    },
                    match sc.user {
                        Some(u) => u@,
                        None => config.user@,
                    },
                    key_path_expanded(
                        match sc.identity_file {
                            Some(f) => Some(f@),
                            None => opt_view(config.key_path),
                        },
                        home,
                    ),
                ),
            ),
            None => Ok((alias@, config.port, config.user@, key_path_expanded(opt_view(config.key_path), home))),
        },
        None => match config.host {
            Some(h) => Ok((h@, config.port, config.user@, key_path_expanded(opt_view(config.key_path), home))),
            None => Err("no host configured"@),
        },
    }
}

fn clone_opt(o: &Option<String>) -> (r: Option<String>)
    ensures
        opt_view(r) == opt_view(*o),
{
    match o {
        Some(s) => Some(owned(s.as_str())),
        None => None,
    }
}

/// `resolve_connection` with a given home directory.
pub fn resolve_connection_with(config: &Config, entry: Option<&SshHostEntry>, home: Option<&str>) -> (r:
    Result<Connection, AppError>)
    ensures
        match connection_of(*config, entry_opt(entry), match home {
            Some(h) => Some(h@),
            None => None,
        }) {
            Ok(c) => r matches Ok(x) && connection_view(x) == c,
            Err(m) => r matches Err(e) && e is Config && e->Config_0@ == m,
        },
{
    match &config.ssh_host {
        Some(alias) => match entry {
            Some(sc) => {
                let host = match &sc.hostname {
                    Some(h) => owned(h.as_str()),
                    None => owned(alias.as_str()),
                };
                let port = match sc.port {
                    Some(p) => p,
                    None => config.port,
                };
                let user = match &sc.user {
                    Some(u) => owned(u.as_str()),
                    None => owned(config.user.as_str()),
                };
                let file = match &sc.identity_file {
                    Some(f) => Some(owned(f.as_str())),
                    None => clone_opt(&config.key_path),
                };
                let key = expand_key_path_with(&file, home);
                Ok((host, port, user, key))
            },
            None => Ok(
                (
                    owned(alias.as_str()),
                    config.port,
                    owned(config.user.as_str()),
                    expand_key_path_with(&config.key_path, home),
                ),
            ),
        },
        None => match &config.host {
            Some(h) => Ok(
                (
                    owned(h.as_str()),
                    config.port,
                    owned(config.user.as_str()),
                    expand_key_path_with(&config.key_path, home),
                ),
            ),
            None => Err(AppError::Config(owned("no host configured"))),
        },
    }
}

/// Resolves the SSH connection from the config and, where an alias is
/// used, what the SSH client configuration says of it (`None` when it
/// does not know the alias).  Key paths starting with `~/` are expanded
/// with the home directory, whatever the environment gives.
pub fn resolve_connection(config: &Config, entry: Option<&SshHostEntry>) -> (r: Result<
    Connection,
    AppError,
>)
    ensures
        exists|home: Option<Seq<char>>|
            match #[trigger] connection_of(*config, entry_opt(entry), home) {
                Ok(c) => r matches Ok(x) && connection_view(x) == c,
                Err(m) => r matches Err(e) && e is Config && e->Config_0@ == m,
            },
{
    let home = home_dir_text();
    let r = match &home {
        Some(h) => resolve_connection_with(config, entry, Some(h.as_str())),
        None => resolve_connection_with(config, entry, None),
    };
    assert(match connection_of(*config, entry_opt(entry), opt_view(home)) {
        Ok(c) => r matches Ok(x) && connection_view(x) == c,
        Err(m) => r matches Err(err) && err is Config && err->Config_0@ == m,
    });
    r
}

/// What a connection test makes of `xray version` run in the container:
/// its trimmed output, or the reason it failed.
pub fn version_probe(out: &CommandOutput) -> (r: Result<String, String>)
    ensures
        out.exit_code == 0 ==> (r matches Ok(v) && v@ == trim(out.stdout@)),
        out.exit_code != 0 ==> (r matches Err(m) && m@ == "xray version failed: "@ + trim(out.stderr@)),
{
    if out.success() {
        Ok(trim_str(out.stdout.as_str()))
    } else {
        let mut m = owned("xray version failed: ");
        push_str(&mut m, trim_str(out.stderr.as_str()).as_str());
        Err(m)
    }
}

/// The server's public key from the output of reading its file.
pub fn public_key_from(out: &CommandOutput) -> (r: Result<String, AppError>)
    ensures
        out.exit_code == 0 ==> (r matches Ok(k) && k@ == trim(out.stdout@)),
        out.exit_code != 0 ==> (r matches Err(AppError::Xray(m)) && m@ == "failed to read public key: "@ + trim(
            out.stderr@,
        )),
{
    if out.success() {
        Ok(trim_str(out.stdout.as_str()))
    } else {
        let mut m = owned("failed to read public key: ");
        push_str(&mut m, trim_str(out.stderr.as_str()).as_str());
        Err(AppError::Xray(m))
    }
}

} // verus!
