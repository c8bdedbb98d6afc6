//! The steps that prepare a host: the checks before anything is installed,
//! the installation of Xray by its official script, and of packages by apt.

use vstd::prelude::*;

use crate::error::AppError;
use crate::ssh::CommandOutput;
use crate::steps::{next_is, Next, Target, Want};
use crate::text::{
    contains_seq, contains_text, dec, owned, parse_u64, parse_u64_of, push_dec, push_str,
    second_word, split_chars, split_on, trim, trim_str, ws_words,
};

verus! {

/// Least memory a host must have available, in KB.
pub const MIN_AVAILABLE_KB: u64 = 500_000;

/// Oldest major version of Xray that serves XHTTP.
pub const MIN_XRAY_MAJOR: u64 = 25;

pub const SUDO_CHECK_COMMAND: &'static str = "sudo -n true";

pub const OS_RELEASE_COMMAND: &'static str = "grep PRETTY_NAME /etc/os-release";

pub const MEMINFO_COMMAND: &'static str = "grep MemAvailable /proc/meminfo";

pub const XRAY_INSTALL_COMMAND: &'static str = "sudo bash -c \"$(curl -Ls https://github.com/XTLS/Xray-install/raw/main/install-release.sh)\" @ install";

pub const XRAY_VERSION_COMMAND: &'static str = "xray version 2>&1 | head -1";

pub const APT_UPDATE_COMMAND: &'static str = "sudo DEBIAN_FRONTEND=noninteractive apt-get update -qq";

pub const APT_INSTALL_PREFIX: &'static str = "sudo DEBIAN_FRONTEND=noninteractive apt-get install -y -qq ";

/// The command that prints the listener on a port, if there is one.
pub open spec fn port_check_cmd(port: u16) -> Seq<char> {
    "ss -tln | grep -E \":"@ + dec(port as nat) + "\\b\" | head -1"@
}

fn port_check_command(port: u16) -> (r: String)
    ensures
        r@ == port_check_cmd(port),
{
    let mut s = owned("ss -tln | grep -E \":");
    push_dec(&mut s, port as u64);
    push_str(&mut s, "\\b\" | head -1");
    s
}

/// The memory a `MemAvailable:  N kB` line reports, 0 where it does not
/// read as one.
pub open spec fn available_kb(line: Seq<char>) -> u64 {
    if ws_words(line).len() > 1 {
        match parse_u64_of(ws_words(line)[1]) {
            Some(n) => n,
            None => 0,
        }
    } else {
        0
    }
}

// ---- the checks before installing ------------------------------------------------

/// How far the checks of a host have got.
#[derive(Debug, Clone, Copy, PartialEq, Eq)]
pub enum PreflightStage {
    Sudo,
    Os,
    Memory,
    /// The check of the port of this index.
    Port(usize),
    Finished,
}

/// The checks of a host before anything is installed: `sudo` without a
/// password, Ubuntu 22 or later, enough memory, and free ports.
#[derive(Debug)]
pub struct Preflight {
    pub ports: Vec<u16>,
    pub stage: PreflightStage,
}

/// After the check at `i` passed: the next port's check, or the end.
pub open spec fn after_port(ports: Seq<u16>, i: int) -> (PreflightStage, Want) {
    if i < ports.len() {
        (PreflightStage::Port(i as usize), Want::Run(Target::Host, port_check_cmd(ports[i])))
    } else {
        (PreflightStage::Finished, Want::Finish)
    }
}

/// One step of the checks of a host that must have `ports` free.
pub open spec fn preflight_next(ports: Seq<u16>, st: PreflightStage, ev: Result<CommandOutput, AppError>) -> (PreflightStage, Want) {
    match ev {
        Err(e) => (PreflightStage::Finished, if st is Finished { Want::Finish } else { Want::Pass(e) }),
        Ok(o) => match st {
            PreflightStage::Sudo => if o.exit_code != 0 {
                (PreflightStage::Finished, Want::Config("sudo requires password — configure NOPASSWD"@))
            } else {
                (PreflightStage::Os, Want::Run(Target::Host, OS_RELEASE_COMMAND@))
            },
            PreflightStage::Os => if o.exit_code != 0 || !contains_seq(o.stdout@, "Ubuntu 2"@) {
                (PreflightStage::Finished, Want::Config("unsupported OS (need Ubuntu 22+/24+): "@ + trim(o.stdout@)))
            } else {
                (PreflightStage::Memory, Want::Run(Target::Host, MEMINFO_COMMAND@))
            },
            PreflightStage::Memory => {
                let kb = available_kb(o.stdout@);
                if kb < MIN_AVAILABLE_KB {
                    (
                        PreflightStage::Finished,
                        Want::Config("insufficient memory: "@ + dec(kb as nat) + " KB available, need ≥ 500_000"@),
                    )
                } else {
                    after_port(ports, 0)
                }
            },
            PreflightStage::Port(i) => if trim(o.stdout@).len() > 0 {
                (
                    PreflightStage::Finished,
                    Want::Config("port "@ + dec(ports[i as int] as nat) + " is already in use on new host"@),
                )
            } else {
                after_port(ports, i + 1)
            },
            PreflightStage::Finished => (PreflightStage::Finished, Want::Finish),
        },
    }
}

pub open spec fn preflight_ok(m: Preflight) -> bool {
    m.stage matches PreflightStage::Port(i) ==> i < m.ports.len()
}

/// The memory a `MemAvailable` line reports.
fn available_kb_of(line: &str) -> (r: u64)
    ensures
        r == available_kb(line@),
{
    match second_word(line) {
        Some(w) => match parse_u64(w.as_str()) {
            Some(n) => n,
            None => 0,
        },
        None => 0,
    }
}

impl Preflight {
    /// Starts the checks of a host that must have `ports` free: first
    /// `sudo` without a password.
    pub fn start(ports: Vec<u16>) -> (r: (Preflight, Next))
        ensures
            r.0.ports@ == ports@,
            r.0.stage == PreflightStage::Sudo,
            next_is(r.1, Want::Run(Target::Host, SUDO_CHECK_COMMAND@)),
    {
        (Preflight { ports, stage: PreflightStage::Sudo }, Next::Run(Target::Host, owned(SUDO_CHECK_COMMAND)))
    }

    fn port_step(&mut self, i: usize) -> (r: Next)
        requires
            i <= old(self).ports.len(),
        ensures
            final(self).ports@ == old(self).ports@,
            preflight_ok(*final(self)),
            final(self).stage == after_port(old(self).ports@, i as int).0,
            next_is(r, after_port(old(self).ports@, i as int).1),
    {
        if i < self.ports.len() {
            self.stage = PreflightStage::Port(i);
            Next::Run(Target::Host, port_check_command(self.ports[i]))
        } else {
            self.stage = PreflightStage::Finished;
            Next::Finish
        }
    }

    /// Takes the outcome of the last command and says what comes next.
    pub fn step(&mut self, ev: Result<CommandOutput, AppError>) -> (r: Next)
        requires
            preflight_ok(*old(self)),
        ensures
            final(self).ports@ == old(self).ports@,
            preflight_ok(*final(self)),
            final(self).stage == preflight_next(old(self).ports@, old(self).stage, ev).0,
            next_is(r, preflight_next(old(self).ports@, old(self).stage, ev).1),
    {
        let st = self.stage;
        let o = match ev {
            Err(e) => {
                self.stage = PreflightStage::Finished;
                return match st {
                    PreflightStage::Finished => Next::Finish,
                    _ => Next::Fail(e),
                };
            },
            Ok(o) => o,
        };
        match st {
            PreflightStage::Sudo => {
                if !o.success() {
                    self.stage = PreflightStage::Finished;
                    Next::Fail(AppError::Config(owned("sudo requires password — configure NOPASSWD")))
                } else {
                    self.stage = PreflightStage::Os;
                    Next::Run(Target::Host, owned(OS_RELEASE_COMMAND))
                }
            },
            PreflightStage::Os => {
                if !o.success() || !contains_text(o.stdout.as_str(), "Ubuntu 2") {
                    self.stage = PreflightStage::Finished;
                    let mut m = owned("unsupported OS (need Ubuntu 22+/24+): ");
                    push_str(&mut m, trim_str(o.stdout.as_str()).as_str());
                    Next::Fail(AppError::Config(m))
                } else {
                    self.stage = PreflightStage::Memory;
                    Next::Run(Target::Host, owned(MEMINFO_COMMAND))
                }
            },
            PreflightStage::Memory => {
                let kb = available_kb_of(o.stdout.as_str());
                if kb < MIN_AVAILABLE_KB {
                    self.stage = PreflightStage::Finished;
                    let mut m = owned("insufficient memory: ");
                    push_dec(&mut m, kb);
                    push_str(&mut m, " KB available, need ≥ 500_000");
                    Next::Fail(AppError::Config(m))
                } else {
                    self.port_step(0)
                }
            },
            PreflightStage::Port(i) => {
                if trim_str(o.stdout.as_str()).as_str().unicode_len() > 0 {
                    self.stage = PreflightStage::Finished;
                    let mut m = owned("port ");
                    push_dec(&mut m, self.ports[i] as u64);
                    push_str(&mut m, " is already in use on new host");
                    Next::Fail(AppError::Config(m))
                } else {
                    self.port_step(i + 1)
                }
            },
            PreflightStage::Finished => Next::Finish,
        }
    }
}

// ---- installing Xray -------------------------------------------------------------

/// What `s.parse::<u32>()` accepts.
pub open spec fn parse_u32_of(s: Seq<char>) -> Option<u32> {
    match parse_u64_of(s) {
        Some(n) => if n <= u32::MAX {
            Some(n as u32)
        } else {
            None
        },
        None => None,
    }
}

/// The version `xray version` reports in its first line, where it is
/// recent enough for XHTTP: the line's second word, whose part before the
/// first dot must be a number of at least 25.
pub open spec fn installed_version(stdout: Seq<char>) -> Result<Seq<char>, Seq<char>> {
    let line = trim(stdout);
    if ws_words(line).len() <= 1 {
        Err("cannot parse xray version from: "@ + line)
    } else {
        let token = ws_words(line)[1];
        match parse_u32_of(split_on(token, '.')[0]) {
            None => Err("cannot parse major version from: "@ + token),
            Some(major) => if major < MIN_XRAY_MAJOR {
                Err("xray version "@ + token + " is too old; need 25+ for XHTTP"@)
            } else {
                Ok(token)
            },
        }
    }
}

/// Reads the version from the output of `xray version`.
pub fn check_installed_version(stdout: &str) -> (r: Result<String, AppError>)
    ensures
        match installed_version(stdout@) {
            Ok(v) => r matches Ok(x) && x@ == v,
            Err(m) => r matches Err(AppError::Config(x)) && x@ == m,
        },
{
    let line = trim_str(stdout);
    let token = match second_word(line.as_str()) {
        Some(t) => t,
        None => {
            let mut m = owned("cannot parse xray version from: ");
            push_str(&mut m, line.as_str());
            return Err(AppError::Config(m));
        },
    };
    let parts = split_chars(token.as_str(), '.');
    proof {
        crate::text::lemma_split_on_nonempty(token@, '.');
        assert(parts@.map_values(|x: String| x@)[0] == parts@[0]@);
    }
    let major = match parse_u64(parts[0].as_str()) {
        Some(n) => if n <= u32::MAX as u64 {
            n
        } else {
            let mut m = owned("cannot parse major version from: ");
            push_str(&mut m, token.as_str());
            return Err(AppError::Config(m));
        },
        None => {
            let mut m = owned("cannot parse major version from: ");
            push_str(&mut m, token.as_str());
            return Err(AppError::Config(m));
        },
    };
    if major < MIN_XRAY_MAJOR {
        let mut m = owned("xray version ");
        push_str(&mut m, token.as_str());
        push_str(&mut m, " is too old; need 25+ for XHTTP");
        return Err(AppError::Config(m));
    }
    Ok(token)
}

/// How far the installation of Xray has got.
#[derive(Debug, Clone, Copy, PartialEq, Eq)]
pub enum InstallStage {
    /// The official install script.
    Install,
    /// The version check.
    Version,
    Finished,
}

/// The installation of Xray by its official script, checked to be recent
/// enough for XHTTP.
#[derive(Debug)]
pub struct InstallXray {
    pub stage: InstallStage,
    pub version: String,
}

/// One step of installing Xray: the next stage, the version found (once
/// checked), and what is asked for.
pub open spec fn install_next(st: InstallStage, ev: Result<CommandOutput, AppError>) -> (InstallStage, Option<Seq<char>>, Want) {
    match ev {
        Err(e) => (InstallStage::Finished, None, if st is Finished { Want::Finish } else { Want::Pass(e) }),
        Ok(o) => match st {
            InstallStage::Install => if o.exit_code != 0 {
                (InstallStage::Finished, None, Want::Config("xray install failed: "@ + o.stderr@))
            } else {
                (InstallStage::Version, None, Want::Run(Target::Host, XRAY_VERSION_COMMAND@))
            },
            InstallStage::Version => if o.exit_code != 0 {
                (InstallStage::Finished, None, Want::Config("xray version check failed"@))
            } else {
                match installed_version(o.stdout@) {
                    Ok(v) => (InstallStage::Finished, Some(v), Want::Finish),
                    Err(m) => (InstallStage::Finished, None, Want::Config(m)),
                }
            },
            InstallStage::Finished => (InstallStage::Finished, None, Want::Finish),
        },
    }
}

impl InstallXray {
    /// Starts installing Xray: first its official script runs.
    pub fn start() -> (r: (InstallXray, Next))
        ensures
            r.0.stage == InstallStage::Install,
            next_is(r.1, Want::Run(Target::Host, XRAY_INSTALL_COMMAND@)),
    {
        (
            InstallXray { stage: InstallStage::Install, version: owned("") },
            Next::Run(Target::Host, owned(XRAY_INSTALL_COMMAND)),
        )
    }

    /// Takes the outcome of the last command and says what comes next.
    pub fn step(&mut self, ev: Result<CommandOutput, AppError>) -> (r: Next)
        ensures
            final(self).stage == install_next(old(self).stage, ev).0,
            match install_next(old(self).stage, ev).1 {
                Some(v) => final(self).version@ == v,
                None => final(self).version@ == old(self).version@,
            },
            next_is(r, install_next(old(self).stage, ev).2),
    {
        let st = self.stage;
        let o = match ev {
            Err(e) => {
                self.stage = InstallStage::Finished;
                return match st {
                    InstallStage::Finished => Next::Finish,
                    _ => Next::Fail(e),
                };
            },
            Ok(o) => o,
        };
        match st {
            InstallStage::Install => {
                if !o.success() {
                    self.stage = InstallStage::Finished;
                    let mut m = owned("xray install failed: ");
                    push_str(&mut m, o.stderr.as_str());
                    Next::Fail(AppError::Config(m))
                } else {
                    self.stage = InstallStage::Version;
                    Next::Run(Target::Host, owned(XRAY_VERSION_COMMAND))
                }
            },
            InstallStage::Version => {
                self.stage = InstallStage::Finished;
                if !o.success() {
                    return Next::Fail(AppError::Config(owned("xray version check failed")));
                }
                match check_installed_version(o.stdout.as_str()) {
                    Ok(v) => {
                        self.version = v;
                        Next::Finish
                    },
                    Err(e) => Next::Fail(e),
                }
            },
            InstallStage::Finished => Next::Finish,
        }
    }
}

// ---- installing packages ---------------------------------------------------------

/// Words joined with single spaces.
pub open spec fn spaced(ws: Seq<Seq<char>>) -> Seq<char>
    decreases ws.len(),
{
    if ws.len() == 0 {
        Seq::empty()
    } else if ws.len() == 1 {
        ws[0]
    } else {
        spaced(ws.drop_last()) + " "@ + ws.last()
    }
}

fn spaced_words(ws: &Vec<String>) -> (r: String)
    ensures
        r@ == spaced(ws@.map_values(|w: String| w@)),
{
    let ghost wv = ws@.map_values(|w: String| w@);
    let mut s = owned("");
    proof {
        reveal_strlit("");
        assert(s@ =~= spaced(wv.subrange(0, 0)));
    }
    let mut i: usize = 0;
    while i < ws.len()
        invariant
            i <= ws.len(),
            wv == ws@.map_values(|w: String| w@),
            s@ == spaced(wv.subrange(0, i as int)),
        decreases ws.len() - i,
    {
        assert(wv.subrange(0, i + 1).drop_last() =~= wv.subrange(0, i as int));
        if i > 0 {
            push_str(&mut s, " ");
        }
        push_str(&mut s, ws[i].as_str());
        i = i + 1;
    }
    assert(wv.subrange(0, ws.len() as int) =~= wv);
    s
}

/// How far an apt installation has got.
#[derive(Debug, Clone, Copy, PartialEq, Eq)]
pub enum AptStage {
    Update,
    Install,
    Finished,
}

/// The installation of packages with apt, after an update of its index.
#[derive(Debug)]
pub struct AptInstall {
    pub packages: Vec<String>,
    pub stage: AptStage,
}

/// One step of installing `packages` with apt.
pub open spec fn apt_next(packages: Seq<Seq<char>>, st: AptStage, ev: Result<CommandOutput, AppError>) -> (AptStage, Want) {
    match ev {
        Err(e) => (AptStage::Finished, if st is Finished { Want::Finish } else { Want::Pass(e) }),
        Ok(o) => match st {
            AptStage::Update => if o.exit_code != 0 {
                (AptStage::Finished, Want::Config("apt-get update failed: "@ + o.stderr@))
            } else {
                (AptStage::Install, Want::Run(Target::Host, APT_INSTALL_PREFIX@ + spaced(packages)))
            },
            AptStage::Install => if o.exit_code != 0 {
                (AptStage::Finished, Want::Config("apt-get install failed: "@ + o.stderr@))
            } else {
                (AptStage::Finished, Want::Finish)
            },
            AptStage::Finished => (AptStage::Finished, Want::Finish),
        },
    }
}

impl AptInstall {
    /// Starts installing `packages`: first apt's index is updated.
    pub fn start(packages: Vec<String>) -> (r: (AptInstall, Next))
        ensures
            r.0.packages@ == packages@,
            r.0.stage == AptStage::Update,
            next_is(r.1, Want::Run(Target::Host, APT_UPDATE_COMMAND@)),
    {
        (AptInstall { packages, stage: AptStage::Update }, Next::Run(Target::Host, owned(APT_UPDATE_COMMAND)))
    }

    /// Takes the outcome of the last command and says what comes next.
    pub fn step(&mut self, ev: Result<CommandOutput, AppError>) -> (r: Next)
        ensures
            final(self).packages@ == old(self).packages@,
            final(self).stage == apt_next(old(self).packages@.map_values(|w: String| w@), old(self).stage, ev).0,
            next_is(r, apt_next(old(self).packages@.map_values(|w: String| w@), old(self).stage, ev).1),
    {
        let st = self.stage;
        let o = match ev {
            Err(e) => {
                self.stage = AptStage::Finished;
                return match st {
                    AptStage::Finished => Next::Finish,
                    _ => Next::Fail(e),
                };
            },
            Ok(o) => o,
        };
        match st {
            AptStage::Update => {
                if !o.success() {
                    self.stage = AptStage::Finished;
                    let mut m = owned("apt-get update failed: ");
                    push_str(&mut m, o.stderr.as_str());
                    Next::Fail(AppError::Config(m))
                } else {
                    self.stage = AptStage::Install;
                    let mut c = owned(APT_INSTALL_PREFIX);
                    push_str(&mut c, spaced_words(&self.packages).as_str());
                    Next::Run(Target::Host, c)
                }
            },
            AptStage::Install => {
                self.stage = AptStage::Finished;
                if !o.success() {
                    let mut m = owned("apt-get install failed: ");
                    push_str(&mut m, o.stderr.as_str());
                    Next::Fail(AppError::Config(m))
                } else {
                    Next::Finish
                }
            },
            AptStage::Finished => Next::Finish,
        }
    }
}

} // verus!
