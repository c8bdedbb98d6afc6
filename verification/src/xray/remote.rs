//! The server config of the Xray container as the tool reads and writes it:
//! loading `server.json` and the clients table, and putting a changed
//! config back, restarting the container and waiting until Xray answers.

use vstd::prelude::*;

use crate::b64::{b64, encode_base64};
use crate::error::AppError;
use crate::json::{json_normal, json_pretty, JsonV};
use crate::ssh::CommandOutput;
use crate::steps::{next_is, Next, Target, Want};
use crate::text::{owned, push_str};
use crate::xray::config::{CLIENTS_TABLE_PATH, SERVER_CONFIG_PATH};
use crate::xray::server::{clients_table_of, server_config_of, ClientsTable, ServerConfig};

verus! {

/// How many times the restarted Xray is asked whether it is up.
pub const READY_ATTEMPTS: usize = 10;

/// Seconds to wait before each of those questions.
pub const READY_PAUSE_SECS: u64 = 1;

/// The command that asks Xray whether it runs.
pub const XRAY_READY_COMMAND: &'static str = "xray version";

pub open spec fn read_config_cmd() -> Seq<char> {
    "cat "@ + SERVER_CONFIG_PATH@
}

pub open spec fn read_table_cmd() -> Seq<char> {
    "cat "@ + CLIENTS_TABLE_PATH@
}

// ---- loading -----------------------------------------------------------------

/// How far the loading of the config and the table has got.
#[derive(Debug, Clone, Copy, PartialEq, Eq)]
pub enum LoadStage {
    Config,
    Table,
    Finished,
}

/// The loading of `server.json` and `clientsTable` from the container.
#[derive(Debug)]
pub struct LoadApiConfig {
    pub stage: LoadStage,
    pub config: Option<ServerConfig>,
    pub table: Option<ClientsTable>,
}

/// What a read of a file came to: its text, or the error to stop with.
pub open spec fn read_text(what: Seq<char>, ev: Result<CommandOutput, AppError>) -> Result<Seq<char>, Want> {
    match ev {
        Err(e) => Err(Want::Pass(e)),
        Ok(o) => if o.exit_code != 0 {
            Err(Want::Xray("failed to read "@ + what + ": "@ + o.stderr@))
        } else {
            Ok(o.stdout@)
        },
    }
}

/// One step of loading: the next stage, the config and table read so far,
/// and what is asked for.
pub open spec fn load_next(
    st: LoadStage,
    config: Option<JsonV>,
    ev: Result<CommandOutput, AppError>,
) -> (LoadStage, Option<JsonV>, Option<Seq<(Seq<char>, Seq<char>)>>, Want) {
    match st {
        LoadStage::Config => match read_text("server config"@, ev) {
            Err(w) => (LoadStage::Finished, None, None, w),
            Ok(t) => match server_config_of(t) {
                Err(m) => (LoadStage::Finished, None, None, Want::Xray(m)),
                Ok(j) => (LoadStage::Table, Some(j), None, Want::Run(Target::Container, read_table_cmd())),
            },
        },
        LoadStage::Table => match read_text("clients table"@, ev) {
            Err(w) => (LoadStage::Finished, config, None, w),
            Ok(t) => match clients_table_of(t) {
                Err(m) => (LoadStage::Finished, config, None, Want::Xray(m)),
                Ok(rows) => (LoadStage::Finished, config, Some(rows), Want::Finish),
            },
        },
        LoadStage::Finished => (LoadStage::Finished, config, None, Want::Finish),
    }
}

pub open spec fn config_view(c: Option<ServerConfig>) -> Option<JsonV> {
    match c {
        Some(c) => Some(c.raw.deep()),
        None => None,
    }
}

pub open spec fn table_opt_view(t: Option<ClientsTable>) -> Option<Seq<(Seq<char>, Seq<char>)>> {
    match t {
        Some(t) => Some(t@),
        None => None,
    }
}

fn read_failure(what: &str, o: &CommandOutput) -> (e: AppError)
    ensures
        e matches AppError::Xray(m) && m@ == "failed to read "@ + what@ + ": "@ + o.stderr@,
{
    let mut m = owned("failed to read ");
    push_str(&mut m, what);
    push_str(&mut m, ": ");
    push_str(&mut m, o.stderr.as_str());
    AppError::Xray(m)
}

impl LoadApiConfig {
    /// Starts loading: first `server.json` is read.
    pub fn start() -> (r: (LoadApiConfig, Next))
        ensures
            r.0.stage == LoadStage::Config,
            r.0.config is None,
            r.0.table is None,
            next_is(r.1, Want::Run(Target::Container, read_config_cmd())),
    {
        let mut c = owned("cat ");
        push_str(&mut c, SERVER_CONFIG_PATH);
        (LoadApiConfig { stage: LoadStage::Config, config: None, table: None }, Next::Run(Target::Container, c))
    }

    /// Takes the outcome of the last command and says what comes next.
    pub fn step(&mut self, ev: Result<CommandOutput, AppError>) -> (r: Next)
        ensures
            ({
                let x = load_next(old(self).stage, config_view(old(self).config), ev);
                &&& final(self).stage == x.0
                &&& config_view(final(self).config) == x.1
                &&& table_opt_view(final(self).table) == x.2
                &&& next_is(r, x.3)
            }),
    {
        proof {
            reveal_strlit("server config");
            reveal_strlit("clients table");
        }
        match self.stage {
            LoadStage::Config => {
                self.stage = LoadStage::Finished;
                self.table = None;
                self.config = None;
                let o = match ev {
                    Err(e) => return Next::Fail(e),
                    Ok(o) => o,
                };
                if !o.success() {
                    return Next::Fail(read_failure("server config", &o));
                }
                match ServerConfig::parse(o.stdout.as_str()) {
                    Err(e) => Next::Fail(e),
                    Ok(c) => {
                        self.config = Some(c);
                        self.stage = LoadStage::Table;
                        let mut cmd = owned("cat ");
                        push_str(&mut cmd, CLIENTS_TABLE_PATH);
                        Next::Run(Target::Container, cmd)
                    },
                }
            },
            LoadStage::Table => {
                self.stage = LoadStage::Finished;
                self.table = None;
                let o = match ev {
                    Err(e) => return Next::Fail(e),
                    Ok(o) => o,
                };
                if !o.success() {
                    return Next::Fail(read_failure("clients table", &o));
                }
                match ClientsTable::parse(o.stdout.as_str()) {
                    Err(e) => Next::Fail(e),
                    Ok(t) => {
                        self.table = Some(t);
                        Next::Finish
                    },
                }
            },
            LoadStage::Finished => {
                self.table = None;
                Next::Finish
            },
        }
    }
}

// ---- putting a config back ---------------------------------------------------------

/// The command that writes a config's text into `server.json` through a
/// temporary file, the text carried as base64.
pub open spec fn upload_cmd(text: Seq<char>) -> Seq<char> {
    let tmp = SERVER_CONFIG_PATH@ + ".tmp"@;
    "sh -c 'echo "@ + b64(vstd::utf8::encode_utf8(text)) + " | base64 -d > "@ + tmp + " && mv "@ + tmp + " "@
        + SERVER_CONFIG_PATH@ + "'"@
}

/// The text a config is written as.
pub open spec fn config_text(raw: JsonV) -> Seq<char> {
    json_pretty(json_normal(raw))
}

pub fn upload_command(config: &ServerConfig) -> (r: String)
    ensures
        r@ == upload_cmd(config_text(config.raw.deep())),
{
    let text = config.to_json();
    let encoded = encode_base64(text.as_str().as_bytes());
    let mut tmp = owned(SERVER_CONFIG_PATH);
    push_str(&mut tmp, ".tmp");
    let mut c = owned("sh -c 'echo ");
    push_str(&mut c, encoded.as_str());
    push_str(&mut c, " | base64 -d > ");
    push_str(&mut c, tmp.as_str());
    push_str(&mut c, " && mv ");
    push_str(&mut c, tmp.as_str());
    push_str(&mut c, " ");
    push_str(&mut c, SERVER_CONFIG_PATH);
    push_str(&mut c, "'");
    c
}

/// How far putting a config back has got.
#[derive(Debug, Clone, Copy, PartialEq, Eq)]
pub enum ApplyStage {
    /// The write of the config.
    Write,
    /// The restart of the container.
    Restart,
    /// The readiness question of this index.
    Wait(usize),
    Finished,
}

/// Putting a changed config back into the container: it is written, the
/// container restarted, and Xray asked once a second, ten times at most,
/// whether it runs again.
#[derive(Debug)]
pub struct ApplyConfig {
    pub container: String,
    pub stage: ApplyStage,
}

/// One step of putting a config back into container `c`.
pub open spec fn apply_next(c: Seq<char>, st: ApplyStage, ev: Result<CommandOutput, AppError>) -> (ApplyStage, Want) {
    let ask = Want::Run(Target::Container, XRAY_READY_COMMAND@);
    match st {
        ApplyStage::Write => match ev {
            Err(e) => (ApplyStage::Finished, Want::Pass(e)),
            Ok(o) => if o.exit_code != 0 {
                (ApplyStage::Finished, Want::Xray("failed to write server config: "@ + o.stderr@))
            } else {
                (ApplyStage::Restart, Want::Run(Target::Host, "docker restart "@ + c))
            },
        },
        ApplyStage::Restart => match ev {
            Err(e) => (ApplyStage::Finished, Want::Pass(e)),
            Ok(o) => if o.exit_code != 0 {
                (ApplyStage::Finished, Want::Xray("failed to restart container: "@ + o.stderr@))
            } else {
                (ApplyStage::Wait(0), ask)
            },
        },
        ApplyStage::Wait(i) => if ev matches Ok(o) && o.exit_code == 0 {
            (ApplyStage::Finished, Want::Finish)
        } else if i + 1 < READY_ATTEMPTS {
            (ApplyStage::Wait((i + 1) as usize), ask)
        } else {
            (ApplyStage::Finished, Want::Xray("container did not become ready after restart"@))
        },
        ApplyStage::Finished => (ApplyStage::Finished, Want::Finish),
    }
}

pub open spec fn apply_stage_ok(st: ApplyStage) -> bool {
    st matches ApplyStage::Wait(i) ==> i < READY_ATTEMPTS
}

impl ApplyConfig {
    /// Starts putting `config` back into `container`: first its text is
    /// written. Each readiness question is to be asked after a pause of
    /// `READY_PAUSE_SECS`.
    pub fn start(container: &str, config: &ServerConfig) -> (r: (ApplyConfig, Next))
        ensures
            r.0.container@ == container@,
            r.0.stage == ApplyStage::Write,
            next_is(r.1, Want::Run(Target::Container, upload_cmd(config_text(config.raw.deep())))),
    {
        (
            ApplyConfig { container: owned(container), stage: ApplyStage::Write },
            Next::Run(Target::Container, upload_command(config)),
        )
    }

    /// Takes the outcome of the last command and says what comes next.
    pub fn step(&mut self, ev: Result<CommandOutput, AppError>) -> (r: Next)
        requires
            apply_stage_ok(old(self).stage),
        ensures
            final(self).container@ == old(self).container@,
            apply_stage_ok(final(self).stage),
            final(self).stage == apply_next(old(self).container@, old(self).stage, ev).0,
            next_is(r, apply_next(old(self).container@, old(self).stage, ev).1),
    {
        match self.stage {
            ApplyStage::Write => match ev {
                Err(e) => {
                    self.stage = ApplyStage::Finished;
                    Next::Fail(e)
                },
                Ok(o) => if !o.success() {
                    self.stage = ApplyStage::Finished;
                    let mut m = owned("failed to write server config: ");
                    push_str(&mut m, o.stderr.as_str());
                    Next::Fail(AppError::Xray(m))
                } else {
                    self.stage = ApplyStage::Restart;
                    let mut c = owned("docker restart ");
                    push_str(&mut c, self.container.as_str());
                    Next::Run(Target::Host, c)
                },
            },
            ApplyStage::Restart => match ev {
                Err(e) => {
                    self.stage = ApplyStage::Finished;
                    Next::Fail(e)
                },
                Ok(o) => if !o.success() {
                    self.stage = ApplyStage::Finished;
                    let mut m = owned("failed to restart container: ");
                    push_str(&mut m, o.stderr.as_str());
                    Next::Fail(AppError::Xray(m))
                } else {
                    self.stage = ApplyStage::Wait(0);
                    Next::Run(Target::Container, owned(XRAY_READY_COMMAND))
                },
            },
            ApplyStage::Wait(i) => {
                let up = match &ev {
                    Ok(o) => o.success(),
                    Err(_) => false,
                };
                if up {
                    self.stage = ApplyStage::Finished;
                    Next::Finish
                } else if i + 1 < READY_ATTEMPTS {
                    self.stage = ApplyStage::Wait(i + 1);
                    Next::Run(Target::Container, owned(XRAY_READY_COMMAND))
                } else {
                    self.stage = ApplyStage::Finished;
                    Next::Fail(AppError::Xray(owned("container did not become ready after restart")))
                }
            },
            ApplyStage::Finished => Next::Finish,
        }
    }
}

} // verus!
