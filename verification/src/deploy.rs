//! Deploying the Telegram bot to the VPS as a Docker container.

use vstd::prelude::*;

use crate::config::Config;
use crate::error::AppError;
use crate::ssh::{combined, CommandOutput};
use crate::steps::{next_is, xray_about, Next, Target, Want};
use crate::text::{contains_seq, contains_text, dec, owned, push_str, trim, trim_str};

verus! {

/// The name of the bot's container.
pub const BOT_CONTAINER: &'static str = "axadmin";

/// Removes a previous bot container, if there is one.
pub const STOP_BOT_COMMAND: &'static str = "docker stop axadmin 2>/dev/null; docker rm axadmin 2>/dev/null";

/// Prints the state of the bot's container.
pub const INSPECT_BOT_COMMAND: &'static str = "docker inspect axadmin --format '{{.State.Status}}' 2>&1";

/// Checks what deploying needs before it connects; the admin's id.
pub fn deploy_preconditions(config: &Config, token: &str) -> (r: Result<i64, AppError>)
    ensures
        trim(token@).len() == 0 ==> (r matches Err(AppError::Config(m)) && m@
            == "Invalid token format (expected <digits>:<secret>)"@),
        trim(token@).len() > 0 ==> match config.telegram_admin_chat_id {
            Some(id) => r == Ok::<i64, AppError>(id),
            None => r matches Err(AppError::Xray(m)) && m@ == "admin_id is required for deploy"@,
        },
{
    if trim_str(token).as_str().unicode_len() == 0 {
        return Err(AppError::Config(owned("Invalid token format (expected <digits>:<secret>)")));
    }
    match config.telegram_admin_chat_id {
        Some(id) => Ok(id),
        None => Err(AppError::Xray(owned("admin_id is required for deploy"))),
    }
}

/// Pulls the bot's image.
pub open spec fn pull_cmd(image: Seq<char>) -> Seq<char> {
    "docker pull "@ + image + " 2>&1"@
}

/// Starts the bot's container with the token, the admin's id, the Xray
/// container and the server's address.
pub open spec fn run_bot_cmd(token: Seq<char>, admin_id: i64, container: Seq<char>, image: Seq<char>, ip: Seq<char>) -> Seq<char> {
    "docker run -d --name axadmin --restart unless-stopped -v /var/run/docker.sock:/var/run/docker.sock -e TELEGRAM_TOKEN='"@
        + token + "' -e ADMIN_ID='"@ + signed_dec(admin_id) + "' -e XRAY_CONTAINER='"@ + container + "' "@ + image
        + " --telegram-bot --local --container '"@ + container + "' --admin-id "@ + signed_dec(admin_id)
        + " --host '"@ + ip + "' 2>&1"@
}

/// A signed number in decimal.
pub open spec fn signed_dec(n: i64) -> Seq<char> {
    if n < 0 {
        "-"@ + dec((-n) as nat)
    } else {
        dec(n as nat)
    }
}

fn push_signed(s: &mut String, n: i64)
    ensures
        final(s)@ == old(s)@ + signed_dec(n),
{
    if n < 0 {
        push_str(s, "-");
        let m: u64 = if n == i64::MIN {
            9_223_372_036_854_775_808u64
        } else {
            (-n) as u64
        };
        crate::text::push_dec(s, m);
    } else {
        crate::text::push_dec(s, n as u64);
    }
}

// ---- preparing the host ----------------------------------------------------------

/// How far preparing the host has got.
#[derive(Debug, Clone, Copy, PartialEq, Eq)]
pub enum PrepareStage {
    /// The pull of the image.
    Pull,
    /// The removal of a previous container.
    Stop,
    Finished,
}

/// Preparing the host for the bot: its image pulled, a previous container
/// removed.
#[derive(Debug)]
pub struct PrepareBot {
    pub stage: PrepareStage,
}

/// One step of preparing the host; a failed removal is no failure.
pub open spec fn prepare_next(st: PrepareStage, ev: Result<CommandOutput, AppError>) -> (PrepareStage, Want) {
    match st {
        PrepareStage::Pull => match ev {
            Err(e) => (PrepareStage::Finished, Want::XrayAbout("Docker pull failed: "@, e)),
            Ok(o) => if o.exit_code != 0 {
                (PrepareStage::Finished, Want::Xray("Docker pull failed: "@ + combined(o.stdout@, o.stderr@)))
            } else {
                (PrepareStage::Stop, Want::Run(Target::Host, STOP_BOT_COMMAND@))
            },
        },
        _ => (PrepareStage::Finished, Want::Finish),
    }
}

impl PrepareBot {
    /// Starts preparing the host: first the image is pulled.
    pub fn start(image: &str) -> (r: (PrepareBot, Next))
        ensures
            r.0.stage == PrepareStage::Pull,
            next_is(r.1, Want::Run(Target::Host, pull_cmd(image@))),
    {
        let mut c = owned("docker pull ");
        push_str(&mut c, image);
        push_str(&mut c, " 2>&1");
        (PrepareBot { stage: PrepareStage::Pull }, Next::Run(Target::Host, c))
    }

    /// Takes the outcome of the last command and says what comes next.
    pub fn step(&mut self, ev: Result<CommandOutput, AppError>) -> (r: Next)
        ensures
            final(self).stage == prepare_next(old(self).stage, ev).0,
            next_is(r, prepare_next(old(self).stage, ev).1),
    {
        match self.stage {
            PrepareStage::Pull => {
                self.stage = PrepareStage::Finished;
                match ev {
                    Err(e) => Next::Fail(xray_about("Docker pull failed: ", &e)),
                    Ok(o) => if !o.success() {
                        let mut m = owned("Docker pull failed: ");
                        push_str(&mut m, o.combined_output().as_str());
                        Next::Fail(AppError::Xray(m))
                    } else {
                        self.stage = PrepareStage::Stop;
                        Next::Run(Target::Host, owned(STOP_BOT_COMMAND))
                    },
                }
            },
            _ => {
                self.stage = PrepareStage::Finished;
                Next::Finish
            },
        }
    }
}

// ---- starting the bot -----------------------------------------------------------------

/// How far starting the bot has got.
#[derive(Debug, Clone, Copy, PartialEq, Eq)]
pub enum LaunchStage {
    /// The start of the container.
    Run,
    /// The check of its state.
    Inspect,
    Finished,
}

/// Starting the bot's container and checking that it runs.
#[derive(Debug)]
pub struct LaunchBot {
    pub stage: LaunchStage,
}

/// The message of a bot that runs.
pub open spec fn deployed_msg() -> Seq<char> {
    "Bot deployed and running! Send /start to your bot."@
}

/// One step of starting the bot; the last one finishes where the state the
/// container reports holds `Up` or `running`.
pub open spec fn launch_next(st: LaunchStage, ev: Result<CommandOutput, AppError>) -> (LaunchStage, Want) {
    match st {
        LaunchStage::Run => match ev {
            Err(e) => (LaunchStage::Finished, Want::XrayAbout("Docker start failed: "@, e)),
            Ok(o) => if o.exit_code != 0 {
                (LaunchStage::Finished, Want::Xray("Docker start failed: "@ + combined(o.stdout@, o.stderr@)))
            } else {
                (LaunchStage::Inspect, Want::Run(Target::Host, INSPECT_BOT_COMMAND@))
            },
        },
        LaunchStage::Inspect => match ev {
            Err(e) => (LaunchStage::Finished, Want::XrayAbout("Verification failed: "@, e)),
            Ok(o) => if o.exit_code != 0 {
                (LaunchStage::Finished, Want::Xray("Verification failed: "@ + combined(o.stdout@, o.stderr@)))
            } else {
                let status = trim(o.stdout@);
                if contains_seq(status, "Up"@) || contains_seq(status, "running"@) {
                    (LaunchStage::Finished, Want::Finish)
                } else {
                    (LaunchStage::Finished, Want::Xray("Bot container not running. Status: "@ + status))
                }
            },
        },
        LaunchStage::Finished => (LaunchStage::Finished, Want::Finish),
    }
}

impl LaunchBot {
    /// Starts the bot's container from `image` for the admin `admin_id`,
    /// managing `container`, with `ip` as the server's address in URLs.
    pub fn start(token: &str, admin_id: i64, container: &str, image: &str, ip: &str) -> (r: (LaunchBot, Next))
        ensures
            r.0.stage == LaunchStage::Run,
            next_is(r.1, Want::Run(Target::Host, run_bot_cmd(token@, admin_id, container@, image@, ip@))),
    {
        let mut c = owned(
            "docker run -d --name axadmin --restart unless-stopped -v /var/run/docker.sock:/var/run/docker.sock -e TELEGRAM_TOKEN='",
        );
        push_str(&mut c, token);
        push_str(&mut c, "' -e ADMIN_ID='");
        push_signed(&mut c, admin_id);
        push_str(&mut c, "' -e XRAY_CONTAINER='");
        push_str(&mut c, container);
        push_str(&mut c, "' ");
        push_str(&mut c, image);
        push_str(&mut c, " --telegram-bot --local --container '");
        push_str(&mut c, container);
        push_str(&mut c, "' --admin-id ");
        push_signed(&mut c, admin_id);
        push_str(&mut c, " --host '");
        push_str(&mut c, ip);
        push_str(&mut c, "' 2>&1");
        (LaunchBot { stage: LaunchStage::Run }, Next::Run(Target::Host, c))
    }

    /// Takes the outcome of the last command and says what comes next.
    pub fn step(&mut self, ev: Result<CommandOutput, AppError>) -> (r: Next)
        ensures
            final(self).stage == launch_next(old(self).stage, ev).0,
            next_is(r, launch_next(old(self).stage, ev).1),
    {
        match self.stage {
            LaunchStage::Run => {
                self.stage = LaunchStage::Finished;
                match ev {
                    Err(e) => Next::Fail(xray_about("Docker start failed: ", &e)),
                    Ok(o) => if !o.success() {
                        let mut m = owned("Docker start failed: ");
                        push_str(&mut m, o.combined_output().as_str());
                        Next::Fail(AppError::Xray(m))
                    } else {
                        self.stage = LaunchStage::Inspect;
                        Next::Run(Target::Host, owned(INSPECT_BOT_COMMAND))
                    },
                }
            },
            LaunchStage::Inspect => {
                self.stage = LaunchStage::Finished;
                match ev {
                    Err(e) => Next::Fail(xray_about("Verification failed: ", &e)),
                    Ok(o) => if !o.success() {
                        let mut m = owned("Verification failed: ");
                        push_str(&mut m, o.combined_output().as_str());
                        Next::Fail(AppError::Xray(m))
                    } else {
                        let status = trim_str(o.stdout.as_str());
                        if contains_text(status.as_str(), "Up") || contains_text(status.as_str(), "running") {
                            Next::Finish
                        } else {
                            let mut m = owned("Bot container not running. Status: ");
                            push_str(&mut m, status.as_str());
                            Next::Fail(AppError::Xray(m))
                        }
                    },
                }
            },
            LaunchStage::Finished => Next::Finish,
        }
    }
}

/// The message of a bot that was deployed.
pub fn deployed_message() -> (r: String)
    ensures
        r@ == deployed_msg(),
{
    owned("Bot deployed and running! Send /start to your bot.")
}

} // verus!
