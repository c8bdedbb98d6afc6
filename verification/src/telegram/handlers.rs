//! What the bot's commands compute once the server has answered: the users
//! they list, the user a confirmed deletion removes, the QR code sent for a
//! user, and the status report.

use vstd::prelude::*;

use crate::error::AppError;
use crate::native::url::{render_qr_png, qr_png_result, QR_PNG_MIN_SIZE};
use crate::ssh::CommandOutput;
use crate::telegram::format::{
    format_status_message, format_uptime, html_esc, html_escape, status_text, uptime_text,
    ServerInfo,
};
use crate::text::{
    ends_with, owned, parse_u64, parse_u64_of, push_str, str_eq, strip_suffix_str, trim, trim_str,
};
use crate::xray::client::{stats_for, stats_index, stats_view};
use crate::xray::config_render::ClientEntry;
use crate::xray::types::{TrafficStats, XrayUser};

verus! {

/// The command that prints the running Xray's version number.
pub const STATUS_VERSION_COMMAND: &'static str = "xray version 2>/dev/null | head -n 1 | awk '{print $2}'";

/// The command that prints for how many seconds the Xray service has run,
/// from systemd's activation time and the host's monotonic clock.
pub const SERVICE_AGE_COMMAND: &'static str = "enter_us=$(systemctl show xray --property=ActiveEnterTimestampMonotonic --value 2>/dev/null); now_us=$(awk '{printf \"%d\", $1 * 1000000}' /proc/uptime 2>/dev/null); if [ -n \"$enter_us\" ] && [ \"$enter_us\" != \"0\" ] && [ -n \"$now_us\" ]; then echo $(( (now_us - enter_us) / 1000000 )); fi";

/// The inbound whose traffic `/status` reports.
pub const CLIENT_INBOUND_TAG: &'static str = "client-in";

/// The name of the user registered under an e-mail: the e-mail without its
/// `@vpn` suffix, or the whole e-mail where it has none.
pub open spec fn display_name(email: Seq<char>) -> Seq<char> {
    if ends_with(email, "@vpn"@) {
        email.subrange(0, email.len() - "@vpn"@.len())
    } else {
        email
    }
}

/// The name of the user registered under `email`.
pub fn name_from_email(email: &str) -> (r: String)
    ensures
        r@ == display_name(email@),
{
    match strip_suffix_str(email, "@vpn") {
        Some(n) => n,
        None => owned(email),
    }
}

/// The counters recorded for an e-mail (zeroes where it has none), looked
/// up in the (email, counters) list that stands for a map keyed by email.
pub fn stats_lookup(m: &Vec<(String, TrafficStats)>, email: &str) -> (t: TrafficStats)
    ensures
        (t.uplink, t.downlink) == stats_for(stats_view(m@), email@),
{
    let ghost mv = stats_view(m@);
    let mut i: usize = m.len();
    assert(mv.subrange(0, m.len() as int) =~= mv);
    while i > 0
        invariant
            i <= m.len(),
            mv == stats_view(m@),
            stats_index(mv, email@) == stats_index(mv.subrange(0, i as int), email@),
        decreases i,
    {
        assert(mv.subrange(0, i as int).drop_last() =~= mv.subrange(0, i - 1));
        if str_eq(m[i - 1].0.as_str(), email) {
            assert(mv.subrange(0, i as int).last().0 == email@);
            return TrafficStats { uplink: m[i - 1].1.uplink, downlink: m[i - 1].1.downlink };
        }
        i = i - 1;
    }
    assert(mv.subrange(0, 0) =~= Seq::<(Seq<char>, (u64, u64))>::empty());
    TrafficStats { uplink: 0, downlink: 0 }
}

/// A user of the listing built from a client entry: its id, its name, its
/// e-mail, no flow, the given counters, and nobody online.
pub open spec fn listed_user(u: XrayUser, c: ClientEntry, up: u64, down: u64) -> bool {
    &&& u.uuid@ == c.uuid@
    &&& u.name@ == display_name(c.email@)
    &&& u.email@ == c.email@
    &&& u.flow@ == Seq::<char>::empty()
    &&& u.stats.uplink == up
    &&& u.stats.downlink == down
    &&& u.online_count == 0
}

fn user_of(c: &ClientEntry, stats: TrafficStats) -> (u: XrayUser)
    ensures
        listed_user(u, *c, stats.uplink, stats.downlink),
{
    proof {
        reveal_strlit("");
    }
    let flow = owned("");
    assert(flow@ =~= Seq::<char>::empty());
    XrayUser {
        uuid: owned(c.uuid.as_str()),
        name: name_from_email(c.email.as_str()),
        email: owned(c.email.as_str()),
        flow: flow,
        stats: stats,
        online_count: 0,
    }
}

/// The rows of `/users`: each client with the counters recorded for its
/// e-mail, in the order of the clients, none of them online.
pub fn users_for_listing(clients: &Vec<ClientEntry>, stats: &Vec<(String, TrafficStats)>) -> (r: Vec<(XrayUser, TrafficStats, u32)>)
    ensures
        r.len() == clients.len(),
        forall|i: int|
            0 <= i < r.len() ==> {
                let (up, down) = stats_for(stats_view(stats@), clients@[i].email@);
                &&& listed_user(#[trigger] r@[i].0, clients@[i], up, down)
                &&& r@[i].1.uplink == up
                &&& r@[i].1.downlink == down
                &&& r@[i].2 == 0
            },
{
    let mut r: Vec<(XrayUser, TrafficStats, u32)> = Vec::new();
    let mut i: usize = 0;
    while i < clients.len()
        invariant
            i <= clients.len(),
            r.len() == i,
            forall|j: int|
                0 <= j < i ==> {
                    let (up, down) = stats_for(stats_view(stats@), clients@[j].email@);
                    &&& listed_user(#[trigger] r@[j].0, clients@[j], up, down)
                    &&& r@[j].1.uplink == up
                    &&& r@[j].1.downlink == down
                    &&& r@[j].2 == 0
                },
        decreases clients.len() - i,
    {
        let st = stats_lookup(stats, clients[i].email.as_str());
        let u = user_of(&clients[i], TrafficStats { uplink: st.uplink, downlink: st.downlink });
        r.push((u, st, 0));
        i = i + 1;
    }
    r
}

/// The users a keyboard of `/url`, `/qr` or `/delete` is built from: each
/// client, in order, with zero counters.
pub fn users_for_keyboard(clients: &Vec<ClientEntry>) -> (r: Vec<XrayUser>)
    ensures
        r.len() == clients.len(),
        forall|i: int| 0 <= i < r.len() ==> listed_user(#[trigger] r@[i], clients@[i], 0, 0),
{
    let mut r: Vec<XrayUser> = Vec::new();
    let mut i: usize = 0;
    while i < clients.len()
        invariant
            i <= clients.len(),
            r.len() == i,
            forall|j: int| 0 <= j < i ==> listed_user(#[trigger] r@[j], clients@[j], 0, 0),
        decreases clients.len() - i,
    {
        r.push(user_of(&clients[i], TrafficStats { uplink: 0, downlink: 0 }));
        i = i + 1;
    }
    r
}

/// The name of the user that a confirmed deletion removes: that of the
/// first client with the id; an error where no client has it.
pub fn delete_target(clients: &Vec<ClientEntry>, uuid: &str) -> (r: Result<String, AppError>)
    ensures
        match r {
            Ok(name) => exists|i: int|
                0 <= i < clients.len() && #[trigger] clients@[i].uuid@ == uuid@
                    && (forall|j: int| 0 <= j < i ==> clients@[j].uuid@ != uuid@)
                    && name@ == display_name(clients@[i].email@),
            Err(e) => (forall|i: int| 0 <= i < clients.len() ==> #[trigger] clients@[i].uuid@ != uuid@)
                && e == AppError::Xray(e->Xray_0) && e->Xray_0@ == "user with uuid '"@ + uuid@
                + "' not found"@,
        },
{
    let mut i: usize = 0;
    while i < clients.len()
        invariant
            i <= clients.len(),
            forall|j: int| 0 <= j < i ==> clients@[j].uuid@ != uuid@,
        decreases clients.len() - i,
    {
        if str_eq(clients[i].uuid.as_str(), uuid) {
            return Ok(name_from_email(clients[i].email.as_str()));
        }
        i = i + 1;
    }
    let mut m = owned("user with uuid '");
    push_str(&mut m, uuid);
    push_str(&mut m, "' not found");
    Err(AppError::Xray(m))
}

/// The caption of a QR code sent for a user.
pub open spec fn qr_caption_text(name: Seq<char>, url: Seq<char>) -> Seq<char> {
    "🔗 "@ + html_esc(name) + "\n\n<code>"@ + html_esc(url) + "</code>"@
}

pub fn qr_caption(name: &str, url: &str) -> (r: String)
    ensures
        r@ == qr_caption_text(name@, url@),
{
    let mut s = owned("🔗 ");
    push_str(&mut s, html_escape(name).as_str());
    push_str(&mut s, "\n\n<code>");
    push_str(&mut s, html_escape(url).as_str());
    push_str(&mut s, "</code>");
    s
}

/// The QR code of a user's URL as PNG bytes, with its caption; where the
/// code cannot be drawn, an error that names the failure.
pub fn qr_reply(name: &str, url: &str) -> (r: Result<(Vec<u8>, String), AppError>)
    ensures
        match qr_png_result(url@, QR_PNG_MIN_SIZE) {
            Ok(b) => r matches Ok((png, caption)) && png@ == b && caption@ == qr_caption_text(name@, url@),
            Err((encoding, e)) => r matches Err(err) && err is Xray && err->Xray_0@
                == "QR generation failed: "@ + "Config error: "@ + (if encoding {
                "qr encode: "@
            } else {
                "qr png write: "@
            }) + e,
        },
{
    match render_qr_png(url) {
        Ok(png) => Ok((png, qr_caption(name, url))),
        Err(e) => {
            proof {
                reveal_strlit("Config error: ");
            }
            let mut m = owned("QR generation failed: ");
            push_str(&mut m, e.message().as_str());
            Err(AppError::Xray(m))
        },
    }
}

/// What a command printed, trimmed, where it ran and succeeded and printed
/// more than whitespace.
pub open spec fn trimmed_text(out: Option<&CommandOutput>) -> Option<Seq<char>> {
    match out {
        Some(o) if o.exit_code == 0 && trim(o.stdout@).len() > 0 => Some(trim(o.stdout@)),
        _ => None,
    }
}

/// The trimmed output of a command (`None` where it could not run).
pub fn trimmed_output(out: Option<&CommandOutput>) -> (r: Option<String>)
    ensures
        match r {
            Some(t) => trimmed_text(out) == Some(t@),
            None => trimmed_text(out) is None,
        },
{
    match out {
        None => None,
        Some(o) => {
            if !o.success() {
                return None;
            }
            let t = trim_str(o.stdout.as_str());
            if t.as_str().unicode_len() == 0 {
                None
            } else {
                Some(t)
            }
        },
    }
}

/// The service's uptime, from the output of the command that prints its
/// age in seconds.
pub open spec fn uptime_of(out: Option<&CommandOutput>) -> Option<Seq<char>> {
    match trimmed_text(out) {
        Some(t) => match parse_u64_of(t) {
            Some(n) => Some(uptime_text(n as nat)),
            None => None,
        },
        None => None,
    }
}

pub fn uptime_from_output(out: Option<&CommandOutput>) -> (r: Option<String>)
    ensures
        match r {
            Some(t) => uptime_of(out) == Some(t@),
            None => uptime_of(out) is None,
        },
{
    match trimmed_output(out) {
        Some(t) => match parse_u64(t.as_str()) {
            Some(n) => Some(format_uptime(n)),
            None => None,
        },
        None => None,
    }
}

/// The `/status` reply: the version the server printed (`unknown` where it
/// printed none), the inbound's traffic, the number of users and the
/// uptime (empty where it is unknown), with nobody counted online.
pub fn status_reply(
    user_count: usize,
    traffic: (u64, u64),
    version_out: Option<&CommandOutput>,
    uptime_out: Option<&CommandOutput>,
) -> (r: String)
    ensures
        r@ == status_text(
            match trimmed_text(version_out) {
                Some(v) => v,
                None => "unknown"@,
            },
            traffic.0 as nat,
            traffic.1 as nat,
            user_count as nat,
            0,
            match uptime_of(uptime_out) {
                Some(u) => u,
                None => Seq::empty(),
            },
            None,
        ),
{
    let version = match trimmed_output(version_out) {
        Some(v) => v,
        None => owned("unknown"),
    };
    proof {
        reveal_strlit("");
    }
    let uptime = match uptime_from_output(uptime_out) {
        Some(u) => u,
        None => owned(""),
    };
    let info = ServerInfo { version: version, uplink: traffic.0, downlink: traffic.1 };
    format_status_message(&info, user_count, 0, uptime.as_str(), None)
}

} // verus!
