//! Decisions of the command-line tool: which release is the latest, which
//! snapshot is restored, how the server is reported.

use vstd::prelude::*;

use crate::config::opt_view;
use crate::error::AppError;
use crate::json::{field, json_parse, parse_json, JsonV};
use crate::ssh::CommandOutput;

use crate::text::{
    chars_of, contains_seq, contains_text, dec, is_ascii_digit, is_blank, owned, push_dec, push_str,
    str_eq, strip_prefix_str, trim, trim_str, utf8_len,
};
use crate::xray::snapshot::SnapshotInfo;

verus! {

/// A release version as the tool shows it: one or more ASCII digits and
/// dots, at least one of them a digit.
pub open spec fn version_text_ok(v: Seq<char>) -> bool {
    &&& v.len() > 0
    &&& forall|i: int| 0 <= i < v.len() ==> is_ascii_digit(#[trigger] v[i]) || v[i] == '.'
    &&& exists|i: int| 0 <= i < v.len() && is_ascii_digit(#[trigger] v[i])
}

/// The version of the latest release, from the GitHub answer for it: its
/// `tag_name` without a leading `v`, where that is a version.
pub open spec fn xray_version_of(body: Seq<char>) -> Option<Seq<char>> {
    match json_parse(body) {
        Ok(v) => match field(v, "tag_name"@) {
            Some(JsonV::Str(t)) => {
                let ver = if t.len() > 0 && t[0] == 'v' {
                    t.drop_first()
                } else {
                    t
                };
                if version_text_ok(ver) {
                    Some(ver)
                } else {
                    None
                }
            },
            _ => None,
        },
        Err(_) => None,
    }
}

/// Whether characters form a version as the tool shows it.
fn version_chars_ok(v: &Vec<char>) -> (b: bool)
    ensures
        b == version_text_ok(v@),
{
    if v.len() == 0 {
        return false;
    }
    let mut i: usize = 0;
    let mut any_digit = false;
    while i < v.len()
        invariant
            i <= v.len(),
            forall|k: int| 0 <= k < i ==> is_ascii_digit(#[trigger] v@[k]) || v@[k] == '.',
            any_digit <==> exists|k: int| 0 <= k < i && is_ascii_digit(#[trigger] v@[k]),
        decreases v.len() - i,
    {
        let c = v[i];
        let digit = '0' <= c && c <= '9';
        if !digit && c != '.' {
            assert(!(is_ascii_digit(v@[i as int]) || v@[i as int] == '.'));
            return false;
        }
        if digit {
            any_digit = true;
        }
        i = i + 1;
    }
    any_digit
}

/// Reads the version of the latest release from the GitHub answer.
pub fn parse_xray_version_from_json(body: &str) -> (r: Option<String>)
    ensures
        opt_view(r) == xray_version_of(body@),
{
    let json = match parse_json(body) {
        Ok(j) => j,
        Err(_) => return None,
    };
    let tag = match json.get("tag_name") {
        Some(t) => match t.as_str() {
            Some(s) => s,
            None => return None,
        },
        None => return None,
    };
    proof {
        reveal_strlit("v");
    }
    let version = match strip_prefix_str(tag, "v") {
        Some(v) => v,
        None => owned(tag),
    };
    let ghost ver = if tag@.len() > 0 && tag@[0] == 'v' {
        tag@.drop_first()
    } else {
        tag@
    };
    proof {
        if tag@.len() > 0 && tag@[0] == 'v' {
            assert(tag@.subrange(0, 1) =~= "v"@);
            assert(tag@.subrange(1, tag@.len() as int) =~= tag@.drop_first());
        } else {
            if crate::text::starts_with(tag@, "v"@) {
                assert(tag@.subrange(0, 1)[0] == 'v');
            }
        }
    }
    assert(version@ == ver);
    let v = chars_of(version.as_str());
    if !version_chars_ok(&v) {
        return None;
    }
    Some(version)
}

// ---- addresses and probes --------------------------------------------------------

/// The address to open an SSH connection to: an IPv6 host (one with a `:`)
/// in brackets, then the port.
pub open spec fn ssh_address_of(host: Seq<char>, port: u16) -> Seq<char> {
    if contains_seq(host, ":"@) {
        "["@ + host + "]"@ + ":"@ + dec(port as nat)
    } else {
        host + ":"@ + dec(port as nat)
    }
}

pub fn ssh_address(host: &str, port: u16) -> (r: String)
    ensures
        r@ == ssh_address_of(host@, port),
{
    let mut s = new_string_of_host(host);
    push_str(&mut s, ":");
    push_dec(&mut s, port as u64);
    s
}

fn new_string_of_host(host: &str) -> (r: String)
    ensures
        r@ == if contains_seq(host@, ":"@) {
            "["@ + host@ + "]"@
        } else {
            host@
        },
{
    if contains_text(host, ":") {
        let mut s = owned("[");
        push_str(&mut s, host);
        push_str(&mut s, "]");
        s
    } else {
        owned(host)
    }
}

/// The command that prints the status `docker ps` gives a container; the
/// name is anchored so that no other container matches.
pub open spec fn container_status_cmd(container: Seq<char>) -> Seq<char> {
    "docker ps --filter 'name=^/"@ + container + "$' --format '{{.Status}}'"@
}

pub fn container_status_command(container: &str) -> (r: String)
    ensures
        r@ == container_status_cmd(container@),
{
    let mut s = owned("docker ps --filter 'name=^/");
    push_str(&mut s, container);
    push_str(&mut s, "$' --format '{{.Status}}'");
    s
}

/// The container's uptime as `docker ps` prints it, empty where the
/// command could not run.
pub fn container_uptime(ev: &Result<CommandOutput, AppError>) -> (r: String)
    ensures
        r@ == match ev {
            Ok(o) => trim(o.stdout@),
            Err(_) => Seq::empty(),
        },
{
    match ev {
        Ok(o) => trim_str(o.stdout.as_str()),
        Err(_) => crate::text::new_string(),
    }
}

/// Seconds the best-effort network probes may take.
pub const NETWORK_PROBE_TIMEOUT_SECS: u64 = 3;

/// GitHub's description of the latest Xray release.
pub const XRAY_LATEST_RELEASE_URL: &'static str = "https://api.github.com/repos/XTLS/Xray-core/releases/latest";

pub open spec fn latest_release_cmd() -> Seq<char> {
    "curl -sfL --max-time "@ + dec(NETWORK_PROBE_TIMEOUT_SECS as nat) + " -H 'Accept: application/vnd.github+json' "@
        + XRAY_LATEST_RELEASE_URL@
}

pub fn latest_release_command() -> (r: String)
    ensures
        r@ == latest_release_cmd(),
{
    let mut s = owned("curl -sfL --max-time ");
    push_dec(&mut s, NETWORK_PROBE_TIMEOUT_SECS);
    push_str(&mut s, " -H 'Accept: application/vnd.github+json' ");
    push_str(&mut s, XRAY_LATEST_RELEASE_URL);
    s
}

/// The latest release's version from GitHub's answer; nothing where the
/// request failed or the answer holds no version.
pub fn latest_release_from(ev: &Result<CommandOutput, AppError>) -> (r: Option<String>)
    ensures
        opt_view(r) == match ev {
            Ok(o) => if o.exit_code == 0 {
                xray_version_of(o.stdout@)
            } else {
                None
            },
            Err(_) => None,
        },
{
    match ev {
        Ok(o) => if o.success() {
            parse_xray_version_from_json(o.stdout.as_str())
        } else {
            None
        },
        Err(_) => None,
    }
}

/// What an address service's answer must be before it is read as an IP
/// address: no markup, no space, at most 45 bytes.
pub open spec fn ip_candidate(s: Seq<char>) -> bool {
    !contains_seq(s, "<"@) && !contains_seq(s, " "@) && utf8_len(s) <= 45
}

pub fn ip_candidate_ok(s: &str) -> (r: bool)
    ensures
        r == ip_candidate(s@),
{
    !contains_text(s, "<") && !contains_text(s, " ") && crate::text::byte_len_capped(s, 46) <= 45
}

/// The host named in URLs when no service gives the server's address: the
/// configured connection's host, else a placeholder.
pub fn fallback_host(resolved: Option<String>) -> (r: String)
    ensures
        r@ == match resolved {
            Some(h) => h@,
            None => "UNKNOWN_IP"@,
        },
{
    match resolved {
        Some(h) => h,
        None => owned("UNKNOWN_IP"),
    }
}

// ---- reporting -------------------------------------------------------------------------

/// How the running version is shown next to the latest release.
pub open spec fn version_display_text(version: Seq<char>, latest: Option<Seq<char>>) -> Seq<char> {
    match latest {
        Some(l) => if l != version {
            "v"@ + version + " (update available: v"@ + l + ")"@
        } else {
            "v"@ + version + " (latest)"@
        },
        None => "v"@ + version,
    }
}

pub fn version_display(version: &str, latest: Option<&str>) -> (r: String)
    ensures
        r@ == version_display_text(
            version@,
            match latest {
                Some(l) => Some(l@),
                None => None,
            },
        ),
{
    let mut s = owned("v");
    push_str(&mut s, version);
    match latest {
        Some(l) => {
            if !str_eq(l, version) {
                push_str(&mut s, " (update available: v");
                push_str(&mut s, l);
                push_str(&mut s, ")");
            } else {
                push_str(&mut s, " (latest)");
            }
        },
        None => {},
    }
    s
}

/// The state of the stats API as reported: enabled where it answers,
/// degraded where only the version is known, else unknown.
pub fn api_status_text(api_ok: bool, version: &str) -> (r: &'static str)
    ensures
        r@ == if api_ok {
            "enabled"@
        } else if version@ != "unknown"@ {
            "degraded (version ok, stats API unreachable)"@
        } else {
            "unknown"@
        },
{
    if api_ok {
        "enabled"
    } else if !str_eq(version, "unknown") {
        "degraded (version ok, stats API unreachable)"
    } else {
        "unknown"
    }
}

/// The text of an uptime that may be unknown.
pub fn uptime_or_unknown(raw: String) -> (r: String)
    ensures
        r@ == if raw@.len() == 0 {
            "unknown"@
        } else {
            raw@
        },
{
    if raw.as_str().unicode_len() == 0 {
        owned("unknown")
    } else {
        raw
    }
}

// ---- choosing the snapshot to restore ---------------------------------------------------

/// The tags of a list of snapshots joined with `, `.
pub open spec fn tags_joined(tags: Seq<Seq<char>>) -> Seq<char>
    decreases tags.len(),
{
    if tags.len() == 0 {
        Seq::empty()
    } else if tags.len() == 1 {
        tags[0]
    } else {
        tags_joined(tags.drop_last()) + ", "@ + tags.last()
    }
}

pub open spec fn tags_of(ss: Seq<SnapshotInfo>) -> Seq<Seq<char>> {
    ss.map_values(|s: SnapshotInfo| s.tag@)
}

/// The snapshot to restore: the one asked for, which must exist, else the
/// newest (the last listed).
pub open spec fn restore_choice(ss: Seq<SnapshotInfo>, tag: Option<Seq<char>>) -> Result<Seq<char>, Seq<char>> {
    if ss.len() == 0 {
        Err("no snapshots found"@)
    } else {
        match tag {
            Some(t) => if tags_of(ss).contains(t) {
                Ok(t)
            } else {
                Err("snapshot '"@ + t + "' not found. Available: "@ + tags_joined(tags_of(ss)))
            },
            None => Ok(ss.last().tag@),
        }
    }
}

pub fn restore_tag(snapshots: &Vec<SnapshotInfo>, tag: Option<&str>) -> (r: Result<String, AppError>)
    ensures
        match restore_choice(
            snapshots@,
            match tag {
                Some(t) => Some(t@),
                None => None,
            },
        ) {
            Ok(t) => r matches Ok(x) && x@ == t,
            Err(m) => r matches Err(AppError::Xray(x)) && x@ == m,
        },
{
    if snapshots.len() == 0 {
        return Err(AppError::Xray(owned("no snapshots found")));
    }
    let ghost tags = tags_of(snapshots@);
    match tag {
        None => Ok(owned(snapshots[snapshots.len() - 1].tag.as_str())),
        Some(t) => {
            let mut i: usize = 0;
            let mut joined = crate::text::new_string();
            assert(tags.subrange(0, 0) =~= Seq::<Seq<char>>::empty());
            while i < snapshots.len()
                invariant
                    i <= snapshots.len(),
                    snapshots.len() > 0,
                    tag == Some(t),
                    tags == tags_of(snapshots@),
                    forall|j: int| 0 <= j < i ==> tags[j] != t@,
                    joined@ == tags_joined(tags.subrange(0, i as int)),
                decreases snapshots.len() - i,
            {
                if str_eq(snapshots[i].tag.as_str(), t) {
                    assert(tags[i as int] == t@);
                    assert(tags.contains(t@));
                    return Ok(owned(t));
                }
                assert(tags.subrange(0, i + 1).drop_last() =~= tags.subrange(0, i as int));
                if i > 0 {
                    push_str(&mut joined, ", ");
                }
                push_str(&mut joined, snapshots[i].tag.as_str());
                i = i + 1;
            }
            assert(tags.subrange(0, snapshots.len() as int) =~= tags);
            assert(!tags.contains(t@));
            let mut m = owned("snapshot '");
            push_str(&mut m, t);
            push_str(&mut m, "' not found. Available: ");
            push_str(&mut m, joined.as_str());
            Err(AppError::Xray(m))
        },
    }
}

/// `--add-user` refuses a blank name before connecting.
pub fn require_user_name(name: &str) -> (r: Result<(), AppError>)
    ensures
        r is Err <==> trim(name@).len() == 0,
        r matches Err(e) ==> e is Xray && e->Xray_0@ == "user name cannot be empty"@,
{
    if is_blank(name) {
        Err(AppError::Xray(owned("user name cannot be empty")))
    } else {
        Ok(())
    }
}

} // verus!
