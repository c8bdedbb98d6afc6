//! Users of a native-systemd Xray on the bridge host: the commands that
//! read and edit `/usr/local/etc/xray/config.json`, and what their output
//! means.

use vstd::prelude::*;

use crate::error::AppError;
use crate::json::{at, deep_seq, json_parse, lemma_deep_seq, nth, parse_json, Json, JsonV};
use crate::ssh::CommandOutput;
use crate::steps::{next_is, Next, Target, Want};
use crate::text::{
    chars_of, contains_seq, ends_with, new_string, owned, push_str, split_str, split_str_exec, str_eq, trim,
    trim_str,
};
use crate::xray::config_render::{
    bridge_clients_of, entries_view, first_inbound, parse_bridge_config, ClientEntry,
};
use crate::xray::server::{elems, str_or_empty};
use crate::xray::types::TrafficStats;

verus! {

pub const NATIVE_CONFIG_PATH: &'static str = "/usr/local/etc/xray/config.json";

pub const NATIVE_REALITY_PUBKEY_PATH: &'static str = "/usr/local/etc/xray/reality-public-key";

/// Where Xray's API listens on the bridge.
pub const NATIVE_API_ADDRESS: &'static str = "127.0.0.1:8080";

/// Rust's `Debug` rendering of a string (quoted and escaped).
pub uninterp spec fn str_debug(s: Seq<char>) -> Seq<char>;

/// `format!("{:?}", s)`.
#[verifier::external_body]
fn debug_quoted(s: &str) -> (r: String)
    ensures
        r@ == str_debug(s@),
{
    format!("{:?}", s)
}

/// Characters a user name may not contain: they would end the quoted
/// arguments of the shell and jq commands.
pub open spec fn forbidden_name_char(c: char) -> bool {
    c == '\'' || c == '"' || c == '\\' || c == '\n' || c == '\r' || c == '\0'
}

/// Reject names that could break shell quoting or jq argument parsing.
pub fn validate_name(name: &str) -> (r: Result<(), AppError>)
    ensures
        name@.len() == 0 ==> (r matches Err(AppError::Config(m)) && m@ == "user name is empty"@),
        name@.len() > 0 && (exists|i: int| 0 <= i < name@.len() && forbidden_name_char(
            #[trigger] name@[i],
        )) ==> (r matches Err(AppError::Config(m)) && m@
            == "user name contains forbidden character: "@ + str_debug(name@)),
        r is Ok <==> (name@.len() > 0 && forall|i: int|
            0 <= i < name@.len() ==> !forbidden_name_char(#[trigger] name@[i])),
{
    let v = chars_of(name);
    if v.len() == 0 {
        return Err(AppError::Config(owned("user name is empty")));
    }
    let mut i: usize = 0;
    while i < v.len()
        invariant
            v@ == name@,
            i <= v.len(),
            forall|j: int| 0 <= j < i ==> !forbidden_name_char(#[trigger] v@[j]),
        decreases v.len() - i,
    {
        let c = v[i];
        if c == '\'' || c == '"' || c == '\\' || c == '\n' || c == '\r' || c == '\0' {
            let mut m = owned("user name contains forbidden character: ");
            let d = debug_quoted(name);
            push_str(&mut m, d.as_str());
            return Err(AppError::Config(m));
        }
        i = i + 1;
    }
    Ok(())
}

/// A name for a new client, fit for the bridge's shell and jq commands.
pub open spec fn name_ok(name: Seq<char>) -> bool {
    name.len() > 0 && forall|i: int| 0 <= i < name.len() ==> !forbidden_name_char(#[trigger] name[i])
}

/// The text `<name>@vpn`.
pub open spec fn vpn_email(name: Seq<char>) -> Seq<char> {
    name + "@vpn"@
}

fn make_email(name: &str) -> (r: String)
    ensures
        r@ == vpn_email(name@),
{
    let mut e = owned(name);
    push_str(&mut e, "@vpn");
    e
}

/// Whether some client has the email `email`.
pub open spec fn has_email(cs: Seq<(Seq<char>, Seq<char>)>, email: Seq<char>) -> bool {
    exists|i: int| 0 <= i < cs.len() && #[trigger] cs[i].1 == email
}

/// Checks a new client's name against the existing clients; its email
/// where it may be added.
pub fn check_new_client(name: &str, existing: &Vec<ClientEntry>) -> (r: Result<String, AppError>)
    ensures
        !name_ok(name@) ==> (r is Err && r->Err_0 is Config),
        name_ok(name@) && has_email(entries_view(existing@), vpn_email(name@)) ==> (r matches Err(e)
            && e is Config && e->Config_0@ == "user '"@ + name@ + "' already exists"@),
        r is Ok <==> name_ok(name@) && !has_email(entries_view(existing@), vpn_email(name@)),
        r matches Ok(e) ==> e@ == vpn_email(name@),
{
    match validate_name(name) {
        Err(e) => return Err(e),
        Ok(()) => {},
    }
    let email = make_email(name);
    let mut i: usize = 0;
    while i < existing.len()
        invariant
            i <= existing.len(),
            email@ == vpn_email(name@),
            forall|k: int| 0 <= k < i ==> #[trigger] entries_view(existing@)[k].1 != email@,
        decreases existing.len() - i,
    {
        if str_eq(existing[i].email.as_str(), email.as_str()) {
            assert(entries_view(existing@)[i as int].1 == email@);
            let mut m = owned("user '");
            push_str(&mut m, name);
            push_str(&mut m, "' already exists");
            return Err(AppError::Config(m));
        }
        i = i + 1;
    }
    Ok(email)
}

/// A lowercase hexadecimal digit.
pub open spec fn lower_hex(c: char) -> bool {
    ('0' <= c && c <= '9') || ('a' <= c && c <= 'f')
}

/// The text of a random (version 4, RFC 4122 variant) UUID: 36 characters,
/// lowercase hex digits with `-` at positions 8, 13, 18 and 23, `4` at
/// position 14 and one of `8`, `9`, `a`, `b` at position 19.
pub open spec fn uuid_v4_text(u: Seq<char>) -> bool {
    &&& u.len() == 36
    &&& forall|i: int|
        0 <= i < 36 ==> if i == 8 || i == 13 || i == 18 || i == 23 {
            #[trigger] u[i] == '-'
        } else {
            lower_hex(u[i])
        }
    &&& u[14] == '4'
    &&& (u[19] == '8' || u[19] == '9' || u[19] == 'a' || u[19] == 'b')
}

/// A fresh random client id: `uuid::Uuid::new_v4()` in its hyphenated
/// lowercase form.  Which id comes is random and not stated; its shape is.
#[verifier::external_body]
pub(crate) fn new_client_uuid() -> (r: String)
    ensures
        uuid_v4_text(r@),
{
    uuid::Uuid::new_v4().to_string()
}

/// The command that appends a client to the bridge config, after a dated
/// backup.
pub open spec fn add_client_command_text(uuid: Seq<char>, email: Seq<char>) -> Seq<char> {
    let cfg = NATIVE_CONFIG_PATH@;
    "sudo cp "@ + cfg + " "@ + cfg + ".bak-$(date +%s) && sudo jq --arg uuid '"@ + uuid
        + "' --arg email '"@ + email
        + "' '.inbounds[0].settings.clients += [{id: $uuid, email: $email}]' "@ + cfg
        + " | sudo tee "@ + cfg + ".new > /dev/null && sudo mv "@ + cfg + ".new "@ + cfg
}

pub fn add_client_command(uuid: &str, email: &str) -> (r: String)
    ensures
        r@ == add_client_command_text(uuid@, email@),
{
    let mut c = owned("sudo cp ");
    push_str(&mut c, NATIVE_CONFIG_PATH);
    push_str(&mut c, " ");
    push_str(&mut c, NATIVE_CONFIG_PATH);
    push_str(&mut c, ".bak-$(date +%s) && sudo jq --arg uuid '");
    push_str(&mut c, uuid);
    push_str(&mut c, "' --arg email '");
    push_str(&mut c, email);
    push_str(&mut c, "' '.inbounds[0].settings.clients += [{id: $uuid, email: $email}]' ");
    push_str(&mut c, NATIVE_CONFIG_PATH);
    push_str(&mut c, " | sudo tee ");
    push_str(&mut c, NATIVE_CONFIG_PATH);
    push_str(&mut c, ".new > /dev/null && sudo mv ");
    push_str(&mut c, NATIVE_CONFIG_PATH);
    push_str(&mut c, ".new ");
    push_str(&mut c, NATIVE_CONFIG_PATH);
    c
}

/// The command that removes the client with an email from the bridge
/// config, after a dated backup.
pub open spec fn remove_client_command_text(email: Seq<char>) -> Seq<char> {
    let cfg = NATIVE_CONFIG_PATH@;
    "sudo cp "@ + cfg + " "@ + cfg + ".bak-$(date +%s) && sudo jq --arg email '"@ + email
        + "' '.inbounds[0].settings.clients |= map(select(.email != $email))' "@ + cfg
        + " | sudo tee "@ + cfg + ".new > /dev/null && sudo mv "@ + cfg + ".new "@ + cfg
}

/// The filter of the add command: the new client is appended to the
/// clients of the first inbound.
pub open spec fn append_filter() -> Seq<char> {
    ".inbounds[0].settings.clients += [{id: $uuid, email: $email}]"@
}

/// The last step of an edit: the edited copy is moved over the config.
pub open spec fn install_step() -> Seq<char> {
    " && sudo mv "@ + NATIVE_CONFIG_PATH@ + ".new "@ + NATIVE_CONFIG_PATH@
}

/// Adding a client keeps the clients there are: the command's jq filter
/// appends `{id, email}` to the first inbound's clients (`+=`, never
/// `=`), and the command ends by moving the edited config into place.
pub proof fn lemma_add_command_appends(uuid: Seq<char>, email: Seq<char>)
    ensures
        contains_seq(add_client_command_text(uuid, email), append_filter()),
        ends_with(add_client_command_text(uuid, email), install_step()),
{
    reveal_strlit("' '.inbounds[0].settings.clients += [{id: $uuid, email: $email}]' ");
    reveal_strlit(".inbounds[0].settings.clients += [{id: $uuid, email: $email}]");
    reveal_strlit(".new > /dev/null && sudo mv ");
    reveal_strlit(" && sudo mv ");
    reveal_strlit(".new > /dev/null");
    reveal_strlit("' '");
    reveal_strlit("' ");
    let cfg = NATIVE_CONFIG_PATH@;
    let f = append_filter();
    let lit = "' '.inbounds[0].settings.clients += [{id: $uuid, email: $email}]' "@;
    assert(lit =~= "' '"@ + f + "' "@);
    let a = "sudo cp "@ + cfg + " "@ + cfg + ".bak-$(date +%s) && sudo jq --arg uuid '"@ + uuid
        + "' --arg email '"@ + email + "' '"@;
    let b = "' "@ + cfg + " | sudo tee "@ + cfg + ".new > /dev/null"@;
    let text = add_client_command_text(uuid, email);
    assert(".new > /dev/null && sudo mv "@ =~= ".new > /dev/null"@ + " && sudo mv "@);
    assert(text =~= a + f + b + install_step());
    assert(text.subrange(a.len() as int, (a.len() + f.len()) as int) =~= f);
    assert(text.subrange(text.len() - install_step().len(), text.len() as int) =~= install_step());
}

/// Removing a client filters out the clients of its email and ends by
/// moving the edited config into place.
pub proof fn lemma_remove_command_installs(email: Seq<char>)
    ensures
        contains_seq(remove_client_command_text(email), ".inbounds[0].settings.clients |= map(select(.email != $email))"@),
        ends_with(remove_client_command_text(email), install_step()),
{
    reveal_strlit("' '.inbounds[0].settings.clients |= map(select(.email != $email))' ");
    reveal_strlit(".inbounds[0].settings.clients |= map(select(.email != $email))");
    reveal_strlit(".new > /dev/null && sudo mv ");
    reveal_strlit(" && sudo mv ");
    reveal_strlit(".new > /dev/null");
    reveal_strlit("' '");
    reveal_strlit("' ");
    let cfg = NATIVE_CONFIG_PATH@;
    let f = ".inbounds[0].settings.clients |= map(select(.email != $email))"@;
    let lit = "' '.inbounds[0].settings.clients |= map(select(.email != $email))' "@;
    assert(lit =~= "' '"@ + f + "' "@);
    let a = "sudo cp "@ + cfg + " "@ + cfg + ".bak-$(date +%s) && sudo jq --arg email '"@ + email + "' '"@;
    let b = "' "@ + cfg + " | sudo tee "@ + cfg + ".new > /dev/null"@;
    let text = remove_client_command_text(email);
    assert(".new > /dev/null && sudo mv "@ =~= ".new > /dev/null"@ + " && sudo mv "@);
    assert(text =~= a + f + b + install_step());
    assert(text.subrange(a.len() as int, (a.len() + f.len()) as int) =~= f);
    assert(text.subrange(text.len() - install_step().len(), text.len() as int) =~= install_step());
}

/// Checks a name and gives the command that removes its client.
pub fn remove_client_command(name: &str) -> (r: Result<String, AppError>)
    ensures
        r is Ok <==> name_ok(name@),
        r matches Ok(c) ==> c@ == remove_client_command_text(vpn_email(name@)),
{
    match validate_name(name) {
        Err(e) => return Err(e),
        Ok(()) => {},
    }
    let email = make_email(name);
    let mut c = owned("sudo cp ");
    push_str(&mut c, NATIVE_CONFIG_PATH);
    push_str(&mut c, " ");
    push_str(&mut c, NATIVE_CONFIG_PATH);
    push_str(&mut c, ".bak-$(date +%s) && sudo jq --arg email '");
    push_str(&mut c, email.as_str());
    push_str(&mut c, "' '.inbounds[0].settings.clients |= map(select(.email != $email))' ");
    push_str(&mut c, NATIVE_CONFIG_PATH);
    push_str(&mut c, " | sudo tee ");
    push_str(&mut c, NATIVE_CONFIG_PATH);
    push_str(&mut c, ".new > /dev/null && sudo mv ");
    push_str(&mut c, NATIVE_CONFIG_PATH);
    push_str(&mut c, ".new ");
    push_str(&mut c, NATIVE_CONFIG_PATH);
    Ok(c)
}

/// The command that reloads Xray after a config edit.
pub const RELOAD_XRAY_COMMAND: &'static str = "sudo systemctl reload-or-restart xray";

/// The command that prints the bridge config.
pub fn read_config_command() -> (r: String)
    ensures
        r@ == "sudo cat "@ + NATIVE_CONFIG_PATH@,
{
    let mut c = owned("sudo cat ");
    push_str(&mut c, NATIVE_CONFIG_PATH);
    c
}

/// `context: stderr` where a command failed.
pub open spec fn failed_msg(context: Seq<char>, out: CommandOutput) -> Seq<char> {
    context + ": "@ + out.stderr@
}

fn failure(context: &str, out: &CommandOutput) -> (e: AppError)
    ensures
        e is Config && e->Config_0@ == failed_msg(context@, *out),
{
    let mut m = owned(context);
    push_str(&mut m, ": ");
    push_str(&mut m, out.stderr.as_str());
    AppError::Config(m)
}

/// What the output of `sudo cat <config>` says of the bridge's clients.
pub open spec fn clients_from(out: CommandOutput) -> Result<Seq<(Seq<char>, Seq<char>)>, Seq<char>> {
    if out.exit_code != 0 {
        Err(failed_msg("read bridge config"@, out))
    } else {
        bridge_clients_of(out.stdout@)
    }
}

/// The clients listed in the output of the command that reads the config.
pub fn clients_from_output(out: &CommandOutput) -> (r: Result<Vec<ClientEntry>, AppError>)
    ensures
        match clients_from(*out) {
            Ok(cs) => r matches Ok(v) && entries_view(v@) == cs,
            Err(m) => r matches Err(e) && e is Config && e->Config_0@ == m,
        },
{
    if !out.success() {
        return Err(failure("read bridge config", out));
    }
    match parse_bridge_config(out.stdout.as_str()) {
        Ok(p) => Ok(p.clients),
        Err(e) => Err(e),
    }
}

/// What adding a client gives once its command ran: the new entry, or the
/// failure.
pub fn added_client(uuid: String, email: String, out: &CommandOutput) -> (r: Result<ClientEntry, AppError>)
    ensures
        out.exit_code == 0 ==> (r matches Ok(c) && c.uuid@ == uuid@ && c.email@ == email@),
        out.exit_code != 0 ==> (r matches Err(e) && e is Config && e->Config_0@ == failed_msg(
            "add client"@,
            *out,
        )),
{
    if !out.success() {
        return Err(failure("add client", out));
    }
    Ok(ClientEntry { uuid, email })
}

/// What a command that edits or reloads the bridge gives: nothing, or its
/// failure under `context`.
pub fn command_result(context: &str, out: &CommandOutput) -> (r: Result<(), AppError>)
    ensures
        out.exit_code == 0 ==> r is Ok,
        out.exit_code != 0 ==> (r matches Err(e) && e is Config && e->Config_0@ == failed_msg(
            context@,
            *out,
        )),
{
    if !out.success() {
        return Err(failure(context, out));
    }
    Ok(())
}

/// The id of the client named `name` (email `<name>@vpn`).
pub open spec fn uuid_of(cs: Seq<(Seq<char>, Seq<char>)>, name: Seq<char>) -> Option<Seq<char>>
    decreases cs.len(),
{
    if cs.len() == 0 {
        None
    } else if cs[0].1 == vpn_email(name) {
        Some(cs[0].0)
    } else {
        uuid_of(cs.drop_first(), name)
    }
}

/// A name's client is found wherever it stands: the first client whose
/// email is `<name>@vpn` gives its id, and with no such client there is
/// none.
pub proof fn lemma_uuid_of_finds_first(cs: Seq<(Seq<char>, Seq<char>)>, name: Seq<char>)
    ensures
        forall|i: int|
            0 <= i < cs.len() && cs[i].1 == name + "@vpn"@ && (forall|j: int| 0 <= j < i ==> cs[j].1 != name + "@vpn"@)
                ==> uuid_of(cs, name) == Some(cs[i].0),
        (forall|j: int| 0 <= j < cs.len() ==> cs[j].1 != name + "@vpn"@) ==> uuid_of(cs, name) is None,
    decreases cs.len(),
{
    if cs.len() > 0 {
        let rest = cs.drop_first();
        lemma_uuid_of_finds_first(rest, name);
        assert forall|i: int|
            0 <= i < cs.len() && cs[i].1 == name + "@vpn"@ && (forall|j: int| 0 <= j < i ==> cs[j].1 != name + "@vpn"@)
                implies uuid_of(cs, name) == Some(cs[i].0) by {
            if i > 0 {
                assert(cs[0].1 != name + "@vpn"@);
                assert(rest[i - 1] == cs[i]);
                assert forall|j: int| 0 <= j < i - 1 implies rest[j].1 != name + "@vpn"@ by {
                    assert(rest[j] == cs[j + 1]);
                }
            }
        }
        if forall|j: int| 0 <= j < cs.len() ==> cs[j].1 != name + "@vpn"@ {
            assert(cs[0].1 != name + "@vpn"@);
            assert forall|j: int| 0 <= j < rest.len() implies rest[j].1 != name + "@vpn"@ by {
                assert(rest[j] == cs[j + 1]);
            }
        }
    }
}

/// The id of an existing client, by name.
pub fn get_uuid(clients: &Vec<ClientEntry>, name: &str) -> (r: Result<String, AppError>)
    ensures
        match uuid_of(entries_view(clients@), name@) {
            Some(u) => r matches Ok(x) && x@ == u,
            None => r matches Err(e) && e is Config && e->Config_0@ == "user '"@ + name@ + "' not found"@,
        },
{
    let email = make_email(name);
    let ghost cs = entries_view(clients@);
    let mut i: usize = 0;
    assert(cs.subrange(0, cs.len() as int) =~= cs);
    while i < clients.len()
        invariant
            i <= clients.len(),
            cs == entries_view(clients@),
            email@ == vpn_email(name@),
            uuid_of(cs, name@) == uuid_of(cs.subrange(i as int, cs.len() as int), name@),
        decreases clients.len() - i,
    {
        let ghost rest = cs.subrange(i as int, cs.len() as int);
        assert(rest.drop_first() =~= cs.subrange(i + 1, cs.len() as int));
        if str_eq(clients[i].email.as_str(), email.as_str()) {
            return Ok(owned(clients[i].uuid.as_str()));
        }
        i = i + 1;
    }
    let mut m = owned("user '");
    push_str(&mut m, name);
    push_str(&mut m, "' not found");
    Err(AppError::Config(m))
}

/// A statistics entry's name and value, where both are there.
pub open spec fn stat_entry(e: JsonV) -> Option<(Seq<char>, u64)> {
    match (at(e, "name"@), at(e, "value"@)) {
        (JsonV::Str(n), JsonV::UInt(v)) => Some((n, v)),
        _ => None,
    }
}

/// Per-email counters, each email once, in the order first seen.
pub type StatsView = Seq<(Seq<char>, (u64, u64))>;

/// Index of an email's counters, or -1.
pub open spec fn stats_index(m: StatsView, email: Seq<char>) -> int
    decreases m.len(),
{
    if m.len() == 0 {
        -1
    } else if m.last().0 == email {
        m.len() - 1
    } else {
        stats_index(m.drop_last(), email)
    }
}

/// An email's counters: the entry of the email, or zeroes where it has
/// none.
pub open spec fn counters_of(m: StatsView, email: Seq<char>) -> (u64, u64) {
    if stats_index(m, email) >= 0 {
        m[stats_index(m, email)].1
    } else {
        (0u64, 0u64)
    }
}

proof fn lemma_stats_index_bounds(m: StatsView, e: Seq<char>)
    ensures
        -1 <= stats_index(m, e) < m.len(),
        stats_index(m, e) >= 0 ==> m[stats_index(m, e)].0 == e,
    decreases m.len(),
{
    if m.len() > 0 && m.last().0 != e {
        lemma_stats_index_bounds(m.drop_last(), e);
        let i = stats_index(m.drop_last(), e);
        if i >= 0 {
            assert(m.drop_last()[i] == m[i]);
        }
    }
}

/// Counters with the same emails in the same places find every email at
/// the same place.
proof fn lemma_stats_index_same_keys(a: StatsView, b: StatsView, e: Seq<char>)
    requires
        a.len() == b.len(),
        forall|j: int| 0 <= j < a.len() ==> #[trigger] a[j].0 == b[j].0,
    ensures
        stats_index(a, e) == stats_index(b, e),
    decreases a.len(),
{
    if a.len() > 0 {
        assert(a.last().0 == b.last().0);
        assert forall|j: int| 0 <= j < a.len() - 1 implies #[trigger] a.drop_last()[j].0 == b.drop_last()[j].0 by {
            assert(a.drop_last()[j] == a[j] && b.drop_last()[j] == b[j]);
        }
        lemma_stats_index_same_keys(a.drop_last(), b.drop_last(), e);
    }
}

/// Setting one counter of an email changes only that counter: the named
/// one takes the value, the other keeps what it had (zero for an email
/// not seen before), and every other email keeps its counters.
pub proof fn lemma_stats_set_one_counter(m: StatsView, email: Seq<char>, which: Seq<char>, value: u64, other: Seq<char>)
    requires
        other != email,
    ensures
        counters_of(stats_set(m, email, which, value), email) == (
            if which == "uplink"@ {
                value
            } else {
                counters_of(m, email).0
            },
            if which == "downlink"@ {
                value
            } else {
                counters_of(m, email).1
            },
        ),
        counters_of(stats_set(m, email, which, value), other) == counters_of(m, other),
{
    reveal_strlit("uplink");
    reveal_strlit("downlink");
    assert("uplink"@ != "downlink"@) by {
        assert("uplink"@.len() != "downlink"@.len());
    }
    lemma_stats_index_bounds(m, email);
    lemma_stats_index_bounds(m, other);
    let i = stats_index(m, email);
    let m1 = if i >= 0 {
        m
    } else {
        m.push((email, (0u64, 0u64)))
    };
    let j = if i >= 0 {
        i
    } else {
        m.len() as int
    };
    if i < 0 {
        assert(m1.drop_last() =~= m);
        assert(stats_index(m1, email) == m.len());
        assert(stats_index(m1, other) == stats_index(m, other));
        assert forall|k: int| 0 <= k < m.len() implies m1[k] == m[k] by {}
    }
    assert(stats_index(m1, email) == j);
    lemma_stats_index_bounds(m1, other);
    let m2 = stats_set(m, email, which, value);
    assert(m2.len() == m1.len());
    assert forall|k: int| 0 <= k < m1.len() implies #[trigger] m2[k].0 == m1[k].0 by {}
    lemma_stats_index_same_keys(m2, m1, email);
    lemma_stats_index_same_keys(m2, m1, other);
    if stats_index(m1, other) >= 0 {
        assert(stats_index(m1, other) != j);
    }
}

/// The counters with one of an email's counters set (an email seen for
/// the first time gets zeroes first); `which` is `uplink` or `downlink`,
/// and any other name only records the email.
pub open spec fn stats_set(m: StatsView, email: Seq<char>, which: Seq<char>, value: u64) -> StatsView {
    let i = stats_index(m, email);
    let m1 = if i >= 0 {
        m
    } else {
        m.push((email, (0u64, 0u64)))
    };
    let j = if i >= 0 {
        i
    } else {
        m.len() as int
    };
    let cur = m1[j].1;
    if which == "uplink"@ {
        m1.update(j, (email, (value, cur.1)))
    } else if which == "downlink"@ {
        m1.update(j, (email, (cur.0, value)))
    } else {
        m1
    }
}

/// The per-user counters of a `statsquery` answer: entries named
/// `user>>>EMAIL>>>traffic>>>uplink|downlink`; others are skipped.
pub open spec fn user_stats_of(es: Seq<JsonV>) -> StatsView
    decreases es.len(),
{
    if es.len() == 0 {
        Seq::empty()
    } else {
        let m = user_stats_of(es.drop_last());
        match stat_entry(es.last()) {
            None => m,
            Some((name, value)) => {
                let parts = split_str(name, ">>>"@);
                if parts.len() != 4 || parts[0] != "user"@ || parts[2] != "traffic"@ {
                    m
                } else {
                    stats_set(m, parts[1], parts[3], value)
                }
            },
        }
    }
}

/// What `parse_user_stats` makes of a text.
pub open spec fn user_stats_text(json: Seq<char>) -> Result<StatsView, Seq<char>> {
    match json_parse(json) {
        Ok(v) => Ok(user_stats_of(elems(at(v, "stat"@)))),
        Err(e) => Err("parse statsquery: "@ + e),
    }
}

pub open spec fn stats_view(m: Seq<(String, TrafficStats)>) -> StatsView {
    m.map_values(|e: (String, TrafficStats)| (e.0@, (e.1.uplink, e.1.downlink)))
}

/// The name and value of a statistics entry.
fn stat_entry_exec(e: &Json) -> (r: Option<(&str, u64)>)
    ensures
        match r {
            Some((n, v)) => stat_entry(e.deep()) == Some((n@, v)),
            None => stat_entry(e.deep()) is None,
        },
{
    let name = match e.get("name") {
        Some(n) => n.as_str(),
        None => None,
    };
    let value = match e.get("value") {
        Some(x) => x.as_u64(),
        None => None,
    };
    match (name, value) {
        (Some(n), Some(v)) => Some((n, v)),
        _ => None,
    }
}

/// Sets one counter of an email.
fn stats_set_exec(m: &mut Vec<(String, TrafficStats)>, email: &str, which: &str, value: u64)
    ensures
        stats_view(final(m)@) == stats_set(stats_view(old(m)@), email@, which@, value),
{
    let ghost mv = stats_view(m@);
    let mut i: usize = m.len();
    let mut found = false;
    assert(mv.subrange(0, m.len() as int) =~= mv);
    while i > 0
        invariant_except_break
            !found,
        invariant
            i <= m.len(),
            mv == stats_view(m@),
            stats_index(mv, email@) == stats_index(mv.subrange(0, i as int), email@),
        ensures
            found ==> 0 < i <= m.len() && stats_index(mv, email@) == i - 1,
            !found ==> stats_index(mv, email@) == -1,
        decreases i,
    {
        assert(mv.subrange(0, i as int).drop_last() =~= mv.subrange(0, i - 1));
        if str_eq(m[i - 1].0.as_str(), email) {
            assert(mv.subrange(0, i as int).last().0 == email@);
            assert(stats_index(mv, email@) == i - 1);
            found = true;
            break;
        }
        i = i - 1;
    }
    proof {
        if !found {
            assert(mv.subrange(0, 0) =~= Seq::<(Seq<char>, (u64, u64))>::empty());
        }
    }
    let j: usize = if found {
        i - 1
    } else {
        m.push((owned(email), TrafficStats { uplink: 0, downlink: 0 }));
        assert(stats_view(m@) =~= mv.push((email@, (0u64, 0u64))));
        m.len() - 1
    };
    let ghost m1 = stats_view(m@);
    proof {
        reveal_strlit("uplink");
        reveal_strlit("downlink");
    }
    let (up, down) = (m[j].1.uplink, m[j].1.downlink);
    assert(m1[j as int].1 == (up, down));
    assert(found ==> m1 == mv);
    if str_eq(which, "uplink") {
        m.set(j, (owned(email), TrafficStats { uplink: value, downlink: down }));
        assert(stats_view(m@) =~= m1.update(j as int, (email@, (value, down))));
    } else if str_eq(which, "downlink") {
        m.set(j, (owned(email), TrafficStats { uplink: up, downlink: value }));
        assert(stats_view(m@) =~= m1.update(j as int, (email@, (up, value))));
    }
}

/// Reads the per-user counters of a `statsquery` answer: a list of
/// (email, counters) pairs, one per email in order of first appearance,
/// where a map keyed by email would serve; a `Vec` keeps the lookups
/// provable (`stats_index` finds an email's entry).
pub fn parse_user_stats(json: &str) -> (r: Result<Vec<(String, TrafficStats)>, AppError>)
    ensures
        match user_stats_text(json@) {
            Ok(m) => r matches Ok(v) && stats_view(v@) == m,
            Err(e) => r matches Err(err) && err is Config && err->Config_0@ == e,
        },
{
    let v = match parse_json(json) {
        Ok(v) => v,
        Err(e) => {
            let mut m = owned("parse statsquery: ");
            push_str(&mut m, e.as_str());
            return Err(AppError::Config(m));
        },
    };
    let mut map: Vec<(String, TrafficStats)> = Vec::new();
    let arr = match v.get("stat") {
        Some(s) => match s.as_array() {
            Some(a) => a,
            None => {
                assert(stats_view(map@) =~= Seq::<(Seq<char>, (u64, u64))>::empty());
                return Ok(map);
            },
        },
        None => {
            assert(stats_view(map@) =~= Seq::<(Seq<char>, (u64, u64))>::empty());
            return Ok(map);
        },
    };
    proof {
        lemma_deep_seq(arr@);
        reveal_strlit(">>>");
    }
    let ghost es = deep_seq(arr@);
    let mut i: usize = 0;
    assert(stats_view(map@) =~= user_stats_of(es.subrange(0, 0)));
    while i < arr.len()
        invariant
            i <= arr.len(),
            es == deep_seq(arr@),
            es.len() == arr.len(),
            forall|k: int| 0 <= k < arr.len() ==> #[trigger] es[k] == arr@[k].deep(),
            stats_view(map@) == user_stats_of(es.subrange(0, i as int)),
        decreases arr.len() - i,
    {
        assert(es.subrange(0, i + 1).drop_last() =~= es.subrange(0, i as int));
        assert(es.subrange(0, i + 1).last() == arr@[i as int].deep());
        proof {
            reveal_strlit(">>>");
        }
        match stat_entry_exec(&arr[i]) {
            Some((name, value)) => {
                let parts = split_str_exec(name, ">>>");
                let ghost ps = parts@.map_values(|x: String| x@);
                if parts.len() == 4 && str_eq(parts[0].as_str(), "user") && str_eq(parts[2].as_str(), "traffic") {
                    assert(ps[1] == parts@[1]@ && ps[3] == parts@[3]@);
                    stats_set_exec(&mut map, parts[1].as_str(), parts[3].as_str(), value);
                } else {
                    assert(parts.len() == 4 ==> ps[0] == parts@[0]@ && ps[2] == parts@[2]@);
                }
            },
            None => {},
        }
        i = i + 1;
    }
    assert(es.subrange(0, arr.len() as int) =~= es);
    Ok(map)
}

/// The counters of a `statsquery` answer's output: empty where the command
/// failed or its output does not parse (statistics are informational).
pub fn user_stats_from_output(out: &CommandOutput) -> (r: Vec<(String, TrafficStats)>)
    ensures
        stats_view(r@) == if out.exit_code != 0 {
            Seq::empty()
        } else {
            match user_stats_text(out.stdout@) {
                Ok(m) => m,
                Err(_) => Seq::empty(),
            }
        },
{
    if !out.success() {
        let v: Vec<(String, TrafficStats)> = Vec::new();
        assert(stats_view(v@) =~= Seq::<(Seq<char>, (u64, u64))>::empty());
        return v;
    }
    match parse_user_stats(out.stdout.as_str()) {
        Ok(m) => m,
        Err(_) => {
            let v: Vec<(String, TrafficStats)> = Vec::new();
            assert(stats_view(v@) =~= Seq::<(Seq<char>, (u64, u64))>::empty());
            v
        },
    }
}

/// The counters of an email (zeroes where it has none).
pub open spec fn stats_for(m: StatsView, email: Seq<char>) -> (u64, u64) {
    let i = stats_index(m, email);
    if i >= 0 {
        m[i].1
    } else {
        (0, 0)
    }
}

/// The totals of the inbound entries of a `statsquery` answer: entries
/// named `X>>>Y>>>Z>>>uplink|downlink`.
pub open spec fn inbound_sums(es: Seq<JsonV>) -> (nat, nat)
    decreases es.len(),
{
    if es.len() == 0 {
        (0, 0)
    } else {
        let (u, d) = inbound_sums(es.drop_last());
        match stat_entry(es.last()) {
            None => (u, d),
            Some((name, value)) => {
                let parts = split_str(name, ">>>"@);
                if parts.len() != 4 {
                    (u, d)
                } else if parts[3] == "uplink"@ {
                    (u + value as nat, d)
                } else if parts[3] == "downlink"@ {
                    (u, d + value as nat)
                } else {
                    (u, d)
                }
            },
        }
    }
}

/// What the totals of a `statsquery` answer come to.
pub open spec fn inbound_stats_text(json: Seq<char>) -> Result<(nat, nat), Seq<char>> {
    match json_parse(json) {
        Ok(v) => Ok(inbound_sums(elems(at(v, "stat"@)))),
        Err(e) => Err("parse statsquery: "@ + e),
    }
}

/// The totals fit in 64 bits, the width they are added in.
pub open spec fn inbound_sums_fit(json: Seq<char>) -> bool {
    match inbound_stats_text(json) {
        Ok((u, d)) => u <= u64::MAX && d <= u64::MAX,
        Err(_) => true,
    }
}

/// The totals, in 128 bits.
fn inbound_sums_wide(json: &str) -> (r: Result<(u128, u128), AppError>)
    ensures
        match inbound_stats_text(json@) {
            Ok((u, d)) => r matches Ok((x, y)) && x == u && y == d,
            Err(e) => r matches Err(err) && err is Config && err->Config_0@ == e,
        },
{
    let v = match parse_json(json) {
        Ok(v) => v,
        Err(e) => {
            let mut m = owned("parse statsquery: ");
            push_str(&mut m, e.as_str());
            return Err(AppError::Config(m));
        },
    };
    let arr = match v.get("stat") {
        Some(s) => match s.as_array() {
            Some(a) => a,
            None => return Ok((0, 0)),
        },
        None => return Ok((0, 0)),
    };
    proof {
        lemma_deep_seq(arr@);
    }
    let ghost es = deep_seq(arr@);
    let mut up: u128 = 0;
    let mut down: u128 = 0;
    let mut i: usize = 0;
    while i < arr.len()
        invariant
            i <= arr.len(),
            es == deep_seq(arr@),
            es.len() == arr.len(),
            forall|k: int| 0 <= k < arr.len() ==> #[trigger] es[k] == arr@[k].deep(),
            (up as nat, down as nat) == inbound_sums(es.subrange(0, i as int)),
            up <= i * 0x1_0000_0000_0000_0000,
            down <= i * 0x1_0000_0000_0000_0000,
        decreases arr.len() - i,
    {
        proof {
            reveal_strlit(">>>");
        }
        assert(es.subrange(0, i + 1).drop_last() =~= es.subrange(0, i as int));
        assert(es.subrange(0, i + 1).last() == arr@[i as int].deep());
        assert((i + 1) * 0x1_0000_0000_0000_0000 < 0x1_0000_0000_0000_0000_0000_0000_0000_0000) by (nonlinear_arith)
            requires
                i < arr.len(),
                arr.len() <= usize::MAX,
        ;
        match stat_entry_exec(&arr[i]) {
            Some((name, value)) => {
                let parts = split_str_exec(name, ">>>");
                let ghost ps = parts@.map_values(|x: String| x@);
                if parts.len() == 4 {
                    assert(ps[3] == parts@[3]@);
                    if str_eq(parts[3].as_str(), "uplink") {
                        up = up + value as u128;
                    } else if str_eq(parts[3].as_str(), "downlink") {
                        down = down + value as u128;
                    }
                }
            },
            None => {},
        }
        assert(up <= (i + 1) * 0x1_0000_0000_0000_0000) by (nonlinear_arith)
            requires
                up <= i * 0x1_0000_0000_0000_0000 + 0x1_0000_0000_0000_0000,
        ;
        assert(down <= (i + 1) * 0x1_0000_0000_0000_0000) by (nonlinear_arith)
            requires
                down <= i * 0x1_0000_0000_0000_0000 + 0x1_0000_0000_0000_0000,
        ;
        i = i + 1;
    }
    assert(es.subrange(0, arr.len() as int) =~= es);
    Ok((up, down))
}

/// Sums uplink and downlink over the inbound entries of a `statsquery`
/// answer.
pub fn parse_inbound_stats(json: &str) -> (r: Result<(u64, u64), AppError>)
    requires
        inbound_sums_fit(json@),
    ensures
        match inbound_stats_text(json@) {
            Ok((u, d)) => r matches Ok((x, y)) && x == u && y == d,
            Err(e) => r matches Err(err) && err is Config && err->Config_0@ == e,
        },
{
    match inbound_sums_wide(json) {
        Ok((u, d)) => Ok((u as u64, d as u64)),
        Err(e) => Err(e),
    }
}

/// The totals of an inbound from the output of its `statsquery` command:
/// zeroes where the command failed or its output does not parse, and
/// `None` where the totals do not fit in 64 bits.
pub fn inbound_totals_from_output(out: &CommandOutput) -> (r: Option<(u64, u64)>)
    ensures
        out.exit_code != 0 ==> r == Some((0u64, 0u64)),
        out.exit_code == 0 ==> r == match inbound_stats_text(out.stdout@) {
            Ok((u, d)) => if u <= u64::MAX && d <= u64::MAX {
                Some((u as u64, d as u64))
            } else {
                None
            },
            Err(_) => Some((0u64, 0u64)),
        },
{
    if !out.success() {
        return Some((0, 0));
    }
    match inbound_sums_wide(out.stdout.as_str()) {
        Ok((u, d)) => {
            if u <= u64::MAX as u128 && d <= u64::MAX as u128 {
                match parse_inbound_stats(out.stdout.as_str()) {
                    Ok(x) => Some(x),
                    Err(_) => Some((0, 0)),
                }
            } else {
                None
            }
        },
        Err(_) => Some((0, 0)),
    }
}

/// The command that asks Xray's API for per-user counters.
pub fn user_stats_command() -> (r: String)
    ensures
        r@ == "xray api statsquery --server="@ + NATIVE_API_ADDRESS@ + " -pattern 'user>>>'"@,
{
    let mut c = owned("xray api statsquery --server=");
    push_str(&mut c, NATIVE_API_ADDRESS);
    push_str(&mut c, " -pattern 'user>>>'");
    c
}

/// The command that asks Xray's API for an inbound's counters.
pub fn inbound_stats_command(tag: &str) -> (r: String)
    ensures
        r@ == "xray api statsquery --server="@ + NATIVE_API_ADDRESS@ + " -pattern 'inbound>>>"@ + tag@
            + ">>>'"@,
{
    let mut c = owned("xray api statsquery --server=");
    push_str(&mut c, NATIVE_API_ADDRESS);
    push_str(&mut c, " -pattern 'inbound>>>");
    push_str(&mut c, tag);
    push_str(&mut c, ">>>'");
    c
}

/// What clients need to build a URL for this bridge.
#[derive(Debug, Clone)]
pub struct BridgePublicParams {
    pub port: u16,
    pub sni: String,
    pub short_id: String,
    pub path: String,
    pub public_key: String,
}

/// Port, SNI, short id and path of the bridge config; its port is read as
/// its low 16 bits (an `as u16` cast), 443 where it has none.
pub open spec fn bridge_settings_of(raw: Seq<char>) -> Result<(u16, Seq<char>, Seq<char>, Seq<char>), Seq<char>> {
    match json_parse(raw) {
        Err(e) => Err("parse bridge config: "@ + e),
        Ok(v) => {
            let ib = first_inbound(v);
            let stream = at(ib, "streamSettings"@);
            let reality = at(stream, "realitySettings"@);
            Ok(
                (
                    match at(ib, "port"@) {
                        JsonV::UInt(n) => (n % 65536) as u16,
                        _ => 443u16,
                    },
                    str_or_empty(nth(at(reality, "serverNames"@), 0)),
                    str_or_empty(nth(at(reality, "shortIds"@), 0)),
                    str_or_empty(at(at(stream, "xhttpSettings"@), "path"@)),
                ),
            )
        },
    }
}

/// `j[i]` of an array.
fn nth_exec(j: Option<&Json>, i: usize) -> (r: Option<&Json>)
    ensures
        match r {
            Some(x) => j is Some && x.deep() == nth(j->0.deep(), i as int),
            None => j is None || nth(j->0.deep(), i as int) == JsonV::Null,
        },
{
    match j {
        Some(v) => match v.as_array() {
            Some(a) => {
                proof {
                    lemma_deep_seq(a@);
                }
                if i < a.len() {
                    Some(&a[i])
                } else {
                    None
                }
            },
            None => None,
        },
        None => None,
    }
}

fn get_opt<'a>(j: Option<&'a Json>, key: &str) -> (r: Option<&'a Json>)
    ensures
        match r {
            Some(x) => j is Some && x.deep() == at(j->0.deep(), key@),
            None => j is None || at(j->0.deep(), key@) == JsonV::Null,
        },
{
    match j {
        Some(v) => v.get(key),
        None => None,
    }
}

fn string_at(j: Option<&Json>) -> (r: String)
    ensures
        r@ == match j {
            Some(x) => str_or_empty(x.deep()),
            None => Seq::empty(),
        },
{
    match j {
        Some(v) => match v.as_str() {
            Some(s) => owned(s),
            None => new_string(),
        },
        None => new_string(),
    }
}

/// Reads port, SNI, short id and path from the bridge config.
pub fn bridge_settings(raw: &str) -> (r: Result<(u16, String, String, String), AppError>)
    ensures
        match bridge_settings_of(raw@) {
            Ok((p, a, b, c)) => r matches Ok((x, y, z, w)) && x == p && y@ == a && z@ == b && w@ == c,
            Err(e) => r matches Err(err) && err is Config && err->Config_0@ == e,
        },
{
    let v = match parse_json(raw) {
        Ok(v) => v,
        Err(e) => {
            let mut m = owned("parse bridge config: ");
            push_str(&mut m, e.as_str());
            return Err(AppError::Config(m));
        },
    };
    let ib = nth_exec(v.get("inbounds"), 0);
    let stream = get_opt(ib, "streamSettings");
    let reality = get_opt(stream, "realitySettings");
    let port: u16 = match get_opt(ib, "port") {
        Some(p) => match p.as_u64() {
            Some(n) => (n % 65536) as u16,
            None => 443,
        },
        None => 443,
    };
    let sni = string_at(nth_exec(get_opt(reality, "serverNames"), 0));
    let short_id = string_at(nth_exec(get_opt(reality, "shortIds"), 0));
    let path = string_at(get_opt(get_opt(stream, "xhttpSettings"), "path"));
    Ok((port, sni, short_id, path))
}

/// The Reality public key from the output of reading its file.
pub fn bridge_public_key(out: &CommandOutput) -> (r: Result<String, AppError>)
    ensures
        out.exit_code != 0 ==> (r matches Err(e) && e is Config && e->Config_0@ == "read reality public key at "@
            + NATIVE_REALITY_PUBKEY_PATH@ + ": "@ + out.stderr@
            + "\nDuring bridge setup, run: echo <pubkey> | sudo tee "@ + NATIVE_REALITY_PUBKEY_PATH@),
        out.exit_code == 0 && trim(out.stdout@).len() == 0 ==> (r matches Err(e) && e is Config
            && e->Config_0@ == "reality public key file "@ + NATIVE_REALITY_PUBKEY_PATH@ + " is empty"@),
        out.exit_code == 0 && trim(out.stdout@).len() > 0 ==> (r matches Ok(k) && k@ == trim(out.stdout@)),
{
    if !out.success() {
        let mut m = owned("read reality public key at ");
        push_str(&mut m, NATIVE_REALITY_PUBKEY_PATH);
        push_str(&mut m, ": ");
        push_str(&mut m, out.stderr.as_str());
        push_str(&mut m, "\nDuring bridge setup, run: echo <pubkey> | sudo tee ");
        push_str(&mut m, NATIVE_REALITY_PUBKEY_PATH);
        return Err(AppError::Config(m));
    }
    let key = trim_str(out.stdout.as_str());
    if key.as_str().unicode_len() == 0 {
        let mut m = owned("reality public key file ");
        push_str(&mut m, NATIVE_REALITY_PUBKEY_PATH);
        push_str(&mut m, " is empty");
        return Err(AppError::Config(m));
    }
    Ok(key)
}

/// The command that prints the Reality public key.
pub fn read_public_key_command() -> (r: String)
    ensures
        r@ == "sudo cat "@ + NATIVE_REALITY_PUBKEY_PATH@,
{
    let mut c = owned("sudo cat ");
    push_str(&mut c, NATIVE_REALITY_PUBKEY_PATH);
    c
}

// ---- adding a client -------------------------------------------------------------

/// How far the adding of a client has got.
#[derive(Debug, Clone, Copy, PartialEq, Eq)]
pub enum AddStage {
    /// The read of the config, for the clients it has.
    List,
    /// The edit that appends the client.
    Add,
    Finished,
}

/// The adding of a client to the bridge: its name is checked, the config
/// read for a client of that email, and a client with a fresh random id
/// appended. Xray is not reloaded.
#[derive(Debug)]
pub struct AddClient {
    pub name: String,
    pub stage: AddStage,
    pub uuid: String,
    pub email: String,
}

/// The command that reads the bridge config.
pub open spec fn read_config_cmd() -> Seq<char> {
    "sudo cat "@ + NATIVE_CONFIG_PATH@
}

impl AddClient {
    /// Starts adding a client named `name`: a name that is not fit fails at
    /// once, as `validate_name` says; else the config is read first.
    pub fn start(name: &str) -> (r: Result<(AddClient, Next), AppError>)
        ensures
            match r {
                Ok((m, n)) => name_ok(name@) && m.name@ == name@ && m.stage == AddStage::List && next_is(
                    n,
                    Want::Run(Target::Host, read_config_cmd()),
                ),
                Err(e) => !name_ok(name@) && e is Config,
            },
    {
        match validate_name(name) {
            Err(e) => Err(e),
            Ok(()) => Ok(
                (
                    AddClient { name: owned(name), stage: AddStage::List, uuid: new_string(), email: new_string() },
                    Next::Run(Target::Host, read_config_command()),
                ),
            ),
        }
    }

    /// Takes the outcome of the last command and says what comes next.
    /// Once the clients are known, a name whose email is taken fails; else
    /// the append runs with a fresh random version-4 UUID (which one is not
    /// stated, its shape is) and the email `<name>@vpn`.
    pub fn step(&mut self, ev: Result<CommandOutput, AppError>) -> (r: Next)
        requires
            old(self).stage == AddStage::List ==> name_ok(old(self).name@),
        ensures
            final(self).name@ == old(self).name@,
            final(self).stage != AddStage::List,
            ev matches Err(e) ==> (final(self).stage == AddStage::Finished && (old(self).stage == AddStage::Finished
                || r == Next::Fail(e))),
            old(self).stage == AddStage::List ==> match ev {
                Err(_) => true,
                Ok(o) => match clients_from(o) {
                    Err(m) => final(self).stage == AddStage::Finished && next_is(r, Want::Config(m)),
                    Ok(cs) => if has_email(cs, vpn_email(old(self).name@)) {
                        final(self).stage == AddStage::Finished && next_is(
                            r,
                            Want::Config("user '"@ + old(self).name@ + "' already exists"@),
                        )
                    } else {
                        &&& final(self).stage == AddStage::Add
                        &&& uuid_v4_text(final(self).uuid@)
                        &&& final(self).email@ == vpn_email(old(self).name@)
                        &&& next_is(r, Want::Run(Target::Host, add_client_command_text(final(self).uuid@, final(self).email@)))
                    },
                },
            },
            old(self).stage == AddStage::Add ==> final(self).uuid@ == old(self).uuid@ && final(self).email@ == old(
                self,
            ).email@ && match ev {
                Err(_) => true,
                Ok(o) => final(self).stage == AddStage::Finished && if o.exit_code == 0 {
                    r is Finish
                } else {
                    next_is(r, Want::Config(failed_msg("add client"@, o)))
                },
            },
            old(self).stage == AddStage::Finished ==> (final(self).stage == AddStage::Finished && r is Finish),
    {
        let st = self.stage;
        let o = match ev {
            Err(e) => {
                self.stage = AddStage::Finished;
                return match st {
                    AddStage::Finished => Next::Finish,
                    _ => Next::Fail(e),
                };
            },
            Ok(o) => o,
        };
        match st {
            AddStage::List => {
                self.stage = AddStage::Finished;
                let existing = match clients_from_output(&o) {
                    Ok(cs) => cs,
                    Err(e) => return Next::Fail(e),
                };
                let email = match check_new_client(self.name.as_str(), &existing) {
                    Ok(e) => e,
                    Err(e) => return Next::Fail(e),
                };
                let uuid = new_client_uuid();
                let cmd = add_client_command(uuid.as_str(), email.as_str());
                self.uuid = uuid;
                self.email = email;
                self.stage = AddStage::Add;
                Next::Run(Target::Host, cmd)
            },
            AddStage::Add => {
                self.stage = AddStage::Finished;
                if !o.success() {
                    Next::Fail(failure("add client", &o))
                } else {
                    Next::Finish
                }
            },
            AddStage::Finished => Next::Finish,
        }
    }

    /// The client added: its id and email.
    pub fn entry(&self) -> (r: ClientEntry)
        ensures
            r.uuid@ == self.uuid@,
            r.email@ == self.email@,
    {
        ClientEntry { uuid: owned(self.uuid.as_str()), email: owned(self.email.as_str()) }
    }
}

// ---- the bridge's public parameters --------------------------------------------------

/// How far reading the bridge's public parameters has got.
#[derive(Debug, Clone, Copy, PartialEq, Eq)]
pub enum ParamsStage {
    /// The read of the config.
    Config,
    /// The read of the Reality public key.
    Key,
    Finished,
}

/// The reading of what clients need to build a URL for this bridge: port,
/// SNI, short id and path from its config, and the Reality public key from
/// its own file.
#[derive(Debug)]
pub struct BridgeParams {
    pub stage: ParamsStage,
    pub port: u16,
    pub sni: String,
    pub short_id: String,
    pub path: String,
    pub public_key: String,
}

/// The command that reads the Reality public key.
pub open spec fn read_public_key_cmd() -> Seq<char> {
    "sudo cat "@ + NATIVE_REALITY_PUBKEY_PATH@
}

impl BridgeParams {
    /// Starts reading the parameters: first the config.
    pub fn start() -> (r: (BridgeParams, Next))
        ensures
            r.0.stage == ParamsStage::Config,
            next_is(r.1, Want::Run(Target::Host, read_config_cmd())),
    {
        (
            BridgeParams {
                stage: ParamsStage::Config,
                port: 0,
                sni: new_string(),
                short_id: new_string(),
                path: new_string(),
                public_key: new_string(),
            },
            Next::Run(Target::Host, read_config_command()),
        )
    }

    /// Takes the outcome of the last command and says what comes next.
    pub fn step(&mut self, ev: Result<CommandOutput, AppError>) -> (r: Next)
        ensures
            ev matches Err(e) ==> (final(self).stage == ParamsStage::Finished && (old(self).stage
                == ParamsStage::Finished || r == Next::Fail(e))),
            old(self).stage == ParamsStage::Config ==> match ev {
                Err(_) => true,
                Ok(o) => if o.exit_code != 0 {
                    final(self).stage == ParamsStage::Finished && next_is(
                        r,
                        Want::Config(failed_msg("read bridge config"@, o)),
                    )
                } else {
                    match bridge_settings_of(o.stdout@) {
                        Err(m) => final(self).stage == ParamsStage::Finished && next_is(r, Want::Config(m)),
                        Ok((p, sni, sid, path)) => {
                            &&& final(self).stage == ParamsStage::Key
                            &&& final(self).port == p
                            &&& final(self).sni@ == sni
                            &&& final(self).short_id@ == sid
                            &&& final(self).path@ == path
                            &&& next_is(r, Want::Run(Target::Host, read_public_key_cmd()))
                        },
                    }
                },
            },
            old(self).stage == ParamsStage::Key ==> {
                &&& final(self).port == old(self).port
                &&& final(self).sni@ == old(self).sni@
                &&& final(self).short_id@ == old(self).short_id@
                &&& final(self).path@ == old(self).path@
                &&& final(self).stage == ParamsStage::Finished
                &&& match ev {
                    Err(_) => true,
                    Ok(o) => if o.exit_code != 0 {
                        r matches Next::Fail(AppError::Config(m)) && m@ == "read reality public key at "@
                            + NATIVE_REALITY_PUBKEY_PATH@ + ": "@ + o.stderr@
                            + "\nDuring bridge setup, run: echo <pubkey> | sudo tee "@ + NATIVE_REALITY_PUBKEY_PATH@
                    } else if trim(o.stdout@).len() == 0 {
                        r matches Next::Fail(AppError::Config(m)) && m@ == "reality public key file "@
                            + NATIVE_REALITY_PUBKEY_PATH@ + " is empty"@
                    } else {
                        r is Finish && final(self).public_key@ == trim(o.stdout@)
                    },
                }
            },
            old(self).stage == ParamsStage::Finished ==> (final(self).stage == ParamsStage::Finished && r is Finish),
    {
        let st = self.stage;
        let o = match ev {
            Err(e) => {
                self.stage = ParamsStage::Finished;
                return match st {
                    ParamsStage::Finished => Next::Finish,
                    _ => Next::Fail(e),
                };
            },
            Ok(o) => o,
        };
        match st {
            ParamsStage::Config => {
                self.stage = ParamsStage::Finished;
                if !o.success() {
                    return Next::Fail(failure("read bridge config", &o));
                }
                match bridge_settings(o.stdout.as_str()) {
                    Err(e) => Next::Fail(e),
                    Ok((port, sni, short_id, path)) => {
                        self.port = port;
                        self.sni = sni;
                        self.short_id = short_id;
                        self.path = path;
                        self.stage = ParamsStage::Key;
                        Next::Run(Target::Host, read_public_key_command())
                    },
                }
            },
            ParamsStage::Key => {
                self.stage = ParamsStage::Finished;
                match bridge_public_key(&o) {
                    Err(e) => Next::Fail(e),
                    Ok(k) => {
                        self.public_key = k;
                        Next::Finish
                    },
                }
            },
            ParamsStage::Finished => Next::Finish,
        }
    }

    /// The parameters read.
    pub fn params(&self) -> (r: BridgePublicParams)
        ensures
            r.port == self.port,
            r.sni@ == self.sni@,
            r.short_id@ == self.short_id@,
            r.path@ == self.path@,
            r.public_key@ == self.public_key@,
    {
        BridgePublicParams {
            port: self.port,
            sni: owned(self.sni.as_str()),
            short_id: owned(self.short_id.as_str()),
            path: owned(self.path.as_str()),
            public_key: owned(self.public_key.as_str()),
        }
    }
}

} // verus!
