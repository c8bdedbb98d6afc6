//! Texts of the bot's replies and the check of a new user's name.

use vstd::prelude::*;

use crate::text::{
    chars_contain, chars_of, contains_seq, dec, is_ctrl, new_string, owned, push_char, push_dec, push_str, trim,
    trim_str, utf8_len, utf8_len_capped, char_is_ctrl,
};
use crate::ui::dashboard::{bytes_text, format_bytes, truncate_uuid};
use crate::text::byte_prefix;
use crate::xray::types::{TrafficStats, XrayUser};

verus! {

/// What `/status` reports of the running Xray.
#[derive(Debug, Clone, Default)]
pub struct ServerInfo {
    pub version: String,
    pub uplink: u64,
    pub downlink: u64,
}

/// `lines` joined with newlines.
pub open spec fn join_lines(lines: Seq<Seq<char>>) -> Seq<char>
    decreases lines.len(),
{
    if lines.len() == 0 {
        Seq::empty()
    } else if lines.len() == 1 {
        lines[0]
    } else {
        join_lines(lines.drop_last()) + "\n"@ + lines.last()
    }
}

/// Appends `line` to text that holds `join_lines(lines)`.
pub fn push_line(s: &mut String, first: bool, line: &str)
    ensures
        final(s)@ == if first { old(s)@ + line@ } else { old(s)@ + "\n"@ + line@ },
{
    if !first {
        push_str(s, "\n");
    }
    push_str(s, line);
}

pub proof fn lemma_join_push(lines: Seq<Seq<char>>, l: Seq<char>)
    ensures
        join_lines(lines.push(l)) == if lines.len() == 0 {
            l
        } else {
            join_lines(lines) + "\n"@ + l
        },
{
    assert(lines.push(l).drop_last() =~= lines);
}

/// A duration as `Xd Yh Zm`, `Yh Zm` or `Zm`.
pub open spec fn uptime_text(seconds: nat) -> Seq<char> {
    let days = seconds / 86400;
    let hours = (seconds % 86400) / 3600;
    let minutes = (seconds % 3600) / 60;
    if days > 0 {
        dec(days) + "d "@ + dec(hours) + "h "@ + dec(minutes) + "m"@
    } else if hours > 0 {
        dec(hours) + "h "@ + dec(minutes) + "m"@
    } else {
        dec(minutes) + "m"@
    }
}

/// Formats an uptime in seconds.
pub fn format_uptime(seconds: u64) -> (r: String)
    ensures
        r@ == uptime_text(seconds as nat),
{
    let days = seconds / 86_400;
    let hours = (seconds % 86_400) / 3600;
    let minutes = (seconds % 3600) / 60;
    let mut s = new_string();
    if days > 0 {
        push_dec(&mut s, days);
        push_str(&mut s, "d ");
        push_dec(&mut s, hours);
        push_str(&mut s, "h ");
    } else if hours > 0 {
        push_dec(&mut s, hours);
        push_str(&mut s, "h ");
    }
    push_dec(&mut s, minutes);
    push_str(&mut s, "m");
    s
}

/// The reply to `/help`.
pub open spec fn help_lines() -> Seq<Seq<char>> {
    seq![
        "Available commands:"@,
        "/start - Show welcome message"@,
        "/help - Show this help message"@,
        "/users - List users with stats"@,
        "/add <name> - Add a new user"@,
        "/delete <name> - Delete a user"@,
        "/url <name> - Get vless:// URL"@,
        "/qr <name> - Get QR code image"@,
        "/status - Server info + online users"@,
    ]
}

/// Text made of the given lines.
fn lines_text(lines: &Vec<&str>) -> (r: String)
    ensures
        r@ == join_lines(Seq::new(lines.len() as nat, |i: int| lines@[i]@)),
{
    let mut s = new_string();
    let mut i: usize = 0;
    let ghost all = Seq::new(lines.len() as nat, |i: int| lines@[i]@);
    while i < lines.len()
        invariant
            i <= lines.len(),
            all == Seq::new(lines.len() as nat, |i: int| lines@[i]@),
            s@ == join_lines(all.subrange(0, i as int)),
        decreases lines.len() - i,
    {
        push_line(&mut s, i == 0, lines[i]);
        proof {
            lemma_join_push(all.subrange(0, i as int), all[i as int]);
            assert(all.subrange(0, i + 1) =~= all.subrange(0, i as int).push(all[i as int]));
        }
        i = i + 1;
    }
    assert(all.subrange(0, lines.len() as int) =~= all);
    s
}

/// The text of `/help`.
pub fn help_text() -> (r: String)
    ensures
        r@ == join_lines(help_lines()),
{
    let v: Vec<&str> = vec![
        "Available commands:",
        "/start - Show welcome message",
        "/help - Show this help message",
        "/users - List users with stats",
        "/add <name> - Add a new user",
        "/delete <name> - Delete a user",
        "/url <name> - Get vless:// URL",
        "/qr <name> - Get QR code image",
        "/status - Server info + online users",
    ];
    let r = lines_text(&v);
    assert(Seq::new(v.len() as nat, |i: int| v@[i]@) =~= help_lines());
    r
}

/// The text of `/start` for the admin.
pub fn welcome_text() -> (r: String)
    ensures
        r@ == join_lines(seq!["Welcome, admin!"@, ""@, "Use /help to see available commands."@]),
{
    let v: Vec<&str> = vec!["Welcome, admin!", "", "Use /help to see available commands."];
    let r = lines_text(&v);
    assert(Seq::new(v.len() as nat, |i: int| v@[i]@) =~= seq![
        "Welcome, admin!"@,
        ""@,
        "Use /help to see available commands."@,
    ]);
    r
}

/// The reply to anyone but the admin.
pub fn access_denied_text() -> (r: String)
    ensures
        r@ == "Access denied. Contact the server administrator."@,
{
    owned("Access denied. Contact the server administrator.")
}

/// The name a user is listed under: its name, or the first 8 bytes of its
/// id where it has none.
pub open spec fn listed_name(u: XrayUser) -> Seq<char> {
    if u.name@.len() == 0 {
        byte_prefix(u.uuid@, 8)
    } else {
        u.name@
    }
}

/// Where an unnamed user's id is cut after 8 bytes, that falls between two
/// characters (the listing slices the id there).
pub open spec fn id_cut_ok(u: XrayUser) -> bool {
    u.name@.len() == 0 && utf8_len(u.uuid@) > 8 ==> exists|k: int|
        0 <= k <= u.uuid@.len() && #[trigger] crate::text::prefix_bytes(u.uuid@, k) == 8
}

/// One line of the `/users` reply.
pub open spec fn user_line(u: XrayUser, st: TrafficStats, online: u32) -> Seq<char> {
    let ind = if online > 0 {
        "🟢 "@ + dec(online as nat)
    } else {
        "⚪"@
    };
    ind + " "@ + listed_name(u) + " ↑"@ + bytes_text(st.uplink as nat) + " ↓"@ + bytes_text(
        st.downlink as nat,
    )
}

/// The `/users` reply.
pub open spec fn users_text(users: Seq<(XrayUser, TrafficStats, u32)>) -> Seq<char> {
    if users.len() == 0 {
        "No users found."@
    } else {
        "👥 Users:\n"@ + Seq::new(users.len(), |i: int| "\n"@ + user_line(users[i].0, users[i].1, users[i].2)).flatten()
    }
}

/// Formats the `/users` reply: one line per user with its traffic.
pub fn format_users_message(users: &Vec<(XrayUser, TrafficStats, u32)>) -> (r: String)
    requires
        forall|i: int| 0 <= i < users.len() ==> id_cut_ok(#[trigger] users@[i].0),
    ensures
        r@ == users_text(users@),
{
    if users.len() == 0 {
        return owned("No users found.");
    }
    let mut s = owned("👥 Users:\n");
    let ghost parts = Seq::new(users@.len(), |i: int| "\n"@ + user_line(users@[i].0, users@[i].1, users@[i].2));
    let mut i: usize = 0;
    while i < users.len()
        invariant
            i <= users.len(),
            parts == Seq::new(users@.len(), |i: int| "\n"@ + user_line(users@[i].0, users@[i].1, users@[i].2)),
            s@ == "👥 Users:\n"@ + parts.subrange(0, i as int).flatten(),
            forall|i: int| 0 <= i < users.len() ==> id_cut_ok(#[trigger] users@[i].0),
        decreases users.len() - i,
    {
        let (user, stats, online) = (&users[i].0, &users[i].1, users[i].2);
        let ghost before = s@;
        push_str(&mut s, "\n");
        if online > 0 {
            push_str(&mut s, "🟢 ");
            push_dec(&mut s, online as u64);
        } else {
            push_str(&mut s, "⚪");
        }
        push_str(&mut s, " ");
        if chars_of(user.name.as_str()).len() == 0 {
            let t = truncate_uuid(user.uuid.as_str());
            push_str(&mut s, t.as_str());
        } else {
            push_str(&mut s, user.name.as_str());
        }
        push_str(&mut s, " ↑");
        let up = format_bytes(stats.uplink);
        push_str(&mut s, up.as_str());
        push_str(&mut s, " ↓");
        let down = format_bytes(stats.downlink);
        push_str(&mut s, down.as_str());
        proof {
            assert(s@ =~= before + parts[i as int]);
            assert(parts.subrange(0, i + 1) =~= parts.subrange(0, i as int).push(parts[i as int]));
            parts.subrange(0, i as int).lemma_flatten_push(parts[i as int]);
        }
        i = i + 1;
    }
    assert(parts.subrange(0, users.len() as int) =~= parts);
    s
}

/// `s` with `&`, `<` and `>` written as HTML entities.
pub open spec fn html_esc(s: Seq<char>) -> Seq<char>
    decreases s.len(),
{
    if s.len() == 0 {
        Seq::empty()
    } else {
        let c = s.last();
        html_esc(s.drop_last()) + if c == '&' {
            "&amp;"@
        } else if c == '<' {
            "&lt;"@
        } else if c == '>' {
            "&gt;"@
        } else {
            seq![c]
        }
    }
}

/// Escapes text for Telegram's HTML mode.
pub fn html_escape(s: &str) -> (r: String)
    ensures
        r@ == html_esc(s@),
{
    let v = chars_of(s);
    let mut out = new_string();
    let mut i: usize = 0;
    while i < v.len()
        invariant
            i <= v.len(),
            v@ == s@,
            out@ == html_esc(v@.subrange(0, i as int)),
        decreases v.len() - i,
    {
        let c = v[i];
        if c == '&' {
            push_str(&mut out, "&amp;");
        } else if c == '<' {
            push_str(&mut out, "&lt;");
        } else if c == '>' {
            push_str(&mut out, "&gt;");
        } else {
            push_char(&mut out, c);
        }
        assert(v@.subrange(0, i + 1).drop_last() =~= v@.subrange(0, i as int));
        i = i + 1;
    }
    assert(v@.subrange(0, v.len() as int) =~= v@);
    out
}

/// The reply to a successful `/add`, in HTML mode.
pub open spec fn add_text(name: Seq<char>, uuid: Seq<char>, url: Seq<char>) -> Seq<char> {
    "✅ User '"@ + html_esc(name) + "' added.\n\nUUID: <code>"@ + html_esc(uuid)
        + "</code>\nURL: <code>"@ + html_esc(url) + "</code>"@
}

pub fn format_add_message(name: &str, uuid: &str, vless_url: &str) -> (r: String)
    ensures
        r@ == add_text(name@, uuid@, vless_url@),
{
    let mut s = owned("✅ User '");
    push_str(&mut s, html_escape(name).as_str());
    push_str(&mut s, "' added.\n\nUUID: <code>");
    push_str(&mut s, html_escape(uuid).as_str());
    push_str(&mut s, "</code>\nURL: <code>");
    push_str(&mut s, html_escape(vless_url).as_str());
    push_str(&mut s, "</code>");
    s
}

pub fn format_delete_confirm_message(name: &str) -> (r: String)
    ensures
        r@ == "⚠️ Delete user '"@ + name@ + "'?\n\nThis will revoke their access immediately."@,
{
    let mut s = owned("⚠️ Delete user '");
    push_str(&mut s, name);
    push_str(&mut s, "'?\n\nThis will revoke their access immediately.");
    s
}

pub fn format_delete_success_message(name: &str) -> (r: String)
    ensures
        r@ == "🗑 User '"@ + name@ + "' deleted."@,
{
    let mut s = owned("🗑 User '");
    push_str(&mut s, name);
    push_str(&mut s, "' deleted.");
    s
}

/// Why a name cannot be given to a new user, if it cannot.
pub open spec fn name_problem(name: Seq<char>) -> Option<Seq<char>> {
    let t = trim(name);
    if t.len() == 0 {
        Some("Usage: /add <name>"@)
    } else if utf8_len(t) > 50 {
        Some("Name too long (max 50 bytes)."@)
    } else if exists|i: int| 0 <= i < t.len() && is_ctrl(#[trigger] t[i]) {
        Some("Name must not contain control characters."@)
    } else if contains_seq(t, "@"@) || contains_seq(t, ">>>"@) {
        Some("Name must not contain '@' or '>>>'."@)
    } else {
        None
    }
}

/// Checks a name for `/add`; the reason it is refused, or `None`.
pub fn validate_user_name(name: &str) -> (r: Option<String>)
    ensures
        match r {
            Some(m) => name_problem(name@) == Some(m@),
            None => name_problem(name@) is None,
        },
{
    let t = trim_str(name);
    let v = chars_of(t.as_str());
    if v.len() == 0 {
        return Some(owned("Usage: /add <name>"));
    }
    if utf8_len_capped(&v, 51) > 50 {
        return Some(owned("Name too long (max 50 bytes)."));
    }
    let mut i: usize = 0;
    while i < v.len()
        invariant
            i <= v.len(),
            v@ == trim(name@),
            v.len() > 0,
            utf8_len(v@) <= 50,
            forall|k: int| 0 <= k < i ==> !is_ctrl(#[trigger] v@[k]),
        decreases v.len() - i,
    {
        if char_is_ctrl(v[i]) {
            assert(is_ctrl(v@[i as int]));
            return Some(owned("Name must not contain control characters."));
        }
        i = i + 1;
    }
    if chars_contain(&v, "@") || chars_contain(&v, ">>>") {
        return Some(owned("Name must not contain '@' or '>>>'."));
    }
    None
}

/// The version line of `/status`.
pub open spec fn version_line(current: Seq<char>, latest: Option<Seq<char>>) -> Seq<char> {
    match latest {
        Some(l) => if l != current {
            "Xray: v"@ + current + " (⬆️ v"@ + l + " available)"@
        } else {
            "Xray: v"@ + current + " ✅"@
        },
        None => "Xray: v"@ + current,
    }
}

/// The `/status` reply.
pub open spec fn status_text(
    info_version: Seq<char>,
    up: nat,
    down: nat,
    users: nat,
    online: nat,
    uptime: Seq<char>,
    latest: Option<Seq<char>>,
) -> Seq<char> {
    "📊 Server Status:\n\n"@ + version_line(info_version, latest) + (if uptime.len() > 0 {
        "\nUptime: "@ + uptime
    } else {
        Seq::empty()
    }) + "\nUsers: "@ + dec(users) + " ("@ + dec(online) + " online)\nUpload: "@ + bytes_text(up)
        + "\nDownload: "@ + bytes_text(down)
}

pub fn format_status_message(
    server_info: &ServerInfo,
    user_count: usize,
    online_count: usize,
    uptime: &str,
    latest_version: Option<&str>,
) -> (r: String)
    ensures
        r@ == status_text(
            server_info.version@,
            server_info.uplink as nat,
            server_info.downlink as nat,
            user_count as nat,
            online_count as nat,
            uptime@,
            match latest_version {
                Some(l) => Some(l@),
                None => None,
            },
        ),
{
    let mut s = owned("📊 Server Status:\n\n");
    push_str(&mut s, "Xray: v");
    push_str(&mut s, server_info.version.as_str());
    match latest_version {
        Some(latest) => {
            if !crate::text::str_eq(latest, server_info.version.as_str()) {
                push_str(&mut s, " (⬆️ v");
                push_str(&mut s, latest);
                push_str(&mut s, " available)");
            } else {
                push_str(&mut s, " ✅");
            }
        },
        None => {},
    }
    let ghost lv = match latest_version {
        Some(l) => Some(l@),
        None => None,
    };
    assert(s@ =~= "📊 Server Status:\n\n"@ + version_line(server_info.version@, lv));
    let ghost head = s@;
    if uptime.unicode_len() > 0 {
        push_str(&mut s, "\nUptime: ");
        push_str(&mut s, uptime);
    }
    assert(s@ =~= head + (if uptime@.len() > 0 {
        "\nUptime: "@ + uptime@
    } else {
        Seq::empty()
    }));
    push_str(&mut s, "\nUsers: ");
    push_dec(&mut s, user_count as u64);
    push_str(&mut s, " (");
    push_dec(&mut s, online_count as u64);
    push_str(&mut s, " online)\nUpload: ");
    push_str(&mut s, format_bytes(server_info.uplink).as_str());
    push_str(&mut s, "\nDownload: ");
    push_str(&mut s, format_bytes(server_info.downlink).as_str());
    s
}

/// The reply to `/url`, in HTML mode.
pub fn format_url_message(name: &str, vless_url: &str) -> (r: String)
    ensures
        r@ == "🔗 "@ + html_esc(name@) + " URL:\n\n<code>"@ + html_esc(vless_url@) + "</code>"@,
{
    let mut s = owned("🔗 ");
    push_str(&mut s, html_escape(name).as_str());
    push_str(&mut s, " URL:\n\n<code>");
    push_str(&mut s, html_escape(vless_url).as_str());
    push_str(&mut s, "</code>");
    s
}

} // verus!
