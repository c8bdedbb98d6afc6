//! The Telegram bot: its replies, keyboards and the decisions it takes on
//! commands and button presses.

pub mod format;
pub mod handlers;
pub mod keyboards;

use vstd::prelude::*;

use crate::error::{error_detail, error_prefix, AppError};
use crate::telegram::format::{
    access_denied_text, help_lines, help_text, join_lines, name_problem, validate_user_name,
    welcome_text,
};
use crate::telegram::keyboards::{
    empty_keyboard_text, format_empty_keyboard_message, format_selection_message, selection_text,
    UserKeyboardResult,
};
use crate::text::{owned, push_str, starts_with, strip_prefix_str, trim, trim_str, utf8_len};

verus! {

/// Data prefix of the buttons that ask for a user's URL.
pub const URL_PREFIX: &'static str = "url:";

/// Data prefix of the buttons that ask for a user's QR code.
pub const QR_PREFIX: &'static str = "qr:";

/// Data prefix of the buttons that choose a user to delete.
pub const DELETE_PREFIX: &'static str = "delete:";

/// Data prefix of the button that confirms a deletion.
pub const DELETE_CONFIRM_PREFIX: &'static str = "delete_confirm:";

/// Data prefix of the button that cancels a deletion.
pub const DELETE_CANCEL_PREFIX: &'static str = "delete_cancel:";

/// The bot's commands.
#[derive(Debug, Clone)]
pub enum Command {
    Start,
    Help,
    Users,
    Status,
    Add(String),
    Delete(String),
    Url(String),
    Qr(String),
}

/// The commands the bot offers, each with its description, in the order
/// they are listed to the admin.
pub open spec fn command_list() -> Seq<(Seq<char>, Seq<char>)> {
    seq![
        ("start"@, "Welcome message"@),
        ("help"@, "Show help"@),
        ("users"@, "List users with stats"@),
        ("status"@, "Server info + online users"@),
        ("add"@, "Add a new user: /add <name>"@),
        ("delete"@, "Delete a user: /delete <name>"@),
        ("url"@, "Get vless:// URL: /url <name>"@),
        ("qr"@, "Get QR code: /qr <name>"@),
    ]
}

impl Command {
    /// The commands with their descriptions, as registered with Telegram.
    pub fn bot_commands() -> (r: Vec<(String, String)>)
        ensures
            r@.map_values(|p: (String, String)| (p.0@, p.1@)) == command_list(),
    {
        let v: Vec<(String, String)> = vec![
            (owned("start"), owned("Welcome message")),
            (owned("help"), owned("Show help")),
            (owned("users"), owned("List users with stats")),
            (owned("status"), owned("Server info + online users")),
            (owned("add"), owned("Add a new user: /add <name>")),
            (owned("delete"), owned("Delete a user: /delete <name>")),
            (owned("url"), owned("Get vless:// URL: /url <name>")),
            (owned("qr"), owned("Get QR code: /qr <name>")),
        ];
        assert(v@.map_values(|p: (String, String)| (p.0@, p.1@)) =~= command_list());
        v
    }
}

/// What a user is chosen for with a keyboard.
#[derive(Debug, Clone, Copy, PartialEq, Eq)]
pub enum Choice {
    Delete,
    Url,
    Qr,
}

/// What to do for a command.
#[derive(Debug)]
pub enum CommandPlan {
    /// Send this text.
    Reply(String),
    /// List the users with their traffic.
    ListUsers,
    /// Report the server's status.
    ShowStatus,
    /// Add a user of this (checked) name.
    AddUser(String),
    /// Offer a keyboard of users to choose from.
    ChooseUser(Choice),
    /// Ask to confirm deleting this user.
    ConfirmDelete(String),
    /// Send this user's URL.
    SendUrl(String),
    /// Send this user's QR code.
    SendQr(String),
}

/// Whether a chat is the configured admin's.
pub open spec fn admin_chat(admin: Option<i64>, chat_id: i64) -> bool {
    admin == Some(chat_id)
}

pub fn is_admin(admin: Option<i64>, chat_id: i64) -> (r: bool)
    ensures
        r == admin_chat(admin, chat_id),
{
    match admin {
        Some(a) => a == chat_id,
        None => false,
    }
}

/// The view of a plan: its kind, its text or name, and its choice.
pub open spec fn plan_view(p: CommandPlan) -> (nat, Seq<char>, Option<Choice>) {
    match p {
        CommandPlan::Reply(t) => (0, t@, None),
        CommandPlan::ListUsers => (1, Seq::empty(), None),
        CommandPlan::ShowStatus => (2, Seq::empty(), None),
        CommandPlan::AddUser(n) => (3, n@, None),
        CommandPlan::ChooseUser(c) => (4, Seq::empty(), Some(c)),
        CommandPlan::ConfirmDelete(n) => (5, n@, None),
        CommandPlan::SendUrl(n) => (6, n@, None),
        CommandPlan::SendQr(n) => (7, n@, None),
    }
}

/// What a command asks for, from whom: `/start` is answered to anyone
/// (welcome or refusal), every other command only to the admin; a command
/// that names a user without a name offers a keyboard.
pub open spec fn command_plan(cmd: Command, admin: Option<i64>, chat_id: i64) -> (nat, Seq<char>, Option<Choice>) {
    let welcome = join_lines(seq!["Welcome, admin!"@, ""@, "Use /help to see available commands."@]);
    let denied = "Access denied. Contact the server administrator."@;
    if !admin_chat(admin, chat_id) {
        (0, denied, None)
    } else {
        match cmd {
            Command::Start => (0, welcome, None),
            Command::Help => (0, join_lines(help_lines()), None),
            Command::Users => (1, Seq::empty(), None),
            Command::Status => (2, Seq::empty(), None),
            Command::Add(n) => match name_problem(trim(n@)) {
                Some(m) => (0, m, None),
                None => (3, trim(n@), None),
            },
            Command::Delete(n) => if trim(n@).len() == 0 {
                (4, Seq::empty(), Some(Choice::Delete))
            } else {
                (5, trim(n@), None)
            },
            Command::Url(n) => if trim(n@).len() == 0 {
                (4, Seq::empty(), Some(Choice::Url))
            } else {
                (6, trim(n@), None)
            },
            Command::Qr(n) => if trim(n@).len() == 0 {
                (4, Seq::empty(), Some(Choice::Qr))
            } else {
                (7, trim(n@), None)
            },
        }
    }
}

/// Decides what to do for a command from a chat.
pub fn plan_command(cmd: &Command, admin: Option<i64>, chat_id: i64) -> (r: CommandPlan)
    ensures
        plan_view(r) == command_plan(*cmd, admin, chat_id),
{
    if !is_admin(admin, chat_id) {
        return CommandPlan::Reply(access_denied_text());
    }
    match cmd {
        Command::Start => CommandPlan::Reply(welcome_text()),
        Command::Help => CommandPlan::Reply(help_text()),
        Command::Users => CommandPlan::ListUsers,
        Command::Status => CommandPlan::ShowStatus,
        Command::Add(n) => {
            let name = trim_str(n.as_str());
            match validate_user_name(name.as_str()) {
                Some(err) => CommandPlan::Reply(err),
                None => CommandPlan::AddUser(name),
            }
        },
        Command::Delete(n) => {
            let name = trim_str(n.as_str());
            if name.as_str().unicode_len() == 0 {
                CommandPlan::ChooseUser(Choice::Delete)
            } else {
                CommandPlan::ConfirmDelete(name)
            }
        },
        Command::Url(n) => {
            let name = trim_str(n.as_str());
            if name.as_str().unicode_len() == 0 {
                CommandPlan::ChooseUser(Choice::Url)
            } else {
                CommandPlan::SendUrl(name)
            }
        },
        Command::Qr(n) => {
            let name = trim_str(n.as_str());
            if name.as_str().unicode_len() == 0 {
                CommandPlan::ChooseUser(Choice::Qr)
            } else {
                CommandPlan::SendQr(name)
            }
        },
    }
}

/// The button prefix of a choice.
pub open spec fn choice_prefix(c: Choice) -> Seq<char> {
    match c {
        Choice::Delete => DELETE_PREFIX@,
        Choice::Url => URL_PREFIX@,
        Choice::Qr => QR_PREFIX@,
    }
}

/// The command a choice can be typed as.
pub open spec fn choice_hint(c: Choice) -> Seq<char> {
    match c {
        Choice::Delete => "/delete <name>"@,
        Choice::Url => "/url <name>"@,
        Choice::Qr => "/qr <name>"@,
    }
}

/// The prompt above a choice's keyboard.
pub open spec fn choice_prompt(c: Choice) -> Seq<char> {
    match c {
        Choice::Delete => "Select a user to delete:"@,
        _ => "Select a user:"@,
    }
}

pub fn choice_prefix_str(c: Choice) -> (r: &'static str)
    ensures
        r@ == choice_prefix(c),
{
    match c {
        Choice::Delete => DELETE_PREFIX,
        Choice::Url => URL_PREFIX,
        Choice::Qr => QR_PREFIX,
    }
}

/// The message that goes with a keyboard of users, and whether the
/// keyboard goes with it (not when it has no button).
pub fn keyboard_reply(c: Choice, result: &UserKeyboardResult) -> (r: (String, bool))
    requires
        forall|i: int|
            0 <= i < result.skipped_names.len() ==> utf8_len(#[trigger] result.skipped_names@[i]@)
                < usize::MAX,
    ensures
        r.1 == (result.keyboard.rows.len() > 0),
        r.1 ==> r.0@ == selection_text(
            choice_prompt(c),
            result.skipped_names@.map_values(|s: String| s@),
            result.unnamed_count as nat,
        ),
        !r.1 ==> r.0@ == empty_keyboard_text(
            choice_hint(c),
            result.skipped_names@.map_values(|s: String| s@),
            result.unnamed_count as nat,
        ),
{
    let hint = match c {
        Choice::Delete => "/delete <name>",
        Choice::Url => "/url <name>",
        Choice::Qr => "/qr <name>",
    };
    let prompt = match c {
        Choice::Delete => "Select a user to delete:",
        _ => "Select a user:",
    };
    if result.keyboard.rows.len() == 0 {
        (format_empty_keyboard_message(hint, &result.skipped_names, result.unnamed_count), false)
    } else {
        (format_selection_message(prompt, &result.skipped_names, result.unnamed_count), true)
    }
}

/// The reply to a command that failed.
pub fn error_reply(e: &AppError) -> (r: String)
    ensures
        r@.len() >= 7 + error_prefix(*e).len(),
        r@.subrange(0, 7 + error_prefix(*e).len() as int) == "Error: "@ + error_prefix(*e),
        error_detail(*e) matches Some(d) ==> r@ == "Error: "@ + error_prefix(*e) + d,
{
    proof {
        reveal_strlit("Error: ");
    }
    let mut m = owned("Error: ");
    push_str(&mut m, e.message().as_str());
    assert(m@.subrange(0, 7 + error_prefix(*e).len() as int) =~= "Error: "@ + error_prefix(*e));
    m
}

/// What to do for a pressed button.
#[derive(Debug, PartialEq, Eq)]
pub enum CallbackPlan {
    /// Nothing (no data or no message to answer in).
    Ignore,
    /// Answer that access is denied.
    Deny,
    /// Replace the message by this user's URL.
    Url(String),
    /// Send this user's QR code.
    Qr(String),
    /// Replace the message by a confirmation of deleting this user.
    ConfirmDelete(String),
    /// Delete the user with this id.
    Delete(String),
    /// Replace the message by "Deletion cancelled.".
    Cancel,
    /// Data of no known button: nothing is done, not even an answer.
    Unknown,
}

pub open spec fn callback_view(p: CallbackPlan) -> (nat, Seq<char>) {
    match p {
        CallbackPlan::Ignore => (0, Seq::empty()),
        CallbackPlan::Deny => (1, Seq::empty()),
        CallbackPlan::Url(n) => (2, n@),
        CallbackPlan::Qr(n) => (3, n@),
        CallbackPlan::ConfirmDelete(n) => (4, n@),
        CallbackPlan::Delete(u) => (5, u@),
        CallbackPlan::Cancel => (6, Seq::empty()),
        CallbackPlan::Unknown => (7, Seq::empty()),
    }
}

/// `s` after the prefix `p`.
pub open spec fn after(s: Seq<char>, p: Seq<char>) -> Seq<char> {
    s.subrange(p.len() as int, s.len() as int)
}

/// What a pressed button asks for: nothing without data or a message; a
/// refusal to anyone but the admin (who pressed, not where); else by the
/// prefix of its data.
pub open spec fn callback_plan(data: Option<Seq<char>>, has_message: bool, caller_is_admin: bool) -> (nat, Seq<char>) {
    match data {
        None => (0, Seq::empty()),
        Some(d) => if !has_message {
            (0, Seq::empty())
        } else if !caller_is_admin {
            (1, Seq::empty())
        } else if starts_with(d, URL_PREFIX@) {
            (2, after(d, URL_PREFIX@))
        } else if starts_with(d, QR_PREFIX@) {
            (3, after(d, QR_PREFIX@))
        } else if starts_with(d, DELETE_PREFIX@) {
            (4, after(d, DELETE_PREFIX@))
        } else if starts_with(d, DELETE_CONFIRM_PREFIX@) {
            (5, after(d, DELETE_CONFIRM_PREFIX@))
        } else if starts_with(d, DELETE_CANCEL_PREFIX@) {
            (6, Seq::empty())
        } else {
            (7, Seq::empty())
        },
    }
}

/// Decides what to do for a pressed button.
pub fn plan_callback(data: Option<&str>, has_message: bool, caller_is_admin: bool) -> (r: CallbackPlan)
    ensures
        callback_view(r) == callback_plan(
            match data {
                Some(d) => Some(d@),
                None => None,
            },
            has_message,
            caller_is_admin,
        ),
{
    let d = match data {
        Some(d) => d,
        None => return CallbackPlan::Ignore,
    };
    if !has_message {
        return CallbackPlan::Ignore;
    }
    if !caller_is_admin {
        return CallbackPlan::Deny;
    }
    if let Some(rest) = strip_prefix_str(d, URL_PREFIX) {
        return CallbackPlan::Url(rest);
    }
    if let Some(rest) = strip_prefix_str(d, QR_PREFIX) {
        return CallbackPlan::Qr(rest);
    }
    if let Some(rest) = strip_prefix_str(d, DELETE_PREFIX) {
        return CallbackPlan::ConfirmDelete(rest);
    }
    if let Some(rest) = strip_prefix_str(d, DELETE_CONFIRM_PREFIX) {
        return CallbackPlan::Delete(rest);
    }
    if strip_prefix_str(d, DELETE_CANCEL_PREFIX).is_some() {
        return CallbackPlan::Cancel;
    }
    CallbackPlan::Unknown
}

/// The text a QR message is replaced by once the photo is sent.
pub fn qr_sent_text(name: &str) -> (r: String)
    ensures
        r@ == "QR for "@ + name@,
{
    let mut m = owned("QR for ");
    push_str(&mut m, name);
    m
}

/// Only the admin is served: to anyone else every command is answered with
/// the refusal, and every button press with a denial.
pub proof fn lemma_only_admin_served(cmd: Command, admin: Option<i64>, chat_id: i64, data: Seq<char>)
    requires
        !admin_chat(admin, chat_id),
    ensures
        command_plan(cmd, admin, chat_id) == (0nat, "Access denied. Contact the server administrator."@, None::<Choice>),
        callback_plan(Some(data), true, false) == (1nat, Seq::<char>::empty()),
{
}

/// The data of a button built for a choice is read back as that choice of
/// that user, and the data of the two buttons of a deletion's confirmation
/// as the deletion of that id and its cancellation.
pub proof fn lemma_button_data_read_back(name: Seq<char>, uuid: Seq<char>)
    ensures
        callback_plan(Some(URL_PREFIX@ + name), true, true) == (2nat, name),
        callback_plan(Some(QR_PREFIX@ + name), true, true) == (3nat, name),
        callback_plan(Some(DELETE_PREFIX@ + name), true, true) == (4nat, name),
        callback_plan(Some(DELETE_CONFIRM_PREFIX@ + uuid), true, true) == (5nat, uuid),
        callback_plan(Some(DELETE_CANCEL_PREFIX@ + uuid), true, true).0 == 6,
{
    reveal_strlit("url:");
    reveal_strlit("qr:");
    reveal_strlit("delete:");
    reveal_strlit("delete_confirm:");
    reveal_strlit("delete_cancel:");
    let u = URL_PREFIX@ + name;
    assert(u.subrange(0, 4) =~= URL_PREFIX@);
    assert(after(u, URL_PREFIX@) =~= name);
    let q = QR_PREFIX@ + name;
    assert(q[0] == 'q');
    assert(q.subrange(0, 3) =~= QR_PREFIX@);
    assert(after(q, QR_PREFIX@) =~= name);
    let d = DELETE_PREFIX@ + name;
    assert(d[0] == 'd');
    assert(d.subrange(0, 7) =~= DELETE_PREFIX@);
    assert(after(d, DELETE_PREFIX@) =~= name);
    let c = DELETE_CONFIRM_PREFIX@ + uuid;
    assert(c[0] == 'd' && c[6] == '_');
    assert(c.subrange(0, 7)[6] != DELETE_PREFIX@[6]);
    assert(c.subrange(0, 15) =~= DELETE_CONFIRM_PREFIX@);
    assert(after(c, DELETE_CONFIRM_PREFIX@) =~= uuid);
    let x = DELETE_CANCEL_PREFIX@ + uuid;
    assert(x[0] == 'd' && x[6] == '_' && x[8] == 'a');
    assert(x.subrange(0, 7)[6] != DELETE_PREFIX@[6]);
    if x.len() >= 15 {
        assert(x.subrange(0, 15)[8] != DELETE_CONFIRM_PREFIX@[8]);
    }
    assert(x.subrange(0, 14) =~= DELETE_CANCEL_PREFIX@);
}

} // verus!
