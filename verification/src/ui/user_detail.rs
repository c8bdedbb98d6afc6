//! The user-detail screen: viewing a user and confirming its deletion.

use vstd::prelude::*;

use crate::text::{
    byte_len_capped, byte_prefix, byte_prefix_chars, chars_of, dec, new_string, owned, prefix_bytes, push_char,
    push_dec, push_str, str_eq, string_from_chars, utf8_len, without_last,
};
use crate::ui::dashboard::{bytes_text, format_bytes};
use crate::ui::theme::{
    alert_look, alert_style, border_look, border_style, line_view, lines_view, muted_look,
    muted_style, panel, panel_view, piece, piece_of, push_blank, push_one, push_piece, push_two,
    secondary_look, secondary_style, text_look, text_style, title_look, title_style, Panel, Piece,
    Style,
};
use crate::ui::Key;
use crate::xray::types::XrayUser;

use crate::b64::{b64, encode_base64};
use vstd::string::StringSliceAdditionalSpecFns;

verus! {

/// Sub-mode of the user-detail screen.
#[derive(Debug, Clone, PartialEq, Eq)]
pub enum DetailMode {
    /// Showing the user.
    View,
    /// The user must type the name to confirm deletion.
    DeleteConfirm,
    DeleteSuccess,
    DeleteError(String),
}

/// State of the user-detail screen.
#[derive(Debug, Clone)]
pub struct UserDetailState {
    /// The user being viewed.
    pub user: Option<XrayUser>,
    pub online_ips: Vec<String>,
    pub mode: DetailMode,
    /// Text typed into the deletion confirmation.
    pub delete_input: String,
    /// Deletion confirmed, waiting to be carried out.
    pub delete_confirmed: bool,
    /// Copy to clipboard requested.
    pub clipboard_copied: bool,
}

impl UserDetailState {
    /// Everything but the user is in its initial state.
    pub open spec fn is_cleared(&self) -> bool {
        &&& self.online_ips@.len() == 0
        &&& self.mode is View
        &&& self.delete_input@ == Seq::<char>::empty()
        &&& !self.delete_confirmed
        &&& !self.clipboard_copied
    }

    /// The name of the viewed user, if any.
    pub open spec fn user_name_view(&self) -> Option<Seq<char>> {
        match self.user {
            Some(u) => Some(u.name@),
            None => None,
        }
    }
}

impl Default for UserDetailState {
    fn default() -> (s: Self)
        ensures
            s.user is None,
            s.is_cleared(),
    {
        UserDetailState {
            user: None,
            online_ips: Vec::new(),
            mode: DetailMode::View,
            delete_input: new_string(),
            delete_confirmed: false,
            clipboard_copied: false,
        }
    }
}

impl UserDetailState {
    /// Open the screen for `user`.
    pub fn open(&mut self, user: XrayUser)
        ensures
            final(self).user == Some(user),
            final(self).is_cleared(),
    {
        self.user = Some(user);
        self.online_ips = Vec::new();
        self.mode = DetailMode::View;
        self.delete_input = new_string();
        self.delete_confirmed = false;
        self.clipboard_copied = false;
    }

    /// Clear the screen when leaving it.
    pub fn close(&mut self)
        ensures
            final(self).user is None,
            final(self).is_cleared(),
    {
        self.user = None;
        self.online_ips = Vec::new();
        self.mode = DetailMode::View;
        self.delete_input = new_string();
        self.delete_confirmed = false;
        self.clipboard_copied = false;
    }

    /// Handle a key; returns whether the screen consumed it.
    ///
    /// Viewing: `d` starts deletion, `c` requests a copy, other keys are left
    /// to the caller. Confirming: `Esc` goes back, characters and backspace
    /// edit the typed name, `Enter` confirms when it matches, every key is
    /// consumed. After a deletion no key is consumed.
    pub fn handle_key(&mut self, key: Key) -> (consumed: bool)
        ensures
            final(self).user == old(self).user,
            final(self).online_ips == old(self).online_ips,
            match old(self).mode {
                DetailMode::View => match key {
                    Key::Char('d') => consumed && final(self).mode is DeleteConfirm
                        && final(self).delete_input@ == Seq::<char>::empty()
                        && final(self).delete_confirmed == old(self).delete_confirmed
                        && final(self).clipboard_copied == old(self).clipboard_copied,
                    Key::Char('c') => consumed && final(self).clipboard_copied
                        && final(self).mode == old(self).mode
                        && final(self).delete_input == old(self).delete_input
                        && final(self).delete_confirmed == old(self).delete_confirmed,
                    _ => !consumed && *final(self) == *old(self),
                },
                DetailMode::DeleteConfirm => {
                    &&& consumed
                    &&& final(self).clipboard_copied == old(self).clipboard_copied
                    &&& match key {
                        Key::Esc => final(self).mode is View && final(self).delete_input@
                            == Seq::<char>::empty() && final(self).delete_confirmed
                            == old(self).delete_confirmed,
                        Key::Char(c) => final(self).mode == old(self).mode
                            && final(self).delete_input@ == old(self).delete_input@.push(c)
                            && final(self).delete_confirmed == old(self).delete_confirmed,
                        Key::Backspace => final(self).mode == old(self).mode
                            && final(self).delete_input@ == (if old(self).delete_input@.len() > 0 {
                            old(self).delete_input@.drop_last()
                        } else {
                            old(self).delete_input@
                        }) && final(self).delete_confirmed == old(self).delete_confirmed,
                        Key::Enter => final(self).mode == old(self).mode
                            && final(self).delete_input == old(self).delete_input
                            && final(self).delete_confirmed == (old(self).delete_confirmed
                            || old(self).user_name_view() == Some(old(self).delete_input@)),
                        _ => *final(self) == *old(self),
                    }
                },
                _ => !consumed && *final(self) == *old(self),
            },
    {
        match self.mode {
            DetailMode::View => {
                match key {
                    Key::Char('d') => {
                        self.mode = DetailMode::DeleteConfirm;
                        self.delete_input = new_string();
                        true
                    },
                    Key::Char('c') => {
                        self.clipboard_copied = true;
                        true
                    },
                    _ => false,
                }
            },
            DetailMode::DeleteConfirm => {
                match key {
                    Key::Esc => {
                        self.mode = DetailMode::View;
                        self.delete_input = new_string();
                    },
                    Key::Char(c) => {
                        push_char(&mut self.delete_input, c);
                    },
                    Key::Backspace => {
                        self.delete_input = without_last(&self.delete_input);
                    },
                    Key::Enter => {
                        let matches = match &self.user {
                            Some(u) => str_eq(self.delete_input.as_str(), u.name.as_str()),
                            None => false,
                        };
                        if matches {
                            self.delete_confirmed = true;
                        }
                    },
                    _ => {},
                }
                true
            },
            _ => false,
        }
    }

    /// Whether deletion was confirmed; clears the flag.
    pub fn take_delete_confirmed(&mut self) -> (b: bool)
        ensures
            b == old(self).delete_confirmed,
            !final(self).delete_confirmed,
            final(self).user == old(self).user,
            final(self).online_ips@ == old(self).online_ips@,
            final(self).mode == old(self).mode,
            final(self).delete_input == old(self).delete_input,
            final(self).clipboard_copied == old(self).clipboard_copied,
    {
        let b = self.delete_confirmed;
        self.delete_confirmed = false;
        b
    }

    /// Whether a copy was requested; clears the flag.
    pub fn take_clipboard_copied(&mut self) -> (b: bool)
        ensures
            b == old(self).clipboard_copied,
            !final(self).clipboard_copied,
            final(self).user == old(self).user,
            final(self).online_ips@ == old(self).online_ips@,
            final(self).mode == old(self).mode,
            final(self).delete_input == old(self).delete_input,
            final(self).delete_confirmed == old(self).delete_confirmed,
    {
        let b = self.clipboard_copied;
        self.clipboard_copied = false;
        b
    }

    pub fn set_delete_success(&mut self)
        ensures
            final(self).mode is DeleteSuccess,
            final(self).user == old(self).user,
            final(self).online_ips@ == old(self).online_ips@,
            final(self).delete_input == old(self).delete_input,
            final(self).delete_confirmed == old(self).delete_confirmed,
            final(self).clipboard_copied == old(self).clipboard_copied,
    {
        self.mode = DetailMode::DeleteSuccess;
    }

    pub fn set_delete_error(&mut self, msg: String)
        ensures
            final(self).mode == DetailMode::DeleteError(msg),
            final(self).user == old(self).user,
            final(self).online_ips@ == old(self).online_ips@,
            final(self).delete_input == old(self).delete_input,
            final(self).delete_confirmed == old(self).delete_confirmed,
            final(self).clipboard_copied == old(self).clipboard_copied,
    {
        self.mode = DetailMode::DeleteError(msg);
    }

    /// The viewed user's name.
    pub fn user_name(&self) -> (r: Option<&str>)
        ensures
            match r {
                Some(n) => self.user_name_view() == Some(n@),
                None => self.user is None,
            },
    {
        match &self.user {
            Some(u) => Some(u.name.as_str()),
            None => None,
        }
    }

    /// Whether the typed text equals the viewed user's name.
    pub fn delete_input_matches(&self) -> (b: bool)
        ensures
            b == (self.user_name_view() == Some(self.delete_input@)),
    {
        match &self.user {
            Some(u) => str_eq(self.delete_input.as_str(), u.name.as_str()),
            None => false,
        }
    }
}

/// The OSC 52 escape sequence that asks the terminal to put `text` on the
/// clipboard: `ESC ] 52 ; c ;`, the base64 of its UTF-8 bytes, then `BEL`.
pub fn osc52_copy(text: &str) -> (r: String)
    ensures
        r@ == "\x1b]52;c;"@ + b64(text.spec_bytes()) + "\x07"@,
{
    let encoded = encode_base64(text.as_bytes());
    let mut s = owned("\x1b]52;c;");
    push_str(&mut s, encoded.as_str());
    push_str(&mut s, "\x07");
    s
}

// ---- what the screen shows -------------------------------------------------------------

/// The online line: a dot, then whether the user is online and with how
/// many connections.
pub open spec fn online_status_text(n: nat) -> Seq<char> {
    if n > 0 {
        "\u{25cf} Online ("@ + dec(n) + ")"@
    } else {
        "\u{25cf} Offline"@
    }
}

/// The line of one connected address.
pub open spec fn ip_row(ip: Seq<char>) -> Seq<(Seq<char>, Style)> {
    seq![("      "@, muted_look()), (ip, secondary_look())]
}

/// The connected addresses: a heading, the first five, and how many more
/// there are; nothing where there are none.
pub open spec fn ip_rows(ips: Seq<Seq<char>>) -> Seq<Seq<(Seq<char>, Style)>> {
    if ips.len() == 0 {
        Seq::empty()
    } else {
        seq![seq![("    Connected IPs:"@, muted_look())]] + ips.take(
            if ips.len() < 5 {
                ips.len() as int
            } else {
                5
            },
        ).map_values(|ip: Seq<char>| ip_row(ip)) + if ips.len() > 5 {
            seq![seq![("      ... and "@ + dec((ips.len() - 5) as nat) + " more"@, muted_look())]]
        } else {
            Seq::empty()
        }
    }
}

/// A user's name, id, e-mail, traffic and online state, then the
/// connected addresses.
pub open spec fn view_rows(u: XrayUser, ips: Seq<Seq<char>>) -> Seq<Seq<(Seq<char>, Style)>> {
    seq![
        Seq::empty(),
        seq![("  Name:  "@, muted_look()), (u.name@, title_look())],
        seq![("  UUID:  "@, muted_look()), (u.uuid@, secondary_look())],
        seq![("  Email: "@, muted_look()), (u.email@, secondary_look())],
        Seq::empty(),
        seq![("  Traffic"@, secondary_look())],
        seq![("    Upload:   "@, muted_look()), (bytes_text(u.stats.uplink as nat), text_look())],
        seq![("    Download: "@, muted_look()), (bytes_text(u.stats.downlink as nat), text_look())],
        Seq::empty(),
        seq![("  Online Status"@, secondary_look())],
        seq![
            ("    "@, muted_look()),
            (online_status_text(u.online_count as nat), if u.online_count > 0 {
                title_look()
            } else {
                alert_look()
            }),
        ],
    ] + ip_rows(ips)
}

/// The keys of the view, kept on the bottom line.
pub open spec fn view_footer() -> Seq<(Seq<char>, Style)> {
    seq![("  [Esc] back  [d]elete  [c]opy URL  [q] QR code"@, muted_look())]
}

pub open spec fn ips_view(ips: Vec<String>) -> Seq<Seq<char>> {
    ips@.map_values(|s: String| s@)
}

/// The user shown, with its connected addresses; returns its lines and
/// the line kept at the bottom.
fn draw_view(user: &XrayUser, online_ips: &Vec<String>) -> (r: (Vec<Vec<Piece>>, Vec<Piece>))
    ensures
        lines_view(r.0) == view_rows(*user, ips_view(*online_ips)),
        line_view(r.1) == view_footer(),
{
    let mut rows: Vec<Vec<Piece>> = Vec::new();
    push_blank(&mut rows);
    push_two(&mut rows, piece("  Name:  ", muted_style()), piece(user.name.as_str(), title_style()));
    push_two(&mut rows, piece("  UUID:  ", muted_style()), piece(user.uuid.as_str(), secondary_style()));
    push_two(&mut rows, piece("  Email: ", muted_style()), piece(user.email.as_str(), secondary_style()));
    push_blank(&mut rows);
    push_one(&mut rows, piece("  Traffic", secondary_style()));
    push_two(&mut rows, piece("    Upload:   ", muted_style()), piece_of(format_bytes(user.stats.uplink), text_style()));
    push_two(
        &mut rows,
        piece("    Download: ", muted_style()),
        piece_of(format_bytes(user.stats.downlink), text_style()),
    );
    push_blank(&mut rows);
    push_one(&mut rows, piece("  Online Status", secondary_style()));
    let mut online = new_string();
    let style = if user.online_count > 0 {
        push_str(&mut online, "\u{25cf} Online (");
        push_dec(&mut online, user.online_count as u64);
        push_str(&mut online, ")");
        title_style()
    } else {
        push_str(&mut online, "\u{25cf} Offline");
        alert_style()
    };
    proof {
        reveal_strlit("\u{25cf} Online (");
        reveal_strlit("\u{25cf} Offline");
        assert(online@ =~= online_status_text(user.online_count as nat));
    }
    push_two(&mut rows, piece("    ", muted_style()), piece_of(online, style));
    let ghost top = lines_view(rows);
    assert(top =~= view_rows(*user, Seq::empty()));
    let ghost ips = ips_view(*online_ips);
    let n = online_ips.len();
    let shown: usize = if n < 5 {
        n
    } else {
        5
    };
    if n > 0 {
        push_one(&mut rows, piece("    Connected IPs:", muted_style()));
        let mut i: usize = 0;
        while i < shown
            invariant
                shown <= n,
                n == online_ips@.len(),
                ips == ips_view(*online_ips),
                i <= shown,
                lines_view(rows) == top + seq![seq![("    Connected IPs:"@, muted_look())]] + ips.take(i as int).map_values(
                    |ip: Seq<char>| ip_row(ip),
                ),
            decreases shown - i,
        {
            let ghost before = lines_view(rows);
            push_two(&mut rows, piece("      ", muted_style()), piece(online_ips[i].as_str(), secondary_style()));
            assert(ips[i as int] == online_ips@[i as int]@);
            assert(ips.take(i + 1).map_values(|ip: Seq<char>| ip_row(ip)) =~= ips.take(i as int).map_values(
                |ip: Seq<char>| ip_row(ip),
            ).push(ip_row(ips[i as int])));
            i = i + 1;
        }
        if n > 5 {
            let mut more = owned("      ... and ");
            push_dec(&mut more, (n - 5) as u64);
            push_str(&mut more, " more");
            push_one(&mut rows, piece_of(more, muted_style()));
        }
    }
    assert(lines_view(rows) =~= view_rows(*user, ips));
    let mut footer: Vec<Piece> = Vec::new();
    push_piece(&mut footer, piece("  [Esc] back  [d]elete  [c]opy URL  [q] QR code", muted_style()));
    assert(line_view(footer) =~= view_footer());
    (rows, footer)
}

/// The deletion confirmation: the warning, the name to type, what has
/// been typed (green once it matches) and the keys.
pub open spec fn delete_confirm_rows(name: Seq<char>, input: Seq<char>) -> Seq<Seq<(Seq<char>, Style)>> {
    seq![
        Seq::empty(),
        seq![("  WARNING: You are about to delete this user permanently!"@, alert_look())],
        Seq::empty(),
        seq![("  Type the user name to confirm deletion:"@, secondary_look())],
        seq![("  Expected: "@, muted_look()), (name, title_look())],
        Seq::empty(),
        seq![("  > "@, muted_look()), (input + "_"@, if input == name { title_look() } else { alert_look() })],
        Seq::empty(),
        seq![("  [Enter] confirm  [Esc] cancel"@, muted_look())],
    ]
}

fn draw_delete_confirm(user: &XrayUser, delete_input: &str) -> (r: Vec<Vec<Piece>>)
    ensures
        lines_view(r) == delete_confirm_rows(user.name@, delete_input@),
{
    let mut rows: Vec<Vec<Piece>> = Vec::new();
    push_blank(&mut rows);
    push_one(&mut rows, piece("  WARNING: You are about to delete this user permanently!", alert_style()));
    push_blank(&mut rows);
    push_one(&mut rows, piece("  Type the user name to confirm deletion:", secondary_style()));
    push_two(&mut rows, piece("  Expected: ", muted_style()), piece(user.name.as_str(), title_style()));
    push_blank(&mut rows);
    let style = if str_eq(delete_input, user.name.as_str()) {
        title_style()
    } else {
        alert_style()
    };
    let mut typed = owned(delete_input);
    push_str(&mut typed, "_");
    push_two(&mut rows, piece("  > ", muted_style()), piece_of(typed, style));
    push_blank(&mut rows);
    push_one(&mut rows, piece("  [Enter] confirm  [Esc] cancel", muted_style()));
    assert(lines_view(rows) =~= delete_confirm_rows(user.name@, delete_input@));
    rows
}

/// After a deletion: the confirmation and the name removed.
pub open spec fn delete_success_rows(name: Seq<char>) -> Seq<Seq<(Seq<char>, Style)>> {
    seq![
        Seq::empty(),
        Seq::empty(),
        seq![("  User deleted successfully."@, title_look())],
        seq![("  Removed: "@, muted_look()), (name, secondary_look())],
        Seq::empty(),
        Seq::empty(),
        seq![("  Press any key to return to dashboard"@, muted_look())],
    ]
}

fn draw_delete_success(user: &XrayUser) -> (r: Vec<Vec<Piece>>)
    ensures
        lines_view(r) == delete_success_rows(user.name@),
{
    let mut rows: Vec<Vec<Piece>> = Vec::new();
    push_blank(&mut rows);
    push_blank(&mut rows);
    push_one(&mut rows, piece("  User deleted successfully.", title_style()));
    push_two(&mut rows, piece("  Removed: ", muted_style()), piece(user.name.as_str(), secondary_style()));
    push_blank(&mut rows);
    push_blank(&mut rows);
    push_one(&mut rows, piece("  Press any key to return to dashboard", muted_style()));
    assert(lines_view(rows) =~= delete_success_rows(user.name@));
    rows
}

/// An error message as the screen shows it: its first 60 bytes where it
/// is longer.
pub open spec fn error_shown(msg: Seq<char>) -> Seq<char> {
    if utf8_len(msg) > 60 {
        byte_prefix(msg, 60)
    } else {
        msg
    }
}

/// An error message can be cut after its first 60 bytes: shorter, or a
/// character boundary falls there.
pub open spec fn error_cuttable(msg: Seq<char>) -> bool {
    utf8_len(msg) > 60 ==> exists|k: int| 0 <= k <= msg.len() && #[trigger] prefix_bytes(msg, k) == 60
}

/// After a failed deletion: the error, cut to 60 bytes.
pub open spec fn delete_error_rows(msg: Seq<char>) -> Seq<Seq<(Seq<char>, Style)>> {
    seq![
        Seq::empty(),
        Seq::empty(),
        seq![("  Failed to delete user:"@, alert_look())],
        seq![("  "@ + error_shown(msg), muted_look())],
        Seq::empty(),
        Seq::empty(),
        seq![("  Press any key to return to dashboard"@, muted_look())],
    ]
}

fn draw_delete_error(msg: &str) -> (r: Vec<Vec<Piece>>)
    requires
        error_cuttable(msg@),
    ensures
        lines_view(r) == delete_error_rows(msg@),
{
    let mut shown = owned("  ");
    if byte_len_capped(msg, 61) > 60 {
        let v = chars_of(msg);
        match byte_prefix_chars(&v, 60) {
            Some(k) => push_str(&mut shown, string_from_chars(&v, 0, k).as_str()),
            None => {
                assert(false);
            },
        }
    } else {
        push_str(&mut shown, msg);
    }
    assert(shown@ =~= "  "@ + error_shown(msg@));
    let mut rows: Vec<Vec<Piece>> = Vec::new();
    push_blank(&mut rows);
    push_blank(&mut rows);
    push_one(&mut rows, piece("  Failed to delete user:", alert_style()));
    push_one(&mut rows, piece_of(shown, muted_style()));
    push_blank(&mut rows);
    push_blank(&mut rows);
    push_one(&mut rows, piece("  Press any key to return to dashboard", muted_style()));
    assert(lines_view(rows) =~= delete_error_rows(msg@));
    rows
}

/// The screen can be drawn: an error being shown can be cut to 60 bytes.
pub open spec fn drawable(s: UserDetailState) -> bool {
    s.user is Some ==> (s.mode matches DetailMode::DeleteError(m) ==> error_cuttable(m@))
}

/// What the user-detail screen shows, by mode; `  No user selected` while
/// there is no user.
pub open spec fn detail_rows(s: UserDetailState) -> (Seq<Seq<(Seq<char>, Style)>>, Seq<(Seq<char>, Style)>) {
    match s.user {
        None => (seq![seq![("  No user selected"@, muted_look())]], Seq::empty()),
        Some(u) => match s.mode {
            DetailMode::View => (view_rows(u, ips_view(s.online_ips)), view_footer()),
            DetailMode::DeleteConfirm => (delete_confirm_rows(u.name@, s.delete_input@), Seq::empty()),
            DetailMode::DeleteSuccess => (delete_success_rows(u.name@), Seq::empty()),
            DetailMode::DeleteError(m) => (delete_error_rows(m@), Seq::empty()),
        },
    }
}

/// What the user-detail screen shows, in a panel titled ` User Detail `.
pub fn draw(state: &UserDetailState) -> (r: Panel)
    requires
        drawable(*state),
    ensures
        panel_view(r).0 == (" User Detail "@, secondary_look()),
        panel_view(r).1 == border_look(),
        panel_view(r).2 == detail_rows(*state).0,
        panel_view(r).3 == detail_rows(*state).1,
{
    let title = piece(" User Detail ", secondary_style());
    match &state.user {
        None => {
            let mut rows: Vec<Vec<Piece>> = Vec::new();
            push_one(&mut rows, piece("  No user selected", muted_style()));
            assert(lines_view(rows) =~= detail_rows(*state).0);
            panel(title, border_style(), rows)
        },
        Some(user) => match &state.mode {
            DetailMode::View => {
                let (rows, footer) = draw_view(user, &state.online_ips);
                Panel { title, border: border_style(), rows, footer }
            },
            DetailMode::DeleteConfirm => panel(title, border_style(), draw_delete_confirm(user, state.delete_input.as_str())),
            DetailMode::DeleteSuccess => panel(title, border_style(), draw_delete_success(user)),
            DetailMode::DeleteError(msg) => panel(title, border_style(), draw_delete_error(msg.as_str())),
        },
    }
}

} // verus!
