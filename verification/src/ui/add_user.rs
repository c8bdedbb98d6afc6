//! The add-user dialog.

use vstd::prelude::*;

use crate::text::{
    byte_len_capped, byte_prefix, byte_prefix_chars, chars_of, is_ascii_alnum, is_blank, new_string, owned,
    prefix_bytes, push_char, push_str, string_from_chars, trim, utf8_len, without_last,
};
use crate::ui::theme::{
    accent_look, accent_style, alert_look, alert_style, lines_view, muted_look, muted_style, panel, panel_view,
    piece, piece_of, push_blank, push_one, push_two, secondary_look, secondary_style, title_look, title_style,
    Panel, Piece, Style,
};
use crate::ui::{Key, Rect};

verus! {

/// Maximum length, in bytes, of a name typed into the dialog.
pub const MAX_NAME_LENGTH: usize = 32;

/// Characters a typed name may contain: ASCII letters and digits, `-`, `_`.
pub open spec fn valid_name_char(c: char) -> bool {
    is_ascii_alnum(c) || c == '-' || c == '_'
}

pub fn is_valid_name_char(c: char) -> (b: bool)
    ensures
        b == valid_name_char(c),
{
    ('0' <= c && c <= '9') || ('a' <= c && c <= 'z') || ('A' <= c && c <= 'Z') || c == '-' || c
        == '_'
}

/// Outcome of an add-user attempt.
#[derive(Debug, Clone)]
pub enum AddUserResult {
    Empty,
    Success { name: String, uuid: String },
    Error(String),
}

/// State of the add-user dialog.
#[derive(Debug, Clone)]
pub struct AddUserState {
    pub name: String,
    pub result: AddUserResult,
    pub confirmed: bool,
    /// Cached vless:// URL after a successful add.
    pub cached_vless_url: Option<String>,
}

impl AddUserState {
    /// The state of a freshly opened dialog.
    pub open spec fn is_fresh(&self) -> bool {
        &&& self.name@ == Seq::<char>::empty()
        &&& self.result is Empty
        &&& !self.confirmed
        &&& self.cached_vless_url is None
    }

    /// Whether a result is being shown.
    pub open spec fn showing_result(&self) -> bool {
        self.result is Success || self.result is Error
    }
}

impl Default for AddUserState {
    fn default() -> (s: Self)
        ensures
            s.is_fresh(),
    {
        AddUserState {
            name: new_string(),
            result: AddUserResult::Empty,
            confirmed: false,
            cached_vless_url: None,
        }
    }
}

impl AddUserState {
    /// Reset the dialog for a new opening.
    pub fn reset(&mut self)
        ensures
            final(self).is_fresh(),
    {
        self.name = new_string();
        self.result = AddUserResult::Empty;
        self.confirmed = false;
        self.cached_vless_url = None;
    }

    /// Handle a key; returns whether the dialog consumed it. While a result
    /// is shown no key is consumed, so the caller can navigate away.
    pub fn handle_key(&mut self, key: Key) -> (consumed: bool)
        ensures
            final(self).result == old(self).result,
            final(self).cached_vless_url == old(self).cached_vless_url,
            old(self).showing_result() ==> !consumed && final(self).name@ == old(self).name@
                && final(self).confirmed == old(self).confirmed,
            !old(self).showing_result() ==> match key {
                Key::Char(c) => {
                    &&& consumed
                    &&& final(self).confirmed == old(self).confirmed
                    &&& final(self).name@ == if valid_name_char(c) && utf8_len(old(self).name@)
                        < MAX_NAME_LENGTH {
                        old(self).name@.push(c)
                    } else {
                        old(self).name@
                    }
                },
                Key::Backspace => {
                    &&& consumed
                    &&& final(self).confirmed == old(self).confirmed
                    &&& final(self).name@ == if old(self).name@.len() > 0 {
                        old(self).name@.drop_last()
                    } else {
                        old(self).name@
                    }
                },
                Key::Enter => {
                    &&& consumed
                    &&& final(self).name@ == old(self).name@
                    &&& final(self).confirmed == (old(self).confirmed || trim(old(self).name@).len()
                        > 0)
                },
                _ => !consumed && final(self).name@ == old(self).name@ && final(self).confirmed
                    == old(self).confirmed,
            },
    {
        let showing = match self.result {
            AddUserResult::Success { .. } => true,
            AddUserResult::Error(_) => true,
            AddUserResult::Empty => false,
        };
        if showing {
            return false;
        }
        match key {
            Key::Char(c) => {
                if is_valid_name_char(c) && byte_len_capped(self.name.as_str(), MAX_NAME_LENGTH)
                    < MAX_NAME_LENGTH {
                    push_char(&mut self.name, c);
                }
                true
            },
            Key::Backspace => {
                self.name = without_last(&self.name);
                true
            },
            Key::Enter => {
                if !is_blank(self.name.as_str()) {
                    self.confirmed = true;
                }
                true
            },
            _ => false,
        }
    }

    /// Record a successful add.
    pub fn set_success(&mut self, name: String, uuid: String)
        ensures
            final(self).result == (AddUserResult::Success { name, uuid }),
            !final(self).confirmed,
            final(self).name == old(self).name,
            final(self).cached_vless_url == old(self).cached_vless_url,
    {
        self.result = AddUserResult::Success { name, uuid };
        self.confirmed = false;
    }

    /// Record a failed add.
    pub fn set_error(&mut self, msg: String)
        ensures
            final(self).result == AddUserResult::Error(msg),
            !final(self).confirmed,
            final(self).name == old(self).name,
            final(self).cached_vless_url == old(self).cached_vless_url,
    {
        self.result = AddUserResult::Error(msg);
        self.confirmed = false;
    }

    /// Whether the user confirmed a non-blank name.
    pub fn is_confirmed(&self) -> (b: bool)
        ensures
            b == (self.confirmed && trim(self.name@).len() > 0),
    {
        self.confirmed && !is_blank(self.name.as_str())
    }
}

/// A `width` x `height` rectangle centred in `area`, clamped to it.
pub fn centered_rect(width: u16, height: u16, area: Rect) -> (r: Rect)
    requires
        area.x + area.width / 2 <= u16::MAX,
        area.y + area.height / 2 <= u16::MAX,
    ensures
        r.x == area.x + (if area.width > width { area.width - width } else { 0 }) / 2,
        r.y == area.y + (if area.height > height { area.height - height } else { 0 }) / 2,
        r.width == if width < area.width { width } else { area.width },
        r.height == if height < area.height { height } else { area.height },
{
    let dw: u16 = if area.width > width { area.width - width } else { 0 };
    let dh: u16 = if area.height > height { area.height - height } else { 0 };
    Rect {
        x: area.x + dw / 2,
        y: area.y + dh / 2,
        width: if width < area.width { width } else { area.width },
        height: if height < area.height { height } else { area.height },
    }
}


// ---- what the dialog shows -------------------------------------------------------------

/// The dialog while a name is typed.
pub open spec fn input_rows(name: Seq<char>) -> Seq<Seq<(Seq<char>, Style)>> {
    seq![
        Seq::empty(),
        seq![("  Enter username for the new VPN client:"@, secondary_look())],
        Seq::empty(),
        seq![("  > "@ + name + "_"@, title_look())],
        Seq::empty(),
        seq![("  [Enter] confirm  [Esc] cancel"@, muted_look())],
    ]
}

fn draw_input(state: &AddUserState) -> (r: Vec<Vec<Piece>>)
    ensures
        lines_view(r) == input_rows(state.name@),
{
    let mut typed = owned("  > ");
    push_str(&mut typed, state.name.as_str());
    push_str(&mut typed, "_");
    let mut rows: Vec<Vec<Piece>> = Vec::new();
    push_blank(&mut rows);
    push_one(&mut rows, piece("  Enter username for the new VPN client:", secondary_style()));
    push_blank(&mut rows);
    push_one(&mut rows, piece_of(typed, title_style()));
    push_blank(&mut rows);
    push_one(&mut rows, piece("  [Enter] confirm  [Esc] cancel", muted_style()));
    assert(lines_view(rows) =~= input_rows(state.name@));
    rows
}

/// A UUID as the dialog shows it: its first 36 bytes where it is longer.
pub open spec fn uuid_shown(uuid: Seq<char>) -> Seq<char> {
    if utf8_len(uuid) > 36 {
        byte_prefix(uuid, 36)
    } else {
        uuid
    }
}

/// A UUID can be cut after 36 bytes: it is shorter, or a character
/// boundary falls there.
pub open spec fn uuid_cuttable(uuid: Seq<char>) -> bool {
    utf8_len(uuid) > 36 ==> exists|k: int| 0 <= k <= uuid.len() && #[trigger] prefix_bytes(uuid, k) == 36
}

/// The dialog after a user was added: its name and UUID.
pub open spec fn success_rows(name: Seq<char>, uuid: Seq<char>) -> Seq<Seq<(Seq<char>, Style)>> {
    seq![
        Seq::empty(),
        seq![("  User created successfully!"@, title_look())],
        Seq::empty(),
        seq![("  Name: "@, muted_look()), (name, secondary_look())],
        seq![("  UUID: "@, muted_look()), (uuid_shown(uuid), secondary_look())],
        Seq::empty(),
        seq![("  [Esc] back  [q] QR code"@, muted_look())],
    ]
}

fn draw_success(name: &str, uuid: &str) -> (r: Vec<Vec<Piece>>)
    requires
        uuid_cuttable(uuid@),
    ensures
        lines_view(r) == success_rows(name@, uuid@),
{
    let shown = if byte_len_capped(uuid, 37) > 36 {
        let v = chars_of(uuid);
        match byte_prefix_chars(&v, 36) {
            Some(k) => string_from_chars(&v, 0, k),
            None => {
                assert(false);
                owned(uuid)
            },
        }
    } else {
        owned(uuid)
    };
    let mut rows: Vec<Vec<Piece>> = Vec::new();
    push_blank(&mut rows);
    push_one(&mut rows, piece("  User created successfully!", title_style()));
    push_blank(&mut rows);
    push_two(&mut rows, piece("  Name: ", muted_style()), piece(name, secondary_style()));
    push_two(&mut rows, piece("  UUID: ", muted_style()), piece_of(shown, secondary_style()));
    push_blank(&mut rows);
    push_one(&mut rows, piece("  [Esc] back  [q] QR code", muted_style()));
    assert(lines_view(rows) =~= success_rows(name@, uuid@));
    rows
}

/// The first 50 characters of an error, or all of it.
pub open spec fn error_head(msg: Seq<char>) -> Seq<char> {
    if msg.len() > 50 {
        msg.take(50)
    } else {
        msg
    }
}

/// The dialog after adding failed: the error's first 50 characters.
pub open spec fn error_rows(msg: Seq<char>) -> Seq<Seq<(Seq<char>, Style)>> {
    seq![
        Seq::empty(),
        seq![("  Failed to add user:"@, alert_look())],
        Seq::empty(),
        seq![("  "@ + error_head(msg), muted_look())],
        Seq::empty(),
        seq![("  [Esc] back"@, muted_look())],
    ]
}

fn draw_error(msg: &str) -> (r: Vec<Vec<Piece>>)
    ensures
        lines_view(r) == error_rows(msg@),
{
    let v = chars_of(msg);
    let mut shown = owned("  ");
    if v.len() > 50 {
        push_str(&mut shown, string_from_chars(&v, 0, 50).as_str());
    } else {
        push_str(&mut shown, msg);
    }
    assert(shown@ =~= "  "@ + error_head(msg@));
    let mut rows: Vec<Vec<Piece>> = Vec::new();
    push_blank(&mut rows);
    push_one(&mut rows, piece("  Failed to add user:", alert_style()));
    push_blank(&mut rows);
    push_one(&mut rows, piece_of(shown, muted_style()));
    push_blank(&mut rows);
    push_one(&mut rows, piece("  [Esc] back", muted_style()));
    assert(lines_view(rows) =~= error_rows(msg@));
    rows
}

/// Where the dialog stands in `area`, its title and border, and its lines:
/// 50 by 9 while a name is typed (magenta ` Add User `), 56 by 11 after
/// success (green ` User Added `), 56 by 9 after an error (red ` Error `).
pub open spec fn dialog_of(r: AddUserResult, name: Seq<char>) -> (u16, u16, (Seq<char>, Style), Style, Seq<
    Seq<(Seq<char>, Style)>,
>) {
    match r {
        AddUserResult::Empty => (50, 9, (" Add User "@, accent_look()), accent_look(), input_rows(name)),
        AddUserResult::Success { name: n, uuid } => (
            56,
            11,
            (" User Added "@, title_look()),
            title_look(),
            success_rows(n@, uuid@),
        ),
        AddUserResult::Error(m) => (56, 9, (" Error "@, alert_look()), alert_look(), error_rows(m@)),
    }
}

/// The dialog can be drawn: a UUID being shown can be cut to 36 bytes.
pub open spec fn drawable(s: AddUserState) -> bool {
    s.result matches AddUserResult::Success { uuid, .. } ==> uuid_cuttable(uuid@)
}

/// The dialog: the rectangle of `area` it covers and what it shows.
pub fn draw(state: &AddUserState, area: Rect) -> (r: (Rect, Panel))
    requires
        drawable(*state),
        area.x + area.width / 2 <= u16::MAX,
        area.y + area.height / 2 <= u16::MAX,
    ensures
        ({
            let d = dialog_of(state.result, state.name@);
            &&& r.0 == centered_rect_of(d.0, d.1, area)
            &&& panel_view(r.1) == (d.2, d.3, d.4, Seq::<(Seq<char>, Style)>::empty())
        }),
{
    match &state.result {
        AddUserResult::Success { name, uuid } => (
            centered_rect(56, 11, area),
            panel(piece(" User Added ", title_style()), title_style(), draw_success(name.as_str(), uuid.as_str())),
        ),
        AddUserResult::Error(msg) => (
            centered_rect(56, 9, area),
            panel(piece(" Error ", alert_style()), alert_style(), draw_error(msg.as_str())),
        ),
        AddUserResult::Empty => (
            centered_rect(50, 9, area),
            panel(piece(" Add User ", accent_style()), accent_style(), draw_input(state)),
        ),
    }
}

/// The `width` x `height` rectangle centred in `area`, clamped to it.
pub open spec fn centered_rect_of(width: u16, height: u16, area: Rect) -> Rect {
    Rect {
        x: (area.x + (if area.width > width { area.width - width } else { 0 }) / 2) as u16,
        y: (area.y + (if area.height > height { area.height - height } else { 0 }) / 2) as u16,
        width: if width < area.width { width } else { area.width },
        height: if height < area.height { height } else { area.height },
    }
}

} // verus!
