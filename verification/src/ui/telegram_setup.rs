//! The Telegram bot setup screen: token entry and deployment.

use vstd::prelude::*;

use crate::text::{
    byte_len_capped, chars_of, is_ascii_alnum, is_ascii_digit, is_blank, new_string, owned,
    push_char, push_str, trim, trim_str, utf8_len, without_last,
};
use crate::ui::theme::{
    accent_look, accent_style, alert_look, alert_style, border_look, border_style, line_view, lines_view,
    muted_look, muted_style, piece, piece_of, piece_view, push_blank, push_one, push_piece, secondary_look,
    secondary_style, selected_look, selected_style, text_look, text_style, title_look, title_style, Piece, Style,
};
use crate::ui::Key;

verus! {

/// Fields of the setup form, in focus order.
#[derive(Debug, Clone, Copy, PartialEq, Eq, Structural)]
pub enum TelegramField {
    Token,
    DeployToVps,
}

/// Number of fields of the form.
pub const FIELD_COUNT: usize = 2;

/// The field at focus position `i`.
pub open spec fn field_at(i: nat) -> TelegramField {
    if i == 0 {
        TelegramField::Token
    } else {
        TelegramField::DeployToVps
    }
}

impl TelegramField {
    pub fn is_button(&self) -> (b: bool)
        ensures
            b == (*self is DeployToVps),
    {
        match self {
            TelegramField::DeployToVps => true,
            TelegramField::Token => false,
        }
    }
}

/// Deployment progress.
#[derive(Debug, Clone, PartialEq, Eq)]
pub enum DeployStatus {
    Idle,
    Connecting,
    BuildingImage,
    CreatingCompose,
    StartingBot,
    Verifying,
    Success(String),
    Error(String),
}

/// State of the setup screen.
#[derive(Debug, Clone)]
pub struct TelegramSetupState {
    pub token: String,
    pub focused: usize,
    pub deploy_status: DeployStatus,
    pub deploy_requested: bool,
}

impl Default for TelegramSetupState {
    fn default() -> (s: Self)
        ensures
            s.token@ == Seq::<char>::empty(),
            s.focused == 0,
            s.deploy_status is Idle,
            !s.deploy_requested,
    {
        TelegramSetupState {
            token: new_string(),
            focused: 0,
            deploy_status: DeployStatus::Idle,
            deploy_requested: false,
        }
    }
}

impl TelegramSetupState {
    /// A fresh screen with the token pre-filled from the configuration.
    pub fn from_token(token: Option<&str>) -> (s: Self)
        ensures
            s.token@ == match token {
                Some(t) => t@,
                None => Seq::<char>::empty(),
            },
            s.focused == 0,
            s.deploy_status is Idle,
            !s.deploy_requested,
    {
        let t = match token {
            Some(t) => owned(t),
            None => new_string(),
        };
        TelegramSetupState {
            token: t,
            focused: 0,
            deploy_status: DeployStatus::Idle,
            deploy_requested: false,
        }
    }

    pub fn focused_field(&self) -> (f: TelegramField)
        requires
            self.focused < FIELD_COUNT,
        ensures
            f == field_at(self.focused as nat),
    {
        if self.focused == 0 {
            TelegramField::Token
        } else {
            TelegramField::DeployToVps
        }
    }

    /// Move focus to the next field, wrapping around.
    pub fn focus_next(&mut self)
        requires
            old(self).focused < usize::MAX,
        ensures
            final(self).focused == (old(self).focused + 1) % (FIELD_COUNT as int),
            final(self).token == old(self).token,
            final(self).deploy_status == old(self).deploy_status,
            final(self).deploy_requested == old(self).deploy_requested,
    {
        self.focused = (self.focused + 1) % FIELD_COUNT;
    }

    /// Move focus to the previous field, wrapping around.
    pub fn focus_prev(&mut self)
        ensures
            final(self).focused == if old(self).focused == 0 {
                FIELD_COUNT - 1
            } else {
                old(self).focused - 1
            },
            final(self).token == old(self).token,
            final(self).deploy_status == old(self).deploy_status,
            final(self).deploy_requested == old(self).deploy_requested,
    {
        if self.focused == 0 {
            self.focused = FIELD_COUNT - 1;
        } else {
            self.focused = self.focused - 1;
        }
    }

    /// Handle a key; returns whether the screen consumed it. Tab/Down and
    /// BackTab/Up move the focus; Enter moves on from the token, or asks
    /// for deployment when a token is present; characters and backspace
    /// edit the token while it has the focus.
    pub fn handle_key(&mut self, key: Key) -> (consumed: bool)
        requires
            old(self).focused < usize::MAX,
            (key is Enter || key is Char || key is Backspace) ==> old(self).focused < FIELD_COUNT,
        ensures
            final(self).deploy_status == old(self).deploy_status,
            match key {
                Key::Tab | Key::Down => consumed && final(self).focused == (old(self).focused + 1)
                    % (FIELD_COUNT as int) && final(self).token == old(self).token
                    && final(self).deploy_requested == old(self).deploy_requested,
                Key::BackTab | Key::Up => consumed && final(self).focused == (if old(self).focused
                    == 0 {
                    FIELD_COUNT - 1
                } else {
                    old(self).focused - 1
                }) && final(self).token == old(self).token && final(self).deploy_requested
                    == old(self).deploy_requested,
                Key::Enter => consumed && final(self).token == old(self).token && if field_at(
                    old(self).focused as nat,
                ) is DeployToVps {
                    final(self).focused == old(self).focused && final(self).deploy_requested == (
                    old(self).deploy_requested || trim(old(self).token@).len() > 0)
                } else {
                    final(self).focused == (old(self).focused + 1) % (FIELD_COUNT as int)
                        && final(self).deploy_requested == old(self).deploy_requested
                },
                Key::Char(c) => final(self).focused == old(self).focused
                    && final(self).deploy_requested == old(self).deploy_requested && if field_at(
                    old(self).focused as nat,
                ) is Token {
                    consumed && final(self).token@ == old(self).token@.push(c)
                } else {
                    !consumed && final(self).token == old(self).token
                },
                Key::Backspace => final(self).focused == old(self).focused
                    && final(self).deploy_requested == old(self).deploy_requested && if field_at(
                    old(self).focused as nat,
                ) is Token {
                    consumed && final(self).token@ == (if old(self).token@.len() > 0 {
                        old(self).token@.drop_last()
                    } else {
                        old(self).token@
                    })
                } else {
                    !consumed && final(self).token == old(self).token
                },
                _ => !consumed && *final(self) == *old(self),
            },
    {
        match key {
            Key::Tab | Key::Down => {
                self.focus_next();
                true
            },
            Key::BackTab | Key::Up => {
                self.focus_prev();
                true
            },
            Key::Enter => {
                if self.focused_field() == TelegramField::DeployToVps {
                    if !is_blank(self.token.as_str()) {
                        self.deploy_requested = true;
                    }
                } else {
                    self.focus_next();
                }
                true
            },
            Key::Char(c) => {
                if self.focused_field() == TelegramField::Token {
                    push_char(&mut self.token, c);
                    true
                } else {
                    false
                }
            },
            Key::Backspace => {
                if self.focused_field() == TelegramField::Token {
                    self.token = without_last(&self.token);
                    true
                } else {
                    false
                }
            },
            _ => false,
        }
    }

    /// Clear the deployment progress.
    pub fn reset(&mut self)
        ensures
            final(self).deploy_status is Idle,
            !final(self).deploy_requested,
            final(self).token == old(self).token,
            final(self).focused == old(self).focused,
    {
        self.deploy_status = DeployStatus::Idle;
        self.deploy_requested = false;
    }
}

/// Characters allowed in the secret part of a bot token.
pub open spec fn secret_char(c: char) -> bool {
    is_ascii_alnum(c) || c == '-' || c == '_'
}

/// A bot token `<digits>:<secret>` with a non-empty decimal bot id and a
/// non-empty secret of letters, digits, `-` and `_`.
pub open spec fn token_shape(t: Seq<char>) -> bool {
    exists|p: int|
        0 < p < t.len() - 1 && #[trigger] t[p] == ':' && (forall|j: int|
            0 <= j < p ==> is_ascii_digit(#[trigger] t[j])) && (forall|j: int|
            p < j < t.len() ==> secret_char(#[trigger] t[j]))
}

proof fn lemma_token_colon(t: Seq<char>, p: int)
    requires
        token_shape(t),
        0 <= p < t.len(),
        t[p] == ':',
        forall|j: int| 0 <= j < p ==> is_ascii_digit(#[trigger] t[j]),
    ensures
        0 < p < t.len() - 1,
        forall|k: int| p < k < t.len() ==> secret_char(#[trigger] t[k]),
{
    let q = choose|q: int|
        0 < q < t.len() - 1 && #[trigger] t[q] == ':' && (forall|j: int|
            0 <= j < q ==> is_ascii_digit(#[trigger] t[j])) && (forall|j: int|
            q < j < t.len() ==> secret_char(#[trigger] t[j]));
    if q < p {
        assert(is_ascii_digit(t[q]));
    } else if q > p {
        assert(is_ascii_digit(t[p]));
    }
}

/// Whether `token`, trimmed, has the shape of a Telegram bot token.
pub fn is_valid_token(token: &str) -> (b: bool)
    ensures
        b == token_shape(trim(token@)),
{
    let t = trim_str(token);
    let v = chars_of(t.as_str());
    let n = v.len();
    let mut p: usize = 0;
    while p < n && '0' <= v[p] && v[p] <= '9'
        invariant
            v@ == trim(token@),
            n == v.len(),
            p <= n,
            forall|j: int| 0 <= j < p ==> is_ascii_digit(#[trigger] v@[j]),
        decreases n - p,
    {
        p = p + 1;
    }
    if p == 0 || p >= n || v[p] != ':' || p + 1 >= n {
        proof {
            if token_shape(v@) {
                let q = choose|q: int|
                    0 < q < v@.len() - 1 && #[trigger] v@[q] == ':' && (forall|j: int|
                        0 <= j < q ==> is_ascii_digit(#[trigger] v@[j])) && (forall|j: int|
                        q < j < v@.len() ==> secret_char(#[trigger] v@[j]));
                if q < p {
                    assert(is_ascii_digit(v@[q]));
                } else if q > p {
                    assert(p < n);
                    assert(is_ascii_digit(v@[p as int]));
                }
            }
        }
        return false;
    }
    let mut j: usize = p + 1;
    while j < n
        invariant
            v@ == trim(token@),
            n == v.len(),
            p + 1 <= j <= n,
            0 < p < n,
            v@[p as int] == ':',
            forall|k: int| 0 <= k < p ==> is_ascii_digit(#[trigger] v@[k]),
            forall|k: int| p < k < j ==> secret_char(#[trigger] v@[k]),
        decreases n - j,
    {
        let c = v[j];
        if !(('0' <= c && c <= '9') || ('a' <= c && c <= 'z') || ('A' <= c && c <= 'Z') || c == '-'
            || c == '_') {
            proof {
                if token_shape(v@) {
                    lemma_token_colon(v@, p as int);
                    assert(secret_char(v@[j as int]));
                }
            }
            return false;
        }
        j = j + 1;
    }
    assert(v@[p as int] == ':');
    true
}

/// Compose file for running the bot next to the Xray container.
pub open spec fn compose_yaml(token: Seq<char>, container: Seq<char>) -> Seq<char> {
    "services:\n  axadmin-bot:\n    image: axadmin:latest\n    build: .\n    restart: unless-stopped\n    volumes:\n      - /var/run/docker.sock:/var/run/docker.sock\n      - axadmin-data:/root/.config/amnezia-xray-admin\n    environment:\n      - TELEGRAM_TOKEN="@
        + token + "\n    command: --telegram-bot --local --container "@ + container
        + "\nvolumes:\n  axadmin-data:\n"@
}

pub fn generate_compose_yaml(token: &str, container: &str) -> (s: String)
    ensures
        s@ == compose_yaml(token@, container@),
{
    let mut s = new_string();
    push_str(
        &mut s,
        "services:\n  axadmin-bot:\n    image: axadmin:latest\n    build: .\n    restart: unless-stopped\n    volumes:\n      - /var/run/docker.sock:/var/run/docker.sock\n      - axadmin-data:/root/.config/amnezia-xray-admin\n    environment:\n      - TELEGRAM_TOKEN=",
    );
    push_str(&mut s, token);
    push_str(&mut s, "\n    command: --telegram-bot --local --container ");
    push_str(&mut s, container);
    push_str(&mut s, "\nvolumes:\n  axadmin-data:\n");
    s
}

/// `n` copies of `c`.
pub open spec fn repeat_char(c: char, n: nat) -> Seq<char> {
    Seq::new(n, |i: int| c)
}

/// A token as displayed: tokens of at most five bytes in full, longer ones
/// as their first five characters followed by one `*` per remaining byte,
/// at most thirty.
pub open spec fn masked(t: Seq<char>) -> Seq<char> {
    if utf8_len(t) <= 5 {
        t
    } else {
        let hidden = (utf8_len(t) - 5) as nat;
        t.subrange(0, if t.len() < 5 { t.len() as int } else { 5 }) + repeat_char(
            '*',
            if hidden < 30 { hidden } else { 30 },
        )
    }
}

pub fn mask_token(token: &str) -> (s: String)
    ensures
        s@ == masked(token@),
{
    let n = byte_len_capped(token, 36);
    if n <= 5 {
        return owned(token);
    }
    let v = chars_of(token);
    let k: usize = if v.len() < 5 { v.len() } else { 5 };
    let mut s = new_string();
    let mut i: usize = 0;
    while i < k
        invariant
            v@ == token@,
            k <= v.len(),
            i <= k,
            s@ == v@.subrange(0, i as int),
        decreases k - i,
    {
        push_char(&mut s, v[i]);
        assert(v@.subrange(0, i + 1) =~= v@.subrange(0, i as int).push(v@[i as int]));
        i = i + 1;
    }
    let stars: usize = if n - 5 < 30 { n - 5 } else { 30 };
    let ghost pre = s@;
    let mut m: usize = 0;
    while m < stars
        invariant
            m <= stars,
            s@ == pre + repeat_char('*', m as nat),
        decreases stars - m,
    {
        push_char(&mut s, '*');
        assert(repeat_char('*', (m + 1) as nat) =~= repeat_char('*', m as nat).push('*'));
        m = m + 1;
    }
    s
}


// ---- what the screen shows -------------------------------------------------------------

/// How to get a token from @BotFather.
pub open spec fn instruction_rows() -> Seq<Seq<(Seq<char>, Style)>> {
    seq![
        seq![("  Setup your Telegram bot to manage VPN users remotely:"@, secondary_look())],
        Seq::empty(),
        seq![("  1. Open @BotFather in Telegram"@, text_look())],
        seq![("  2. Send /newbot and follow the prompts"@, text_look())],
        seq![("  3. Copy the bot token and paste it below"@, text_look())],
        seq![("  4. After deploy, send /start to your bot to become admin"@, muted_look())],
    ]
}

fn draw_instructions() -> (r: Vec<Vec<Piece>>)
    ensures
        lines_view(r) == instruction_rows(),
{
    let mut rows: Vec<Vec<Piece>> = Vec::new();
    push_one(&mut rows, piece("  Setup your Telegram bot to manage VPN users remotely:", secondary_style()));
    push_blank(&mut rows);
    push_one(&mut rows, piece("  1. Open @BotFather in Telegram", text_style()));
    push_one(&mut rows, piece("  2. Send /newbot and follow the prompts", text_style()));
    push_one(&mut rows, piece("  3. Copy the bot token and paste it below", text_style()));
    push_one(&mut rows, piece("  4. After deploy, send /start to your bot to become admin", muted_style()));
    assert(lines_view(rows) =~= instruction_rows());
    rows
}

/// The token field: its label, the separator (`> ` when focused) and the
/// masked token, with a cursor when focused.
pub open spec fn token_cells(token: Seq<char>, focused: bool) -> Seq<(Seq<char>, Style)> {
    let label = if focused { secondary_look() } else { muted_look() };
    let shown = if token.len() == 0 {
        if focused { "_"@ } else { Seq::empty() }
    } else {
        if focused { masked(token) + "_"@ } else { masked(token) }
    };
    seq![
        ("Bot Token"@, label),
        (if focused { "> "@ } else { ": "@ }, label),
        (shown, if focused { title_look() } else { text_look() }),
    ]
}

fn draw_token_input(state: &TelegramSetupState) -> (r: Vec<Piece>)
    requires
        state.focused < FIELD_COUNT,
    ensures
        line_view(r) == token_cells(state.token@, field_at(state.focused as nat) == TelegramField::Token),
{
    let focused = state.focused_field() == TelegramField::Token;
    let label = if focused {
        secondary_style()
    } else {
        muted_style()
    };
    let shown = if state.token.as_str().unicode_len() == 0 {
        if focused {
            owned("_")
        } else {
            new_string()
        }
    } else {
        let mut m = mask_token(state.token.as_str());
        if focused {
            push_str(&mut m, "_");
        }
        m
    };
    let mut cells: Vec<Piece> = Vec::new();
    push_piece(&mut cells, piece("Bot Token", label));
    push_piece(&mut cells, piece(if focused { "> " } else { ": " }, label));
    push_piece(&mut cells, piece_of(shown, if focused { title_style() } else { text_style() }));
    assert(line_view(cells) =~= token_cells(state.token@, focused));
    cells
}

fn draw_deploy_button(state: &TelegramSetupState) -> (r: Piece)
    requires
        state.focused < FIELD_COUNT,
    ensures
        piece_view(r) == ("[ Deploy to VPS ]"@, if field_at(state.focused as nat) == TelegramField::DeployToVps {
            selected_look()
        } else {
            secondary_look()
        }),
{
    let focused = state.focused_field() == TelegramField::DeployToVps;
    piece("[ Deploy to VPS ]", if focused { selected_style() } else { secondary_style() })
}

/// The line on the deployment's progress; none before it starts.
pub open spec fn status_piece(s: DeployStatus) -> Option<(Seq<char>, Style)> {
    match s {
        DeployStatus::Idle => None,
        DeployStatus::Connecting => Some(("  Connecting to VPS..."@, secondary_look())),
        DeployStatus::BuildingImage => Some(
            ("  Building Docker image (this may take a few minutes)..."@, secondary_look()),
        ),
        DeployStatus::CreatingCompose => Some(("  Creating docker-compose configuration..."@, secondary_look())),
        DeployStatus::StartingBot => Some(("  Starting bot container..."@, secondary_look())),
        DeployStatus::Verifying => Some(("  Verifying bot is running..."@, secondary_look())),
        DeployStatus::Success(m) => Some(("  OK: "@ + m@, title_look())),
        DeployStatus::Error(m) => Some(("  Error: "@ + m@, alert_look())),
    }
}

fn draw_deploy_status(state: &TelegramSetupState) -> (r: Option<Piece>)
    ensures
        match r {
            Some(p) => status_piece(state.deploy_status) == Some(piece_view(p)),
            None => status_piece(state.deploy_status) is None,
        },
{
    match &state.deploy_status {
        DeployStatus::Idle => None,
        DeployStatus::Connecting => Some(piece("  Connecting to VPS...", secondary_style())),
        DeployStatus::BuildingImage => Some(
            piece("  Building Docker image (this may take a few minutes)...", secondary_style()),
        ),
        DeployStatus::CreatingCompose => Some(piece("  Creating docker-compose configuration...", secondary_style())),
        DeployStatus::StartingBot => Some(piece("  Starting bot container...", secondary_style())),
        DeployStatus::Verifying => Some(piece("  Verifying bot is running...", secondary_style())),
        DeployStatus::Success(m) => {
            let mut t = owned("  OK: ");
            push_str(&mut t, m.as_str());
            Some(piece_of(t, title_style()))
        },
        DeployStatus::Error(m) => {
            let mut t = owned("  Error: ");
            push_str(&mut t, m.as_str());
            Some(piece_of(t, alert_style()))
        },
    }
}

/// What the setup screen shows: its title and border, the instructions,
/// the token field, the deploy button and the deployment's progress.
pub struct SetupScreen {
    pub title: Piece,
    pub border: Style,
    pub instructions: Vec<Vec<Piece>>,
    pub token: Vec<Piece>,
    pub button: Piece,
    pub status: Option<Piece>,
}

/// What the setup screen shows.
pub fn draw(state: &TelegramSetupState) -> (r: SetupScreen)
    requires
        state.focused < FIELD_COUNT,
    ensures
        piece_view(r.title) == (" Telegram Bot Setup "@, accent_look()),
        r.border == border_look(),
        lines_view(r.instructions) == instruction_rows(),
        line_view(r.token) == token_cells(state.token@, field_at(state.focused as nat) == TelegramField::Token),
        piece_view(r.button) == ("[ Deploy to VPS ]"@, if field_at(state.focused as nat)
            == TelegramField::DeployToVps {
            selected_look()
        } else {
            secondary_look()
        }),
        match r.status {
            Some(p) => status_piece(state.deploy_status) == Some(piece_view(p)),
            None => status_piece(state.deploy_status) is None,
        },
{
    SetupScreen {
        title: piece(" Telegram Bot Setup ", accent_style()),
        border: border_style(),
        instructions: draw_instructions(),
        token: draw_token_input(state),
        button: draw_deploy_button(state),
        status: draw_deploy_status(state),
    }
}

} // verus!
