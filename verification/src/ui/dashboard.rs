//! The dashboard: the user table, its selection, and byte-count rendering.

use vstd::prelude::*;

use crate::text::{byte_prefix, byte_prefix_chars, owned, chars_of, dec, digit, digit_char, new_string, push_char, push_dec, push_str, string_from_chars};
use crate::ui::theme::{
    accent_look, accent_style, alert_look, alert_style, header_look, header_style, line_view,
    lines_view, muted_look, muted_style, piece, piece_of, plain_look, plain_style, push_blank,
    push_line, push_one, push_piece, secondary_look, secondary_style, text_look, text_style,
    title_look, title_style, Piece, Style,
};
use crate::xray::types::XrayUser;

verus! {

/// Number of frames of the loading spinner.
pub const SPINNER_FRAME_COUNT: usize = 10;

/// The spinner character of frame `i` (braille dots turning).
pub open spec fn spinner_frame(i: nat) -> char {
    if i == 0 {
        '\u{280b}'
    } else if i == 1 {
        '\u{2819}'
    } else if i == 2 {
        '\u{2839}'
    } else if i == 3 {
        '\u{2838}'
    } else if i == 4 {
        '\u{283c}'
    } else if i == 5 {
        '\u{2834}'
    } else if i == 6 {
        '\u{2826}'
    } else if i == 7 {
        '\u{2827}'
    } else if i == 8 {
        '\u{2807}'
    } else {
        '\u{280f}'
    }
}

/// Selection state of the user table.
#[derive(Debug, Clone, Copy, PartialEq, Eq, Default)]
pub struct TableState {
    pub selected: Option<usize>,
    pub offset: usize,
}

impl TableState {
    pub fn selected(&self) -> (r: Option<usize>)
        ensures
            r == self.selected,
    {
        self.selected
    }

    pub fn select(&mut self, index: Option<usize>)
        ensures
            final(self).selected == index,
            index is None ==> final(self).offset == 0,
            index is Some ==> final(self).offset == old(self).offset,
    {
        self.selected = index;
        if index.is_none() {
            self.offset = 0;
        }
    }
}

/// Dashboard state: the users and the table's selection.
pub struct DashboardState {
    pub users: Vec<XrayUser>,
    pub table_state: TableState,
    pub server_version: String,
    pub server_host: String,
    pub total_upload: u64,
    pub total_download: u64,
    pub loading: bool,
    pub spinner_frame: usize,
}

impl Default for DashboardState {
    fn default() -> (s: Self)
        ensures
            s.users@.len() == 0,
            s.table_state.selected is None,
            s.server_version@ == Seq::<char>::empty(),
            s.server_host@ == Seq::<char>::empty(),
            s.total_upload == 0,
            s.total_download == 0,
            s.loading,
            s.spinner_frame == 0,
    {
        DashboardState {
            users: Vec::new(),
            table_state: TableState { selected: None, offset: 0 },
            server_version: new_string(),
            server_host: new_string(),
            total_upload: 0,
            total_download: 0,
            loading: true,
            spinner_frame: 0,
        }
    }
}

/// Index selected after moving down from `sel` in a list of `n > 0` rows.
pub open spec fn next_index(sel: Option<usize>, n: nat) -> nat {
    match sel {
        Some(i) => if i >= n - 1 { 0 } else { (i + 1) as nat },
        None => 0,
    }
}

/// Index selected after moving up from `sel` in a list of `n > 0` rows.
pub open spec fn prev_index(sel: Option<usize>, n: nat) -> nat {
    match sel {
        Some(i) => if i == 0 { (n - 1) as nat } else { (i - 1) as nat },
        None => (n - 1) as nat,
    }
}

impl DashboardState {
    /// The selected user, if the selection is within the list.
    pub fn selected_user(&self) -> (r: Option<&XrayUser>)
        ensures
            match self.table_state.selected {
                Some(i) => if i < self.users@.len() {
                    r == Some(&self.users@[i as int])
                } else {
                    r is None
                },
                None => r is None,
            },
    {
        match self.table_state.selected {
            Some(i) => if i < self.users.len() {
                Some(&self.users[i])
            } else {
                None
            },
            None => None,
        }
    }

    /// The selected row index.
    pub fn selected(&self) -> (r: Option<usize>)
        ensures
            r == self.table_state.selected,
    {
        self.table_state.selected
    }

    /// Move the selection down, wrapping to the top.
    pub fn select_next(&mut self)
        ensures
            final(self).users == old(self).users,
            old(self).users@.len() == 0 ==> final(self).table_state == old(self).table_state,
            old(self).users@.len() > 0 ==> final(self).table_state.selected == Some(
                next_index(old(self).table_state.selected, old(self).users@.len()) as usize,
            ),
    {
        if self.users.len() == 0 {
            return ;
        }
        let next = match self.table_state.selected {
            Some(i) => if i >= self.users.len() - 1 {
                0
            } else {
                i + 1
            },
            None => 0,
        };
        self.table_state.select(Some(next));
    }

    /// Move the selection up, wrapping to the bottom.
    pub fn select_previous(&mut self)
        ensures
            final(self).users == old(self).users,
            old(self).users@.len() == 0 ==> final(self).table_state == old(self).table_state,
            old(self).users@.len() > 0 ==> final(self).table_state.selected == Some(
                prev_index(old(self).table_state.selected, old(self).users@.len()) as usize,
            ),
    {
        if self.users.len() == 0 {
            return ;
        }
        let prev = match self.table_state.selected {
            Some(i) => if i == 0 {
                self.users.len() - 1
            } else {
                i - 1
            },
            None => self.users.len() - 1,
        };
        self.table_state.select(Some(prev));
    }

    /// Advance the spinner by one frame.
    pub fn tick_spinner(&mut self)
        requires
            old(self).spinner_frame < usize::MAX,
        ensures
            final(self).spinner_frame == (old(self).spinner_frame + 1) % (SPINNER_FRAME_COUNT as int),
            final(self).users == old(self).users,
            final(self).table_state == old(self).table_state,
    {
        self.spinner_frame = (self.spinner_frame + 1) % SPINNER_FRAME_COUNT;
    }

    /// The spinner character of the current frame.
    pub fn spinner_char(&self) -> (c: char)
        ensures
            c == spinner_frame((self.spinner_frame % SPINNER_FRAME_COUNT) as nat),
    {
        let i = self.spinner_frame % SPINNER_FRAME_COUNT;
        if i == 0 {
            '\u{280b}'
        } else if i == 1 {
            '\u{2819}'
        } else if i == 2 {
            '\u{2839}'
        } else if i == 3 {
            '\u{2838}'
        } else if i == 4 {
            '\u{283c}'
        } else if i == 5 {
            '\u{2834}'
        } else if i == 6 {
            '\u{2826}'
        } else if i == 7 {
            '\u{2827}'
        } else if i == 8 {
            '\u{2807}'
        } else {
            '\u{280f}'
        }
    }

    /// Replace the user list: an empty list clears the selection, a
    /// selection past the end moves to the last row, no selection becomes
    /// the first row.
    pub fn set_users(&mut self, users: Vec<XrayUser>)
        ensures
            final(self).users == users,
            final(self).table_state.selected == if users@.len() == 0 {
                None
            } else {
                match old(self).table_state.selected {
                    Some(i) => if i >= users@.len() {
                        Some((users@.len() - 1) as usize)
                    } else {
                        Some(i)
                    },
                    None => Some(0usize),
                }
            },
    {
        let selected = self.table_state.selected;
        self.users = users;
        if self.users.len() == 0 {
            self.table_state.select(None);
        } else {
            match selected {
                Some(i) => {
                    if i >= self.users.len() {
                        let last = self.users.len() - 1;
                        self.table_state.select(Some(last));
                    }
                },
                None => {
                    self.table_state.select(Some(0));
                },
            }
        }
    }
}

/// 2 to the power `k`.
pub open spec fn p2(k: nat) -> nat
    decreases k,
{
    if k == 0 {
        1
    } else {
        2 * p2((k - 1) as nat)
    }
}

/// Number of halvings that bring `n` below 2^53, and what is left.
pub open spec fn f64_split(n: nat) -> (nat, nat)
    decreases n,
{
    if n < 0x20_0000_0000_0000 {
        (n, 0)
    } else {
        let (q, s) = f64_split(n / 2);
        (q, s + 1)
    }
}

/// The value of `n as f64`: `n` rounded to 53 significant bits, ties to
/// even.
pub open spec fn f64_value(n: nat) -> nat {
    let (q, s) = f64_split(n);
    if s == 0 {
        n
    } else {
        let r = n - q * p2(s);
        let half = p2((s - 1) as nat);
        if r > half || (r == half && q % 2 == 1) {
            (q + 1) * p2(s)
        } else {
            q * p2(s)
        }
    }
}

/// Index of the unit (B, KB, MB, GB, TB) a byte count is shown in.
pub open spec fn unit_index(f: nat) -> nat {
    if f >= 0x100_0000_0000 {
        4
    } else if f >= 0x4000_0000 {
        3
    } else if f >= 0x10_0000 {
        2
    } else if f >= 0x400 {
        1
    } else {
        0
    }
}

pub open spec fn unit_name(i: nat) -> Seq<char> {
    if i == 1 {
        "KB"@
    } else if i == 2 {
        "MB"@
    } else if i == 3 {
        "GB"@
    } else if i == 4 {
        "TB"@
    } else {
        "B"@
    }
}

/// `f / 1024^i` in tenths, rounded to the nearest tenth, ties to even.
pub open spec fn tenths(f: nat, i: nat) -> nat {
    let d = p2(10 * i);
    let q = (f * 10) / d;
    let r = (f * 10) % d;
    if 2 * r > d || (2 * r == d && q % 2 == 1) {
        q + 1
    } else {
        q
    }
}

/// A byte count in human-readable form: plain bytes below 1 KiB (`512 B`),
/// otherwise the value in the largest unit it reaches, up to TiB, with one
/// decimal (`1.5 KB`), as Rust prints the `f64` quotient with `{:.1}`.
pub open spec fn bytes_text(n: nat) -> Seq<char> {
    let f = f64_value(n);
    let i = unit_index(f);
    if i == 0 {
        dec(n) + " B"@
    } else {
        let t = tenths(f, i);
        dec(t / 10) + "."@ + seq![digit_char(t % 10)] + " "@ + unit_name(i)
    }
}

proof fn lemma_p2_values()
    ensures
        p2(1) == 2,
        p2(10) == 0x400,
        p2(11) == 0x800,
        p2(20) == 0x10_0000,
        p2(30) == 0x4000_0000,
        p2(40) == 0x100_0000_0000,
{
    reveal_with_fuel(p2, 41);
}

/// `n as f64`, as an integer.
fn f64_round(n: u64) -> (r: u128)
    ensures
        r == f64_value(n as nat),
        r <= 0x1_0000_0000_0000_0000,
{
    if n < 0x20_0000_0000_0000 {
        return n as u128;
    }
    let mut q: u64 = n;
    let mut s: u32 = 0;
    let mut p: u64 = 1;
    while q >= 0x20_0000_0000_0000
        invariant
            s <= 11,
            p == p2(s as nat),
            1 <= p <= 0x800,
            q as nat * p as nat <= n as nat,
            f64_split(n as nat) == (f64_split(q as nat).0, f64_split(q as nat).1 + s as nat),
            n >= 0x20_0000_0000_0000,
            s == 0 ==> q == n,
        decreases q,
    {
        assert(p < 0x800) by (nonlinear_arith)
            requires
                q >= 0x20_0000_0000_0000,
                q as nat * p as nat <= n as nat,
                n <= u64::MAX,
                p >= 1,
        ;
        assert(s < 11) by {
            if s >= 11 {
                assert(p2(s as nat) >= 0x800) by {
                    lemma_p2_values();
                    lemma_p2_mono(11, s as nat);
                }
            }
        }
        assert(p <= 0x400) by {
            lemma_p2_values();
            lemma_p2_mono(s as nat, 10);
        }
        let q2 = q / 2;
        assert(q2 as nat * (2 * p) as nat <= n as nat) by (nonlinear_arith)
            requires
                q2 == q / 2,
                q as nat * p as nat <= n as nat,
        ;
        q = q2;
        s = s + 1;
        p = p * 2;
    }
    proof {
        lemma_p2_values();
    }
    let rem: u64 = n - q * p;
    let half: u64 = p / 2;
    assert(half == p2((s - 1) as nat));
    let q128 = q as u128;
    let p128 = p as u128;
    let up = rem > half || (rem == half && q % 2 == 1);
    assert((q as nat + 1) * (p as nat) <= 0x1_0000_0000_0000_0000) by (nonlinear_arith)
        requires
            q < 0x20_0000_0000_0000,
            p <= 0x800,
    ;
    if up {
        (q128 + 1) * p128
    } else {
        q128 * p128
    }
}

proof fn lemma_p2_mono(a: nat, b: nat)
    requires
        a <= b,
    ensures
        p2(a) <= p2(b),
    decreases b,
{
    if a < b {
        lemma_p2_mono(a, (b - 1) as nat);
    }
}

/// A byte count in human-readable form (see `bytes_text`).
pub fn format_bytes(bytes: u64) -> (s: String)
    ensures
        s@ == bytes_text(bytes as nat),
{
    proof {
        reveal_strlit(" B");
        reveal_strlit(".");
        reveal_strlit(" ");
        reveal_strlit("KB");
        reveal_strlit("MB");
        reveal_strlit("GB");
        reveal_strlit("TB");
        lemma_p2_values();
    }
    let f = f64_round(bytes);
    let mut s = new_string();
    let (i, d): (u64, u128) = if f >= 0x100_0000_0000 {
        (4, 0x100_0000_0000)
    } else if f >= 0x4000_0000 {
        (3, 0x4000_0000)
    } else if f >= 0x10_0000 {
        (2, 0x10_0000)
    } else if f >= 0x400 {
        (1, 0x400)
    } else {
        (0, 1)
    };
    if i == 0 {
        push_dec(&mut s, bytes);
        push_str(&mut s, " B");
        assert(s@ =~= bytes_text(bytes as nat));
        return s;
    }
    assert(d == p2(10 * i as nat)) by {
        reveal_with_fuel(p2, 41);
    }
    let num: u128 = f * 10;
    let q: u128 = num / d;
    let r: u128 = num % d;
    let t: u128 = if 2 * r > d || (2 * r == d && q % 2 == 1) {
        q + 1
    } else {
        q
    };
    assert(t == tenths(f as nat, i as nat));
    assert(t <= 0x100_0000_0000_0000_0000) by (nonlinear_arith)
        requires
            q == num / d,
            d >= 0x400,
            num <= 0xA_0000_0000_0000_0000,
            t <= q + 1,
    ;
    let t64: u64 = t as u64;
    push_dec(&mut s, t64 / 10);
    push_str(&mut s, ".");
    push_char(&mut s, digit(t64 % 10));
    push_str(&mut s, " ");
    if i == 1 {
        push_str(&mut s, "KB");
    } else if i == 2 {
        push_str(&mut s, "MB");
    } else if i == 3 {
        push_str(&mut s, "GB");
    } else {
        push_str(&mut s, "TB");
    }
    assert(s@ =~= bytes_text(bytes as nat));
    s
}

/// The first eight bytes of a UUID, or all of it when it is shorter or
/// byte eight falls inside a character.
pub fn truncate_uuid(uuid: &str) -> (r: String)
    ensures
        r@ == byte_prefix(uuid@, 8),
{
    let v = chars_of(uuid);
    match byte_prefix_chars(&v, 8) {
        Some(k) => string_from_chars(&v, 0, k),
        None => owned(uuid),
    }
}

// ---- what the dashboard shows ----------------------------------------------------------

/// The server header: an empty line, then the host (`connecting...` while
/// unknown), the Xray version (`-` while unknown), the traffic, the number
/// of users and, while loading, the spinner.
pub open spec fn server_info_rows(
    host: Seq<char>,
    version: Seq<char>,
    up: nat,
    down: nat,
    users: nat,
    loading: bool,
    spin: char,
) -> Seq<Seq<(Seq<char>, Style)>> {
    seq![
        Seq::empty(),
        seq![
            ("  Host: "@, muted_look()),
            (if host.len() == 0 { "connecting..."@ } else { host }, text_look()),
            ("  |  Xray: "@, muted_look()),
            (if version.len() == 0 { "-"@ } else { version }, text_look()),
            ("  |  "@, muted_look()),
            ("Up: "@ + bytes_text(up) + "  Down: "@ + bytes_text(down), secondary_look()),
            ("  |  Users: "@ + dec(users), muted_look()),
            (if loading { " "@ + seq![spin] + " Loading..."@ } else { Seq::empty() }, accent_look()),
        ],
    ]
}

/// The lines of the server header.
pub fn draw_server_info(state: &DashboardState) -> (r: Vec<Vec<Piece>>)
    ensures
        lines_view(r) == server_info_rows(
            state.server_host@,
            state.server_version@,
            state.total_upload as nat,
            state.total_download as nat,
            state.users@.len(),
            state.loading,
            spinner_frame((state.spinner_frame % SPINNER_FRAME_COUNT) as nat),
        ),
{
    let host = if state.server_host.as_str().unicode_len() == 0 {
        owned("connecting...")
    } else {
        owned(state.server_host.as_str())
    };
    let version = if state.server_version.as_str().unicode_len() == 0 {
        owned("-")
    } else {
        owned(state.server_version.as_str())
    };
    let mut traffic = owned("Up: ");
    push_str(&mut traffic, format_bytes(state.total_upload).as_str());
    push_str(&mut traffic, "  Down: ");
    push_str(&mut traffic, format_bytes(state.total_download).as_str());
    let mut users = owned("  |  Users: ");
    push_dec(&mut users, state.users.len() as u64);
    let mut loading = new_string();
    if state.loading {
        push_str(&mut loading, " ");
        push_char(&mut loading, state.spinner_char());
        push_str(&mut loading, " Loading...");
        assert(loading@ =~= " "@ + seq![spinner_frame((state.spinner_frame % SPINNER_FRAME_COUNT) as nat)]
            + " Loading..."@);
    }
    let mut line: Vec<Piece> = Vec::new();
    push_piece(&mut line, piece("  Host: ", muted_style()));
    push_piece(&mut line, piece_of(host, text_style()));
    push_piece(&mut line, piece("  |  Xray: ", muted_style()));
    push_piece(&mut line, piece_of(version, text_style()));
    push_piece(&mut line, piece("  |  ", muted_style()));
    push_piece(&mut line, piece_of(traffic, secondary_style()));
    push_piece(&mut line, piece_of(users, muted_style()));
    push_piece(&mut line, piece_of(loading, accent_style()));
    let ghost expected = server_info_rows(
        state.server_host@,
        state.server_version@,
        state.total_upload as nat,
        state.total_download as nat,
        state.users@.len(),
        state.loading,
        spinner_frame((state.spinner_frame % SPINNER_FRAME_COUNT) as nat),
    );
    assert(line_view(line) =~= expected[1]);
    let mut rows: Vec<Vec<Piece>> = Vec::new();
    push_blank(&mut rows);
    push_line(&mut rows, line);
    assert(lines_view(rows) =~= server_info_rows(
        state.server_host@,
        state.server_version@,
        state.total_upload as nat,
        state.total_download as nat,
        state.users@.len(),
        state.loading,
        spinner_frame((state.spinner_frame % SPINNER_FRAME_COUNT) as nat),
    ));
    rows
}

/// The online column: a dot, with the number of connections when there
/// are any.
pub open spec fn online_text(n: nat) -> Seq<char> {
    if n > 0 {
        "\u{25cf} ("@ + dec(n) + ")"@
    } else {
        "\u{25cf}"@
    }
}

/// The cells of a user's row: a margin, the name, the start of the UUID,
/// the traffic, and whether the user is online.
pub open spec fn user_row(u: XrayUser) -> Seq<(Seq<char>, Style)> {
    seq![
        (" "@, plain_look()),
        (u.name@, text_look()),
        (byte_prefix(u.uuid@, 8), muted_look()),
        (bytes_text(u.stats.uplink as nat), secondary_look()),
        (bytes_text(u.stats.downlink as nat), secondary_look()),
        (online_text(u.online_count as nat), if u.online_count > 0 { title_look() } else { alert_look() }),
    ]
}

/// The header cells of the user table.
pub open spec fn table_header() -> Seq<(Seq<char>, Style)> {
    seq![
        (""@, header_look()),
        ("Name"@, header_look()),
        ("UUID"@, header_look()),
        ("Upload"@, header_look()),
        ("Download"@, header_look()),
        ("Online"@, header_look()),
    ]
}

/// The message shown in place of an empty table.
pub open spec fn no_users_rows(loading: bool) -> Seq<Seq<(Seq<char>, Style)>> {
    seq![
        Seq::empty(),
        seq![(if loading {
            "  Loading user data..."@
        } else {
            "  No users found. Press [a] to add a user."@
        }, muted_look())],
    ]
}

/// What the user table shows.
pub enum UserTable {
    /// There are no users: these lines stand in the table's place.
    Message(Vec<Vec<Piece>>),
    /// The header cells, and a row of cells per user.
    Rows { header: Vec<Piece>, rows: Vec<Vec<Piece>> },
}

fn user_row_cells(u: &XrayUser) -> (r: Vec<Piece>)
    ensures
        line_view(r) == user_row(*u),
{
    let mut online = owned("\u{25cf}");
    let style = if u.online_count > 0 {
        push_str(&mut online, " (");
        push_dec(&mut online, u.online_count as u64);
        push_str(&mut online, ")");
        title_style()
    } else {
        alert_style()
    };
    let mut l: Vec<Piece> = Vec::new();
    push_piece(&mut l, piece(" ", plain_style()));
    push_piece(&mut l, piece(u.name.as_str(), text_style()));
    push_piece(&mut l, piece_of(truncate_uuid(u.uuid.as_str()), muted_style()));
    push_piece(&mut l, piece_of(format_bytes(u.stats.uplink), secondary_style()));
    push_piece(&mut l, piece_of(format_bytes(u.stats.downlink), secondary_style()));
    push_piece(&mut l, piece_of(online, style));
    proof {
        reveal_strlit("\u{25cf}");
        reveal_strlit(" (");
        reveal_strlit("\u{25cf} (");
        if u.online_count > 0 {
            assert(online@ =~= "\u{25cf} ("@ + dec(u.online_count as nat) + ")"@);
        }
    }
    assert(online@ == online_text(u.online_count as nat));
    assert(line_view(l) =~= user_row(*u));
    l
}

/// The user table: a message while there are no users, else the header
/// and a row per user, in order.
pub fn draw_user_table(state: &DashboardState) -> (r: UserTable)
    ensures
        match r {
            UserTable::Message(ls) => state.users@.len() == 0 && lines_view(ls) == no_users_rows(state.loading),
            UserTable::Rows { header, rows } => {
                &&& state.users@.len() > 0
                &&& line_view(header) == table_header()
                &&& lines_view(rows) == state.users@.map_values(|u: XrayUser| user_row(u))
            },
        },
{
    if state.users.len() == 0 {
        let msg = if state.loading {
            "  Loading user data..."
        } else {
            "  No users found. Press [a] to add a user."
        };
        let mut ls: Vec<Vec<Piece>> = Vec::new();
        push_blank(&mut ls);
        push_one(&mut ls, piece(msg, muted_style()));
        assert(lines_view(ls) =~= no_users_rows(state.loading));
        return UserTable::Message(ls);
    }
    let mut header: Vec<Piece> = Vec::new();
    push_piece(&mut header, piece("", header_style()));
    push_piece(&mut header, piece("Name", header_style()));
    push_piece(&mut header, piece("UUID", header_style()));
    push_piece(&mut header, piece("Upload", header_style()));
    push_piece(&mut header, piece("Download", header_style()));
    push_piece(&mut header, piece("Online", header_style()));
    assert(line_view(header) =~= table_header());
    let mut rows: Vec<Vec<Piece>> = Vec::new();
    let mut i: usize = 0;
    while i < state.users.len()
        invariant
            i <= state.users@.len(),
            lines_view(rows) == state.users@.subrange(0, i as int).map_values(|u: XrayUser| user_row(u)),
        decreases state.users@.len() - i,
    {
        let cells = user_row_cells(&state.users[i]);
        push_line(&mut rows, cells);
        assert(state.users@.subrange(0, i + 1).map_values(|u: XrayUser| user_row(u)) =~= state.users@.subrange(
            0,
            i as int,
        ).map_values(|u: XrayUser| user_row(u)).push(user_row(state.users@[i as int])));
        i = i + 1;
    }
    assert(state.users@.subrange(0, i as int) =~= state.users@);
    UserTable::Rows { header, rows }
}

/// What the dashboard shows: the server header above the user table.
pub fn draw(state: &DashboardState) -> (r: (Vec<Vec<Piece>>, UserTable))
    ensures
        lines_view(r.0) == server_info_rows(
            state.server_host@,
            state.server_version@,
            state.total_upload as nat,
            state.total_download as nat,
            state.users@.len(),
            state.loading,
            spinner_frame((state.spinner_frame % SPINNER_FRAME_COUNT) as nat),
        ),
        match r.1 {
            UserTable::Message(ls) => state.users@.len() == 0 && lines_view(ls) == no_users_rows(state.loading),
            UserTable::Rows { header, rows } => {
                &&& state.users@.len() > 0
                &&& line_view(header) == table_header()
                &&& lines_view(rows) == state.users@.map_values(|u: XrayUser| user_row(u))
            },
        },
{
    (draw_server_info(state), draw_user_table(state))
}

} // verus!
