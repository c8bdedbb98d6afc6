//! QR codes drawn with Unicode half blocks for the terminal, two module
//! rows per line, inside a one-module quiet zone.

use vstd::prelude::*;

use crate::native::url::{qr_png_bytes, qr_png_result, QrPngFailure};
use crate::text::{new_string, owned, push_char, push_str};
use crate::ui::theme::{
    alert_look, alert_style, border_look, border_style, lines_view, muted_look, muted_style, piece, piece_of,
    piece_view, push_blank, push_one, secondary_look, secondary_style, text_look, text_style, Piece, Style,
};

verus! {

/// What `qrcode::QrCode::new` makes of a text: the number of modules per
/// side and, row by row, whether each module is dark; or the text of the
/// error.
pub uninterp spec fn qr_code(data: Seq<char>) -> Result<(nat, Seq<bool>), Seq<char>>;

/// `qrcode::QrCode::new(data)` with `width()` and `to_colors()` read out,
/// a module being `true` when it is dark.  The colors come row by row,
/// `width` per row (as the crate's `Index` reads them); the largest code,
/// version 40, is 177 modules wide.
#[verifier::external_body]
fn encode_qr(data: &str) -> (r: Result<(usize, Vec<bool>), String>)
    ensures
        match r {
            Ok((w, m)) => qr_code(data@) == Ok::<(nat, Seq<bool>), Seq<char>>((w as nat, m@)) && m@.len()
                == w * w && w <= 177,
            Err(e) => qr_code(data@) == Err::<(nat, Seq<bool>), Seq<char>>(e@),
        },
{
    match qrcode::QrCode::new(data.as_bytes()) {
        Ok(code) => Ok(
            (
                code.width(),
                code.to_colors().into_iter().map(|c| c == qrcode::Color::Dark).collect(),
            ),
        ),
        Err(e) => Err(e.to_string()),
    }
}

/// A module of the grid with its quiet zone: outside the code is light.
pub open spec fn dark(w: int, m: Seq<bool>, row: int, col: int) -> bool {
    0 <= row < w && 0 <= col < w && m[row * w + col]
}

/// The half block for a top and a bottom module.
pub open spec fn block(top: bool, bottom: bool) -> char {
    if top && bottom {
        '\u{2588}'
    } else if top {
        '\u{2580}'
    } else if bottom {
        '\u{2584}'
    } else {
        ' '
    }
}

/// The line that draws rows `y` and `y + 1`, quiet zone included.
pub open spec fn qr_line(w: int, m: Seq<bool>, y: int) -> Seq<char> {
    Seq::new((w + 2) as nat, |i: int| block(dark(w, m, y, i - 1), dark(w, m, y + 1, i - 1)))
}

/// The last line of a grid with an odd number of rows: its last row alone.
pub open spec fn qr_last_line(w: int, m: Seq<bool>) -> Seq<char> {
    Seq::new((w + 2) as nat, |i: int| block(dark(w, m, w, i - 1), false))
}

/// The lines drawing a `w`-wide code: rows -1 and 0, 1 and 2, ... of the
/// grid with its quiet zone, and for an odd number of rows a last line.
pub open spec fn qr_lines(w: int, m: Seq<bool>) -> Seq<Seq<char>> {
    Seq::new(((w + 3) / 2) as nat, |k: int| qr_line(w, m, 2 * k - 1)) + if (w + 2) % 2 != 0 {
        seq![qr_last_line(w, m)]
    } else {
        Seq::empty()
    }
}

/// Whether the module at (`row`, `col`) of the padded grid is dark.
fn module_dark(w: usize, m: &Vec<bool>, row: i64, col: i64) -> (r: bool)
    requires
        m@.len() == w * w,
        w < 0x1_0000_0000,
    ensures
        r == dark(w as int, m@, row as int, col as int),
{
    if row < 0 || col < 0 || row >= w as i64 || col >= w as i64 {
        false
    } else {
        let r = row as usize;
        let c = col as usize;
        let n = m.len();
        assert(r * w + c < n && r * w <= n) by (nonlinear_arith)
            requires
                r < w,
                c < w,
                n == w * w,
        ;
        m[r * w + c]
    }
}

/// One line of half blocks for rows `top` and `top + 1` (or `top` alone).
fn render_line(w: usize, m: &Vec<bool>, top: i64, pair: bool) -> (s: String)
    requires
        m@.len() == w * w,
        w < 0x1_0000_0000,
        -1 <= top <= w,
    ensures
        s@ == if pair {
            qr_line(w as int, m@, top as int)
        } else {
            Seq::new((w + 2) as nat, |i: int| block(dark(w as int, m@, top as int, i - 1), false))
        },
{
    let ghost target = if pair {
        qr_line(w as int, m@, top as int)
    } else {
        Seq::new((w + 2) as nat, |i: int| block(dark(w as int, m@, top as int, i - 1), false))
    };
    let mut line = new_string();
    let mut x: i64 = -1;
    while x < w as i64 + 1
        invariant
            m@.len() == w * w,
            w < 0x1_0000_0000,
            -1 <= top <= w,
            -1 <= x <= w + 1,
            target == if pair {
                qr_line(w as int, m@, top as int)
            } else {
                Seq::new((w + 2) as nat, |i: int| block(dark(w as int, m@, top as int, i - 1), false))
            },
            line@ == target.subrange(0, x + 1),
        decreases w + 1 - x,
    {
        let t = module_dark(w, m, top, x);
        let b = if pair {
            module_dark(w, m, top + 1, x)
        } else {
            false
        };
        let c = if t && b {
            '\u{2588}'
        } else if t {
            '\u{2580}'
        } else if b {
            '\u{2584}'
        } else {
            ' '
        };
        push_char(&mut line, c);
        assert(target.subrange(0, x + 2) =~= target.subrange(0, x + 1).push(target[x + 1]));
        x = x + 1;
    }
    assert(target.subrange(0, (w + 2) as int) =~= target);
    line
}

/// Draws the QR code of `data` as lines of half blocks.
pub fn render_qr_to_lines(data: &str) -> (r: Result<Vec<String>, String>)
    ensures
        match qr_code(data@) {
            Ok((w, m)) => r matches Ok(lines) && lines@.map_values(|s: String| s@) == qr_lines(
                w as int,
                m,
            ),
            Err(e) => r matches Err(msg) && msg@ == "QR encode error: "@ + e,
        },
{
    let (w, m) = match encode_qr(data) {
        Ok(x) => x,
        Err(e) => {
            let mut msg = owned("QR encode error: ");
            push_str(&mut msg, e.as_str());
            return Err(msg);
        },
    };
    let ghost all = qr_lines(w as int, m@);
    let npairs: usize = (w + 3) / 2;
    let mut lines: Vec<String> = Vec::new();
    let mut k: usize = 0;
    while k < npairs
        invariant
            m@.len() == w * w,
            w <= 177,
            npairs == (w + 3) / 2,
            k <= npairs,
            lines@.map_values(|s: String| s@) == Seq::new(k as nat, |j: int| qr_line(w as int, m@, 2 * j - 1)),
        decreases npairs - k,
    {
        let top: i64 = 2 * (k as i64) - 1;
        let line = render_line(w, &m, top, true);
        let ghost before = lines@;
        assert(before.map_values(|s: String| s@).len() == k);
        assert(before.len() == k);
        let ghost lv = line@;
        lines.push(line);
        assert forall|j: int| 0 <= j < k implies #[trigger] lines@[j]@ == qr_line(w as int, m@, 2 * j - 1) by {
            assert(lines@[j] == before[j]);
            assert(before.map_values(|s: String| s@)[j] == before[j]@);
        }
        assert(lines@[k as int]@ == lv);
        assert(lines@.map_values(|s: String| s@) =~= Seq::new((k + 1) as nat, |j: int| qr_line(w as int, m@, 2 * j - 1)));
        k = k + 1;
    }
    let ghost before = lines@;
    assert(before.map_values(|s: String| s@).len() == npairs);
    assert(before.len() == npairs);
    if (w + 2) % 2 != 0 {
        let line = render_line(w, &m, w as i64, false);
        let ghost lv = line@;
        lines.push(line);
        assert forall|j: int| 0 <= j < npairs implies #[trigger] lines@[j]@ == qr_line(w as int, m@, 2 * j - 1) by {
            assert(lines@[j] == before[j]);
            assert(before.map_values(|s: String| s@)[j] == before[j]@);
        }
        assert(lines@[npairs as int]@ == lv);
    }
    assert(lines@.map_values(|s: String| s@) =~= all);
    Ok(lines)
}

/// The QR view: the user shown, the URL and its drawing or what went
/// The QR code of `data` as a PNG image of at least `scale` pixels per
/// module of the smallest code (21 modules a side).
pub fn render_qr_to_png(data: &str, scale: u32) -> (r: Result<Vec<u8>, String>)
    requires
        scale * 21 <= u32::MAX,
    ensures
        match qr_png_result(data@, (scale * 21) as u32) {
            Ok(b) => r matches Ok(x) && x@ == b,
            Err((encoding, e)) => r matches Err(msg) && msg@ == (if encoding {
                "QR encode error: "@
            } else {
                "PNG encode error: "@
            }) + e,
        },
{
    match qr_png_bytes(data, scale * 21) {
        Ok(b) => Ok(b),
        Err(QrPngFailure::Encode(e)) => {
            let mut m = owned("QR encode error: ");
            push_str(&mut m, e.as_str());
            Err(m)
        },
        Err(QrPngFailure::Write(e)) => {
            let mut m = owned("PNG encode error: ");
            push_str(&mut m, e.as_str());
            Err(m)
        },
    }
}

/// The QR view: the user named in its title, the URL encoded, the lines of
/// the code once drawn, or what went wrong drawing it.
#[derive(Debug, Clone, Default)]
pub struct QrViewState {
    pub user_name: String,
    pub vless_url: String,
    pub qr_lines: Vec<String>,
    pub error: Option<String>,
}

impl QrViewState {
    /// Opens the view for a user and the URL to draw.
    pub fn open(&mut self, user_name: String, vless_url: String)
        ensures
            final(self).user_name@ == user_name@,
            final(self).vless_url@ == vless_url@,
            match render_qr_spec(vless_url@) {
                Ok(ls) => final(self).qr_lines@.map_values(|s: String| s@) == ls && final(self).error is None,
                Err(e) => final(self).qr_lines@.len() == 0 && (final(self).error matches Some(m) && m@ == e),
            },
    {
        self.user_name = user_name;
        match render_qr_to_lines(vless_url.as_str()) {
            Ok(lines) => {
                self.qr_lines = lines;
                self.error = None;
            },
            Err(e) => {
                self.qr_lines = Vec::new();
                self.error = Some(e);
            },
        }
        self.vless_url = vless_url;
    }

    /// Clears the view.
    pub fn close(&mut self)
        ensures
            final(self).user_name@.len() == 0,
            final(self).vless_url@.len() == 0,
            final(self).qr_lines@.len() == 0,
            final(self).error is None,
    {
        self.user_name = new_string();
        self.vless_url = new_string();
        self.qr_lines = Vec::new();
        self.error = None;
    }
}

/// What `render_qr_to_lines` gives for a text.
pub open spec fn render_qr_spec(data: Seq<char>) -> Result<Seq<Seq<char>>, Seq<char>> {
    match qr_code(data) {
        Ok((w, m)) => Ok(qr_lines(w as int, m)),
        Err(e) => Err("QR encode error: "@ + e),
    }
}


/// A drawn QR code is never empty, and all its lines are equally wide:
/// the code's width and its quiet zone.
pub proof fn lemma_qr_lines_same_width(data: Seq<char>)
    ensures
        render_qr_spec(data) matches Ok(ls) ==> {
            &&& ls.len() > 0
            &&& forall|i: int| 0 <= i < ls.len() ==> #[trigger] ls[i].len() == ls[0].len()
        },
{
    if let Ok((w, m)) = qr_code(data) {
        let ls = qr_lines(w as int, m);
        let head = Seq::new(((w + 3) / 2) as nat, |k: int| qr_line(w as int, m, 2 * k - 1));
        assert(head.len() > 0);
        assert(ls[0] == head[0]);
        assert forall|i: int| 0 <= i < ls.len() implies #[trigger] ls[i].len() == w + 2 by {
            if i < head.len() {
                assert(ls[i] == head[i]);
            } else {
                assert(ls[i] == qr_last_line(w as int, m));
            }
        }
    }
}

// ---- what the view shows ---------------------------------------------------------------

/// The body of the QR view: a message alone, or the code and below it the
/// URL.
pub enum QrBody {
    Message(Piece),
    Code { code: Vec<Vec<Piece>>, url: Vec<Vec<Piece>> },
}

/// What the QR view shows: its title and border, and its body.
pub struct QrScreen {
    pub title: Piece,
    pub border: Style,
    pub body: QrBody,
}

/// The line of the code.
pub open spec fn code_row(l: Seq<char>) -> Seq<(Seq<char>, Style)> {
    seq![(l, text_look())]
}

/// The body: the error where drawing failed, a note where there is no
/// code, else the code's lines above an empty line and the URL.
pub open spec fn qr_body_matches(b: QrBody, s: QrViewState) -> bool {
    match s.error {
        Some(e) => b matches QrBody::Message(p) && piece_view(p) == ("Error: "@ + e@, alert_look()),
        None => if s.qr_lines@.len() == 0 {
            b matches QrBody::Message(p) && piece_view(p) == ("No QR code to display"@, muted_look())
        } else {
            b matches QrBody::Code { code, url } && lines_view(code) == s.qr_lines@.map_values(
                |l: String| code_row(l@),
            ) && lines_view(url) == seq![Seq::empty(), seq![(s.vless_url@, secondary_look())]]
        },
    }
}

/// What the QR view shows, titled ` QR: <name> `.
pub fn draw(state: &QrViewState) -> (r: QrScreen)
    ensures
        piece_view(r.title) == (" QR: "@ + state.user_name@ + " "@, secondary_look()),
        r.border == border_look(),
        qr_body_matches(r.body, *state),
{
    let mut t = owned(" QR: ");
    push_str(&mut t, state.user_name.as_str());
    push_str(&mut t, " ");
    let title = piece_of(t, secondary_style());
    let body = match &state.error {
        Some(e) => {
            let mut m = owned("Error: ");
            push_str(&mut m, e.as_str());
            QrBody::Message(piece_of(m, alert_style()))
        },
        None => if state.qr_lines.len() == 0 {
            QrBody::Message(piece("No QR code to display", muted_style()))
        } else {
            let mut code: Vec<Vec<Piece>> = Vec::new();
            let mut i: usize = 0;
            while i < state.qr_lines.len()
                invariant
                    i <= state.qr_lines@.len(),
                    lines_view(code) == state.qr_lines@.subrange(0, i as int).map_values(|l: String| code_row(l@)),
                decreases state.qr_lines@.len() - i,
            {
                push_one(&mut code, piece(state.qr_lines[i].as_str(), text_style()));
                assert(state.qr_lines@.subrange(0, i + 1).map_values(|l: String| code_row(l@)) =~= state.qr_lines@.subrange(
                    0,
                    i as int,
                ).map_values(|l: String| code_row(l@)).push(code_row(state.qr_lines@[i as int]@)));
                i = i + 1;
            }
            assert(state.qr_lines@.subrange(0, i as int) =~= state.qr_lines@);
            let mut url: Vec<Vec<Piece>> = Vec::new();
            push_blank(&mut url);
            push_one(&mut url, piece(state.vless_url.as_str(), secondary_style()));
            assert(lines_view(url) =~= seq![Seq::empty(), seq![(state.vless_url@, secondary_look())]]);
            QrBody::Code { code, url }
        },
    };
    QrScreen { title, border: border_style(), body }
}

} // verus!
