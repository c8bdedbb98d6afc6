//! The look of the terminal screens: the palette, the styles built from it,
//! and the styled text the screens are made of.

use vstd::prelude::*;

use crate::text::owned;

verus! {

/// Near-black background, `#0a0a0a` (colours are `0xRRGGBB`).
pub const BG: u32 = 0x0a0a0a;

/// Matrix green, `#00ff41`.
pub const PRIMARY: u32 = 0x00ff41;

/// Cyan, `#00d4ff`.
pub const SECONDARY: u32 = 0x00d4ff;

/// Magenta, `#ff00ff`.
pub const ACCENT: u32 = 0xff00ff;

/// Neon red, `#ff0040`.
pub const ALERT: u32 = 0xff0040;

/// Dark gray, `#444444`.
pub const MUTED: u32 = 0x444444;

/// Green, `#00ff41`.
pub const SUCCESS: u32 = 0x00ff41;

/// Dark green, `#1a3a1a`.
pub const BORDER: u32 = 0x1a3a1a;

/// The background of the status line, `#050505`.
pub const STATUS_BG: u32 = 0x050505;

/// The background of table headers, `#050f05`.
pub const HEADER_BG: u32 = 0x050f05;

pub const LOGO: &'static str = "\n ▄▀█ ▀▄▀ ▄▀█ █▀▄ █▀▄▀█ █ █▄░█\n █▀█ █░█ █▀█ █▄▀ █░▀░█ █ █░▀█";

pub const APP_NAME: &'static str = "amnezia-xray-admin";

pub const APP_VERSION: &'static str = "v0.1.0";

/// How text is drawn: foreground and background colour where set, and
/// whether it is bold.
#[derive(Debug, Clone, Copy, PartialEq, Eq, Structural)]
pub struct Style {
    pub fg: Option<u32>,
    pub bg: Option<u32>,
    pub bold: bool,
}

pub open spec fn plain_look() -> Style {
    Style { fg: None, bg: None, bold: false }
}

pub open spec fn title_look() -> Style {
    Style { fg: Some(PRIMARY), bg: None, bold: true }
}

pub open spec fn text_look() -> Style {
    Style { fg: Some(PRIMARY), bg: Some(BG), bold: false }
}

pub open spec fn muted_look() -> Style {
    Style { fg: Some(MUTED), bg: Some(BG), bold: false }
}

pub open spec fn accent_look() -> Style {
    Style { fg: Some(ACCENT), bg: Some(BG), bold: false }
}

pub open spec fn alert_look() -> Style {
    Style { fg: Some(ALERT), bg: Some(BG), bold: false }
}

pub open spec fn secondary_look() -> Style {
    Style { fg: Some(SECONDARY), bg: Some(BG), bold: false }
}

pub open spec fn status_look() -> Style {
    Style { fg: Some(SECONDARY), bg: Some(STATUS_BG), bold: false }
}

pub open spec fn border_look() -> Style {
    Style { fg: Some(BORDER), bg: Some(BG), bold: false }
}

pub open spec fn selected_look() -> Style {
    Style { fg: Some(BG), bg: Some(PRIMARY), bold: true }
}

pub open spec fn header_look() -> Style {
    Style { fg: Some(PRIMARY), bg: Some(HEADER_BG), bold: true }
}

/// No colour, not bold.
pub fn plain_style() -> (s: Style)
    ensures
        s == plain_look(),
{
    Style { fg: None, bg: None, bold: false }
}

/// Bold green.
pub fn title_style() -> (s: Style)
    ensures
        s == title_look(),
{
    Style { fg: Some(PRIMARY), bg: None, bold: true }
}

pub fn text_style() -> (s: Style)
    ensures
        s == text_look(),
{
    Style { fg: Some(PRIMARY), bg: Some(BG), bold: false }
}

pub fn muted_style() -> (s: Style)
    ensures
        s == muted_look(),
{
    Style { fg: Some(MUTED), bg: Some(BG), bold: false }
}

pub fn accent_style() -> (s: Style)
    ensures
        s == accent_look(),
{
    Style { fg: Some(ACCENT), bg: Some(BG), bold: false }
}

pub fn alert_style() -> (s: Style)
    ensures
        s == alert_look(),
{
    Style { fg: Some(ALERT), bg: Some(BG), bold: false }
}

pub fn secondary_style() -> (s: Style)
    ensures
        s == secondary_look(),
{
    Style { fg: Some(SECONDARY), bg: Some(BG), bold: false }
}

pub fn status_style() -> (s: Style)
    ensures
        s == status_look(),
{
    Style { fg: Some(SECONDARY), bg: Some(STATUS_BG), bold: false }
}

pub fn border_style() -> (s: Style)
    ensures
        s == border_look(),
{
    Style { fg: Some(BORDER), bg: Some(BG), bold: false }
}

/// The colours of text swapped: background-coloured on green, bold.
pub fn selected_style() -> (s: Style)
    ensures
        s == selected_look(),
{
    Style { fg: Some(BG), bg: Some(PRIMARY), bold: true }
}

pub fn header_style() -> (s: Style)
    ensures
        s == header_look(),
{
    Style { fg: Some(PRIMARY), bg: Some(HEADER_BG), bold: true }
}

/// A piece of text in one style.
#[derive(Debug, Clone)]
pub struct Piece {
    pub text: String,
    pub style: Style,
}

/// What a piece of text shows: its characters and style.
pub open spec fn piece_view(p: Piece) -> (Seq<char>, Style) {
    (p.text@, p.style)
}

/// The pieces of one line of the screen.
pub open spec fn line_view(l: Vec<Piece>) -> Seq<(Seq<char>, Style)> {
    l@.map_values(|p: Piece| piece_view(p))
}

/// Lines of the screen, top to bottom.
pub open spec fn lines_view(ls: Vec<Vec<Piece>>) -> Seq<Seq<(Seq<char>, Style)>> {
    ls@.map_values(|l: Vec<Piece>| line_view(l))
}

/// A piece made of a copy of `text`.
pub fn piece(text: &str, style: Style) -> (p: Piece)
    ensures
        piece_view(p) == (text@, style),
{
    Piece { text: owned(text), style }
}

/// A piece that takes `text`.
pub fn piece_of(text: String, style: Style) -> (p: Piece)
    ensures
        piece_view(p) == (text@, style),
{
    Piece { text, style }
}

/// Adds a line of pieces under the lines so far.
pub fn push_line(ls: &mut Vec<Vec<Piece>>, l: Vec<Piece>)
    ensures
        lines_view(*final(ls)) == lines_view(*old(ls)).push(line_view(l)),
{
    let ghost before = lines_view(*ls);
    ls.push(l);
    assert(lines_view(*ls) =~= before.push(line_view(l)));
}

/// Adds a piece at the end of a line.
pub fn push_piece(l: &mut Vec<Piece>, p: Piece)
    ensures
        line_view(*final(l)) == line_view(*old(l)).push(piece_view(p)),
{
    let ghost before = line_view(*l);
    l.push(p);
    assert(line_view(*l) =~= before.push(piece_view(p)));
}

/// Adds an empty line.
pub fn push_blank(ls: &mut Vec<Vec<Piece>>)
    ensures
        lines_view(*final(ls)) == lines_view(*old(ls)).push(Seq::empty()),
{
    let l: Vec<Piece> = Vec::new();
    assert(line_view(l) =~= Seq::<(Seq<char>, Style)>::empty());
    push_line(ls, l);
}

/// Adds a line of one piece.
pub fn push_one(ls: &mut Vec<Vec<Piece>>, p: Piece)
    ensures
        lines_view(*final(ls)) == lines_view(*old(ls)).push(seq![piece_view(p)]),
{
    let mut l: Vec<Piece> = Vec::new();
    push_piece(&mut l, p);
    assert(line_view(l) =~= seq![piece_view(p)]);
    push_line(ls, l);
}

/// Adds a line of two pieces.
pub fn push_two(ls: &mut Vec<Vec<Piece>>, a: Piece, b: Piece)
    ensures
        lines_view(*final(ls)) == lines_view(*old(ls)).push(seq![piece_view(a), piece_view(b)]),
{
    let mut l: Vec<Piece> = Vec::new();
    push_piece(&mut l, a);
    push_piece(&mut l, b);
    assert(line_view(l) =~= seq![piece_view(a), piece_view(b)]);
    push_line(ls, l);
}

/// A bordered part of the screen: its title and border, its lines from the
/// top, and a line kept at its bottom (empty where there is none).
pub struct Panel {
    pub title: Piece,
    pub border: Style,
    pub rows: Vec<Vec<Piece>>,
    pub footer: Vec<Piece>,
}

/// What a panel shows.
pub open spec fn panel_view(p: Panel) -> (
    (Seq<char>, Style),
    Style,
    Seq<Seq<(Seq<char>, Style)>>,
    Seq<(Seq<char>, Style)>,
) {
    (piece_view(p.title), p.border, lines_view(p.rows), line_view(p.footer))
}

/// A panel without a bottom line.
pub fn panel(title: Piece, border: Style, rows: Vec<Vec<Piece>>) -> (p: Panel)
    ensures
        panel_view(p) == (piece_view(title), border, lines_view(rows), Seq::<(Seq<char>, Style)>::empty()),
{
    let footer: Vec<Piece> = Vec::new();
    assert(line_view(footer) =~= Seq::<(Seq<char>, Style)>::empty());
    Panel { title, border, rows, footer }
}

} // verus!
