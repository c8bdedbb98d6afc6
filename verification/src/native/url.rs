//! vless:// URLs for XHTTP + Reality clients.

use vstd::prelude::*;

use crate::text::{chars_of, dec, new_string, owned, push_char, push_dec, push_str};
use crate::error::AppError;
use crate::config::opt_view;

verus! {

/// Parameters of a vless:// URL over XHTTP + Reality.
#[derive(Debug, Clone)]
pub struct XhttpUrlParams {
    pub uuid: String,
    pub host: String,
    pub port: u16,
    pub path: String,
    pub sni: String,
    pub public_key: String,
    pub short_id: String,
    pub name: String,
}

/// `s` with every `/` written as `%2F`.
pub open spec fn slash_escaped(s: Seq<char>) -> Seq<char>
    decreases s.len(),
{
    if s.len() == 0 {
        Seq::empty()
    } else {
        slash_escaped(s.drop_last()) + if s.last() == '/' {
            "%2F"@
        } else {
            seq![s.last()]
        }
    }
}

/// The vless:// URL a client imports.
pub open spec fn xhttp_url(p: XhttpUrlParams) -> Seq<char> {
    "vless://"@ + p.uuid@ + "@"@ + p.host@ + ":"@ + dec(p.port as nat)
        + "?encryption=none&type=xhttp&path="@ + slash_escaped(p.path@) + "&security=reality&sni="@
        + p.sni@ + "&fp=chrome&pbk="@ + p.public_key@ + "&sid="@ + p.short_id@ + "#"@ + p.name@
}

/// Appends `s` with every `/` written as `%2F`.
pub fn push_slash_escaped(out: &mut String, s: &str)
    ensures
        final(out)@ == old(out)@ + slash_escaped(s@),
{
    proof {
        reveal_strlit("%2F");
    }
    let v = chars_of(s);
    let mut i: usize = 0;
    let ghost start = out@;
    assert(v@.subrange(0, 0) =~= Seq::<char>::empty());
    while i < v.len()
        invariant
            v@ == s@,
            i <= v.len(),
            out@ == start + slash_escaped(v@.subrange(0, i as int)),
        decreases v.len() - i,
    {
        let ghost pre = v@.subrange(0, i as int);
        assert(v@.subrange(0, i + 1).drop_last() =~= pre);
        if v[i] == '/' {
            push_str(out, "%2F");
        } else {
            push_char(out, v[i]);
        }
        assert(out@ =~= start + slash_escaped(v@.subrange(0, i + 1)));
        i = i + 1;
    }
    assert(v@.subrange(0, v.len() as int) =~= s@);
}

pub fn render_xhttp_url(p: &XhttpUrlParams) -> (s: String)
    ensures
        s@ == xhttp_url(*p),
{
    let mut s = new_string();
    push_str(&mut s, "vless://");
    push_str(&mut s, p.uuid.as_str());
    push_str(&mut s, "@");
    push_str(&mut s, p.host.as_str());
    push_str(&mut s, ":");
    push_dec(&mut s, p.port as u64);
    push_str(&mut s, "?encryption=none&type=xhttp&path=");
    push_slash_escaped(&mut s, p.path.as_str());
    push_str(&mut s, "&security=reality&sni=");
    push_str(&mut s, p.sni.as_str());
    push_str(&mut s, "&fp=chrome&pbk=");
    push_str(&mut s, p.public_key.as_str());
    push_str(&mut s, "&sid=");
    push_str(&mut s, p.short_id.as_str());
    push_str(&mut s, "#");
    push_str(&mut s, p.name.as_str());
    assert(s@ =~= xhttp_url(*p));
    s
}

/// How drawing a QR code as a PNG image failed.
#[derive(Debug)]
pub enum QrPngFailure {
    /// The text could not be encoded as a QR code.
    Encode(String),
    /// The image could not be written as PNG.
    Write(String),
}

/// What the `qrcode` crate's PNG drawing of a text at least `min_size`
/// pixels wide gives: the PNG bytes, or whether encoding (`true`) or
/// writing (`false`) failed, with the error's text.
pub uninterp spec fn qr_png_result(data: Seq<char>, min_size: u32) -> Result<Seq<u8>, (bool, Seq<char>)>;

/// `qrcode::QrCode::new(data)` rendered as a grey image of at least
/// `min_size` pixels a side and written as PNG by the `image` crate.
#[verifier::external_body]
pub(crate) fn qr_png_bytes(data: &str, min_size: u32) -> (r: Result<Vec<u8>, QrPngFailure>)
    ensures
        match r {
            Ok(b) => qr_png_result(data@, min_size) == Ok::<Seq<u8>, (bool, Seq<char>)>(b@),
            Err(QrPngFailure::Encode(e)) => qr_png_result(data@, min_size) == Err::<Seq<u8>, (bool, Seq<char>)>((true, e@)),
            Err(QrPngFailure::Write(e)) => qr_png_result(data@, min_size) == Err::<Seq<u8>, (bool, Seq<char>)>((false, e@)),
        },
{
    let code = match qrcode::QrCode::new(data) {
        Ok(c) => c,
        Err(e) => return Err(QrPngFailure::Encode(e.to_string())),
    };
    let image = code.render::<image::Luma<u8>>().min_dimensions(min_size, min_size).build();
    let mut buf = std::io::Cursor::new(Vec::new());
    match image.write_to(&mut buf, image::ImageFormat::Png) {
        Ok(()) => Ok(buf.into_inner()),
        Err(e) => Err(QrPngFailure::Write(e.to_string())),
    }
}

/// Smallest side of the QR images sent to Telegram, in pixels.
pub const QR_PNG_MIN_SIZE: u32 = 200;

/// The QR code of `data` as a PNG image.
pub fn render_qr_png(data: &str) -> (r: Result<Vec<u8>, AppError>)
    ensures
        match qr_png_result(data@, QR_PNG_MIN_SIZE) {
            Ok(b) => r matches Ok(x) && x@ == b,
            Err((encoding, e)) => r matches Err(err) && err is Config && err->Config_0@ == (if encoding {
                "qr encode: "@
            } else {
                "qr png write: "@
            }) + e,
        },
{
    match qr_png_bytes(data, QR_PNG_MIN_SIZE) {
        Ok(b) => Ok(b),
        Err(QrPngFailure::Encode(e)) => {
            let mut m = owned("qr encode: ");
            push_str(&mut m, e.as_str());
            Err(AppError::Config(m))
        },
        Err(QrPngFailure::Write(e)) => {
            let mut m = owned("qr png write: ");
            push_str(&mut m, e.as_str());
            Err(AppError::Config(m))
        },
    }
}

/// What the `qrcode` crate's dense Unicode renderer (two rows a line,
/// quiet zone included) draws for a text, if it can be encoded.
pub uninterp spec fn qr_dense_text(data: Seq<char>) -> Option<Seq<char>>;

/// `qrcode::QrCode::new(data)` drawn with `render::unicode::Dense1x2`.
#[verifier::external_body]
fn qr_dense(data: &str) -> (r: Option<String>)
    ensures
        opt_view(r) == qr_dense_text(data@),
{
    match qrcode::QrCode::new(data) {
        Ok(code) => Some(code.render::<qrcode::render::unicode::Dense1x2>().quiet_zone(true).build()),
        Err(_) => None,
    }
}

/// The QR code of `data` as text for a terminal.
pub fn render_qr_ascii(data: &str) -> (r: String)
    ensures
        r@ == match qr_dense_text(data@) {
            Some(t) => t,
            None => "(qr encoding failed)"@,
        },
{
    match qr_dense(data) {
        Some(t) => t,
        None => owned("(qr encoding failed)"),
    }
}

} // verus!
