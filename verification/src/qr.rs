//! QR codes for payment links and share pages, rendered as SVG by the
//! `qrcode` crate.

use vstd::prelude::*;
use crate::error::AppError;
use crate::text::push_str;
use vstd::utf8::encode_utf8;

verus! {

/// The SVG document the `qrcode` crate renders for `data` (medium error
/// correction, a quiet zone, at least `size` pixels square), or nothing when
/// the data cannot be encoded (too long for the largest symbol).
pub uninterp spec fn qr_svg_text(data: Seq<u8>, size: u32) -> Option<Seq<char>>;

/// `qrcode::QrCode::new` rendered through `render::<svg::Color>()` with
/// `min_dimensions(size, size)` and `quiet_zone(true)`. The text is what the
/// name above stands for; the error's message is not stated. The renderer
/// computes pixel sizes in `u32` (`size` plus the symbol's width, then module
/// size times width), so `size` is kept to [`MAX_QR_SIZE`], far below where
/// those sums could overflow.
#[verifier::external_body]
fn render_qr_svg(data: &[u8], size: u32) -> (r: Result<String, String>)
    requires
        size <= MAX_QR_SIZE,
    ensures
        match r {
            Ok(s) => qr_svg_text(data@, size) == Some(s@),
            Err(_) => qr_svg_text(data@, size) is None,
        },
{
    match qrcode::QrCode::new(data) {
        Ok(code) => Ok(code.render::<qrcode::render::svg::Color>().min_dimensions(size, size).quiet_zone(true).build()),
        Err(e) => Err(e.to_string()),
    }
}

/// The largest QR image, in pixels, the library asks for.
pub const MAX_QR_SIZE: u32 = 4096;

/// The text starts with `prefix`.
pub open spec fn starts_with_text(s: Seq<char>, prefix: Seq<char>) -> bool {
    prefix.len() <= s.len() && s.take(prefix.len() as int) == prefix
}

/// The SVG QR code of a text, at least `size` pixels square.
pub fn qr_svg(text: &str, size: u32) -> (r: Result<String, AppError>)
    requires
        size <= MAX_QR_SIZE,
    ensures
        match qr_svg_text(encode_utf8(text@), size) {
            Some(svg) => r matches Ok(s) && s@ == svg,
            None => r matches Err(AppError::Internal(m)) && starts_with_text(m@, "qr encode failed: "@),
        },
{
    match render_qr_svg(text.as_bytes(), size) {
        Ok(svg) => Ok(svg),
        Err(e) => {
            let mut m = String::new();
            push_str(&mut m, "qr encode failed: ");
            push_str(&mut m, e.as_str());
            proof {
                assert(m@.take("qr encode failed: "@.len() as int) =~= "qr encode failed: "@);
            }
            Err(AppError::Internal(m))
        },
    }
}

/// The payment-link QR a customer scans at the stand: 260 pixels, once the
/// cart has a link.
pub fn checkout_qr(checkout_url: Option<String>) -> (r: Result<String, AppError>)
    ensures
        match checkout_url {
            None => r matches Err(AppError::BadRequest(m)) && m@
                == "cart has no checkout link yet — check it out first"@,
            Some(u) => match qr_svg_text(encode_utf8(u@), 260) {
                Some(svg) => r matches Ok(s) && s@ == svg,
                None => r matches Err(AppError::Internal(_)),
            },
        },
{
    let url = match crate::checkout::qr_link(checkout_url) {
        Ok(u) => u,
        Err(e) => return Err(e),
    };
    qr_svg(url.as_str(), 260)
}

/// The QR of a scent's public share page: 220 pixels.
pub fn scent_qr(site: &str, scent_id: u128) -> (r: Result<String, AppError>)
    ensures
        match qr_svg_text(encode_utf8(site@ + "/s/"@ + crate::ident::spec_id_text(scent_id)), 220) {
            Some(svg) => r matches Ok(s) && s@ == svg,
            None => r matches Err(AppError::Internal(_)),
        },
{
    let url = crate::public_checkout::share_url(site, scent_id);
    qr_svg(url.as_str(), 220)
}

} // verus!
