//! QR code bitmaps for invitation links: the `qrcode` crate lays out the
//! modules, and they are drawn here as square RGBA pixels inside a quiet
//! zone of four modules.

use vstd::prelude::*;
use qrcode::QrCode;
use qrcode::types::QrError as QrCodeError;

verus! {

#[verifier::external_type_specification]
#[verifier::external_body]
pub struct ExQrCodeError(QrCodeError);

#[derive(Debug)]
pub enum QrError {
    Qr(QrCodeError),
}

/// An RGBA bitmap, row by row, four bytes a pixel.
#[derive(Debug, Clone)]
pub struct QrRgbaImage {
    pub width: u32,
    pub height: u32,
    pub rgba_pixels: Vec<u8>,
}

/// The modules of the smallest QR code (error correction level M) that
/// holds `data`: its width and, row by row, which modules are dark; `None`
/// when the data does not fit any QR code.
pub uninterp spec fn qr_code(data: Seq<u8>) -> Option<(nat, Seq<bool>)>;

/// The modules of a QR code, or why none could be made.
pub type QrModules = Result<(usize, Vec<bool>), QrCodeError>;

/// `QrCode::new` of the `qrcode` crate, read through `width` and `to_vec`.
/// Claimed: it succeeds exactly when `qr_code(data)` is defined, with those
/// modules; the code is a normal QR code (versions 1 to 40, so 21 to 177
/// modules wide) with one entry per module.  Which error comes back
/// otherwise is not stated.
#[verifier::external_body]
fn qr_modules(data: &[u8]) -> (r: QrModules)
    ensures
        r is Ok <==> qr_code(data@) is Some,
        r matches Ok((w, dark)) ==> qr_code(data@) == Some((w as nat, dark@)) && 21 <= w <= 177
            && dark@.len() == w * w,
{
    match QrCode::new(data) {
        Ok(code) => Ok((code.width(), code.to_vec())),
        Err(e) => Err(e),
    }
}

/// Modules in the quiet zone on each side.
pub const QUIET_ZONE: u32 = 4;

/// The scale (pixels per module) for a code of `width` modules drawn at
/// least `target` pixels wide.
pub open spec fn scale_for(width: nat, target: nat) -> nat {
    let total: nat = (width + 2 * QUIET_ZONE) as nat;
    let s: nat = ((target + total - 1) as nat) / total;
    if s < 1 {
        1
    } else {
        s
    }
}

/// Whether pixel (`x`, `y`) of the drawing shows a dark module.
pub open spec fn pixel_dark(width: nat, dark: Seq<bool>, scale: nat, x: nat, y: nat) -> bool {
    let mx = (x / scale) as int - QUIET_ZONE;
    let my = (y / scale) as int - QUIET_ZONE;
    0 <= mx < width && 0 <= my < width && dark[my * width + mx]
}

/// The byte `k` (0 to 3) of a pixel: dark modules are `1a1a1aff`, the rest
/// white.
pub open spec fn pixel_byte(is_dark: bool, k: int) -> u8 {
    if is_dark && k < 3 {
        0x1a
    } else {
        0xff
    }
}

/// Draws `dark`, `width` modules square, at least `target` pixels wide.
pub fn render_qr(width: usize, dark: &[bool], target: u32) -> (img: QrRgbaImage)
    requires
        21 <= width <= 177,
        dark@.len() == width * width,
        target <= 32582,
    ensures
        img.width == img.height,
        img.width == (width + 2 * QUIET_ZONE) * scale_for(width as nat, target as nat),
        img.width >= target,
        img.rgba_pixels@.len() == img.width * img.width * 4,
        forall|p: int, k: int|
            0 <= p < img.width * img.width && 0 <= k < 4 ==> #[trigger] img.rgba_pixels@[4 * p + k]
                == pixel_byte(
                pixel_dark(
                    width as nat,
                    dark@,
                    scale_for(width as nat, target as nat),
                    (p % img.width as int) as nat,
                    (p / img.width as int) as nat,
                ),
                k,
            ),
{
    let total = width as u32 + 2 * QUIET_ZONE;
    let s = (target + total - 1) / total;
    let scale = if s < 1 {
        1
    } else {
        s
    };
    proof {
        let t = target as int;
        let n = total as int;
        vstd::arithmetic::div_mod::lemma_fundamental_div_mod(t + n - 1, n);
        assert((t + n - 1) % n >= 0 && (t + n - 1) % n < n) by {
            vstd::arithmetic::div_mod::lemma_mod_bound(t + n - 1, n);
        }
        assert(s as int == (t + n - 1) / n);
        assert(n * (s as int) <= t + n - 1);
        assert(n * (s as int) + n > t);
        assert(scale * total <= target + total) by (nonlinear_arith)
            requires
                total * s <= target + total - 1,
                scale == if s < 1 { 1 } else { s },
                total >= 29,
        ;
        let r = (t + n - 1) % n;
        assert(scale * total >= target && scale * total >= 29) by (nonlinear_arith)
            requires
                total * s + r == target + total - 1,
                0 <= r < total,
                scale == if s < 1 { 1 } else { s },
                total >= 29,
        ;
    }
    let final_size = total * scale;
    assert(final_size > 0) by (nonlinear_arith)
        requires
            final_size == total * scale,
            scale * total >= 29,
    ;
    proof {
        assert(final_size * final_size * 4 <= u32::MAX) by (nonlinear_arith)
            requires
                final_size < 32582 + 185,
        ;
    }
    let count = final_size * final_size;
    let mut rgba: Vec<u8> = Vec::new();
    let mut p: u32 = 0;
    while p < count
        invariant
            p <= count == final_size * final_size,
            final_size == total * scale,
            final_size > 0,
            scale >= 1,
            total == width + 2 * QUIET_ZONE,
            21 <= width <= 177,
            dark@.len() == width * width,
            count * 4 <= u32::MAX,
            rgba@.len() == 4 * p,
            forall|q: int, k: int|
                0 <= q < p && 0 <= k < 4 ==> #[trigger] rgba@[4 * q + k] == pixel_byte(
                    pixel_dark(
                        width as nat,
                        dark@,
                        scale as nat,
                        (q % final_size as int) as nat,
                        (q / final_size as int) as nat,
                    ),
                    k,
                ),
        decreases count - p,
    {
        let x = p % final_size;
        let y = p / final_size;
        let mx = (x / scale) as i64 - QUIET_ZONE as i64;
        let my = (y / scale) as i64 - QUIET_ZONE as i64;
        let is_dark = if mx >= 0 && mx < width as i64 && my >= 0 && my < width as i64 {
            proof {
                assert((my as int) * width + (mx as int) < width * width) by (nonlinear_arith)
                    requires
                        0 <= mx < width,
                        0 <= my < width,
                ;
                assert(width * width <= 177 * 177) by (nonlinear_arith)
                    requires
                        width <= 177,
                ;
            }
            let idx = (my as usize) * width + (mx as usize);
            dark[idx]
        } else {
            false
        };
        proof {
            assert(x as int == (p as int) % (final_size as int));
            assert(y as int == (p as int) / (final_size as int));
            assert(is_dark == pixel_dark(width as nat, dark@, scale as nat, x as nat, y as nat));
        }
        let ghost before = rgba@;
        if is_dark {
            rgba.push(0x1a);
            rgba.push(0x1a);
            rgba.push(0x1a);
            rgba.push(0xff);
        } else {
            rgba.push(0xff);
            rgba.push(0xff);
            rgba.push(0xff);
            rgba.push(0xff);
        }
        proof {
            assert forall|q: int, k: int| 0 <= q < p + 1 && 0 <= k < 4 implies #[trigger] rgba@[4 * q + k]
                == pixel_byte(
                pixel_dark(
                    width as nat,
                    dark@,
                    scale as nat,
                    (q % final_size as int) as nat,
                    (q / final_size as int) as nat,
                ),
                k,
            ) by {
                if q < p {
                    assert(rgba@[4 * q + k] == before[4 * q + k]);
                }
            }
        }
        p += 1;
    }
    QrRgbaImage { width: final_size, height: final_size, rgba_pixels: rgba }
}

/// The bitmap of the QR code for `url`, at least `target_size_px` pixels
/// wide.
pub fn generate_qr_rgba(url: &str, target_size_px: u32) -> (r: Result<QrRgbaImage, QrError>)
    requires
        target_size_px <= 32582,
    ensures
        r is Ok <==> qr_code(vstd::utf8::encode_utf8(url@)) is Some,
        r matches Ok(img) ==> {
            let (w, dark) = qr_code(vstd::utf8::encode_utf8(url@))->0;
            &&& img.width == img.height
            &&& img.width == (w + 2 * QUIET_ZONE) * scale_for(w, target_size_px as nat)
            &&& img.width >= target_size_px
            &&& img.rgba_pixels@.len() == img.width * img.width * 4
            &&& forall|p: int, k: int|
                0 <= p < img.width * img.width && 0 <= k < 4 ==> #[trigger] img.rgba_pixels@[4 * p + k]
                    == pixel_byte(
                    pixel_dark(
                        w,
                        dark,
                        scale_for(w, target_size_px as nat),
                        (p % img.width as int) as nat,
                        (p / img.width as int) as nat,
                    ),
                    k,
                )
        },
{
    let bytes: &[u8] = url.as_bytes();
    match qr_modules(bytes) {
        Ok((width, dark)) => Ok(render_qr(width, &dark, target_size_px)),
        Err(e) => Err(QrError::Qr(e)),
    }
}

} // verus!
