//! The QR code of the address that clients open.

use vstd::prelude::*;
use vstd::utf8::encode_utf8;

verus! {

/// Light modules around the code, which scanners need.
pub const QUIET: usize = 4;

/// Pixels along the side of a module.
pub const SCALE: usize = 4;

/// The modules of the QR code that `qrcode::QrCode::new` makes of bytes, row by row, dark ones
/// `true`; nothing where it makes none.
pub uninterp spec fn qr_dark(data: Seq<u8>) -> Option<Seq<bool>>;

/// A QR code.
pub struct QrModules {
    /// Modules along a side.
    pub width: usize,
    /// The modules row by row, dark ones `true`.
    pub dark: Vec<bool>,
}

impl QrModules {
    /// The code is a square of a size that codes have.
    pub open spec fn wf(&self) -> bool {
        &&& 21 <= self.width <= 177
        &&& self.dark@.len() == self.width * self.width
    }
}

/// `qrcode::QrCode::new`: makes the smallest QR code of the bytes with error correction level M,
/// here only named. Its side is four times its version, from 1 to 40, plus 17 modules. Too many
/// bytes make none.
#[verifier::external_body]
fn make_code(data: &[u8]) -> (r: Option<QrModules>)
    ensures
        match r {
            Some(c) => {
                &&& qr_dark(data@) == Some(c.dark@)
                &&& 21 <= c.width <= 177
                &&& (c.width - 17) % 4 == 0
                &&& c.dark@.len() == c.width * c.width
            },
            None => qr_dark(data@) is None,
        },
{
    let code = qrcode::QrCode::new(data).ok()?;
    let dark = code.to_colors().into_iter().map(|c| c == qrcode::Color::Dark).collect();
    Some(QrModules { width: code.width(), dark })
}

/// Pixels along the side of the picture of a code.
pub open spec fn side(width: int) -> int {
    (width + 8) * 4
}

/// Whether the module at column `mx` and row `my` is dark; one outside the code is light.
pub open spec fn module_dark(dark: Seq<bool>, width: int, mx: int, my: int) -> bool {
    0 <= mx < width && 0 <= my < width && dark[my * width + mx]
}

/// A byte of the picture of a code: pixels row by row, four bytes each, black where a module is
/// dark, else white, and never transparent.
pub open spec fn qr_byte(dark: Seq<bool>, width: int, i: int) -> u8 {
    let px = i / 4 % side(width);
    let py = i / 4 / side(width);
    if i % 4 != 3 && module_dark(dark, width, px / 4 - 4, py / 4 - 4) {
        0
    } else {
        255
    }
}

/// The picture of a code.
pub open spec fn is_qr_image(out: Seq<u8>, dark: Seq<bool>, width: int) -> bool {
    &&& out.len() == side(width) * side(width) * 4
    &&& forall|i: int| 0 <= i < out.len() ==> #[trigger] out[i] == qr_byte(dark, width, i)
}

/// A picture in RGBA.
pub struct QrImage {
    /// Pixels along a side.
    pub side: usize,
    /// Four bytes per pixel, row by row.
    pub rgba: Vec<u8>,
}

/// Draws a code: black on white, with a light border of four modules, four pixels to a module.
pub fn draw(code: &QrModules) -> (r: QrImage)
    requires
        code.wf(),
    ensures
        r.side == side(code.width as int),
        is_qr_image(r.rgba@, code.dark@, code.width as int),
{
    let w: usize = code.width;
    let dim: usize = (w + 2 * QUIET) * SCALE;
    assert(dim * dim <= 740 * 740) by (nonlinear_arith)
        requires
            dim <= 740,
    ;
    let count: usize = dim * dim;
    let mut rgba: Vec<u8> = Vec::new();
    let mut k: usize = 0;
    while k < count
        invariant
            code.wf(),
            w == code.width,
            dim == side(w as int),
            count == dim * dim,
            k <= count <= 740 * 740,
            rgba@.len() == 4 * k,
            forall|i: int| 0 <= i < rgba@.len() ==> #[trigger] rgba@[i] == qr_byte(
                code.dark@,
                w as int,
                i,
            ),
        decreases count - k,
    {
        let px: usize = k % dim;
        let py: usize = k / dim;
        let mx: usize = px / SCALE;
        let my: usize = py / SCALE;
        let mut dark = false;
        if QUIET <= mx && mx < w + QUIET && QUIET <= my && my < w + QUIET {
            let at_y: usize = my - QUIET;
            let at_x: usize = mx - QUIET;
            assert(0 <= at_y * w && at_y * w + at_x < w * w && w * w <= 177 * 177)
                by (nonlinear_arith)
                requires
                    0 <= at_y < w,
                    0 <= at_x < w,
                    w <= 177,
            ;
            dark = code.dark[at_y * w + at_x];
        }
        let b: u8 = if dark {
            0
        } else {
            255
        };
        let ghost before = rgba@;
        rgba.push(b);
        rgba.push(b);
        rgba.push(b);
        rgba.push(255);
        proof {
            assert(dark == module_dark(code.dark@, w as int, px / 4 - 4, py / 4 - 4));
            assert forall|i: int| 0 <= i < rgba@.len() implies #[trigger] rgba@[i] == qr_byte(
                code.dark@,
                w as int,
                i,
            ) by {
                if i < before.len() {
                    assert(rgba@[i] == before[i]);
                } else {
                    assert(i / 4 == k);
                }
            }
        }
        k += 1;
    }
    assert(count * 4 == side(w as int) * side(w as int) * 4);
    QrImage { side: dim, rgba }
}

/// The picture of the QR code of an address, if there is one.
pub fn qr_texture(url: &str) -> (r: Option<QrImage>)
    ensures
        match r {
            Some(image) => qr_dark(encode_utf8(url@)) matches Some(dark) && exists|w: int|
                #![trigger side(w)]
                dark.len() == w * w && image.side == side(w) && is_qr_image(image.rgba@, dark, w),
            None => qr_dark(encode_utf8(url@)) is None,
        },
{
    match make_code(url.as_bytes()) {
        Some(code) => {
            let image = draw(&code);
            proof {
                let w = code.width as int;
                assert(image.side == side(w));
            }
            Some(image)
        },
        None => None,
    }
}

/// The border of a code is light: a scanner finds four white modules on every side.
pub proof fn law_border_is_light(dark: Seq<bool>, width: int, i: int)
    requires
        width > 0,
        0 <= i < side(width) * side(width) * 4,
        ({
            let px = i / 4 % side(width);
            let py = i / 4 / side(width);
            px < 16 || py < 16 || px >= side(width) - 16 || py >= side(width) - 16
        }),
    ensures
        qr_byte(dark, width, i) == 255,
{
}

/// Each module of a code is a square of four by four pixels of its own colour, four modules in from
/// the edges: black if it is dark, white if it is light, and no pixel is transparent.
pub proof fn law_modules_are_squares(
    out: Seq<u8>,
    dark: Seq<bool>,
    width: int,
    mx: int,
    my: int,
    dx: int,
    dy: int,
    c: int,
)
    requires
        width > 0,
        is_qr_image(out, dark, width),
        0 <= mx < width,
        0 <= my < width,
        0 <= dx < 4,
        0 <= dy < 4,
        0 <= c < 4,
    ensures
        ({
            let n = 4 * width + 32;
            let at = 4 * ((4 * (my + 4) + dy) * n + (4 * (mx + 4) + dx)) + c;
            &&& out.len() == 4 * (n * n)
            &&& 0 <= at < out.len()
            &&& c < 3 && dark[my * width + mx] ==> out[at] == 0
            &&& c < 3 && !dark[my * width + mx] ==> out[at] == 255
            &&& c == 3 ==> out[at] == 255
        }),
{
    let n = side(width);
    assert(n == 4 * width + 32);
    let x = 4 * (mx + 4) + dx;
    let y = 4 * (my + 4) + dy;
    let p = y * n + x;
    let at = 4 * p + c;
    assert(0 <= x < n && 0 <= y < n);
    assert(0 <= p < n * n) by (nonlinear_arith)
        requires
            0 <= x < n,
            0 <= y < n,
            p == y * n + x,
    ;
    vstd::arithmetic::div_mod::lemma_fundamental_div_mod_converse(p, n, y, x);
    assert(at / 4 == p && at % 4 == c);
    assert(x / 4 - 4 == mx && y / 4 - 4 == my);
    assert(out[at] == qr_byte(dark, width, at));
}

} // verus!
