//! Thumbnail geometry: the aspect-preserving resize target and the centring
//! offsets on the square canvas.

use vstd::prelude::*;
use vstd::arithmetic::div_mod::{lemma_fundamental_div_mod, lemma_mod_bound};
use vstd::math::{max, min};

verus! {

/// Side length of the square thumbnail, in pixels.
pub const SIDE: u32 = 512;

/// `num / den` rounded to the nearest integer, a half rounding up.
pub open spec fn round_div(num: int, den: int) -> int
    recommends
        den > 0,
{
    (2 * num + den) / (2 * den)
}

/// Length of the shorter axis once the longer one, `long`, has become 512.
/// An image without extent keeps a shorter axis of 0.
pub open spec fn scaled_short(short: int, long: int) -> int {
    if long == 0 {
        0
    } else {
        round_div(512 * short, long)
    }
}

/// The size an image of `width` x `height` is resized to: the longer axis
/// becomes 512, the other one scales with it.
pub open spec fn target_size(width: int, height: int) -> (int, int) {
    if width > height {
        (512, scaled_short(height, width))
    } else {
        (scaled_short(width, height), 512)
    }
}

/// Where a span of `len` pixels starts when centred in 512.
pub open spec fn centre_offset(len: int) -> int {
    (512 - len) / 2
}

/// Size and position of the resized image on the canvas.
#[derive(Clone, Copy, Debug, PartialEq, Eq, Structural)]
pub struct Placement {
    pub width: u32,
    pub height: u32,
    pub offset_x: u32,
    pub offset_y: u32,
}

impl Placement {
    /// The placement that belongs to a source image of `width` x `height`.
    pub open spec fn of(width: int, height: int) -> Placement {
        let (w, h) = target_size(width, height);
        Placement {
            width: w as u32,
            height: h as u32,
            offset_x: centre_offset(w) as u32,
            offset_y: centre_offset(h) as u32,
        }
    }

    /// The resized image lies wholly on the canvas.
    pub open spec fn fits(self) -> bool {
        &&& self.offset_x + self.width <= 512
        &&& self.offset_y + self.height <= 512
    }
}

/// `round_div` is the nearest integer: twice the distance between
/// `q * den` and `num` is at most `den`, and a tie goes up.
pub proof fn lemma_round_div_nearest(num: int, den: int)
    requires
        den > 0,
    ensures
        -den <= 2 * (num - round_div(num, den) * den) < den,
{
    let q = round_div(num, den);
    lemma_fundamental_div_mod(2 * num + den, 2 * den);
    lemma_mod_bound(2 * num + den, 2 * den);
    assert((2 * den) * q == 2 * (q * den)) by (nonlinear_arith);
}

/// A shorter axis never scales beyond 512.
pub proof fn lemma_scaled_short_bounds(short: int, long: int)
    requires
        0 <= short <= long,
    ensures
        0 <= scaled_short(short, long) <= 512,
        short == long && long > 0 ==> scaled_short(short, long) == 512,
{
    if long > 0 {
        let q = round_div(512 * short, long);
        lemma_round_div_nearest(512 * short, long);
        assert(q >= 0) by (nonlinear_arith)
            requires
                long > 0,
                short >= 0,
                2 * (512 * short - q * long) < long,
        ;
        assert(q <= 512) by (nonlinear_arith)
            requires
                long > 0,
                short <= long,
                -long <= 2 * (512 * short - q * long),
        ;
        if short == long {
            assert(q >= 512) by (nonlinear_arith)
                requires
                    long > 0,
                    short == long,
                    2 * (512 * short - q * long) < long,
            ;
        }
    }
}

/// Scales the shorter axis: `round(512 * short / long)`.
pub fn scale_short(short: u32, long: u32) -> (r: u32)
    requires
        short <= long,
    ensures
        r == scaled_short(short as int, long as int),
        r <= 512,
{
    if long == 0 {
        0
    } else {
        let num: u64 = 1024 * (short as u64) + (long as u64);
        let den: u64 = 2 * (long as u64);
        let q: u64 = num / den;
        proof {
            lemma_scaled_short_bounds(short as int, long as int);
        }
        q as u32
    }
}

/// Computes the resize target and the centring offsets for a source image
/// of `width` x `height`.
pub fn place(width: u32, height: u32) -> (p: Placement)
    ensures
        p == Placement::of(width as int, height as int),
        p.fits(),
        p.width == 512 || p.height == 512,
{
    let (w, h): (u32, u32) = if width > height {
        (SIDE, scale_short(height, width))
    } else {
        (scale_short(width, height), SIDE)
    };
    Placement { width: w, height: h, offset_x: (SIDE - w) / 2, offset_y: (SIDE - h) / 2 }
}

/// The resize keeps the aspect ratio and the result fits the canvas: for
/// every image with a pixel, the longer target axis is exactly 512, the
/// shorter one is `512 * min(width, height) / max(width, height)` rounded to
/// the nearest integer, and each offset plus the matching target length
/// stays within 512.
pub proof fn lemma_resize_keeps_aspect(width: u32, height: u32)
    requires
        width > 0 || height > 0,
    ensures
        ({
            let p = Placement::of(width as int, height as int);
            &&& max(p.width as int, p.height as int) == 512
            &&& min(p.width as int, p.height as int) == round_div(
                512 * min(width as int, height as int),
                max(width as int, height as int),
            )
            &&& p.offset_x + p.width <= 512
            &&& p.offset_y + p.height <= 512
        }),
{
    let long = max(width as int, height as int);
    let short = min(width as int, height as int);
    lemma_scaled_short_bounds(short, long);
}

} // verus!
