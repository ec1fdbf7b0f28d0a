use vstd::prelude::*;

verus! {

/// Value of every channel of an opaque white pixel.
pub const WHITE: u8 = 255;

/// Bytes per RGBA pixel.
pub const CHANNELS: usize = 4;

/// Whether byte `i` belongs to a complete 4-byte pixel of a buffer of `len` bytes.
pub open spec fn in_whole_pixel(i: int, len: int) -> bool {
    0 <= i < (len / 4) * 4
}

/// Width in pixels of a border band covering `percent` of `dim` pixels, rounded to
/// the nearest pixel (halves round up); percentages above 100 count as 100.
pub open spec fn band_bound(percent: int, dim: int) -> int {
    let p = if percent > 100 { 100 } else { percent };
    (p * dim + 50) / 100
}

/// Whether the pixel at column `x`, row `y` of a `width` x `height` picture lies in one
/// of the four border bands given in percent.
pub open spec fn in_bands(
    x: int,
    y: int,
    width: int,
    height: int,
    left: int,
    right: int,
    top: int,
    bottom: int,
) -> bool {
    ||| x < band_bound(left, width)
    ||| x >= width - band_bound(right, width)
    ||| y < band_bound(top, height)
    ||| y >= height - band_bound(bottom, height)
}

/// Whether byte `i` of a row-major RGBA buffer of a `width` x `height` picture belongs
/// to a pixel in one of the border bands.
pub open spec fn byte_in_bands(
    i: int,
    width: int,
    height: int,
    left: int,
    right: int,
    top: int,
    bottom: int,
) -> bool {
    let p = i / 4;
    in_bands(p % width, p / width, width, height, left, right, top, bottom)
}

proof fn lemma_band_bound(percent: int, dim: int)
    requires
        0 <= percent,
        0 <= dim,
    ensures
        0 <= band_bound(percent, dim) <= dim,
{
    let p = if percent > 100 { 100 } else { percent };
    assert(0 <= p * dim <= 100 * dim) by (nonlinear_arith)
        requires
            0 <= p <= 100,
            0 <= dim,
    ;
}

/// Pixel count of a band covering `percent` of `dim`, clamped to `dim`.
fn compute_bound(percent: u32, dim: usize) -> (r: usize)
    ensures
        r == band_bound(percent as int, dim as int),
        r <= dim,
{
    proof {
        lemma_band_bound(percent as int, dim as int);
    }
    let p: u128 = if percent > 100 {
        100
    } else {
        percent as u128
    };
    assert(p * (dim as u128) <= 100 * (dim as u128)) by (nonlinear_arith)
        requires
            p <= 100,
    ;
    let b: u128 = (p * (dim as u128) + 50) / 100;
    b as usize
}

/// Whites out the left, right, top and bottom border bands of a row-major RGBA
/// buffer of a `width` x `height` picture. Each band's thickness is its
/// percentage of the matching dimension, rounded to the nearest pixel; bands may
/// overlap, and one of 100 percent or more covers the whole dimension.
pub fn crop(
    frame: &mut [u8],
    width: usize,
    height: usize,
    left_percent: u32,
    right_percent: u32,
    top_percent: u32,
    bottom_percent: u32,
)
    requires
        old(frame)@.len() == width * height * 4,
    ensures
        final(frame)@.len() == old(frame)@.len(),
        forall|i: int|
            0 <= i < old(frame)@.len() ==> #[trigger] final(frame)@[i] == if byte_in_bands(
                i,
                width as int,
                height as int,
                left_percent as int,
                right_percent as int,
                top_percent as int,
                bottom_percent as int,
            ) {
                WHITE
            } else {
                old(frame)@[i]
            },
{
    let left = compute_bound(left_percent, width);
    let right = compute_bound(right_percent, width);
    let top = compute_bound(top_percent, height);
    let bottom = compute_bound(bottom_percent, height);
    let n = frame.len();
    let mut i: usize = 0;
    while i < n
        invariant
            n == frame@.len(),
            n == width * height * 4,
            frame@.len() == old(frame)@.len(),
            i <= n,
            left == band_bound(left_percent as int, width as int),
            right == band_bound(right_percent as int, width as int),
            top == band_bound(top_percent as int, height as int),
            bottom == band_bound(bottom_percent as int, height as int),
            right <= width,
            bottom <= height,
            forall|j: int|
                0 <= j < i ==> #[trigger] frame@[j] == if byte_in_bands(
                    j,
                    width as int,
                    height as int,
                    left_percent as int,
                    right_percent as int,
                    top_percent as int,
                    bottom_percent as int,
                ) {
                    WHITE
                } else {
                    old(frame)@[j]
                },
            forall|j: int| i <= j < n ==> #[trigger] frame@[j] == old(frame)@[j],
        decreases n - i,
    {
        assert(width > 0) by (nonlinear_arith)
            requires
                i < n,
                n == width * height * 4,
        ;
        let p = i / CHANNELS;
        let x = p % width;
        let y = p / width;
        if x < left || x >= width - right || y < top || y >= height - bottom {
            frame[i] = WHITE;
        }
        i = i + 1;
    }
}

/// Whites out every complete pixel of `frame` when `is_blank` holds; does nothing otherwise.
pub fn blank(frame: &mut [u8], is_blank: bool)
    ensures
        final(frame)@.len() == old(frame)@.len(),
        forall|i: int|
            0 <= i < old(frame)@.len() ==> #[trigger] final(frame)@[i] == if is_blank
                && in_whole_pixel(i, old(frame)@.len() as int) {
                WHITE
            } else {
                old(frame)@[i]
            },
{
    if is_blank {
        let n: usize = frame.len() / CHANNELS * CHANNELS;
        let mut i: usize = 0;
        while i < n
            invariant
                n == frame@.len() / 4 * 4,
                n <= frame@.len(),
                i <= n,
                frame@.len() == old(frame)@.len(),
                forall|j: int| 0 <= j < i ==> #[trigger] frame@[j] == WHITE,
                forall|j: int| i <= j < frame@.len() ==> #[trigger] frame@[j] == old(frame)@[j],
            decreases n - i,
        {
            frame[i] = WHITE;
            i = i + 1;
        }
    }
}

} // verus!
