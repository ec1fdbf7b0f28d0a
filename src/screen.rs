use vstd::prelude::*;
use crate::crop_blank::{self, byte_in_bands, WHITE};

verus! {

/// One captured or decoded picture: row-major RGBA bytes, four per pixel.
#[derive(Clone)]
pub struct Frame {
    pub data: Vec<u8>,
    pub width: u32,
    pub height: u32,
}

impl Frame {
    /// The pixel buffer holds exactly four bytes for each of `width * height` pixels.
    pub open spec fn wf(&self) -> bool {
        self.data@.len() == self.width * self.height * 4
    }
}

impl Frame {
    /// A copy of this frame.
    pub fn duplicate(&self) -> (r: Frame)
        ensures
            r.data@ == self.data@,
            r.width == self.width,
            r.height == self.height,
    {
        let data = self.data.clone();
        assert(data@ =~= self.data@);
        Frame { data, width: self.width, height: self.height }
    }
}

/// Border bands to white out, each a percentage of the matching dimension.
#[derive(Clone, Copy)]
pub struct CropValues {
    pub left: u32,
    pub right: u32,
    pub top: u32,
    pub bottom: u32,
}

impl CropValues {
    pub fn new(left: u32, right: u32, top: u32, bottom: u32) -> (r: Self)
        ensures
            r == (CropValues { left, right, top, bottom }),
    {
        Self { left, right, top, bottom }
    }
}

/// Whether byte `i` of `frame`'s buffer lies in one of the bands of `spec`.
pub open spec fn frame_byte_in_bands(frame: Frame, spec: CropValues, i: int) -> bool {
    byte_in_bands(
        i,
        frame.width as int,
        frame.height as int,
        spec.left as int,
        spec.right as int,
        spec.top as int,
        spec.bottom as int,
    )
}

/// Offset in a BGRA capture buffer with rows `stride` bytes apart of the byte that
/// supplies byte `q` of the row-major RGBA picture `width` pixels wide: red comes
/// from the third byte of the source pixel, green from the second, blue from the first.
pub open spec fn bgra_source_index(q: int, stride: int, width: int) -> int {
    let p = q / 4;
    let c = q % 4;
    stride * (p / width) + 4 * (p % width) + if c == 0 {
        2int
    } else if c == 1 {
        1int
    } else {
        0int
    }
}

/// Byte `q` of the RGBA picture converted from the BGRA buffer `src`; alpha is opaque.
pub open spec fn rgba_from_bgra(src: Seq<u8>, stride: int, width: int, q: int) -> u8 {
    if q % 4 == 3 {
        255
    } else {
        src[bgra_source_index(q, stride, width)]
    }
}

/// Converts a captured BGRA buffer whose `height` rows are evenly spaced over the
/// buffer into a tightly packed RGBA buffer of `width * height` opaque pixels.
pub fn convert_bgra_to_rgba(frame: &[u8], width: u32, height: u32) -> (r: Vec<u8>)
    requires
        height > 0,
        4 * width <= frame@.len() as int / (height as int),
    ensures
        r@.len() == width * height * 4,
        forall|q: int|
            0 <= q < r@.len() ==> #[trigger] r@[q] == rgba_from_bgra(
                frame@,
                frame@.len() as int / (height as int),
                width as int,
                q,
            ),
{
    let h = height as usize;
    let w = width as usize;
    let len = frame.len();
    let stride = len / h;
    proof {
        assert(stride * h <= frame@.len()) by (nonlinear_arith)
            requires
                stride == frame@.len() as int / (h as int),
                h > 0,
        ;
        assert(w * h * 4 <= stride * h) by (nonlinear_arith)
            requires
                4 * w <= stride,
                h > 0,
        ;
    }
    let n = w * h * 4;
    let mut rgba_data: Vec<u8> = Vec::with_capacity(n);
    let mut q: usize = 0;
    while q < n
        invariant
            n == w * h * 4,
            n <= stride * h,
            stride * h <= frame@.len(),
            len == frame@.len(),
            stride == frame@.len() as int / (height as int),
            4 * w <= stride,
            w == width,
            h == height,
            h > 0,
            q <= n,
            rgba_data@.len() == q,
            forall|j: int|
                0 <= j < q ==> #[trigger] rgba_data@[j] == rgba_from_bgra(
                    frame@,
                    stride as int,
                    w as int,
                    j,
                ),
        decreases n - q,
    {
        let p = q / 4;
        let c = q % 4;
        if c == 3 {
            rgba_data.push(255);
        } else {
            assert(w > 0 && p < w * h) by (nonlinear_arith)
                requires
                    q < n,
                    n == w * h * 4,
                    p == q / 4,
            ;
            let x = p % w;
            let y = p / w;
            assert(y < h) by (nonlinear_arith)
                requires
                    p < w * h,
                    w > 0,
                    y == p / w,
            ;
            let off: usize = if c == 0 {
                2
            } else if c == 1 {
                1
            } else {
                0
            };
            assert(stride * y + 4 * x + off < stride * h && stride * y <= stride * h)
                by (nonlinear_arith)
                requires
                    y < h,
                    x < w,
                    off <= 2,
                    4 * w <= stride,
            ;

            let i = stride * y + 4 * x + off;
            rgba_data.push(frame[i]);
        }
        q = q + 1;
    }
    rgba_data
}

/// Whites out the border bands of `frame` described by `spec`, leaving the interior
/// untouched.
pub fn crop(frame: &mut Frame, spec: CropValues)
    requires
        old(frame).wf(),
    ensures
        final(frame).wf(),
        final(frame).width == old(frame).width,
        final(frame).height == old(frame).height,
        final(frame).data@.len() == old(frame).data@.len(),
        forall|i: int|
            0 <= i < old(frame).data@.len() ==> #[trigger] final(frame).data@[i] == if frame_byte_in_bands(
                *old(frame),
                spec,
                i,
            ) {
                WHITE
            } else {
                old(frame).data@[i]
            },
{
    let width = frame.width as usize;
    let height = frame.height as usize;
    crop_blank::crop(
        frame.data.as_mut_slice(),
        width,
        height,
        spec.left,
        spec.right,
        spec.top,
        spec.bottom,
    );
}

/// Whites out every pixel of `frame` when `is_blank` holds; leaves it as it is otherwise.
pub fn blank(frame: &mut Frame, is_blank: bool)
    requires
        old(frame).wf(),
    ensures
        final(frame).wf(),
        final(frame).width == old(frame).width,
        final(frame).height == old(frame).height,
        final(frame).data@.len() == old(frame).data@.len(),
        is_blank ==> forall|i: int|
            0 <= i < final(frame).data@.len() ==> #[trigger] final(frame).data@[i] == WHITE,
        !is_blank ==> final(frame).data@ == old(frame).data@,
{
    crop_blank::blank(frame.data.as_mut_slice(), is_blank);
    proof {
        if !is_blank {
            assert(frame.data@ =~= old(frame).data@);
        }
    }
}

} // verus!
