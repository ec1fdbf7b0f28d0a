use vstd::prelude::*;

verus! {

/// Byte `q` of a BGRA buffer converted to RGBA: red and blue trade places, green
/// and alpha stay.
pub open spec fn swapped_channel_index(q: int) -> int {
    let c = q % 4;
    q - c + if c == 0 {
        2int
    } else if c == 2 {
        0int
    } else {
        c
    }
}

/// Converts each complete 4-byte BGRA pixel of `frame` to RGBA; a trailing partial
/// pixel is dropped. The dimensions only size the result's first allocation.
pub fn convert_bgra_to_rgba(frame: &[u8], width: usize, height: usize) -> (r: Vec<u8>)
    ensures
        r@.len() == frame@.len() / 4 * 4,
        forall|q: int| 0 <= q < r@.len() ==> #[trigger] r@[q] == frame@[swapped_channel_index(q)],
{
    let capacity: usize = match width.checked_mul(height) {
        Some(p) => match p.checked_mul(4) {
            Some(c) => c,
            None => 0,
        },
        None => 0,
    };
    let mut rgba_frame: Vec<u8> = Vec::with_capacity(capacity);
    let n: usize = frame.len() / 4 * 4;
    let mut q: usize = 0;
    while q < n
        invariant
            n == frame@.len() / 4 * 4,
            q <= n,
            q % 4 == 0,
            rgba_frame@.len() == q,
            forall|j: int| 0 <= j < q ==> #[trigger] rgba_frame@[j] == frame@[swapped_channel_index(j)],
        decreases n - q,
    {
        rgba_frame.push(frame[q + 2]);
        rgba_frame.push(frame[q + 1]);
        rgba_frame.push(frame[q]);
        rgba_frame.push(frame[q + 3]);
        q = q + 4;
    }
    rgba_frame
}

/// Common display resolutions, in the order they are tried.
pub open spec fn common_resolutions() -> Seq<(usize, usize)> {
    seq![
        (1280, 720), (1600, 900), (1920, 1080), (2560, 1440), (3840, 2160),
        (5120, 2880), (7680, 4320), (1280, 800), (1440, 900), (1680, 1050),
        (1920, 1200), (2560, 1600), (3840, 2400), (2560, 1080), (3440, 1440),
        (3840, 1600), (5120, 2160), (6880, 2880), (3840, 1080), (5120, 1440),
        (7680, 2160), (640, 480), (800, 600), (1024, 768), (1280, 1024),
        (1600, 1200), (2048, 1536), (1280, 1024), (2160, 1440), (3000, 2000),
        (3200, 2133), (1366, 768), (1536, 864), (1792, 1344), (2048, 1080),
        (2048, 1152), (2048, 2048), (3840, 3840), (4096, 2160), (6016, 3384),
        (7680, 3200), (10240, 4320),
    ]
}

/// Whether entry `i` of the table has exactly `pixels` pixels.
pub open spec fn resolution_matches(i: int, pixels: int) -> bool {
    common_resolutions()[i].0 * common_resolutions()[i].1 == pixels
}

/// Guesses the dimensions of a frame of RGBA bytes: the first common resolution
/// whose pixel count is that of the buffer, or none when no entry fits.
pub fn get_resolution(frame_data: &[u8]) -> (r: Option<(usize, usize)>)
    ensures
        match r {
            Some(dims) => exists|i: int|
                0 <= i < common_resolutions().len() && common_resolutions()[i] == dims
                    && #[trigger] resolution_matches(i, frame_data@.len() as int / 4) && forall|j: int|
                    0 <= j < i ==> !#[trigger] resolution_matches(j, frame_data@.len() as int / 4),
            None => forall|i: int|
                0 <= i < common_resolutions().len() ==> !#[trigger] resolution_matches(
                    i,
                    frame_data@.len() as int / 4,
                ),
        },
{
    let total_pixels = frame_data.len() / 4;
    let table: Vec<(usize, usize)> = vec![
        (1280, 720), (1600, 900), (1920, 1080), (2560, 1440), (3840, 2160),
        (5120, 2880), (7680, 4320), (1280, 800), (1440, 900), (1680, 1050),
        (1920, 1200), (2560, 1600), (3840, 2400), (2560, 1080), (3440, 1440),
        (3840, 1600), (5120, 2160), (6880, 2880), (3840, 1080), (5120, 1440),
        (7680, 2160), (640, 480), (800, 600), (1024, 768), (1280, 1024),
        (1600, 1200), (2048, 1536), (1280, 1024), (2160, 1440), (3000, 2000),
        (3200, 2133), (1366, 768), (1536, 864), (1792, 1344), (2048, 1080),
        (2048, 1152), (2048, 2048), (3840, 3840), (4096, 2160), (6016, 3384),
        (7680, 3200), (10240, 4320),
    ];
    assert(table@ =~= common_resolutions());
    let mut i: usize = 0;
    while i < table.len()
        invariant
            table@ == common_resolutions(),
            total_pixels == frame_data@.len() as int / 4,
            i <= table@.len(),
            forall|j: int| 0 <= j < i ==> !#[trigger] resolution_matches(j, total_pixels as int),
        decreases table@.len() - i,
    {
        let (width, height) = table[i];
        assert(width <= 10240 && height <= 4320);
        if total_pixels == width * height {
            assert(resolution_matches(i as int, total_pixels as int));
            return Some((width, height));
        }
        i = i + 1;
    }
    None
}

} // verus!
