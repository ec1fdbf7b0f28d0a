use vstd::prelude::*;
use crate::screen::Frame;

verus! {

#[verifier::external_type_specification]
#[verifier::external_body]
pub struct ExBincodeErrorKind(bincode::ErrorKind);

#[verifier::external_type_specification]
#[verifier::external_body]
pub struct ExImageError(image::ImageError);

/// How a frame travels inside a non-empty wire message; both ends must agree.
#[derive(Clone, Copy, PartialEq, Eq, Debug)]
pub enum Encoding {
    /// Width, height and every pixel byte, losslessly.
    Structured,
    /// A JPEG picture at quality 75; its header carries the dimensions.
    Image,
}

/// Why a frame could not be turned into a payload.
#[derive(Clone, Copy, PartialEq, Eq, Debug)]
pub enum EncodeError {
    /// The pixel buffer does not hold four bytes per pixel.
    SizeMismatch,
    /// The serializer or the image encoder refused the frame.
    Codec,
}

/// Why a payload could not be turned into a frame.
#[derive(Clone, Copy, PartialEq, Eq, Debug)]
pub enum DecodeError {
    /// The bytes are not a payload of the agreed encoding.
    Malformed,
    /// The payload decodes to a buffer whose size disagrees with its dimensions.
    SizeMismatch,
}

/// Little-endian bytes of the 32-bit `n`.
pub open spec fn le32_bytes(n: u32) -> Seq<u8> {
    seq![
        (n % 0x100) as u8,
        (n / 0x100 % 0x100) as u8,
        (n / 0x1_0000 % 0x100) as u8,
        (n / 0x100_0000) as u8,
    ]
}

/// Little-endian bytes of the 64-bit `n`.
pub open spec fn le64_bytes(n: u64) -> Seq<u8> {
    le32_bytes((n % 0x1_0000_0000) as u32) + le32_bytes((n / 0x1_0000_0000) as u32)
}

/// Value of the first four bytes of `b`, little-endian.
pub open spec fn le32_value(b: Seq<u8>) -> int {
    b[0] as int + b[1] as int * 0x100 + b[2] as int * 0x1_0000 + b[3] as int * 0x100_0000
}

/// Value of the first eight bytes of `b`, little-endian.
pub open spec fn le64_value(b: Seq<u8>) -> int {
    le32_value(b) + le32_value(b.subrange(4, 8)) * 0x1_0000_0000
}

/// The structured payload of a frame: the pixel count in bytes as a 64-bit
/// little-endian integer, the pixel bytes, then width and height as 32-bit
/// little-endian integers.
pub open spec fn structured_bytes(data: Seq<u8>, width: u32, height: u32) -> Seq<u8> {
    le64_bytes(data.len() as u64) + data + le32_bytes(width) + le32_bytes(height)
}

/// Reads a structured payload from the front of `b`; bytes after it are ignored.
pub open spec fn structured_parse(b: Seq<u8>) -> Option<(Seq<u8>, u32, u32)> {
    if b.len() < 8 {
        None
    } else {
        let n = le64_value(b);
        if b.len() < 16 + n {
            None
        } else {
            Some(
                (
                    b.subrange(8, 8 + n),
                    le32_value(b.subrange(8 + n, 12 + n)) as u32,
                    le32_value(b.subrange(12 + n, 16 + n)) as u32,
                ),
            )
        }
    }
}

/// Whether `b` starts with a structured payload of a frame of four bytes per pixel.
pub open spec fn structured_valid(b: Seq<u8>) -> bool {
    match structured_parse(b) {
        Some((d, w, h)) => d.len() == w * h * 4,
        None => false,
    }
}

/// The JPEG bytes at quality 75 of the RGBA picture `data`.
pub uninterp spec fn jpeg_of(data: Seq<u8>, width: u32, height: u32) -> Seq<u8>;

/// The width and height that the header of the image file `bytes` gives.
pub uninterp spec fn image_dims_of(bytes: Seq<u8>) -> (u32, u32);

/// Largest width or height that a JPEG frame header can carry.
pub const JPEG_MAX_DIMENSION: u32 = 65535;

/// Whether the given encoding can encode a well-formed frame of these dimensions:
/// always for the structured one, and for JPEG when both fit its 16-bit header fields.
pub open spec fn encodes(width: u32, height: u32, encoding: Encoding) -> bool {
    match encoding {
        Encoding::Structured => true,
        Encoding::Image => width <= JPEG_MAX_DIMENSION && height <= JPEG_MAX_DIMENSION,
    }
}

/// Relies on bincode::serialize, whose configuration writes integers little-endian
/// at their full width and a sequence as its length (u64) followed by its items; it
/// sets no size limit and a vector always gives its length, so it does not fail.
#[verifier::external_body]
fn bincode_serialize(data: &Vec<u8>, width: u32, height: u32) -> (r: Result<
    Vec<u8>,
    Box<bincode::ErrorKind>,
>)
    ensures
        r is Ok,
        match r {
            Ok(b) => b@ == structured_bytes(data@, width, height),
            Err(_) => true,
        },
{
    bincode::serialize(&(data, width, height))
}

/// Relies on bincode::deserialize with the same configuration, which accepts
/// trailing bytes and fails exactly when the input ends too early.
#[verifier::external_body]
fn bincode_deserialize(bytes: &[u8]) -> (r: Result<(Vec<u8>, u32, u32), Box<bincode::ErrorKind>>)
    ensures
        match r {
            Ok((d, w, h)) => structured_parse(bytes@) == Some((d@, w, h)),
            Err(_) => structured_parse(bytes@) is None,
        },
{
    bincode::deserialize::<(Vec<u8>, u32, u32)>(bytes)
}

/// Relies on image's JpegEncoder::encode at quality 75 for RGBA input, which panics
/// unless the buffer holds four bytes per pixel, fails exactly when a dimension does
/// not fit the 16-bit fields of the frame header, and writes both into that header.
#[verifier::external_body]
fn jpeg_encode(data: &[u8], width: u32, height: u32) -> (r: Result<Vec<u8>, image::ImageError>)
    requires
        data@.len() == width * height * 4,
    ensures
        r is Err <==> width > JPEG_MAX_DIMENSION || height > JPEG_MAX_DIMENSION,
        match r {
            Ok(b) => b@ == jpeg_of(data@, width, height) && image_dims_of(b@) == (width, height),
            Err(_) => true,
        },
{
    let mut out: Vec<u8> = Vec::new();
    let res = image::codecs::jpeg::JpegEncoder::new_with_quality(&mut out, 75).encode(
        data,
        width,
        height,
        image::ColorType::Rgba8,
    );
    res.map(|_| out)
}

/// Relies on image::load_from_memory, then DynamicImage::to_rgba8: the picture in
/// the bytes, whatever its format, as RGBA pixels, with the dimensions its header
/// gives. The pixel values are not stated: the decoder may round differently on
/// different processors.
#[verifier::external_body]
fn image_decode(bytes: &[u8]) -> (r: Result<(Vec<u8>, u32, u32), image::ImageError>)
    ensures
        match r {
            Ok((d, w, h)) => (w, h) == image_dims_of(bytes@) && d@.len() == w * h * 4,
            Err(_) => true,
        },
{
    let rgba = image::load_from_memory(bytes)?.to_rgba8();
    let (w, h) = rgba.dimensions();
    Ok((rgba.into_raw(), w, h))
}

/// The payload that the given encoding makes of the RGBA picture `data`.
pub open spec fn payload_of(data: Seq<u8>, width: u32, height: u32, encoding: Encoding) -> Seq<
    u8,
> {
    match encoding {
        Encoding::Structured => structured_bytes(data, width, height),
        Encoding::Image => jpeg_of(data, width, height),
    }
}

/// The payload that the given encoding makes of a well-formed frame.
pub open spec fn encoded_payload(frame: Frame, encoding: Encoding) -> Seq<u8> {
    payload_of(frame.data@, frame.width, frame.height, encoding)
}

/// Whether the buffer of `frame` holds four bytes per pixel.
pub fn frame_is_consistent(frame: &Frame) -> (r: bool)
    ensures
        r == frame.wf(),
{
    let w = frame.width as u128;
    let h = frame.height as u128;
    assert(w * h <= 0xffff_ffff * 0xffff_ffff) by (nonlinear_arith)
        requires
            w <= 0xffff_ffff,
            h <= 0xffff_ffff,
    ;
    w * h * 4 == frame.data.len() as u128
}

/// Encodes `frame` as a payload of the given encoding. A frame whose buffer does
/// not match its dimensions is refused before any encoder runs.
pub fn encode_payload(frame: &Frame, encoding: Encoding) -> (r: Result<Vec<u8>, EncodeError>)
    ensures
        !frame.wf() ==> r == Err::<Vec<u8>, EncodeError>(EncodeError::SizeMismatch),
        frame.wf() ==> (r is Ok <==> encodes(frame.width, frame.height, encoding)),
        frame.wf() ==> match r {
            Ok(b) => b@ == encoded_payload(*frame, encoding),
            Err(e) => e == EncodeError::Codec,
        },
        r is Ok && encoding == Encoding::Image ==> image_dims_of(r->Ok_0@) == (
            frame.width,
            frame.height,
        ),
{
    if !frame_is_consistent(frame) {
        return Err(EncodeError::SizeMismatch);
    }
    match encoding {
        Encoding::Structured => match bincode_serialize(&frame.data, frame.width, frame.height) {
            Ok(b) => Ok(b),
            Err(_) => Err(EncodeError::Codec),
        },
        Encoding::Image => match jpeg_encode(frame.data.as_slice(), frame.width, frame.height) {
            Ok(b) => Ok(b),
            Err(_) => Err(EncodeError::Codec),
        },
    }
}

/// Whether `f` is what the payload `b` of the given encoding decodes to.
pub open spec fn decoded_as(b: Seq<u8>, encoding: Encoding, f: Frame) -> bool {
    match encoding {
        Encoding::Structured => structured_parse(b) == Some((f.data@, f.width, f.height)),
        Encoding::Image => (f.width, f.height) == image_dims_of(b),
    }
}

/// Whether decoding the payload `b` may fail: for the structured encoding exactly
/// when `b` does not start with the payload of a well-formed frame; for images the
/// image decoder decides.
pub open spec fn may_be_refused(b: Seq<u8>, encoding: Encoding) -> bool {
    match encoding {
        Encoding::Structured => !structured_valid(b),
        Encoding::Image => true,
    }
}

/// Decodes a non-empty payload of the given encoding into a frame.
pub fn decode_payload(payload: &[u8], encoding: Encoding) -> (r: Result<Frame, DecodeError>)
    ensures
        r is Ok ==> r->Ok_0.wf() && decoded_as(payload@, encoding, r->Ok_0),
        r is Err ==> may_be_refused(payload@, encoding),
        encoding == Encoding::Structured ==> match r {
            Ok(f) => structured_parse(payload@) == Some((f.data@, f.width, f.height)),
            Err(e) => match structured_parse(payload@) {
                Some((d, w, h)) => e == DecodeError::SizeMismatch && d.len() != w * h * 4,
                None => e == DecodeError::Malformed,
            },
        },
        encoding == Encoding::Image ==> match r {
            Ok(f) => (f.width, f.height) == image_dims_of(payload@),
            Err(e) => e == DecodeError::Malformed,
        },
{
    let decoded = match encoding {
        Encoding::Structured => match bincode_deserialize(payload) {
            Ok(t) => t,
            Err(_) => {
                return Err(DecodeError::Malformed);
            },
        },
        Encoding::Image => match image_decode(payload) {
            Ok(t) => t,
            Err(_) => {
                return Err(DecodeError::Malformed);
            },
        },
    };
    let (data, width, height) = decoded;
    let frame = Frame { data, width, height };
    if !frame_is_consistent(&frame) {
        return Err(DecodeError::SizeMismatch);
    }
    Ok(frame)
}

proof fn lemma_le32_round_trip(x: u32)
    ensures
        le32_value(le32_bytes(x)) == x,
{
}

proof fn lemma_le64_prefix(n: u64, rest: Seq<u8>)
    ensures
        le64_value(le64_bytes(n) + rest) == n,
        (le64_bytes(n) + rest).len() == 8 + rest.len(),
{
    let b = le64_bytes(n) + rest;
    let lo = (n % 0x1_0000_0000) as u32;
    let hi = (n / 0x1_0000_0000) as u32;
    lemma_le32_round_trip(lo);
    lemma_le32_round_trip(hi);
    assert(b.subrange(4, 8) =~= le32_bytes(hi));
    assert(b[0] == le32_bytes(lo)[0] && b[1] == le32_bytes(lo)[1] && b[2] == le32_bytes(lo)[2]
        && b[3] == le32_bytes(lo)[3]);
}

/// Decoding the structured payload of a well-formed frame gives back exactly its
/// width, height and pixel bytes.
pub proof fn lemma_structured_round_trip(data: Seq<u8>, width: u32, height: u32)
    requires
        data.len() == width * height * 4,
        data.len() <= usize::MAX,
    ensures
        structured_parse(structured_bytes(data, width, height)) == Some((data, width, height)),
        structured_valid(structured_bytes(data, width, height)),
{
    let n = data.len() as u64;
    let tail = data + le32_bytes(width) + le32_bytes(height);
    let b = structured_bytes(data, width, height);
    assert(b =~= le64_bytes(n) + tail);
    lemma_le64_prefix(n, tail);
    lemma_le32_round_trip(width);
    lemma_le32_round_trip(height);
    assert(b.subrange(8, 8 + n) =~= data);
    assert(b.subrange(8 + n, 12 + n) =~= le32_bytes(width));
    assert(b.subrange(12 + n, 16 + n) =~= le32_bytes(height));
}

/// The image round trip keeps the dimensions: a frame that the image decoder makes
/// of the JPEG payload of a frame has that frame's width and height (its pixels
/// only approximate the original's).
pub proof fn lemma_image_round_trip_dims(frame: Frame, payload: Seq<u8>, decoded: Frame)
    requires
        image_dims_of(payload) == (frame.width, frame.height),
        decoded_as(payload, Encoding::Image, decoded),
    ensures
        decoded.width == frame.width,
        decoded.height == frame.height,
        decoded.wf() ==> decoded.data@.len() == frame.width * frame.height * 4,
{
}

} // verus!
