use vstd::prelude::*;

verus! {

/// Bytes in the length prefix of every wire message.
pub const HEADER_LEN: usize = 4;

/// Big-endian bytes of `n`.
pub open spec fn be_bytes(n: u32) -> Seq<u8> {
    seq![
        (n / 0x100_0000) as u8,
        (n / 0x1_0000 % 0x100) as u8,
        (n / 0x100 % 0x100) as u8,
        (n % 0x100) as u8,
    ]
}

/// Value of the first four bytes of `b` read as a big-endian unsigned integer.
pub open spec fn be_value(b: Seq<u8>) -> int {
    b[0] as int * 0x100_0000 + b[1] as int * 0x1_0000 + b[2] as int * 0x100 + b[3] as int
}

/// The wire message carrying `payload`: its length, big-endian, then the payload.
pub open spec fn wire_message(payload: Seq<u8>) -> Seq<u8> {
    be_bytes(payload.len() as u32) + payload
}

/// The reserved message of length zero: nothing new this tick.
pub open spec fn heartbeat_message() -> Seq<u8> {
    seq![0u8, 0u8, 0u8, 0u8]
}

/// Reading back the big-endian bytes of a number gives the number.
pub proof fn lemma_be_round_trip(n: u32)
    ensures
        be_bytes(n).len() == 4,
        be_value(be_bytes(n)) == n,
{
}

/// The big-endian bytes of `n`.
pub fn encode_length(n: u32) -> (r: [u8; 4])
    ensures
        r@ == be_bytes(n),
{
    let r = [(n / 0x100_0000) as u8, (n / 0x1_0000 % 0x100) as u8, (n / 0x100 % 0x100) as u8, (n % 0x100) as u8];
    assert(r@ =~= be_bytes(n));
    r
}

/// The length carried by a 4-byte big-endian prefix.
pub fn decode_length(header: &[u8; 4]) -> (r: u32)
    ensures
        r == be_value(header@),
{
    let b0 = header[0] as u32;
    let b1 = header[1] as u32;
    let b2 = header[2] as u32;
    let b3 = header[3] as u32;
    b0 * 0x100_0000 + b1 * 0x1_0000 + b2 * 0x100 + b3
}

/// The heartbeat message: a zero length and no payload.
pub fn heartbeat() -> (r: Vec<u8>)
    ensures
        r@ == heartbeat_message(),
        r@ == wire_message(Seq::empty()),
{
    let r = vec![0u8, 0u8, 0u8, 0u8];
    assert(r@ =~= heartbeat_message());
    assert(wire_message(Seq::empty()) =~= heartbeat_message());
    r
}

/// Frames `payload` as one wire message, or gives none when its length does not fit
/// the 4-byte prefix.
pub fn frame_message(payload: &[u8]) -> (r: Option<Vec<u8>>)
    ensures
        match r {
            Some(m) => payload@.len() <= u32::MAX && m@ == wire_message(payload@),
            None => payload@.len() > u32::MAX,
        },
{
    let len = payload.len();
    if len > 0xffff_ffff {
        return None;
    }
    let header = encode_length(len as u32);
    let mut m: Vec<u8> = Vec::new();
    m.push(header[0]);
    m.push(header[1]);
    m.push(header[2]);
    m.push(header[3]);
    assert(m@ =~= be_bytes(len as u32));
    m.extend_from_slice(payload);
    Some(m)
}

} // verus!
