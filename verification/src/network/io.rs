//! Length-prefixed framing: every message travels as a four-byte
//! big-endian length followed by that many payload bytes.

use vstd::prelude::*;
use vstd::slice::slice_subrange;
use vstd::slice::slice_to_vec;

verus! {

/// Number of bytes in the length prefix.
pub const PREFIX_LEN: usize = 4;

/// Why a frame could not be built or read.
#[derive(Debug, Clone, Copy, PartialEq, Eq)]
pub enum FrameError {
    /// The payload is longer than a four-byte length can say.
    PayloadTooLarge,
    /// The buffer ends before the frame does.
    Truncated,
}

/// The four bytes that stand for `len`, most significant first.
pub open spec fn spec_encode_length(len: u32) -> Seq<u8> {
    seq![
        (len / 0x100_0000) as u8,
        (len / 0x1_0000 % 0x100) as u8,
        (len / 0x100 % 0x100) as u8,
        (len % 0x100) as u8,
    ]
}

/// The number that the first four bytes of `header` stand for.
pub open spec fn spec_decode_length(header: Seq<u8>) -> nat
    recommends
        header.len() >= 4,
{
    (header[0] as nat) * 0x100_0000 + (header[1] as nat) * 0x1_0000 + (header[2] as nat) * 0x100
        + (header[3] as nat)
}

/// The frame of `payload`: its length prefix, then the payload itself.
pub open spec fn spec_frame(payload: Seq<u8>) -> Seq<u8>
    recommends
        payload.len() <= u32::MAX,
{
    spec_encode_length(payload.len() as u32) + payload
}

/// Whether `buf` starts with a whole frame.
pub open spec fn spec_has_frame(buf: Seq<u8>) -> bool {
    buf.len() >= 4 && buf.len() >= 4 + spec_decode_length(buf)
}

/// The payload of the frame that `buf` starts with.
pub open spec fn spec_frame_payload(buf: Seq<u8>) -> Seq<u8>
    recommends
        spec_has_frame(buf),
{
    buf.subrange(4, 4 + spec_decode_length(buf) as int)
}

/// The length prefix of a payload of `len` bytes.
pub fn encode_length(len: u32) -> (header: [u8; 4])
    ensures
        header@ == spec_encode_length(len),
        spec_decode_length(header@) == len,
{
    let header: [u8; 4] = [
        (len / 0x100_0000) as u8,
        (len / 0x1_0000 % 0x100) as u8,
        (len / 0x100 % 0x100) as u8,
        (len % 0x100) as u8,
    ];
    assert(header@ =~= spec_encode_length(len));
    header
}

/// The payload length that a length prefix announces.
pub fn decode_length(header: &[u8; 4]) -> (len: u32)
    ensures
        len == spec_decode_length(header@),
        spec_encode_length(len) == header@,
{
    let len: u32 = (header[0] as u32) * 0x100_0000 + (header[1] as u32) * 0x1_0000 + (
    header[2] as u32) * 0x100 + (header[3] as u32);
    proof {
        lemma_length_round_trip(len, header@);
    }
    len
}

/// Builds the frame of one encoded message.
pub fn frame_message(data: &[u8]) -> (framed: Result<Vec<u8>, FrameError>)
    ensures
        data@.len() <= u32::MAX <==> framed is Ok,
        framed matches Ok(bytes) ==> bytes@ == spec_frame(data@),
        framed matches Err(e) ==> e == FrameError::PayloadTooLarge,
{
    if data.len() > 0xffff_ffff {
        return Err(FrameError::PayloadTooLarge);
    }
    let header: [u8; 4] = encode_length(data.len() as u32);
    let mut bytes: Vec<u8> = Vec::new();
    bytes.push(header[0]);
    bytes.push(header[1]);
    bytes.push(header[2]);
    bytes.push(header[3]);
    bytes.extend_from_slice(data);
    assert(bytes@ =~= spec_frame(data@));
    Ok(bytes)
}

/// Reads the frame at the start of `buf`: its payload, and how many bytes
/// of `buf` the frame takes.
pub fn read_frame(buf: &[u8]) -> (frame: Result<(Vec<u8>, usize), FrameError>)
    ensures
        spec_has_frame(buf@) <==> frame is Ok,
        frame matches Ok((payload, used)) ==> payload@ == spec_frame_payload(buf@) && used == 4
            + payload@.len(),
        frame matches Err(e) ==> e == FrameError::Truncated,
{
    if buf.len() < 4 {
        return Err(FrameError::Truncated);
    }
    let header: [u8; 4] = [buf[0], buf[1], buf[2], buf[3]];
    let len: u32 = decode_length(&header);
    assert(spec_decode_length(buf@) == len);
    if buf.len() - 4 < len as usize {
        return Err(FrameError::Truncated);
    }
    let end: usize = 4 + len as usize;
    let payload: Vec<u8> = slice_to_vec(slice_subrange(buf, 4, end));
    Ok((payload, end))
}

/// A frame that was built from a payload reads back as that payload, and
/// takes the whole frame; bytes that follow it do not matter.
pub proof fn lemma_frame_round_trip(payload: Seq<u8>, rest: Seq<u8>)
    requires
        payload.len() <= u32::MAX,
    ensures
        spec_has_frame(spec_frame(payload) + rest),
        spec_frame_payload(spec_frame(payload) + rest) == payload,
        spec_decode_length(spec_frame(payload) + rest) == payload.len(),
{
    let len: u32 = payload.len() as u32;
    let buf: Seq<u8> = spec_frame(payload) + rest;
    assert(buf[0] == spec_encode_length(len)[0]);
    assert(buf[1] == spec_encode_length(len)[1]);
    assert(buf[2] == spec_encode_length(len)[2]);
    assert(buf[3] == spec_encode_length(len)[3]);
    assert(spec_decode_length(buf) == len);
    assert(spec_frame_payload(buf) =~= payload);
}

/// Encoding a length and decoding it again gives the length back, and a
/// header of four bytes is the encoding of the length it decodes to.
pub proof fn lemma_length_round_trip(len: u32, header: Seq<u8>)
    requires
        header.len() == 4,
    ensures
        spec_decode_length(spec_encode_length(len)) == len,
        spec_decode_length(header) <= u32::MAX,
        spec_encode_length(spec_decode_length(header) as u32) == header,
{
    let b0: int = header[0] as int;
    let b1: int = header[1] as int;
    let b2: int = header[2] as int;
    let b3: int = header[3] as int;
    let n: int = spec_decode_length(header) as int;
    let hi: int = b0 * 0x100 + b1;
    let mid: int = hi * 0x100 + b2;
    assert(n == mid * 0x100 + b3);
    assert(n / 0x100 == mid && n % 0x100 == b3);
    assert(n / 0x1_0000 == hi) by {
        assert(n == hi * 0x1_0000 + (b2 * 0x100 + b3));
    }
    assert(n / 0x100_0000 == b0) by {
        assert(n == b0 * 0x100_0000 + (b1 * 0x1_0000 + b2 * 0x100 + b3));
    }
    assert(hi % 0x100 == b1);
    assert(mid % 0x100 == b2);
    assert(spec_encode_length(n as u32) =~= header);
    let e: Seq<u8> = spec_encode_length(len);
    let m: int = len as int;
    assert(spec_decode_length(e) == m) by {
        let q2: int = m / 0x100;
        let q1: int = m / 0x1_0000;
        let q0: int = m / 0x100_0000;
        assert(q1 == q2 / 0x100);
        assert(q0 == q1 / 0x100);
        assert(m == q2 * 0x100 + m % 0x100);
        assert(q2 == q1 * 0x100 + q2 % 0x100);
        assert(q1 == q0 * 0x100 + q1 % 0x100);
        assert(e[0] as int == q0);
        assert(e[1] as int == q1 % 0x100);
        assert(e[2] as int == q2 % 0x100);
        assert(e[3] as int == m % 0x100);
    }
}

} // verus!
