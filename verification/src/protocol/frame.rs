//! Length-prefixed framing: a 4-byte big-endian length followed by the payload.
use vstd::prelude::*;

verus! {

/// Largest metadata frame accepted when reading protocol messages (1 MiB).
pub const MAX_META_SIZE: u32 = 1_048_576;

/// Reasons a frame cannot be read.
#[derive(Debug, Clone, PartialEq, Eq, Structural)]
pub enum FrameError {
    /// The input ended before the frame was complete.
    UnexpectedEof,
    /// The announced length exceeds the reader's limit.
    TooLarge { size: u32, max: u32 },
}

/// The four big-endian bytes of `n`.
pub open spec fn be_bytes(n: u32) -> Seq<u8> {
    seq![(n >> 24u32) as u8, (n >> 16u32) as u8, (n >> 8u32) as u8, n as u8]
}

/// The number that four big-endian bytes stand for.
pub open spec fn be_value(b0: u8, b1: u8, b2: u8, b3: u8) -> u32 {
    ((b0 as u32) << 24u32) | ((b1 as u32) << 16u32) | ((b2 as u32) << 8u32) | (b3 as u32)
}

/// The length field of a frame for a payload of `len` bytes: the length
/// reduced to 32 bits, as a `u32` cast does.
pub open spec fn length_field(len: nat) -> u32 {
    #[verifier::truncate]
    (len as u32)
}

/// The bytes of a frame holding `data`.
pub open spec fn frame_bytes(data: Seq<u8>) -> Seq<u8> {
    be_bytes(length_field(data.len())) + data
}

proof fn lemma_be_value_of_be_bytes(n: u32)
    ensures
        be_value((n >> 24u32) as u8, (n >> 16u32) as u8, (n >> 8u32) as u8, n as u8) == n,
{
    assert(((((n >> 24u32) as u8) as u32) << 24u32) | ((((n >> 16u32) as u8) as u32) << 16u32) | ((
    ((n >> 8u32) as u8) as u32) << 8u32) | ((n as u8) as u32) == n) by (bit_vector);
}

/// Encodes `data` as a frame: its length as four big-endian bytes, then the data.
pub fn encode_frame(data: &[u8]) -> (r: Vec<u8>)
    ensures
        r@ == frame_bytes(data@),
{
    let len: u32 = #[verifier::truncate]
    (data.len() as u32);
    let mut out: Vec<u8> = Vec::with_capacity(4);
    out.push(#[verifier::truncate] ((len >> 24u32) as u8));
    out.push(#[verifier::truncate] ((len >> 16u32) as u8));
    out.push(#[verifier::truncate] ((len >> 8u32) as u8));
    out.push(#[verifier::truncate] (len as u8));
    let mut i: usize = 0;
    while i < data.len()
        invariant
            0 <= i <= data@.len(),
            out@ == be_bytes(len) + data@.subrange(0, i as int),
        decreases data@.len() - i,
    {
        out.push(data[i]);
        i = i + 1;
        proof {
            assert(data@.subrange(0, i as int) == data@.subrange(0, i - 1).push(data@[i - 1]));
        }
    }
    proof {
        assert(data@.subrange(0, data@.len() as int) == data@);
    }
    out
}

/// Reads the announced payload length from a frame header and checks it
/// against `max_size`.
pub fn decode_frame_header(b0: u8, b1: u8, b2: u8, b3: u8, max_size: u32) -> (r: Result<
    u32,
    FrameError,
>)
    ensures
        be_value(b0, b1, b2, b3) <= max_size ==> r == Ok::<u32, FrameError>(be_value(b0, b1, b2, b3)),
        be_value(b0, b1, b2, b3) > max_size ==> r == Err::<u32, FrameError>(
            FrameError::TooLarge { size: be_value(b0, b1, b2, b3), max: max_size },
        ),
{
    let len: u32 = ((b0 as u32) << 24u32) | ((b1 as u32) << 16u32) | ((b2 as u32) << 8u32) | (
    b3 as u32);
    if len > max_size {
        Err(FrameError::TooLarge { size: len, max: max_size })
    } else {
        Ok(len)
    }
}

/// The outcome of reading one frame from the start of `buf` with limit `max_size`:
/// the payload and the number of bytes the frame took.
pub open spec fn decode_frame_spec(buf: Seq<u8>, max_size: u32) -> Result<(Seq<u8>, nat), FrameError> {
    if buf.len() < 4 {
        Err(FrameError::UnexpectedEof)
    } else {
        let len = be_value(buf[0], buf[1], buf[2], buf[3]);
        if len > max_size {
            Err(FrameError::TooLarge { size: len, max: max_size })
        } else if buf.len() < 4 + len {
            Err(FrameError::UnexpectedEof)
        } else {
            Ok((buf.subrange(4, 4 + len), (4 + len) as nat))
        }
    }
}

/// Reads one frame from the start of `buf`, rejecting frames whose announced
/// length exceeds `max_size`. On success, returns the payload and the number
/// of bytes consumed.
pub fn decode_frame(buf: &[u8], max_size: u32) -> (r: Result<(Vec<u8>, usize), FrameError>)
    ensures
        match (r, decode_frame_spec(buf@, max_size)) {
            (Ok((data, used)), Ok((sdata, sused))) => data@ == sdata && used == sused,
            (Err(e), Err(se)) => e == se,
            _ => false,
        },
{
    if buf.len() < 4 {
        return Err(FrameError::UnexpectedEof);
    }
    let len = match decode_frame_header(buf[0], buf[1], buf[2], buf[3], max_size) {
        Ok(len) => len,
        Err(e) => return Err(e),
    };
    let len = len as usize;
    if buf.len() - 4 < len {
        return Err(FrameError::UnexpectedEof);
    }
    let mut out: Vec<u8> = Vec::with_capacity(len);
    let mut i: usize = 0;
    while i < len
        invariant
            0 <= i <= len,
            4 + len <= buf@.len(),
            buf@.len() == buf.len(),
            out@ == buf@.subrange(4, 4 + i),
        decreases len - i,
    {
        out.push(buf[4 + i]);
        i = i + 1;
        proof {
            assert(buf@.subrange(4, 4 + i) == buf@.subrange(4, 4 + i - 1).push(buf@[4 + i - 1]));
        }
    }
    Ok((out, 4 + len))
}

/// Reading back a written frame gives the written data, followed by whatever
/// came after it, as long as the data fits the reader's limit.
pub proof fn lemma_frame_roundtrip(data: Seq<u8>, rest: Seq<u8>, max_size: u32)
    requires
        data.len() <= max_size,
    ensures
        decode_frame_spec(frame_bytes(data) + rest, max_size) == Ok::<(Seq<u8>, nat), FrameError>(
            (data, (4 + data.len()) as nat),
        ),
{
    let n = length_field(data.len());
    assert(n == data.len());
    lemma_be_value_of_be_bytes(n);
    let buf = frame_bytes(data) + rest;
    assert(buf.subrange(4, 4 + data.len() as int) =~= data);
}

/// A frame whose data exceeds the reader's limit is refused with its size.
pub proof fn lemma_frame_too_large(data: Seq<u8>, rest: Seq<u8>, max_size: u32)
    requires
        max_size < data.len() < 0x1_0000_0000,
    ensures
        decode_frame_spec(frame_bytes(data) + rest, max_size) == Err::<(Seq<u8>, nat), FrameError>(
            FrameError::TooLarge { size: data.len() as u32, max: max_size },
        ),
{
    let n = length_field(data.len());
    assert(n == data.len());
    lemma_be_value_of_be_bytes(n);
}

} // verus!
