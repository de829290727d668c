//! Frame codec: one logical datagram on a persistent byte stream is a
//! two-byte big-endian length prefix followed by that many payload bytes.

use vstd::prelude::*;

verus! {

/// Largest payload one frame can carry: its length must fit in the
/// two-byte prefix.
pub const MAX_PAYLOAD_LEN: usize = 65535;

/// The bytes of one encoded frame: big-endian length prefix, then the
/// payload itself.
pub open spec fn spec_frame(payload: Seq<u8>) -> Seq<u8> {
    seq![(payload.len() / 256) as u8, (payload.len() % 256) as u8] + payload
}

/// The payload length announced by a frame's two prefix bytes.
pub open spec fn spec_header_len(b0: u8, b1: u8) -> int {
    b0 * 256 + b1
}

/// What decoding a buffer yields: `None` while the buffer does not yet
/// hold a whole frame, otherwise the payload and the number of bytes the
/// frame occupies.
pub open spec fn spec_decode(buf: Seq<u8>) -> Option<(Seq<u8>, int)> {
    if buf.len() < 2 {
        None
    } else {
        let n = spec_header_len(buf[0], buf[1]);
        if buf.len() < 2 + n {
            None
        } else {
            Some((buf.subrange(2, 2 + n), 2 + n))
        }
    }
}

/// Why a payload cannot be encoded.
#[derive(Clone, Copy, Debug, PartialEq, Eq, Structural)]
pub enum FrameError {
    /// The payload length does not fit in the two-byte prefix.
    PayloadTooLong,
}

/// What decoding a buffer produced.
pub enum Decoded {
    /// The buffer does not yet hold a whole frame.
    Incomplete,
    /// The frame announces a payload longer than the receiver's working
    /// buffer.  The stream position cannot be recovered, so the caller
    /// tears the connection down.
    TooLarge,
    /// One whole frame: its payload, and how many bytes of the buffer it
    /// occupied.
    Frame { payload: Vec<u8>, consumed: usize },
}

/// Encodes one payload as a frame, rejecting a payload whose length does
/// not fit in sixteen bits rather than truncating it.
pub fn encode_frame(payload: &Vec<u8>) -> (r: Result<Vec<u8>, FrameError>)
    ensures
        payload@.len() <= MAX_PAYLOAD_LEN <==> r is Ok,
        r matches Ok(f) ==> f@ == spec_frame(payload@),
        r matches Err(e) ==> e == FrameError::PayloadTooLong,
{
    if payload.len() > MAX_PAYLOAD_LEN {
        return Err(FrameError::PayloadTooLong);
    }
    let n = payload.len();
    let mut out: Vec<u8> = Vec::new();
    out.push((n / 256) as u8);
    out.push((n % 256) as u8);
    let mut i: usize = 0;
    while i < payload.len()
        invariant
            i <= payload@.len(),
            payload@.len() == n,
            n <= MAX_PAYLOAD_LEN,
            out@ == seq![(n / 256) as u8, (n % 256) as u8] + payload@.take(i as int),
        decreases payload@.len() - i,
    {
        out.push(payload[i]);
        i = i + 1;
    }
    proof {
        assert(out@ =~= spec_frame(payload@));
    }
    Ok(out)
}

/// Reads the payload length out of a frame's two prefix bytes.
pub fn header_len(b0: u8, b1: u8) -> (n: usize)
    ensures
        n == spec_header_len(b0, b1),
        n <= MAX_PAYLOAD_LEN,
{
    (b0 as usize) * 256 + (b1 as usize)
}

/// Decodes the frame at the front of a buffer, if the buffer already
/// holds all of it.  A frame announcing a payload longer than `cap`,
/// the receiver's working buffer, is refused outright: reading it
/// would mean allocating unboundedly on unverified peer data.
pub fn decode_frame(buf: &Vec<u8>, cap: usize) -> (r: Decoded)
    ensures
        buf@.len() >= 2 && spec_header_len(buf@[0], buf@[1]) > cap ==> r is TooLarge,
        buf@.len() >= 2 && spec_header_len(buf@[0], buf@[1]) <= cap ==> match spec_decode(
            buf@,
        ) {
            None => r is Incomplete,
            Some(d) => r matches Decoded::Frame { payload, consumed }
                && payload@ == d.0 && consumed == d.1,
        },
        buf@.len() < 2 ==> r is Incomplete,
{
    if buf.len() < 2 {
        return Decoded::Incomplete;
    }
    let n = header_len(buf[0], buf[1]);
    if n > cap {
        return Decoded::TooLarge;
    }
    if buf.len() - 2 < n {
        return Decoded::Incomplete;
    }
    let mut payload: Vec<u8> = Vec::new();
    let mut i: usize = 0;
    while i < n
        invariant
            i <= n,
            n <= MAX_PAYLOAD_LEN,
            2 + n <= buf@.len(),
            payload@ == buf@.subrange(2, 2 + i as int),
        decreases n - i,
    {
        proof {
            assert(buf@.subrange(2, 2 + (i + 1) as int)
                =~= buf@.subrange(2, 2 + i as int).push(buf@[2 + i]));
        }
        payload.push(buf[2 + i]);
        i = i + 1;
    }
    Decoded::Frame { payload, consumed: 2 + n }
}

/// Round trip: a frame encoded from any admissible payload decodes back
/// to exactly that payload, whatever bytes follow it in the buffer.
pub proof fn lemma_frame_round_trip(payload: Seq<u8>, rest: Seq<u8>)
    requires
        payload.len() <= MAX_PAYLOAD_LEN,
    ensures
        spec_decode(spec_frame(payload) + rest)
            == Some((payload, 2 + payload.len() as int)),
{
    let n = payload.len() as int;
    let buf = spec_frame(payload) + rest;
    assert(buf[0] == (n / 256) as u8 && buf[1] == (n % 256) as u8);
    assert(n / 256 * 256 + n % 256 == n) by (nonlinear_arith)
        requires 0 <= n <= 65535;
    assert(spec_header_len(buf[0], buf[1]) == n);
    assert(buf.subrange(2, 2 + n) =~= payload);
}

} // verus!
