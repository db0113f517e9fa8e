//! Framing: every message travels as a 4-byte big-endian length followed by
//! that many bytes. A length above the limit is refused on sight of the
//! prefix alone, before any of the body is taken; a prefix or body that is
//! cut short is an error.

use vstd::prelude::*;

verus! {

/// The largest body of a frame, in bytes: 100 MiB.
pub const MAX_MESSAGE_SIZE: usize = 104_857_600;

/// The length of the prefix, in bytes.
pub const HEADER_LEN: usize = 4;

/// Why a frame was refused.
#[derive(Clone, Copy, Debug, PartialEq, Eq, Structural)]
pub enum FrameError {
    /// The body is, or is announced to be, longer than [`MAX_MESSAGE_SIZE`].
    TooLarge,
    /// The bytes end before the prefix or the announced body does.
    Truncated,
}

/// The four bytes that announce a body of `n` bytes, most significant first.
pub open spec fn spec_length_prefix(n: nat) -> Seq<u8> {
    seq![
        (n / 0x100_0000 % 0x100) as u8,
        (n / 0x1_0000 % 0x100) as u8,
        (n / 0x100 % 0x100) as u8,
        (n % 0x100) as u8,
    ]
}

/// The length that the first four bytes of `header` announce.
pub open spec fn spec_announced_length(header: Seq<u8>) -> nat {
    (header[0] as nat) * 0x100_0000 + (header[1] as nat) * 0x1_0000 + (header[2] as nat) * 0x100 + (header[3] as nat)
}

/// The frame of a body.
pub open spec fn spec_encode_frame(payload: Seq<u8>) -> Seq<u8> {
    spec_length_prefix(payload.len()) + payload
}

/// The first frame of `bytes`: its body and how many bytes it takes up.
pub open spec fn spec_decode_frame(bytes: Seq<u8>) -> Result<(Seq<u8>, nat), FrameError> {
    if bytes.len() < HEADER_LEN {
        Err(FrameError::Truncated)
    } else {
        let n = spec_announced_length(bytes);
        if n > MAX_MESSAGE_SIZE {
            Err(FrameError::TooLarge)
        } else if bytes.len() < HEADER_LEN + n {
            Err(FrameError::Truncated)
        } else {
            Ok((bytes.subrange(HEADER_LEN as int, HEADER_LEN + n), (HEADER_LEN + n) as nat))
        }
    }
}

/// The length that a complete prefix announces, or why the frame is refused.
/// Nothing of the body is needed to tell.
pub fn frame_length(header: &[u8; 4]) -> (length: Result<usize, FrameError>)
    ensures
        length == (if spec_announced_length(header@) > MAX_MESSAGE_SIZE {
            Err(FrameError::TooLarge)
        } else {
            Ok(spec_announced_length(header@) as usize)
        }),
{
    let n: u64 = (header[0] as u64) * 0x100_0000 + (header[1] as u64) * 0x1_0000 + (header[2] as u64) * 0x100 + (
    header[3] as u64);
    if n > MAX_MESSAGE_SIZE as u64 {
        Err(FrameError::TooLarge)
    } else {
        Ok(n as usize)
    }
}

/// The prefix for a body of `length` bytes.
pub fn length_prefix(length: usize) -> (prefix: Result<[u8; 4], FrameError>)
    ensures
        match prefix {
            Ok(bytes) => length <= MAX_MESSAGE_SIZE && bytes@ == spec_length_prefix(length as nat),
            Err(e) => length > MAX_MESSAGE_SIZE && e == FrameError::TooLarge,
        },
{
    if length > MAX_MESSAGE_SIZE {
        return Err(FrameError::TooLarge);
    }
    let bytes: [u8; 4] = [
        (length / 0x100_0000 % 0x100) as u8,
        (length / 0x1_0000 % 0x100) as u8,
        (length / 0x100 % 0x100) as u8,
        (length % 0x100) as u8,
    ];
    assert(bytes@ =~= spec_length_prefix(length as nat));
    Ok(bytes)
}

/// The frame of `payload`: its length prefix and then the payload itself.
pub fn encode_frame(payload: &[u8]) -> (frame: Result<Vec<u8>, FrameError>)
    ensures
        match frame {
            Ok(bytes) => payload@.len() <= MAX_MESSAGE_SIZE && bytes@ == spec_encode_frame(payload@),
            Err(e) => payload@.len() > MAX_MESSAGE_SIZE && e == FrameError::TooLarge,
        },
{
    let prefix = match length_prefix(payload.len()) {
        Ok(prefix) => prefix,
        Err(e) => {
            return Err(e);
        },
    };
    let mut frame: Vec<u8> = Vec::new();
    frame.push(prefix[0]);
    frame.push(prefix[1]);
    frame.push(prefix[2]);
    frame.push(prefix[3]);
    assert(frame@ =~= spec_length_prefix(payload@.len()));
    let mut i: usize = 0;
    while i < payload.len()
        invariant
            i <= payload@.len(),
            frame@ == spec_length_prefix(payload@.len()) + payload@.subrange(0, i as int),
        decreases payload@.len() - i,
    {
        frame.push(payload[i]);
        assert(frame@ =~= spec_length_prefix(payload@.len()) + payload@.subrange(0, i + 1));
        i += 1;
    }
    assert(payload@.subrange(0, payload@.len() as int) =~= payload@);
    Ok(frame)
}

/// Takes the first frame off `bytes`: its body, and the number of bytes that
/// the frame takes up.
pub fn decode_frame(bytes: &[u8]) -> (frame: Result<(Vec<u8>, usize), FrameError>)
    ensures
        match frame {
            Ok((body, used)) => spec_decode_frame(bytes@) == Ok::<(Seq<u8>, nat), FrameError>((body@, used as nat)),
            Err(e) => spec_decode_frame(bytes@) == Err::<(Seq<u8>, nat), FrameError>(e),
        },
{
    if bytes.len() < HEADER_LEN {
        return Err(FrameError::Truncated);
    }
    let header: [u8; 4] = [bytes[0], bytes[1], bytes[2], bytes[3]];
    let n = match frame_length(&header) {
        Ok(n) => n,
        Err(e) => {
            return Err(e);
        },
    };
    if bytes.len() - HEADER_LEN < n {
        return Err(FrameError::Truncated);
    }
    let mut body: Vec<u8> = Vec::new();
    let mut i: usize = 0;
    while i < n
        invariant
            i <= n,
            n <= MAX_MESSAGE_SIZE,
            HEADER_LEN + n <= bytes@.len(),
            body@ == bytes@.subrange(HEADER_LEN as int, HEADER_LEN + i),
        decreases n - i,
    {
        body.push(bytes[HEADER_LEN + i]);
        assert(body@ =~= bytes@.subrange(HEADER_LEN as int, HEADER_LEN + i + 1));
        i += 1;
    }
    Ok((body, HEADER_LEN + n))
}

/// A prefix announces the length it was made for.
pub proof fn lemma_prefix_round_trip(n: nat)
    requires
        n < 0x1_0000_0000,
    ensures
        spec_length_prefix(n).len() == 4,
        spec_announced_length(spec_length_prefix(n)) == n,
{
}

/// Whatever follows it on the stream, a frame decodes to the body it was
/// made of, and takes up exactly its own bytes.
pub proof fn lemma_frame_round_trip(payload: Seq<u8>, rest: Seq<u8>)
    requires
        payload.len() <= MAX_MESSAGE_SIZE,
    ensures
        spec_decode_frame(spec_encode_frame(payload) + rest) == Ok::<(Seq<u8>, nat), FrameError>(
            (payload, (HEADER_LEN + payload.len()) as nat),
        ),
{
    let n = payload.len();
    lemma_prefix_round_trip(n);
    let stream = spec_encode_frame(payload) + rest;
    assert(stream[0] == spec_length_prefix(n)[0]);
    assert(stream[1] == spec_length_prefix(n)[1]);
    assert(stream[2] == spec_length_prefix(n)[2]);
    assert(stream[3] == spec_length_prefix(n)[3]);
    assert(stream.subrange(HEADER_LEN as int, HEADER_LEN + n) =~= payload);
}

/// A prefix that announces one byte more than the limit is refused, however
/// many bytes follow it.
pub proof fn lemma_oversize_refused(bytes: Seq<u8>)
    requires
        bytes.len() >= HEADER_LEN,
        spec_announced_length(bytes) > MAX_MESSAGE_SIZE,
    ensures
        spec_decode_frame(bytes) == Err::<(Seq<u8>, nat), FrameError>(FrameError::TooLarge),
{
}

} // verus!
