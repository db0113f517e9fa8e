//! The encoder: a payload is hidden in the lowest bit of the colour channels
//! of a carrier image and recovered from there.
//!
//! An image is decoded to rows of RGBA pixels, four bytes each. The red,
//! green and blue bytes carry one bit each, in reading order; alpha is left
//! alone. What is stored is a 4-byte big-endian length followed by the
//! payload, most significant bit first. The result leaves as a PNG, which
//! keeps every bit.

use vstd::prelude::*;
use crate::frame::{spec_announced_length, spec_length_prefix, lemma_prefix_round_trip};

verus! {

/// Why the encoder or the decoder gave up.
#[derive(Clone, Copy, Debug, PartialEq, Eq, Structural)]
pub enum CodecError {
    /// The carrier has too few pixels for the payload.
    TooSmall,
    /// The bytes are no image that can be read, or the result cannot be written.
    Format,
    /// The image announces more payload than it can hold.
    Length,
}

impl CodecError {
    /// The short text that stands for the error in a task response.
    pub fn classifier(&self) -> (text: String)
        ensures
            text@ == (match *self {
                CodecError::TooSmall => "too_small"@,
                CodecError::Format => "format"@,
                CodecError::Length => "length"@,
            }),
    {
        match self {
            CodecError::TooSmall => "too_small".to_owned(),
            CodecError::Format => "format".to_owned(),
            CodecError::Length => "length".to_owned(),
        }
    }
}

/// A decoded image: `height` rows of `width` pixels of four bytes, red,
/// green, blue and alpha.
#[derive(Debug, PartialEq, Eq)]
pub struct Raster {
    pub width: u32,
    pub height: u32,
    pub pixels: Vec<u8>,
}

/// Whether `len` bytes hold `width` times `height` pixels.
pub open spec fn spec_holds_pixels(width: u32, height: u32, len: nat) -> bool {
    4 * (width * height) <= len
}

/// The number of bits that an image of this size can carry.
pub open spec fn spec_usable_bits(width: u32, height: u32) -> int {
    3 * (width * height)
}

/// The value of the bit at `shift` places from the lowest: 2 to the power of `shift`.
pub open spec fn spec_weight(shift: int) -> int {
    if shift <= 0 {
        1
    } else if shift == 1 {
        2
    } else if shift == 2 {
        4
    } else if shift == 3 {
        8
    } else if shift == 4 {
        16
    } else if shift == 5 {
        32
    } else if shift == 6 {
        64
    } else {
        128
    }
}

/// Bit `position` of a byte, counted from the most significant.
pub open spec fn spec_bit(byte: u8, position: int) -> int {
    (byte as int / spec_weight(7 - position)) % 2
}

/// Bit `k` of a byte string, counted from the most significant bit of its first byte.
pub open spec fn spec_data_bit(data: Seq<u8>, k: int) -> int {
    spec_bit(data[k / 8], k % 8)
}

/// The index of the byte that carries bit `k`.
pub open spec fn spec_channel(k: int) -> int {
    4 * (k / 3) + k % 3
}

/// The number of the bit that the colour byte at index `j` carries.
pub open spec fn spec_slot(j: int) -> int {
    3 * (j / 4) + j % 4
}

/// `byte` with its lowest bit replaced by `bit`.
pub open spec fn spec_with_low_bit(byte: u8, bit: int) -> u8 {
    (byte - byte % 2 + bit) as u8
}

/// The pixels after the first `count` bits of `data` were stored in them.
pub open spec fn spec_embed_bits(pixels: Seq<u8>, data: Seq<u8>, count: int) -> Seq<u8> {
    Seq::new(
        pixels.len(),
        |j: int|
            if j % 4 != 3 && spec_slot(j) < count {
                spec_with_low_bit(pixels[j], spec_data_bit(data, spec_slot(j)))
            } else {
                pixels[j]
            },
    )
}

/// What is stored for a payload: its length, then the payload.
pub open spec fn spec_stored_form(payload: Seq<u8>) -> Seq<u8> {
    spec_length_prefix(payload.len()) + payload
}

/// Whether a payload of `len` bytes fits into `usable` bits.
pub open spec fn spec_fits(len: nat, usable: int) -> bool {
    len <= u32::MAX && 8 * (4 + len) <= usable
}

/// The pixels of a carrier after `payload` was hidden in them.
pub open spec fn spec_embed_payload(width: u32, height: u32, pixels: Seq<u8>, payload: Seq<u8>) -> Result<
    Seq<u8>,
    CodecError,
> {
    if !spec_holds_pixels(width, height, pixels.len()) {
        Err(CodecError::Format)
    } else if !spec_fits(payload.len(), spec_usable_bits(width, height)) {
        Err(CodecError::TooSmall)
    } else {
        Ok(spec_embed_bits(pixels, spec_stored_form(payload), 8 * (4 + payload.len()) as int))
    }
}

/// The bit that the pixels carry at place `k`.
pub open spec fn spec_stored_bit(pixels: Seq<u8>, k: int) -> int {
    pixels[spec_channel(k)] as int % 2
}

/// The byte that the pixels carry in the eight bits from place `k` on.
pub open spec fn spec_stored_byte(pixels: Seq<u8>, k: int) -> int {
    128 * spec_stored_bit(pixels, k) + 64 * spec_stored_bit(pixels, k + 1) + 32 * spec_stored_bit(pixels, k + 2) + 16
        * spec_stored_bit(pixels, k + 3) + 8 * spec_stored_bit(pixels, k + 4) + 4 * spec_stored_bit(pixels, k + 5)
        + 2 * spec_stored_bit(pixels, k + 6) + spec_stored_bit(pixels, k + 7)
}

/// The payload length that the pixels announce in their first 32 bits.
pub open spec fn spec_stored_length(pixels: Seq<u8>) -> int {
    spec_stored_byte(pixels, 0) * 0x100_0000 + spec_stored_byte(pixels, 8) * 0x1_0000 + spec_stored_byte(pixels, 16)
        * 0x100 + spec_stored_byte(pixels, 24)
}

/// The payload that the pixels carry.
pub open spec fn spec_extract_payload(width: u32, height: u32, pixels: Seq<u8>) -> Result<Seq<u8>, CodecError> {
    if !spec_holds_pixels(width, height, pixels.len()) {
        Err(CodecError::Format)
    } else if spec_usable_bits(width, height) < 32 || 32 + 8 * spec_stored_length(pixels) > spec_usable_bits(
        width,
        height,
    ) {
        Err(CodecError::Length)
    } else {
        Ok(Seq::new(spec_stored_length(pixels) as nat, |i: int| spec_stored_byte(pixels, 32 + 8 * i) as u8))
    }
}

/// The length that pixels announce fits in 32 bits.
pub proof fn lemma_stored_length_is_bounded(pixels: Seq<u8>)
    ensures
        0 <= spec_stored_length(pixels) <= u32::MAX,
{
    assert(0 <= spec_stored_byte(pixels, 0) <= 255);
    assert(0 <= spec_stored_byte(pixels, 8) <= 255);
    assert(0 <= spec_stored_byte(pixels, 16) <= 255);
    assert(0 <= spec_stored_byte(pixels, 24) <= 255);
}

/// A byte is the sum of its bits, each with its weight.
pub proof fn lemma_byte_from_bits(byte: u8)
    ensures
        128 * spec_bit(byte, 0) + 64 * spec_bit(byte, 1) + 32 * spec_bit(byte, 2) + 16 * spec_bit(byte, 3) + 8
            * spec_bit(byte, 4) + 4 * spec_bit(byte, 5) + 2 * spec_bit(byte, 6) + spec_bit(byte, 7) == byte,
{
    assert(128 * (byte / 128 % 2) + 64 * (byte / 64 % 2) + 32 * (byte / 32 % 2) + 16 * (byte / 16 % 2) + 8 * (byte / 8
        % 2) + 4 * (byte / 4 % 2) + 2 * (byte / 2 % 2) + byte / 1 % 2 == byte) by (bit_vector);
}

/// A bit that was stored is the bit that is read.
proof fn lemma_stored_bit(pixels: Seq<u8>, data: Seq<u8>, count: int, k: int)
    requires
        0 <= k < count,
        spec_channel(k) < pixels.len(),
        k / 8 < data.len(),
    ensures
        spec_stored_bit(spec_embed_bits(pixels, data, count), k) == spec_data_bit(data, k),
        spec_channel(k) % 4 != 3,
        spec_slot(spec_channel(k)) == k,
{
    let j = spec_channel(k);
    assert(j % 4 == k % 3);
    assert(j / 4 == k / 3);
    let bit = spec_data_bit(data, k);
    assert(bit == 0 || bit == 1);
}

/// A byte that was stored is the byte that is read.
proof fn lemma_stored_byte(pixels: Seq<u8>, data: Seq<u8>, count: int, i: int)
    requires
        0 <= i < data.len(),
        8 * i + 8 <= count,
        spec_channel(8 * i + 7) < pixels.len(),
    ensures
        spec_stored_byte(spec_embed_bits(pixels, data, count), 8 * i) == data[i],
{
    lemma_stored_bit_of_byte(pixels, data, count, i, 0);
    lemma_stored_bit_of_byte(pixels, data, count, i, 1);
    lemma_stored_bit_of_byte(pixels, data, count, i, 2);
    lemma_stored_bit_of_byte(pixels, data, count, i, 3);
    lemma_stored_bit_of_byte(pixels, data, count, i, 4);
    lemma_stored_bit_of_byte(pixels, data, count, i, 5);
    lemma_stored_bit_of_byte(pixels, data, count, i, 6);
    lemma_stored_bit_of_byte(pixels, data, count, i, 7);
    lemma_byte_from_bits(data[i]);
}

/// Bit `b` of byte `i` that was stored is the bit that is read.
proof fn lemma_stored_bit_of_byte(pixels: Seq<u8>, data: Seq<u8>, count: int, i: int, b: int)
    requires
        0 <= i < data.len(),
        0 <= b < 8,
        8 * i + 8 <= count,
        spec_channel(8 * i + 7) < pixels.len(),
    ensures
        spec_stored_bit(spec_embed_bits(pixels, data, count), 8 * i + b) == spec_bit(data[i], b),
{
    let k = 8 * i + b;
    assert(k / 8 == i && k % 8 == b);
    assert(spec_channel(k) <= spec_channel(8 * i + 7));
    lemma_stored_bit(pixels, data, count, k);
}

/// Byte `i` of what was stored in a carrier of `area` pixels is read back as it was.
proof fn lemma_read_back(pixels: Seq<u8>, data: Seq<u8>, area: int, i: int)
    requires
        4 * area <= pixels.len(),
        8 * data.len() <= 3 * area,
        0 <= i < data.len(),
    ensures
        spec_stored_byte(spec_embed_bits(pixels, data, 8 * data.len() as int), 8 * i) == data[i],
{
    let k = 8 * i + 7;
    assert(k < 3 * area);
    assert(k / 3 < area);
    assert(spec_channel(k) < 4 * area);
    lemma_stored_byte(pixels, data, 8 * data.len() as int, i);
}

/// The length that was stored in a carrier of `area` pixels is read back as it was.
proof fn lemma_length_read_back(pixels: Seq<u8>, payload: Seq<u8>, area: int)
    requires
        4 * area <= pixels.len(),
        8 * (4 + payload.len()) <= 3 * area,
        payload.len() <= u32::MAX,
    ensures
        spec_stored_length(
            spec_embed_bits(pixels, spec_stored_form(payload), 8 * (4 + payload.len()) as int),
        ) == payload.len(),
{
    let n = payload.len();
    let data = spec_stored_form(payload);
    let after = spec_embed_bits(pixels, data, 8 * (4 + n) as int);
    assert(data.len() == 4 + n);
    lemma_read_back(pixels, data, area, 0);
    lemma_read_back(pixels, data, area, 1);
    lemma_read_back(pixels, data, area, 2);
    lemma_read_back(pixels, data, area, 3);
    lemma_prefix_round_trip(n);
    let prefix = spec_length_prefix(n);
    assert(data[0] == prefix[0] && data[1] == prefix[1] && data[2] == prefix[2] && data[3] == prefix[3]);
    assert(spec_stored_length(after) == spec_announced_length(prefix));
}

/// The payload that was stored in a carrier of `area` pixels is read back as it was.
proof fn lemma_payload_read_back(pixels: Seq<u8>, payload: Seq<u8>, area: int)
    requires
        4 * area <= pixels.len(),
        8 * (4 + payload.len()) <= 3 * area,
        payload.len() <= u32::MAX,
    ensures
        Seq::new(
            payload.len(),
            |i: int|
                spec_stored_byte(
                    spec_embed_bits(pixels, spec_stored_form(payload), 8 * (4 + payload.len()) as int),
                    32 + 8 * i,
                ) as u8,
        ) == payload,
{
    let n = payload.len();
    let data = spec_stored_form(payload);
    let after = spec_embed_bits(pixels, data, 8 * (4 + n) as int);
    let recovered = Seq::new(n, |i: int| spec_stored_byte(after, 32 + 8 * i) as u8);
    assert(data.len() == 4 + n);
    assert forall|i: int| 0 <= i < n implies recovered[i] == payload[i] by {
        lemma_read_back(pixels, data, area, 4 + i);
        assert(data[4 + i] == payload[i]);
        assert(8 * (4 + i) == 32 + 8 * i);
    }
    assert(recovered =~= payload);
}

/// What was hidden in a carrier is what is recovered from it: for every
/// carrier and every payload that fits, extracting after embedding gives the payload.
pub proof fn lemma_round_trip(width: u32, height: u32, pixels: Seq<u8>, payload: Seq<u8>)
    requires
        spec_holds_pixels(width, height, pixels.len()),
        spec_fits(payload.len(), spec_usable_bits(width, height)),
    ensures
        spec_embed_payload(width, height, pixels, payload) is Ok,
        spec_extract_payload(width, height, spec_embed_payload(width, height, pixels, payload)->Ok_0) == Ok::<
            Seq<u8>,
            CodecError,
        >(payload),
{
    let area = width * height;
    lemma_length_read_back(pixels, payload, area);
    lemma_payload_read_back(pixels, payload, area);
}

/// 2 to the power of `shift`, for the eight bits of a byte.
fn weight(shift: u64) -> (w: u8)
    requires
        shift < 8,
    ensures
        w == spec_weight(shift as int),
{
    if shift == 0 {
        1
    } else if shift == 1 {
        2
    } else if shift == 2 {
        4
    } else if shift == 3 {
        8
    } else if shift == 4 {
        16
    } else if shift == 5 {
        32
    } else if shift == 6 {
        64
    } else {
        128
    }
}

/// The index of the byte that carries bit `k`.
fn channel(k: u64) -> (at: usize)
    requires
        4 * (k / 3) + 3 <= usize::MAX,
    ensures
        at == spec_channel(k as int),
        at % 4 == k % 3,
        at / 4 == k / 3,
{
    let row: u64 = k / 3;
    let column: u64 = k % 3;
    (4 * row + column) as usize
}

impl Raster {
    /// The buffer holds all the pixels that the dimensions announce.
    pub open spec fn wf(&self) -> bool {
        spec_holds_pixels(self.width, self.height, self.pixels@.len())
    }

    /// Whether the buffer holds all the pixels that the dimensions announce.
    pub fn is_well_formed(&self) -> (ok: bool)
        ensures
            ok == self.wf(),
    {
        let area: u64 = self.pixel_count();
        (area as u128) * 4 <= self.pixels.len() as u128
    }

    /// The number of pixels.
    pub fn pixel_count(&self) -> (area: u64)
        ensures
            area == self.width * self.height,
    {
        assert(self.width * self.height <= 0xFFFF_FFFF * 0xFFFF_FFFF) by (nonlinear_arith)
            requires
                self.width <= 0xFFFF_FFFF,
                self.height <= 0xFFFF_FFFF,
        ;
        (self.width as u64) * (self.height as u64)
    }

    /// The number of bits that the image can carry: three for each pixel.
    pub fn usable_bits(&self) -> (bits: u128)
        ensures
            bits == spec_usable_bits(self.width, self.height),
    {
        (self.pixel_count() as u128) * 3
    }

    /// The number of payload bytes that the image can carry; `None` where it
    /// cannot even carry the length of an empty payload.
    pub fn capacity(&self) -> (bytes: Option<u64>)
        ensures
            match bytes {
                Some(most) => forall|len: nat|
                    spec_fits(len, spec_usable_bits(self.width, self.height)) <==> len <= most,
                None => forall|len: nat| !spec_fits(len, spec_usable_bits(self.width, self.height)),
            },
    {
        let bits = self.usable_bits();
        if bits < 32 {
            return None;
        }
        let room: u128 = bits / 8 - 4;
        if room > u32::MAX as u128 {
            Some(u32::MAX as u64)
        } else {
            Some(room as u64)
        }
    }

    /// Reads the byte that the pixels carry in the eight bits from place `k` on.
    fn stored_byte(&self, k: u64) -> (byte: u8)
        requires
            self.wf(),
            k + 8 <= spec_usable_bits(self.width, self.height),
        ensures
            byte == spec_stored_byte(self.pixels@, k as int),
    {
        let ghost area = self.width * self.height;
        assert(k + 7 < 3 * area);
        assert((k + 7) / 3 < area);
        assert(4 * ((k + 7) / 3) + 3 <= self.pixels@.len());
        let len = self.pixels.len();
        let bit0 = self.pixels[channel(k)] % 2;
        let bit1 = self.pixels[channel(k + 1)] % 2;
        let bit2 = self.pixels[channel(k + 2)] % 2;
        let bit3 = self.pixels[channel(k + 3)] % 2;
        let bit4 = self.pixels[channel(k + 4)] % 2;
        let bit5 = self.pixels[channel(k + 5)] % 2;
        let bit6 = self.pixels[channel(k + 6)] % 2;
        let bit7 = self.pixels[channel(k + 7)] % 2;
        128 * bit0 + 64 * bit1 + 32 * bit2 + 16 * bit3 + 8 * bit4 + 4 * bit5 + 2 * bit6 + bit7
    }

    /// Hides `payload` in the image. On an error the image is as it was.
    pub fn embed_payload(&mut self, payload: &[u8]) -> (done: Result<(), CodecError>)
        ensures
            final(self).width == old(self).width,
            final(self).height == old(self).height,
            match done {
                Ok(()) => spec_embed_payload(old(self).width, old(self).height, old(self).pixels@, payload@) == Ok::<
                    Seq<u8>,
                    CodecError,
                >(final(self).pixels@),
                Err(e) => spec_embed_payload(old(self).width, old(self).height, old(self).pixels@, payload@) == Err::<
                    Seq<u8>,
                    CodecError,
                >(e) && final(self).pixels@ == old(self).pixels@,
            },
    {
        if !self.is_well_formed() {
            return Err(CodecError::Format);
        }
        let usable = self.usable_bits();
        let n = payload.len();
        if n as u128 > u32::MAX as u128 || 8 * (4 + n as u128) > usable {
            return Err(CodecError::TooSmall);
        }
        let mut data: Vec<u8> = Vec::new();
        data.push((n / 0x100_0000 % 0x100) as u8);
        data.push((n / 0x1_0000 % 0x100) as u8);
        data.push((n / 0x100 % 0x100) as u8);
        data.push((n % 0x100) as u8);
        assert(data@ =~= spec_length_prefix(n as nat));
        let mut i: usize = 0;
        while i < n
            invariant
                i <= n,
                n == payload@.len(),
                data@ == spec_length_prefix(n as nat) + payload@.subrange(0, i as int),
            decreases n - i,
        {
            data.push(payload[i]);
            assert(data@ =~= spec_length_prefix(n as nat) + payload@.subrange(0, i + 1));
            i += 1;
        }
        assert(payload@.subrange(0, n as int) =~= payload@);
        let ghost before = self.pixels@;
        let ghost area = self.width * self.height;
        let count: u64 = 8 * (4 + n as u64);
        let mut k: u64 = 0;
        assert(self.pixels@ =~= spec_embed_bits(before, data@, 0));
        while k < count
            invariant
                k <= count,
                count == 8 * data@.len(),
                count <= 3 * area,
                4 * area <= before.len(),
                self.pixels@.len() == before.len(),
                self.pixels@ == spec_embed_bits(before, data@, k as int),
                self.width == old(self).width,
                self.height == old(self).height,
            decreases count - k,
        {
            let ghost current = self.pixels@;
            assert(k / 3 < area);
            assert(4 * (k / 3) + 3 <= before.len());
            let len = self.pixels.len();
            let at: usize = channel(k);
            let source: usize = (k / 8) as usize;
            let bit: u8 = (data[source] / weight(7 - k % 8)) % 2;
            let pixel: u8 = self.pixels[at];
            assert(pixel == before[at as int]);
            self.pixels.set(at, pixel - pixel % 2 + bit);
            proof {
                let next = spec_embed_bits(before, data@, k + 1);
                assert forall|j: int| 0 <= j < before.len() implies self.pixels@[j] == next[j] by {
                    if j == at {
                        assert(spec_slot(j) == k);
                    } else {
                        assert(self.pixels@[j] == current[j]);
                        if j % 4 != 3 && spec_slot(j) == k {
                            assert(j / 4 == k / 3 && j % 4 == k % 3);
                        }
                    }
                }
                assert(self.pixels@ =~= next);
            }
            k += 1;
        }
        Ok(())
    }

    /// Recovers the payload that the image carries.
    pub fn extract_payload(&self) -> (payload: Result<Vec<u8>, CodecError>)
        ensures
            match payload {
                Ok(bytes) => spec_extract_payload(self.width, self.height, self.pixels@) == Ok::<Seq<u8>, CodecError>(
                    bytes@,
                ),
                Err(e) => spec_extract_payload(self.width, self.height, self.pixels@) == Err::<Seq<u8>, CodecError>(e),
            },
    {
        if !self.is_well_formed() {
            return Err(CodecError::Format);
        }
        let usable = self.usable_bits();
        if usable < 32 {
            return Err(CodecError::Length);
        }
        let n: u64 = (self.stored_byte(0) as u64) * 0x100_0000 + (self.stored_byte(8) as u64) * 0x1_0000 + (
        self.stored_byte(16) as u64) * 0x100 + (self.stored_byte(24) as u64);
        if 32 + 8 * (n as u128) > usable {
            return Err(CodecError::Length);
        }
        let mut bytes: Vec<u8> = Vec::new();
        let mut i: u64 = 0;
        while i < n
            invariant
                i <= n,
                self.wf(),
                32 + 8 * n <= spec_usable_bits(self.width, self.height),
                n == spec_stored_length(self.pixels@),
                bytes@ == Seq::new(i as nat, |j: int| spec_stored_byte(self.pixels@, 32 + 8 * j) as u8),
            decreases n - i,
        {
            let byte = self.stored_byte(32 + 8 * i);
            bytes.push(byte);
            assert(bytes@ =~= Seq::new((i + 1) as nat, |j: int| spec_stored_byte(self.pixels@, 32 + 8 * j) as u8));
            i += 1;
        }
        Ok(bytes)
    }
}

} // verus!
