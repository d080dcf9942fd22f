//! The binary frame envelope: a 16-byte header (magic, format code, reserved
//! bytes, little-endian timestamp) followed by an image payload of at least
//! `MIN_PAYLOAD_LEN` bytes.

use vstd::prelude::*;

verus! {

/// First header byte of every binary frame: `F`.
pub const MAGIC_0: u8 = 0x46;

/// Second header byte of every binary frame: `P`.
pub const MAGIC_1: u8 = 0x50;

/// Third header byte of every binary frame: `F`.
pub const MAGIC_2: u8 = 0x46;

/// Fourth header byte of every binary frame: `1`.
pub const MAGIC_3: u8 = 0x31;

/// Length of the fixed envelope header.
pub const HEADER_LEN: usize = 16;

/// A payload shorter than this is rejected as an invalid frame.
pub const MIN_PAYLOAD_LEN: usize = 100;

/// Format code of a JPEG payload.
pub const FORMAT_JPEG: u8 = 1;

/// Format code of a PNG payload.
pub const FORMAT_PNG: u8 = 2;

/// Why a byte string is not a well-formed binary frame, in the order the
/// checks run: overall length, magic, payload length, format code.
#[derive(Clone, Copy, Debug, PartialEq, Eq, Structural)]
pub enum FrameError {
    TooSmall,
    BadMagic,
    ShortPayload,
    UnsupportedFormat,
}

/// A decoded binary frame: format code, timestamp in milliseconds since the
/// epoch, and the image payload.
#[derive(Debug, PartialEq, Eq)]
pub struct BinaryFrame {
    pub format_code: u8,
    pub ts: u64,
    pub payload: Vec<u8>,
}

/// The unsigned little-endian value of eight bytes.
pub open spec fn le64(b: Seq<u8>) -> int
    recommends
        b.len() == 8,
{
    b[0] + 256 * (b[1] + 256 * (b[2] + 256 * (b[3] + 256 * (b[4] + 256 * (b[5] + 256 * (b[6]
        + 256 * b[7]))))))
}

/// Whether the first four bytes are the envelope magic.
pub open spec fn magic_ok(b: Seq<u8>) -> bool
    recommends
        b.len() >= 4,
{
    b[0] == MAGIC_0 && b[1] == MAGIC_1 && b[2] == MAGIC_2 && b[3] == MAGIC_3
}

/// Whether a format code names a supported payload format.
pub open spec fn format_supported(code: u8) -> bool {
    code == FORMAT_JPEG || code == FORMAT_PNG
}

/// What parsing a byte string as a binary frame yields.
pub open spec fn frame_parse(b: Seq<u8>) -> Result<(u8, int, Seq<u8>), FrameError> {
    if b.len() < HEADER_LEN {
        Err(FrameError::TooSmall)
    } else if !magic_ok(b) {
        Err(FrameError::BadMagic)
    } else if b.len() - HEADER_LEN < MIN_PAYLOAD_LEN {
        Err(FrameError::ShortPayload)
    } else if !format_supported(b[4]) {
        Err(FrameError::UnsupportedFormat)
    } else {
        Ok((b[4], le64(b.subrange(8, 16)), b.skip(HEADER_LEN as int)))
    }
}

/// The byte string that carries a frame: magic, format code, three zero
/// reserved bytes, the timestamp little-endian, then the payload.
pub open spec fn frame_encode(format_code: u8, ts: int, payload: Seq<u8>) -> Seq<u8> {
    seq![
        MAGIC_0,
        MAGIC_1,
        MAGIC_2,
        MAGIC_3,
        format_code,
        0u8,
        0u8,
        0u8,
        (ts % 256) as u8,
        ((ts / 256) % 256) as u8,
        ((ts / 0x1_0000) % 256) as u8,
        ((ts / 0x100_0000) % 256) as u8,
        ((ts / 0x1_0000_0000) % 256) as u8,
        ((ts / 0x100_0000_0000) % 256) as u8,
        ((ts / 0x1_0000_0000_0000) % 256) as u8,
        ((ts / 0x100_0000_0000_0000) % 256) as u8,
    ] + payload
}

/// Parse a binary frame, reporting the first failed check.
pub fn parse_binary_frame(bytes: &Vec<u8>) -> (r: Result<BinaryFrame, FrameError>)
    ensures
        match r {
            Ok(f) => frame_parse(bytes@) == Ok::<_, FrameError>(
                (f.format_code, f.ts as int, f.payload@),
            ),
            Err(e) => frame_parse(bytes@) == Err::<(u8, int, Seq<u8>), _>(e),
        },
{
    if bytes.len() < HEADER_LEN {
        return Err(FrameError::TooSmall);
    }
    if !(bytes[0] == MAGIC_0 && bytes[1] == MAGIC_1 && bytes[2] == MAGIC_2 && bytes[3]
        == MAGIC_3) {
        return Err(FrameError::BadMagic);
    }
    if bytes.len() - HEADER_LEN < MIN_PAYLOAD_LEN {
        return Err(FrameError::ShortPayload);
    }
    if !(bytes[4] == FORMAT_JPEG || bytes[4] == FORMAT_PNG) {
        return Err(FrameError::UnsupportedFormat);
    }
    let ts: u64 = (bytes[8] as u64) + 256 * ((bytes[9] as u64) + 256 * ((bytes[10] as u64) + 256
        * ((bytes[11] as u64) + 256 * ((bytes[12] as u64) + 256 * ((bytes[13] as u64) + 256 * ((
    bytes[14] as u64) + 256 * (bytes[15] as u64)))))));
    let mut payload: Vec<u8> = Vec::new();
    let mut i: usize = HEADER_LEN;
    while i < bytes.len()
        invariant
            HEADER_LEN <= i <= bytes@.len(),
            payload@ == bytes@.subrange(HEADER_LEN as int, i as int),
        decreases bytes@.len() - i,
    {
        payload.push(bytes[i]);
        i = i + 1;
    }
    proof {
        assert(payload@ == bytes@.skip(HEADER_LEN as int));
        assert(le64(bytes@.subrange(8, 16)) == ts as int);
    }
    Ok(BinaryFrame { format_code: bytes[4], ts, payload })
}

/// Build the byte string that carries a frame.
pub fn encode_binary_frame(format_code: u8, ts: u64, payload: &Vec<u8>) -> (r: Vec<u8>)
    requires
        payload@.len() + HEADER_LEN <= usize::MAX,
    ensures
        r@ == frame_encode(format_code, ts as int, payload@),
{
    let mut out: Vec<u8> = Vec::new();
    out.push(MAGIC_0);
    out.push(MAGIC_1);
    out.push(MAGIC_2);
    out.push(MAGIC_3);
    out.push(format_code);
    out.push(0u8);
    out.push(0u8);
    out.push(0u8);
    let mut t: u64 = ts;
    out.push((t % 256) as u8);
    t = t / 256;
    out.push((t % 256) as u8);
    t = t / 256;
    out.push((t % 256) as u8);
    t = t / 256;
    out.push((t % 256) as u8);
    t = t / 256;
    out.push((t % 256) as u8);
    t = t / 256;
    out.push((t % 256) as u8);
    t = t / 256;
    out.push((t % 256) as u8);
    t = t / 256;
    out.push((t % 256) as u8);
    let ghost header = out@;
    let mut i: usize = 0;
    while i < payload.len()
        invariant
            0 <= i <= payload@.len(),
            out@ == header + payload@.subrange(0, i as int),
        decreases payload@.len() - i,
    {
        out.push(payload[i]);
        i = i + 1;
    }
    proof {
        assert(out@ =~= frame_encode(format_code, ts as int, payload@));
    }
    out
}

/// The little-endian digits of a 64-bit value read back to that value.
proof fn lemma_le64_of_digits(ts: int)
    requires
        0 <= ts < 0x1_0000_0000_0000_0000,
    ensures
        le64(frame_encode(0u8, ts, Seq::<u8>::empty()).subrange(8, 16)) == ts,
{
    let b = frame_encode(0u8, ts, Seq::<u8>::empty()).subrange(8, 16);
    assert(b[0] == (ts % 256) as u8);
    assert(b[7] == ((ts / 0x100_0000_0000_0000) % 256) as u8);
    assert(le64(b) == ts) by {
        assert((ts / 0x100_0000_0000_0000) % 256 == ts / 0x100_0000_0000_0000) by {
            assert(ts / 0x100_0000_0000_0000 < 256);
        };
        assert(ts % 256 + 256 * (ts / 256) == ts) by {
            vstd::arithmetic::div_mod::lemma_fundamental_div_mod(ts, 256);
        };
        assert((ts / 256) % 256 + 256 * (ts / 256 / 256) == ts / 256) by {
            vstd::arithmetic::div_mod::lemma_fundamental_div_mod(ts / 256, 256);
        };
        assert(ts / 256 / 256 == ts / 0x1_0000) by {
            vstd::arithmetic::div_mod::lemma_div_denominator(ts, 256, 256);
        };
        assert((ts / 0x1_0000) % 256 + 256 * (ts / 0x1_0000 / 256) == ts / 0x1_0000) by {
            vstd::arithmetic::div_mod::lemma_fundamental_div_mod(ts / 0x1_0000, 256);
        };
        assert(ts / 0x1_0000 / 256 == ts / 0x100_0000) by {
            vstd::arithmetic::div_mod::lemma_div_denominator(ts, 0x1_0000, 256);
        };
        assert((ts / 0x100_0000) % 256 + 256 * (ts / 0x100_0000 / 256) == ts / 0x100_0000) by {
            vstd::arithmetic::div_mod::lemma_fundamental_div_mod(ts / 0x100_0000, 256);
        };
        assert(ts / 0x100_0000 / 256 == ts / 0x1_0000_0000) by {
            vstd::arithmetic::div_mod::lemma_div_denominator(ts, 0x100_0000, 256);
        };
        assert((ts / 0x1_0000_0000) % 256 + 256 * (ts / 0x1_0000_0000 / 256) == ts
            / 0x1_0000_0000) by {
            vstd::arithmetic::div_mod::lemma_fundamental_div_mod(ts / 0x1_0000_0000, 256);
        };
        assert(ts / 0x1_0000_0000 / 256 == ts / 0x100_0000_0000) by {
            vstd::arithmetic::div_mod::lemma_div_denominator(ts, 0x1_0000_0000, 256);
        };
        assert((ts / 0x100_0000_0000) % 256 + 256 * (ts / 0x100_0000_0000 / 256) == ts
            / 0x100_0000_0000) by {
            vstd::arithmetic::div_mod::lemma_fundamental_div_mod(ts / 0x100_0000_0000, 256);
        };
        assert(ts / 0x100_0000_0000 / 256 == ts / 0x1_0000_0000_0000) by {
            vstd::arithmetic::div_mod::lemma_div_denominator(ts, 0x100_0000_0000, 256);
        };
        assert((ts / 0x1_0000_0000_0000) % 256 + 256 * (ts / 0x1_0000_0000_0000 / 256) == ts
            / 0x1_0000_0000_0000) by {
            vstd::arithmetic::div_mod::lemma_fundamental_div_mod(ts / 0x1_0000_0000_0000, 256);
        };
        assert(ts / 0x1_0000_0000_0000 / 256 == ts / 0x100_0000_0000_0000) by {
            vstd::arithmetic::div_mod::lemma_div_denominator(ts, 0x1_0000_0000_0000, 256);
        };
    };
}

/// Decoding a well-formed encoded frame yields exactly the original format
/// code, timestamp, and payload.
pub proof fn lemma_frame_round_trip(format_code: u8, ts: u64, payload: Seq<u8>)
    requires
        format_supported(format_code),
        payload.len() >= MIN_PAYLOAD_LEN,
    ensures
        frame_parse(frame_encode(format_code, ts as int, payload)) == Ok::<_, FrameError>(
            (format_code, ts as int, payload),
        ),
{
    let b = frame_encode(format_code, ts as int, payload);
    assert(b.len() == 16 + payload.len());
    assert(magic_ok(b));
    assert(b[4] == format_code);
    assert(b.subrange(8, 16) =~= frame_encode(0u8, ts as int, Seq::<u8>::empty()).subrange(8, 16));
    lemma_le64_of_digits(ts as int);
    assert(b.skip(HEADER_LEN as int) =~= payload);
}

} // verus!
