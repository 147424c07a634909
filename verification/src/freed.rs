//! Decoder for the 29-byte FreeD camera-tracking datagram.

use vstd::prelude::*;
use vstd::arithmetic::div_mod::lemma_fundamental_div_mod_converse;

verus! {

/// Length in bytes of a tracking datagram.
pub const MESSAGE_LEN: usize = 29;

/// Value of the first byte of every tracking datagram.
pub const MESSAGE_TYPE: u8 = 0xD1;

/// Seed from which every byte of the datagram is subtracted, modulo 256.
pub const CHECKSUM_SEED: u8 = 0x40;

/// Number of raw angle units in one degree.
pub const ANGLE_DIVISOR: i32 = 32768;

/// Number of raw position units in one distance unit.
pub const POSITION_DIVISOR: i32 = 64;

/// Why a datagram was rejected.
#[derive(Debug, Clone, Copy, PartialEq, Eq, Structural)]
pub enum DecodeError {
    /// The datagram is not exactly 29 bytes long.
    InvalidLength,
    /// The first byte is not the tracking message marker.
    InvalidMessageType,
    /// The bytes do not fold to zero.
    ChecksumMismatch,
}

/// Camera position. Units of 1/64 distance unit.
#[derive(Debug, Clone, Copy, PartialEq, Eq, Structural)]
pub struct Position {
    pub x: i32,
    pub y: i32,
    pub z: i32,
}

/// One tracking sample.
///
/// Angles are signed fixed-point numbers counted in units of 1/32768 degree,
/// positions in units of 1/64 distance unit; zoom and focus are the raw
/// 24-bit lens ring readings.
#[derive(Debug, Clone, Copy, PartialEq, Eq, Structural)]
pub struct FreeD {
    /// Pan angle; positive pans to the right. Units of 1/32768 degree.
    pub pan: i32,
    /// Tilt angle; positive tilts upwards. Units of 1/32768 degree.
    pub tilt: i32,
    /// Roll angle, usually zero for a PTZ head. Units of 1/32768 degree.
    pub roll: i32,
    /// Camera position (X, Y, Z).
    pub pos: Position,
    /// Zoom ring reading.
    pub zoom: u32,
    /// Focus ring reading.
    pub focus: u32,
}

/// The sample of which every field is zero.
pub open spec fn spec_zero() -> FreeD {
    FreeD { pan: 0, tilt: 0, roll: 0, pos: Position { x: 0, y: 0, z: 0 }, zoom: 0, focus: 0 }
}

/// Sum of all bytes of `data`.
pub open spec fn byte_sum(data: Seq<u8>) -> int
    decreases data.len(),
{
    if data.len() == 0 {
        0
    } else {
        byte_sum(data.drop_last()) + data.last() as int
    }
}

/// The seed minus every byte of `data`, modulo 256.
pub open spec fn spec_checksum(data: Seq<u8>) -> int {
    (0x40 - byte_sum(data)) % 256
}

/// Three big-endian bytes read as an unsigned number.
pub open spec fn spec_uint24(b0: u8, b1: u8, b2: u8) -> int {
    b0 as int * 65536 + b1 as int * 256 + b2 as int
}

/// Three big-endian bytes read as a two's-complement number.
pub open spec fn spec_int24(b0: u8, b1: u8, b2: u8) -> int {
    if b0 >= 0x80 {
        spec_uint24(b0, b1, b2) - 0x100_0000
    } else {
        spec_uint24(b0, b1, b2)
    }
}

/// The sample that a well-formed datagram carries.
pub open spec fn spec_fields(data: Seq<u8>) -> FreeD
    recommends
        data.len() == 29,
{
    FreeD {
        pan: spec_int24(data[2], data[3], data[4]) as i32,
        tilt: spec_int24(data[5], data[6], data[7]) as i32,
        roll: spec_int24(data[8], data[9], data[10]) as i32,
        pos: Position {
            x: spec_int24(data[11], data[12], data[13]) as i32,
            y: spec_int24(data[14], data[15], data[16]) as i32,
            z: spec_int24(data[17], data[18], data[19]) as i32,
        },
        zoom: spec_uint24(data[20], data[21], data[22]) as u32,
        focus: spec_uint24(data[23], data[24], data[25]) as u32,
    }
}

/// What decoding `data` yields: the length is tested first, then the marker,
/// then the checksum.
pub open spec fn spec_decode(data: Seq<u8>) -> Result<FreeD, DecodeError> {
    if data.len() != 29 {
        Err(DecodeError::InvalidLength)
    } else if data[0] != 0xD1 {
        Err(DecodeError::InvalidMessageType)
    } else if spec_checksum(data) != 0 {
        Err(DecodeError::ChecksumMismatch)
    } else {
        Ok(spec_fields(data))
    }
}

/// `data` with bit number `bit` of byte number `index` inverted.
pub open spec fn flip_bit(data: Seq<u8>, index: int, bit: u8) -> Seq<u8>
    recommends
        0 <= index < data.len(),
        bit < 8,
{
    data.update(index, data[index] ^ (1u8 << bit))
}

/// Folds `data` by repeated subtraction from the seed, modulo 256.
pub fn checksum(data: &[u8]) -> (r: u8)
    ensures
        r as int == spec_checksum(data@),
{
    let mut acc: u8 = CHECKSUM_SEED;
    let mut i: usize = 0;
    proof {
        assert(data@.take(0).len() == 0);
        assert(byte_sum(data@.take(0)) == 0);
    }
    while i < data.len()
        invariant
            i <= data.len(),
            acc as int == spec_checksum(data@.take(i as int)),
        decreases data.len() - i,
    {
        let b: u8 = data[i];
        let next: u8 = ((acc as u32 + 256 - b as u32) % 256) as u8;
        proof {
            let before = data@.take(i as int);
            let after = data@.take(i as int + 1);
            assert(after.drop_last() == before);
            assert(after.last() == b);
            assert(byte_sum(after) == byte_sum(before) + b as int);
            lemma_mod_shift(0x40 - byte_sum(before), b as int);
        }
        acc = next;
        i += 1;
    }
    proof {
        assert(data@.take(i as int) == data@);
    }
    acc
}

/// Reads three big-endian bytes as an unsigned number.
fn uint24(b0: u8, b1: u8, b2: u8) -> (r: u32)
    ensures
        r as int == spec_uint24(b0, b1, b2),
        r < 0x100_0000,
{
    b0 as u32 * 65536 + b1 as u32 * 256 + b2 as u32
}

/// Reads three big-endian bytes as a two's-complement number.
fn int24(b0: u8, b1: u8, b2: u8) -> (r: i32)
    ensures
        r as int == spec_int24(b0, b1, b2),
        -0x80_0000 <= r < 0x80_0000,
{
    let raw: u32 = uint24(b0, b1, b2);
    if b0 >= 0x80 {
        raw as i32 - 0x100_0000
    } else {
        raw as i32
    }
}

impl Default for FreeD {
    /// The all-zero sample.
    fn default() -> (r: FreeD)
        ensures
            r == spec_zero(),
    {
        FreeD::zero()
    }
}

impl FreeD {
    /// The sample that stands in before any datagram has arrived.
    pub fn zero() -> (r: FreeD)
        ensures
            r == spec_zero(),
    {
        FreeD { pan: 0, tilt: 0, roll: 0, pos: Position { x: 0, y: 0, z: 0 }, zoom: 0, focus: 0 }
    }

    /// Decodes one datagram.
    ///
    /// Fails with `InvalidLength` unless `data` has 29 bytes, with
    /// `InvalidMessageType` unless it starts with the marker byte, and with
    /// `ChecksumMismatch` unless the bytes fold to zero.
    pub fn try_from(data: &[u8]) -> (r: Result<FreeD, DecodeError>)
        ensures
            r == spec_decode(data@),
    {
        if data.len() != MESSAGE_LEN {
            return Err(DecodeError::InvalidLength);
        }
        if data[0] != MESSAGE_TYPE {
            return Err(DecodeError::InvalidMessageType);
        }
        if checksum(data) != 0 {
            return Err(DecodeError::ChecksumMismatch);
        }
        Ok(
            FreeD {
                pan: int24(data[2], data[3], data[4]),
                tilt: int24(data[5], data[6], data[7]),
                roll: int24(data[8], data[9], data[10]),
                pos: Position {
                    x: int24(data[11], data[12], data[13]),
                    y: int24(data[14], data[15], data[16]),
                    z: int24(data[17], data[18], data[19]),
                },
                zoom: uint24(data[20], data[21], data[22]),
                focus: uint24(data[23], data[24], data[25]),
            },
        )
    }
}

/// Subtracting `b` from a residue modulo 256 and reducing again gives the
/// residue of the difference.
proof fn lemma_mod_shift(a: int, b: int)
    requires
        0 <= b < 256,
    ensures
        ((a % 256) + 256 - b) % 256 == (a - b) % 256,
{
    let q = a / 256;
    let r = a % 256;
    assert(a == 256 * q + r && 0 <= r < 256) by {
        vstd::arithmetic::div_mod::lemma_fundamental_div_mod(a, 256);
    }
    let t = r + 256 - b;
    let s = t % 256;
    let k = t / 256;
    assert(t == 256 * k + s && 0 <= s < 256) by {
        vstd::arithmetic::div_mod::lemma_fundamental_div_mod(t, 256);
    }
    assert(a - b == (q + k - 1) * 256 + s) by (nonlinear_arith)
        requires
            a == 256 * q + r,
            r + 256 - b == 256 * k + s,
    ;
    lemma_fundamental_div_mod_converse(a - b, 256, q + k - 1, s);
}

/// Replacing one byte moves the sum by the difference of the two bytes.
pub proof fn lemma_byte_sum_update(data: Seq<u8>, index: int, value: u8)
    requires
        0 <= index < data.len(),
    ensures
        byte_sum(data.update(index, value)) == byte_sum(data) - data[index] as int + value as int,
    decreases data.len(),
{
    let changed = data.update(index, value);
    if index == data.len() - 1 {
        assert(changed.drop_last() == data.drop_last());
    } else {
        assert(changed.drop_last() == data.drop_last().update(index, value));
        lemma_byte_sum_update(data.drop_last(), index, value);
    }
}

/// Inverting any single bit of a datagram that decodes makes it undecodable:
/// the bytes no longer fold to zero, and where the marker byte was hit the
/// marker is wrong as well.
pub proof fn lemma_single_bit_flip_rejected(data: Seq<u8>, index: int, bit: u8)
    requires
        spec_decode(data) is Ok,
        0 <= index < 29,
        bit < 8,
    ensures
        spec_checksum(flip_bit(data, index, bit)) != 0,
        spec_decode(flip_bit(data, index, bit)) is Err,
        index == 0 ==> spec_decode(flip_bit(data, index, bit)) == Err::<FreeD, DecodeError>(
            DecodeError::InvalidMessageType,
        ),
        index != 0 ==> spec_decode(flip_bit(data, index, bit)) == Err::<FreeD, DecodeError>(
            DecodeError::ChecksumMismatch,
        ),
{
    let before: u8 = data[index];
    let after: u8 = before ^ (1u8 << bit);
    assert(after != before) by (bit_vector)
        requires
            bit < 8,
            after == before ^ (1u8 << bit),
    ;
    lemma_byte_sum_update(data, index, after);
    let a = 0x40 - byte_sum(data);
    let d = before as int - after as int;
    assert(a % 256 == 0);
    assert(-256 < d < 256 && d != 0);
    assert((a + d) % 256 != 0) by {
        let q = a / 256;
        vstd::arithmetic::div_mod::lemma_fundamental_div_mod(a, 256);
        if (a + d) % 256 == 0 {
            let p = (a + d) / 256;
            vstd::arithmetic::div_mod::lemma_fundamental_div_mod(a + d, 256);
            assert(d == 256 * (p - q)) by (nonlinear_arith)
                requires
                    a == 256 * q,
                    a + d == 256 * p,
            ;
            assert(false) by (nonlinear_arith)
                requires
                    d == 256 * (p - q),
                    -256 < d < 256,
                    d != 0,
            ;
        }
    }
}

/// Every field of a decoded sample is a 24-bit number: the angles and the
/// position signed, zoom and focus unsigned.
pub proof fn lemma_decoded_fields_are_24_bit(data: Seq<u8>)
    requires
        spec_decode(data) is Ok,
    ensures
        ({
            let s = spec_decode(data)->Ok_0;
            &&& -0x80_0000 <= s.pan < 0x80_0000
            &&& -0x80_0000 <= s.tilt < 0x80_0000
            &&& -0x80_0000 <= s.roll < 0x80_0000
            &&& -0x80_0000 <= s.pos.x < 0x80_0000
            &&& -0x80_0000 <= s.pos.y < 0x80_0000
            &&& -0x80_0000 <= s.pos.z < 0x80_0000
            &&& s.zoom < 0x100_0000
            &&& s.focus < 0x100_0000
        }),
{
}

} // verus!
