//! Little-endian integer decoding over byte sequences, and the calls into
//! `bincode` and `byteorder` that the file readers make.
use vstd::prelude::*;

verus! {

/// The unsigned 16-bit little-endian value of `b[pos..pos + 2]`.
pub open spec fn spec_u16_le(b: Seq<u8>, pos: int) -> u16 {
    (b[pos] as int + b[pos + 1] as int * 0x100) as u16
}

/// The unsigned 32-bit little-endian value of `b[pos..pos + 4]`.
pub open spec fn spec_u32_le(b: Seq<u8>, pos: int) -> u32 {
    (b[pos] as int + b[pos + 1] as int * 0x100 + b[pos + 2] as int * 0x1_0000 + b[pos + 3] as int
        * 0x100_0000) as u32
}

/// The two's-complement signed 16-bit value of `b[pos..pos + 2]`.
pub open spec fn spec_i16_le(b: Seq<u8>, pos: int) -> i16 {
    let u = spec_u16_le(b, pos) as int;
    (if u < 0x8000 { u } else { u - 0x1_0000 }) as i16
}

/// The two's-complement signed 32-bit value of `b[pos..pos + 4]`.
pub open spec fn spec_i32_le(b: Seq<u8>, pos: int) -> i32 {
    let u = spec_u32_le(b, pos) as int;
    (if u < 0x8000_0000 { u } else { u - 0x1_0000_0000 }) as i32
}

/// The unsigned value of the two bytes at `pos`, low byte first.
pub open spec fn spec_bytes2(b: Seq<u8>, pos: int) -> int {
    b[pos] as int + 256 * b[pos + 1] as int
}

/// The unsigned value of the four bytes at `pos`, low byte first.
pub open spec fn spec_bytes4(b: Seq<u8>, pos: int) -> int {
    b[pos] as int + 256 * b[pos + 1] as int + 65536 * b[pos + 2] as int + 16777216 * b[pos + 3] as int
}

/// The two's-complement reading of the two bytes at `pos`.
pub open spec fn spec_signed2(b: Seq<u8>, pos: int) -> int {
    if spec_bytes2(b, pos) < 32768 { spec_bytes2(b, pos) } else { spec_bytes2(b, pos) - 65536 }
}

/// The two's-complement reading of the four bytes at `pos`.
pub open spec fn spec_signed4(b: Seq<u8>, pos: int) -> int {
    if spec_bytes4(b, pos) < 2147483648 { spec_bytes4(b, pos) } else { spec_bytes4(b, pos) - 4294967296 }
}

/// The decoders of four bytes read the values above.
pub proof fn lemma_byte_values(b: Seq<u8>, pos: int)
    requires
        0 <= pos,
        pos + 4 <= b.len(),
    ensures
        spec_u16_le(b, pos) as int == spec_bytes2(b, pos),
        spec_i16_le(b, pos) as int == spec_signed2(b, pos),
        spec_u32_le(b, pos) as int == spec_bytes4(b, pos),
        spec_i32_le(b, pos) as int == spec_signed4(b, pos),
{
}

/// The decoders of two bytes read the values above.
pub proof fn lemma_two_byte_values(b: Seq<u8>, pos: int)
    requires
        0 <= pos,
        pos + 2 <= b.len(),
    ensures
        spec_u16_le(b, pos) as int == spec_bytes2(b, pos),
        spec_i16_le(b, pos) as int == spec_signed2(b, pos),
{
}

/// The value that `bincode` decodes for a `bool` stored in byte `b`:
/// `Some(false)` for 0, `Some(true)` for 1, and an error for anything else.
pub open spec fn spec_bool_byte(b: u8) -> Option<bool> {
    if b == 0 {
        Some(false)
    } else if b == 1 {
        Some(true)
    } else {
        None
    }
}

/// `bincode::deserialize::<u16>`: under bincode's default fixed-width
/// little-endian encoding, the first two bytes as a `u16`; an error when fewer
/// than two bytes are given. Trailing bytes are allowed.
#[verifier::external_body]
fn bincode_u16(bytes: &[u8]) -> (res: Option<u16>)
    ensures
        res == (if bytes@.len() >= 2 { Some(spec_u16_le(bytes@, 0)) } else { None::<u16> }),
{
    bincode::deserialize::<u16>(bytes).ok()
}

/// `bincode::deserialize::<i16>`: the first two bytes as a little-endian
/// two's-complement `i16`; an error when fewer than two bytes are given.
#[verifier::external_body]
fn bincode_i16(bytes: &[u8]) -> (res: Option<i16>)
    ensures
        res == (if bytes@.len() >= 2 { Some(spec_i16_le(bytes@, 0)) } else { None::<i16> }),
{
    bincode::deserialize::<i16>(bytes).ok()
}

/// `bincode::deserialize::<u32>`: the first four bytes as a little-endian
/// `u32`; an error when fewer than four bytes are given.
#[verifier::external_body]
fn bincode_u32(bytes: &[u8]) -> (res: Option<u32>)
    ensures
        res == (if bytes@.len() >= 4 { Some(spec_u32_le(bytes@, 0)) } else { None::<u32> }),
{
    bincode::deserialize::<u32>(bytes).ok()
}

/// `bincode::deserialize::<i32>`: the first four bytes as a little-endian
/// two's-complement `i32`; an error when fewer than four bytes are given.
#[verifier::external_body]
fn bincode_i32(bytes: &[u8]) -> (res: Option<i32>)
    ensures
        res == (if bytes@.len() >= 4 { Some(spec_i32_le(bytes@, 0)) } else { None::<i32> }),
{
    bincode::deserialize::<i32>(bytes).ok()
}

/// `bincode::deserialize::<bool>`: the first byte, 0 as `false` and 1 as
/// `true`; an error for any other byte and for an empty input.
#[verifier::external_body]
fn bincode_bool(bytes: &[u8]) -> (res: Option<bool>)
    ensures
        res == (if bytes@.len() >= 1 { spec_bool_byte(bytes@[0]) } else { None::<bool> }),
{
    bincode::deserialize::<bool>(bytes).ok()
}

/// `<byteorder::LittleEndian as ByteOrder>::read_u16`: the first two bytes of
/// `buf` as a little-endian `u16`. It panics on fewer than two bytes.
#[verifier::external_body]
fn byteorder_read_u16(buf: &[u8]) -> (res: u16)
    requires
        buf@.len() >= 2,
    ensures
        res == spec_u16_le(buf@, 0),
{
    <byteorder::LittleEndian as byteorder::ByteOrder>::read_u16(buf)
}

/// `<byteorder::LittleEndian as ByteOrder>::read_u32`: the first four bytes
/// of `buf` as a little-endian `u32`. It panics on fewer than four bytes.
#[verifier::external_body]
fn byteorder_read_u32(buf: &[u8]) -> (res: u32)
    requires
        buf@.len() >= 4,
    ensures
        res == spec_u32_le(buf@, 0),
{
    <byteorder::LittleEndian as byteorder::ByteOrder>::read_u32(buf)
}

/// Decodes a `u16` at `pos` with bincode; `None` when fewer than two bytes remain.
pub fn bincode_u16_at(bytes: &[u8], pos: usize) -> (res: Option<u16>)
    ensures
        res == (if pos + 2 <= bytes@.len() { Some(spec_u16_le(bytes@, pos as int)) } else { None::<u16> }),
{
    if pos > bytes.len() {
        return None;
    }
    let rest = &bytes[pos..bytes.len()];
    let r = bincode_u16(rest);
    proof {
        if pos + 2 <= bytes@.len() {
            assert(rest@[0] == bytes@[pos as int]);
            assert(rest@[1] == bytes@[pos + 1]);
        }
    }
    r
}

/// Decodes an `i16` at `pos` with bincode; `None` when fewer than two bytes remain.
pub fn bincode_i16_at(bytes: &[u8], pos: usize) -> (res: Option<i16>)
    ensures
        res == (if pos + 2 <= bytes@.len() { Some(spec_i16_le(bytes@, pos as int)) } else { None::<i16> }),
{
    if pos > bytes.len() {
        return None;
    }
    let rest = &bytes[pos..bytes.len()];
    let r = bincode_i16(rest);
    proof {
        if pos + 2 <= bytes@.len() {
            assert(rest@[0] == bytes@[pos as int]);
            assert(rest@[1] == bytes@[pos + 1]);
        }
    }
    r
}

/// Decodes a `u32` at `pos` with bincode; `None` when fewer than four bytes remain.
pub fn bincode_u32_at(bytes: &[u8], pos: usize) -> (res: Option<u32>)
    ensures
        res == (if pos + 4 <= bytes@.len() { Some(spec_u32_le(bytes@, pos as int)) } else { None::<u32> }),
{
    if pos > bytes.len() {
        return None;
    }
    let rest = &bytes[pos..bytes.len()];
    let r = bincode_u32(rest);
    proof {
        if pos + 4 <= bytes@.len() {
            assert(rest@[0] == bytes@[pos as int]);
            assert(rest@[1] == bytes@[pos + 1]);
            assert(rest@[2] == bytes@[pos + 2]);
            assert(rest@[3] == bytes@[pos + 3]);
        }
    }
    r
}

/// Decodes an `i32` at `pos` with bincode; `None` when fewer than four bytes remain.
pub fn bincode_i32_at(bytes: &[u8], pos: usize) -> (res: Option<i32>)
    ensures
        res == (if pos + 4 <= bytes@.len() { Some(spec_i32_le(bytes@, pos as int)) } else { None::<i32> }),
{
    if pos > bytes.len() {
        return None;
    }
    let rest = &bytes[pos..bytes.len()];
    let r = bincode_i32(rest);
    proof {
        if pos + 4 <= bytes@.len() {
            assert(rest@[0] == bytes@[pos as int]);
            assert(rest@[1] == bytes@[pos + 1]);
            assert(rest@[2] == bytes@[pos + 2]);
            assert(rest@[3] == bytes@[pos + 3]);
        }
    }
    r
}

/// Decodes a `bool` at `pos` with bincode; `None` past the end or when the
/// byte is neither 0 nor 1.
pub fn bincode_bool_at(bytes: &[u8], pos: usize) -> (res: Option<bool>)
    ensures
        res == (if pos + 1 <= bytes@.len() { spec_bool_byte(bytes@[pos as int]) } else { None::<bool> }),
{
    if pos > bytes.len() {
        return None;
    }
    let rest = &bytes[pos..bytes.len()];
    let r = bincode_bool(rest);
    proof {
        if pos + 1 <= bytes@.len() {
            assert(rest@[0] == bytes@[pos as int]);
        }
    }
    r
}

/// Reads a little-endian `u16` at `pos` with byteorder.
pub fn byteorder_u16_at(bytes: &[u8], pos: usize) -> (res: u16)
    requires
        pos + 2 <= bytes@.len(),
    ensures
        res == spec_u16_le(bytes@, pos as int),
{
    let rest = &bytes[pos..bytes.len()];
    let r = byteorder_read_u16(rest);
    assert(rest@[0] == bytes@[pos as int]);
    assert(rest@[1] == bytes@[pos + 1]);
    r
}

/// Reads a little-endian `u32` at `pos` with byteorder.
pub fn byteorder_u32_at(bytes: &[u8], pos: usize) -> (res: u32)
    requires
        pos + 4 <= bytes@.len(),
    ensures
        res == spec_u32_le(bytes@, pos as int),
{
    let rest = &bytes[pos..bytes.len()];
    let r = byteorder_read_u32(rest);
    assert(rest@[0] == bytes@[pos as int]);
    assert(rest@[1] == bytes@[pos + 1]);
    assert(rest@[2] == bytes@[pos + 2]);
    assert(rest@[3] == bytes@[pos + 3]);
    r
}

/// Decodes the little-endian `u16` stored at `pos`, for records that are laid
/// out in memory in file order.
pub fn le_u16(b: &[u8], pos: usize) -> (res: u16)
    requires
        pos + 2 <= b@.len(),
    ensures
        res == spec_u16_le(b@, pos as int),
{
    b[pos] as u16 + (b[pos + 1] as u16) * 0x100
}

/// Decodes the little-endian `i16` stored at `pos`.
pub fn le_i16(b: &[u8], pos: usize) -> (res: i16)
    requires
        pos + 2 <= b@.len(),
    ensures
        res == spec_i16_le(b@, pos as int),
{
    let u = le_u16(b, pos);
    if u < 0x8000 {
        u as i16
    } else {
        (u as i32 - 0x1_0000) as i16
    }
}

/// Decodes the little-endian `u32` stored at `pos`.
pub fn le_u32(b: &[u8], pos: usize) -> (res: u32)
    requires
        pos + 4 <= b@.len(),
    ensures
        res == spec_u32_le(b@, pos as int),
{
    b[pos] as u32 + (b[pos + 1] as u32) * 0x100 + (b[pos + 2] as u32) * 0x1_0000 + (b[pos
        + 3] as u32) * 0x100_0000
}

/// Decodes the little-endian `i32` stored at `pos`.
pub fn le_i32(b: &[u8], pos: usize) -> (res: i32)
    requires
        pos + 4 <= b@.len(),
    ensures
        res == spec_i32_le(b@, pos as int),
{
    let u = le_u32(b, pos);
    if u < 0x8000_0000 {
        u as i32
    } else {
        (u as i64 - 0x1_0000_0000) as i32
    }
}

/// Copies `N` bytes starting at `pos` into an array.
pub fn byte_array_16(b: &[u8], pos: usize) -> (res: [u8; 16])
    requires
        pos + 16 <= b@.len(),
    ensures
        res@ == b@.subrange(pos as int, pos + 16),
{
    let mut out = [0u8; 16];
    let n = b.len();
    let mut i: usize = 0;
    while i < 16
        invariant
            0 <= i <= 16,
            pos + 16 <= b@.len(),
            n == b@.len(),
            out@.len() == 16,
            forall|j: int| 0 <= j < i ==> out@[j] == b@[pos + j],
        decreases 16 - i,
    {
        out[i] = b[pos + i];
        i += 1;
    }
    assert(out@ =~= b@.subrange(pos as int, pos + 16));
    out
}

/// The bit pattern of an IEEE-754 single-precision value, exactly as stored
/// in a file. The readers copy these bits and never do arithmetic on them;
/// `f32::from_bits` turns them into the value.
#[derive(Copy, Clone, Debug, PartialEq, Eq, Structural)]
pub struct F32Bits(pub u32);

} // verus!
