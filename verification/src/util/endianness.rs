//! Conversions between 32-bit integers and their four-byte encodings.
//!
//! The binary image and the machine's memory store every word as four bytes,
//! least significant byte first. The big-endian variants are provided for
//! completeness.

use vstd::prelude::*;

verus! {

/// The unsigned value of four bytes, least significant byte first.
pub open spec fn spec_u32_le(bytes: Seq<u8>) -> int
    recommends
        bytes.len() == 4,
{
    bytes[0] as int + 256 * (bytes[1] as int) + 65536 * (bytes[2] as int) + 16777216 * (
    bytes[3] as int)
}

/// The unsigned value of four bytes, most significant byte first.
pub open spec fn spec_u32_be(bytes: Seq<u8>) -> int
    recommends
        bytes.len() == 4,
{
    bytes[3] as int + 256 * (bytes[2] as int) + 65536 * (bytes[1] as int) + 16777216 * (
    bytes[0] as int)
}

/// Reinterprets an unsigned 32-bit value as a two's complement signed value.
pub open spec fn to_signed(u: int) -> int
    recommends
        0 <= u < 0x1_0000_0000,
{
    if u >= 0x8000_0000 {
        u - 0x1_0000_0000
    } else {
        u
    }
}

/// Reinterprets a signed 32-bit value as its two's complement bit pattern.
pub open spec fn to_unsigned(i: int) -> int
    recommends
        -0x8000_0000 <= i < 0x8000_0000,
{
    if i < 0 {
        i + 0x1_0000_0000
    } else {
        i
    }
}

/// The signed value of four bytes, least significant byte first.
pub open spec fn spec_i32_le(bytes: Seq<u8>) -> int
    recommends
        bytes.len() == 4,
{
    to_signed(spec_u32_le(bytes))
}

/// The signed value of four bytes, most significant byte first.
pub open spec fn spec_i32_be(bytes: Seq<u8>) -> int
    recommends
        bytes.len() == 4,
{
    to_signed(spec_u32_be(bytes))
}

/// The four bytes of a signed 32-bit value, least significant byte first.
pub open spec fn spec_i32_bytes_le(value: i32) -> Seq<u8> {
    let u = to_unsigned(value as int);
    seq![
        (u % 256) as u8,
        ((u / 256) % 256) as u8,
        ((u / 65536) % 256) as u8,
        (u / 16777216) as u8,
    ]
}

/// The four bytes of a signed 32-bit value, most significant byte first.
pub open spec fn spec_i32_bytes_be(value: i32) -> Seq<u8> {
    let u = to_unsigned(value as int);
    seq![
        (u / 16777216) as u8,
        ((u / 65536) % 256) as u8,
        ((u / 256) % 256) as u8,
        (u % 256) as u8,
    ]
}

/// Reads four bytes as an unsigned 32-bit integer, most significant byte first.
pub fn as_u32_be(array: &[u8; 4]) -> (value: u32)
    ensures
        value as int == spec_u32_be(array@),
{
    let b0: u32 = array[0] as u32;
    let b1: u32 = array[1] as u32;
    let b2: u32 = array[2] as u32;
    let b3: u32 = array[3] as u32;
    16777216 * b0 + 65536 * b1 + 256 * b2 + b3
}

/// Reads four bytes as an unsigned 32-bit integer, least significant byte first.
pub fn as_u32_le(array: &[u8; 4]) -> (value: u32)
    ensures
        value as int == spec_u32_le(array@),
{
    let b0: u32 = array[0] as u32;
    let b1: u32 = array[1] as u32;
    let b2: u32 = array[2] as u32;
    let b3: u32 = array[3] as u32;
    b0 + 256 * b1 + 65536 * b2 + 16777216 * b3
}

/// Moves an unsigned 32-bit pattern into the signed type without changing a bit.
fn signed_from_bits(bits: u32) -> (value: i32)
    ensures
        value as int == to_signed(bits as int),
{
    if bits >= 2147483648 {
        let low: u32 = bits - 2147483648;
        (low as i32) - 2147483647 - 1
    } else {
        bits as i32
    }
}

/// Reads four bytes as a signed 32-bit integer, most significant byte first.
pub fn as_i32_be(array: &[u8; 4]) -> (value: i32)
    ensures
        value as int == spec_i32_be(array@),
{
    signed_from_bits(as_u32_be(array))
}

/// Reads four bytes as a signed 32-bit integer, least significant byte first.
pub fn as_i32_le(array: &[u8; 4]) -> (value: i32)
    ensures
        value as int == spec_i32_le(array@),
{
    signed_from_bits(as_u32_le(array))
}

/// Writes a signed 32-bit integer as four bytes, most significant byte first.
pub fn i32_bytes_be(value: i32) -> (bytes: [u8; 4])
    ensures
        bytes@ == spec_i32_bytes_be(value),
{
    let u: i64 = if value < 0 {
        value as i64 + 4294967296
    } else {
        value as i64
    };
    let bytes = [
        (u / 16777216) as u8,
        ((u / 65536) % 256) as u8,
        ((u / 256) % 256) as u8,
        (u % 256) as u8,
    ];
    assert(bytes@ =~= spec_i32_bytes_be(value));
    bytes
}

/// Writes a signed 32-bit integer as four bytes, least significant byte first.
pub fn i32_bytes_le(value: i32) -> (bytes: [u8; 4])
    ensures
        bytes@ == spec_i32_bytes_le(value),
{
    let u: i64 = if value < 0 {
        value as i64 + 4294967296
    } else {
        value as i64
    };
    let bytes = [
        (u % 256) as u8,
        ((u / 256) % 256) as u8,
        ((u / 65536) % 256) as u8,
        (u / 16777216) as u8,
    ];
    assert(bytes@ =~= spec_i32_bytes_le(value));
    bytes
}

/// Reading back the little-endian bytes of a value gives the value.
pub proof fn lemma_i32_le_round_trip(value: i32)
    ensures
        spec_i32_bytes_le(value).len() == 4,
        spec_i32_le(spec_i32_bytes_le(value)) == value,
{
}

/// Reading back the big-endian bytes of a value gives the value.
pub proof fn lemma_i32_be_round_trip(value: i32)
    ensures
        spec_i32_bytes_be(value).len() == 4,
        spec_i32_be(spec_i32_bytes_be(value)) == value,
{
}

} // verus!
