//! Unsigned integers as they lie in a byte string, in either byte order.

use vstd::prelude::*;

verus! {

/// The byte order in which multi-byte fields are stored.
#[derive(Clone, Copy, Debug, PartialEq, Eq, Structural)]
pub enum Encoding {
    /// Least significant byte first.
    Little,
    /// Most significant byte first.
    Big,
}

/// The value of the two bytes of `data` that start at `at`.
pub open spec fn u16_at(data: Seq<u8>, at: int, encoding: Encoding) -> int {
    match encoding {
        Encoding::Little => data[at] + 0x100 * data[at + 1],
        Encoding::Big => 0x100 * data[at] + data[at + 1],
    }
}

/// The value of the four bytes of `data` that start at `at`.
pub open spec fn u32_at(data: Seq<u8>, at: int, encoding: Encoding) -> int {
    match encoding {
        Encoding::Little => u16_at(data, at, encoding) + 0x1_0000 * u16_at(data, at + 2, encoding),
        Encoding::Big => 0x1_0000 * u16_at(data, at, encoding) + u16_at(data, at + 2, encoding),
    }
}

/// The value of the eight bytes of `data` that start at `at`.
pub open spec fn u64_at(data: Seq<u8>, at: int, encoding: Encoding) -> int {
    match encoding {
        Encoding::Little => u32_at(data, at, encoding) + 0x1_0000_0000 * u32_at(
            data,
            at + 4,
            encoding,
        ),
        Encoding::Big => 0x1_0000_0000 * u32_at(data, at, encoding) + u32_at(
            data,
            at + 4,
            encoding,
        ),
    }
}

/// The four bytes that hold `value`, least significant byte first.
pub open spec fn le_bytes(value: u32) -> Seq<u8> {
    seq![
        (value % 0x100) as u8,
        (value / 0x100 % 0x100) as u8,
        (value / 0x1_0000 % 0x100) as u8,
        (value / 0x100_0000) as u8,
    ]
}

/// Reading back the little-endian bytes of a value gives that value.
pub proof fn lemma_le_bytes_round_trip(value: u32)
    ensures
        le_bytes(value).len() == 4,
        u32_at(le_bytes(value), 0, Encoding::Little) == value,
{
}

/// The little-endian bytes of a value read from four bytes are those bytes.
pub proof fn lemma_le_bytes_of_u32_at(data: Seq<u8>, at: int)
    requires
        0 <= at,
        at + 4 <= data.len(),
    ensures
        0 <= u32_at(data, at, Encoding::Little) <= u32::MAX,
        le_bytes(u32_at(data, at, Encoding::Little) as u32) == data.subrange(at, at + 4),
{
    let value = u32_at(data, at, Encoding::Little);
    assert(le_bytes(value as u32) =~= data.subrange(at, at + 4));
}

/// Reads the 16-bit field of `data` at `at`.
pub fn read_u16(data: &[u8], at: usize, encoding: Encoding) -> (value: u16)
    requires
        at + 2 <= data.len(),
    ensures
        value == u16_at(data@, at as int, encoding),
{
    let first: u16 = data[at] as u16;
    let second: u16 = data[at + 1] as u16;
    match encoding {
        Encoding::Little => first + 0x100 * second,
        Encoding::Big => 0x100 * first + second,
    }
}

/// Reads the 32-bit field of `data` at `at`.
pub fn read_u32(data: &[u8], at: usize, encoding: Encoding) -> (value: u32)
    requires
        at + 4 <= data.len(),
    ensures
        value == u32_at(data@, at as int, encoding),
{
    let first: u32 = read_u16(data, at, encoding) as u32;
    let second: u32 = read_u16(data, at + 2, encoding) as u32;
    match encoding {
        Encoding::Little => first + 0x1_0000 * second,
        Encoding::Big => 0x1_0000 * first + second,
    }
}

/// Reads the 64-bit field of `data` at `at`.
pub fn read_u64(data: &[u8], at: usize, encoding: Encoding) -> (value: u64)
    requires
        at + 8 <= data.len(),
    ensures
        value == u64_at(data@, at as int, encoding),
{
    let first: u64 = read_u32(data, at, encoding) as u64;
    let second: u64 = read_u32(data, at + 4, encoding) as u64;
    match encoding {
        Encoding::Little => first + 0x1_0000_0000 * second,
        Encoding::Big => 0x1_0000_0000 * first + second,
    }
}

} // verus!
