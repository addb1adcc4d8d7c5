//! Little-endian integers in a byte stream.
use vstd::prelude::*;

verus! {

/// The unsigned integer that the four bytes from `at` on spell, least
/// significant byte first.
pub open spec fn le_u32(s: Seq<u8>, at: int) -> int {
    s[at] as int + 0x100 * (s[at + 1] as int) + 0x1_0000 * (s[at + 2] as int) + 0x100_0000 * (s[at
        + 3] as int)
}

/// The unsigned integer that the eight bytes from `at` on spell, least
/// significant byte first.
pub open spec fn le_u64(s: Seq<u8>, at: int) -> int {
    le_u32(s, at) + 0x1_0000_0000 * le_u32(s, at + 4)
}

pub fn read_u32(data: &[u8], at: usize) -> (r: u32)
    requires
        at + 4 <= data.len(),
    ensures
        r == le_u32(data@, at as int),
{
    let b0: u32 = data[at] as u32;
    let b1: u32 = data[at + 1] as u32;
    let b2: u32 = data[at + 2] as u32;
    let b3: u32 = data[at + 3] as u32;
    b0 + 0x100 * b1 + 0x1_0000 * b2 + 0x100_0000 * b3
}

pub fn read_u64(data: &[u8], at: usize) -> (r: u64)
    requires
        at + 8 <= data.len(),
    ensures
        r == le_u64(data@, at as int),
{
    let low: u64 = read_u32(data, at) as u64;
    let high: u64 = read_u32(data, at + 4) as u64;
    low + 0x1_0000_0000 * high
}


/// The four bytes that spell an unsigned integer, least significant first.
pub open spec fn le_bytes_u32(value: u32) -> Seq<u8> {
    seq![
        (value % 0x100) as u8,
        (value / 0x100 % 0x100) as u8,
        (value / 0x1_0000 % 0x100) as u8,
        (value / 0x100_0000) as u8,
    ]
}

/// Bytes appended to a stream spell the integer they were made from, and
/// leave what the stream spelled before as it was.
pub proof fn lemma_appended_u32(stream: Seq<u8>, value: u32)
    ensures
        le_u32(stream + le_bytes_u32(value), stream.len() as int) == value,
        forall|at: int|
            0 <= at && at + 4 <= stream.len() ==> #[trigger] le_u32(
                stream + le_bytes_u32(value),
                at,
            ) == le_u32(stream, at),
{
}

/// Appends an unsigned integer to a stream, least significant byte first.
pub fn write_u32(out: &mut Vec<u8>, value: u32)
    ensures
        final(out)@ == old(out)@ + le_bytes_u32(value),
{
    out.push((value % 0x100) as u8);
    out.push((value / 0x100 % 0x100) as u8);
    out.push((value / 0x1_0000 % 0x100) as u8);
    out.push((value / 0x100_0000) as u8);
}

} // verus!
