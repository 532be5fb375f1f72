use omnom::ReadExt;
use vstd::prelude::*;

verus! {

/// The unsigned value of the first four bytes of `b`, least significant first.
pub open spec fn le_u32(b: Seq<u8>) -> u32
    recommends
        b.len() >= 4,
{
    (b[0] as int + b[1] as int * 0x100 + b[2] as int * 0x1_0000 + b[3] as int * 0x100_0000) as u32
}

/// The two's complement value of the first four bytes of `b`, least
/// significant first.
pub open spec fn le_i32(b: Seq<u8>) -> i32
    recommends
        b.len() >= 4,
{
    if le_u32(b) < 0x8000_0000 {
        le_u32(b) as int as i32
    } else {
        (le_u32(b) as int - 0x1_0000_0000) as i32
    }
}

/// The unsigned value of the first eight bytes of `b`, least significant
/// first.
pub open spec fn le_u64(b: Seq<u8>) -> u64
    recommends
        b.len() >= 8,
{
    (le_u32(b) as int + le_u32(b.subrange(4, 8)) as int * 0x1_0000_0000) as u64
}

/// `omnom::ReadExt::read_le::<u32>` on a byte slice as the reader. Unproved:
/// the call fails exactly when the slice holds fewer than four bytes, and
/// otherwise yields the little-endian value of the first four.
#[verifier::external_body]
pub(crate) fn take_u32(bytes: &[u8]) -> (r: Option<u32>)
    ensures
        bytes@.len() >= 4 ==> r == Some(le_u32(bytes@)),
        bytes@.len() < 4 ==> r.is_none(),
{
    let mut source = bytes;
    source.read_le::<u32>().ok()
}

/// `omnom::ReadExt::read_le::<i32>` on a byte slice as the reader. Unproved:
/// the call fails exactly when the slice holds fewer than four bytes, and
/// otherwise yields the two's complement little-endian value of the first
/// four.
#[verifier::external_body]
pub(crate) fn take_i32(bytes: &[u8]) -> (r: Option<i32>)
    ensures
        bytes@.len() >= 4 ==> r == Some(le_i32(bytes@)),
        bytes@.len() < 4 ==> r.is_none(),
{
    let mut source = bytes;
    source.read_le::<i32>().ok()
}

/// `omnom::ReadExt::read_le::<u64>` on a byte slice as the reader. Unproved:
/// the call fails exactly when the slice holds fewer than eight bytes, and
/// otherwise yields the little-endian value of the first eight.
#[verifier::external_body]
pub(crate) fn take_u64(bytes: &[u8]) -> (r: Option<u64>)
    ensures
        bytes@.len() >= 8 ==> r == Some(le_u64(bytes@)),
        bytes@.len() < 8 ==> r.is_none(),
{
    let mut source = bytes;
    source.read_le::<u64>().ok()
}

} // verus!
