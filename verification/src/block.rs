use crate::error::DecodeError;
use crate::layout::{done, end_of, u32_at, value_of, Cursor, Decoded};
use crate::reader::ByteReader;
use vstd::prelude::*;

verus! {

/// The descriptor of one compressed chunk: its size in the file and its size
/// once unpacked.
#[derive(Default, Debug, Copy, Clone, PartialEq, Eq)]
pub struct UnrealBlock {
    pub compressed_size: u32,
    pub uncompressed_size: u32,
}

/// A chunk descriptor: two unsigned 32-bit sizes.
pub open spec fn block_at(s: Seq<u8>, c: Cursor) -> Decoded<UnrealBlock> {
    let compressed_size = u32_at(s, c);
    let uncompressed_size = u32_at(s, end_of(compressed_size));
    done(
        end_of(uncompressed_size),
        UnrealBlock {
            compressed_size: value_of(compressed_size),
            uncompressed_size: value_of(uncompressed_size),
        },
    )
}

impl UnrealBlock {
    /// Decodes one chunk descriptor at the cursor.
    pub fn parse(r: &mut ByteReader) -> (result: Result<Self, DecodeError>)
        ensures
            final(r).bytes() == old(r).bytes(),
            match block_at(old(r).bytes(), Ok(old(r).pos())) {
                Ok((b, q)) => result == Ok::<Self, DecodeError>(b) && final(r).pos() == q,
                Err(e) => result == Err::<Self, DecodeError>(e),
            },
    {
        let compressed_size = r.read_u32()?;
        let uncompressed_size = r.read_u32()?;
        Ok(UnrealBlock { compressed_size, uncompressed_size })
    }
}

} // verus!
