use crate::error::DecodeError;
use crate::layout::{done, end_of, i32_at, i32_if, value_of, Cursor, Decoded};
use crate::reader::ByteReader;
use vstd::prelude::*;

verus! {

/// The table sizes of the package at one of its earlier saves.
#[derive(Default, Debug, Copy, Clone, PartialEq, Eq)]
pub struct UnrealGeneration {
    pub export_count: i32,
    pub name_count: i32,
    /// Zero where the file version has no such field.
    pub net_object_count: i32,
}

/// A generation record: two signed 32-bit counts, and a third where
/// `net_objects`.
pub open spec fn generation_at(net_objects: bool, s: Seq<u8>, c: Cursor) -> Decoded<
    UnrealGeneration,
> {
    let export_count = i32_at(s, c);
    let name_count = i32_at(s, end_of(export_count));
    let net_object_count = i32_if(net_objects, s, end_of(name_count));
    done(
        end_of(net_object_count),
        UnrealGeneration {
            export_count: value_of(export_count),
            name_count: value_of(name_count),
            net_object_count: value_of(net_object_count),
        },
    )
}

/// The number of bytes that one generation record takes.
pub open spec fn generation_width(net_objects: bool) -> int {
    if net_objects {
        12
    } else {
        8
    }
}

impl UnrealGeneration {
    /// Decodes one generation record at the cursor. It takes two 32-bit
    /// fields, and three where `net_objects`.
    pub fn parse(r: &mut ByteReader, net_objects: bool) -> (result: Result<Self, DecodeError>)
        ensures
            final(r).bytes() == old(r).bytes(),
            match generation_at(net_objects, old(r).bytes(), Ok(old(r).pos())) {
                Ok((g, q)) => result == Ok::<Self, DecodeError>(g) && final(r).pos() == q,
                Err(e) => result == Err::<Self, DecodeError>(e),
            },
            result is Ok ==> final(r).pos() == old(r).pos() + generation_width(net_objects),
    {
        let export_count = r.read_i32()?;
        let name_count = r.read_i32()?;
        let mut net_object_count: i32 = 0;
        if net_objects {
            net_object_count = r.read_i32()?;
        }
        Ok(UnrealGeneration { export_count, name_count, net_object_count })
    }
}

} // verus!
