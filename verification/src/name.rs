use crate::error::DecodeError;
use crate::layout::{at, done, end_of, u32_at, u64_at, value_of, Cursor, Decoded};
use crate::reader::ByteReader;
use crate::text::string_at;
use vstd::prelude::*;

verus! {

/// An entry of the name table: a text and a flag word. Other tables refer to
/// it by its position, so two entries may hold the same text.
#[derive(Default, Debug, Clone, PartialEq, Eq)]
pub struct UnrealName(pub String, pub u64);

/// What a name-table entry holds.
pub struct NameView {
    pub text: Seq<char>,
    pub flags: u64,
}

impl View for UnrealName {
    type V = NameView;

    open spec fn view(&self) -> NameView {
        NameView { text: self.0@, flags: self.1 }
    }
}

/// What a name table holds, entry by entry.
pub open spec fn names_view(table: Seq<UnrealName>) -> Seq<NameView> {
    Seq::new(table.len(), |i: int| table[i]@)
}

/// A name-table entry: a text field, then a 64-bit flag word.
pub open spec fn name_at(s: Seq<u8>, c: Cursor) -> Decoded<NameView> {
    let text = string_at(s, c);
    let flags = u64_at(s, end_of(text));
    done(end_of(flags), NameView { text: value_of(text), flags: value_of(flags) })
}

/// A name reference: a 32-bit position in the name table, then a 32-bit
/// companion word that is read and dropped. It decodes to the text at that
/// position, and fails where the table has no such position.
pub open spec fn name_ref_at(names: Seq<NameView>, s: Seq<u8>, c: Cursor) -> Decoded<Seq<char>> {
    let index = u32_at(s, c);
    let companion = u32_at(s, end_of(index));
    match end_of(companion) {
        Err(e) => Err(e),
        Ok(q) => if value_of(index) < names.len() {
            Ok((names[value_of(index) as int].text, q))
        } else {
            Err(
                DecodeError::Index {
                    offset: at(c) as usize,
                    index: value_of(index),
                    len: names.len() as usize,
                },
            )
        },
    }
}

/// Decodes a name reference at the cursor and looks it up in `table`.
pub fn get_name<'a>(r: &mut ByteReader, table: &'a [UnrealName]) -> (result: Result<
    &'a str,
    DecodeError,
>)
    ensures
        final(r).bytes() == old(r).bytes(),
        match name_ref_at(names_view(table@), old(r).bytes(), Ok(old(r).pos())) {
            Ok((text, q)) => result is Ok && result->Ok_0@ == text && final(r).pos() == q,
            Err(e) => result == Err::<&'a str, DecodeError>(e),
        },
{
    let start = r.position();
    let idx = r.read_u32()?;
    let _extra = r.read_u32()?;
    if (idx as usize) < table.len() {
        Ok(table[idx as usize].0.as_str())
    } else {
        Err(DecodeError::Index { offset: start, index: idx, len: table.len() })
    }
}

} // verus!
