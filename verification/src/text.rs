use crate::error::DecodeError;
use crate::layout::{at, bytes_at, done, end_of, u32_at, value_of, Cursor, Decoded};
use crate::reader::ByteReader;
use vstd::prelude::*;
use vstd::utf8::{decode_utf8, valid_utf8};

verus! {

/// The bytes of a text field without its terminator: a last byte of zero is
/// dropped, once.
pub open spec fn unterminated(raw: Seq<u8>) -> Seq<u8> {
    if raw.len() > 0 && raw.last() == 0 {
        raw.drop_last()
    } else {
        raw
    }
}

/// A text field: a 32-bit length, then that many bytes, which hold UTF-8
/// text and may end in a zero byte that is no part of it.
pub open spec fn string_at(s: Seq<u8>, c: Cursor) -> Decoded<Seq<char>> {
    let length = u32_at(s, c);
    match bytes_at(s, end_of(length), value_of(length) as int) {
        Err(e) => Err(e),
        Ok((raw, q)) => if valid_utf8(unterminated(raw)) {
            Ok((decode_utf8(unterminated(raw)), q))
        } else {
            Err(DecodeError::Encoding { offset: at(c) as usize })
        },
    }
}

/// A text field that the file holds only where `present`; elsewhere it is
/// empty and takes no bytes.
pub open spec fn string_if(present: bool, s: Seq<u8>, c: Cursor) -> Decoded<Seq<char>> {
    if present {
        string_at(s, c)
    } else {
        done(c, Seq::empty())
    }
}

/// `String::from_utf8`. Unproved: it succeeds exactly on well-formed UTF-8,
/// and the text it gives is what the bytes encode.
#[verifier::external_body]
pub(crate) fn text_of(bytes: Vec<u8>) -> (r: Option<String>)
    ensures
        valid_utf8(bytes@) ==> r.is_some() && r.unwrap()@ == decode_utf8(bytes@),
        !valid_utf8(bytes@) ==> r.is_none(),
{
    String::from_utf8(bytes).ok()
}

/// Decodes a text field at the cursor.
pub fn parse_string(r: &mut ByteReader) -> (result: Result<String, DecodeError>)
    ensures
        final(r).bytes() == old(r).bytes(),
        match string_at(old(r).bytes(), Ok(old(r).pos())) {
            Ok((text, q)) => result is Ok && result->Ok_0@ == text && final(r).pos() == q,
            Err(e) => result == Err::<String, DecodeError>(e),
        },
{
    let start = r.position();
    let len = r.read_u32()?;
    let mut data = r.read_exact(len as usize)?;
    let ghost raw = data@;
    let n = data.len();
    if n > 0 && data[n - 1] == 0 {
        data.pop();
    }
    assert(data@ =~= unterminated(raw));
    match text_of(data) {
        Some(text) => Ok(text),
        None => Err(DecodeError::Encoding { offset: start }),
    }
}

} // verus!
