use crate::error::DecodeError;
use crate::le::{le_i32, le_u32, le_u64};
use vstd::prelude::*;

verus! {

/// Where a decode stands: a byte position, or the failure that ended it.
pub type Cursor = Result<int, DecodeError>;

/// What a field decodes to and where the next field starts, or the failure.
pub type Decoded<T> = Result<(T, int), DecodeError>;

/// The cursor behind a decoded field.
pub open spec fn end_of<T>(d: Decoded<T>) -> Cursor {
    match d {
        Ok((_, q)) => Ok(q),
        Err(e) => Err(e),
    }
}

/// The value of a decoded field. It means nothing where the decode failed.
pub open spec fn value_of<T>(d: Decoded<T>) -> T {
    match d {
        Ok((v, _)) => v,
        Err(_) => arbitrary(),
    }
}

/// `v`, decoded up to `c`; the failure of `c` where it holds one.
pub open spec fn done<T>(c: Cursor, v: T) -> Decoded<T> {
    match c {
        Ok(q) => Ok((v, q)),
        Err(e) => Err(e),
    }
}

/// The position of a cursor. It means nothing where the decode failed.
pub open spec fn at(c: Cursor) -> int {
    match c {
        Ok(p) => p,
        Err(_) => arbitrary(),
    }
}

/// Whether `n` bytes of `s` start at `p`.
pub open spec fn fits(s: Seq<u8>, p: int, n: int) -> bool {
    0 <= p && 0 <= n && p + n <= s.len()
}

/// The failure of a field of `n` bytes at `p` that `s` is too short for.
pub open spec fn short(s: Seq<u8>, p: int, n: int) -> DecodeError {
    DecodeError::Truncated {
        offset: p as usize,
        needed: n as usize,
        available: if 0 <= p <= s.len() {
            (s.len() - p) as usize
        } else {
            0
        },
    }
}

/// The `n` bytes of `s` from `c` on.
pub open spec fn bytes_at(s: Seq<u8>, c: Cursor, n: int) -> Decoded<Seq<u8>> {
    match c {
        Err(e) => Err(e),
        Ok(p) => if fits(s, p, n) {
            Ok((s.subrange(p, p + n), p + n))
        } else {
            Err(short(s, p, n))
        },
    }
}

/// An unsigned 32-bit field.
pub open spec fn u32_at(s: Seq<u8>, c: Cursor) -> Decoded<u32> {
    match bytes_at(s, c, 4) {
        Ok((b, q)) => Ok((le_u32(b), q)),
        Err(e) => Err(e),
    }
}

/// A signed 32-bit field.
pub open spec fn i32_at(s: Seq<u8>, c: Cursor) -> Decoded<i32> {
    match bytes_at(s, c, 4) {
        Ok((b, q)) => Ok((le_i32(b), q)),
        Err(e) => Err(e),
    }
}

/// An unsigned 64-bit field.
pub open spec fn u64_at(s: Seq<u8>, c: Cursor) -> Decoded<u64> {
    match bytes_at(s, c, 8) {
        Ok((b, q)) => Ok((le_u64(b), q)),
        Err(e) => Err(e),
    }
}

/// A signed 32-bit field that the file holds only where `present`; elsewhere
/// it is zero and takes no bytes.
pub open spec fn i32_if(present: bool, s: Seq<u8>, c: Cursor) -> Decoded<i32> {
    if present {
        i32_at(s, c)
    } else {
        done(c, 0i32)
    }
}

/// `n` records in a row, each decoded by `rec` from where the one before it
/// ended. The first failure is the failure of the whole.
pub open spec fn repeat<T>(
    rec: spec_fn(Seq<u8>, Cursor) -> Decoded<T>,
    s: Seq<u8>,
    c: Cursor,
    n: nat,
) -> Decoded<Seq<T>>
    decreases n,
{
    match c {
        Err(e) => Err(e),
        Ok(p) => if n == 0 {
            Ok((Seq::empty(), p))
        } else {
            match repeat(rec, s, c, (n - 1) as nat) {
                Err(e) => Err(e),
                Ok((front, q)) => match rec(s, Ok(q)) {
                    Err(e) => Err(e),
                    Ok((last, end)) => Ok((front.push(last), end)),
                },
            }
        },
    }
}

/// A failure among the first `i` records is the failure of any longer run.
pub proof fn lemma_repeat_fails<T>(
    rec: spec_fn(Seq<u8>, Cursor) -> Decoded<T>,
    s: Seq<u8>,
    c: Cursor,
    i: nat,
    n: nat,
)
    requires
        i <= n,
        repeat(rec, s, c, i) is Err,
    ensures
        repeat(rec, s, c, n) == Err::<(Seq<T>, int), DecodeError>(repeat(rec, s, c, i)->Err_0),
    decreases n,
{
    if i < n {
        lemma_repeat_fails(rec, s, c, i, (n - 1) as nat);
    }
}

/// A run of `n` records that decodes holds `n` of them.
pub proof fn lemma_repeat_len<T>(
    rec: spec_fn(Seq<u8>, Cursor) -> Decoded<T>,
    s: Seq<u8>,
    c: Cursor,
    n: nat,
)
    requires
        repeat(rec, s, c, n) is Ok,
    ensures
        value_of(repeat(rec, s, c, n)).len() == n,
    decreases n,
{
    if n > 0 {
        lemma_repeat_len(rec, s, c, (n - 1) as nat);
    }
}

} // verus!
