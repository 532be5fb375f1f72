use vstd::prelude::*;

verus! {

/// Why a decode stopped. Every failure ends the whole decode.
#[derive(Debug, Clone, Copy, PartialEq, Eq)]
pub enum DecodeError {
    /// A field of `needed` bytes starts at `offset`, where only `available`
    /// bytes are left.
    Truncated { offset: usize, needed: usize, available: usize },
    /// The text whose length prefix stands at `offset` is not UTF-8.
    Encoding { offset: usize },
    /// The name reference at `offset` holds `index`, and the name table has
    /// only `len` entries.
    Index { offset: usize, index: u32, len: usize },
}

} // verus!
