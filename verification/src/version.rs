use vstd::prelude::*;

verus! {

/// The file version that a combined version word holds: its low 16 bits.
pub open spec fn file_version_of(version: u32) -> u16 {
    (version & 0xFFFF) as u16
}

/// The licensee version that a combined version word holds: its high 16
/// bits.
pub open spec fn licensee_version_of(version: u32) -> u16 {
    (version >> 16) as u16
}

/// The combined version word of a file version and a licensee version.
pub open spec fn combined_version(file_version: u16, licensee_version: u16) -> u32 {
    ((licensee_version as u32) << 16) | (file_version as u32)
}

/// Splits a combined version word into the file version and the licensee
/// version.
pub fn split_version(version: u32) -> (parts: (u16, u16))
    ensures
        parts.0 == file_version_of(version),
        parts.1 == licensee_version_of(version),
        combined_version(parts.0, parts.1) == version,
{
    assert(version & 0xFFFF <= 0xFFFF) by (bit_vector);
    assert(version >> 16 <= 0xFFFF) by (bit_vector);
    let file_version = (version & 0xFFFF) as u16;
    let licensee_version = (version >> 16) as u16;
    proof {
        lemma_version_recombines(version);
    }
    (file_version, licensee_version)
}

/// The two halves of a version word, put together again, give the word.
pub proof fn lemma_version_recombines(version: u32)
    ensures
        combined_version(file_version_of(version), licensee_version_of(version)) == version,
{
    assert((((version >> 16) as u16) as u32) << 16 | (((version & 0xFFFF) as u16) as u32)
        == version) by (bit_vector);
}

} // verus!
