use vstd::prelude::*;

use crate::version::Version;

verus! {

/// The packing of a three-part version plus a flush code into one `u64`
/// ordinal: `major`, `minor`, `patch` and `flush` occupy the four 16-bit
/// fields, most significant first. Packing is monotone in lexicographic
/// version order, which is what makes "is the stored schema older or newer
/// than the program" a single integer comparison.
pub open spec fn spec_version_code(v: Version, flush: u16) -> u64 {
    ((v.major as u64) * 0x1_0000_0000_0000 + (v.minor as u64) * 0x1_0000_0000 + (v.patch as u64)
        * 0x1_0000 + (flush as u64)) as u64
}

/// Packs a version and a flush code into a single ordinal.
pub fn convert_to_version_code(version: &Version, flush_code: u16) -> (r: u64)
    ensures
        r == spec_version_code(*version, flush_code),
{
    let major = version.major as u64;
    let minor = version.minor as u64;
    let patch = version.patch as u64;
    let flush = flush_code as u64;
    assert(major * 0x1_0000_0000_0000 + minor * 0x1_0000_0000 + patch * 0x1_0000 + flush
        <= 0xFFFF * 0x1_0000_0000_0000 + 0xFFFF * 0x1_0000_0000 + 0xFFFF * 0x1_0000 + 0xFFFF);
    major * 0x1_0000_0000_0000 + minor * 0x1_0000_0000 + patch * 0x1_0000 + flush
}

/// Unpacks an ordinal into its version and flush-code parts; the exact
/// inverse of `convert_to_version_code`.
pub fn convert_to_version(version_code: u64) -> (r: (Version, u16))
    ensures
        r.0.major == version_code as int / 0x1_0000_0000_0000,
        r.0.minor == (version_code as int / 0x1_0000_0000) % 0x1_0000,
        r.0.patch == (version_code as int / 0x1_0000) % 0x1_0000,
        r.1 == version_code as int % 0x1_0000,
{
    let flush_code = (version_code % 0x1_0000) as u16;
    let patch = ((version_code / 0x1_0000) % 0x1_0000) as u16;
    let minor = ((version_code / 0x1_0000_0000) % 0x1_0000) as u16;
    let major = (version_code / 0x1_0000_0000_0000) as u16;
    assert(version_code / 0x1_0000_0000_0000 < 0x1_0000) by (bit_vector);
    (Version { major, minor, patch }, flush_code)
}

/// Unpacking inverts packing: every `(major, minor, patch, flush)` quadruple
/// survives a round trip through the 64-bit ordinal unchanged.
pub proof fn lemma_version_code_round_trip(v: Version, flush: u16)
    ensures
        spec_version_code(v, flush) as int / 0x1_0000_0000_0000 == v.major,
        (spec_version_code(v, flush) as int / 0x1_0000_0000) % 0x1_0000 == v.minor,
        (spec_version_code(v, flush) as int / 0x1_0000) % 0x1_0000 == v.patch,
        spec_version_code(v, flush) as int % 0x1_0000 == flush,
{
    let a = v.major as u64;
    let b = v.minor as u64;
    let c = v.patch as u64;
    let d = flush as u64;
    let code = spec_version_code(v, flush);
    assert(code == (a * 0x1_0000_0000_0000 + b * 0x1_0000_0000 + c * 0x1_0000 + d) as u64);
    assert((a < 0x1_0000 && b < 0x1_0000 && c < 0x1_0000 && d < 0x1_0000) ==> ((a
        * 0x1_0000_0000_0000 + b * 0x1_0000_0000 + c * 0x1_0000 + d) as u64) / 0x1_0000_0000_0000
        == a) by (bit_vector);
    assert((a < 0x1_0000 && b < 0x1_0000 && c < 0x1_0000 && d < 0x1_0000) ==> (((a
        * 0x1_0000_0000_0000 + b * 0x1_0000_0000 + c * 0x1_0000 + d) as u64) / 0x1_0000_0000)
        % 0x1_0000 == b) by (bit_vector);
    assert((a < 0x1_0000 && b < 0x1_0000 && c < 0x1_0000 && d < 0x1_0000) ==> (((a
        * 0x1_0000_0000_0000 + b * 0x1_0000_0000 + c * 0x1_0000 + d) as u64) / 0x1_0000) % 0x1_0000
        == c) by (bit_vector);
    assert((a < 0x1_0000 && b < 0x1_0000 && c < 0x1_0000 && d < 0x1_0000) ==> ((a
        * 0x1_0000_0000_0000 + b * 0x1_0000_0000 + c * 0x1_0000 + d) as u64) % 0x1_0000 == d)
        by (bit_vector);
}

} // verus!
