//! The staleness fingerprint of a container's manifest and source, and the
//! cache check built on it.
use vstd::prelude::*;
use std::collections::hash_map::DefaultHasher;
use std::hash::Hasher;
use vstd::std_specs::hash::DefaultHasherAdditionalSpecFns;

verus! {

/// Ends each hashed text, as the hash of a `str` does.
pub const TEXT_END: u8 = 255;

/// The fingerprint of a manifest, a source and a platform tag: the default
/// hasher fed each of the three, each followed by the text-end byte.
pub open spec fn spec_fingerprint(manifest: Seq<u8>, source: Seq<u8>, platform: Seq<u8>) -> u64 {
    DefaultHasher::spec_finish(
        seq![manifest, seq![TEXT_END], source, seq![TEXT_END], platform, seq![TEXT_END]],
    )
}

/// Computes the fingerprint of a manifest and a source on a platform.
pub fn fingerprint(manifest: &[u8], source: &[u8], platform: &[u8]) -> (r: u64)
    ensures
        r == spec_fingerprint(manifest@, source@, platform@),
{
    let mut end: Vec<u8> = Vec::new();
    end.push(TEXT_END);
    assert(end@ =~= seq![TEXT_END]);
    let mut h = DefaultHasher::new();
    h.write(manifest);
    h.write(end.as_slice());
    h.write(source);
    h.write(end.as_slice());
    h.write(platform);
    h.write(end.as_slice());
    assert(h@ =~= seq![manifest@, seq![TEXT_END], source@, seq![TEXT_END], platform@, seq![TEXT_END]]);
    h.finish()
}

/// Whether a stored fingerprint no longer matches the manifest and source:
/// recomputed on every call.
pub fn is_stale(stored: u64, manifest: &[u8], source: &[u8], platform: &[u8]) -> (r: bool)
    ensures
        r == (stored != spec_fingerprint(manifest@, source@, platform@)),
{
    fingerprint(manifest, source, platform) != stored
}

/// The fingerprint is a function of the manifest, the source and the
/// platform tag alone: the same three always give the same fingerprint,
/// whatever the payload.
pub proof fn lemma_fingerprint_deterministic(
    m1: Seq<u8>,
    s1: Seq<u8>,
    tag1: Seq<u8>,
    m2: Seq<u8>,
    s2: Seq<u8>,
    tag2: Seq<u8>,
)
    requires
        m1 == m2,
        s1 == s2,
        tag1 == tag2,
    ensures
        spec_fingerprint(m1, s1, tag1) == spec_fingerprint(m2, s2, tag2),
{
}

} // verus!
