//! Which origins may make cross-origin requests.

use vstd::prelude::*;

verus! {

/// The bytes of `http://localhost`.
pub const LOCALHOST_PREFIX: [u8; 16] = [
    0x68, 0x74, 0x74, 0x70, 0x3a, 0x2f, 0x2f, 0x6c, 0x6f, 0x63, 0x61, 0x6c, 0x68, 0x6f, 0x73, 0x74,
];

/// The bytes of `null`, the origin that a browser sends for a local file.
pub const NULL_ORIGIN: [u8; 4] = [0x6e, 0x75, 0x6c, 0x6c];

/// An origin is allowed when it begins with `http://localhost` or is exactly
/// `null`.
pub open spec fn origin_permitted(origin: Seq<u8>) -> bool {
    LOCALHOST_PREFIX@.is_prefix_of(origin) || origin == NULL_ORIGIN@
}

/// Whether `bytes` begins with `prefix`.
fn starts_with(bytes: &[u8], prefix: &[u8]) -> (yes: bool)
    ensures
        yes == prefix@.is_prefix_of(bytes@),
{
    if bytes.len() < prefix.len() {
        return false;
    }
    let mut i: usize = 0;
    while i < prefix.len()
        invariant
            i <= prefix.len() <= bytes.len(),
            forall|j: int| 0 <= j < i ==> bytes@[j] == prefix@[j],
        decreases prefix.len() - i,
    {
        if bytes[i] != prefix[i] {
            return false;
        }
        i += 1;
    }
    assert(prefix@ =~= bytes@.subrange(0, prefix@.len() as int));
    true
}

/// Decides whether a request from `origin`, given as the bytes of the
/// `Origin` header, is allowed.
pub fn origin_allowed(origin: &[u8]) -> (allowed: bool)
    ensures
        allowed == origin_permitted(origin@),
{
    if starts_with(origin, LOCALHOST_PREFIX.as_slice()) {
        return true;
    }
    let is_null = origin.len() == NULL_ORIGIN.len() && starts_with(
        origin,
        NULL_ORIGIN.as_slice(),
    );
    proof {
        if is_null {
            assert(origin@ =~= NULL_ORIGIN@);
        }
        if origin@ == NULL_ORIGIN@ {
            assert(NULL_ORIGIN@.is_prefix_of(origin@));
        }
    }
    is_null
}

} // verus!
