//! Small byte-string helpers shared by the header checks.

use vstd::prelude::*;

verus! {

/// True when `h` begins with the bytes of `prefix`.
pub open spec fn spec_starts_with(h: Seq<u8>, prefix: Seq<u8>) -> bool {
    h.len() >= prefix.len() && h.take(prefix.len() as int) == prefix
}

/// Byte-string prefix test.
pub fn starts_with_bytes(h: &[u8], prefix: &[u8]) -> (r: bool)
    ensures
        r == spec_starts_with(h@, prefix@),
{
    if h.len() < prefix.len() {
        return false;
    }
    let mut i: usize = 0;
    while i < prefix.len()
        invariant
            0 <= i <= prefix@.len() <= h@.len(),
            forall|j: int| 0 <= j < i ==> h@[j] == prefix@[j],
        decreases prefix@.len() - i,
    {
        if h[i] != prefix[i] {
            assert(h@.take(prefix@.len() as int)[i as int] != prefix@[i as int]);
            return false;
        }
        i += 1;
    }
    assert(h@.take(prefix@.len() as int) =~= prefix@);
    true
}

/// Byte-string equality that examines every byte pair before answering, so
/// the time taken does not depend on where two equal-length strings differ.
pub fn eq_bytes_constant_time(a: &[u8], b: &[u8]) -> (r: bool)
    ensures
        r == (a@ == b@),
{
    if a.len() != b.len() {
        return false;
    }
    let mut diff: u8 = 0;
    let mut i: usize = 0;
    while i < a.len()
        invariant
            0 <= i <= a@.len(),
            a@.len() == b@.len(),
            (diff == 0) <==> (forall|j: int| 0 <= j < i ==> a@[j] == b@[j]),
        decreases a@.len() - i,
    {
        let x = a[i];
        let y = b[i];
        let d2 = diff | (x ^ y);
        assert((d2 == 0) == (diff == 0 && x == y)) by (bit_vector)
            requires
                d2 == diff | (x ^ y),
        ;
        diff = d2;
        i += 1;
    }
    if diff == 0 {
        assert(a@ =~= b@);
        true
    } else {
        assert(a@ != b@) by {
            if a@ == b@ {
                assert(forall|j: int| 0 <= j < i ==> a@[j] == b@[j]);
            }
        }
        false
    }
}

} // verus!
