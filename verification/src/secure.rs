//! Comparison of secrets without an early exit.

use vstd::prelude::*;

verus! {

/// Whether two byte strings are equal. Every position is visited whatever
/// the contents, so the time taken depends on the lengths alone.
pub fn constant_time_eq(a: &[u8], b: &[u8]) -> (same: bool)
    ensures
        same == (a@ == b@),
{
    if a.len() != b.len() {
        return false;
    }
    let mut diff: u8 = 0;
    let mut i: usize = 0;
    while i < a.len()
        invariant
            a@.len() == b@.len(),
            i <= a@.len(),
            (diff == 0) == (a@.take(i as int) =~= b@.take(i as int)),
        decreases a@.len() - i,
    {
        let x: u8 = a[i];
        let y: u8 = b[i];
        let ghost before: u8 = diff;
        diff = diff | (x ^ y);
        proof {
            assert((before | (x ^ y)) == 0 <==> (before == 0 && x == y)) by (bit_vector);
            let k = i as int;
            assert(a@.take(k + 1) == a@.take(k).push(a@[k]));
            assert(b@.take(k + 1) == b@.take(k).push(b@[k]));
            if a@.take(k + 1) == b@.take(k + 1) {
                assert(a@.take(k + 1).drop_last() == a@.take(k));
                assert(b@.take(k + 1).drop_last() == b@.take(k));
                assert(a@.take(k + 1).last() == a@[k]);
                assert(b@.take(k + 1).last() == b@[k]);
            }
        }
        i = i + 1;
    }
    proof {
        assert(a@.take(a@.len() as int) == a@);
        assert(b@.take(b@.len() as int) == b@);
    }
    diff == 0
}

} // verus!
