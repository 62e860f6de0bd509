//! Extension-style container helpers: small operations the standard types
//! lack, with exact contracts.

use vstd::prelude::*;

verus! {

/// Appends `value` unless an equal element is already present, so the vector
/// stays duplicate-free for values added only through this function.
pub fn push_if_not_exists(v: &mut Vec<i32>, value: i32)
    ensures
        old(v)@.contains(value) ==> final(v)@ == old(v)@,
        !old(v)@.contains(value) ==> final(v)@ == old(v)@.push(value),
{
    let n = v.len();
    let mut i: usize = 0;
    while i < n
        invariant
            i <= n,
            n == v@.len(),
            v@ == old(v)@,
            forall|j: int| 0 <= j < i ==> v@[j] != value,
        decreases n - i,
    {
        if v[i] == value {
            proof {
                assert(old(v)@.contains(value));
            }
            return;
        }
        i = i + 1;
    }
    proof {
        assert(!old(v)@.contains(value));
    }
    v.push(value);
}

} // verus!
