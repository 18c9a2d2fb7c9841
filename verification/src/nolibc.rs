//! Helpers for the freestanding guest-side runtime: plain views of
//! NUL-terminated byte strings.

use vstd::prelude::*;

use vstd::slice::slice_subrange;

verus! {

/// Strip the terminating zero off a NUL-terminated byte string.
pub fn c_unwrap_nul(s: &[u8]) -> (r: &[u8])
    requires
        s@.len() > 0,
        s@.last() == 0,
    ensures
        r@ == s@.drop_last(),
{
    let r = slice_subrange(s, 0, s.len() - 1);
    proof {
        assert(r@ =~= s@.drop_last());
    }
    r
}

/// The length of the NUL-terminated string at the front of `s`: the
/// index of its first zero byte.
pub fn c_strlen(s: &[u8]) -> (r: usize)
    requires
        exists|i: int| 0 <= i < s@.len() && s@[i] == 0,
    ensures
        r < s@.len(),
        s@[r as int] == 0,
        forall|i: int| 0 <= i < r ==> s@[i] != 0,
{
    let n = s.len();
    let mut i: usize = 0;
    loop
        invariant
            0 <= i <= n,
            n == s@.len(),
            exists|j: int| 0 <= j < s@.len() && s@[j] == 0,
            forall|j: int| 0 <= j < i ==> s@[j] != 0,
        decreases n - i,
    {
        if i >= n {
            proof {
                let j = choose|j: int| 0 <= j < s@.len() && s@[j] == 0;
                assert(s@[j] != 0);
                assert(false);
            }
            return 0;
        }
        if s[i] == 0 {
            return i;
        }
        i = i + 1;
    }
}

} // verus!
