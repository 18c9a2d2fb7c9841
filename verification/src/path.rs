//! Byte-string paths and their decomposition into walk segments.
//!
//! A path is a byte string. Splitting produces the segment list a path walk
//! consumes: a leading slash contributes a root segment `"/"`, and the
//! remaining bytes are divided at slashes, dropping empty pieces.

use vstd::prelude::*;

verus! {

/// The path separator byte, `'/'`.
pub const SLASH: u8 = 47;

/// Number of leading bytes of `p` before the first slash (or all of `p` if
/// it has none).
pub open spec fn first_slash(p: Seq<u8>) -> nat
    decreases p.len(),
{
    if p.len() == 0 {
        0
    } else if p[0] == SLASH {
        0
    } else {
        1 + first_slash(p.skip(1))
    }
}

/// The segments of `p` after any root marker: maximal slash-free non-empty
/// runs, in order.
pub open spec fn split_segs(p: Seq<u8>) -> Seq<Seq<u8>>
    decreases p.len(),
    via split_segs_decreases
{
    if p.len() == 0 {
        Seq::empty()
    } else if p[0] == SLASH {
        split_segs(p.skip(1))
    } else {
        let n = 1 + first_slash(p.skip(1)) as int;
        seq![p.take(n)] + split_segs(p.skip(n))
    }
}

#[via_fn]
proof fn split_segs_decreases(p: Seq<u8>) {
    if p.len() > 0 && p[0] != SLASH {
        lemma_first_slash_bounds(p.skip(1));
    }
}

/// The full segment list of a path: an absolute path contributes a root
/// segment `"/"` first.
pub open spec fn split_path_spec(p: Seq<u8>) -> Seq<Seq<u8>> {
    if p.len() > 0 && p[0] == SLASH {
        seq![seq![SLASH]] + split_segs(p)
    } else {
        split_segs(p)
    }
}

pub proof fn lemma_first_slash_bounds(p: Seq<u8>)
    ensures
        first_slash(p) <= p.len(),
        forall|k: int| 0 <= k < first_slash(p) ==> p[k] != SLASH,
        first_slash(p) < p.len() ==> p[first_slash(p) as int] == SLASH,
    decreases p.len(),
{
    if p.len() > 0 && p[0] != SLASH {
        lemma_first_slash_bounds(p.skip(1));
        assert forall|k: int| 0 <= k < first_slash(p) implies p[k] != SLASH by {
            if k > 0 {
                assert(p.skip(1)[k - 1] != SLASH);
            }
        }
    }
}

/// Whether two byte slices hold the same bytes.
pub fn bytes_eq(a: &[u8], b: &[u8]) -> (r: bool)
    ensures
        r == (a@ == b@),
{
    if a.len() != b.len() {
        assert(a@ != b@);
        return false;
    }
    let n = a.len();
    let mut i: usize = 0;
    while i < n
        invariant
            0 <= i <= n,
            n == a@.len() == b@.len(),
            forall|k: int| 0 <= k < i ==> a@[k] == b@[k],
        decreases n - i,
    {
        if a[i] != b[i] {
            return false;
        }
        i = i + 1;
    }
    assert(a@ =~= b@);
    true
}

/// Split a path into its walk segments.
pub fn split_path(path: &[u8]) -> (segs: Vec<Vec<u8>>)
    ensures
        segs@.map_values(|s: Vec<u8>| s@) == split_path_spec(path@),
{
    let n = path.len();
    let mut segs: Vec<Vec<u8>> = Vec::new();
    if n > 0 && path[0] == SLASH {
        let mut root: Vec<u8> = Vec::new();
        root.push(SLASH);
        assert(root@ =~= seq![SLASH]);
        segs.push(root);
        assert(segs@.map_values(|s: Vec<u8>| s@) =~= seq![seq![SLASH]]);
    }
    let ghost prefix = segs@.map_values(|s: Vec<u8>| s@);
    proof {
        assert(path@.skip(0) =~= path@);
        if !(n > 0 && path@[0] == SLASH) {
            assert(prefix =~= Seq::<Seq<u8>>::empty());
            assert(prefix + split_segs(path@) =~= split_segs(path@));
        }
    }
    let mut i: usize = 0;
    while i < n
        invariant
            0 <= i <= n,
            n == path@.len(),
            prefix + split_segs(path@) == split_path_spec(path@),
            segs@.map_values(|s: Vec<u8>| s@) + split_segs(path@.skip(i as int))
                == split_path_spec(path@),
        decreases n - i,
    {
        let ghost pre_loop = segs@.map_values(|s: Vec<u8>| s@);
        if path[i] == SLASH {
            assert(path@.skip(i as int).skip(1) =~= path@.skip(i as int + 1));
            i = i + 1;
        } else {
            let start = i;
            let mut j = i + 1;
            while j < n && path[j] != SLASH
                invariant
                    start < j <= n,
                    n == path@.len(),
                    forall|k: int| start < k < j ==> path@[k] != SLASH,
                decreases n - j,
            {
                j = j + 1;
            }
            proof {
                let rest = path@.skip(start as int);
                lemma_first_slash_bounds(rest);
                assert forall|k: int| 0 <= k < (j - start) implies rest[k] != SLASH by {
                    assert(rest[k] == path@[start + k]);
                }
                if (j as int) - (start as int) < first_slash(rest) {
                    assert(rest[(j - start) as int] != SLASH);
                    assert(j < n);
                    assert(rest[(j - start) as int] == path@[j as int]);
                    assert(false);
                }
                if first_slash(rest) < (j as int) - (start as int) {
                    assert(rest[first_slash(rest) as int] == SLASH);
                    assert(false);
                }
                assert(first_slash(rest) == (j as int) - (start as int));
            }
            let mut seg: Vec<u8> = Vec::new();
            let mut k = start;
            while k < j
                invariant
                    start <= k <= j <= n,
                    n == path@.len(),
                    seg@ =~= path@.subrange(start as int, k as int),
                decreases j - k,
            {
                seg.push(path[k]);
                k = k + 1;
            }
            proof {
                let rest = path@.skip(start as int);
                assert(seg@ =~= rest.take((j - start) as int));
                assert(rest.skip((j - start) as int) =~= path@.skip(j as int));
                assert(split_segs(rest) == seq![seg@] + split_segs(path@.skip(j as int)));
            }
            segs.push(seg);
            proof {
                assert(segs@.map_values(|s: Vec<u8>| s@) =~= pre_loop + seq![seg@]);
                assert(pre_loop + (seq![seg@] + split_segs(path@.skip(j as int)))
                    =~= (pre_loop + seq![seg@]) + split_segs(path@.skip(j as int)));
            }
            i = j;
        }
    }
    proof {
        assert(path@.skip(n as int) =~= Seq::<u8>::empty());
        assert(segs@.map_values(|s: Vec<u8>| s@) + Seq::<Seq<u8>>::empty()
            =~= segs@.map_values(|s: Vec<u8>| s@));
    }
    segs
}

} // verus!
