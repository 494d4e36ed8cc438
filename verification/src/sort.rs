//! Ordering directories for deletion.
//!
//! A directory may only be removed once everything inside it is gone, so the
//! deletion phase must visit directories in descending order of path depth:
//! `a/b/c` before `a/b` before `a`.  Directories of equal depth are
//! independent and may be deleted in either relative order, so the sort is
//! keyed on depth alone and need not be stable.

use vstd::prelude::*;
use vstd::multiset::Multiset;
use crate::file_ops::FileOps;
use crate::paths::{depth_of, path_depth};

verus! {

broadcast use {vstd::seq_lib::group_to_multiset_ensures, vstd::multiset::group_multiset_axioms};

/// Entries appear in descending order of path depth.
pub open spec fn sorted_by_depth_desc<T: FileOps>(s: Seq<T>) -> bool {
    forall|i: int, j: int|
        0 <= i < j < s.len() ==> #[trigger] depth_of(s[i].rel_path()) >= #[trigger] depth_of(
            s[j].rel_path(),
        )
}

/// Reorders the entries in descending order of path depth: deepest first.
/// The result holds exactly the given entries.
pub fn sort_files<T: FileOps>(files_to_sort: Vec<T>) -> (r: Vec<T>)
    ensures
        r@.to_multiset() == files_to_sort@.to_multiset(),
        sorted_by_depth_desc(r@),
{
    let mut v = files_to_sort;
    let mut r: Vec<T> = Vec::new();
    while v.len() > 0
        invariant
            r@.to_multiset().add(v@.to_multiset()) == files_to_sort@.to_multiset(),
            sorted_by_depth_desc(r@),
            forall|i: int, j: int|
                0 <= i < r@.len() && 0 <= j < v@.len() ==> #[trigger] depth_of(r@[i].rel_path())
                    >= #[trigger] depth_of(v@[j].rel_path()),
        decreases v@.len(),
    {
        let mut best: usize = 0;
        let mut best_d: usize = path_depth(v[0].path().as_str());
        let mut k: usize = 1;
        while k < v.len()
            invariant
                1 <= k <= v@.len(),
                best < k,
                best_d == depth_of(v@[best as int].rel_path()),
                forall|m: int| 0 <= m < k ==> best_d >= #[trigger] depth_of(v@[m].rel_path()),
            decreases v@.len() - k,
        {
            let d = path_depth(v[k].path().as_str());
            if d > best_d {
                best = k;
                best_d = d;
            }
            k = k + 1;
        }
        let ghost prev_v = v@;
        let ghost prev_r = r@;
        let x = v.remove(best);
        r.push(x);
        proof {
            assert(prev_v.contains(prev_v[best as int]));
            assert(prev_v.to_multiset().count(x) > 0);
            assert(r@.to_multiset() =~= prev_r.to_multiset().insert(x));
            assert(v@.to_multiset() =~= prev_v.to_multiset().remove(x));
            assert(r@.to_multiset().add(v@.to_multiset()) =~= prev_r.to_multiset().add(
                prev_v.to_multiset(),
            ));
        }
    }
    proof {
        assert(v@ =~= Seq::<T>::empty());
        assert(v@.to_multiset() =~= Multiset::<T>::empty());
        assert(r@.to_multiset().add(v@.to_multiset()) =~= r@.to_multiset());
    }
    r
}

} // verus!
