//! Set algebra over entry collections.
//!
//! A scanned collection is a sequence of entries; its meaning is the set of
//! entry keys (views) it contains.  Difference and intersection are computed
//! by each entry kind's key exactly: a file that exists at the same path in
//! both trees but with different sizes is in neither intersection, so it is
//! planned both for deletion on the destination side and for creation from
//! the source side, never for content comparison.

use vstd::prelude::*;
use crate::file_ops::FileOps;

verus! {

/// The collection `s` holds an entry whose key is `v`.
pub open spec fn entry_in<T: View>(s: Seq<T>, v: T::V) -> bool {
    exists|i: int| 0 <= i < s.len() && #[trigger] s[i]@ == v
}

/// The collection `s` holds an entry whose relative path is `p`.
pub open spec fn path_in<T: FileOps>(s: Seq<T>, p: Seq<char>) -> bool {
    exists|i: int| 0 <= i < s.len() && #[trigger] s[i].rel_path() == p
}

/// No two entries of `s` share a relative path.
pub open spec fn unique_paths<T: FileOps>(s: Seq<T>) -> bool {
    forall|i: int, j: int|
        0 <= i < j < s.len() ==> #[trigger] s[i].rel_path() != #[trigger] s[j].rel_path()
}

/// The entries of `a` whose key does not occur in `b`, in the order `a`
/// lists them.
pub open spec fn minus_seq<T: View>(a: Seq<T>, b: Seq<T>) -> Seq<T> {
    a.filter(|x: T| !entry_in(b, x@))
}

/// The entries of `a` whose key also occurs in `b`, in the order `a` lists
/// them.
pub open spec fn inter_seq<T: View>(a: Seq<T>, b: Seq<T>) -> Seq<T> {
    a.filter(|x: T| entry_in(b, x@))
}

/// The set of entry keys a collection holds.
pub open spec fn view_set<T: View>(s: Seq<T>) -> Set<T::V> {
    Set::new(|v: T::V| entry_in(s, v))
}

pub proof fn lemma_entry_in_push<T: View>(s: Seq<T>, x: T, v: T::V)
    ensures
        entry_in(s.push(x), v) <==> (entry_in(s, v) || x@ == v),
{
    if entry_in(s.push(x), v) {
        let i = choose|i: int| 0 <= i < s.push(x).len() && #[trigger] s.push(x)[i]@ == v;
        if i < s.len() {
            assert(s[i]@ == v);
        }
    }
    if entry_in(s, v) {
        let i = choose|i: int| 0 <= i < s.len() && #[trigger] s[i]@ == v;
        assert(s.push(x)[i]@ == v);
    }
    if x@ == v {
        assert(s.push(x)[s.len() as int]@ == v);
    }
}

pub proof fn lemma_minus_seq_push<T: View>(a: Seq<T>, b: Seq<T>, x: T)
    ensures
        minus_seq(a.push(x), b) == (if !entry_in(b, x@) {
            minus_seq(a, b).push(x)
        } else {
            minus_seq(a, b)
        }),
{
    reveal(Seq::filter);
    assert(a.push(x).drop_last() =~= a);
    assert(a.push(x).last() == x);
}

pub proof fn lemma_inter_seq_push<T: View>(a: Seq<T>, b: Seq<T>, x: T)
    ensures
        inter_seq(a.push(x), b) == (if entry_in(b, x@) {
            inter_seq(a, b).push(x)
        } else {
            inter_seq(a, b)
        }),
{
    reveal(Seq::filter);
    assert(a.push(x).drop_last() =~= a);
    assert(a.push(x).last() == x);
}

/// An entry key is in the difference of `a` and `b` exactly when `a` holds
/// it and `b` does not.
pub proof fn lemma_minus_seq_in<T: View>(a: Seq<T>, b: Seq<T>, v: T::V)
    ensures
        entry_in(minus_seq(a, b), v) <==> (entry_in(a, v) && !entry_in(b, v)),
    decreases a.len(),
{
    if a.len() == 0 {
        reveal(Seq::filter);
        assert(minus_seq(a, b) =~= Seq::<T>::empty());
    } else {
        let al = a.drop_last();
        let x = a.last();
        lemma_minus_seq_in(al, b, v);
        assert(a =~= al.push(x));
        lemma_minus_seq_push(al, b, x);
        lemma_entry_in_push(al, x, v);
        if !entry_in(b, x@) {
            lemma_entry_in_push(minus_seq(al, b), x, v);
        }
    }
}

/// An entry key is in the intersection of `a` and `b` exactly when both
/// hold it.
pub proof fn lemma_inter_seq_in<T: View>(a: Seq<T>, b: Seq<T>, v: T::V)
    ensures
        entry_in(inter_seq(a, b), v) <==> (entry_in(a, v) && entry_in(b, v)),
    decreases a.len(),
{
    if a.len() == 0 {
        reveal(Seq::filter);
        assert(inter_seq(a, b) =~= Seq::<T>::empty());
    } else {
        let al = a.drop_last();
        let x = a.last();
        lemma_inter_seq_in(al, b, v);
        assert(a =~= al.push(x));
        lemma_inter_seq_push(al, b, x);
        lemma_entry_in_push(al, x, v);
        if entry_in(b, x@) {
            lemma_entry_in_push(inter_seq(al, b), x, v);
        }
    }
}

/// When every entry of `a` has its key in `b`, the difference is empty.
pub proof fn lemma_minus_seq_all_in<T: View>(a: Seq<T>, b: Seq<T>)
    requires
        forall|i: int| 0 <= i < a.len() ==> entry_in(b, #[trigger] a[i]@),
    ensures
        minus_seq(a, b) == Seq::<T>::empty(),
    decreases a.len(),
{
    if a.len() == 0 {
        reveal(Seq::filter);
        assert(minus_seq(a, b) =~= Seq::<T>::empty());
    } else {
        let al = a.drop_last();
        let x = a.last();
        lemma_minus_seq_all_in(al, b);
        assert(a =~= al.push(x));
        lemma_minus_seq_push(al, b, x);
        assert(entry_in(b, a[a.len() - 1]@));
    }
}

/// When every entry of `a` has its key in `b`, the intersection is all of
/// `a`.
pub proof fn lemma_inter_seq_all_in<T: View>(a: Seq<T>, b: Seq<T>)
    requires
        forall|i: int| 0 <= i < a.len() ==> entry_in(b, #[trigger] a[i]@),
    ensures
        inter_seq(a, b) == a,
    decreases a.len(),
{
    if a.len() == 0 {
        reveal(Seq::filter);
        assert(inter_seq(a, b) =~= a);
    } else {
        let al = a.drop_last();
        let x = a.last();
        lemma_inter_seq_all_in(al, b);
        assert(a =~= al.push(x));
        lemma_inter_seq_push(al, b, x);
        assert(entry_in(b, a[a.len() - 1]@));
        assert(inter_seq(a, b) =~= a);
    }
}

/// The entries of `s` with every later repetition of an already-seen
/// relative path removed: the first entry at each path wins.
pub open spec fn dedup_paths<T: FileOps>(s: Seq<T>) -> Seq<T>
    decreases s.len(),
{
    if s.len() == 0 {
        s
    } else {
        let rest = dedup_paths(s.drop_last());
        if path_in(rest, s.last().rel_path()) {
            rest
        } else {
            rest.push(s.last())
        }
    }
}

/// Removing repetitions leaves no two entries with the same path.
pub proof fn lemma_dedup_paths_unique<T: FileOps>(s: Seq<T>)
    ensures
        unique_paths(dedup_paths(s)),
    decreases s.len(),
{
    if s.len() > 0 {
        lemma_dedup_paths_unique(s.drop_last());
        let rest = dedup_paths(s.drop_last());
        let x = s.last();
        if !path_in(rest, x.rel_path()) {
            assert forall|i: int, j: int| 0 <= i < j < rest.push(x).len() implies #[trigger] rest.push(
                x,
            )[i].rel_path() != #[trigger] rest.push(x)[j].rel_path() by {
                if j == rest.len() {
                    assert(rest.push(x)[j] == x);
                    if rest.push(x)[i].rel_path() == x.rel_path() {
                        assert(rest[i].rel_path() == x.rel_path());
                    }
                }
            }
        }
    }
}

/// Drops every entry whose relative path an earlier entry already used.
pub fn dedup_entries<T: FileOps>(v: Vec<T>) -> (r: Vec<T>)
    ensures
        r@ == dedup_paths(v@),
        unique_paths(r@),
{
    let mut r: Vec<T> = Vec::new();
    let mut i: usize = 0;
    proof {
        assert(v@.subrange(0, 0) =~= Seq::<T>::empty());
    }
    while i < v.len()
        invariant
            i <= v@.len(),
            r@ == dedup_paths(v@.subrange(0, i as int)),
        decreases v@.len() - i,
    {
        let keep = !contains_path(&r, v[i].path());
        if keep {
            r.push(v[i].dup());
        }
        proof {
            let pre = v@.subrange(0, i as int);
            assert(v@.subrange(0, i + 1) =~= pre.push(v@[i as int]));
            assert(v@.subrange(0, i + 1).drop_last() =~= pre);
        }
        i = i + 1;
    }
    proof {
        assert(v@.subrange(0, v@.len() as int) =~= v@);
        lemma_dedup_paths_unique(v@);
    }
    r
}

/// Looks for an entry with the same key as `x` in `v`.
pub fn contains_entry<T: FileOps>(v: &Vec<T>, x: &T) -> (r: bool)
    ensures
        r == entry_in(v@, x@),
{
    let mut i: usize = 0;
    while i < v.len()
        invariant
            i <= v@.len(),
            forall|k: int| 0 <= k < i ==> #[trigger] v@[k]@ != x@,
        decreases v@.len() - i,
    {
        if v[i].same_entry(x) {
            assert(v@[i as int]@ == x@);
            return true;
        }
        i = i + 1;
    }
    false
}

/// Looks for an entry whose relative path is `p` in `v`.
pub fn contains_path<T: FileOps>(v: &Vec<T>, p: &String) -> (r: bool)
    ensures
        r == path_in(v@, p@),
{
    let mut i: usize = 0;
    while i < v.len()
        invariant
            i <= v@.len(),
            forall|k: int| 0 <= k < i ==> #[trigger] v@[k].rel_path() != p@,
        decreases v@.len() - i,
    {
        if *v[i].path() == *p {
            assert(v@[i as int].rel_path() == p@);
            return true;
        }
        i = i + 1;
    }
    false
}

/// The entries of `a` whose key is absent from `b`: what must be created
/// when `a` is the source, or deleted when `a` is the destination.
pub fn difference<T: FileOps>(a: &Vec<T>, b: &Vec<T>) -> (r: Vec<T>)
    ensures
        r@ == minus_seq(a@, b@),
{
    let mut r: Vec<T> = Vec::new();
    let mut i: usize = 0;
    proof {
        reveal(Seq::filter);
        assert(a@.subrange(0, 0) =~= Seq::<T>::empty());
        assert(minus_seq(a@.subrange(0, 0), b@) =~= Seq::<T>::empty());
    }
    while i < a.len()
        invariant
            i <= a@.len(),
            r@ == minus_seq(a@.subrange(0, i as int), b@),
        decreases a@.len() - i,
    {
        let keep = !contains_entry(b, &a[i]);
        if keep {
            r.push(a[i].dup());
        }
        proof {
            assert(a@.subrange(0, i + 1) =~= a@.subrange(0, i as int).push(a@[i as int]));
            lemma_minus_seq_push(a@.subrange(0, i as int), b@, a@[i as int]);
        }
        i = i + 1;
    }
    proof {
        assert(a@.subrange(0, a@.len() as int) =~= a@);
    }
    r
}

/// The entries of `a` whose key is present in `b`: the candidates for
/// content comparison.
pub fn intersection<T: FileOps>(a: &Vec<T>, b: &Vec<T>) -> (r: Vec<T>)
    ensures
        r@ == inter_seq(a@, b@),
{
    let mut r: Vec<T> = Vec::new();
    let mut i: usize = 0;
    proof {
        reveal(Seq::filter);
        assert(a@.subrange(0, 0) =~= Seq::<T>::empty());
        assert(inter_seq(a@.subrange(0, 0), b@) =~= Seq::<T>::empty());
    }
    while i < a.len()
        invariant
            i <= a@.len(),
            r@ == inter_seq(a@.subrange(0, i as int), b@),
        decreases a@.len() - i,
    {
        let keep = contains_entry(b, &a[i]);
        if keep {
            r.push(a[i].dup());
        }
        proof {
            assert(a@.subrange(0, i + 1) =~= a@.subrange(0, i as int).push(a@[i as int]));
            lemma_inter_seq_push(a@.subrange(0, i as int), b@, a@[i as int]);
        }
        i = i + 1;
    }
    proof {
        assert(a@.subrange(0, a@.len() as int) =~= a@);
    }
    r
}

/// An identical copy of a whole collection.
pub fn dup_entries<T: FileOps>(v: &Vec<T>) -> (r: Vec<T>)
    ensures
        r@ == v@,
{
    let mut r: Vec<T> = Vec::new();
    let mut i: usize = 0;
    while i < v.len()
        invariant
            i <= v@.len(),
            r@ == v@.subrange(0, i as int),
        decreases v@.len() - i,
    {
        r.push(v[i].dup());
        proof {
            assert(v@.subrange(0, i + 1) =~= v@.subrange(0, i as int).push(v@[i as int]));
        }
        i = i + 1;
    }
    proof {
        assert(v@.subrange(0, v@.len() as int) =~= v@);
    }
    r
}

} // verus!
