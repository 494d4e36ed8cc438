//! Pure operations on slash-separated relative paths.
//!
//! Every entry produced by a tree scan is identified by its path relative to
//! the scan root.  This module defines the depth measure that orders
//! directory deletions, the join operation that resolves a relative path
//! against a root, the prefix stripping that normalizes scanned paths, and
//! the extraction of a path's final component.

use vstd::prelude::*;
use vstd::string::*;

verus! {

/// Position `j` starts a path component of `s`: either it is the first
/// character (a leading separator counts as the root component), or it is a
/// non-separator immediately preceded by a separator.
pub open spec fn comp_start(s: Seq<char>, j: int) -> bool {
    &&& 0 <= j < s.len()
    &&& (j == 0 || (s[j] != '/' && s[j - 1] == '/'))
}

/// Number of component starts among the first `n` characters of `s`.
pub open spec fn depth_prefix(s: Seq<char>, n: int) -> nat
    decreases n,
{
    if n <= 0 {
        0
    } else {
        depth_prefix(s, n - 1) + (if comp_start(s, n - 1) {
            1nat
        } else {
            0nat
        })
    }
}

/// The depth of a path: its number of components.  Consecutive separators
/// collapse, a trailing separator adds nothing, a leading separator counts
/// as one component, and the empty path has depth zero.
pub open spec fn depth_of(s: Seq<char>) -> nat {
    depth_prefix(s, s.len() as int)
}

proof fn lemma_depth_prefix_bound(s: Seq<char>, n: int)
    requires
        0 <= n <= s.len(),
    ensures
        depth_prefix(s, n) <= n,
    decreases n,
{
    if n > 0 {
        lemma_depth_prefix_bound(s, n - 1);
    }
}

/// Counts the components of `path`, as `depth_of` defines them.
pub fn path_depth(path: &str) -> (d: usize)
    ensures
        d == depth_of(path@),
{
    let n = path.unicode_len();
    let mut d: usize = 0;
    let mut i: usize = 0;
    let mut prev: char = '/';
    while i < n
        invariant
            i <= n,
            n == path@.len(),
            d == depth_prefix(path@, i as int),
            d <= i,
            i > 0 ==> prev == path@[i - 1],
        decreases n - i,
    {
        let c = path.get_char(i);
        let start = if i == 0 {
            true
        } else {
            c != '/' && prev == '/'
        };
        if start {
            d = d + 1;
        }
        prev = c;
        i = i + 1;
    }
    proof {
        lemma_depth_prefix_bound(path@, n as int);
    }
    d
}

proof fn lemma_depth_prefix_eq(a: Seq<char>, b: Seq<char>, n: int)
    requires
        0 <= n <= a.len(),
        n <= b.len(),
        forall|j: int| 0 <= j < n ==> a[j] == b[j],
    ensures
        depth_prefix(a, n) == depth_prefix(b, n),
    decreases n,
{
    if n > 0 {
        lemma_depth_prefix_eq(a, b, n - 1);
    }
}

proof fn lemma_depth_prefix_mono(s: Seq<char>, n: int, m: int)
    requires
        0 <= n <= m,
    ensures
        depth_prefix(s, n) <= depth_prefix(s, m),
    decreases m,
{
    if m > n {
        lemma_depth_prefix_mono(s, n, m - 1);
    }
}

proof fn first_non_sep(q: Seq<char>, from: int) -> (k: int)
    requires
        0 <= from < q.len(),
        q.last() != '/',
    ensures
        from <= k < q.len(),
        q[k] != '/',
        forall|j: int| from <= j < k ==> q[j] == '/',
    decreases q.len() - from,
{
    if q[from] != '/' {
        from
    } else {
        first_non_sep(q, from + 1)
    }
}

/// A path that lies strictly below another is strictly deeper, provided it
/// does not end in a separator.  This is why deleting directories in
/// descending depth order can never remove a directory while a directory
/// below it is still waiting to be deleted.
pub proof fn lemma_descendant_deeper(q: Seq<char>, p: Seq<char>)
    requires
        strip_ok(q, p),
        q.last() != '/',
    ensures
        depth_of(q) > depth_of(p),
{
    assert forall|j: int| 0 <= j < p.len() implies q[j] == p[j] by {
        assert(q.subrange(0, p.len() as int)[j] == p[j]);
    }
    lemma_depth_prefix_eq(q, p, p.len() as int);
    let k = first_non_sep(q, p.len() as int);
    assert(comp_start(q, k)) by {
        if k > 0 {
            if k == p.len() {
                // p is nonempty, and since q[p.len()] is no separator the
                // separator demanded by strip_ok is p's own last character.
                assert(q[k - 1] == p[p.len() - 1]);
            } else if k > p.len() {
                // everything between the base and k is a separator
                assert(q[k - 1] == '/');
            }
        }
    }
    assert(depth_prefix(q, k + 1) == depth_prefix(q, k) + 1);
    lemma_depth_prefix_mono(q, p.len() as int, k);
    lemma_depth_prefix_mono(q, k + 1, q.len() as int);
}

/// The result of resolving `rel` against the base directory `base`: the two
/// joined by a single separator, which is not doubled when `base` already
/// ends in one, while an empty `base` leaves `rel` unchanged.
pub open spec fn join_spec(base: Seq<char>, rel: Seq<char>) -> Seq<char> {
    if base.len() == 0 {
        rel
    } else if base.last() == '/' {
        base + rel
    } else {
        base.push('/') + rel
    }
}

/// Resolves the relative path `rel` against the directory `base`.
pub fn join_path(base: &str, rel: &str) -> (r: String)
    ensures
        r@ == join_spec(base@, rel@),
{
    let blen = base.unicode_len();
    if blen == 0 {
        return String::from_str(rel);
    }
    let last = base.get_char(blen - 1);
    let mut r = String::from_str(base);
    if last != '/' {
        r.append("/");
        proof {
            reveal_strlit("/");
            assert(r@ =~= base@.push('/'));
        }
    }
    r.append(rel);
    proof {
        if base@.last() != '/' {
            assert(r@ =~= base@.push('/') + rel@);
        }
    }
    r
}

/// `path` lies strictly below `base`: it strictly extends `base`, with a
/// separator between the two unless `base` is empty or already ends in one,
/// mirroring how `join_spec` inserts a separator.
pub open spec fn strip_ok(path: Seq<char>, base: Seq<char>) -> bool {
    &&& path.len() > base.len()
    &&& path.subrange(0, base.len() as int) == base
    &&& (base.len() == 0 || base.last() == '/' || path[base.len() as int] == '/')
}

/// What remains of `path` once `base`, and the separator after it when one
/// stands there, are removed.
pub open spec fn strip_spec(path: Seq<char>, base: Seq<char>) -> Seq<char> {
    if base.len() == 0 || base.last() == '/' {
        path.subrange(base.len() as int, path.len() as int)
    } else {
        path.subrange(base.len() as int + 1, path.len() as int)
    }
}

/// Removes the prefix `base`, and the separator after it when one stands
/// there, from `path`, giving the path relative to `base`; fails when
/// `path` does not lie below `base`.
pub fn strip_prefix(path: &str, base: &str) -> (r: Option<String>)
    ensures
        (r is Some) == strip_ok(path@, base@),
        r is Some ==> r->Some_0@ == strip_spec(path@, base@),
{
    let plen = path.unicode_len();
    let blen = base.unicode_len();
    if plen <= blen {
        return None;
    }
    let mut i: usize = 0;
    while i < blen
        invariant
            i <= blen,
            blen == base@.len(),
            plen == path@.len(),
            blen < plen,
            forall|k: int| 0 <= k < i ==> path@[k] == base@[k],
        decreases blen - i,
    {
        if path.get_char(i) != base.get_char(i) {
            proof {
                assert(path@.subrange(0, blen as int)[i as int] != base@[i as int]);
            }
            return None;
        }
        i = i + 1;
    }
    proof {
        assert(path@.subrange(0, blen as int) =~= base@);
    }
    let needs_sep = blen > 0 && base.get_char(blen - 1) != '/';
    if needs_sep && path.get_char(blen) != '/' {
        return None;
    }
    let start = if needs_sep {
        blen + 1
    } else {
        blen
    };
    let rest = path.substring_char(start, plen);
    Some(String::from_str(rest))
}

/// Splitting a resolved path at its base gives back the relative part:
/// `strip_prefix` inverts `join_path`.
pub proof fn lemma_strip_of_join(base: Seq<char>, rel: Seq<char>)
    requires
        rel.len() > 0,
    ensures
        strip_ok(join_spec(base, rel), base),
        strip_spec(join_spec(base, rel), base) == rel,
{
    let j = join_spec(base, rel);
    if base.len() == 0 {
        assert(j.subrange(0, 0) =~= base);
        assert(j.subrange(0, j.len() as int) =~= rel);
    } else if base.last() == '/' {
        assert(j.subrange(0, base.len() as int) =~= base);
        assert(j.subrange(base.len() as int, j.len() as int) =~= rel);
    } else {
        assert(j.subrange(0, base.len() as int) =~= base);
        assert(j[base.len() as int] == '/');
        assert(j.subrange(base.len() as int + 1, j.len() as int) =~= rel);
    }
}

/// Rejoining what `strip_prefix` split restores the original path:
/// `join_path` inverts `strip_prefix`.
pub proof fn lemma_join_of_strip(path: Seq<char>, base: Seq<char>)
    requires
        strip_ok(path, base),
    ensures
        join_spec(base, strip_spec(path, base)) == path,
{
    assert forall|j: int| 0 <= j < base.len() implies path[j] == base[j] by {
        assert(path.subrange(0, base.len() as int)[j] == base[j]);
    }
    if base.len() == 0 {
        assert(join_spec(base, strip_spec(path, base)) =~= path);
    } else if base.last() == '/' {
        assert(base + path.subrange(base.len() as int, path.len() as int) =~= path);
    } else {
        assert(base.push('/') + path.subrange(base.len() as int + 1, path.len() as int) =~= path);
    }
}

} // verus!
