//! The three operations: synchronize, copy, remove.
//!
//! Each operation turns scanned entry collections into a plan: the exact
//! partitions of entries to delete, create and compare, with directory
//! deletions already in the order they must run.  Executing a plan's
//! phases in their stated order against the filesystem realizes the
//! operation; the phases hold plain entry values, so the executor needs no
//! further decisions beyond the per-file content comparison.

use vstd::prelude::*;
use crate::file_ops::{Dir, File, FileOps, FileSets, Symlink};
use crate::parse::Flag;
use crate::set_ops::{
    difference, dup_entries, entry_in, inter_seq, intersection, lemma_inter_seq_all_in,
    lemma_inter_seq_in, lemma_minus_seq_all_in, lemma_minus_seq_in, minus_seq, unique_paths,
    view_set,
};
use crate::sort::{sort_files, sorted_by_depth_desc};
use crate::paths::depth_of;

verus! {

broadcast use vstd::seq_lib::group_to_multiset_ensures;

/// The plan of one synchronization, to be executed field by field in
/// declaration order: symlink and file deletions first (unordered), then
/// directory creations, symlink creations and file copies (unordered, but
/// directories before the entries that land inside them), then content
/// comparisons, and the directory deletions strictly last and strictly in
/// the given sequence.
pub struct SyncPlan {
    /// Symlinks present only in the destination; deleted, unordered.
    pub delete_symlinks: Vec<Symlink>,
    /// Files present only in the destination; deleted, unordered.
    pub delete_files: Vec<File>,
    /// Directories present only in the source; created, unordered.
    pub create_dirs: Vec<Dir>,
    /// Symlinks present only in the source; created, unordered.
    pub create_symlinks: Vec<Symlink>,
    /// Files present only in the source; copied, unordered.
    pub copy_files: Vec<File>,
    /// Files present in both trees; compared by content and copied on a
    /// mismatch, unordered.
    pub compare_files: Vec<File>,
    /// Directories present only in the destination; deleted strictly in
    /// the given order, deepest first, after every other phase.
    pub delete_dirs: Vec<Dir>,
}

/// Plans the synchronization of `dest` with `src`: deletions of
/// destination-only entries (unless `NoDelete` is set), creations of
/// source-only entries, and content comparison of the files common to
/// both, with destination-only directories ordered deepest first for the
/// final sequential deletion pass.
pub fn synchronize(src: &FileSets, dest: &FileSets, flags: &Vec<Flag>) -> (plan: SyncPlan)
    ensures
        ({
            let nd = flags@.contains(Flag::NoDelete);
            &&& plan.delete_symlinks@ == (if nd {
                Seq::<Symlink>::empty()
            } else {
                minus_seq(dest.symlinks@, src.symlinks@)
            })
            &&& plan.delete_files@ == (if nd {
                Seq::<File>::empty()
            } else {
                minus_seq(dest.files@, src.files@)
            })
            &&& plan.create_dirs@ == minus_seq(src.dirs@, dest.dirs@)
            &&& plan.create_symlinks@ == minus_seq(src.symlinks@, dest.symlinks@)
            &&& plan.copy_files@ == minus_seq(src.files@, dest.files@)
            &&& plan.compare_files@ == inter_seq(src.files@, dest.files@)
            &&& plan.delete_dirs@.to_multiset() == (if nd {
                Seq::<Dir>::empty()
            } else {
                minus_seq(dest.dirs@, src.dirs@)
            }).to_multiset()
            &&& sorted_by_depth_desc(plan.delete_dirs@)
        }),
{
    let no_delete = crate::parse::has_flag(flags, Flag::NoDelete);
    let delete_symlinks: Vec<Symlink> = if no_delete {
        Vec::new()
    } else {
        difference(&dest.symlinks, &src.symlinks)
    };
    let delete_files: Vec<File> = if no_delete {
        Vec::new()
    } else {
        difference(&dest.files, &src.files)
    };
    let create_dirs = difference(&src.dirs, &dest.dirs);
    let create_symlinks = difference(&src.symlinks, &dest.symlinks);
    let copy_files = difference(&src.files, &dest.files);
    let compare_files = intersection(&src.files, &dest.files);
    let delete_dirs: Vec<Dir> = if no_delete {
        Vec::new()
    } else {
        sort_files(difference(&dest.dirs, &src.dirs))
    };
    SyncPlan {
        delete_symlinks,
        delete_files,
        create_dirs,
        create_symlinks,
        copy_files,
        compare_files,
        delete_dirs,
    }
}

/// The plan of one recursive copy, to be executed field by field in
/// declaration order: directories are created first so that the symlinks
/// and files copied afterwards have somewhere to land.
pub struct CopyPlan {
    /// Every scanned directory; created, unordered.
    pub dirs: Vec<Dir>,
    /// Every scanned symlink; created, unordered.
    pub symlinks: Vec<Symlink>,
    /// Every scanned file; copied, unordered.
    pub files: Vec<File>,
}

/// Plans the copy of everything scanned under `src`: with no destination
/// state to reconcile against, every entry counts as new.
pub fn copy(src: &FileSets, _flags: &Vec<Flag>) -> (plan: CopyPlan)
    ensures
        plan.dirs@ == src.dirs@,
        plan.symlinks@ == src.symlinks@,
        plan.files@ == src.files@,
{
    CopyPlan {
        dirs: dup_entries(&src.dirs),
        symlinks: dup_entries(&src.symlinks),
        files: dup_entries(&src.files),
    }
}

/// The plan of one recursive removal, to be executed field by field in
/// declaration order: files and symlinks go first (unordered), then the
/// directories strictly in the given sequence.
pub struct RemovePlan {
    /// Every scanned file; deleted, unordered.
    pub files: Vec<File>,
    /// Every scanned symlink; deleted, unordered.
    pub symlinks: Vec<Symlink>,
    /// Every scanned directory, deepest first, and the scan root itself —
    /// as the entry with the empty relative path — last of all; deleted
    /// strictly in the given order.
    pub dirs: Vec<Dir>,
}

/// Plans the removal of everything under `target`, and of `target` itself:
/// all files and symlinks, then the directories deepest first, and the
/// root as the final operation.
pub fn remove(target: &FileSets, _flags: &Vec<Flag>) -> (plan: RemovePlan)
    ensures
        plan.files@ == target.files@,
        plan.symlinks@ == target.symlinks@,
        plan.dirs@.len() == target.dirs@.len() + 1,
        plan.dirs@.last().rel_path() == Seq::<char>::empty(),
        plan.dirs@.drop_last().to_multiset() == target.dirs@.to_multiset(),
        sorted_by_depth_desc(plan.dirs@),
{
    let files = dup_entries(&target.files);
    let symlinks = dup_entries(&target.symlinks);
    let sorted = sort_files(dup_entries(&target.dirs));
    let ghost sorted_view = sorted@;
    let mut dirs = sorted;
    let root = Dir::from("");
    dirs.push(root);
    proof {
        assert(sorted_view.to_multiset().len() == sorted_view.len());
        assert(target.dirs@.to_multiset().len() == target.dirs@.len());
        reveal_strlit("");
        assert(dirs@.last().rel_path() =~= Seq::<char>::empty());
        assert(depth_of(dirs@.last().rel_path()) == 0);
        assert(dirs@.drop_last() =~= sorted_view);
        assert forall|i: int, j: int| 0 <= i < j < dirs@.len() implies #[trigger] depth_of(
            dirs@[i].rel_path(),
        ) >= #[trigger] depth_of(dirs@[j].rel_path()) by {
            if j < dirs@.len() - 1 {
                assert(depth_of(sorted_view[i].rel_path()) >= depth_of(sorted_view[j].rel_path()));
            }
        }
    }
    RemovePlan { files, symlinks, dirs }
}

/// Idempotence: synchronizing a destination that already holds exactly the
/// source's entries plans no deletion and no creation; every entry merely
/// falls into the comparison partition, where identical contents are
/// re-verified as the same.
pub proof fn lemma_synchronize_idempotent<T: View>(s: Seq<T>, d: Seq<T>)
    requires
        forall|v: T::V| entry_in(s, v) <==> entry_in(d, v),
    ensures
        minus_seq(d, s) == Seq::<T>::empty(),
        minus_seq(s, d) == Seq::<T>::empty(),
        inter_seq(s, d) == s,
        inter_seq(d, s) == d,
{
    assert forall|i: int| 0 <= i < d.len() implies entry_in(s, #[trigger] d[i]@) by {
        assert(entry_in(d, d[i]@));
    }
    assert forall|i: int| 0 <= i < s.len() implies entry_in(d, #[trigger] s[i]@) by {
        assert(entry_in(s, s[i]@));
    }
    lemma_minus_seq_all_in(d, s);
    lemma_minus_seq_all_in(s, d);
    lemma_inter_seq_all_in(s, d);
    lemma_inter_seq_all_in(d, s);
}

/// Convergence: whatever initial states the two trees are in, the
/// destination entries that survive the deletion partition, together with
/// the source entries planned for creation, form exactly the source's
/// entry set.
pub proof fn lemma_synchronize_converges<T: View>(s: Seq<T>, d: Seq<T>)
    ensures
        view_set(d).difference(view_set(minus_seq(d, s))).union(view_set(minus_seq(s, d)))
            == view_set(s),
{
    let result = view_set(d).difference(view_set(minus_seq(d, s))).union(
        view_set(minus_seq(s, d)),
    );
    assert forall|v: T::V| result.contains(v) <==> view_set(s).contains(v) by {
        lemma_minus_seq_in(d, s, v);
        lemma_minus_seq_in(s, d, v);
    }
    assert(result =~= view_set(s));
}

/// A symlink at the same relative path but with a changed target is two
/// distinct entries: the source's is planned for creation and the
/// destination's for deletion, and neither is in a comparison partition —
/// a symlink is never edited in place.
pub proof fn lemma_symlink_target_change(s: Seq<Symlink>, d: Seq<Symlink>, i: int, j: int)
    requires
        unique_paths(s),
        unique_paths(d),
        0 <= i < s.len(),
        0 <= j < d.len(),
        s[i]@.path == d[j]@.path,
        s[i]@.target != d[j]@.target,
    ensures
        entry_in(minus_seq(s, d), s[i]@),
        entry_in(minus_seq(d, s), d[j]@),
        !entry_in(inter_seq(s, d), s[i]@),
        !entry_in(inter_seq(d, s), d[j]@),
{
    assert(!entry_in(d, s[i]@)) by {
        if entry_in(d, s[i]@) {
            let k = choose|k: int| 0 <= k < d.len() && #[trigger] d[k]@ == s[i]@;
            assert(d[k]@.target == s[i]@.target);
            assert(k != j);
            assert(d[k].rel_path() == d[k]@.path);
            assert(d[j].rel_path() == d[j]@.path);
            assert(d[k].rel_path() == d[j].rel_path());
            assert(false);
        }
    }
    assert(!entry_in(s, d[j]@)) by {
        if entry_in(s, d[j]@) {
            let k = choose|k: int| 0 <= k < s.len() && #[trigger] s[k]@ == d[j]@;
            assert(s[k]@.target == d[j]@.target);
            assert(k != i);
            assert(s[k].rel_path() == s[k]@.path);
            assert(s[i].rel_path() == s[i]@.path);
            assert(s[k].rel_path() == s[i].rel_path());
            assert(false);
        }
    }
    assert(entry_in(s, s[i]@));
    assert(entry_in(d, d[j]@));
    lemma_minus_seq_in(s, d, s[i]@);
    lemma_minus_seq_in(d, s, d[j]@);
    lemma_inter_seq_in(s, d, s[i]@);
    lemma_inter_seq_in(d, s, d[j]@);
}

} // verus!
