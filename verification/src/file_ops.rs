//! The entry model: one value per filesystem object, and the collection of
//! entries a tree scan produces.
//!
//! A [`File`] is keyed by its relative path together with its size, a
//! [`Dir`] by its relative path alone, and a [`Symlink`] by its relative
//! path together with its target.  Two files at the same path with different
//! sizes are therefore distinct entries, as are two symlinks with the same
//! path but different targets.  A [`FileSets`] owns one collection of each
//! kind, with no two entries of the same kind sharing a relative path.

use vstd::prelude::*;
use vstd::string::*;
use crate::set_ops::{dedup_entries, dedup_paths, unique_paths};

verus! {

/// The mathematical value of a [`File`]: its relative path and size.
#[verifier::ext_equal]
pub struct FileView {
    pub path: Seq<char>,
    pub size: u64,
}

/// The mathematical value of a [`Dir`]: its relative path.
#[verifier::ext_equal]
pub struct DirView {
    pub path: Seq<char>,
}

/// The mathematical value of a [`Symlink`]: its relative path and the path
/// its target is recorded as, verbatim.
#[verifier::ext_equal]
pub struct SymlinkView {
    pub path: Seq<char>,
    pub target: Seq<char>,
}

/// A single regular file, identified by path relative to a scan root.
#[derive(Debug, PartialEq, Eq)]
pub struct File {
    pub path: String,
    pub size: u64,
}

/// A single directory, identified by path relative to a scan root.
#[derive(Debug, PartialEq, Eq)]
pub struct Dir {
    pub path: String,
}

/// A single symbolic link, identified by path relative to a scan root.
#[derive(Debug, PartialEq, Eq)]
pub struct Symlink {
    pub path: String,
    pub target: String,
}

impl View for File {
    type V = FileView;

    open spec fn view(&self) -> FileView {
        FileView { path: self.path@, size: self.size }
    }
}

impl View for Dir {
    type V = DirView;

    open spec fn view(&self) -> DirView {
        DirView { path: self.path@ }
    }
}

impl View for Symlink {
    type V = SymlinkView;

    open spec fn view(&self) -> SymlinkView {
        SymlinkView { path: self.path@, target: self.target@ }
    }
}

/// Interface of all entry kinds: every entry exposes its relative path, can
/// be compared with another entry of the same kind by key, and can be
/// duplicated.  Equality of the keys is equality of the views, so a file's
/// key involves its size and a symlink's key involves its target.
pub trait FileOps: View + Sized {
    /// The relative path of the entry, as a mathematical value.
    spec fn rel_path(&self) -> Seq<char>;

    /// An entry's view determines its relative path.
    proof fn lemma_rel_path_of_view(&self, other: &Self)
        requires
            self@ == other@,
        ensures
            self.rel_path() == other.rel_path(),
    ;

    /// The relative path of the entry.
    fn path(&self) -> (p: &String)
        ensures
            p@ == self.rel_path(),
    ;

    /// Whether the two entries have the same key.
    fn same_entry(&self, other: &Self) -> (r: bool)
        ensures
            r == (self@ == other@),
    ;

    /// An identical copy of the entry.
    fn dup(&self) -> (r: Self)
        ensures
            r == *self,
    ;
}

impl FileOps for File {
    open spec fn rel_path(&self) -> Seq<char> {
        self.path@
    }

    proof fn lemma_rel_path_of_view(&self, other: &Self) {
    }

    fn path(&self) -> (p: &String) {
        &self.path
    }

    fn same_entry(&self, other: &Self) -> (r: bool) {
        self.path == other.path && self.size == other.size
    }

    fn dup(&self) -> (r: Self) {
        File { path: self.path.clone(), size: self.size }
    }
}

impl FileOps for Dir {
    open spec fn rel_path(&self) -> Seq<char> {
        self.path@
    }

    proof fn lemma_rel_path_of_view(&self, other: &Self) {
    }

    fn path(&self) -> (p: &String) {
        &self.path
    }

    fn same_entry(&self, other: &Self) -> (r: bool) {
        self.path == other.path
    }

    fn dup(&self) -> (r: Self) {
        Dir { path: self.path.clone() }
    }
}

impl FileOps for Symlink {
    open spec fn rel_path(&self) -> Seq<char> {
        self.path@
    }

    proof fn lemma_rel_path_of_view(&self, other: &Self) {
    }

    fn path(&self) -> (p: &String) {
        &self.path
    }

    fn same_entry(&self, other: &Self) -> (r: bool) {
        self.path == other.path && self.target == other.target
    }

    fn dup(&self) -> (r: Self) {
        Symlink { path: self.path.clone(), target: self.target.clone() }
    }
}

impl File {
    /// Builds a file entry from its relative path and size.
    pub fn from(path: &str, size: u64) -> (r: Self)
        ensures
            r@ == (FileView { path: path@, size }),
    {
        File { path: String::from_str(path), size }
    }

    /// The size the file had when it was scanned.
    pub fn size(&self) -> (s: u64)
        ensures
            s == self@.size,
    {
        self.size
    }
}

impl Dir {
    /// Builds a directory entry from its relative path.
    pub fn from(dir: &str) -> (r: Self)
        ensures
            r@ == (DirView { path: dir@ }),
    {
        Dir { path: String::from_str(dir) }
    }
}

impl Symlink {
    /// Builds a symlink entry from its relative path and its target path.
    pub fn from(path: &str, target: &str) -> (r: Self)
        ensures
            r@ == (SymlinkView { path: path@, target: target@ }),
    {
        Symlink { path: String::from_str(path), target: String::from_str(target) }
    }

    /// The path the symlink points at.
    pub fn target(&self) -> (t: &String)
        ensures
            t@ == self@.target,
    {
        &self.target
    }
}

/// The outcome of scanning one root: the files, directories and symlinks
/// found below it, each keyed by path relative to that root.  Within each of
/// the three collections no two entries share a relative path.
#[derive(Debug, PartialEq, Eq)]
pub struct FileSets {
    pub files: Vec<File>,
    pub dirs: Vec<Dir>,
    pub symlinks: Vec<Symlink>,
}

impl FileSets {
    /// The invariant of a scanned collection: within each entry kind,
    /// relative paths are unique.
    pub open spec fn wf(&self) -> bool {
        &&& unique_paths(self.files@)
        &&& unique_paths(self.dirs@)
        &&& unique_paths(self.symlinks@)
    }

    /// Builds a collection from the given entries, keeping the first entry
    /// at each relative path and dropping later repetitions, so that the
    /// collection's invariant holds however the entries were gathered.
    pub fn with(files: Vec<File>, dirs: Vec<Dir>, symlinks: Vec<Symlink>) -> (r: FileSets)
        ensures
            r.files@ == dedup_paths(files@),
            r.dirs@ == dedup_paths(dirs@),
            r.symlinks@ == dedup_paths(symlinks@),
            r.wf(),
    {
        FileSets {
            files: dedup_entries(files),
            dirs: dedup_entries(dirs),
            symlinks: dedup_entries(symlinks),
        }
    }

    /// The set of files.
    pub fn files(&self) -> (r: &Vec<File>)
        ensures
            r@ == self.files@,
    {
        &self.files
    }

    /// The set of directories.
    pub fn dirs(&self) -> (r: &Vec<Dir>)
        ensures
            r@ == self.dirs@,
    {
        &self.dirs
    }

    /// The set of symlinks.
    pub fn symlinks(&self) -> (r: &Vec<Symlink>)
        ensures
            r@ == self.symlinks@,
    {
        &self.symlinks
    }

    /// How many entries the collection holds in all, saturating at the
    /// largest representable count.
    pub fn total_entries(&self) -> (n: u64)
        ensures
            n == spec_sat_add_u64(
                spec_sat_add_u64(self.files@.len(), self.dirs@.len()) as nat,
                self.symlinks@.len(),
            ),
    {
        let a = sat_add_u64(self.files.len() as u64, self.dirs.len() as u64);
        sat_add_u64(a, self.symlinks.len() as u64)
    }
}

/// The sum of two counts, saturating at the largest representable value.
pub open spec fn spec_sat_add_u64(a: nat, b: nat) -> u64 {
    if a + b <= u64::MAX {
        (a + b) as u64
    } else {
        u64::MAX
    }
}

/// Adds two counts, saturating at the largest representable value.
pub fn sat_add_u64(a: u64, b: u64) -> (r: u64)
    ensures
        r == spec_sat_add_u64(a as nat, b as nat),
{
    if a <= u64::MAX - b {
        a + b
    } else {
        u64::MAX
    }
}

} // verus!
