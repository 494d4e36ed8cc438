//! The configuration model, and the pure decisions behind command-line
//! handling.
//!
//! The front end reads the actual command line and probes the filesystem;
//! what it decides from those readings is defined here: which operation a
//! subcommand name selects, which flags are in force, and how a copy's
//! destination path is derived from an existing destination directory.

use vstd::prelude::*;
use vstd::string::*;
use crate::paths::{join_path, join_spec};

verus! {

broadcast use vstd::string::group_string_axioms;

/// A behaviour switch, chosen once per invocation and read-only afterwards.
#[derive(PartialEq, Eq, Structural, Clone, Copy, Debug)]
pub enum Flag {
    /// Skip every deletion phase.
    NoDelete,
    /// Compare file contents with the cryptographic digest.
    Secure,
    /// Report each operation to the log sink.
    Verbose,
    /// Run every phase sequentially instead of fanning out.
    Sequential,
}

/// Which of the three operations an invocation asks for.
#[derive(PartialEq, Eq, Structural, Clone, Copy, Debug)]
pub enum SubCommandType {
    Copy,
    Synchronize,
    Remove,
}

/// One parsed subcommand: the source (absent for a removal), the
/// destination or target directories, and the operation to run.
#[derive(Debug)]
pub struct SubCommand {
    pub src: Option<String>,
    pub dest: Vec<String>,
    pub sub_command_type: SubCommandType,
}

/// Everything parsing an invocation yields: the subcommand and the set of
/// flags in force.
#[derive(Debug)]
pub struct ParseResult {
    pub sub_command: SubCommand,
    pub flags: Vec<Flag>,
}

/// The flag set that a choice of the four switches denotes.
pub open spec fn flags_of(verbose: bool, no_delete: bool, secure: bool, sequential: bool) -> Seq<
    Flag,
> {
    (if verbose {
        seq![Flag::Verbose]
    } else {
        Seq::<Flag>::empty()
    }) + (if no_delete {
        seq![Flag::NoDelete]
    } else {
        Seq::<Flag>::empty()
    }) + (if secure {
        seq![Flag::Secure]
    } else {
        Seq::<Flag>::empty()
    }) + (if sequential {
        seq![Flag::Sequential]
    } else {
        Seq::<Flag>::empty()
    })
}

/// Collects the flags whose switches are present on the command line.
pub fn collect_flags(verbose: bool, no_delete: bool, secure: bool, sequential: bool) -> (r: Vec<
    Flag,
>)
    ensures
        r@ == flags_of(verbose, no_delete, secure, sequential),
{
    let mut r: Vec<Flag> = Vec::new();
    if verbose {
        r.push(Flag::Verbose);
    }
    if no_delete {
        r.push(Flag::NoDelete);
    }
    if secure {
        r.push(Flag::Secure);
    }
    if sequential {
        r.push(Flag::Sequential);
    }
    proof {
        assert(r@ =~= flags_of(verbose, no_delete, secure, sequential));
    }
    r
}

/// Looks a flag up in a flag set.
pub fn has_flag(flags: &Vec<Flag>, flag: Flag) -> (r: bool)
    ensures
        r == flags@.contains(flag),
{
    let mut i: usize = 0;
    while i < flags.len()
        invariant
            i <= flags@.len(),
            forall|k: int| 0 <= k < i ==> flags@[k] != flag,
        decreases flags@.len() - i,
    {
        if flags[i] == flag {
            assert(flags@[i as int] == flag);
            return true;
        }
        i = i + 1;
    }
    false
}

/// Maps a subcommand name to the operation it selects.
pub fn classify_subcommand(name: &str) -> (r: Option<SubCommandType>)
    ensures
        name@ == "cp"@ ==> r == Some(SubCommandType::Copy),
        name@ == "rm"@ ==> r == Some(SubCommandType::Remove),
        name@ == "sync"@ ==> r == Some(SubCommandType::Synchronize),
        name@ != "cp"@ && name@ != "rm"@ && name@ != "sync"@ ==> r is None,
{
    proof {
        reveal_strlit("cp");
        reveal_strlit("rm");
        reveal_strlit("sync");
        assert("cp"@.len() == 2 && "rm"@.len() == 2 && "sync"@.len() == 4);
        assert("cp"@[0] == 'c' && "rm"@[0] == 'r');
        assert("cp"@ != "rm"@ && "cp"@ != "sync"@ && "rm"@ != "sync"@);
    }
    let n = String::from_str(name);
    if n == String::from_str("cp") {
        Some(SubCommandType::Copy)
    } else if n == String::from_str("rm") {
        Some(SubCommandType::Remove)
    } else if n == String::from_str("sync") {
        Some(SubCommandType::Synchronize)
    } else {
        None
    }
}

/// The destination a copy resolves to: when the named destination already
/// exists, the source directory's last path component is appended to it, so
/// copying `a/b` into an existing `c` lands in `c/b`; otherwise the named
/// destination is used as is.  When the source has no usable last component
/// the named destination is also used as is.
pub open spec fn copy_dest_spec(src: Seq<char>, dest: Seq<char>, dest_exists: bool) -> Seq<char> {
    if dest_exists {
        match file_name_spec(src) {
            Some(name) => join_spec(dest, name),
            None => dest,
        }
    } else {
        dest
    }
}

/// The last path component of `s`: trailing separators are ignored, and a
/// path whose last component is empty, `.` or `..` has none.
pub open spec fn file_name_spec(s: Seq<char>) -> Option<Seq<char>> {
    let t = trim_trailing_seps(s);
    let c = tail_component(t);
    if c.len() == 0 || c == seq!['.'] || c == seq!['.', '.'] {
        None
    } else {
        Some(c)
    }
}

/// `s` with every trailing separator removed.
pub open spec fn trim_trailing_seps(s: Seq<char>) -> Seq<char>
    decreases s.len(),
{
    if s.len() > 0 && s.last() == '/' {
        trim_trailing_seps(s.drop_last())
    } else {
        s
    }
}

/// The suffix of `s` after its last separator (all of `s` when it has
/// none).
pub open spec fn tail_component(s: Seq<char>) -> Seq<char>
    decreases s.len(),
{
    if s.len() == 0 || s.last() == '/' {
        Seq::<char>::empty()
    } else {
        tail_component(s.drop_last()).push(s.last())
    }
}

proof fn lemma_trim_prefix(s: Seq<char>, end: int)
    requires
        0 <= end <= s.len(),
        forall|k: int| end <= k < s.len() ==> s[k] == '/',
    ensures
        trim_trailing_seps(s) == trim_trailing_seps(s.subrange(0, end)),
    decreases s.len() - end,
{
    if end < s.len() {
        assert(s.last() == '/');
        assert(s.drop_last() =~= s.subrange(0, s.len() - 1));
        lemma_trim_prefix(s.subrange(0, s.len() - 1), end);
        assert(s.subrange(0, s.len() - 1).subrange(0, end) =~= s.subrange(0, end));
    } else {
        assert(s.subrange(0, end) =~= s);
    }
}

proof fn lemma_tail_component_flat(t: Seq<char>, start: int)
    requires
        0 <= start <= t.len(),
        forall|k: int| start <= k < t.len() ==> t[k] != '/',
        start > 0 ==> t[start - 1] == '/',
    ensures
        tail_component(t) == t.subrange(start, t.len() as int),
    decreases t.len() - start,
{
    if t.len() == start {
        if start > 0 {
            assert(t.last() == '/');
        }
        assert(t.subrange(start, t.len() as int) =~= Seq::<char>::empty());
    } else {
        assert(t.last() != '/');
        assert(t.drop_last() =~= t.subrange(0, t.len() - 1));
        lemma_tail_component_flat(t.subrange(0, t.len() - 1), start);
        assert(t.subrange(0, t.len() - 1).subrange(start, t.len() - 1) =~= t.subrange(
            start,
            t.len() - 1,
        ));
        assert(t.subrange(start, t.len() - 1).push(t.last()) =~= t.subrange(start, t.len() as int));
    }
}

/// Extracts the last path component of `path`, as `file_name_spec` defines
/// it.
pub fn file_name(path: &str) -> (r: Option<String>)
    ensures
        (r is Some) == (file_name_spec(path@) is Some),
        r is Some ==> r->Some_0@ == file_name_spec(path@)->Some_0,
{
    let n = path.unicode_len();
    let mut end: usize = n;
    while end > 0 && path.get_char(end - 1) == '/'
        invariant
            end <= n,
            n == path@.len(),
            forall|k: int| end <= k < n ==> path@[k] == '/',
        decreases end,
    {
        end = end - 1;
    }
    proof {
        lemma_trim_prefix(path@, end as int);
    }
    let mut start: usize = end;
    while start > 0 && path.get_char(start - 1) != '/'
        invariant
            start <= end <= n,
            n == path@.len(),
            forall|k: int| start <= k < end ==> path@[k] != '/',
        decreases start,
    {
        start = start - 1;
    }
    let ghost t = path@.subrange(0, end as int);
    proof {
        assert forall|k: int| start <= k < t.len() implies t[k] != '/' by {
            assert(t[k] == path@[k]);
        }
        if start > 0 {
            assert(t[start - 1] == path@[start - 1]);
        }
        lemma_tail_component_flat(t, start as int);
        assert(t.subrange(start as int, t.len() as int) =~= path@.subrange(
            start as int,
            end as int,
        ));
    }
    let c = path.substring_char(start, end);
    proof {
        reveal_strlit(".");
        reveal_strlit("..");
    }
    if c.unicode_len() == 0 {
        return None;
    }
    let cs = String::from_str(c);
    if cs == String::from_str(".") {
        proof {
            assert(c@ =~= seq!['.']);
        }
        return None;
    }
    if cs == String::from_str("..") {
        proof {
            assert(c@ =~= seq!['.', '.']);
        }
        return None;
    }
    proof {
        if c@ == seq!['.'] {
            assert(c@ =~= "."@);
        }
        if c@ == seq!['.', '.'] {
            assert(c@ =~= ".."@);
        }
    }
    Some(cs)
}

/// Resolves the destination of a copy, as `copy_dest_spec` defines it.
pub fn derive_copy_dest(src: &str, dest: &str, dest_exists: bool) -> (r: String)
    ensures
        r@ == copy_dest_spec(src@, dest@, dest_exists),
{
    if !dest_exists {
        return String::from_str(dest);
    }
    match file_name(src) {
        Some(name) => join_path(dest, name.as_str()),
        None => String::from_str(dest),
    }
}

/// The targets kept for a removal: those the filesystem reports as
/// directories, in their given order.  `probed[i]` records whether
/// `targets[i]` is a directory.
pub open spec fn kept_targets(targets: Seq<String>, probed: Seq<bool>) -> Seq<String>
    decreases targets.len(),
{
    if targets.len() == 0 || probed.len() < targets.len() {
        Seq::<String>::empty()
    } else {
        let rest = kept_targets(targets.drop_last(), probed.subrange(0, targets.len() - 1));
        if probed[targets.len() - 1] {
            rest.push(targets.last())
        } else {
            rest
        }
    }
}

/// Keeps the removal targets that validated as directories, dropping the
/// rest.
pub fn retain_valid_targets(targets: &Vec<String>, probed: &Vec<bool>) -> (r: Vec<String>)
    requires
        targets@.len() == probed@.len(),
    ensures
        r@ == kept_targets(targets@, probed@),
{
    let mut r: Vec<String> = Vec::new();
    let mut i: usize = 0;
    proof {
        assert(targets@.subrange(0, 0) =~= Seq::<String>::empty());
    }
    while i < targets.len()
        invariant
            i <= targets@.len(),
            targets@.len() == probed@.len(),
            r@ == kept_targets(targets@.subrange(0, i as int), probed@.subrange(0, i as int)),
        decreases targets@.len() - i,
    {
        if probed[i] {
            r.push(targets[i].clone());
        }
        proof {
            let tp = targets@.subrange(0, i + 1);
            let pp = probed@.subrange(0, i + 1);
            assert(tp.drop_last() =~= targets@.subrange(0, i as int));
            assert(pp.subrange(0, tp.len() - 1) =~= probed@.subrange(0, i as int));
        }
        i = i + 1;
    }
    proof {
        assert(targets@.subrange(0, targets@.len() as int) =~= targets@);
        assert(probed@.subrange(0, probed@.len() as int) =~= probed@);
    }
    r
}

} // verus!
