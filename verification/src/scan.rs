//! Which paths a drop, a command line or a chosen folder hands on for
//! counting.

use vstd::prelude::*;
use crate::app::ext_view;
use crate::formats::{extension_counts, extension_is_counted};

verus! {

/// One entry met while walking a folder tree: its path, whether it is a
/// regular file, and its extension.
pub struct WalkEntry {
    pub path: String,
    pub is_file: bool,
    pub extension: Option<String>,
}

/// What one path handed in turned out to be.
pub enum ArgTarget {
    /// A folder, with the entries met walking it.
    Directory(Vec<WalkEntry>),
    /// A regular file.
    File(String),
    /// Neither (missing, or another kind of entry).
    Other,
}

/// The paths of the counted files among the entries of a walk, in walk order.
pub open spec fn walk_files(entries: Seq<WalkEntry>) -> Seq<Seq<char>>
    decreases entries.len(),
{
    if entries.len() == 0 {
        Seq::empty()
    } else {
        let prev = walk_files(entries.drop_last());
        let e = entries.last();
        if e.is_file && extension_counts(ext_view(e.extension)) {
            prev.push(e.path@)
        } else {
            prev
        }
    }
}

/// The paths a target hands on: the counted files of a folder, a file itself,
/// nothing else.
pub open spec fn target_paths(t: ArgTarget) -> Seq<Seq<char>> {
    match t {
        ArgTarget::Directory(entries) => walk_files(entries@),
        ArgTarget::File(p) => seq![p@],
        ArgTarget::Other => Seq::empty(),
    }
}

/// The paths a list of targets hands on, in order.
pub open spec fn targets_paths(ts: Seq<ArgTarget>) -> Seq<Seq<char>>
    decreases ts.len(),
{
    if ts.len() == 0 {
        Seq::empty()
    } else {
        targets_paths(ts.drop_last()) + target_paths(ts.last())
    }
}

/// The views of a list of strings.
pub open spec fn string_views(s: Seq<String>) -> Seq<Seq<char>> {
    s.map_values(|x: String| x@)
}

/// The paths of the counted files met walking a folder.
pub fn files_in_walk(entries: Vec<WalkEntry>) -> (r: Vec<String>)
    ensures
        string_views(r@) == walk_files(entries@),
{
    let ghost orig = entries@;
    let n = entries.len();
    let mut rest = entries;
    let mut out: Vec<String> = Vec::new();
    let mut k: usize = 0;
    assert(orig.take(0) =~= Seq::<WalkEntry>::empty());
    assert(string_views(out@) =~= Seq::<Seq<char>>::empty());
    while k < n
        invariant
            n == orig.len(),
            k <= n,
            rest@ == orig.subrange(k as int, n as int),
            string_views(out@) == walk_files(orig.take(k as int)),
        decreases n - k,
    {
        let e = rest.remove(0);
        assert(e == orig[k as int]);
        assert(orig.take(k + 1).drop_last() =~= orig.take(k as int));
        let ghost prev = string_views(out@);
        if e.is_file && extension_is_counted(&e.extension) {
            out.push(e.path);
            assert(string_views(out@) =~= prev.push(orig[k as int].path@));
        }
        k = k + 1;
        assert(rest@ =~= orig.subrange(k as int, n as int));
    }
    assert(orig.take(n as int) =~= orig);
    out
}

/// The paths handed on by the targets, in order.
pub fn paths_from_targets(targets: Vec<ArgTarget>) -> (r: Vec<String>)
    ensures
        string_views(r@) == targets_paths(targets@),
{
    let ghost orig = targets@;
    let n = targets.len();
    let mut rest = targets;
    let mut out: Vec<String> = Vec::new();
    let mut k: usize = 0;
    assert(orig.take(0) =~= Seq::<ArgTarget>::empty());
    assert(string_views(out@) =~= Seq::<Seq<char>>::empty());
    while k < n
        invariant
            n == orig.len(),
            k <= n,
            rest@ == orig.subrange(k as int, n as int),
            string_views(out@) == targets_paths(orig.take(k as int)),
        decreases n - k,
    {
        let t = rest.remove(0);
        assert(t == orig[k as int]);
        assert(orig.take(k + 1).drop_last() =~= orig.take(k as int));
        let ghost prev = string_views(out@);
        match t {
            ArgTarget::Directory(entries) => {
                let mut found = files_in_walk(entries);
                out.append(&mut found);
            },
            ArgTarget::File(p) => {
                out.push(p);
            },
            ArgTarget::Other => {},
        }
        assert(string_views(out@) =~= prev + target_paths(orig[k as int]));
        k = k + 1;
        assert(rest@ =~= orig.subrange(k as int, n as int));
    }
    assert(orig.take(n as int) =~= orig);
    out
}

} // verus!
