//! Facts about lists of files: their total running time, the paths they hold,
//! and how the listing order keeps both.

use vstd::prelude::*;
use crate::audio::{AudioFileInfo, FileView, views};
use crate::duration::{Duration, max_nanos};
use crate::order::{insert_pos, sort_by_name, sort_key, lemma_insert_pos_bound};

verus! {

/// The total running time of the files, in nanoseconds.
pub open spec fn sum_nanos(s: Seq<FileView>) -> nat
    decreases s.len(),
{
    if s.len() == 0 {
        0
    } else {
        sum_nanos(s.drop_last()) + s.last().nanos
    }
}

/// Whether a file with path `p` is in the list.
pub open spec fn has_path(s: Seq<FileView>, p: Seq<char>) -> bool {
    exists|i: int| 0 <= i < s.len() && #[trigger] s[i].path == p
}

/// Whether no path is listed twice.
pub open spec fn distinct_paths(s: Seq<FileView>) -> bool {
    forall|i: int, j: int| 0 <= i < s.len() && 0 <= j < s.len() && i != j ==> s[i].path != s[j].path
}

/// The total of a prefix is at most the total.
pub proof fn lemma_sum_prefix(s: Seq<FileView>, k: int)
    requires
        0 <= k <= s.len(),
    ensures
        sum_nanos(s.take(k)) <= sum_nanos(s),
    decreases s.len(),
{
    if k < s.len() {
        lemma_sum_prefix(s.drop_last(), k);
        assert(s.drop_last().take(k) =~= s.take(k));
    } else {
        assert(s.take(k) =~= s);
    }
}

/// The total of a prefix one longer adds the next file.
pub proof fn lemma_sum_take_next(s: Seq<FileView>, k: int)
    requires
        0 <= k < s.len(),
    ensures
        sum_nanos(s.take(k + 1)) == sum_nanos(s.take(k)) + s[k].nanos,
{
    assert(s.take(k + 1).drop_last() =~= s.take(k));
}

/// The total of two lists joined is the sum of their totals.
pub proof fn lemma_sum_concat(a: Seq<FileView>, b: Seq<FileView>)
    ensures
        sum_nanos(a + b) == sum_nanos(a) + sum_nanos(b),
    decreases b.len(),
{
    if b.len() == 0 {
        assert(a + b =~= a);
    } else {
        lemma_sum_concat(a, b.drop_last());
        assert((a + b).drop_last() =~= a + b.drop_last());
    }
}

/// Putting a file anywhere in a list adds its running time to the total.
pub proof fn lemma_sum_insert(s: Seq<FileView>, p: int, f: FileView)
    requires
        0 <= p <= s.len(),
    ensures
        sum_nanos(s.insert(p, f)) == sum_nanos(s) + f.nanos,
    decreases s.len(),
{
    if p == s.len() {
        assert(s.insert(p, f) =~= s.push(f));
        assert(s.push(f).drop_last() =~= s);
    } else {
        lemma_sum_insert(s.drop_last(), p, f);
        assert(s.insert(p, f).drop_last() =~= s.drop_last().insert(p, f));
    }
}

/// Listing order does not change the total.
pub proof fn lemma_sort_keeps_sum(s: Seq<FileView>)
    ensures
        sum_nanos(sort_by_name(s)) == sum_nanos(s),
    decreases s.len(),
{
    if s.len() > 0 {
        lemma_sort_keeps_sum(s.drop_last());
        let st = sort_by_name(s.drop_last());
        lemma_insert_pos_bound(st, sort_key(s.last()));
        lemma_sum_insert(st, insert_pos(st, sort_key(s.last())) as int, s.last());
    }
}

/// Listing order holds exactly the files of the input.
pub proof fn lemma_sort_keeps_members(s: Seq<FileView>)
    ensures
        sort_by_name(s).len() == s.len(),
        forall|x: FileView| sort_by_name(s).contains(x) <==> s.contains(x),
    decreases s.len(),
{
    if s.len() > 0 {
        let t = s.drop_last();
        lemma_sort_keeps_members(t);
        let st = sort_by_name(t);
        let p = insert_pos(st, sort_key(s.last())) as int;
        lemma_insert_pos_bound(st, sort_key(s.last()));
        let r = st.insert(p, s.last());
        assert forall|x: FileView| r.contains(x) <==> s.contains(x) by {
            if r.contains(x) {
                let i = choose|i: int| 0 <= i < r.len() && r[i] == x;
                if i < p {
                    assert(st[i] == x);
                    assert(st.contains(x));
                    assert(t.contains(x));
                    let j = choose|j: int| 0 <= j < t.len() && t[j] == x;
                    assert(s[j] == x);
                } else if i == p {
                    assert(s[s.len() - 1] == x);
                } else {
                    assert(st[i - 1] == x);
                    assert(st.contains(x));
                    assert(t.contains(x));
                    let j = choose|j: int| 0 <= j < t.len() && t[j] == x;
                    assert(s[j] == x);
                }
            }
            if s.contains(x) {
                let i = choose|i: int| 0 <= i < s.len() && s[i] == x;
                if i == s.len() - 1 {
                    assert(r[p] == x);
                } else {
                    assert(t[i] == x);
                    assert(t.contains(x));
                    assert(st.contains(x));
                    let j = choose|j: int| 0 <= j < st.len() && st[j] == x;
                    if j < p {
                        assert(r[j] == x);
                    } else {
                        assert(r[j + 1] == x);
                    }
                }
            }
        }
    }
}

/// `has_path` in terms of membership.
pub proof fn lemma_has_path_members(a: Seq<FileView>, b: Seq<FileView>, p: Seq<char>)
    requires
        forall|x: FileView| a.contains(x) <==> b.contains(x),
    ensures
        has_path(a, p) <==> has_path(b, p),
{
    if has_path(a, p) {
        let i = choose|i: int| 0 <= i < a.len() && #[trigger] a[i].path == p;
        assert(a.contains(a[i]));
        let j = choose|j: int| 0 <= j < b.len() && b[j] == a[i];
        assert(b[j].path == p);
    }
    if has_path(b, p) {
        let i = choose|i: int| 0 <= i < b.len() && #[trigger] b[i].path == p;
        assert(b.contains(b[i]));
        let j = choose|j: int| 0 <= j < a.len() && a[j] == b[i];
        assert(a[j].path == p);
    }
}

/// Listing order keeps paths distinct.
pub proof fn lemma_sort_keeps_distinct(s: Seq<FileView>)
    requires
        distinct_paths(s),
    ensures
        distinct_paths(sort_by_name(s)),
    decreases s.len(),
{
    if s.len() > 0 {
        let t = s.drop_last();
        assert(distinct_paths(t));
        lemma_sort_keeps_distinct(t);
        lemma_sort_keeps_members(t);
        let st = sort_by_name(t);
        let f = s.last();
        let p = insert_pos(st, sort_key(f)) as int;
        lemma_insert_pos_bound(st, sort_key(f));
        assert(!has_path(t, f.path)) by {
            if has_path(t, f.path) {
                let i = choose|i: int| 0 <= i < t.len() && #[trigger] t[i].path == f.path;
                assert(s[i].path == s[s.len() - 1].path);
            }
        }
        lemma_has_path_members(st, t, f.path);
        let r = st.insert(p, f);
        assert forall|i: int, j: int|
            0 <= i < r.len() && 0 <= j < r.len() && i != j implies r[i].path != r[j].path by {
            if i == p {
                let jj = if j < p { j } else { j - 1 };
                assert(r[j] == st[jj]);
            } else if j == p {
                let ii = if i < p { i } else { i - 1 };
                assert(r[i] == st[ii]);
            } else {
                let ii = if i < p { i } else { i - 1 };
                let jj = if j < p { j } else { j - 1 };
                assert(r[i] == st[ii]);
                assert(r[j] == st[jj]);
            }
        }
    }
}

/// The total running time of the files; adding spans the way `Iterator::sum`
/// does for `Duration`.
pub fn total_duration_of(files: &Vec<AudioFileInfo>) -> (r: Duration)
    requires
        sum_nanos(views(files@)) <= max_nanos(),
    ensures
        r@ == sum_nanos(views(files@)),
{
    let ghost s = views(files@);
    let mut total = Duration::zero();
    let mut i: usize = 0;
    assert(s.take(0) =~= Seq::<FileView>::empty());
    while i < files.len()
        invariant
            s == views(files@),
            i <= files@.len(),
            total@ == sum_nanos(s.take(i as int)),
            sum_nanos(s) <= max_nanos(),
        decreases files@.len() - i,
    {
        proof {
            lemma_sum_take_next(s, i as int);
            lemma_sum_prefix(s, i + 1);
        }
        let next = total.checked_add(&files[i].duration);
        match next {
            Some(t) => {
                total = t;
            },
            None => {
                assert(false);
            },
        }
        i = i + 1;
    }
    assert(s.take(i as int) =~= s);
    total
}

/// Whether a file with this path is in the list.
pub fn contains_path(files: &Vec<AudioFileInfo>, path: &String) -> (r: bool)
    ensures
        r == has_path(views(files@), path@),
{
    let mut i: usize = 0;
    while i < files.len()
        invariant
            i <= files@.len(),
            forall|j: int| 0 <= j < i ==> files@[j].file_path@ != path@,
        decreases files@.len() - i,
    {
        if files[i].file_path == *path {
            assert(views(files@)[i as int].path == path@);
            return true;
        }
        i = i + 1;
    }
    assert(!has_path(views(files@), path@)) by {
        if has_path(views(files@), path@) {
            let j = choose|j: int| 0 <= j < views(files@).len() && #[trigger] views(files@)[j].path == path@;
            assert(files@[j].file_path@ == path@);
        }
    }
    false
}

} // verus!
