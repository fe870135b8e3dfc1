//! The order in which files are listed: by name, ignoring letter case, with
//! files of equal names kept in the order they came in.

use vstd::prelude::*;
use crate::audio::{AudioFileInfo, FileView, views};
use crate::casefold::{lowercase, lowercase_chars};

verus! {

/// Lexicographic `<=` on character sequences, comparing code points; this is
/// the order of `String` (UTF-8 byte order equals code point order).
pub open spec fn chars_le(a: Seq<char>, b: Seq<char>) -> bool
    decreases a.len(),
{
    if a.len() == 0 {
        true
    } else if b.len() == 0 {
        false
    } else if a[0] != b[0] {
        (a[0] as int) < (b[0] as int)
    } else {
        chars_le(a.drop_first(), b.drop_first())
    }
}

/// The key by which a file is listed: its name in lower case.
pub open spec fn sort_key(f: FileView) -> Seq<char> {
    lowercase(f.name)
}

/// Where a file with key `k` goes into `s`: after the last file whose key is
/// not greater than `k`.
pub open spec fn insert_pos(s: Seq<FileView>, k: Seq<char>) -> nat
    decreases s.len(),
{
    if s.len() == 0 {
        0
    } else if !chars_le(sort_key(s.last()), k) {
        insert_pos(s.drop_last(), k)
    } else {
        s.len()
    }
}

/// `s` with `f` put in its place.
pub open spec fn insert_sorted(s: Seq<FileView>, f: FileView) -> Seq<FileView> {
    s.insert(insert_pos(s, sort_key(f)) as int, f)
}

/// The files in listing order: ordered by key, files of equal keys in the
/// order of `s` (a stable sort).
pub open spec fn sort_by_name(s: Seq<FileView>) -> Seq<FileView>
    decreases s.len(),
{
    if s.len() == 0 {
        s
    } else {
        insert_sorted(sort_by_name(s.drop_last()), s.last())
    }
}

/// Whether the files are in listing order.
pub open spec fn is_sorted_by_name(s: Seq<FileView>) -> bool {
    forall|i: int, j: int| 0 <= i < j < s.len() ==> chars_le(sort_key(s[i]), sort_key(s[j]))
}

/// `chars_le` is reflexive.
pub proof fn lemma_chars_le_refl(a: Seq<char>)
    ensures
        chars_le(a, a),
    decreases a.len(),
{
    if a.len() > 0 {
        lemma_chars_le_refl(a.drop_first());
    }
}

/// `chars_le` is total.
pub proof fn lemma_chars_le_total(a: Seq<char>, b: Seq<char>)
    ensures
        chars_le(a, b) || chars_le(b, a),
    decreases a.len(),
{
    if a.len() > 0 && b.len() > 0 && a[0] == b[0] {
        lemma_chars_le_total(a.drop_first(), b.drop_first());
    }
}

/// `chars_le` is transitive.
pub proof fn lemma_chars_le_trans(a: Seq<char>, b: Seq<char>, c: Seq<char>)
    requires
        chars_le(a, b),
        chars_le(b, c),
    ensures
        chars_le(a, c),
    decreases a.len(),
{
    if a.len() > 0 && b.len() > 0 && c.len() > 0 && a[0] == b[0] && b[0] == c[0] {
        lemma_chars_le_trans(a.drop_first(), b.drop_first(), c.drop_first());
    }
}

/// Inserting at `insert_pos` keeps a sorted sequence sorted.
pub proof fn lemma_insert_sorted_sorted(s: Seq<FileView>, f: FileView)
    requires
        is_sorted_by_name(s),
    ensures
        is_sorted_by_name(insert_sorted(s, f)),
        insert_pos(s, sort_key(f)) <= s.len(),
        forall|i: int| 0 <= i < insert_pos(s, sort_key(f)) ==> chars_le(sort_key(s[i]), sort_key(f)),
        forall|i: int|
            insert_pos(s, sort_key(f)) <= i < s.len() ==> !chars_le(sort_key(s[i]), sort_key(f)),
    decreases s.len(),
{
    let k = sort_key(f);
    if s.len() == 0 {
    } else if !chars_le(sort_key(s.last()), k) {
        let t = s.drop_last();
        assert(is_sorted_by_name(t));
        lemma_insert_sorted_sorted(t, f);
        let p = insert_pos(t, k);
        assert(insert_pos(s, k) == p);
        assert forall|i: int| 0 <= i < p implies chars_le(sort_key(s[i]), k) by {
            assert(s[i] == t[i]);
        }
        assert forall|i: int| p <= i < s.len() implies !chars_le(sort_key(s[i]), k) by {
            if i < t.len() {
                assert(s[i] == t[i]);
            }
        }
        let r = insert_sorted(s, f);
        assert forall|i: int, j: int| 0 <= i < j < r.len() implies chars_le(
            sort_key(r[i]),
            sort_key(r[j]),
        ) by {
            if j == r.len() - 1 {
                assert(r[j] == s.last());
                if i < p {
                    assert(r[i] == s[i]);
                    assert(chars_le(sort_key(s[i]), k));
                    lemma_chars_le_total(sort_key(s.last()), k);
                    lemma_chars_le_trans(sort_key(s[i]), k, sort_key(s.last()));
                } else if i == p {
                    assert(r[i] == f);
                    lemma_chars_le_total(sort_key(s.last()), k);
                } else {
                    assert(r[i] == s[i - 1]);
                }
            } else {
                assert(insert_sorted(t, f)[i] == r[i]);
                assert(insert_sorted(t, f)[j] == r[j]);
            }
        }
    } else {
        let p = s.len();
        assert(insert_pos(s, k) == p);
        let r = insert_sorted(s, f);
        assert forall|i: int| 0 <= i < p implies chars_le(sort_key(s[i]), k) by {
            if i < s.len() - 1 {
                lemma_chars_le_trans(sort_key(s[i]), sort_key(s.last()), k);
            }
        }
        assert forall|i: int, j: int| 0 <= i < j < r.len() implies chars_le(
            sort_key(r[i]),
            sort_key(r[j]),
        ) by {
            if j == p {
                assert(r[j] == f);
                assert(r[i] == s[i]);
            } else {
                assert(r[i] == s[i]);
                assert(r[j] == s[j]);
            }
        }
    }
}

/// The listing order is sorted by key.
pub proof fn lemma_sort_by_name_sorted(s: Seq<FileView>)
    ensures
        is_sorted_by_name(sort_by_name(s)),
    decreases s.len(),
{
    if s.len() > 0 {
        lemma_sort_by_name_sorted(s.drop_last());
        lemma_insert_sorted_sorted(sort_by_name(s.drop_last()), s.last());
    }
}

/// The listing order holds the same files, each as often, as the input.
pub proof fn lemma_sort_by_name_permutes(s: Seq<FileView>)
    ensures
        sort_by_name(s).to_multiset() == s.to_multiset(),
        sort_by_name(s).len() == s.len(),
    decreases s.len(),
{
    broadcast use vstd::seq_lib::group_to_multiset_ensures;
    if s.len() > 0 {
        let t = s.drop_last();
        lemma_sort_by_name_permutes(t);
        let st = sort_by_name(t);
        let p = insert_pos(st, sort_key(s.last()));
        lemma_insert_pos_bound(st, sort_key(s.last()));
        let r = st.insert(p as int, s.last());
        assert(r.remove(p as int) =~= st);
        assert(r[p as int] == s.last());
        assert(r.to_multiset().remove(s.last()) == st.to_multiset());
        assert(s =~= t.push(s.last()));
        assert(r.to_multiset() =~= st.to_multiset().insert(s.last()));
    }
}

/// `insert_pos` lies within the sequence.
pub proof fn lemma_insert_pos_bound(s: Seq<FileView>, k: Seq<char>)
    ensures
        insert_pos(s, k) <= s.len(),
    decreases s.len(),
{
    if s.len() > 0 {
        lemma_insert_pos_bound(s.drop_last(), k);
    }
}

/// Whether `a <= b` in the order of `chars_le`.
fn chars_le_exec(a: &Vec<char>, b: &Vec<char>) -> (r: bool)
    ensures
        r == chars_le(a@, b@),
{
    let mut i: usize = 0;
    assert(a@.skip(0) =~= a@);
    assert(b@.skip(0) =~= b@);
    while i < a.len() && i < b.len() && a[i] == b[i]
        invariant
            i <= a@.len(),
            i <= b@.len(),
            chars_le(a@, b@) == chars_le(a@.skip(i as int), b@.skip(i as int)),
        decreases a@.len() - i,
    {
        assert(a@.skip(i as int).drop_first() =~= a@.skip(i + 1));
        assert(b@.skip(i as int).drop_first() =~= b@.skip(i + 1));
        i = i + 1;
    }
    if i == a.len() {
        true
    } else if i == b.len() {
        false
    } else {
        a[i] < b[i]
    }
}

/// The files in listing order.
pub fn sort_files(files: Vec<AudioFileInfo>) -> (r: Vec<AudioFileInfo>)
    ensures
        views(r@) == sort_by_name(views(files@)),
{
    let ghost orig = files@;
    let n = files.len();
    let mut rest = files;
    let mut sorted: Vec<AudioFileInfo> = Vec::new();
    let mut keys: Vec<Vec<char>> = Vec::new();
    let mut k: usize = 0;
    while k < n
        invariant
            n == orig.len(),
            k <= n,
            rest@ == orig.subrange(k as int, n as int),
            views(sorted@) == sort_by_name(views(orig).take(k as int)),
            keys@.len() == sorted@.len(),
            forall|i: int| 0 <= i < keys@.len() ==> keys@[i]@ == sort_key(#[trigger] sorted@[i]@),
        decreases n - k,
    {
        let f = rest.remove(0);
        assert(f == orig[k as int]);
        let key = lowercase_chars(f.file_name.as_str());
        let ghost s = views(sorted@);
        let mut p = sorted.len();
        assert(s.take(p as int) =~= s);
        while p > 0 && !chars_le_exec(&keys[p - 1], &key)
            invariant
                p <= sorted@.len(),
                s == views(sorted@),
                keys@.len() == sorted@.len(),
                forall|i: int| 0 <= i < keys@.len() ==> keys@[i]@ == sort_key(#[trigger] sorted@[i]@),
                insert_pos(s, key@) == insert_pos(s.take(p as int), key@),
            decreases p,
        {
            assert(s.take(p as int).drop_last() =~= s.take(p - 1));
            assert(s.take(p as int).last() == sorted@[p - 1]@);
            p = p - 1;
        }
        proof {
            if p == 0 {
                assert(s.take(0) =~= Seq::<FileView>::empty());
            } else {
                assert(s.take(p as int).last() == sorted@[p - 1]@);
            }
            assert(insert_pos(s, key@) == p);
            assert(views(orig).take(k + 1).drop_last() =~= views(orig).take(k as int));
            assert(views(orig).take(k + 1).last() == f@);
        }
        sorted.insert(p, f);
        keys.insert(p, key);
        k = k + 1;
        proof {
            assert(views(sorted@) =~= s.insert(p as int, f@));
            assert(rest@ =~= orig.subrange(k as int, n as int));
        }
    }
    assert(views(orig).take(n as int) =~= views(orig));
    sorted
}

} // verus!
