//! Lower-casing of text, as the standard library defines it for `str`.

use vstd::prelude::*;

verus! {

/// What `str::to_lowercase` returns for a string with these characters.
pub uninterp spec fn lowercase(s: Seq<char>) -> Seq<char>;

/// The characters of `s.to_lowercase()` (`str::to_lowercase`, the Unicode
/// lower-case mapping, which depends on the text alone). The contract names the
/// result; the mapping itself is not written out.
#[verifier::external_body]
pub(crate) fn lowercase_chars(s: &str) -> (r: Vec<char>)
    ensures
        r@ == lowercase(s@),
{
    s.to_lowercase().chars().collect()
}

/// Whether two character sequences are equal.
pub fn chars_equal(a: &Vec<char>, b: &[char]) -> (r: bool)
    ensures
        r == (a@ == b@),
{
    if a.len() != b.len() {
        return false;
    }
    let mut i: usize = 0;
    while i < a.len()
        invariant
            a@.len() == b@.len(),
            i <= a@.len(),
            forall|j: int| 0 <= j < i ==> a@[j] == b@[j],
        decreases a@.len() - i,
    {
        if a[i] != b[i] {
            return false;
        }
        i = i + 1;
    }
    assert(a@ =~= b@);
    true
}

} // verus!
