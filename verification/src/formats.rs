//! The audio file extensions the tool counts.

use vstd::prelude::*;
use crate::casefold::{lowercase, lowercase_chars, chars_equal};

verus! {

/// The lower-case extensions of the formats the tool counts: mp3, wav, flac,
/// m4a, ogg, wma, aac, aiff, ape, opus, webm, mp4 and mkv.
pub open spec fn is_supported_ext(e: Seq<char>) -> bool {
    ||| e == seq!['m', 'p', '3']
    ||| e == seq!['w', 'a', 'v']
    ||| e == seq!['f', 'l', 'a', 'c']
    ||| e == seq!['m', '4', 'a']
    ||| e == seq!['o', 'g', 'g']
    ||| e == seq!['w', 'm', 'a']
    ||| e == seq!['a', 'a', 'c']
    ||| e == seq!['a', 'i', 'f', 'f']
    ||| e == seq!['a', 'p', 'e']
    ||| e == seq!['o', 'p', 'u', 's']
    ||| e == seq!['w', 'e', 'b', 'm']
    ||| e == seq!['m', 'p', '4']
    ||| e == seq!['m', 'k', 'v']
}

/// Whether a file with this extension (in any letter case) is counted.
pub open spec fn extension_counts(ext: Option<Seq<char>>) -> bool {
    match ext {
        Some(e) => is_supported_ext(lowercase(e)),
        None => false,
    }
}

/// Whether the lower-case form of `ext` is one of the supported extensions.
pub fn is_supported_extension(ext: &str) -> (r: bool)
    ensures
        r == is_supported_ext(lowercase(ext@)),
{
    let e = lowercase_chars(ext);
    chars_equal(&e, &['m', 'p', '3'])
        || chars_equal(&e, &['w', 'a', 'v'])
        || chars_equal(&e, &['f', 'l', 'a', 'c'])
        || chars_equal(&e, &['m', '4', 'a'])
        || chars_equal(&e, &['o', 'g', 'g'])
        || chars_equal(&e, &['w', 'm', 'a'])
        || chars_equal(&e, &['a', 'a', 'c'])
        || chars_equal(&e, &['a', 'i', 'f', 'f'])
        || chars_equal(&e, &['a', 'p', 'e'])
        || chars_equal(&e, &['o', 'p', 'u', 's'])
        || chars_equal(&e, &['w', 'e', 'b', 'm'])
        || chars_equal(&e, &['m', 'p', '4'])
        || chars_equal(&e, &['m', 'k', 'v'])
}

/// Whether a file whose extension is `ext` (`None` when the path has none) is
/// counted.
pub fn extension_is_counted(ext: &Option<String>) -> (r: bool)
    ensures
        r == extension_counts(
            match ext {
                Some(e) => Some(e@),
                None => None,
            },
        ),
{
    match ext {
        Some(e) => is_supported_extension(e.as_str()),
        None => false,
    }
}

} // verus!
