//! The image formats that can be converted, told by a file's extension.

use vstd::prelude::*;
use vstd::string::StrSliceExecFns;

verus! {

/// A format that can be read and turned into WebP.
#[derive(Debug, PartialEq, Eq, Clone, Copy, Structural)]
pub enum SourceFormat {
    Png,
    Jpeg,
    Bmp,
}

/// The lower-case form of an ASCII capital; any other character unchanged.
pub open spec fn lower(c: char) -> char {
    if 'A' <= c <= 'Z' {
        ((c as u32) + 32) as char
    } else {
        c
    }
}

/// A text with each of its ASCII capitals in lower case.
pub open spec fn lowered(s: Seq<char>) -> Seq<char> {
    s.map_values(|c: char| lower(c))
}

/// The format that an extension stands for, whatever the case of its letters:
/// `png`, `jpg` or `jpeg`, and `bmp`.
pub open spec fn format_of(ext: Seq<char>) -> Option<SourceFormat> {
    let word = lowered(ext);
    if word == seq!['p', 'n', 'g'] {
        Some(SourceFormat::Png)
    } else if word == seq!['j', 'p', 'g'] || word == seq!['j', 'p', 'e', 'g'] {
        Some(SourceFormat::Jpeg)
    } else if word == seq!['b', 'm', 'p'] {
        Some(SourceFormat::Bmp)
    } else {
        None
    }
}

/// The format of a file whose name has the given extension, if it has one at all.
pub open spec fn format_of_extension(ext: Option<Seq<char>>) -> Option<SourceFormat> {
    match ext {
        Some(e) => format_of(e),
        None => None,
    }
}

/// Whether `c`, put in lower case, is `expected`.
fn lower_is(c: char, expected: char) -> (res: bool)
    ensures
        res == (lower(c) == expected),
{
    if 'A' <= c && c <= 'Z' {
        (c as u32) + 32 == (expected as u32)
    } else {
        c == expected
    }
}

/// Whether `text`, put in lower case, is `word`.
fn lowered_is(text: &str, word: &str) -> (res: bool)
    ensures
        res == (lowered(text@) == word@),
{
    let n = text.unicode_len();
    if n != word.unicode_len() {
        assert(lowered(text@).len() != word@.len());
        return false;
    }
    let mut i: usize = 0;
    while i < n
        invariant
            i <= n,
            n == text@.len(),
            n == word@.len(),
            forall|j: int| 0 <= j < i ==> lower(text@[j]) == word@[j],
        decreases n - i,
    {
        if !lower_is(text.get_char(i), word.get_char(i)) {
            assert(lowered(text@)[i as int] != word@[i as int]);
            return false;
        }
        i += 1;
    }
    assert(lowered(text@) =~= word@);
    true
}

impl SourceFormat {
    /// Tells the format from a file extension, without regard to case.
    pub fn from_extension(ext: &str) -> (res: Option<SourceFormat>)
        ensures
            res == format_of(ext@),
    {
        proof {
            reveal_strlit("png");
            reveal_strlit("jpg");
            reveal_strlit("jpeg");
            reveal_strlit("bmp");
            assert("png"@ =~= seq!['p', 'n', 'g']);
            assert("jpg"@ =~= seq!['j', 'p', 'g']);
            assert("jpeg"@ =~= seq!['j', 'p', 'e', 'g']);
            assert("bmp"@ =~= seq!['b', 'm', 'p']);
        }
        if lowered_is(ext, "png") {
            Some(SourceFormat::Png)
        } else if lowered_is(ext, "jpg") || lowered_is(ext, "jpeg") {
            Some(SourceFormat::Jpeg)
        } else if lowered_is(ext, "bmp") {
            Some(SourceFormat::Bmp)
        } else {
            None
        }
    }
}

} // verus!
