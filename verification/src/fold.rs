//! Case folding of captcha texts.
//!
//! A captcha's text is folded to ASCII lower case when it is stored; a
//! candidate answer is folded by the full Unicode rules when it is compared.

use vstd::prelude::*;

verus! {

/// The ASCII lower-case form of one character: `A` to `Z` become `a` to `z`,
/// every other character stays as it is.
pub open spec fn ascii_lower_char(c: char) -> char {
    if 'A' <= c && c <= 'Z' {
        ((c as u32) + 32) as char
    } else {
        c
    }
}

/// A text with each of its characters in ASCII lower case.
pub open spec fn ascii_lowercase(s: Seq<char>) -> Seq<char> {
    Seq::new(s.len(), |i: int| ascii_lower_char(s[i]))
}

/// The lower-case form of a text by the Unicode rules, as the standard
/// library computes it. The mapping is a table of the Unicode standard and
/// is not written out here.
pub uninterp spec fn unicode_lowercase(s: Seq<char>) -> Seq<char>;

/// `str::to_ascii_lowercase` returns a copy in which the letters `A` to `Z`
/// are replaced by `a` to `z` and every other character is kept.
pub assume_specification[ str::to_ascii_lowercase ](s: &str) -> (folded: String)
    ensures
        folded@ == ascii_lowercase(s@),
;

/// `str::to_lowercase` returns the Unicode lower-case form of the text, a
/// function of the text alone.
pub assume_specification[ str::to_lowercase ](s: &str) -> (folded: String)
    ensures
        folded@ == unicode_lowercase(s@),
;

/// Folding to ASCII lower case keeps the length of a text, and folding a
/// second time changes nothing.
pub proof fn lemma_ascii_lowercase_settles(s: Seq<char>)
    ensures
        ascii_lowercase(s).len() == s.len(),
        ascii_lowercase(ascii_lowercase(s)) == ascii_lowercase(s),
{
    assert(ascii_lowercase(ascii_lowercase(s)) =~= ascii_lowercase(s));
}

} // verus!
