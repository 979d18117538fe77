//! Pattern and address texts: their length and their case.

use vstd::prelude::*;
use vstd::utf8::encode_utf8;

verus! {

/// The length by which patterns are ordered: the number of bytes of the
/// text's UTF-8 encoding.
pub open spec fn byte_length(text: Seq<char>) -> nat {
    encode_utf8(text).len()
}

/// A character with an ASCII capital letter turned into its small letter.
pub open spec fn lower_char(c: char) -> char {
    if 'A' <= c && c <= 'Z' {
        ((c as u32) + 32) as char
    } else {
        c
    }
}

/// A character with an ASCII small letter turned into its capital letter.
pub open spec fn upper_char(c: char) -> char {
    if 'a' <= c && c <= 'z' {
        ((c as u32) - 32) as char
    } else {
        c
    }
}

/// The case-folded copy of a text: every ASCII capital letter becomes its
/// small letter, every other character stays.
pub open spec fn folded(text: Seq<char>) -> Seq<char> {
    text.map_values(|c: char| lower_char(c))
}

/// A text with every ASCII small letter turned into its capital letter.
pub open spec fn uppercased(text: Seq<char>) -> Seq<char> {
    text.map_values(|c: char| upper_char(c))
}

/// `str::to_ascii_lowercase` copies the text and maps `'A'..='Z'` to
/// `'a'..='z'`, leaving every other character as it is.
pub assume_specification[ str::to_ascii_lowercase ](text: &str) -> (copy: String)
    ensures
        copy@ == folded(text@),
;

/// Folding twice is folding once.
pub proof fn lemma_fold_idempotent(text: Seq<char>)
    ensures
        folded(folded(text)) == folded(text),
{
}

/// Folding forgets an earlier change to capital letters.
pub proof fn lemma_fold_after_uppercase(text: Seq<char>)
    ensures
        folded(uppercased(text)) == folded(text),
{
}

/// The length of a text in bytes.
pub fn length_of(text: &str) -> (n: usize)
    ensures
        n == byte_length(text@),
{
    text.as_bytes().len()
}

} // verus!
