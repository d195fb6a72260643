//! The smallest pieces of the grammar: classes of characters, runs of
//! blanks, single characters and words matched without regard to case.

use vstd::prelude::*;
use crate::text::characters;

verus! {

/// Whether `c` is a space or a tab.
pub open spec fn is_blank(c: char) -> bool {
    c == ' ' || c == '\t'
}

/// Whether `c` is a letter of the ASCII alphabet.
pub open spec fn is_alpha(c: char) -> bool {
    ('a' <= c && c <= 'z') || ('A' <= c && c <= 'Z')
}

/// Whether `c` is a decimal digit.
pub open spec fn is_digit(c: char) -> bool {
    '0' <= c && c <= '9'
}

/// Whether `c` is a hexadecimal digit, in either case.
pub open spec fn is_hex_digit(c: char) -> bool {
    is_digit(c) || ('a' <= c && c <= 'f') || ('A' <= c && c <= 'F')
}

/// Whether `c` can stand in an identifier behind its first character.
pub open spec fn is_word(c: char) -> bool {
    is_alpha(c) || is_digit(c) || c == '_'
}

/// The number that a letter of the ASCII alphabet has in lower case, and
/// the number of any other character.
pub open spec fn folded(c: char) -> int {
    if 'A' <= c && c <= 'Z' {
        c as int + 32
    } else {
        c as int
    }
}

/// The number of characters of `text` from `at` on.
pub open spec fn room(text: Seq<char>, at: int) -> nat {
    if at <= text.len() {
        (text.len() - at) as nat
    } else {
        0
    }
}

/// The number of blanks in `text` from `at` on, up to the first character
/// that is none.
pub open spec fn blanks(text: Seq<char>, at: int) -> nat
    decreases text.len() - at,
{
    if 0 <= at < text.len() && is_blank(text[at]) {
        1 + blanks(text, at + 1)
    } else {
        0
    }
}

/// Whether `word` stands in `text` at `at`, letters compared without regard
/// to case.
pub open spec fn has_word(text: Seq<char>, at: int, word: Seq<char>) -> bool {
    &&& 0 <= at
    &&& at + word.len() <= text.len()
    &&& forall|k: int| 0 <= k < word.len() ==> folded(#[trigger] text[at + k]) == folded(word[k])
}

/// Whether the character `c` stands in `text` at `at`.
pub open spec fn has_char(text: Seq<char>, at: int, c: char) -> bool {
    0 <= at < text.len() && text[at] == c
}

/// A text that is being parsed, with its characters laid out for access
/// by position.
pub struct Source<'a> {
    text: &'a str,
    chars: Vec<char>,
}

impl<'a> View for Source<'a> {
    type V = Seq<char>;

    closed spec fn view(&self) -> Seq<char> {
        self.text@
    }
}

impl<'a> Source<'a> {
    /// The characters are those of the text.
    #[verifier::type_invariant]
    spec fn wf(&self) -> bool {
        self.chars@ == self.text@
    }

    /// Lays out `text`.
    pub fn new(text: &'a str) -> (source: Source<'a>)
        ensures
            source@ == text@,
    {
        Source { text, chars: characters(text) }
    }

    /// The number of characters.
    pub fn len(&self) -> (length: usize)
        ensures
            length == self@.len(),
    {
        proof {
            use_type_invariant(self);
        }
        self.chars.len()
    }

    /// The characters.
    pub fn chars(&self) -> (chars: &[char])
        ensures
            chars@ == self@,
            chars@.len() <= usize::MAX,
    {
        proof {
            use_type_invariant(self);
        }
        assert(self.chars.len() <= usize::MAX);
        self.chars.as_slice()
    }

    /// The characters from `from` up to `to`, as a string of their own.
    pub fn copy(&self, from: usize, to: usize) -> (piece: String)
        requires
            from <= to <= self@.len(),
        ensures
            piece@ == self@.subrange(from as int, to as int),
    {
        String::from_str(self.text.substring_char(from, to))
    }
}

/// The blanks that are counted from a place in the text on end within the
/// text.
pub proof fn lemma_blanks_within(text: Seq<char>, at: int)
    requires
        0 <= at <= text.len(),
    ensures
        at + blanks(text, at) <= text.len(),
    decreases text.len() - at,
{
    if at < text.len() && is_blank(text[at]) {
        lemma_blanks_within(text, at + 1);
    }
}

/// Whether `c` is a space or a tab.
pub fn blank(c: char) -> (yes: bool)
    ensures
        yes == is_blank(c),
{
    c == ' ' || c == '\t'
}

/// Whether `c` is a letter of the ASCII alphabet.
pub fn alpha(c: char) -> (yes: bool)
    ensures
        yes == is_alpha(c),
{
    ('a' <= c && c <= 'z') || ('A' <= c && c <= 'Z')
}

/// Whether `c` can stand in an identifier behind its first character.
pub fn word_character(c: char) -> (yes: bool)
    ensures
        yes == is_word(c),
{
    alpha(c) || ('0' <= c && c <= '9') || c == '_'
}

/// The value of `c` as a hexadecimal digit, if it is one.
pub fn hex_digit(c: char) -> (value: Option<u8>)
    ensures
        value is Some == is_hex_digit(c),
        value matches Some(v) ==> v == digit_value(c),
{
    if '0' <= c && c <= '9' {
        Some((c as u32 - '0' as u32) as u8)
    } else if 'a' <= c && c <= 'f' {
        Some((c as u32 - 'a' as u32 + 10) as u8)
    } else if 'A' <= c && c <= 'F' {
        Some((c as u32 - 'A' as u32 + 10) as u8)
    } else {
        None
    }
}

/// The value of a hexadecimal digit.
pub open spec fn digit_value(c: char) -> int {
    if is_digit(c) {
        c as int - '0' as int
    } else if 'a' <= c && c <= 'f' {
        c as int - 'a' as int + 10
    } else {
        c as int - 'A' as int + 10
    }
}

/// The number that `c` has once a capital letter is put in lower case.
pub fn fold(c: char) -> (number: u32)
    ensures
        number == folded(c),
{
    if 'A' <= c && c <= 'Z' {
        c as u32 + 32
    } else {
        c as u32
    }
}

/// The position of the first character from `at` on that is no blank.
pub fn skip_blanks(text: &[char], at: usize) -> (end: usize)
    requires
        at <= text@.len(),
    ensures
        end == at + blanks(text@, at as int),
        end <= text@.len(),
{
    let mut end: usize = at;
    while end < text.len() && blank(text[end])
        invariant
            at <= end <= text@.len(),
            at + blanks(text@, at as int) == end + blanks(text@, end as int),
        decreases text@.len() - end,
    {
        end += 1;
    }
    end
}

/// Whether `word` stands in `text` at `at`, letters compared without regard
/// to case.
pub fn word_at(text: &[char], at: usize, word: &[char]) -> (yes: bool)
    requires
        at <= text@.len(),
    ensures
        yes == has_word(text@, at as int, word@),
{
    if word.len() > text.len() - at {
        return false;
    }
    let mut k: usize = 0;
    while k < word.len()
        invariant
            k <= word@.len(),
            at + word@.len() <= text@.len() <= usize::MAX,
            forall|j: int| 0 <= j < k ==> folded(#[trigger] text@[at + j]) == folded(word@[j]),
        decreases word@.len() - k,
    {
        if fold(text[at + k]) != fold(word[k]) {
            return false;
        }
        k += 1;
    }
    true
}

/// Whether the character `c` stands in `text` at `at`.
pub fn char_at(text: &[char], at: usize, c: char) -> (yes: bool)
    ensures
        yes == has_char(text@, at as int, c),
{
    at < text.len() && text[at] == c
}

} // verus!
