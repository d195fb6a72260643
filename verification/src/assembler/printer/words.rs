//! The parser reads the words that the printer writes: numbers and names.

use vstd::prelude::*;
use crate::assembler::parser::ast::ExprTree;
use crate::assembler::parser::error::ErrorKind;
use crate::assembler::parser::scan::{blanks, digit_value, is_blank, is_hex_digit, is_word};
use crate::assembler::parser::types::{
    hex_digits, hex_value, spec_address, spec_hex_literal, spec_identifier, spec_number,
    spec_variable, word_run,
};
use crate::assembler::printer::text::{digit_char, hex_text, is_identifier};

verus! {

/// Whether `piece` stands in `text` at `at`.
pub open spec fn located(text: Seq<char>, at: int, piece: Seq<char>) -> bool {
    &&& 0 <= at
    &&& at + piece.len() <= text.len()
    &&& forall|k: int| 0 <= k < piece.len() ==> #[trigger] text[at + k] == piece[k]
}

/// Whether a word that ends at `end` ends there for good: the text ends, or
/// the next character is none of a word.
pub open spec fn word_ends(text: Seq<char>, end: int) -> bool {
    end >= text.len() || !is_word(text[end])
}

/// A text made of two pieces stands where the first piece stands with the
/// second right behind it.
pub proof fn lemma_located_parts(text: Seq<char>, at: int, first: Seq<char>, second: Seq<char>)
    ensures
        located(text, at, first + second) <==> located(text, at, first) && located(
            text,
            at + first.len(),
            second,
        ),
{
    let whole = first + second;
    if located(text, at, whole) {
        assert forall|k: int| 0 <= k < first.len() implies #[trigger] text[at + k] == first[k] by {
            assert(whole[k] == first[k]);
        }
        assert forall|k: int| 0 <= k < second.len() implies #[trigger] text[at + first.len() + k]
            == second[k] by {
            assert(text[at + (first.len() + k)] == whole[first.len() + k]);
        }
    }
    if located(text, at, first) && located(text, at + first.len(), second) {
        assert forall|k: int| 0 <= k < whole.len() implies #[trigger] text[at + k] == whole[k] by {
            if k >= first.len() {
                assert(text[at + first.len() + (k - first.len())] == second[k - first.len()]);
            }
        }
    }
}

/// A text stands at the start of itself.
pub proof fn lemma_located_whole(text: Seq<char>)
    ensures
        located(text, 0, text),
{
}

/// No blank is counted where the text ends or where a character stands
/// that is none.
pub proof fn lemma_no_blanks(text: Seq<char>, at: int)
    requires
        at >= text.len() || at < 0 || !is_blank(text[at]),
    ensures
        blanks(text, at) == 0,
{
}

/// One blank is counted where one stands in front of a character that is
/// none.
pub proof fn lemma_one_blank(text: Seq<char>, at: int)
    requires
        0 <= at < text.len(),
        text[at] == ' ',
        at + 1 >= text.len() || !is_blank(text[at + 1]),
    ensures
        blanks(text, at) == 1,
{
    lemma_no_blanks(text, at + 1);
}

/// The digits of a number are hexadecimal digits, and there is one at
/// least.
pub proof fn lemma_hex_text_digits(n: nat)
    ensures
        hex_text(n).len() >= 1,
        forall|k: int| 0 <= k < hex_text(n).len() ==> is_hex_digit(#[trigger] hex_text(n)[k]),
    decreases n,
{
    if n >= 16 {
        lemma_hex_text_digits(n / 16);
    }
}

/// A run of hexadecimal digits is counted in full.
pub proof fn lemma_hex_digits_run(text: Seq<char>, at: int, end: int)
    requires
        0 <= at <= end <= text.len(),
        forall|k: int| at <= k < end ==> is_hex_digit(#[trigger] text[k]),
        end == text.len() || !is_hex_digit(text[end]),
    ensures
        hex_digits(text, at) == end - at,
    decreases end - at,
{
    if at < end {
        lemma_hex_digits_run(text, at + 1, end);
    }
}

/// The digits of a number spell the number.
pub proof fn lemma_hex_text_value(text: Seq<char>, at: int, n: nat)
    requires
        located(text, at, hex_text(n)),
    ensures
        hex_value(text, at, at + hex_text(n).len()) == n,
    decreases n,
{
    let digits = hex_text(n);
    let end = at + digits.len();
    if n < 16 {
        assert(text[at + 0] == digits[0]);
        assert(hex_value(text, at, at) == 0);
        assert(digit_value(digit_char(n)) == n);
    } else {
        let front = hex_text(n / 16);
        lemma_located_parts(text, at, front, seq![digit_char(n % 16)]);
        assert(digits == front + seq![digit_char(n % 16)]);
        lemma_hex_text_value(text, at, n / 16);
        assert(text[at + (digits.len() - 1)] == digits[digits.len() - 1]);
        assert(digit_value(digit_char(n % 16)) == n % 16);
    }
}

/// The parser reads a number that the printer wrote, where no further
/// digit follows it.
pub proof fn lemma_number(text: Seq<char>, at: int, value: u16)
    requires
        located(text, at, hex_text(value as nat)),
        word_ends(text, at + hex_text(value as nat).len()),
    ensures
        spec_number(text, at) == Ok::<(int, u16), (int, ErrorKind)>(
            (at + hex_text(value as nat).len(), value),
        ),
{
    let digits = hex_text(value as nat);
    let end = at + digits.len();
    lemma_hex_text_digits(value as nat);
    assert forall|k: int| at <= k < end implies is_hex_digit(#[trigger] text[k]) by {
        assert(text[at + (k - at)] == digits[k - at]);
    }
    lemma_hex_digits_run(text, at, end);
    lemma_hex_text_value(text, at, value as nat);
}

/// A run of characters of a word is counted in full.
pub proof fn lemma_word_run(text: Seq<char>, at: int, end: int)
    requires
        0 <= at <= end <= text.len(),
        forall|k: int| at <= k < end ==> is_word(#[trigger] text[k]),
        word_ends(text, end),
    ensures
        word_run(text, at) == end - at,
    decreases end - at,
{
    if at < end {
        lemma_word_run(text, at + 1, end);
    }
}

/// The parser reads an identifier where one stands and no further
/// character of a word follows it.
pub proof fn lemma_identifier(text: Seq<char>, at: int, name: Seq<char>)
    requires
        is_identifier(name),
        located(text, at, name),
        word_ends(text, at + name.len()),
    ensures
        spec_identifier(text, at) == Ok::<(int, Seq<char>), (int, ErrorKind)>(
            (at + name.len(), name),
        ),
{
    let end = at + name.len();
    assert(text[at + 0] == name[0]);
    assert forall|k: int| at + 1 <= k < end implies is_word(#[trigger] text[k]) by {
        assert(text[at + (k - at)] == name[k - at]);
    }
    lemma_word_run(text, at + 1, end);
    assert(text.subrange(at, end) =~= name) by {
        assert forall|k: int| 0 <= k < name.len() implies text.subrange(at, end)[k] == name[k] by {
            assert(text[at + k] == name[k]);
        }
    }
}

/// The parser reads a literal that the printer wrote.
pub proof fn lemma_hex_literal(text: Seq<char>, at: int, value: u16)
    requires
        located(text, at, seq!['$'] + hex_text(value as nat)),
        word_ends(text, at + 1 + hex_text(value as nat).len()),
    ensures
        spec_hex_literal(text, at) == Ok::<(int, ExprTree), (int, ErrorKind)>(
            (at + 1 + hex_text(value as nat).len(), ExprTree::HexLiteral(value)),
        ),
{
    lemma_located_parts(text, at, seq!['$'], hex_text(value as nat));
    assert(text[at + 0] == seq!['$'][0]);
    lemma_number(text, at + 1, value);
}

/// The parser reads an address that the printer wrote.
pub proof fn lemma_address(text: Seq<char>, at: int, value: u16)
    requires
        located(text, at, seq!['&'] + hex_text(value as nat)),
        word_ends(text, at + 1 + hex_text(value as nat).len()),
    ensures
        spec_address(text, at) == Ok::<(int, ExprTree), (int, ErrorKind)>(
            (at + 1 + hex_text(value as nat).len(), ExprTree::Address(value)),
        ),
{
    lemma_located_parts(text, at, seq!['&'], hex_text(value as nat));
    assert(text[at + 0] == seq!['&'][0]);
    lemma_number(text, at + 1, value);
}

/// The parser reads a variable that the printer wrote.
pub proof fn lemma_variable(text: Seq<char>, at: int, name: Seq<char>)
    requires
        is_identifier(name),
        located(text, at, seq!['!'] + name),
        word_ends(text, at + 1 + name.len()),
    ensures
        spec_variable(text, at) == Ok::<(int, ExprTree), (int, ErrorKind)>(
            (at + 1 + name.len(), ExprTree::Variable(name)),
        ),
{
    lemma_located_parts(text, at, seq!['!'], name);
    assert(text[at + 0] == seq!['!'][0]);
    lemma_identifier(text, at + 1, name);
}

} // verus!
