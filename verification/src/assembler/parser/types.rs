//! Numbers, names and registers: the words of the language.

use vstd::prelude::*;
use crate::assembler::parser::ast::{Expr, ExprKind, ExprTree, Register};
use crate::assembler::parser::error::{finish, parse_is, result_is, ErrorKind, Parse, ParseError};
use crate::assembler::parser::scan::{
    alpha, char_at, digit_value, has_char, has_word, hex_digit, is_alpha, is_hex_digit, is_word,
    word_at, word_character, Source,
};
use crate::text::characters;

verus! {

/// The number of hexadecimal digits in `text` from `at` on, up to the first
/// character that is none.
pub open spec fn hex_digits(text: Seq<char>, at: int) -> nat
    decreases text.len() - at,
{
    if 0 <= at < text.len() && is_hex_digit(text[at]) {
        1 + hex_digits(text, at + 1)
    } else {
        0
    }
}

/// The number that the hexadecimal digits of `text` from `from` up to `to`
/// spell.
pub open spec fn hex_value(text: Seq<char>, from: int, to: int) -> nat
    decreases to - from,
{
    if to <= from {
        0
    } else {
        (16 * hex_value(text, from, to - 1) + digit_value(text[to - 1])) as nat
    }
}

/// The number of characters of an identifier in `text` from `at` on, up to
/// the first character that cannot stand in one.
pub open spec fn word_run(text: Seq<char>, at: int) -> nat
    decreases text.len() - at,
{
    if 0 <= at < text.len() && is_word(text[at]) {
        1 + word_run(text, at + 1)
    } else {
        0
    }
}

/// A number: one hexadecimal digit or more, as many as there are, which
/// spell a number that fits in 16 bits.
pub open spec fn spec_number(text: Seq<char>, at: int) -> Parse<u16> {
    let count = hex_digits(text, at);
    if count == 0 {
        Err((at, ErrorKind::HexDigit))
    } else if hex_value(text, at, at + count) > u16::MAX {
        Err((at, ErrorKind::MapRes))
    } else {
        Ok((at + count, hex_value(text, at, at + count) as u16))
    }
}

/// A literal: `$` and a number.
pub open spec fn spec_hex_literal(text: Seq<char>, at: int) -> Parse<ExprTree> {
    if !has_char(text, at, '$') {
        Err((at, ErrorKind::Char))
    } else {
        match spec_number(text, at + 1) {
            Ok((end, value)) => Ok((end, ExprTree::HexLiteral(value))),
            Err(error) => Err(error),
        }
    }
}

/// An address: `&` and a number.
pub open spec fn spec_address(text: Seq<char>, at: int) -> Parse<ExprTree> {
    if !has_char(text, at, '&') {
        Err((at, ErrorKind::Char))
    } else {
        match spec_number(text, at + 1) {
            Ok((end, value)) => Ok((end, ExprTree::Address(value))),
            Err(error) => Err(error),
        }
    }
}

/// An identifier: a letter or `_`, then letters, digits and `_`, as many as
/// there are.
pub open spec fn spec_identifier(text: Seq<char>, at: int) -> Parse<Seq<char>> {
    if 0 <= at < text.len() && (is_alpha(text[at]) || text[at] == '_') {
        let end = at + 1 + word_run(text, at + 1);
        Ok((end, text.subrange(at, end)))
    } else {
        Err((at, ErrorKind::Tag))
    }
}

/// A variable: `!` and an identifier.
pub open spec fn spec_variable(text: Seq<char>, at: int) -> Parse<ExprTree> {
    if !has_char(text, at, '!') {
        Err((at, ErrorKind::Tag))
    } else {
        match spec_identifier(text, at + 1) {
            Ok((end, name)) => Ok((end, ExprTree::Variable(name))),
            Err(error) => Err(error),
        }
    }
}

/// The name of a register, in lower case.
pub open spec fn register_name(register: Register) -> Seq<char> {
    match register {
        Register::R1 => "r1"@,
        Register::R2 => "r2"@,
        Register::R3 => "r3"@,
        Register::R4 => "r4"@,
        Register::R5 => "r5"@,
        Register::R6 => "r6"@,
        Register::R7 => "r7"@,
        Register::R8 => "r8"@,
        Register::Sp => "sp"@,
        Register::Fp => "fp"@,
        Register::Ip => "ip"@,
        Register::Acc => "acc"@,
    }
}

/// Whether the name of `register` stands in `text` at `at`, in either case.
pub open spec fn names(text: Seq<char>, at: int, register: Register) -> bool {
    has_word(text, at, register_name(register))
}

/// The register whose name stands in `text` at `at`, in either case: the
/// first one of `r1` to `r8`, `sp`, `fp`, `ip` and `acc`.
pub open spec fn named_register(text: Seq<char>, at: int) -> Option<Register> {
    if names(text, at, Register::R1) {
        Some(Register::R1)
    } else if names(text, at, Register::R2) {
        Some(Register::R2)
    } else if names(text, at, Register::R3) {
        Some(Register::R3)
    } else if names(text, at, Register::R4) {
        Some(Register::R4)
    } else if names(text, at, Register::R5) {
        Some(Register::R5)
    } else if names(text, at, Register::R6) {
        Some(Register::R6)
    } else if names(text, at, Register::R7) {
        Some(Register::R7)
    } else if names(text, at, Register::R8) {
        Some(Register::R8)
    } else if names(text, at, Register::Sp) {
        Some(Register::Sp)
    } else if names(text, at, Register::Fp) {
        Some(Register::Fp)
    } else if names(text, at, Register::Ip) {
        Some(Register::Ip)
    } else if names(text, at, Register::Acc) {
        Some(Register::Acc)
    } else {
        None
    }
}

/// A register: its name, in either case.
pub open spec fn spec_register(text: Seq<char>, at: int) -> Parse<Register> {
    match named_register(text, at) {
        Some(register) => Ok((at + register_name(register).len(), register)),
        None => Err((at, ErrorKind::Tag)),
    }
}

/// A register that holds an address: `&` and a register.
pub open spec fn spec_register_pointer(text: Seq<char>, at: int) -> Parse<Register> {
    if !has_char(text, at, '&') {
        Err((at, ErrorKind::Char))
    } else {
        spec_register(text, at + 1)
    }
}

/// Whether a parse from `at` ended within the text, behind `at` where
/// something was read and not before `at` where nothing was.
pub open spec fn advances<V>(text: Seq<char>, at: int, parse: Parse<V>) -> bool {
    match parse {
        Ok((end, _)) => at < end <= text.len(),
        Err((place, _)) => at <= place <= text.len(),
    }
}

/// The hexadecimal digits and the characters of a word that are counted
/// from a place in the text on end within the text.
pub proof fn lemma_runs_within(text: Seq<char>, at: int)
    requires
        0 <= at <= text.len(),
    ensures
        at + hex_digits(text, at) <= text.len(),
        at + word_run(text, at) <= text.len(),
    decreases text.len() - at,
{
    if at < text.len() {
        lemma_runs_within(text, at + 1);
    }
}

/// A word of the language is never empty and never reaches beyond the
/// text.
pub proof fn lemma_words_advance(text: Seq<char>, at: int)
    requires
        0 <= at <= text.len(),
    ensures
        advances(text, at, spec_number(text, at)),
        advances(text, at, spec_hex_literal(text, at)),
        advances(text, at, spec_address(text, at)),
        advances(text, at, spec_identifier(text, at)),
        advances(text, at, spec_variable(text, at)),
        advances(text, at, spec_register(text, at)),
        advances(text, at, spec_register_pointer(text, at)),
{
    lemma_runs_within(text, at);
    if at < text.len() {
        lemma_runs_within(text, at + 1);
        if at + 1 < text.len() {
            lemma_runs_within(text, at + 2);
        }
    }
    reveal_strlit("r1");
    reveal_strlit("r2");
    reveal_strlit("r3");
    reveal_strlit("r4");
    reveal_strlit("r5");
    reveal_strlit("r6");
    reveal_strlit("r7");
    reveal_strlit("r8");
    reveal_strlit("sp");
    reveal_strlit("fp");
    reveal_strlit("ip");
    reveal_strlit("acc");
}

/// Parses a number in `source` from `at`.
pub fn number_at(source: &Source, at: usize) -> (result: Result<(usize, u16), (usize, ErrorKind)>)
    requires
        at <= source@.len(),
    ensures
        parse_is(result, spec_number(source@, at as int)),
        result matches Ok((end, _)) ==> at < end <= source@.len(),
        result matches Err((place, _)) ==> place == at,
{
    let text = source.chars();
    let mut end: usize = at;
    let mut value: u32 = 0;
    let mut fits: bool = true;
    loop
        invariant
            text@ == source@,
            at <= end <= text@.len(),
            at + hex_digits(text@, at as int) == end + hex_digits(text@, end as int),
            forall|k: int| at <= k < end ==> is_hex_digit(#[trigger] text@[k]),
            fits ==> value == hex_value(text@, at as int, end as int) && value <= u16::MAX,
            !fits ==> hex_value(text@, at as int, end as int) > u16::MAX,
        ensures
            end == at + hex_digits(text@, at as int),
        decreases text@.len() - end,
    {
        if end >= text.len() {
            break;
        }
        let digit = match hex_digit(text[end]) {
            Some(digit) => digit,
            None => {
                break;
            },
        };
        proof {
            assert(hex_value(text@, at as int, end + 1) == 16 * hex_value(
                text@,
                at as int,
                end as int,
            ) + digit_value(text@[end as int]));
        }
        if fits {
            value = value * 16 + digit as u32;
            if value > 0xFFFF {
                fits = false;
            }
        }
        end += 1;
    }
    if end == at {
        Err((at, ErrorKind::HexDigit))
    } else if !fits {
        Err((at, ErrorKind::MapRes))
    } else {
        Ok((end, value as u16))
    }
}

/// Parses a literal in `source` from `at`.
pub fn hex_literal_at(
    source: &Source,
    at: usize,
) -> (result: Result<
    (usize, Expr),
    (usize, ErrorKind),
>)
    requires
        at <= source@.len(),
    ensures
        parse_is(result, spec_hex_literal(source@, at as int)),
        result matches Ok((end, _)) ==> at < end <= source@.len(),
        result matches Err((place, _)) ==> at <= place <= source@.len(),
{
    if !char_at(source.chars(), at, '$') {
        return Err((at, ErrorKind::Char));
    }
    match number_at(source, at + 1) {
        Ok((end, value)) => Ok((end, Expr { kind: ExprKind::HexLiteral(value) })),
        Err(error) => Err(error),
    }
}

/// Parses an address in `source` from `at`.
pub fn address_at(source: &Source, at: usize) -> (result: Result<(usize, Expr), (usize, ErrorKind)>)
    requires
        at <= source@.len(),
    ensures
        parse_is(result, spec_address(source@, at as int)),
        result matches Ok((end, _)) ==> at < end <= source@.len(),
        result matches Err((place, _)) ==> at <= place <= source@.len(),
{
    if !char_at(source.chars(), at, '&') {
        return Err((at, ErrorKind::Char));
    }
    match number_at(source, at + 1) {
        Ok((end, value)) => Ok((end, Expr { kind: ExprKind::Address(value) })),
        Err(error) => Err(error),
    }
}

/// Parses an identifier in `source` from `at`.
pub fn identifier_at(
    source: &Source,
    at: usize,
) -> (result: Result<
    (usize, String),
    (usize, ErrorKind),
>)
    requires
        at <= source@.len(),
    ensures
        parse_is(result, spec_identifier(source@, at as int)),
        result matches Ok((end, _)) ==> at < end <= source@.len(),
        result matches Err((place, _)) ==> place == at,
{
    let text = source.chars();
    if at >= text.len() || !(alpha(text[at]) || text[at] == '_') {
        return Err((at, ErrorKind::Tag));
    }
    let mut end: usize = at + 1;
    while end < text.len() && word_character(text[end])
        invariant
            text@ == source@,
            at < end <= text@.len(),
            at + 1 + word_run(text@, at + 1) == end + word_run(text@, end as int),
        decreases text@.len() - end,
    {
        end += 1;
    }
    Ok((end, source.copy(at, end)))
}

/// Parses a variable in `source` from `at`.
pub fn variable_at(
    source: &Source,
    at: usize,
) -> (result: Result<
    (usize, Expr),
    (usize, ErrorKind),
>)
    requires
        at <= source@.len(),
    ensures
        parse_is(result, spec_variable(source@, at as int)),
        result matches Ok((end, _)) ==> at < end <= source@.len(),
        result matches Err((place, _)) ==> at <= place <= source@.len(),
{
    if !char_at(source.chars(), at, '!') {
        return Err((at, ErrorKind::Tag));
    }
    match identifier_at(source, at + 1) {
        Ok((end, name)) => Ok((end, Expr { kind: ExprKind::Variable(name) })),
        Err(error) => Err(error),
    }
}

/// Whether `name` stands in `source` at `at`, in either case.
fn named(source: &Source, at: usize, name: &str) -> (yes: bool)
    requires
        at <= source@.len(),
    ensures
        yes == has_word(source@, at as int, name@),
        source@.len() <= usize::MAX,
{
    let name = characters(name);
    word_at(source.chars(), at, name.as_slice())
}

/// Parses a register in `source` from `at`.
pub fn register_at(
    source: &Source,
    at: usize,
) -> (result: Result<
    (usize, Register),
    (usize, ErrorKind),
>)
    requires
        at <= source@.len(),
    ensures
        parse_is(result, spec_register(source@, at as int)),
        result matches Ok((end, _)) ==> at < end <= source@.len(),
        result matches Err((place, _)) ==> place == at,
{
    proof {
        reveal_strlit("r1");
        reveal_strlit("r2");
        reveal_strlit("r3");
        reveal_strlit("r4");
        reveal_strlit("r5");
        reveal_strlit("r6");
        reveal_strlit("r7");
        reveal_strlit("r8");
        reveal_strlit("sp");
        reveal_strlit("fp");
        reveal_strlit("ip");
        reveal_strlit("acc");
    }
    if named(source, at, "r1") {
        Ok((at + 2, Register::R1))
    } else if named(source, at, "r2") {
        Ok((at + 2, Register::R2))
    } else if named(source, at, "r3") {
        Ok((at + 2, Register::R3))
    } else if named(source, at, "r4") {
        Ok((at + 2, Register::R4))
    } else if named(source, at, "r5") {
        Ok((at + 2, Register::R5))
    } else if named(source, at, "r6") {
        Ok((at + 2, Register::R6))
    } else if named(source, at, "r7") {
        Ok((at + 2, Register::R7))
    } else if named(source, at, "r8") {
        Ok((at + 2, Register::R8))
    } else if named(source, at, "sp") {
        Ok((at + 2, Register::Sp))
    } else if named(source, at, "fp") {
        Ok((at + 2, Register::Fp))
    } else if named(source, at, "ip") {
        Ok((at + 2, Register::Ip))
    } else if named(source, at, "acc") {
        Ok((at + 3, Register::Acc))
    } else {
        Err((at, ErrorKind::Tag))
    }
}

/// Parses a register behind `&` in `source` from `at`.
pub fn register_pointer_at(
    source: &Source,
    at: usize,
) -> (result: Result<
    (usize, Register),
    (usize, ErrorKind),
>)
    requires
        at <= source@.len(),
    ensures
        parse_is(result, spec_register_pointer(source@, at as int)),
        result matches Ok((end, _)) ==> at < end <= source@.len(),
        result matches Err((place, _)) ==> at <= place <= source@.len(),
{
    if !char_at(source.chars(), at, '&') {
        return Err((at, ErrorKind::Char));
    }
    register_at(source, at + 1)
}

/// Parses a literal at the start of `input`: `$` and hexadecimal digits
/// that spell a number of 16 bits.
pub fn hex_literal(input: &str) -> (result: Result<(&str, Expr), ParseError>)
    ensures
        result_is(input, result, spec_hex_literal(input@, 0)),
{
    let source = Source::new(input);
    finish(input, source.len(), hex_literal_at(&source, 0), Ghost(spec_hex_literal(input@, 0)))
}

/// Parses an address at the start of `input`: `&` and hexadecimal digits
/// that spell a number of 16 bits.
pub fn address(input: &str) -> (result: Result<(&str, Expr), ParseError>)
    ensures
        result_is(input, result, spec_address(input@, 0)),
{
    let source = Source::new(input);
    finish(input, source.len(), address_at(&source, 0), Ghost(spec_address(input@, 0)))
}

/// Parses an identifier at the start of `input`: a letter or `_`, then
/// letters, digits and `_`.
pub fn identifier(input: &str) -> (result: Result<(&str, String), ParseError>)
    ensures
        result_is(input, result, spec_identifier(input@, 0)),
{
    let source = Source::new(input);
    finish(input, source.len(), identifier_at(&source, 0), Ghost(spec_identifier(input@, 0)))
}

/// Parses a register at the start of `input`: one of `r1` to `r8`, `sp`,
/// `fp`, `ip` and `acc`, in either case.
pub fn register(input: &str) -> (result: Result<(&str, Register), ParseError>)
    ensures
        result_is(input, result, spec_register(input@, 0)),
{
    let source = Source::new(input);
    finish(input, source.len(), register_at(&source, 0), Ghost(spec_register(input@, 0)))
}

/// Parses a register behind `&` at the start of `input`.
pub fn register_pointer(input: &str) -> (result: Result<(&str, Register), ParseError>)
    ensures
        result_is(input, result, spec_register_pointer(input@, 0)),
{
    let source = Source::new(input);
    finish(
        input,
        source.len(),
        register_pointer_at(&source, 0),
        Ghost(spec_register_pointer(input@, 0)),
    )
}

/// Parses a variable at the start of `input`: `!` and an identifier.
pub fn variable(input: &str) -> (result: Result<(&str, Expr), ParseError>)
    ensures
        result_is(input, result, spec_variable(input@, 0)),
{
    let source = Source::new(input);
    finish(input, source.len(), variable_at(&source, 0), Ghost(spec_variable(input@, 0)))
}

} // verus!
