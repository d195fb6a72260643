//! The shapes of instructions: a mnemonic and its operands.
//!
//! The mnemonic is matched without regard to case and is followed by at
//! least one blank, unless the instruction has no operand. Operands are
//! parted by commas, with blanks around a comma as one likes, and blanks
//! may follow the last operand.

use vstd::prelude::*;
use crate::assembler::parser::ast::{Expr, ExprTree, Register};
use crate::assembler::parser::error::{finish, parse_is, result_is, ErrorKind, Parse, ParseError};
use crate::assembler::parser::expressions::{
    address_expr_at, literal_expr_at, spec_address_expr, spec_literal_expr,
};
use crate::assembler::parser::scan::{blanks, char_at, has_char, has_word, skip_blanks, word_at, Source};
use crate::assembler::parser::types::{
    register_at, register_pointer_at, spec_register, spec_register_pointer,
};
use crate::text::characters;

verus! {

/// A mnemonic with operands to follow: the word, in either case, and one
/// blank or more.
pub open spec fn spec_mnemonic(text: Seq<char>, at: int, mnemonic: Seq<char>) -> Parse<()> {
    if !has_word(text, at, mnemonic) {
        Err((at, ErrorKind::Tag))
    } else {
        let after = at + mnemonic.len();
        if blanks(text, after) == 0 {
            Err((after, ErrorKind::Space))
        } else {
            Ok((after + blanks(text, after), ()))
        }
    }
}

/// A comma between operands, with blanks on either side as one likes.
pub open spec fn spec_comma(text: Seq<char>, at: int) -> Parse<()> {
    let comma_at = at + blanks(text, at);
    if has_char(text, comma_at, ',') {
        Ok((comma_at + 1 + blanks(text, comma_at + 1), ()))
    } else {
        Err((comma_at, ErrorKind::Char))
    }
}

/// An instruction with one operand: the mnemonic, the operand, and blanks
/// as one likes.
pub open spec fn spec_one<A>(
    text: Seq<char>,
    at: int,
    mnemonic: Seq<char>,
    operand: spec_fn(Seq<char>, int) -> Parse<A>,
) -> Parse<A> {
    match spec_mnemonic(text, at, mnemonic) {
        Ok((operand_at, _)) => match operand(text, operand_at) {
            Ok((end, value)) => Ok((end + blanks(text, end), value)),
            Err(error) => Err(error),
        },
        Err(error) => Err(error),
    }
}

/// Two operands with a comma between them.
pub open spec fn spec_pair<A, B>(
    text: Seq<char>,
    at: int,
    first: spec_fn(Seq<char>, int) -> Parse<A>,
    second: spec_fn(Seq<char>, int) -> Parse<B>,
) -> Parse<(A, B)> {
    match first(text, at) {
        Ok((comma_at, a)) => match spec_comma(text, comma_at) {
            Ok((second_at, _)) => match second(text, second_at) {
                Ok((end, b)) => Ok((end, (a, b))),
                Err(error) => Err(error),
            },
            Err(error) => Err(error),
        },
        Err(error) => Err(error),
    }
}

/// An instruction with two operands: the mnemonic, the operands with a
/// comma between them, and blanks as one likes.
pub open spec fn spec_two<A, B>(
    text: Seq<char>,
    at: int,
    mnemonic: Seq<char>,
    first: spec_fn(Seq<char>, int) -> Parse<A>,
    second: spec_fn(Seq<char>, int) -> Parse<B>,
) -> Parse<(A, B)> {
    spec_one(text, at, mnemonic, |t: Seq<char>, i: int| spec_pair(t, i, first, second))
}

/// The mnemonic alone, and blanks as one likes.
pub open spec fn spec_no_arg(text: Seq<char>, at: int, mnemonic: Seq<char>) -> Parse<()> {
    if !has_word(text, at, mnemonic) {
        Err((at, ErrorKind::Tag))
    } else {
        Ok((at + mnemonic.len() + blanks(text, at + mnemonic.len()), ()))
    }
}

/// The mnemonic and a literal operand.
pub open spec fn spec_lit(text: Seq<char>, at: int, mnemonic: Seq<char>) -> Parse<ExprTree> {
    spec_one(text, at, mnemonic, |t: Seq<char>, i: int| spec_literal_expr(t, i))
}

/// The mnemonic and a register.
pub open spec fn spec_reg(text: Seq<char>, at: int, mnemonic: Seq<char>) -> Parse<Register> {
    spec_one(text, at, mnemonic, |t: Seq<char>, i: int| spec_register(t, i))
}

/// The mnemonic, a literal operand and an address operand.
pub open spec fn spec_lit_mem(text: Seq<char>, at: int, mnemonic: Seq<char>) -> Parse<
    (ExprTree, ExprTree),
> {
    spec_two(
        text,
        at,
        mnemonic,
        |t: Seq<char>, i: int| spec_literal_expr(t, i),
        |t: Seq<char>, i: int| spec_address_expr(t, i),
    )
}

/// The mnemonic, a literal operand and a register.
pub open spec fn spec_lit_reg(text: Seq<char>, at: int, mnemonic: Seq<char>) -> Parse<
    (ExprTree, Register),
> {
    spec_two(
        text,
        at,
        mnemonic,
        |t: Seq<char>, i: int| spec_literal_expr(t, i),
        |t: Seq<char>, i: int| spec_register(t, i),
    )
}

/// The mnemonic, an address operand and a register.
pub open spec fn spec_mem_reg(text: Seq<char>, at: int, mnemonic: Seq<char>) -> Parse<
    (ExprTree, Register),
> {
    spec_two(
        text,
        at,
        mnemonic,
        |t: Seq<char>, i: int| spec_address_expr(t, i),
        |t: Seq<char>, i: int| spec_register(t, i),
    )
}

/// The mnemonic, a register and a literal operand.
pub open spec fn spec_reg_lit(text: Seq<char>, at: int, mnemonic: Seq<char>) -> Parse<
    (Register, ExprTree),
> {
    spec_two(
        text,
        at,
        mnemonic,
        |t: Seq<char>, i: int| spec_register(t, i),
        |t: Seq<char>, i: int| spec_literal_expr(t, i),
    )
}

/// The mnemonic, a register and an address operand.
pub open spec fn spec_reg_mem(text: Seq<char>, at: int, mnemonic: Seq<char>) -> Parse<
    (Register, ExprTree),
> {
    spec_two(
        text,
        at,
        mnemonic,
        |t: Seq<char>, i: int| spec_register(t, i),
        |t: Seq<char>, i: int| spec_address_expr(t, i),
    )
}

/// The mnemonic and two registers.
pub open spec fn spec_reg_reg(text: Seq<char>, at: int, mnemonic: Seq<char>) -> Parse<
    (Register, Register),
> {
    spec_two(
        text,
        at,
        mnemonic,
        |t: Seq<char>, i: int| spec_register(t, i),
        |t: Seq<char>, i: int| spec_register(t, i),
    )
}

/// The mnemonic, a register behind `&` and a register.
pub open spec fn spec_reg_ptr_reg(text: Seq<char>, at: int, mnemonic: Seq<char>) -> Parse<
    (Register, Register),
> {
    spec_two(
        text,
        at,
        mnemonic,
        |t: Seq<char>, i: int| spec_register_pointer(t, i),
        |t: Seq<char>, i: int| spec_register(t, i),
    )
}

/// The mnemonic, a literal operand, a register behind `&` and a register.
pub open spec fn spec_lit_offset_reg(text: Seq<char>, at: int, mnemonic: Seq<char>) -> Parse<
    (ExprTree, (Register, Register)),
> {
    spec_two(
        text,
        at,
        mnemonic,
        |t: Seq<char>, i: int| spec_literal_expr(t, i),
        |t: Seq<char>, i: int|
            spec_pair(
                t,
                i,
                |t: Seq<char>, i: int| spec_register_pointer(t, i),
                |t: Seq<char>, i: int| spec_register(t, i),
            ),
    )
}

/// Parses a mnemonic and the blanks behind it in `source` from `at`.
pub fn mnemonic_at(source: &Source, at: usize, mnemonic: &[char]) -> (result: Result<
    (usize, ()),
    (usize, ErrorKind),
>)
    requires
        at <= source@.len(),
    ensures
        parse_is(result, spec_mnemonic(source@, at as int, mnemonic@)),
        result matches Ok((end, _)) ==> at < end <= source@.len(),
        result matches Err((place, _)) ==> at <= place <= source@.len(),
{
    let text = source.chars();
    if !word_at(text, at, mnemonic) {
        return Err((at, ErrorKind::Tag));
    }
    let after = at + mnemonic.len();
    let end = skip_blanks(text, after);
    if end == after {
        return Err((after, ErrorKind::Space));
    }
    Ok((end, ()))
}

/// Parses a comma and the blanks around it in `source` from `at`.
pub fn comma_at(source: &Source, at: usize) -> (result: Result<(usize, ()), (usize, ErrorKind)>)
    requires
        at <= source@.len(),
    ensures
        parse_is(result, spec_comma(source@, at as int)),
        result matches Ok((end, _)) ==> at < end <= source@.len(),
        result matches Err((place, _)) ==> at <= place <= source@.len(),
{
    let text = source.chars();
    let comma = skip_blanks(text, at);
    if !char_at(text, comma, ',') {
        return Err((comma, ErrorKind::Char));
    }
    Ok((skip_blanks(text, comma + 1), ()))
}

/// Parses the mnemonic alone in `source` from `at`.
pub fn no_arg_at(source: &Source, at: usize, mnemonic: &[char]) -> (result: Result<
    (usize, ()),
    (usize, ErrorKind),
>)
    requires
        at <= source@.len(),
    ensures
        parse_is(result, spec_no_arg(source@, at as int, mnemonic@)),
        result matches Ok((end, _)) ==> at <= end <= source@.len(),
        result matches Err((place, _)) ==> at <= place <= source@.len(),
{
    let text = source.chars();
    if !word_at(text, at, mnemonic) {
        return Err((at, ErrorKind::Tag));
    }
    Ok((skip_blanks(text, at + mnemonic.len()), ()))
}

/// Parses the mnemonic and a literal operand in `source` from `at`.
pub fn lit_at(source: &Source, at: usize, mnemonic: &[char]) -> (result: Result<
    (usize, Expr),
    (usize, ErrorKind),
>)
    requires
        at <= source@.len(),
    ensures
        parse_is(result, spec_lit(source@, at as int, mnemonic@)),
        result matches Ok((end, _)) ==> at < end <= source@.len(),
        result matches Err((place, _)) ==> at <= place <= source@.len(),
{
    let (at, _) = mnemonic_at(source, at, mnemonic)?;
    let (at, literal) = literal_expr_at(source, at)?;
    Ok((skip_blanks(source.chars(), at), literal))
}

/// Parses the mnemonic and a register in `source` from `at`.
pub fn reg_at(source: &Source, at: usize, mnemonic: &[char]) -> (result: Result<
    (usize, Register),
    (usize, ErrorKind),
>)
    requires
        at <= source@.len(),
    ensures
        parse_is(result, spec_reg(source@, at as int, mnemonic@)),
        result matches Ok((end, _)) ==> at < end <= source@.len(),
        result matches Err((place, _)) ==> at <= place <= source@.len(),
{
    let (at, _) = mnemonic_at(source, at, mnemonic)?;
    let (at, register) = register_at(source, at)?;
    Ok((skip_blanks(source.chars(), at), register))
}

/// Parses the mnemonic, a literal operand and an address operand in
/// `source` from `at`.
pub fn lit_mem_at(source: &Source, at: usize, mnemonic: &[char]) -> (result: Result<
    (usize, (Expr, Expr)),
    (usize, ErrorKind),
>)
    requires
        at <= source@.len(),
    ensures
        parse_is(result, spec_lit_mem(source@, at as int, mnemonic@)),
        result matches Ok((end, _)) ==> at < end <= source@.len(),
        result matches Err((place, _)) ==> at <= place <= source@.len(),
{
    let (at, _) = mnemonic_at(source, at, mnemonic)?;
    let (at, literal) = literal_expr_at(source, at)?;
    let (at, _) = comma_at(source, at)?;
    let (at, address) = address_expr_at(source, at)?;
    Ok((skip_blanks(source.chars(), at), (literal, address)))
}

/// Parses the mnemonic, a literal operand, a register behind `&` and a
/// register in `source` from `at`.
pub fn lit_offset_reg_at(source: &Source, at: usize, mnemonic: &[char]) -> (result: Result<
    (usize, (Expr, (Register, Register))),
    (usize, ErrorKind),
>)
    requires
        at <= source@.len(),
    ensures
        parse_is(result, spec_lit_offset_reg(source@, at as int, mnemonic@)),
        result matches Ok((end, _)) ==> at < end <= source@.len(),
        result matches Err((place, _)) ==> at <= place <= source@.len(),
{
    let (at, _) = mnemonic_at(source, at, mnemonic)?;
    let (at, literal) = literal_expr_at(source, at)?;
    let (at, _) = comma_at(source, at)?;
    let (at, pointer) = register_pointer_at(source, at)?;
    let (at, _) = comma_at(source, at)?;
    let (at, register) = register_at(source, at)?;
    Ok((skip_blanks(source.chars(), at), (literal, (pointer, register))))
}

/// Parses the mnemonic, a literal operand and a register in `source` from
/// `at`.
pub fn lit_reg_at(source: &Source, at: usize, mnemonic: &[char]) -> (result: Result<
    (usize, (Expr, Register)),
    (usize, ErrorKind),
>)
    requires
        at <= source@.len(),
    ensures
        parse_is(result, spec_lit_reg(source@, at as int, mnemonic@)),
        result matches Ok((end, _)) ==> at < end <= source@.len(),
        result matches Err((place, _)) ==> at <= place <= source@.len(),
{
    let (at, _) = mnemonic_at(source, at, mnemonic)?;
    let (at, literal) = literal_expr_at(source, at)?;
    let (at, _) = comma_at(source, at)?;
    let (at, register) = register_at(source, at)?;
    Ok((skip_blanks(source.chars(), at), (literal, register)))
}

/// Parses the mnemonic, an address operand and a register in `source` from
/// `at`.
pub fn mem_reg_at(source: &Source, at: usize, mnemonic: &[char]) -> (result: Result<
    (usize, (Expr, Register)),
    (usize, ErrorKind),
>)
    requires
        at <= source@.len(),
    ensures
        parse_is(result, spec_mem_reg(source@, at as int, mnemonic@)),
        result matches Ok((end, _)) ==> at < end <= source@.len(),
        result matches Err((place, _)) ==> at <= place <= source@.len(),
{
    let (at, _) = mnemonic_at(source, at, mnemonic)?;
    let (at, address) = address_expr_at(source, at)?;
    let (at, _) = comma_at(source, at)?;
    let (at, register) = register_at(source, at)?;
    Ok((skip_blanks(source.chars(), at), (address, register)))
}

/// Parses the mnemonic, a register and a literal operand in `source` from
/// `at`.
pub fn reg_lit_at(source: &Source, at: usize, mnemonic: &[char]) -> (result: Result<
    (usize, (Register, Expr)),
    (usize, ErrorKind),
>)
    requires
        at <= source@.len(),
    ensures
        parse_is(result, spec_reg_lit(source@, at as int, mnemonic@)),
        result matches Ok((end, _)) ==> at < end <= source@.len(),
        result matches Err((place, _)) ==> at <= place <= source@.len(),
{
    let (at, _) = mnemonic_at(source, at, mnemonic)?;
    let (at, register) = register_at(source, at)?;
    let (at, _) = comma_at(source, at)?;
    let (at, literal) = literal_expr_at(source, at)?;
    Ok((skip_blanks(source.chars(), at), (register, literal)))
}

/// Parses the mnemonic, a register and an address operand in `source` from
/// `at`.
pub fn reg_mem_at(source: &Source, at: usize, mnemonic: &[char]) -> (result: Result<
    (usize, (Register, Expr)),
    (usize, ErrorKind),
>)
    requires
        at <= source@.len(),
    ensures
        parse_is(result, spec_reg_mem(source@, at as int, mnemonic@)),
        result matches Ok((end, _)) ==> at < end <= source@.len(),
        result matches Err((place, _)) ==> at <= place <= source@.len(),
{
    let (at, _) = mnemonic_at(source, at, mnemonic)?;
    let (at, register) = register_at(source, at)?;
    let (at, _) = comma_at(source, at)?;
    let (at, address) = address_expr_at(source, at)?;
    Ok((skip_blanks(source.chars(), at), (register, address)))
}

/// Parses the mnemonic and two registers in `source` from `at`.
pub fn reg_reg_at(source: &Source, at: usize, mnemonic: &[char]) -> (result: Result<
    (usize, (Register, Register)),
    (usize, ErrorKind),
>)
    requires
        at <= source@.len(),
    ensures
        parse_is(result, spec_reg_reg(source@, at as int, mnemonic@)),
        result matches Ok((end, _)) ==> at < end <= source@.len(),
        result matches Err((place, _)) ==> at <= place <= source@.len(),
{
    let (at, _) = mnemonic_at(source, at, mnemonic)?;
    let (at, first) = register_at(source, at)?;
    let (at, _) = comma_at(source, at)?;
    let (at, second) = register_at(source, at)?;
    Ok((skip_blanks(source.chars(), at), (first, second)))
}

/// Parses the mnemonic, a register behind `&` and a register in `source`
/// from `at`.
pub fn reg_ptr_reg_at(source: &Source, at: usize, mnemonic: &[char]) -> (result: Result<
    (usize, (Register, Register)),
    (usize, ErrorKind),
>)
    requires
        at <= source@.len(),
    ensures
        parse_is(result, spec_reg_ptr_reg(source@, at as int, mnemonic@)),
        result matches Ok((end, _)) ==> at < end <= source@.len(),
        result matches Err((place, _)) ==> at <= place <= source@.len(),
{
    let (at, _) = mnemonic_at(source, at, mnemonic)?;
    let (at, pointer) = register_pointer_at(source, at)?;
    let (at, _) = comma_at(source, at)?;
    let (at, register) = register_at(source, at)?;
    Ok((skip_blanks(source.chars(), at), (pointer, register)))
}

/// Parses the mnemonic and a literal at the start of `input`.
pub fn lit<'a>(mnemonic: &str, input: &'a str) -> (result: Result<(&'a str, Expr), ParseError<'a>>)
    ensures
        result_is(input, result, spec_lit(input@, 0, mnemonic@)),
{
    let source = Source::new(input);
    let mnemonic = characters(mnemonic);
    finish(
        input,
        source.len(),
        lit_at(&source, 0, mnemonic.as_slice()),
        Ghost(spec_lit(input@, 0, mnemonic@)),
    )
}

/// Parses the mnemonic and a literal and an address at the start of `input`.
pub fn lit_mem<'a>(
    mnemonic: &str,
    input: &'a str,
) -> (result: Result<
    (&'a str, (Expr, Expr)),
    ParseError<'a>,
>)
    ensures
        result_is(input, result, spec_lit_mem(input@, 0, mnemonic@)),
{
    let source = Source::new(input);
    let mnemonic = characters(mnemonic);
    finish(
        input,
        source.len(),
        lit_mem_at(&source, 0, mnemonic.as_slice()),
        Ghost(spec_lit_mem(input@, 0, mnemonic@)),
    )
}

/// Parses the mnemonic and a literal, a register behind `&` and a register at the start of `input`.
pub fn lit_offset_reg<'a>(
    mnemonic: &str,
    input: &'a str,
) -> (result: Result<
    (&'a str, (Expr, (Register, Register))),
    ParseError<'a>,
>)
    ensures
        result_is(input, result, spec_lit_offset_reg(input@, 0, mnemonic@)),
{
    let source = Source::new(input);
    let mnemonic = characters(mnemonic);
    finish(
        input,
        source.len(),
        lit_offset_reg_at(&source, 0, mnemonic.as_slice()),
        Ghost(spec_lit_offset_reg(input@, 0, mnemonic@)),
    )
}

/// Parses the mnemonic and a literal and a register at the start of `input`.
pub fn lit_reg<'a>(
    mnemonic: &str,
    input: &'a str,
) -> (result: Result<
    (&'a str, (Expr, Register)),
    ParseError<'a>,
>)
    ensures
        result_is(input, result, spec_lit_reg(input@, 0, mnemonic@)),
{
    let source = Source::new(input);
    let mnemonic = characters(mnemonic);
    finish(
        input,
        source.len(),
        lit_reg_at(&source, 0, mnemonic.as_slice()),
        Ghost(spec_lit_reg(input@, 0, mnemonic@)),
    )
}

/// Parses the mnemonic and an address and a register at the start of `input`.
pub fn mem_reg<'a>(
    mnemonic: &str,
    input: &'a str,
) -> (result: Result<
    (&'a str, (Expr, Register)),
    ParseError<'a>,
>)
    ensures
        result_is(input, result, spec_mem_reg(input@, 0, mnemonic@)),
{
    let source = Source::new(input);
    let mnemonic = characters(mnemonic);
    finish(
        input,
        source.len(),
        mem_reg_at(&source, 0, mnemonic.as_slice()),
        Ghost(spec_mem_reg(input@, 0, mnemonic@)),
    )
}

/// Parses the mnemonic alone at the start of `input`.
pub fn no_arg<'a>(mnemonic: &str, input: &'a str) -> (result: Result<(&'a str, ()), ParseError<'a>>)
    ensures
        result_is(input, result, spec_no_arg(input@, 0, mnemonic@)),
{
    let source = Source::new(input);
    let mnemonic = characters(mnemonic);
    finish(
        input,
        source.len(),
        no_arg_at(&source, 0, mnemonic.as_slice()),
        Ghost(spec_no_arg(input@, 0, mnemonic@)),
    )
}

/// Parses the mnemonic and a register at the start of `input`.
pub fn reg<'a>(
    mnemonic: &str,
    input: &'a str,
) -> (result: Result<
    (&'a str, Register),
    ParseError<'a>,
>)
    ensures
        result_is(input, result, spec_reg(input@, 0, mnemonic@)),
{
    let source = Source::new(input);
    let mnemonic = characters(mnemonic);
    finish(
        input,
        source.len(),
        reg_at(&source, 0, mnemonic.as_slice()),
        Ghost(spec_reg(input@, 0, mnemonic@)),
    )
}

/// Parses the mnemonic and a register and a literal at the start of `input`.
pub fn reg_lit<'a>(
    mnemonic: &str,
    input: &'a str,
) -> (result: Result<
    (&'a str, (Register, Expr)),
    ParseError<'a>,
>)
    ensures
        result_is(input, result, spec_reg_lit(input@, 0, mnemonic@)),
{
    let source = Source::new(input);
    let mnemonic = characters(mnemonic);
    finish(
        input,
        source.len(),
        reg_lit_at(&source, 0, mnemonic.as_slice()),
        Ghost(spec_reg_lit(input@, 0, mnemonic@)),
    )
}

/// Parses the mnemonic and a register and an address at the start of `input`.
pub fn reg_mem<'a>(
    mnemonic: &str,
    input: &'a str,
) -> (result: Result<
    (&'a str, (Register, Expr)),
    ParseError<'a>,
>)
    ensures
        result_is(input, result, spec_reg_mem(input@, 0, mnemonic@)),
{
    let source = Source::new(input);
    let mnemonic = characters(mnemonic);
    finish(
        input,
        source.len(),
        reg_mem_at(&source, 0, mnemonic.as_slice()),
        Ghost(spec_reg_mem(input@, 0, mnemonic@)),
    )
}

/// Parses the mnemonic and two registers at the start of `input`.
pub fn reg_reg<'a>(
    mnemonic: &str,
    input: &'a str,
) -> (result: Result<
    (&'a str, (Register, Register)),
    ParseError<'a>,
>)
    ensures
        result_is(input, result, spec_reg_reg(input@, 0, mnemonic@)),
{
    let source = Source::new(input);
    let mnemonic = characters(mnemonic);
    finish(
        input,
        source.len(),
        reg_reg_at(&source, 0, mnemonic.as_slice()),
        Ghost(spec_reg_reg(input@, 0, mnemonic@)),
    )
}

/// Parses the mnemonic and a register behind `&` and a register at the start of `input`.
pub fn reg_ptr_reg<'a>(
    mnemonic: &str,
    input: &'a str,
) -> (result: Result<
    (&'a str, (Register, Register)),
    ParseError<'a>,
>)
    ensures
        result_is(input, result, spec_reg_ptr_reg(input@, 0, mnemonic@)),
{
    let source = Source::new(input);
    let mnemonic = characters(mnemonic);
    finish(
        input,
        source.len(),
        reg_ptr_reg_at(&source, 0, mnemonic.as_slice()),
        Ghost(spec_reg_ptr_reg(input@, 0, mnemonic@)),
    )
}

} // verus!
