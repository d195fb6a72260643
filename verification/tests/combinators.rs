//! The grammar once more, written with the combinators of nom. On every
//! input both parsers must come to the same end.

use nom::branch::alt;
use nom::bytes::complete::{tag, tag_no_case, take};
use nom::character::complete::{alpha1, alphanumeric1, char, hex_digit1, space0, space1};
use nom::combinator::{map_parser, map_res, opt, value};
use nom::multi::fold_many0;
use nom::sequence::{delimited, pair, preceded, separated_pair, tuple};
use nom::IResult;
use std::num::ParseIntError;

use virtual_machine16_bit::assembler::parser::ast::{
    Expr, ExprKind, Instruction, InstructionKind, Operator, Register,
};
use virtual_machine16_bit::assembler::parser::error::{ErrorKind, ParseError};
use virtual_machine16_bit::assembler::parser::{expressions, instructions, types};

fn hex_literal(input: &str) -> IResult<&str, Expr> {
    preceded(
        char('$'),
        map_res(hex_digit1, |input| -> Result<Expr, ParseIntError> {
            let hex_lit = u16::from_str_radix(input, 16)?;
            Ok(Expr { kind: ExprKind::HexLiteral(hex_lit) })
        }),
    )(input)
}

fn address(input: &str) -> IResult<&str, Expr> {
    preceded(
        char('&'),
        map_res(hex_digit1, |input| -> Result<Expr, ParseIntError> {
            let address = u16::from_str_radix(input, 16)?;
            Ok(Expr { kind: ExprKind::Address(address) })
        }),
    )(input)
}

fn identifier(input: &str) -> IResult<&str, String> {
    let one_alpha = map_parser(take(1usize), alpha1);
    nom::combinator::map(
        pair(
            alt((one_alpha, tag("_"))),
            fold_many0(alt((alphanumeric1, tag("_"))), String::new(), |mut accumulator, item| {
                accumulator.push_str(item);
                accumulator
            }),
        ),
        |(first, second): (&str, String)| format!("{}{}", first, second),
    )(input)
}

fn register(input: &str) -> IResult<&str, Register> {
    alt((
        value(Register::R1, tag_no_case("r1")),
        value(Register::R2, tag_no_case("r2")),
        value(Register::R3, tag_no_case("r3")),
        value(Register::R4, tag_no_case("r4")),
        value(Register::R5, tag_no_case("r5")),
        value(Register::R6, tag_no_case("r6")),
        value(Register::R7, tag_no_case("r7")),
        value(Register::R8, tag_no_case("r8")),
        value(Register::Sp, tag_no_case("sp")),
        value(Register::Fp, tag_no_case("fp")),
        value(Register::Ip, tag_no_case("ip")),
        value(Register::Acc, tag_no_case("acc")),
    ))(input)
}

fn register_pointer(input: &str) -> IResult<&str, Register> {
    preceded(char('&'), register)(input)
}

fn variable(input: &str) -> IResult<&str, Expr> {
    nom::combinator::map(preceded(tag("!"), identifier), |identifier| Expr {
        kind: ExprKind::Variable(identifier),
    })(input)
}

fn operator(input: &str) -> IResult<&str, Operator> {
    alt((
        value(Operator::OpPlus, char('+')),
        value(Operator::OpMinus, char('-')),
        value(Operator::OpMultiply, char('*')),
    ))(input)
}

fn address_expr(input: &str) -> IResult<&str, Expr> {
    fn address_square_bracket_expr(input: &str) -> IResult<&str, Expr> {
        preceded(char('&'), square_braket_expr)(input)
    }
    alt((address, address_square_bracket_expr))(input)
}

fn element(input: &str) -> IResult<&str, Expr> {
    alt((bracketed_expr, hex_literal, variable))(input)
}

fn operator_separated(input: &str) -> IResult<&str, Expr> {
    alt((binary, element))(input)
}

fn bracketed_expr(input: &str) -> IResult<&str, Expr> {
    nom::combinator::map(
        delimited(tuple((char('('), space0)), operator_separated, tuple((space0, char(')')))),
        |expression| Expr { kind: ExprKind::Bracket(Box::new(expression)) },
    )(input)
}

fn plus_minus_operator(input: &str) -> IResult<&str, Operator> {
    delimited(
        space0,
        alt((value(Operator::OpPlus, char('+')), value(Operator::OpMinus, char('-')))),
        space0,
    )(input)
}

fn mult_operator(input: &str) -> IResult<&str, Operator> {
    delimited(space0, value(Operator::OpMultiply, char('*')), space0)(input)
}

fn term(input: &str) -> IResult<&str, Expr> {
    let (mut input, mut node) = element(input)?;
    loop {
        match opt(tuple((mult_operator, element)))(input)? {
            (remaining_input, Some((operator, right))) => {
                input = remaining_input;
                node = Expr { kind: ExprKind::Binary(Box::new(node), operator, Box::new(right)) };
            }
            _ => break,
        }
    }
    Ok((input, node))
}

fn binary(input: &str) -> IResult<&str, Expr> {
    let (mut input, mut node) = term(input)?;
    loop {
        match opt(tuple((plus_minus_operator, term)))(input)? {
            (remaining_input, Some((operator, right))) => {
                input = remaining_input;
                node = Expr { kind: ExprKind::Binary(Box::new(node), operator, Box::new(right)) };
            }
            _ => break,
        }
    }
    Ok((input, node))
}

fn literal_expr(input: &str) -> IResult<&str, Expr> {
    alt((square_braket_expr, hex_literal))(input)
}

fn square_braket_expr(input: &str) -> IResult<&str, Expr> {
    nom::combinator::map(
        delimited(tuple((char('['), space0)), operator_separated, tuple((space0, char(']')))),
        |expression| Expr { kind: ExprKind::SquareBracket(Box::new(expression)) },
    )(input)
}

fn space_delimited_comma(input: &str) -> IResult<&str, char> {
    delimited(space0, char(','), space0)(input)
}

fn no_arg<'a>(mnemonic: &'static str, input: &'a str) -> IResult<&'a str, ()> {
    nom::combinator::map(tuple((tag_no_case(mnemonic), space0)), |_| ())(input)
}

fn one<'a, A>(
    mnemonic: &'static str,
    operand: fn(&'a str) -> IResult<&'a str, A>,
    input: &'a str,
) -> IResult<&'a str, A> {
    delimited(tuple((tag_no_case(mnemonic), space1)), operand, space0)(input)
}

fn two<'a, A, B>(
    mnemonic: &'static str,
    first: fn(&'a str) -> IResult<&'a str, A>,
    second: fn(&'a str) -> IResult<&'a str, B>,
    input: &'a str,
) -> IResult<&'a str, (A, B)> {
    delimited(
        tuple((tag_no_case(mnemonic), space1)),
        separated_pair(first, space_delimited_comma, second),
        space0,
    )(input)
}

fn three<'a>(mnemonic: &'static str, input: &'a str) -> IResult<&'a str, (Expr, (Register, Register))> {
    delimited(
        tuple((tag_no_case(mnemonic), space1)),
        separated_pair(
            literal_expr,
            space_delimited_comma,
            separated_pair(register_pointer, space_delimited_comma, register),
        ),
        space0,
    )(input)
}

fn made(kind: InstructionKind<Expr>) -> Instruction {
    Instruction { kind }
}

fn lit_reg_or_reg_reg<'a>(
    mnemonic: &'static str,
    with_literal: fn(Expr, Register) -> InstructionKind<Expr>,
    with_registers: fn(Register, Register) -> InstructionKind<Expr>,
    input: &'a str,
) -> IResult<&'a str, Instruction> {
    alt((
        nom::combinator::map(|i| two(mnemonic, literal_expr, register, i), |(a, b)| made(with_literal(a, b))),
        nom::combinator::map(|i| two(mnemonic, register, register, i), |(a, b)| made(with_registers(a, b))),
    ))(input)
}

fn reg_lit_or_reg_reg<'a>(
    mnemonic: &'static str,
    with_literal: fn(Register, Expr) -> InstructionKind<Expr>,
    with_registers: fn(Register, Register) -> InstructionKind<Expr>,
    input: &'a str,
) -> IResult<&'a str, Instruction> {
    alt((
        nom::combinator::map(|i| two(mnemonic, register, literal_expr, i), |(a, b)| made(with_literal(a, b))),
        nom::combinator::map(|i| two(mnemonic, register, register, i), |(a, b)| made(with_registers(a, b))),
    ))(input)
}

fn lit_or_reg<'a>(
    mnemonic: &'static str,
    with_literal: fn(Expr) -> InstructionKind<Expr>,
    with_register: fn(Register) -> InstructionKind<Expr>,
    input: &'a str,
) -> IResult<&'a str, Instruction> {
    alt((
        nom::combinator::map(|i| one(mnemonic, literal_expr, i), |a| made(with_literal(a))),
        nom::combinator::map(|i| one(mnemonic, register, i), |a| made(with_register(a))),
    ))(input)
}

fn only_reg<'a>(
    mnemonic: &'static str,
    with_register: fn(Register) -> InstructionKind<Expr>,
    input: &'a str,
) -> IResult<&'a str, Instruction> {
    nom::combinator::map(|i| one(mnemonic, register, i), |a| made(with_register(a)))(input)
}

fn jump<'a>(
    mnemonic: &'static str,
    with_register: fn(Register, Expr) -> InstructionKind<Expr>,
    with_literal: fn(Expr, Expr) -> InstructionKind<Expr>,
    input: &'a str,
) -> IResult<&'a str, Instruction> {
    alt((
        nom::combinator::map(|i| two(mnemonic, register, address_expr, i), |(a, b)| made(with_register(a, b))),
        nom::combinator::map(|i| two(mnemonic, literal_expr, address_expr, i), |(a, b)| made(with_literal(a, b))),
    ))(input)
}

fn mov(input: &str) -> IResult<&str, Instruction> {
    alt((
        nom::combinator::map(|i| two("mov", literal_expr, address_expr, i), |(a, b)| made(InstructionKind::MovLitMem(a, b))),
        nom::combinator::map(|i| three("mov", i), |(a, (b, c))| made(InstructionKind::MovLitOffsetReg(a, b, c))),
        nom::combinator::map(|i| two("mov", literal_expr, register, i), |(a, b)| made(InstructionKind::MovLitReg(a, b))),
        nom::combinator::map(|i| two("mov", address_expr, register, i), |(a, b)| made(InstructionKind::MovMemReg(a, b))),
        nom::combinator::map(|i| two("mov", register, address_expr, i), |(a, b)| made(InstructionKind::MovRegMem(a, b))),
        nom::combinator::map(|i| two("mov", register, register, i), |(a, b)| made(InstructionKind::MovRegReg(a, b))),
        nom::combinator::map(|i| two("mov", register_pointer, register, i), |(a, b)| made(InstructionKind::MovRegPtrReg(a, b))),
    ))(input)
}

fn instruction(input: &str) -> IResult<&str, Instruction> {
    alt((
        |i| lit_reg_or_reg_reg("add", InstructionKind::AddLitReg, InstructionKind::AddRegReg, i),
        |i| lit_reg_or_reg_reg("and", InstructionKind::AndLitReg, InstructionKind::AndRegReg, i),
        |i| lit_or_reg("cal", InstructionKind::CalLit, InstructionKind::CalReg, i),
        |i| only_reg("dec", InstructionKind::DecReg, i),
        |i| nom::combinator::map(|i| no_arg("hlt", i), |_| made(InstructionKind::Hlt))(i),
        |i| only_reg("inc", InstructionKind::IncReg, i),
        |i| jump("jeq", InstructionKind::JeqRegMem, InstructionKind::JeqLitMem, i),
        |i| jump("jge", InstructionKind::JgeRegMem, InstructionKind::JgeLitMem, i),
        |i| jump("jgt", InstructionKind::JgtRegMem, InstructionKind::JgtLitMem, i),
        |i| jump("jle", InstructionKind::JleRegMem, InstructionKind::JleLitMem, i),
        |i| jump("jlt", InstructionKind::JltRegMem, InstructionKind::JltLitMem, i),
        |i| jump("jne", InstructionKind::JneRegMem, InstructionKind::JneLitMem, i),
        |i| reg_lit_or_reg_reg("lsf", InstructionKind::LsfRegLit, InstructionKind::LsfRegReg, i),
        mov,
        |i| lit_reg_or_reg_reg("mul", InstructionKind::MulLitReg, InstructionKind::MulRegReg, i),
        |i| only_reg("not", InstructionKind::NotReg, i),
        |i| lit_reg_or_reg_reg("or", InstructionKind::OrLitReg, InstructionKind::OrRegReg, i),
        |i| only_reg("pop", InstructionKind::PopReg, i),
        |i| lit_or_reg("psh", InstructionKind::PshLit, InstructionKind::PshReg, i),
        |i| nom::combinator::map(|i| no_arg("ret", i), |_| made(InstructionKind::Ret))(i),
        alt((
            |i| reg_lit_or_reg_reg("rsf", InstructionKind::RsfRegLit, InstructionKind::RsfRegReg, i),
            |i| lit_reg_or_reg_reg("sub", InstructionKind::SubLitReg, InstructionKind::SubRegReg, i),
            |i| lit_reg_or_reg_reg("xor", InstructionKind::XorLitReg, InstructionKind::XorRegReg, i),
        )),
    ))(input)
}

/// What the combinators come to, in the words of the library.
fn told<'a, T>(result: IResult<&'a str, T>) -> Result<(&'a str, T), ParseError<'a>> {
    match result {
        Ok(parsed) => Ok(parsed),
        Err(nom::Err::Error((input, kind))) => Err(ParseError {
            input,
            kind: match kind {
                nom::error::ErrorKind::Tag => ErrorKind::Tag,
                nom::error::ErrorKind::Char => ErrorKind::Char,
                nom::error::ErrorKind::HexDigit => ErrorKind::HexDigit,
                nom::error::ErrorKind::MapRes => ErrorKind::MapRes,
                nom::error::ErrorKind::Space => ErrorKind::Space,
                other => panic!("a failure that the library does not know: {:?}", other),
            },
        }),
        Err(other) => panic!("a failure that the library does not know: {:?}", other),
    }
}

const SEEDS: [&str; 40] = [
    "$12+ $34",
    "!z-$0123",
    "$1234*!abc + $23",
    "$12 + (!a - (!b)) - $34",
    "(  !fg - ( $8 *(!a-!b) ) + $5)",
    "( ($10 *!z ) +!dfg )",
    "[ $01+ $02]",
    "[$9876*!zyx + $43 ]",
    "[!a + ($2 * $3)]",
    "[*$01]",
    "[!ab +$02- ]",
    "[ $01+-!cd]",
    "&89",
    "&[$12 * $34]",
    "$ffff",
    "$10000",
    "!_12fe2_",
    "wad1_23",
    "aCc",
    "hlt",
    "ret ",
    "inc r1",
    "dec\tR2",
    "not sp",
    "pop fp",
    "psh [!a * $2]",
    "cal &r1",
    "add $1, r1",
    "and r1, r2",
    "lsf r1, $2",
    "rsf r1, r2",
    "jne r1, &[!loop]",
    "jeq $1, &2",
    "mov $1, &2",
    "mov [$12], &r3, r8",
    "mOV [!a - $4],acc ",
    "mov &89, ACC",
    "mov R1, &[$12 * $34]",
    "mov &fp, r6",
    "xor $a , ip",
];

const PIECES: [&str; 32] = [
    " ", "\t", ",", "$", "&", "!", "(", ")", "[", "]", "+", "-", "*", "_", "0", "9", "a", "f", "g",
    "r", "R", "1", "8", "acc", "sp", "mov", "or", "xor", "é", "\n", "$1", "&r1",
];

/// Texts near the seeds: each seed, and each seed with a piece put in or
/// a character taken out at a place that a counter picks.
fn corpus() -> Vec<String> {
    let mut texts: Vec<String> = vec![String::new()];
    let mut state: u32 = 0x2545_F491;
    let mut next = move |bound: usize| -> usize {
        state = state.wrapping_mul(1_664_525).wrapping_add(1_013_904_223);
        (state >> 8) as usize % bound
    };
    for seed in SEEDS {
        texts.push(String::from(seed));
        for piece in PIECES {
            texts.push(format!("{}{}", piece, seed));
            texts.push(format!("{}{}", seed, piece));
        }
        for _ in 0..60 {
            let mut chars: Vec<char> = seed.chars().collect();
            for _ in 0..1 + next(3) {
                let place = next(chars.len() + 1);
                if next(2) == 0 && place < chars.len() {
                    chars.remove(place);
                } else {
                    let piece = PIECES[next(PIECES.len())];
                    for (offset, c) in piece.chars().enumerate() {
                        chars.insert(place + offset, c);
                    }
                }
            }
            texts.push(chars.into_iter().collect());
        }
    }
    texts
}

#[test]
fn words_agree_with_the_combinators() {
    for text in corpus() {
        assert_eq!(types::hex_literal(&text), told(hex_literal(&text)), "{:?}", text);
        assert_eq!(types::address(&text), told(address(&text)), "{:?}", text);
        assert_eq!(types::identifier(&text), told(identifier(&text)), "{:?}", text);
        assert_eq!(types::register(&text), told(register(&text)), "{:?}", text);
        assert_eq!(types::register_pointer(&text), told(register_pointer(&text)), "{:?}", text);
        assert_eq!(types::variable(&text), told(variable(&text)), "{:?}", text);
    }
}

#[test]
fn expressions_agree_with_the_combinators() {
    for text in corpus() {
        assert_eq!(expressions::operator(&text), told(operator(&text)), "{:?}", text);
        assert_eq!(expressions::binary(&text), told(binary(&text)), "{:?}", text);
        assert_eq!(expressions::bracketed_expr(&text), told(bracketed_expr(&text)), "{:?}", text);
        assert_eq!(
            expressions::square_braket_expr(&text),
            told(square_braket_expr(&text)),
            "{:?}",
            text
        );
        assert_eq!(expressions::literal_expr(&text), told(literal_expr(&text)), "{:?}", text);
        assert_eq!(expressions::address_expr(&text), told(address_expr(&text)), "{:?}", text);
    }
}

#[test]
fn instructions_agree_with_the_combinators() {
    for text in corpus() {
        assert_eq!(instructions::instruction(&text), told(instruction(&text)), "{:?}", text);
        assert_eq!(instructions::mov::mov(&text), told(mov(&text)), "{:?}", text);
    }
}

#[test]
fn shapes_agree_with_the_combinators() {
    for text in corpus() {
        assert_eq!(
            instructions::formats::no_arg("hlt", &text),
            told(no_arg("hlt", &text)),
            "{:?}",
            text
        );
        assert_eq!(
            instructions::formats::lit("psh", &text),
            told(one("psh", literal_expr, &text)),
            "{:?}",
            text
        );
        assert_eq!(
            instructions::formats::reg("inc", &text),
            told(one("inc", register, &text)),
            "{:?}",
            text
        );
        assert_eq!(
            instructions::formats::lit_mem("mov", &text),
            told(two("mov", literal_expr, address_expr, &text)),
            "{:?}",
            text
        );
        assert_eq!(
            instructions::formats::lit_reg("mov", &text),
            told(two("mov", literal_expr, register, &text)),
            "{:?}",
            text
        );
        assert_eq!(
            instructions::formats::mem_reg("mov", &text),
            told(two("mov", address_expr, register, &text)),
            "{:?}",
            text
        );
        assert_eq!(
            instructions::formats::reg_lit("lsf", &text),
            told(two("lsf", register, literal_expr, &text)),
            "{:?}",
            text
        );
        assert_eq!(
            instructions::formats::reg_mem("mov", &text),
            told(two("mov", register, address_expr, &text)),
            "{:?}",
            text
        );
        assert_eq!(
            instructions::formats::reg_reg("mov", &text),
            told(two("mov", register, register, &text)),
            "{:?}",
            text
        );
        assert_eq!(
            instructions::formats::reg_ptr_reg("mov", &text),
            told(two("mov", register_pointer, register, &text)),
            "{:?}",
            text
        );
        assert_eq!(
            instructions::formats::lit_offset_reg("mov", &text),
            told(three("mov", &text)),
            "{:?}",
            text
        );
    }
}
