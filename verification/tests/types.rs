use virtual_machine16_bit::assembler::parser::ast;
use virtual_machine16_bit::assembler::parser::error::{ErrorKind, ParseError};
use virtual_machine16_bit::assembler::parser::types::{address, hex_literal, identifier, register, register_pointer, variable};

#[test]
fn types_hex_literal_test() {
    assert_eq!(
        hex_literal("$1234"),
        Ok((
            "",
            ast::Expr {
                kind: ast::ExprKind::HexLiteral(0x1234)
            }
        ))
    );
    assert_eq!(
        hex_literal("$0"),
        Ok((
            "",
            ast::Expr {
                kind: ast::ExprKind::HexLiteral(0x00)
            }
        ))
    );
    assert_eq!(
        hex_literal("$89"),
        Ok((
            "",
            ast::Expr {
                kind: ast::ExprKind::HexLiteral(0x89)
            }
        ))
    );
}

#[test]
fn types_identifier_test() {
    assert_eq!(identifier("_"), Ok(("", String::from("_"))));
    assert_eq!(identifier("d"), Ok(("", String::from("d"))));
    assert_eq!(identifier("wad1_23"), Ok(("", String::from("wad1_23"))));
    assert_eq!(identifier("_12fe2_"), Ok(("", String::from("_12fe2_"))));
    assert_eq!(identifier("9"), Err(ParseError { input: "9", kind: ErrorKind::Tag }));
    assert_eq!(identifier(" "), Err(ParseError { input: " ", kind: ErrorKind::Tag }));
    assert_eq!(identifier(""), Err(ParseError { input: "", kind: ErrorKind::Tag }));
}

#[test]
fn types_register_test() {
    assert_eq!(register("R1"), Ok(("", ast::Register::R1)));
    assert_eq!(register("r4"), Ok(("", ast::Register::R4)));
    assert_eq!(register("aCc"), Ok(("", ast::Register::Acc)));
}

#[test]
fn types_variable_test() {
    assert_eq!(
        variable("!abc"),
        Ok((
            "",
            ast::Expr {
                kind: ast::ExprKind::Variable(String::from("abc"))
            }
        ))
    );
    assert_eq!(
        variable("!_"),
        Ok((
            "",
            ast::Expr {
                kind: ast::ExprKind::Variable(String::from("_"))
            }
        ))
    );
    assert_eq!(
        variable("!ab1_cd2"),
        Ok((
            "",
            ast::Expr {
                kind: ast::ExprKind::Variable(String::from("ab1_cd2"))
            }
        ))
    );
    assert_eq!(variable("abc"), Err(ParseError { input: "abc", kind: ErrorKind::Tag }));
}

#[test]
fn parser_hex_literal_test() {
    assert_eq!(
        hex_literal("$1234"),
        Ok((
            "",
            ast::Expr {
                kind: ast::ExprKind::HexLiteral(0x1234)
            }
        ))
    );
    assert_eq!(
        hex_literal("$0"),
        Ok((
            "",
            ast::Expr {
                kind: ast::ExprKind::HexLiteral(0x00)
            }
        ))
    );
    assert_eq!(
        hex_literal("$89"),
        Ok((
            "",
            ast::Expr {
                kind: ast::ExprKind::HexLiteral(0x89)
            }
        ))
    );
}

#[test]
fn parser_identifier_test() {
    assert_eq!(identifier("_"), Ok(("", String::from("_"))));
    assert_eq!(identifier("d"), Ok(("", String::from("d"))));
    assert_eq!(identifier("wad1_23"), Ok(("", String::from("wad1_23"))));
    assert_eq!(identifier("_12fe2_"), Ok(("", String::from("_12fe2_"))));
    assert_eq!(identifier("9"), Err(ParseError { input: "9", kind: ErrorKind::Tag }));
    assert_eq!(identifier(" "), Err(ParseError { input: " ", kind: ErrorKind::Tag }));
    assert_eq!(identifier(""), Err(ParseError { input: "", kind: ErrorKind::Tag }));
}

#[test]
fn parser_register_test() {
    assert_eq!(register("R1"), Ok(("", ast::Register::R1)));
    assert_eq!(register("r4"), Ok(("", ast::Register::R4)));
    assert_eq!(register("aCc"), Ok(("", ast::Register::Acc)));
}

#[test]
fn parser_variable_test() {
    assert_eq!(
        variable("!abc"),
        Ok((
            "",
            ast::Expr {
                kind: ast::ExprKind::Variable(String::from("abc"))
            }
        ))
    );
    assert_eq!(
        variable("!_"),
        Ok((
            "",
            ast::Expr {
                kind: ast::ExprKind::Variable(String::from("_"))
            }
        ))
    );
    assert_eq!(
        variable("!ab1_cd2"),
        Ok((
            "",
            ast::Expr {
                kind: ast::ExprKind::Variable(String::from("ab1_cd2"))
            }
        ))
    );
    assert_eq!(variable("abc"), Err(ParseError { input: "abc", kind: ErrorKind::Tag }));
}

#[test]
fn hex_literal_takes_every_digit() {
    assert_eq!(
        hex_literal("$aBcD,"),
        Ok((",", ast::Expr { kind: ast::ExprKind::HexLiteral(0xABCD) }))
    );
    assert_eq!(
        hex_literal("$00000FFFF"),
        Ok(("", ast::Expr { kind: ast::ExprKind::HexLiteral(0xFFFF) }))
    );
    assert_eq!(
        hex_literal("$12g"),
        Ok(("g", ast::Expr { kind: ast::ExprKind::HexLiteral(0x12) }))
    );
}

#[test]
fn hex_literal_failures() {
    assert_eq!(hex_literal("1234"), Err(ParseError { input: "1234", kind: ErrorKind::Char }));
    assert_eq!(hex_literal(""), Err(ParseError { input: "", kind: ErrorKind::Char }));
    assert_eq!(hex_literal("$"), Err(ParseError { input: "", kind: ErrorKind::HexDigit }));
    assert_eq!(hex_literal("$x1"), Err(ParseError { input: "x1", kind: ErrorKind::HexDigit }));
    assert_eq!(hex_literal("$10000"), Err(ParseError { input: "10000", kind: ErrorKind::MapRes }));
    assert_eq!(
        hex_literal("$123456789abcdef0123456789"),
        Err(ParseError { input: "123456789abcdef0123456789", kind: ErrorKind::MapRes })
    );
}

#[test]
fn address_test() {
    assert_eq!(address("&89"), Ok(("", ast::Expr { kind: ast::ExprKind::Address(0x89) })));
    assert_eq!(address("&fFfF rest"), Ok((" rest", ast::Expr { kind: ast::ExprKind::Address(0xFFFF) })));
    assert_eq!(address("$89"), Err(ParseError { input: "$89", kind: ErrorKind::Char }));
    assert_eq!(address("&r1"), Err(ParseError { input: "r1", kind: ErrorKind::HexDigit }));
    assert_eq!(address("&12345"), Err(ParseError { input: "12345", kind: ErrorKind::MapRes }));
}

#[test]
fn identifier_stops_at_the_first_other_character() {
    assert_eq!(identifier("abc-def"), Ok(("-def", String::from("abc"))));
    assert_eq!(identifier("a b"), Ok((" b", String::from("a"))));
    assert_eq!(identifier("Z9_é"), Ok(("é", String::from("Z9_"))));
    assert_eq!(identifier("éa"), Err(ParseError { input: "éa", kind: ErrorKind::Tag }));
}

#[test]
fn every_register_in_either_case() {
    let names = [
        ("r1", ast::Register::R1),
        ("r2", ast::Register::R2),
        ("r3", ast::Register::R3),
        ("r4", ast::Register::R4),
        ("r5", ast::Register::R5),
        ("r6", ast::Register::R6),
        ("r7", ast::Register::R7),
        ("r8", ast::Register::R8),
        ("sp", ast::Register::Sp),
        ("fp", ast::Register::Fp),
        ("ip", ast::Register::Ip),
        ("acc", ast::Register::Acc),
    ];
    for (name, expected) in names {
        assert_eq!(register(name), Ok(("", expected)));
        assert_eq!(register(&name.to_uppercase()), Ok(("", expected)));
    }
    assert_eq!(register("r9"), Err(ParseError { input: "r9", kind: ErrorKind::Tag }));
    assert_eq!(register("ac"), Err(ParseError { input: "ac", kind: ErrorKind::Tag }));
    assert_eq!(register(""), Err(ParseError { input: "", kind: ErrorKind::Tag }));
    assert_eq!(register("r12"), Ok(("2", ast::Register::R1)));
}

#[test]
fn register_pointer_test() {
    assert_eq!(register_pointer("&r8"), Ok(("", ast::Register::R8)));
    assert_eq!(register_pointer("&ACC, r1"), Ok((", r1", ast::Register::Acc)));
    assert_eq!(register_pointer("r8"), Err(ParseError { input: "r8", kind: ErrorKind::Char }));
    assert_eq!(register_pointer("&x"), Err(ParseError { input: "x", kind: ErrorKind::Tag }));
}

#[test]
fn variable_failures() {
    assert_eq!(variable("!9"), Err(ParseError { input: "9", kind: ErrorKind::Tag }));
    assert_eq!(variable("!"), Err(ParseError { input: "", kind: ErrorKind::Tag }));
    assert_eq!(variable(""), Err(ParseError { input: "", kind: ErrorKind::Tag }));
}
