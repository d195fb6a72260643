use virtual_machine16_bit::assembler::parser::ast;
use virtual_machine16_bit::assembler::parser::error::{ErrorKind, ParseError};
use virtual_machine16_bit::assembler::parser::expressions::{
    address_expr, binary, bracketed_expr, literal_expr, operator, square_braket_expr,
};

#[test]
fn address_expr_test() {
    assert_eq!(
        address_expr("&89"),
        Ok((
            "",
            ast::Expr {
                kind: ast::ExprKind::Address(0x89)
            }
        ))
    );
    assert_eq!(
        address_expr("&[$12 * $34]"),
        Ok((
            "",
            ast::Expr {
                kind: ast::ExprKind::SquareBracket(Box::new(ast::Expr {
                    kind: ast::ExprKind::Binary(
                        Box::new(ast::Expr {
                            kind: ast::ExprKind::HexLiteral(0x12)
                        }),
                        ast::Operator::OpMultiply,
                        Box::new(ast::Expr {
                            kind: ast::ExprKind::HexLiteral(0x34)
                        })
                    )
                }))
            }
        ))
    )
}

#[test]
fn expressions_binary_test() {
    assert_eq!(
        binary("$12+ $34"),
        Ok((
            "",
            ast::Expr {
                kind: ast::ExprKind::Binary(
                    Box::new(ast::Expr {
                        kind: ast::ExprKind::HexLiteral(0x12)
                    }),
                    ast::Operator::OpPlus,
                    Box::new(ast::Expr {
                        kind: ast::ExprKind::HexLiteral(0x34)
                    })
                )
            }
        ))
    );
    assert_eq!(
        binary("!z-$0123"),
        Ok((
            "",
            ast::Expr {
                kind: ast::ExprKind::Binary(
                    Box::new(ast::Expr {
                        kind: ast::ExprKind::Variable(String::from("z"))
                    }),
                    ast::Operator::OpMinus,
                    Box::new(ast::Expr {
                        kind: ast::ExprKind::HexLiteral(0x0123)
                    })
                )
            }
        ))
    );
    assert_eq!(
        binary("$1234*!abc + $23"),
        Ok((
            "",
            ast::Expr {
                kind: ast::ExprKind::Binary(
                    Box::new(ast::Expr {
                        kind: ast::ExprKind::Binary(
                            Box::new(ast::Expr {
                                kind: ast::ExprKind::HexLiteral(0x1234)
                            }),
                            ast::Operator::OpMultiply,
                            Box::new(ast::Expr {
                                kind: ast::ExprKind::Variable(String::from("abc"))
                            })
                        )
                    }),
                    ast::Operator::OpPlus,
                    Box::new(ast::Expr {
                        kind: ast::ExprKind::HexLiteral(0x23)
                    })
                )
            }
        ))
    );
    assert_eq!(
        binary("$12 + (!a - (!b)) - $34"),
        Ok((
            "",
            ast::Expr {
                kind: ast::ExprKind::Binary(
                    Box::new(ast::Expr {
                        kind: ast::ExprKind::Binary(
                            Box::new(ast::Expr {
                                kind: ast::ExprKind::HexLiteral(0x12)
                            }),
                            ast::Operator::OpPlus,
                            Box::new(ast::Expr {
                                kind: ast::ExprKind::Bracket(Box::new(ast::Expr {
                                    kind: ast::ExprKind::Binary(
                                        Box::new(ast::Expr {
                                            kind: ast::ExprKind::Variable(String::from("a"))
                                        }),
                                        ast::Operator::OpMinus,
                                        Box::new(ast::Expr {
                                            kind: ast::ExprKind::Bracket(Box::new(ast::Expr {
                                                kind: ast::ExprKind::Variable(String::from(
                                                    "b"
                                                ))
                                            }))
                                        }),
                                    )
                                }))
                            })
                        )
                    }),
                    ast::Operator::OpMinus,
                    Box::new(ast::Expr {
                        kind: ast::ExprKind::HexLiteral(0x34)
                    }),
                )
            }
        ))
    );
}

#[test]
fn expressions_bracketed_expr_test() {
    assert_eq!(
        bracketed_expr("($01)"),
        Ok((
            "",
            ast::Expr {
                kind: ast::ExprKind::Bracket(Box::new(ast::Expr {
                    kind: ast::ExprKind::HexLiteral(0x01)
                }))
            }
        ))
    );
    assert_eq!(
        bracketed_expr("( !abc- $5678 )"),
        Ok((
            "",
            ast::Expr {
                kind: ast::ExprKind::Bracket(Box::new(ast::Expr {
                    kind: ast::ExprKind::Binary(
                        Box::new(ast::Expr {
                            kind: ast::ExprKind::Variable(String::from("abc"))
                        }),
                        ast::Operator::OpMinus,
                        Box::new(ast::Expr {
                            kind: ast::ExprKind::HexLiteral(0x5678)
                        })
                    )
                }))
            }
        ))
    );
    assert_eq!(
        bracketed_expr("( ($10 *!z ) +!dfg )"),
        Ok((
            "",
            ast::Expr {
                kind: ast::ExprKind::Bracket(Box::new(ast::Expr {
                    kind: ast::ExprKind::Binary(
                        Box::new(ast::Expr {
                            kind: ast::ExprKind::Bracket(Box::new(ast::Expr {
                                kind: ast::ExprKind::Binary(
                                    Box::new(ast::Expr {
                                        kind: ast::ExprKind::HexLiteral(0x10)
                                    }),
                                    ast::Operator::OpMultiply,
                                    Box::new(ast::Expr {
                                        kind: ast::ExprKind::Variable(String::from("z"))
                                    }),
                                )
                            }))
                        }),
                        ast::Operator::OpPlus,
                        Box::new(ast::Expr {
                            kind: ast::ExprKind::Variable(String::from("dfg"))
                        })
                    )
                }))
            }
        ))
    );
    assert_eq!(
        bracketed_expr("(  !fg - ( $8 *(!a-!b) ) + $5)"),
        Ok((
            "",
            ast::Expr {
                kind: ast::ExprKind::Bracket(Box::new(ast::Expr {
                    kind: ast::ExprKind::Binary(
                        Box::new(ast::Expr {
                            kind: ast::ExprKind::Binary(
                                Box::new(ast::Expr {
                                    kind: ast::ExprKind::Variable(String::from("fg"))
                                }),
                                ast::Operator::OpMinus,
                                Box::new(ast::Expr {
                                    kind: ast::ExprKind::Bracket(Box::new(ast::Expr {
                                        kind: ast::ExprKind::Binary(
                                            Box::new(ast::Expr {
                                                kind: ast::ExprKind::HexLiteral(0x8)
                                            }),
                                            ast::Operator::OpMultiply,
                                            Box::new(ast::Expr {
                                                kind: ast::ExprKind::Bracket(Box::new(
                                                    ast::Expr {
                                                        kind: ast::ExprKind::Binary(
                                                            Box::new(ast::Expr {
                                                                kind: ast::ExprKind::Variable(
                                                                    String::from("a")
                                                                )
                                                            }),
                                                            ast::Operator::OpMinus,
                                                            Box::new(ast::Expr {
                                                                kind: ast::ExprKind::Variable(
                                                                    String::from("b")
                                                                )
                                                            })
                                                        )
                                                    }
                                                ))
                                            })
                                        )
                                    }))
                                })
                            )
                        }),
                        ast::Operator::OpPlus,
                        Box::new(ast::Expr {
                            kind: ast::ExprKind::HexLiteral(0x5)
                        })
                    )
                }))
            }
        ))
    )
}

#[test]
fn literal_expr_test() {
    assert_eq!(
        literal_expr("$12"),
        Ok((
            "",
            ast::Expr {
                kind: ast::ExprKind::HexLiteral(0x12)
            }
        ))
    );
    assert_eq!(
        literal_expr("[$12]"),
        Ok((
            "",
            ast::Expr {
                kind: ast::ExprKind::SquareBracket(Box::new(ast::Expr {
                    kind: ast::ExprKind::HexLiteral(0x12)
                }))
            }
        ))
    );
}

#[test]
fn expressions_square_braket_expr_test() {
    assert_eq!(
        square_braket_expr("[ $01+ $02]"),
        Ok((
            "",
            ast::Expr {
                kind: ast::ExprKind::SquareBracket(Box::new(ast::Expr {
                    kind: ast::ExprKind::Binary(
                        Box::new(ast::Expr {
                            kind: ast::ExprKind::HexLiteral(0x01)
                        }),
                        ast::Operator::OpPlus,
                        Box::new(ast::Expr {
                            kind: ast::ExprKind::HexLiteral(0x02)
                        })
                    )
                }))
            }
        ))
    );
    assert_eq!(
        square_braket_expr("[ !abc-$1234 ]"),
        Ok((
            "",
            ast::Expr {
                kind: ast::ExprKind::SquareBracket(Box::new(ast::Expr {
                    kind: ast::ExprKind::Binary(
                        Box::new(ast::Expr {
                            kind: ast::ExprKind::Variable(String::from("abc"))
                        }),
                        ast::Operator::OpMinus,
                        Box::new(ast::Expr {
                            kind: ast::ExprKind::HexLiteral(0x1234)
                        })
                    )
                }))
            }
        ))
    );
    assert_eq!(
        square_braket_expr("[$9876*!zyx + $43 ]"),
        Ok((
            "",
            ast::Expr {
                kind: ast::ExprKind::SquareBracket(Box::new(ast::Expr {
                    kind: ast::ExprKind::Binary(
                        Box::new(ast::Expr {
                            kind: ast::ExprKind::Binary(
                                Box::new(ast::Expr {
                                    kind: ast::ExprKind::HexLiteral(0x9876)
                                }),
                                ast::Operator::OpMultiply,
                                Box::new(ast::Expr {
                                    kind: ast::ExprKind::Variable(String::from("zyx"))
                                })
                            )
                        }),
                        ast::Operator::OpPlus,
                        Box::new(ast::Expr {
                            kind: ast::ExprKind::HexLiteral(0x43)
                        })
                    )
                }))
            }
        ))
    );
    assert_eq!(
        square_braket_expr("[!a + ($2 * $3)]"),
        Ok((
            "",
            ast::Expr {
                kind: ast::ExprKind::SquareBracket(Box::new(ast::Expr {
                    kind: ast::ExprKind::Binary(
                        Box::new(ast::Expr {
                            kind: ast::ExprKind::Variable(String::from("a"))
                        }),
                        ast::Operator::OpPlus,
                        Box::new(ast::Expr {
                            kind: ast::ExprKind::Bracket(Box::new(ast::Expr {
                                kind: ast::ExprKind::Binary(
                                    Box::new(ast::Expr {
                                        kind: ast::ExprKind::HexLiteral(0x2)
                                    }),
                                    ast::Operator::OpMultiply,
                                    Box::new(ast::Expr {
                                        kind: ast::ExprKind::HexLiteral(0x3)
                                    }),
                                )
                            }))
                        }),
                    )
                }))
            }
        ))
    );
    assert_eq!(
        square_braket_expr("[*$01]"),
        Err(ParseError { input: "*$01]", kind: ErrorKind::Tag })
    );
    assert_eq!(
        square_braket_expr("[!ab +$02- ]"),
        Err(ParseError { input: "- ]", kind: ErrorKind::Char })
    );
    assert_eq!(
        square_braket_expr("[ $01+-!cd]"),
        Err(ParseError { input: "+-!cd]", kind: ErrorKind::Char })
    );
}

#[test]
fn operator_test() {
    assert_eq!(operator("+"), Ok(("", ast::Operator::OpPlus)));
    assert_eq!(operator("-"), Ok(("", ast::Operator::OpMinus)));
    assert_eq!(operator("*"), Ok(("", ast::Operator::OpMultiply)));
}

#[test]
fn operator_failures() {
    assert_eq!(operator("/"), Err(ParseError { input: "/", kind: ErrorKind::Char }));
    assert_eq!(operator(" +"), Err(ParseError { input: " +", kind: ErrorKind::Char }));
    assert_eq!(operator(""), Err(ParseError { input: "", kind: ErrorKind::Char }));
    assert_eq!(operator("+-"), Ok(("-", ast::Operator::OpPlus)));
}

#[test]
fn a_single_factor_is_an_expression() {
    assert_eq!(
        binary("!a"),
        Ok(("", ast::Expr { kind: ast::ExprKind::Variable(String::from("a")) }))
    );
    assert_eq!(
        binary("$1 +"),
        Ok((" +", ast::Expr { kind: ast::ExprKind::HexLiteral(1) }))
    );
    assert_eq!(
        binary("$1 * * $2"),
        Ok((" * * $2", ast::Expr { kind: ast::ExprKind::HexLiteral(1) }))
    );
    assert_eq!(
        binary("$01+-!cd"),
        Ok(("+-!cd", ast::Expr { kind: ast::ExprKind::HexLiteral(1) }))
    );
}

#[test]
fn product_binds_tighter_than_sum() {
    let hex = |value: u16| ast::Expr { kind: ast::ExprKind::HexLiteral(value) };
    let join = |left: ast::Expr, operator: ast::Operator, right: ast::Expr| ast::Expr {
        kind: ast::ExprKind::Binary(Box::new(left), operator, Box::new(right)),
    };
    assert_eq!(
        binary("$1 + $2 * $3 - $4 * $5 * $6"),
        Ok((
            "",
            join(
                join(
                    hex(1),
                    ast::Operator::OpPlus,
                    join(hex(2), ast::Operator::OpMultiply, hex(3))
                ),
                ast::Operator::OpMinus,
                join(
                    join(hex(4), ast::Operator::OpMultiply, hex(5)),
                    ast::Operator::OpMultiply,
                    hex(6)
                )
            )
        ))
    );
}

#[test]
fn expression_failures() {
    assert_eq!(binary(""), Err(ParseError { input: "", kind: ErrorKind::Tag }));
    assert_eq!(binary("+ $1"), Err(ParseError { input: "+ $1", kind: ErrorKind::Tag }));
    assert_eq!(binary("($1"), Err(ParseError { input: "($1", kind: ErrorKind::Tag }));
    assert_eq!(binary("$12345"), Err(ParseError { input: "$12345", kind: ErrorKind::Tag }));
    assert_eq!(binary("!"), Err(ParseError { input: "", kind: ErrorKind::Tag }));
    assert_eq!(bracketed_expr("[$1]"), Err(ParseError { input: "[$1]", kind: ErrorKind::Char }));
    assert_eq!(bracketed_expr("($1"), Err(ParseError { input: "", kind: ErrorKind::Char }));
    assert_eq!(bracketed_expr("($1 ]"), Err(ParseError { input: "]", kind: ErrorKind::Char }));
    assert_eq!(bracketed_expr("()"), Err(ParseError { input: ")", kind: ErrorKind::Tag }));
    assert_eq!(square_braket_expr("($1)"), Err(ParseError { input: "($1)", kind: ErrorKind::Char }));
    assert_eq!(square_braket_expr("[ ]"), Err(ParseError { input: "]", kind: ErrorKind::Tag }));
    assert_eq!(literal_expr("!a"), Err(ParseError { input: "!a", kind: ErrorKind::Char }));
    assert_eq!(literal_expr("[$1"), Err(ParseError { input: "[$1", kind: ErrorKind::Char }));
    assert_eq!(literal_expr("$"), Err(ParseError { input: "", kind: ErrorKind::HexDigit }));
    assert_eq!(address_expr("$1"), Err(ParseError { input: "$1", kind: ErrorKind::Char }));
    assert_eq!(address_expr("&"), Err(ParseError { input: "", kind: ErrorKind::Char }));
    assert_eq!(address_expr("&r1"), Err(ParseError { input: "r1", kind: ErrorKind::Char }));
    assert_eq!(address_expr("&[r1]"), Err(ParseError { input: "r1]", kind: ErrorKind::Tag }));
    assert_eq!(address_expr("&10000"), Err(ParseError { input: "10000", kind: ErrorKind::Char }));
}
