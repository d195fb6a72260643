use virtual_machine16_bit::assembler::parser::ast::{
    Expr, ExprKind, Instruction, InstructionKind, Operator, Register,
};
use virtual_machine16_bit::assembler::parser::expressions::{address_expr, binary, literal_expr};
use virtual_machine16_bit::assembler::parser::instructions::instruction;
use virtual_machine16_bit::assembler::printer::print::{
    expression_read_back, instruction_read_back, name_of, print_address_operand,
    print_expression, print_instruction,
};

fn hex(value: u16) -> Expr {
    Expr { kind: ExprKind::HexLiteral(value) }
}

fn address(value: u16) -> Expr {
    Expr { kind: ExprKind::Address(value) }
}

fn variable(name: &str) -> Expr {
    Expr { kind: ExprKind::Variable(String::from(name)) }
}

fn square(inner: Expr) -> Expr {
    Expr { kind: ExprKind::SquareBracket(Box::new(inner)) }
}

fn round(inner: Expr) -> Expr {
    Expr { kind: ExprKind::Bracket(Box::new(inner)) }
}

fn join(left: Expr, operator: Operator, right: Expr) -> Expr {
    Expr { kind: ExprKind::Binary(Box::new(left), operator, Box::new(right)) }
}

fn sum() -> Expr {
    join(
        join(
            join(hex(0x12), Operator::OpMultiply, variable("a_1")),
            Operator::OpPlus,
            round(join(variable("_b"), Operator::OpMinus, round(hex(0)))),
        ),
        Operator::OpMinus,
        join(join(hex(0xFFFF), Operator::OpMultiply, hex(0xA0)), Operator::OpMultiply, variable("Z")),
    )
}

const REGISTERS: [Register; 12] = [
    Register::R1,
    Register::R2,
    Register::R3,
    Register::R4,
    Register::R5,
    Register::R6,
    Register::R7,
    Register::R8,
    Register::Sp,
    Register::Fp,
    Register::Ip,
    Register::Acc,
];

#[test]
fn printed_text() {
    assert_eq!(print_expression(&hex(0)), "$0");
    assert_eq!(print_expression(&hex(0x00AF)), "$af");
    assert_eq!(print_expression(&hex(0xFFFF)), "$ffff");
    assert_eq!(print_expression(&address(0x1000)), "&1000");
    assert_eq!(print_expression(&variable("x_1")), "!x_1");
    assert_eq!(print_expression(&sum()), "$12 * !a_1 + (!_b - ($0)) - $ffff * $a0 * !Z");
    assert_eq!(print_expression(&square(sum())), "[$12 * !a_1 + (!_b - ($0)) - $ffff * $a0 * !Z]");
    assert_eq!(print_address_operand(&address(0xAB)), "&ab");
    assert_eq!(print_address_operand(&square(hex(1))), "&[$1]");
    assert_eq!(name_of(Register::Acc), "acc");
    assert_eq!(print_instruction(&Instruction { kind: InstructionKind::Hlt }), "hlt");
    assert_eq!(
        print_instruction(&Instruction { kind: InstructionKind::IncReg(Register::R3) }),
        "inc r3"
    );
    assert_eq!(
        print_instruction(&Instruction {
            kind: InstructionKind::MovLitOffsetReg(square(hex(0x12)), Register::R3, Register::R8)
        }),
        "mov [$12], &r3, r8"
    );
    assert_eq!(
        print_instruction(&Instruction {
            kind: InstructionKind::JneRegMem(Register::Sp, square(variable("end")))
        }),
        "jne sp, &[!end]"
    );
    assert_eq!(
        print_instruction(&Instruction {
            kind: InstructionKind::SubRegLit(Register::R1, hex(1))
        }),
        "sub r1, $1"
    );
}

#[test]
fn expressions_are_read_back() {
    let expressions = [
        hex(0),
        hex(0xBEEF),
        variable("_"),
        variable("loop_2"),
        round(hex(1)),
        join(hex(1), Operator::OpPlus, hex(2)),
        join(join(hex(1), Operator::OpMinus, hex(2)), Operator::OpMinus, hex(3)),
        join(hex(1), Operator::OpPlus, join(hex(2), Operator::OpMultiply, hex(3))),
        join(round(join(hex(1), Operator::OpPlus, hex(2))), Operator::OpMultiply, hex(3)),
        sum(),
    ];
    for expression in expressions {
        let text = print_expression(&expression);
        assert_eq!(binary(&text), Ok(("", expression)));
    }
}

#[test]
fn trees_that_the_parser_does_not_build_are_read_as_others() {
    let right_nested = join(hex(1), Operator::OpMinus, join(hex(2), Operator::OpMinus, hex(3)));
    let text = print_expression(&right_nested);
    assert_eq!(text, "$1 - $2 - $3");
    assert_eq!(
        binary(&text),
        Ok(("", join(join(hex(1), Operator::OpMinus, hex(2)), Operator::OpMinus, hex(3))))
    );
    let product_of_sum = join(join(hex(1), Operator::OpPlus, hex(2)), Operator::OpMultiply, hex(3));
    let text = print_expression(&product_of_sum);
    assert_eq!(
        binary(&text),
        Ok(("", join(hex(1), Operator::OpPlus, join(hex(2), Operator::OpMultiply, hex(3)))))
    );
}

#[test]
fn operands_are_read_back() {
    for literal in [hex(7), square(sum()), square(variable("v"))] {
        let text = print_expression(&literal);
        assert_eq!(literal_expr(&text), Ok(("", literal)));
    }
    for operand in [address(0), address(0xFFFF), square(sum())] {
        let text = print_address_operand(&operand);
        assert_eq!(address_expr(&text), Ok(("", operand)));
    }
}

fn read_back(kind: InstructionKind<Expr>) {
    let written = Instruction { kind };
    let text = print_instruction(&written);
    assert_eq!(instruction(&text), Ok(("", written)), "{}", text);
}

#[test]
fn instructions_are_read_back() {
    read_back(InstructionKind::Hlt);
    read_back(InstructionKind::Ret);
    for a in REGISTERS {
        read_back(InstructionKind::CalReg(a));
        read_back(InstructionKind::DecReg(a));
        read_back(InstructionKind::IncReg(a));
        read_back(InstructionKind::NotReg(a));
        read_back(InstructionKind::PopReg(a));
        read_back(InstructionKind::PshReg(a));
        read_back(InstructionKind::AddLitReg(hex(0xA), a));
        read_back(InstructionKind::AndLitReg(square(sum()), a));
        read_back(InstructionKind::MulLitReg(hex(0xA), a));
        read_back(InstructionKind::OrLitReg(hex(0xA), a));
        read_back(InstructionKind::SubLitReg(hex(0xA), a));
        read_back(InstructionKind::XorLitReg(hex(0xA), a));
        read_back(InstructionKind::MovLitReg(square(hex(1)), a));
        read_back(InstructionKind::MovMemReg(address(0xACC), a));
        read_back(InstructionKind::MovMemReg(square(hex(1)), a));
        read_back(InstructionKind::MovRegMem(a, address(0xF)));
        read_back(InstructionKind::MovRegMem(a, square(sum())));
        read_back(InstructionKind::LsfRegLit(a, hex(3)));
        read_back(InstructionKind::RsfRegLit(a, square(variable("n"))));
        read_back(InstructionKind::JeqRegMem(a, address(1)));
        read_back(InstructionKind::JgeRegMem(a, address(1)));
        read_back(InstructionKind::JgtRegMem(a, address(1)));
        read_back(InstructionKind::JleRegMem(a, address(1)));
        read_back(InstructionKind::JltRegMem(a, address(1)));
        read_back(InstructionKind::JneRegMem(a, square(hex(0xAB))));
        for b in REGISTERS {
            read_back(InstructionKind::AddRegReg(a, b));
            read_back(InstructionKind::AndRegReg(a, b));
            read_back(InstructionKind::LsfRegReg(a, b));
            read_back(InstructionKind::MovRegReg(a, b));
            read_back(InstructionKind::MulRegReg(a, b));
            read_back(InstructionKind::OrRegReg(a, b));
            read_back(InstructionKind::RsfRegReg(a, b));
            read_back(InstructionKind::SubRegReg(a, b));
            read_back(InstructionKind::XorRegReg(a, b));
            if a != Register::Acc {
                read_back(InstructionKind::MovRegPtrReg(a, b));
            }
            if a != Register::Acc && a != Register::Fp {
                read_back(InstructionKind::MovLitOffsetReg(hex(0x10), a, b));
            }
        }
    }
    read_back(InstructionKind::CalLit(hex(0x3000)));
    read_back(InstructionKind::PshLit(square(sum())));
    read_back(InstructionKind::MovLitMem(hex(1), address(2)));
    read_back(InstructionKind::MovLitMem(square(hex(1)), square(hex(2))));
    read_back(InstructionKind::JeqLitMem(hex(1), address(2)));
    read_back(InstructionKind::JgeLitMem(hex(1), address(2)));
    read_back(InstructionKind::JgtLitMem(hex(1), address(2)));
    read_back(InstructionKind::JleLitMem(hex(1), address(2)));
    read_back(InstructionKind::JltLitMem(hex(1), address(2)));
    read_back(InstructionKind::JneLitMem(square(sum()), square(sum())));
}

#[test]
fn instructions_that_the_parser_does_not_build_are_read_as_others() {
    let text = print_instruction(&Instruction {
        kind: InstructionKind::MovRegPtrReg(Register::Acc, Register::R1),
    });
    assert_eq!(
        instruction(&text),
        Ok(("", Instruction { kind: InstructionKind::MovMemReg(address(0xACC), Register::R1) }))
    );
    let text = print_instruction(&Instruction {
        kind: InstructionKind::SubRegLit(Register::R1, hex(1)),
    });
    assert!(instruction(&text).is_err());
}

#[test]
fn read_back_in_one_call() {
    assert_eq!(expression_read_back(&sum()), Some(sum()));
    assert_eq!(expression_read_back(&hex(0xFFFF)), Some(hex(0xFFFF)));
    assert_eq!(expression_read_back(&address(1)), None);
    assert_eq!(expression_read_back(&variable("9")), None);
    assert_eq!(expression_read_back(&variable("a b")), None);
    assert_eq!(
        expression_read_back(&join(hex(1), Operator::OpPlus, join(hex(2), Operator::OpPlus, hex(3)))),
        Some(join(join(hex(1), Operator::OpPlus, hex(2)), Operator::OpPlus, hex(3)))
    );
    let moved = Instruction {
        kind: InstructionKind::MovLitOffsetReg(square(sum()), Register::Sp, Register::Acc),
    };
    assert_eq!(
        instruction_read_back(&moved),
        Some(Instruction {
            kind: InstructionKind::MovLitOffsetReg(square(sum()), Register::Sp, Register::Acc),
        })
    );
    let through_fp = Instruction {
        kind: InstructionKind::MovLitOffsetReg(hex(1), Register::Fp, Register::R1),
    };
    assert_eq!(instruction_read_back(&through_fp), None);
    let through_acc = Instruction {
        kind: InstructionKind::MovRegPtrReg(Register::Acc, Register::R1),
    };
    assert_eq!(
        instruction_read_back(&through_acc),
        Some(Instruction { kind: InstructionKind::MovMemReg(address(0xACC), Register::R1) })
    );
    let not_a_literal = Instruction { kind: InstructionKind::PshLit(variable("x")) };
    assert_eq!(instruction_read_back(&not_a_literal), None);
}

#[test]
fn what_is_read_is_read_again_once_printed() {
    let texts = [
        "hlt",
        "RET  ",
        "mOV [!a - $4],acc ",
        "mov   $0001 ,&00ff",
        "mov [$12], &r3, r8",
        "mov &ACC, r1",
        "mov &Fp,\tr1",
        "mov $1, &fp, r1",
        "MOV R1, &[ ($12 * $34)+!x ]",
        "jne SP , &[!loop]",
        "lsf r1,$000F",
        "rsf r1 , R2  trailing",
        "psh [ ( (!a) ) *$2-$3 ]",
        "cal ip",
        "xor $FFFF, fp",
        "not acc",
        "add $1",
        "nothing",
    ];
    for text in texts {
        if let Ok((_, read)) = instruction(text) {
            let printed = print_instruction(&read);
            assert_eq!(instruction(&printed), Ok(("", read)), "{:?} as {:?}", text, printed);
        }
    }
    let expressions = ["$0012+ $34", "(  !fg - ( $8 *(!a-!b) ) + $5) * $1 rest", "!z-$0123*", "$"];
    for text in expressions {
        if let Ok((_, read)) = binary(text) {
            let printed = print_expression(&read);
            assert_eq!(binary(&printed), Ok(("", read)), "{:?} as {:?}", text, printed);
        }
    }
}
