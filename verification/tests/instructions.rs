use virtual_machine16_bit::assembler::parser::ast::{
    Expr, ExprKind, Instruction, InstructionKind, Operator, Register,
};
use virtual_machine16_bit::assembler::parser::error::{ErrorKind, ParseError};
use virtual_machine16_bit::assembler::parser::instructions::formats::{
    lit, lit_mem, lit_offset_reg, lit_reg, mem_reg, no_arg, reg, reg_lit, reg_mem, reg_ptr_reg,
    reg_reg,
};
use virtual_machine16_bit::assembler::parser::instructions::instruction;
use virtual_machine16_bit::assembler::parser::instructions::mov::mov;

fn hex(value: u16) -> Expr {
    Expr { kind: ExprKind::HexLiteral(value) }
}

fn address(value: u16) -> Expr {
    Expr { kind: ExprKind::Address(value) }
}

fn variable(name: &str) -> Expr {
    Expr { kind: ExprKind::Variable(String::from(name)) }
}

fn square(inner: Expr) -> Expr {
    Expr { kind: ExprKind::SquareBracket(Box::new(inner)) }
}

fn binary(left: Expr, operator: Operator, right: Expr) -> Expr {
    Expr { kind: ExprKind::Binary(Box::new(left), operator, Box::new(right)) }
}

fn parsed(kind: InstructionKind<Expr>) -> Result<(&'static str, Instruction), ParseError<'static>> {
    Ok(("", Instruction { kind }))
}

fn failed(input: &'static str, kind: ErrorKind) -> Result<(&'static str, Instruction), ParseError<'static>> {
    Err(ParseError { input, kind })
}

#[test]
fn instructions_without_operands() {
    assert_eq!(instruction("hlt"), parsed(InstructionKind::Hlt));
    assert_eq!(instruction("ret"), parsed(InstructionKind::Ret));
    assert_eq!(instruction("HLT  \t"), parsed(InstructionKind::Hlt));
    assert_eq!(instruction("Ret x"), Ok(("x", Instruction { kind: InstructionKind::Ret })));
    assert_eq!(instruction("hltret"), Ok(("ret", Instruction { kind: InstructionKind::Hlt })));
}

#[test]
fn instructions_with_a_register() {
    assert_eq!(instruction("dec r1"), parsed(InstructionKind::DecReg(Register::R1)));
    assert_eq!(instruction("inc r2"), parsed(InstructionKind::IncReg(Register::R2)));
    assert_eq!(instruction("not sp"), parsed(InstructionKind::NotReg(Register::Sp)));
    assert_eq!(instruction("pop fp"), parsed(InstructionKind::PopReg(Register::Fp)));
    assert_eq!(instruction("INC\t R8  "), parsed(InstructionKind::IncReg(Register::R8)));
}

#[test]
fn instructions_with_a_literal_or_a_register() {
    assert_eq!(instruction("cal $3000"), parsed(InstructionKind::CalLit(hex(0x3000))));
    assert_eq!(instruction("cal r5"), parsed(InstructionKind::CalReg(Register::R5)));
    assert_eq!(instruction("psh $1"), parsed(InstructionKind::PshLit(hex(1))));
    assert_eq!(instruction("psh acc"), parsed(InstructionKind::PshReg(Register::Acc)));
    assert_eq!(
        instruction("psh [!count * $2]"),
        parsed(InstructionKind::PshLit(square(binary(
            variable("count"),
            Operator::OpMultiply,
            hex(2)
        ))))
    );
}

#[test]
fn instructions_with_a_literal_and_a_register_or_two_registers() {
    assert_eq!(
        instruction("add $1, r1"),
        parsed(InstructionKind::AddLitReg(hex(1), Register::R1))
    );
    assert_eq!(
        instruction("add r1, r2"),
        parsed(InstructionKind::AddRegReg(Register::R1, Register::R2))
    );
    assert_eq!(
        instruction("and $ff, r1"),
        parsed(InstructionKind::AndLitReg(hex(0xFF), Register::R1))
    );
    assert_eq!(
        instruction("and r1, r2"),
        parsed(InstructionKind::AndRegReg(Register::R1, Register::R2))
    );
    assert_eq!(
        instruction("mul $2, r3"),
        parsed(InstructionKind::MulLitReg(hex(2), Register::R3))
    );
    assert_eq!(
        instruction("mul r4, r3"),
        parsed(InstructionKind::MulRegReg(Register::R4, Register::R3))
    );
    assert_eq!(
        instruction("or $10, r3"),
        parsed(InstructionKind::OrLitReg(hex(0x10), Register::R3))
    );
    assert_eq!(
        instruction("or ip, fp"),
        parsed(InstructionKind::OrRegReg(Register::Ip, Register::Fp))
    );
    assert_eq!(
        instruction("sub $10, r3"),
        parsed(InstructionKind::SubLitReg(hex(0x10), Register::R3))
    );
    assert_eq!(
        instruction("sub r6, r7"),
        parsed(InstructionKind::SubRegReg(Register::R6, Register::R7))
    );
    assert_eq!(
        instruction("xor [$1], r3"),
        parsed(InstructionKind::XorLitReg(square(hex(1)), Register::R3))
    );
    assert_eq!(
        instruction("xor r6, r7"),
        parsed(InstructionKind::XorRegReg(Register::R6, Register::R7))
    );
}

#[test]
fn shifts_take_the_register_first() {
    assert_eq!(
        instruction("lsf r1, $2"),
        parsed(InstructionKind::LsfRegLit(Register::R1, hex(2)))
    );
    assert_eq!(
        instruction("lsf r1, r2"),
        parsed(InstructionKind::LsfRegReg(Register::R1, Register::R2))
    );
    assert_eq!(
        instruction("rsf r1, [!n]"),
        parsed(InstructionKind::RsfRegLit(Register::R1, square(variable("n"))))
    );
    assert_eq!(
        instruction("rsf r1, r2"),
        parsed(InstructionKind::RsfRegReg(Register::R1, Register::R2))
    );
    assert_eq!(instruction("lsf $2, r1"), failed("lsf $2, r1", ErrorKind::Tag));
}

#[test]
fn jumps() {
    assert_eq!(
        instruction("jeq r1, &1000"),
        parsed(InstructionKind::JeqRegMem(Register::R1, address(0x1000)))
    );
    assert_eq!(
        instruction("jeq $1, &1000"),
        parsed(InstructionKind::JeqLitMem(hex(1), address(0x1000)))
    );
    assert_eq!(
        instruction("jge r1, &[!loop]"),
        parsed(InstructionKind::JgeRegMem(Register::R1, square(variable("loop"))))
    );
    assert_eq!(
        instruction("jge $1, &2"),
        parsed(InstructionKind::JgeLitMem(hex(1), address(2)))
    );
    assert_eq!(
        instruction("jgt r1, &2"),
        parsed(InstructionKind::JgtRegMem(Register::R1, address(2)))
    );
    assert_eq!(
        instruction("jgt $1, &2"),
        parsed(InstructionKind::JgtLitMem(hex(1), address(2)))
    );
    assert_eq!(
        instruction("jle r1, &2"),
        parsed(InstructionKind::JleRegMem(Register::R1, address(2)))
    );
    assert_eq!(
        instruction("jle $1, &2"),
        parsed(InstructionKind::JleLitMem(hex(1), address(2)))
    );
    assert_eq!(
        instruction("jlt r1, &2"),
        parsed(InstructionKind::JltRegMem(Register::R1, address(2)))
    );
    assert_eq!(
        instruction("jlt $1, &2"),
        parsed(InstructionKind::JltLitMem(hex(1), address(2)))
    );
    assert_eq!(
        instruction("jne r1, &2"),
        parsed(InstructionKind::JneRegMem(Register::R1, address(2)))
    );
    assert_eq!(
        instruction("jne $1, &2"),
        parsed(InstructionKind::JneLitMem(hex(1), address(2)))
    );
}

#[test]
fn every_shape_of_mov_through_instruction() {
    assert_eq!(
        instruction("mov $1, &2"),
        parsed(InstructionKind::MovLitMem(hex(1), address(2)))
    );
    assert_eq!(
        instruction("mov [$12], &r3, r8"),
        parsed(InstructionKind::MovLitOffsetReg(square(hex(0x12)), Register::R3, Register::R8))
    );
    assert_eq!(
        instruction("mov $1234, R1"),
        parsed(InstructionKind::MovLitReg(hex(0x1234), Register::R1))
    );
    assert_eq!(
        instruction("mov &89, ACC"),
        parsed(InstructionKind::MovMemReg(address(0x89), Register::Acc))
    );
    assert_eq!(
        instruction("mov R1, &[$12 * $34]"),
        parsed(InstructionKind::MovRegMem(
            Register::R1,
            square(binary(hex(0x12), Operator::OpMultiply, hex(0x34)))
        ))
    );
    assert_eq!(
        instruction("mov R1, r3"),
        parsed(InstructionKind::MovRegReg(Register::R1, Register::R3))
    );
    assert_eq!(
        instruction("mov &r8, r6"),
        parsed(InstructionKind::MovRegPtrReg(Register::R8, Register::R6))
    );
}

#[test]
fn a_register_whose_name_is_a_number_is_read_as_an_address() {
    assert_eq!(
        mov("mov &acc, r1"),
        parsed(InstructionKind::MovMemReg(address(0xACC), Register::R1))
    );
    assert_eq!(
        mov("mov &fp, r1"),
        parsed(InstructionKind::MovRegPtrReg(Register::Fp, Register::R1))
    );
    assert_eq!(
        mov("mov $1, &fp, r1"),
        Ok(("p, r1", Instruction { kind: InstructionKind::MovLitMem(hex(1), address(0xF)) }))
    );
    assert_eq!(
        mov("mov $1, &acc, r1"),
        Ok((", r1", Instruction { kind: InstructionKind::MovLitMem(hex(1), address(0xACC)) }))
    );
}

#[test]
fn instruction_failures() {
    assert_eq!(instruction(""), failed("", ErrorKind::Tag));
    assert_eq!(instruction("nop"), failed("nop", ErrorKind::Tag));
    assert_eq!(instruction(" hlt"), failed(" hlt", ErrorKind::Tag));
    assert_eq!(instruction("add $1"), failed("add $1", ErrorKind::Tag));
    assert_eq!(instruction("inc"), failed("inc", ErrorKind::Tag));
    assert_eq!(instruction("xor"), failed("", ErrorKind::Space));
    assert_eq!(instruction("xor  $1, r1, r2"), Ok((", r2", Instruction { kind: InstructionKind::XorLitReg(hex(1), Register::R1) })));
    assert_eq!(instruction("xor r1"), failed("", ErrorKind::Char));
    assert_eq!(instruction("xor r1,"), failed("", ErrorKind::Tag));
    assert_eq!(instruction("xor $1, $2"), failed("$1, $2", ErrorKind::Tag));
    assert_eq!(instruction("xorr1, r2"), failed("r1, r2", ErrorKind::Space));
}

#[test]
fn mov_failures() {
    assert_eq!(mov("mov"), failed("", ErrorKind::Space));
    assert_eq!(mov("mov $1"), failed("$1", ErrorKind::Char));
    assert_eq!(mov("mov &r1"), failed("", ErrorKind::Char));
    assert_eq!(mov("mov &r1, $2"), failed("$2", ErrorKind::Tag));
    assert_eq!(mov("move r1, r2"), failed("e r1, r2", ErrorKind::Space));
    assert_eq!(mov("add r1, r2"), failed("add r1, r2", ErrorKind::Tag));
}

#[test]
fn shapes_by_themselves() {
    assert_eq!(no_arg("nop", "NOP  rest"), Ok(("rest", ())));
    assert_eq!(no_arg("nop", "no"), Err(ParseError { input: "no", kind: ErrorKind::Tag }));
    assert_eq!(lit("psh", "psh $1 "), Ok(("", hex(1))));
    assert_eq!(lit("psh", "psh$1"), Err(ParseError { input: "$1", kind: ErrorKind::Space }));
    assert_eq!(lit("psh", "psh r1"), Err(ParseError { input: "r1", kind: ErrorKind::Char }));
    assert_eq!(reg("inc", "inc ip"), Ok(("", Register::Ip)));
    assert_eq!(reg("inc", "inc $1"), Err(ParseError { input: "$1", kind: ErrorKind::Tag }));
    assert_eq!(lit_mem("mov", "mov $1 , &[ $2 ]"), Ok(("", (hex(1), square(hex(2))))));
    assert_eq!(
        lit_mem("mov", "mov $1, 2"),
        Err(ParseError { input: "2", kind: ErrorKind::Char })
    );
    assert_eq!(
        lit_mem("mov", "mov $1, &x"),
        Err(ParseError { input: "x", kind: ErrorKind::Char })
    );
    assert_eq!(lit_reg("x", "X [$1],r1"), Ok(("", (square(hex(1)), Register::R1))));
    assert_eq!(
        lit_reg("add", "add $1 r1"),
        Err(ParseError { input: "r1", kind: ErrorKind::Char })
    );
    assert_eq!(mem_reg("mov", "mov &1,r1"), Ok(("", (address(1), Register::R1))));
    assert_eq!(reg_lit("lsf", "lsf r1 ,$1"), Ok(("", (Register::R1, hex(1)))));
    assert_eq!(reg_mem("jne", "jne r1, &1 ;"), Ok((";", (Register::R1, address(1)))));
    assert_eq!(reg_reg("add", "ADD R1,R2"), Ok(("", (Register::R1, Register::R2))));
    assert_eq!(reg_ptr_reg("mov", "mov &sp, ip"), Ok(("", (Register::Sp, Register::Ip))));
    assert_eq!(
        lit_offset_reg("mov", "mov $4, &r1, r2"),
        Ok(("", (hex(4), (Register::R1, Register::R2))))
    );
    assert_eq!(
        lit_offset_reg("mov", "mov $4, &r1"),
        Err(ParseError { input: "", kind: ErrorKind::Char })
    );
}

#[test]
fn mnemonic_as_given_is_matched_in_either_case() {
    assert_eq!(reg("InC", "iNc r1"), Ok(("", Register::R1)));
    assert_eq!(no_arg("", "x"), Ok(("x", ())));
}
