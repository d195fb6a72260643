//! The parser reads the instructions that the printer writes.
//!
//! This holds of the instructions that the parser builds. It builds none
//! with `sub` and a register in front of a literal. `mov` through a
//! register behind `&` is read as a move from an address where the name of
//! the register can be read as a number: `&acc` always, and `&fp` where
//! more operands follow.

use vstd::prelude::*;
use crate::assembler::parser::ast::{ExprTree, InstructionKind, Register};
use crate::assembler::parser::error::{ErrorKind, Parse};

use crate::assembler::parser::instructions::mov::spec_mov;
use crate::assembler::parser::instructions::{
    spec_add, spec_and, spec_cal, spec_dec, spec_hlt, spec_inc, spec_jeq, spec_jge, spec_jgt, spec_jle, spec_jlt, spec_jne, spec_lsf, spec_mul, spec_not, spec_or, spec_pop, spec_psh, spec_ret, spec_rsf, spec_sub, spec_xor,
    spec_instruction,
};
use crate::assembler::parser::scan::has_word;
use crate::assembler::parser::types::register_name;
use crate::assembler::printer::formats::{
    lemma_text_lit, lemma_text_lit_mem, lemma_text_lit_offset_reg, lemma_text_lit_reg,
    lemma_text_mem_reg, lemma_text_reg, lemma_text_reg_lit, lemma_text_reg_mem,
    lemma_text_reg_ptr_reg, lemma_text_reg_reg, one_operand, pair_text, pointer_text,
    two_operands,
};
use crate::assembler::printer::words::{lemma_located_whole, lemma_no_blanks, located};
use crate::assembler::printer::text::{
    address_text, expr_text, is_address_operand, is_literal_operand,
};

verus! {

/// The mnemonics.
pub enum Mnemonic {
    Add,
    And,
    Cal,
    Dec,
    Hlt,
    Inc,
    Jeq,
    Jge,
    Jgt,
    Jle,
    Jlt,
    Jne,
    Lsf,
    Mov,
    Mul,
    Not,
    Or,
    Pop,
    Psh,
    Ret,
    Rsf,
    Sub,
    Xor,
}

/// The text of a mnemonic.
pub open spec fn mnemonic_text(mnemonic: Mnemonic) -> Seq<char> {
    match mnemonic {
        Mnemonic::Add => "add"@,
        Mnemonic::And => "and"@,
        Mnemonic::Cal => "cal"@,
        Mnemonic::Dec => "dec"@,
        Mnemonic::Hlt => "hlt"@,
        Mnemonic::Inc => "inc"@,
        Mnemonic::Jeq => "jeq"@,
        Mnemonic::Jge => "jge"@,
        Mnemonic::Jgt => "jgt"@,
        Mnemonic::Jle => "jle"@,
        Mnemonic::Jlt => "jlt"@,
        Mnemonic::Jne => "jne"@,
        Mnemonic::Lsf => "lsf"@,
        Mnemonic::Mov => "mov"@,
        Mnemonic::Mul => "mul"@,
        Mnemonic::Not => "not"@,
        Mnemonic::Or => "or"@,
        Mnemonic::Pop => "pop"@,
        Mnemonic::Psh => "psh"@,
        Mnemonic::Ret => "ret"@,
        Mnemonic::Rsf => "rsf"@,
        Mnemonic::Sub => "sub"@,
        Mnemonic::Xor => "xor"@,
    }
}

/// What the parser of one mnemonic comes to.
pub open spec fn spec_of(mnemonic: Mnemonic, text: Seq<char>, at: int) -> Parse<
    InstructionKind<ExprTree>,
> {
    match mnemonic {
        Mnemonic::Add => spec_add(text, at),
        Mnemonic::And => spec_and(text, at),
        Mnemonic::Cal => spec_cal(text, at),
        Mnemonic::Dec => spec_dec(text, at),
        Mnemonic::Hlt => spec_hlt(text, at),
        Mnemonic::Inc => spec_inc(text, at),
        Mnemonic::Jeq => spec_jeq(text, at),
        Mnemonic::Jge => spec_jge(text, at),
        Mnemonic::Jgt => spec_jgt(text, at),
        Mnemonic::Jle => spec_jle(text, at),
        Mnemonic::Jlt => spec_jlt(text, at),
        Mnemonic::Jne => spec_jne(text, at),
        Mnemonic::Lsf => spec_lsf(text, at),
        Mnemonic::Mov => spec_mov(text, at),
        Mnemonic::Mul => spec_mul(text, at),
        Mnemonic::Not => spec_not(text, at),
        Mnemonic::Or => spec_or(text, at),
        Mnemonic::Pop => spec_pop(text, at),
        Mnemonic::Psh => spec_psh(text, at),
        Mnemonic::Ret => spec_ret(text, at),
        Mnemonic::Rsf => spec_rsf(text, at),
        Mnemonic::Sub => spec_sub(text, at),
        Mnemonic::Xor => spec_xor(text, at),
    }
}

/// The mnemonic of an instruction. An instruction that the parser does not
/// build is listed under the mnemonic that it would have.
pub open spec fn mnemonic_of(instruction: InstructionKind<ExprTree>) -> Mnemonic {
    match instruction {
        InstructionKind::AddLitReg(_, _) => Mnemonic::Add,
        InstructionKind::AddRegReg(_, _) => Mnemonic::Add,
        InstructionKind::AndLitReg(_, _) => Mnemonic::And,
        InstructionKind::AndRegReg(_, _) => Mnemonic::And,
        InstructionKind::CalLit(_) => Mnemonic::Cal,
        InstructionKind::CalReg(_) => Mnemonic::Cal,
        InstructionKind::DecReg(_) => Mnemonic::Dec,
        InstructionKind::Hlt => Mnemonic::Hlt,
        InstructionKind::IncReg(_) => Mnemonic::Inc,
        InstructionKind::JeqLitMem(_, _) => Mnemonic::Jeq,
        InstructionKind::JeqRegMem(_, _) => Mnemonic::Jeq,
        InstructionKind::JgeLitMem(_, _) => Mnemonic::Jge,
        InstructionKind::JgeRegMem(_, _) => Mnemonic::Jge,
        InstructionKind::JgtLitMem(_, _) => Mnemonic::Jgt,
        InstructionKind::JgtRegMem(_, _) => Mnemonic::Jgt,
        InstructionKind::JleLitMem(_, _) => Mnemonic::Jle,
        InstructionKind::JleRegMem(_, _) => Mnemonic::Jle,
        InstructionKind::JltLitMem(_, _) => Mnemonic::Jlt,
        InstructionKind::JltRegMem(_, _) => Mnemonic::Jlt,
        InstructionKind::JneLitMem(_, _) => Mnemonic::Jne,
        InstructionKind::JneRegMem(_, _) => Mnemonic::Jne,
        InstructionKind::LsfRegLit(_, _) => Mnemonic::Lsf,
        InstructionKind::LsfRegReg(_, _) => Mnemonic::Lsf,
        InstructionKind::MovLitMem(_, _) => Mnemonic::Mov,
        InstructionKind::MovLitOffsetReg(_, _, _) => Mnemonic::Mov,
        InstructionKind::MovLitReg(_, _) => Mnemonic::Mov,
        InstructionKind::MovMemReg(_, _) => Mnemonic::Mov,
        InstructionKind::MovRegMem(_, _) => Mnemonic::Mov,
        InstructionKind::MovRegReg(_, _) => Mnemonic::Mov,
        InstructionKind::MovRegPtrReg(_, _) => Mnemonic::Mov,
        InstructionKind::MulLitReg(_, _) => Mnemonic::Mul,
        InstructionKind::MulRegReg(_, _) => Mnemonic::Mul,
        InstructionKind::NotReg(_) => Mnemonic::Not,
        InstructionKind::OrLitReg(_, _) => Mnemonic::Or,
        InstructionKind::OrRegReg(_, _) => Mnemonic::Or,
        InstructionKind::PopReg(_) => Mnemonic::Pop,
        InstructionKind::PshLit(_) => Mnemonic::Psh,
        InstructionKind::PshReg(_) => Mnemonic::Psh,
        InstructionKind::Ret => Mnemonic::Ret,
        InstructionKind::RsfRegLit(_, _) => Mnemonic::Rsf,
        InstructionKind::RsfRegReg(_, _) => Mnemonic::Rsf,
        InstructionKind::SubLitReg(_, _) => Mnemonic::Sub,
        InstructionKind::SubRegLit(_, _) => Mnemonic::Sub,
        InstructionKind::SubRegReg(_, _) => Mnemonic::Sub,
        InstructionKind::XorLitReg(_, _) => Mnemonic::Xor,
        InstructionKind::XorRegReg(_, _) => Mnemonic::Xor,
    }
}

/// The text of an instruction: the mnemonic in small letters, one blank,
/// and the operands with a comma and one blank between them.
pub open spec fn instruction_text(instruction: InstructionKind<ExprTree>) -> Seq<char> {
    let mnemonic = mnemonic_text(mnemonic_of(instruction));
    match instruction {
        InstructionKind::AddLitReg(a, b) => two_operands(mnemonic, expr_text(a), register_name(b)),
        InstructionKind::AddRegReg(a, b) => two_operands(mnemonic, register_name(a), register_name(b)),
        InstructionKind::AndLitReg(a, b) => two_operands(mnemonic, expr_text(a), register_name(b)),
        InstructionKind::AndRegReg(a, b) => two_operands(mnemonic, register_name(a), register_name(b)),
        InstructionKind::CalLit(a) => one_operand(mnemonic, expr_text(a)),
        InstructionKind::CalReg(a) => one_operand(mnemonic, register_name(a)),
        InstructionKind::DecReg(a) => one_operand(mnemonic, register_name(a)),
        InstructionKind::Hlt => mnemonic,
        InstructionKind::IncReg(a) => one_operand(mnemonic, register_name(a)),
        InstructionKind::JeqLitMem(a, b) => two_operands(mnemonic, expr_text(a), address_text(b)),
        InstructionKind::JeqRegMem(a, b) => two_operands(mnemonic, register_name(a), address_text(b)),
        InstructionKind::JgeLitMem(a, b) => two_operands(mnemonic, expr_text(a), address_text(b)),
        InstructionKind::JgeRegMem(a, b) => two_operands(mnemonic, register_name(a), address_text(b)),
        InstructionKind::JgtLitMem(a, b) => two_operands(mnemonic, expr_text(a), address_text(b)),
        InstructionKind::JgtRegMem(a, b) => two_operands(mnemonic, register_name(a), address_text(b)),
        InstructionKind::JleLitMem(a, b) => two_operands(mnemonic, expr_text(a), address_text(b)),
        InstructionKind::JleRegMem(a, b) => two_operands(mnemonic, register_name(a), address_text(b)),
        InstructionKind::JltLitMem(a, b) => two_operands(mnemonic, expr_text(a), address_text(b)),
        InstructionKind::JltRegMem(a, b) => two_operands(mnemonic, register_name(a), address_text(b)),
        InstructionKind::JneLitMem(a, b) => two_operands(mnemonic, expr_text(a), address_text(b)),
        InstructionKind::JneRegMem(a, b) => two_operands(mnemonic, register_name(a), address_text(b)),
        InstructionKind::LsfRegLit(a, b) => two_operands(mnemonic, register_name(a), expr_text(b)),
        InstructionKind::LsfRegReg(a, b) => two_operands(mnemonic, register_name(a), register_name(b)),
        InstructionKind::MovLitMem(a, b) => two_operands(mnemonic, expr_text(a), address_text(b)),
        InstructionKind::MovLitOffsetReg(a, b, c) => two_operands(
            mnemonic,
            expr_text(a),
            pair_text(pointer_text(b), register_name(c)),
        ),
        InstructionKind::MovLitReg(a, b) => two_operands(mnemonic, expr_text(a), register_name(b)),
        InstructionKind::MovMemReg(a, b) => two_operands(mnemonic, address_text(a), register_name(b)),
        InstructionKind::MovRegMem(a, b) => two_operands(mnemonic, register_name(a), address_text(b)),
        InstructionKind::MovRegReg(a, b) => two_operands(mnemonic, register_name(a), register_name(b)),
        InstructionKind::MovRegPtrReg(a, b) => two_operands(mnemonic, pointer_text(a), register_name(b)),
        InstructionKind::MulLitReg(a, b) => two_operands(mnemonic, expr_text(a), register_name(b)),
        InstructionKind::MulRegReg(a, b) => two_operands(mnemonic, register_name(a), register_name(b)),
        InstructionKind::NotReg(a) => one_operand(mnemonic, register_name(a)),
        InstructionKind::OrLitReg(a, b) => two_operands(mnemonic, expr_text(a), register_name(b)),
        InstructionKind::OrRegReg(a, b) => two_operands(mnemonic, register_name(a), register_name(b)),
        InstructionKind::PopReg(a) => one_operand(mnemonic, register_name(a)),
        InstructionKind::PshLit(a) => one_operand(mnemonic, expr_text(a)),
        InstructionKind::PshReg(a) => one_operand(mnemonic, register_name(a)),
        InstructionKind::Ret => mnemonic,
        InstructionKind::RsfRegLit(a, b) => two_operands(mnemonic, register_name(a), expr_text(b)),
        InstructionKind::RsfRegReg(a, b) => two_operands(mnemonic, register_name(a), register_name(b)),
        InstructionKind::SubLitReg(a, b) => two_operands(mnemonic, expr_text(a), register_name(b)),
        InstructionKind::SubRegLit(a, b) => two_operands(mnemonic, register_name(a), expr_text(b)),
        InstructionKind::SubRegReg(a, b) => two_operands(mnemonic, register_name(a), register_name(b)),
        InstructionKind::XorLitReg(a, b) => two_operands(mnemonic, expr_text(a), register_name(b)),
        InstructionKind::XorRegReg(a, b) => two_operands(mnemonic, register_name(a), register_name(b)),
    }
}

/// Whether an instruction is one that the parser builds.
pub open spec fn is_instruction(instruction: InstructionKind<ExprTree>) -> bool {
    match instruction {
        InstructionKind::AddLitReg(a, _) => is_literal_operand(a),
        InstructionKind::AddRegReg(_, _) => true,
        InstructionKind::AndLitReg(a, _) => is_literal_operand(a),
        InstructionKind::AndRegReg(_, _) => true,
        InstructionKind::CalLit(a) => is_literal_operand(a),
        InstructionKind::CalReg(_) => true,
        InstructionKind::DecReg(_) => true,
        InstructionKind::Hlt => true,
        InstructionKind::IncReg(_) => true,
        InstructionKind::JeqLitMem(a, b) => is_literal_operand(a) && is_address_operand(b),
        InstructionKind::JeqRegMem(_, b) => is_address_operand(b),
        InstructionKind::JgeLitMem(a, b) => is_literal_operand(a) && is_address_operand(b),
        InstructionKind::JgeRegMem(_, b) => is_address_operand(b),
        InstructionKind::JgtLitMem(a, b) => is_literal_operand(a) && is_address_operand(b),
        InstructionKind::JgtRegMem(_, b) => is_address_operand(b),
        InstructionKind::JleLitMem(a, b) => is_literal_operand(a) && is_address_operand(b),
        InstructionKind::JleRegMem(_, b) => is_address_operand(b),
        InstructionKind::JltLitMem(a, b) => is_literal_operand(a) && is_address_operand(b),
        InstructionKind::JltRegMem(_, b) => is_address_operand(b),
        InstructionKind::JneLitMem(a, b) => is_literal_operand(a) && is_address_operand(b),
        InstructionKind::JneRegMem(_, b) => is_address_operand(b),
        InstructionKind::LsfRegLit(_, b) => is_literal_operand(b),
        InstructionKind::LsfRegReg(_, _) => true,
        InstructionKind::MovLitMem(a, b) => is_literal_operand(a) && is_address_operand(b),
        InstructionKind::MovLitOffsetReg(a, b, _) => is_literal_operand(a) && b != Register::Acc && b != Register::Fp,
        InstructionKind::MovLitReg(a, _) => is_literal_operand(a),
        InstructionKind::MovMemReg(a, _) => is_address_operand(a),
        InstructionKind::MovRegMem(_, b) => is_address_operand(b),
        InstructionKind::MovRegReg(_, _) => true,
        InstructionKind::MovRegPtrReg(a, _) => a != Register::Acc,
        InstructionKind::MulLitReg(a, _) => is_literal_operand(a),
        InstructionKind::MulRegReg(_, _) => true,
        InstructionKind::NotReg(_) => true,
        InstructionKind::OrLitReg(a, _) => is_literal_operand(a),
        InstructionKind::OrRegReg(_, _) => true,
        InstructionKind::PopReg(_) => true,
        InstructionKind::PshLit(a) => is_literal_operand(a),
        InstructionKind::PshReg(_) => true,
        InstructionKind::Ret => true,
        InstructionKind::RsfRegLit(_, b) => is_literal_operand(b),
        InstructionKind::RsfRegReg(_, _) => true,
        InstructionKind::SubLitReg(a, _) => is_literal_operand(a),
        InstructionKind::SubRegLit(_, _) => false,
        InstructionKind::SubRegReg(_, _) => true,
        InstructionKind::XorLitReg(a, _) => is_literal_operand(a),
        InstructionKind::XorRegReg(_, _) => true,
    }
}

/// The mnemonics, letter by letter.
pub proof fn lemma_mnemonic_texts()
    ensures
        mnemonic_text(Mnemonic::Add) == seq!['a', 'd', 'd'],
        mnemonic_text(Mnemonic::And) == seq!['a', 'n', 'd'],
        mnemonic_text(Mnemonic::Cal) == seq!['c', 'a', 'l'],
        mnemonic_text(Mnemonic::Dec) == seq!['d', 'e', 'c'],
        mnemonic_text(Mnemonic::Hlt) == seq!['h', 'l', 't'],
        mnemonic_text(Mnemonic::Inc) == seq!['i', 'n', 'c'],
        mnemonic_text(Mnemonic::Jeq) == seq!['j', 'e', 'q'],
        mnemonic_text(Mnemonic::Jge) == seq!['j', 'g', 'e'],
        mnemonic_text(Mnemonic::Jgt) == seq!['j', 'g', 't'],
        mnemonic_text(Mnemonic::Jle) == seq!['j', 'l', 'e'],
        mnemonic_text(Mnemonic::Jlt) == seq!['j', 'l', 't'],
        mnemonic_text(Mnemonic::Jne) == seq!['j', 'n', 'e'],
        mnemonic_text(Mnemonic::Lsf) == seq!['l', 's', 'f'],
        mnemonic_text(Mnemonic::Mov) == seq!['m', 'o', 'v'],
        mnemonic_text(Mnemonic::Mul) == seq!['m', 'u', 'l'],
        mnemonic_text(Mnemonic::Not) == seq!['n', 'o', 't'],
        mnemonic_text(Mnemonic::Or) == seq!['o', 'r'],
        mnemonic_text(Mnemonic::Pop) == seq!['p', 'o', 'p'],
        mnemonic_text(Mnemonic::Psh) == seq!['p', 's', 'h'],
        mnemonic_text(Mnemonic::Ret) == seq!['r', 'e', 't'],
        mnemonic_text(Mnemonic::Rsf) == seq!['r', 's', 'f'],
        mnemonic_text(Mnemonic::Sub) == seq!['s', 'u', 'b'],
        mnemonic_text(Mnemonic::Xor) == seq!['x', 'o', 'r'],
{
    reveal_strlit("add");
    reveal_strlit("and");
    reveal_strlit("cal");
    reveal_strlit("dec");
    reveal_strlit("hlt");
    reveal_strlit("inc");
    reveal_strlit("jeq");
    reveal_strlit("jge");
    reveal_strlit("jgt");
    reveal_strlit("jle");
    reveal_strlit("jlt");
    reveal_strlit("jne");
    reveal_strlit("lsf");
    reveal_strlit("mov");
    reveal_strlit("mul");
    reveal_strlit("not");
    reveal_strlit("or");
    reveal_strlit("pop");
    reveal_strlit("psh");
    reveal_strlit("ret");
    reveal_strlit("rsf");
    reveal_strlit("sub");
    reveal_strlit("xor");
    assert(mnemonic_text(Mnemonic::Add) =~= seq!['a', 'd', 'd']);
    assert(mnemonic_text(Mnemonic::And) =~= seq!['a', 'n', 'd']);
    assert(mnemonic_text(Mnemonic::Cal) =~= seq!['c', 'a', 'l']);
    assert(mnemonic_text(Mnemonic::Dec) =~= seq!['d', 'e', 'c']);
    assert(mnemonic_text(Mnemonic::Hlt) =~= seq!['h', 'l', 't']);
    assert(mnemonic_text(Mnemonic::Inc) =~= seq!['i', 'n', 'c']);
    assert(mnemonic_text(Mnemonic::Jeq) =~= seq!['j', 'e', 'q']);
    assert(mnemonic_text(Mnemonic::Jge) =~= seq!['j', 'g', 'e']);
    assert(mnemonic_text(Mnemonic::Jgt) =~= seq!['j', 'g', 't']);
    assert(mnemonic_text(Mnemonic::Jle) =~= seq!['j', 'l', 'e']);
    assert(mnemonic_text(Mnemonic::Jlt) =~= seq!['j', 'l', 't']);
    assert(mnemonic_text(Mnemonic::Jne) =~= seq!['j', 'n', 'e']);
    assert(mnemonic_text(Mnemonic::Lsf) =~= seq!['l', 's', 'f']);
    assert(mnemonic_text(Mnemonic::Mov) =~= seq!['m', 'o', 'v']);
    assert(mnemonic_text(Mnemonic::Mul) =~= seq!['m', 'u', 'l']);
    assert(mnemonic_text(Mnemonic::Not) =~= seq!['n', 'o', 't']);
    assert(mnemonic_text(Mnemonic::Or) =~= seq!['o', 'r']);
    assert(mnemonic_text(Mnemonic::Pop) =~= seq!['p', 'o', 'p']);
    assert(mnemonic_text(Mnemonic::Psh) =~= seq!['p', 's', 'h']);
    assert(mnemonic_text(Mnemonic::Ret) =~= seq!['r', 'e', 't']);
    assert(mnemonic_text(Mnemonic::Rsf) =~= seq!['r', 's', 'f']);
    assert(mnemonic_text(Mnemonic::Sub) =~= seq!['s', 'u', 'b']);
    assert(mnemonic_text(Mnemonic::Xor) =~= seq!['x', 'o', 'r']);
}

/// Where one mnemonic stands, no other does.
pub proof fn lemma_mnemonics_differ(text: Seq<char>, at: int, mnemonic: Mnemonic, other: Mnemonic)
    requires
        located(text, at, mnemonic_text(mnemonic)),
        other != mnemonic,
    ensures
        !has_word(text, at, mnemonic_text(other)),
{
    lemma_mnemonic_texts();
    let word = mnemonic_text(mnemonic);
    assert(text[at + 0] == word[0]);
    assert(text[at + 1] == word[1]);
    if word.len() > 2 {
        assert(text[at + 2] == word[2]);
    }
}
/// Where the mnemonic `add` does not stand, no instruction with it is read.
proof fn lemma_no_add(text: Seq<char>, at: int)
    requires
        !has_word(text, at, mnemonic_text(Mnemonic::Add)),
    ensures
        spec_add(text, at) is Err,
{
}

/// Where the mnemonic `and` does not stand, no instruction with it is read.
proof fn lemma_no_and(text: Seq<char>, at: int)
    requires
        !has_word(text, at, mnemonic_text(Mnemonic::And)),
    ensures
        spec_and(text, at) is Err,
{
}

/// Where the mnemonic `cal` does not stand, no instruction with it is read.
proof fn lemma_no_cal(text: Seq<char>, at: int)
    requires
        !has_word(text, at, mnemonic_text(Mnemonic::Cal)),
    ensures
        spec_cal(text, at) is Err,
{
}

/// Where the mnemonic `dec` does not stand, no instruction with it is read.
proof fn lemma_no_dec(text: Seq<char>, at: int)
    requires
        !has_word(text, at, mnemonic_text(Mnemonic::Dec)),
    ensures
        spec_dec(text, at) is Err,
{
}

/// Where the mnemonic `hlt` does not stand, no instruction with it is read.
proof fn lemma_no_hlt(text: Seq<char>, at: int)
    requires
        !has_word(text, at, mnemonic_text(Mnemonic::Hlt)),
    ensures
        spec_hlt(text, at) is Err,
{
}

/// Where the mnemonic `inc` does not stand, no instruction with it is read.
proof fn lemma_no_inc(text: Seq<char>, at: int)
    requires
        !has_word(text, at, mnemonic_text(Mnemonic::Inc)),
    ensures
        spec_inc(text, at) is Err,
{
}

/// Where the mnemonic `jeq` does not stand, no instruction with it is read.
proof fn lemma_no_jeq(text: Seq<char>, at: int)
    requires
        !has_word(text, at, mnemonic_text(Mnemonic::Jeq)),
    ensures
        spec_jeq(text, at) is Err,
{
}

/// Where the mnemonic `jge` does not stand, no instruction with it is read.
proof fn lemma_no_jge(text: Seq<char>, at: int)
    requires
        !has_word(text, at, mnemonic_text(Mnemonic::Jge)),
    ensures
        spec_jge(text, at) is Err,
{
}

/// Where the mnemonic `jgt` does not stand, no instruction with it is read.
proof fn lemma_no_jgt(text: Seq<char>, at: int)
    requires
        !has_word(text, at, mnemonic_text(Mnemonic::Jgt)),
    ensures
        spec_jgt(text, at) is Err,
{
}

/// Where the mnemonic `jle` does not stand, no instruction with it is read.
proof fn lemma_no_jle(text: Seq<char>, at: int)
    requires
        !has_word(text, at, mnemonic_text(Mnemonic::Jle)),
    ensures
        spec_jle(text, at) is Err,
{
}

/// Where the mnemonic `jlt` does not stand, no instruction with it is read.
proof fn lemma_no_jlt(text: Seq<char>, at: int)
    requires
        !has_word(text, at, mnemonic_text(Mnemonic::Jlt)),
    ensures
        spec_jlt(text, at) is Err,
{
}

/// Where the mnemonic `jne` does not stand, no instruction with it is read.
proof fn lemma_no_jne(text: Seq<char>, at: int)
    requires
        !has_word(text, at, mnemonic_text(Mnemonic::Jne)),
    ensures
        spec_jne(text, at) is Err,
{
}

/// Where the mnemonic `lsf` does not stand, no instruction with it is read.
proof fn lemma_no_lsf(text: Seq<char>, at: int)
    requires
        !has_word(text, at, mnemonic_text(Mnemonic::Lsf)),
    ensures
        spec_lsf(text, at) is Err,
{
}

/// Where the mnemonic `mov` does not stand, no instruction with it is read.
proof fn lemma_no_mov(text: Seq<char>, at: int)
    requires
        !has_word(text, at, mnemonic_text(Mnemonic::Mov)),
    ensures
        spec_mov(text, at) is Err,
{
}

/// Where the mnemonic `mul` does not stand, no instruction with it is read.
proof fn lemma_no_mul(text: Seq<char>, at: int)
    requires
        !has_word(text, at, mnemonic_text(Mnemonic::Mul)),
    ensures
        spec_mul(text, at) is Err,
{
}

/// Where the mnemonic `not` does not stand, no instruction with it is read.
proof fn lemma_no_not(text: Seq<char>, at: int)
    requires
        !has_word(text, at, mnemonic_text(Mnemonic::Not)),
    ensures
        spec_not(text, at) is Err,
{
}

/// Where the mnemonic `or` does not stand, no instruction with it is read.
proof fn lemma_no_or(text: Seq<char>, at: int)
    requires
        !has_word(text, at, mnemonic_text(Mnemonic::Or)),
    ensures
        spec_or(text, at) is Err,
{
}

/// Where the mnemonic `pop` does not stand, no instruction with it is read.
proof fn lemma_no_pop(text: Seq<char>, at: int)
    requires
        !has_word(text, at, mnemonic_text(Mnemonic::Pop)),
    ensures
        spec_pop(text, at) is Err,
{
}

/// Where the mnemonic `psh` does not stand, no instruction with it is read.
proof fn lemma_no_psh(text: Seq<char>, at: int)
    requires
        !has_word(text, at, mnemonic_text(Mnemonic::Psh)),
    ensures
        spec_psh(text, at) is Err,
{
}

/// Where the mnemonic `ret` does not stand, no instruction with it is read.
proof fn lemma_no_ret(text: Seq<char>, at: int)
    requires
        !has_word(text, at, mnemonic_text(Mnemonic::Ret)),
    ensures
        spec_ret(text, at) is Err,
{
}

/// Where the mnemonic `rsf` does not stand, no instruction with it is read.
proof fn lemma_no_rsf(text: Seq<char>, at: int)
    requires
        !has_word(text, at, mnemonic_text(Mnemonic::Rsf)),
    ensures
        spec_rsf(text, at) is Err,
{
}

/// Where the mnemonic `sub` does not stand, no instruction with it is read.
proof fn lemma_no_sub(text: Seq<char>, at: int)
    requires
        !has_word(text, at, mnemonic_text(Mnemonic::Sub)),
    ensures
        spec_sub(text, at) is Err,
{
}

/// Where the mnemonic `xor` does not stand, no instruction with it is read.
proof fn lemma_no_xor(text: Seq<char>, at: int)
    requires
        !has_word(text, at, mnemonic_text(Mnemonic::Xor)),
    ensures
        spec_xor(text, at) is Err,
{
}

/// Where one mnemonic stands, the parser of no other mnemonic reads an
/// instruction.
pub proof fn lemma_others_fail(text: Seq<char>, at: int, mnemonic: Mnemonic, other: Mnemonic)
    requires
        located(text, at, mnemonic_text(mnemonic)),
        other != mnemonic,
    ensures
        spec_of(other, text, at) is Err,
{
    lemma_mnemonics_differ(text, at, mnemonic, other);
    match other {
        Mnemonic::Add => {
            lemma_no_add(text, at);
        },
        Mnemonic::And => {
            lemma_no_and(text, at);
        },
        Mnemonic::Cal => {
            lemma_no_cal(text, at);
        },
        Mnemonic::Dec => {
            lemma_no_dec(text, at);
        },
        Mnemonic::Hlt => {
            lemma_no_hlt(text, at);
        },
        Mnemonic::Inc => {
            lemma_no_inc(text, at);
        },
        Mnemonic::Jeq => {
            lemma_no_jeq(text, at);
        },
        Mnemonic::Jge => {
            lemma_no_jge(text, at);
        },
        Mnemonic::Jgt => {
            lemma_no_jgt(text, at);
        },
        Mnemonic::Jle => {
            lemma_no_jle(text, at);
        },
        Mnemonic::Jlt => {
            lemma_no_jlt(text, at);
        },
        Mnemonic::Jne => {
            lemma_no_jne(text, at);
        },
        Mnemonic::Lsf => {
            lemma_no_lsf(text, at);
        },
        Mnemonic::Mov => {
            lemma_no_mov(text, at);
        },
        Mnemonic::Mul => {
            lemma_no_mul(text, at);
        },
        Mnemonic::Not => {
            lemma_no_not(text, at);
        },
        Mnemonic::Or => {
            lemma_no_or(text, at);
        },
        Mnemonic::Pop => {
            lemma_no_pop(text, at);
        },
        Mnemonic::Psh => {
            lemma_no_psh(text, at);
        },
        Mnemonic::Ret => {
            lemma_no_ret(text, at);
        },
        Mnemonic::Rsf => {
            lemma_no_rsf(text, at);
        },
        Mnemonic::Sub => {
            lemma_no_sub(text, at);
        },
        Mnemonic::Xor => {
            lemma_no_xor(text, at);
        },
    }
}

/// Where a mnemonic stands and the parser of that mnemonic reads an
/// instruction, the parser of instructions reads the same.
pub proof fn lemma_picks(text: Seq<char>, at: int, mnemonic: Mnemonic)
    requires
        located(text, at, mnemonic_text(mnemonic)),
        spec_of(mnemonic, text, at) is Ok,
    ensures
        spec_instruction(text, at) == spec_of(mnemonic, text, at),
{
    assert forall|other: Mnemonic| other != mnemonic implies #[trigger] spec_of(
        other,
        text,
        at,
    ) is Err by {
        lemma_others_fail(text, at, mnemonic, other);
    }
    assert(spec_of(Mnemonic::Add, text, at) == spec_add(text, at));
    assert(spec_of(Mnemonic::And, text, at) == spec_and(text, at));
    assert(spec_of(Mnemonic::Cal, text, at) == spec_cal(text, at));
    assert(spec_of(Mnemonic::Dec, text, at) == spec_dec(text, at));
    assert(spec_of(Mnemonic::Hlt, text, at) == spec_hlt(text, at));
    assert(spec_of(Mnemonic::Inc, text, at) == spec_inc(text, at));
    assert(spec_of(Mnemonic::Jeq, text, at) == spec_jeq(text, at));
    assert(spec_of(Mnemonic::Jge, text, at) == spec_jge(text, at));
    assert(spec_of(Mnemonic::Jgt, text, at) == spec_jgt(text, at));
    assert(spec_of(Mnemonic::Jle, text, at) == spec_jle(text, at));
    assert(spec_of(Mnemonic::Jlt, text, at) == spec_jlt(text, at));
    assert(spec_of(Mnemonic::Jne, text, at) == spec_jne(text, at));
    assert(spec_of(Mnemonic::Lsf, text, at) == spec_lsf(text, at));
    assert(spec_of(Mnemonic::Mov, text, at) == spec_mov(text, at));
    assert(spec_of(Mnemonic::Mul, text, at) == spec_mul(text, at));
    assert(spec_of(Mnemonic::Not, text, at) == spec_not(text, at));
    assert(spec_of(Mnemonic::Or, text, at) == spec_or(text, at));
    assert(spec_of(Mnemonic::Pop, text, at) == spec_pop(text, at));
    assert(spec_of(Mnemonic::Psh, text, at) == spec_psh(text, at));
    assert(spec_of(Mnemonic::Ret, text, at) == spec_ret(text, at));
    assert(spec_of(Mnemonic::Rsf, text, at) == spec_rsf(text, at));
    assert(spec_of(Mnemonic::Sub, text, at) == spec_sub(text, at));
    assert(spec_of(Mnemonic::Xor, text, at) == spec_xor(text, at));
}

/// The parser of `add` reads an instruction with it that the printer wrote.
proof fn lemma_by_add(text: Seq<char>, at: int, instruction: InstructionKind<ExprTree>)
    requires
        is_instruction(instruction),
        mnemonic_of(instruction) == Mnemonic::Add,
        located(text, at, instruction_text(instruction)),
        at + instruction_text(instruction).len() == text.len(),
    ensures
        located(text, at, mnemonic_text(Mnemonic::Add)),
        spec_add(text, at) == Ok::<(int, InstructionKind<ExprTree>), (int, ErrorKind)>(
            (text.len() as int, instruction),
        ),
{
    let mnemonic = mnemonic_text(Mnemonic::Add);
    match instruction {
        InstructionKind::AddLitReg(a, b) => {
            lemma_text_lit_reg(text, at, mnemonic, a, b);
        },
        InstructionKind::AddRegReg(a, b) => {
            lemma_text_reg_reg(text, at, mnemonic, a, b);
        },
        _ => {},
    }
}

/// The parser of `and` reads an instruction with it that the printer wrote.
proof fn lemma_by_and(text: Seq<char>, at: int, instruction: InstructionKind<ExprTree>)
    requires
        is_instruction(instruction),
        mnemonic_of(instruction) == Mnemonic::And,
        located(text, at, instruction_text(instruction)),
        at + instruction_text(instruction).len() == text.len(),
    ensures
        located(text, at, mnemonic_text(Mnemonic::And)),
        spec_and(text, at) == Ok::<(int, InstructionKind<ExprTree>), (int, ErrorKind)>(
            (text.len() as int, instruction),
        ),
{
    let mnemonic = mnemonic_text(Mnemonic::And);
    match instruction {
        InstructionKind::AndLitReg(a, b) => {
            lemma_text_lit_reg(text, at, mnemonic, a, b);
        },
        InstructionKind::AndRegReg(a, b) => {
            lemma_text_reg_reg(text, at, mnemonic, a, b);
        },
        _ => {},
    }
}

/// The parser of `cal` reads an instruction with it that the printer wrote.
proof fn lemma_by_cal(text: Seq<char>, at: int, instruction: InstructionKind<ExprTree>)
    requires
        is_instruction(instruction),
        mnemonic_of(instruction) == Mnemonic::Cal,
        located(text, at, instruction_text(instruction)),
        at + instruction_text(instruction).len() == text.len(),
    ensures
        located(text, at, mnemonic_text(Mnemonic::Cal)),
        spec_cal(text, at) == Ok::<(int, InstructionKind<ExprTree>), (int, ErrorKind)>(
            (text.len() as int, instruction),
        ),
{
    let mnemonic = mnemonic_text(Mnemonic::Cal);
    match instruction {
        InstructionKind::CalLit(a) => {
            lemma_text_lit(text, at, mnemonic, a);
        },
        InstructionKind::CalReg(a) => {
            lemma_text_reg(text, at, mnemonic, a);
        },
        _ => {},
    }
}

/// The parser of `dec` reads an instruction with it that the printer wrote.
proof fn lemma_by_dec(text: Seq<char>, at: int, instruction: InstructionKind<ExprTree>)
    requires
        is_instruction(instruction),
        mnemonic_of(instruction) == Mnemonic::Dec,
        located(text, at, instruction_text(instruction)),
        at + instruction_text(instruction).len() == text.len(),
    ensures
        located(text, at, mnemonic_text(Mnemonic::Dec)),
        spec_dec(text, at) == Ok::<(int, InstructionKind<ExprTree>), (int, ErrorKind)>(
            (text.len() as int, instruction),
        ),
{
    let mnemonic = mnemonic_text(Mnemonic::Dec);
    match instruction {
        InstructionKind::DecReg(a) => {
            lemma_text_reg(text, at, mnemonic, a);
        },
        _ => {},
    }
}

/// The parser of `hlt` reads an instruction with it that the printer wrote.
proof fn lemma_by_hlt(text: Seq<char>, at: int, instruction: InstructionKind<ExprTree>)
    requires
        is_instruction(instruction),
        mnemonic_of(instruction) == Mnemonic::Hlt,
        located(text, at, instruction_text(instruction)),
        at + instruction_text(instruction).len() == text.len(),
    ensures
        located(text, at, mnemonic_text(Mnemonic::Hlt)),
        spec_hlt(text, at) == Ok::<(int, InstructionKind<ExprTree>), (int, ErrorKind)>(
            (text.len() as int, instruction),
        ),
{
    let mnemonic = mnemonic_text(Mnemonic::Hlt);
    match instruction {
        InstructionKind::Hlt => {
            lemma_no_blanks(text, text.len() as int);
        },
        _ => {},
    }
}

/// The parser of `inc` reads an instruction with it that the printer wrote.
proof fn lemma_by_inc(text: Seq<char>, at: int, instruction: InstructionKind<ExprTree>)
    requires
        is_instruction(instruction),
        mnemonic_of(instruction) == Mnemonic::Inc,
        located(text, at, instruction_text(instruction)),
        at + instruction_text(instruction).len() == text.len(),
    ensures
        located(text, at, mnemonic_text(Mnemonic::Inc)),
        spec_inc(text, at) == Ok::<(int, InstructionKind<ExprTree>), (int, ErrorKind)>(
            (text.len() as int, instruction),
        ),
{
    let mnemonic = mnemonic_text(Mnemonic::Inc);
    match instruction {
        InstructionKind::IncReg(a) => {
            lemma_text_reg(text, at, mnemonic, a);
        },
        _ => {},
    }
}

/// The parser of `jeq` reads an instruction with it that the printer wrote.
proof fn lemma_by_jeq(text: Seq<char>, at: int, instruction: InstructionKind<ExprTree>)
    requires
        is_instruction(instruction),
        mnemonic_of(instruction) == Mnemonic::Jeq,
        located(text, at, instruction_text(instruction)),
        at + instruction_text(instruction).len() == text.len(),
    ensures
        located(text, at, mnemonic_text(Mnemonic::Jeq)),
        spec_jeq(text, at) == Ok::<(int, InstructionKind<ExprTree>), (int, ErrorKind)>(
            (text.len() as int, instruction),
        ),
{
    let mnemonic = mnemonic_text(Mnemonic::Jeq);
    match instruction {
        InstructionKind::JeqLitMem(a, b) => {
            lemma_text_lit_mem(text, at, mnemonic, a, b);
        },
        InstructionKind::JeqRegMem(a, b) => {
            lemma_text_reg_mem(text, at, mnemonic, a, b);
        },
        _ => {},
    }
}

/// The parser of `jge` reads an instruction with it that the printer wrote.
proof fn lemma_by_jge(text: Seq<char>, at: int, instruction: InstructionKind<ExprTree>)
    requires
        is_instruction(instruction),
        mnemonic_of(instruction) == Mnemonic::Jge,
        located(text, at, instruction_text(instruction)),
        at + instruction_text(instruction).len() == text.len(),
    ensures
        located(text, at, mnemonic_text(Mnemonic::Jge)),
        spec_jge(text, at) == Ok::<(int, InstructionKind<ExprTree>), (int, ErrorKind)>(
            (text.len() as int, instruction),
        ),
{
    let mnemonic = mnemonic_text(Mnemonic::Jge);
    match instruction {
        InstructionKind::JgeLitMem(a, b) => {
            lemma_text_lit_mem(text, at, mnemonic, a, b);
        },
        InstructionKind::JgeRegMem(a, b) => {
            lemma_text_reg_mem(text, at, mnemonic, a, b);
        },
        _ => {},
    }
}

/// The parser of `jgt` reads an instruction with it that the printer wrote.
proof fn lemma_by_jgt(text: Seq<char>, at: int, instruction: InstructionKind<ExprTree>)
    requires
        is_instruction(instruction),
        mnemonic_of(instruction) == Mnemonic::Jgt,
        located(text, at, instruction_text(instruction)),
        at + instruction_text(instruction).len() == text.len(),
    ensures
        located(text, at, mnemonic_text(Mnemonic::Jgt)),
        spec_jgt(text, at) == Ok::<(int, InstructionKind<ExprTree>), (int, ErrorKind)>(
            (text.len() as int, instruction),
        ),
{
    let mnemonic = mnemonic_text(Mnemonic::Jgt);
    match instruction {
        InstructionKind::JgtLitMem(a, b) => {
            lemma_text_lit_mem(text, at, mnemonic, a, b);
        },
        InstructionKind::JgtRegMem(a, b) => {
            lemma_text_reg_mem(text, at, mnemonic, a, b);
        },
        _ => {},
    }
}

/// The parser of `jle` reads an instruction with it that the printer wrote.
proof fn lemma_by_jle(text: Seq<char>, at: int, instruction: InstructionKind<ExprTree>)
    requires
        is_instruction(instruction),
        mnemonic_of(instruction) == Mnemonic::Jle,
        located(text, at, instruction_text(instruction)),
        at + instruction_text(instruction).len() == text.len(),
    ensures
        located(text, at, mnemonic_text(Mnemonic::Jle)),
        spec_jle(text, at) == Ok::<(int, InstructionKind<ExprTree>), (int, ErrorKind)>(
            (text.len() as int, instruction),
        ),
{
    let mnemonic = mnemonic_text(Mnemonic::Jle);
    match instruction {
        InstructionKind::JleLitMem(a, b) => {
            lemma_text_lit_mem(text, at, mnemonic, a, b);
        },
        InstructionKind::JleRegMem(a, b) => {
            lemma_text_reg_mem(text, at, mnemonic, a, b);
        },
        _ => {},
    }
}

/// The parser of `jlt` reads an instruction with it that the printer wrote.
proof fn lemma_by_jlt(text: Seq<char>, at: int, instruction: InstructionKind<ExprTree>)
    requires
        is_instruction(instruction),
        mnemonic_of(instruction) == Mnemonic::Jlt,
        located(text, at, instruction_text(instruction)),
        at + instruction_text(instruction).len() == text.len(),
    ensures
        located(text, at, mnemonic_text(Mnemonic::Jlt)),
        spec_jlt(text, at) == Ok::<(int, InstructionKind<ExprTree>), (int, ErrorKind)>(
            (text.len() as int, instruction),
        ),
{
    let mnemonic = mnemonic_text(Mnemonic::Jlt);
    match instruction {
        InstructionKind::JltLitMem(a, b) => {
            lemma_text_lit_mem(text, at, mnemonic, a, b);
        },
        InstructionKind::JltRegMem(a, b) => {
            lemma_text_reg_mem(text, at, mnemonic, a, b);
        },
        _ => {},
    }
}

/// The parser of `jne` reads an instruction with it that the printer wrote.
proof fn lemma_by_jne(text: Seq<char>, at: int, instruction: InstructionKind<ExprTree>)
    requires
        is_instruction(instruction),
        mnemonic_of(instruction) == Mnemonic::Jne,
        located(text, at, instruction_text(instruction)),
        at + instruction_text(instruction).len() == text.len(),
    ensures
        located(text, at, mnemonic_text(Mnemonic::Jne)),
        spec_jne(text, at) == Ok::<(int, InstructionKind<ExprTree>), (int, ErrorKind)>(
            (text.len() as int, instruction),
        ),
{
    let mnemonic = mnemonic_text(Mnemonic::Jne);
    match instruction {
        InstructionKind::JneLitMem(a, b) => {
            lemma_text_lit_mem(text, at, mnemonic, a, b);
        },
        InstructionKind::JneRegMem(a, b) => {
            lemma_text_reg_mem(text, at, mnemonic, a, b);
        },
        _ => {},
    }
}

/// The parser of `lsf` reads an instruction with it that the printer wrote.
proof fn lemma_by_lsf(text: Seq<char>, at: int, instruction: InstructionKind<ExprTree>)
    requires
        is_instruction(instruction),
        mnemonic_of(instruction) == Mnemonic::Lsf,
        located(text, at, instruction_text(instruction)),
        at + instruction_text(instruction).len() == text.len(),
    ensures
        located(text, at, mnemonic_text(Mnemonic::Lsf)),
        spec_lsf(text, at) == Ok::<(int, InstructionKind<ExprTree>), (int, ErrorKind)>(
            (text.len() as int, instruction),
        ),
{
    let mnemonic = mnemonic_text(Mnemonic::Lsf);
    match instruction {
        InstructionKind::LsfRegLit(a, b) => {
            lemma_text_reg_lit(text, at, mnemonic, a, b);
        },
        InstructionKind::LsfRegReg(a, b) => {
            lemma_text_reg_reg(text, at, mnemonic, a, b);
        },
        _ => {},
    }
}

/// The parser of `mov` reads an instruction with it that the printer wrote.
proof fn lemma_by_mov(text: Seq<char>, at: int, instruction: InstructionKind<ExprTree>)
    requires
        is_instruction(instruction),
        mnemonic_of(instruction) == Mnemonic::Mov,
        located(text, at, instruction_text(instruction)),
        at + instruction_text(instruction).len() == text.len(),
    ensures
        located(text, at, mnemonic_text(Mnemonic::Mov)),
        spec_mov(text, at) == Ok::<(int, InstructionKind<ExprTree>), (int, ErrorKind)>(
            (text.len() as int, instruction),
        ),
{
    let mnemonic = mnemonic_text(Mnemonic::Mov);
    match instruction {
        InstructionKind::MovLitMem(a, b) => {
            lemma_text_lit_mem(text, at, mnemonic, a, b);
        },
        InstructionKind::MovLitOffsetReg(a, b, c) => {
            lemma_text_lit_offset_reg(text, at, mnemonic, a, b, c);
        },
        InstructionKind::MovLitReg(a, b) => {
            lemma_text_lit_reg(text, at, mnemonic, a, b);
        },
        InstructionKind::MovMemReg(a, b) => {
            lemma_text_mem_reg(text, at, mnemonic, a, b);
        },
        InstructionKind::MovRegMem(a, b) => {
            lemma_text_reg_mem(text, at, mnemonic, a, b);
        },
        InstructionKind::MovRegReg(a, b) => {
            lemma_text_reg_reg(text, at, mnemonic, a, b);
        },
        InstructionKind::MovRegPtrReg(a, b) => {
            lemma_text_reg_ptr_reg(text, at, mnemonic, a, b);
        },
        _ => {},
    }
}

/// The parser of `mul` reads an instruction with it that the printer wrote.
proof fn lemma_by_mul(text: Seq<char>, at: int, instruction: InstructionKind<ExprTree>)
    requires
        is_instruction(instruction),
        mnemonic_of(instruction) == Mnemonic::Mul,
        located(text, at, instruction_text(instruction)),
        at + instruction_text(instruction).len() == text.len(),
    ensures
        located(text, at, mnemonic_text(Mnemonic::Mul)),
        spec_mul(text, at) == Ok::<(int, InstructionKind<ExprTree>), (int, ErrorKind)>(
            (text.len() as int, instruction),
        ),
{
    let mnemonic = mnemonic_text(Mnemonic::Mul);
    match instruction {
        InstructionKind::MulLitReg(a, b) => {
            lemma_text_lit_reg(text, at, mnemonic, a, b);
        },
        InstructionKind::MulRegReg(a, b) => {
            lemma_text_reg_reg(text, at, mnemonic, a, b);
        },
        _ => {},
    }
}

/// The parser of `not` reads an instruction with it that the printer wrote.
proof fn lemma_by_not(text: Seq<char>, at: int, instruction: InstructionKind<ExprTree>)
    requires
        is_instruction(instruction),
        mnemonic_of(instruction) == Mnemonic::Not,
        located(text, at, instruction_text(instruction)),
        at + instruction_text(instruction).len() == text.len(),
    ensures
        located(text, at, mnemonic_text(Mnemonic::Not)),
        spec_not(text, at) == Ok::<(int, InstructionKind<ExprTree>), (int, ErrorKind)>(
            (text.len() as int, instruction),
        ),
{
    let mnemonic = mnemonic_text(Mnemonic::Not);
    match instruction {
        InstructionKind::NotReg(a) => {
            lemma_text_reg(text, at, mnemonic, a);
        },
        _ => {},
    }
}

/// The parser of `or` reads an instruction with it that the printer wrote.
proof fn lemma_by_or(text: Seq<char>, at: int, instruction: InstructionKind<ExprTree>)
    requires
        is_instruction(instruction),
        mnemonic_of(instruction) == Mnemonic::Or,
        located(text, at, instruction_text(instruction)),
        at + instruction_text(instruction).len() == text.len(),
    ensures
        located(text, at, mnemonic_text(Mnemonic::Or)),
        spec_or(text, at) == Ok::<(int, InstructionKind<ExprTree>), (int, ErrorKind)>(
            (text.len() as int, instruction),
        ),
{
    let mnemonic = mnemonic_text(Mnemonic::Or);
    match instruction {
        InstructionKind::OrLitReg(a, b) => {
            lemma_text_lit_reg(text, at, mnemonic, a, b);
        },
        InstructionKind::OrRegReg(a, b) => {
            lemma_text_reg_reg(text, at, mnemonic, a, b);
        },
        _ => {},
    }
}

/// The parser of `pop` reads an instruction with it that the printer wrote.
proof fn lemma_by_pop(text: Seq<char>, at: int, instruction: InstructionKind<ExprTree>)
    requires
        is_instruction(instruction),
        mnemonic_of(instruction) == Mnemonic::Pop,
        located(text, at, instruction_text(instruction)),
        at + instruction_text(instruction).len() == text.len(),
    ensures
        located(text, at, mnemonic_text(Mnemonic::Pop)),
        spec_pop(text, at) == Ok::<(int, InstructionKind<ExprTree>), (int, ErrorKind)>(
            (text.len() as int, instruction),
        ),
{
    let mnemonic = mnemonic_text(Mnemonic::Pop);
    match instruction {
        InstructionKind::PopReg(a) => {
            lemma_text_reg(text, at, mnemonic, a);
        },
        _ => {},
    }
}

/// The parser of `psh` reads an instruction with it that the printer wrote.
proof fn lemma_by_psh(text: Seq<char>, at: int, instruction: InstructionKind<ExprTree>)
    requires
        is_instruction(instruction),
        mnemonic_of(instruction) == Mnemonic::Psh,
        located(text, at, instruction_text(instruction)),
        at + instruction_text(instruction).len() == text.len(),
    ensures
        located(text, at, mnemonic_text(Mnemonic::Psh)),
        spec_psh(text, at) == Ok::<(int, InstructionKind<ExprTree>), (int, ErrorKind)>(
            (text.len() as int, instruction),
        ),
{
    let mnemonic = mnemonic_text(Mnemonic::Psh);
    match instruction {
        InstructionKind::PshLit(a) => {
            lemma_text_lit(text, at, mnemonic, a);
        },
        InstructionKind::PshReg(a) => {
            lemma_text_reg(text, at, mnemonic, a);
        },
        _ => {},
    }
}

/// The parser of `ret` reads an instruction with it that the printer wrote.
proof fn lemma_by_ret(text: Seq<char>, at: int, instruction: InstructionKind<ExprTree>)
    requires
        is_instruction(instruction),
        mnemonic_of(instruction) == Mnemonic::Ret,
        located(text, at, instruction_text(instruction)),
        at + instruction_text(instruction).len() == text.len(),
    ensures
        located(text, at, mnemonic_text(Mnemonic::Ret)),
        spec_ret(text, at) == Ok::<(int, InstructionKind<ExprTree>), (int, ErrorKind)>(
            (text.len() as int, instruction),
        ),
{
    let mnemonic = mnemonic_text(Mnemonic::Ret);
    match instruction {
        InstructionKind::Ret => {
            lemma_no_blanks(text, text.len() as int);
        },
        _ => {},
    }
}

/// The parser of `rsf` reads an instruction with it that the printer wrote.
proof fn lemma_by_rsf(text: Seq<char>, at: int, instruction: InstructionKind<ExprTree>)
    requires
        is_instruction(instruction),
        mnemonic_of(instruction) == Mnemonic::Rsf,
        located(text, at, instruction_text(instruction)),
        at + instruction_text(instruction).len() == text.len(),
    ensures
        located(text, at, mnemonic_text(Mnemonic::Rsf)),
        spec_rsf(text, at) == Ok::<(int, InstructionKind<ExprTree>), (int, ErrorKind)>(
            (text.len() as int, instruction),
        ),
{
    let mnemonic = mnemonic_text(Mnemonic::Rsf);
    match instruction {
        InstructionKind::RsfRegLit(a, b) => {
            lemma_text_reg_lit(text, at, mnemonic, a, b);
        },
        InstructionKind::RsfRegReg(a, b) => {
            lemma_text_reg_reg(text, at, mnemonic, a, b);
        },
        _ => {},
    }
}

/// The parser of `sub` reads an instruction with it that the printer wrote.
proof fn lemma_by_sub(text: Seq<char>, at: int, instruction: InstructionKind<ExprTree>)
    requires
        is_instruction(instruction),
        mnemonic_of(instruction) == Mnemonic::Sub,
        located(text, at, instruction_text(instruction)),
        at + instruction_text(instruction).len() == text.len(),
    ensures
        located(text, at, mnemonic_text(Mnemonic::Sub)),
        spec_sub(text, at) == Ok::<(int, InstructionKind<ExprTree>), (int, ErrorKind)>(
            (text.len() as int, instruction),
        ),
{
    let mnemonic = mnemonic_text(Mnemonic::Sub);
    match instruction {
        InstructionKind::SubLitReg(a, b) => {
            lemma_text_lit_reg(text, at, mnemonic, a, b);
        },
        InstructionKind::SubRegReg(a, b) => {
            lemma_text_reg_reg(text, at, mnemonic, a, b);
        },
        _ => {},
    }
}

/// The parser of `xor` reads an instruction with it that the printer wrote.
proof fn lemma_by_xor(text: Seq<char>, at: int, instruction: InstructionKind<ExprTree>)
    requires
        is_instruction(instruction),
        mnemonic_of(instruction) == Mnemonic::Xor,
        located(text, at, instruction_text(instruction)),
        at + instruction_text(instruction).len() == text.len(),
    ensures
        located(text, at, mnemonic_text(Mnemonic::Xor)),
        spec_xor(text, at) == Ok::<(int, InstructionKind<ExprTree>), (int, ErrorKind)>(
            (text.len() as int, instruction),
        ),
{
    let mnemonic = mnemonic_text(Mnemonic::Xor);
    match instruction {
        InstructionKind::XorLitReg(a, b) => {
            lemma_text_lit_reg(text, at, mnemonic, a, b);
        },
        InstructionKind::XorRegReg(a, b) => {
            lemma_text_reg_reg(text, at, mnemonic, a, b);
        },
        _ => {},
    }
}

/// The parser of the mnemonic of an instruction reads the instruction that
/// the printer wrote, where the text ends with it.
pub proof fn lemma_instruction_by_mnemonic(
    text: Seq<char>,
    at: int,
    instruction: InstructionKind<ExprTree>,
)
    requires
        is_instruction(instruction),
        located(text, at, instruction_text(instruction)),
        at + instruction_text(instruction).len() == text.len(),
    ensures
        located(text, at, mnemonic_text(mnemonic_of(instruction))),
        spec_of(mnemonic_of(instruction), text, at) == Ok::<
            (int, InstructionKind<ExprTree>),
            (int, ErrorKind),
        >((text.len() as int, instruction)),
{
    match mnemonic_of(instruction) {
        Mnemonic::Add => {
            lemma_by_add(text, at, instruction);
        },
        Mnemonic::And => {
            lemma_by_and(text, at, instruction);
        },
        Mnemonic::Cal => {
            lemma_by_cal(text, at, instruction);
        },
        Mnemonic::Dec => {
            lemma_by_dec(text, at, instruction);
        },
        Mnemonic::Hlt => {
            lemma_by_hlt(text, at, instruction);
        },
        Mnemonic::Inc => {
            lemma_by_inc(text, at, instruction);
        },
        Mnemonic::Jeq => {
            lemma_by_jeq(text, at, instruction);
        },
        Mnemonic::Jge => {
            lemma_by_jge(text, at, instruction);
        },
        Mnemonic::Jgt => {
            lemma_by_jgt(text, at, instruction);
        },
        Mnemonic::Jle => {
            lemma_by_jle(text, at, instruction);
        },
        Mnemonic::Jlt => {
            lemma_by_jlt(text, at, instruction);
        },
        Mnemonic::Jne => {
            lemma_by_jne(text, at, instruction);
        },
        Mnemonic::Lsf => {
            lemma_by_lsf(text, at, instruction);
        },
        Mnemonic::Mov => {
            lemma_by_mov(text, at, instruction);
        },
        Mnemonic::Mul => {
            lemma_by_mul(text, at, instruction);
        },
        Mnemonic::Not => {
            lemma_by_not(text, at, instruction);
        },
        Mnemonic::Or => {
            lemma_by_or(text, at, instruction);
        },
        Mnemonic::Pop => {
            lemma_by_pop(text, at, instruction);
        },
        Mnemonic::Psh => {
            lemma_by_psh(text, at, instruction);
        },
        Mnemonic::Ret => {
            lemma_by_ret(text, at, instruction);
        },
        Mnemonic::Rsf => {
            lemma_by_rsf(text, at, instruction);
        },
        Mnemonic::Sub => {
            lemma_by_sub(text, at, instruction);
        },
        Mnemonic::Xor => {
            lemma_by_xor(text, at, instruction);
        },
    }
}

/// The parser reads an instruction that the printer wrote, where the text
/// ends with it: it builds the instruction that was printed.
pub proof fn lemma_instruction_round_trip(
    text: Seq<char>,
    at: int,
    instruction: InstructionKind<ExprTree>,
)
    requires
        is_instruction(instruction),
        located(text, at, instruction_text(instruction)),
        at + instruction_text(instruction).len() == text.len(),
    ensures
        spec_instruction(text, at) == Ok::<(int, InstructionKind<ExprTree>), (int, ErrorKind)>(
            (text.len() as int, instruction),
        ),
{
    lemma_instruction_by_mnemonic(text, at, instruction);
    lemma_picks(text, at, mnemonic_of(instruction));
}

/// Printing an instruction and parsing the text gives the instruction
/// back, and nothing of the text is left.
pub proof fn lemma_printed_instruction(instruction: InstructionKind<ExprTree>)
    requires
        is_instruction(instruction),
    ensures
        spec_instruction(instruction_text(instruction), 0) == Ok::<
            (int, InstructionKind<ExprTree>),
            (int, ErrorKind),
        >((instruction_text(instruction).len() as int, instruction)),
{
    lemma_located_whole(instruction_text(instruction));
    lemma_instruction_round_trip(instruction_text(instruction), 0, instruction);
}

} // verus!
