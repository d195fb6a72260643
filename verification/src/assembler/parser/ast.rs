//! The trees that the parser builds.

use vstd::prelude::*;

verus! {

/// An expression.
#[derive(Debug, PartialEq)]
pub struct Expr {
    pub kind: ExprKind,
}

/// The forms of an expression.
#[derive(Debug, PartialEq)]
pub enum ExprKind {
    /// An address: the digits after `&`.
    Address(u16),
    /// Two expressions with an operator between them.
    Binary(Box<Expr>, Operator, Box<Expr>),
    /// An expression in round brackets.
    Bracket(Box<Expr>),
    /// A literal: the digits after `$`.
    HexLiteral(u16),
    /// An expression in square brackets.
    SquareBracket(Box<Expr>),
    /// A variable: the name after `!`.
    Variable(String),
}

/// What an expression is: its tree, with the names of variables as
/// sequences of characters.
pub enum ExprTree {
    Address(u16),
    Binary(Box<ExprTree>, Operator, Box<ExprTree>),
    Bracket(Box<ExprTree>),
    HexLiteral(u16),
    SquareBracket(Box<ExprTree>),
    Variable(Seq<char>),
}

impl Expr {
    /// The tree of the expression.
    pub open spec fn tree(&self) -> ExprTree
        decreases self,
    {
        match self.kind {
            ExprKind::Address(address) => ExprTree::Address(address),
            ExprKind::Binary(left, operator, right) => ExprTree::Binary(
                Box::new(left.tree()),
                operator,
                Box::new(right.tree()),
            ),
            ExprKind::Bracket(inner) => ExprTree::Bracket(Box::new(inner.tree())),
            ExprKind::HexLiteral(value) => ExprTree::HexLiteral(value),
            ExprKind::SquareBracket(inner) => ExprTree::SquareBracket(Box::new(inner.tree())),
            ExprKind::Variable(name) => ExprTree::Variable(name@),
        }
    }
}

impl View for Expr {
    type V = ExprTree;

    open spec fn view(&self) -> ExprTree {
        self.tree()
    }
}

/// An instruction.
#[derive(Debug, PartialEq)]
pub struct Instruction {
    pub kind: InstructionKind<Expr>,
}

/// The forms of an instruction, over expressions of type `E`: the mnemonic
/// and the shape of the operands.
#[derive(Debug, PartialEq)]
pub enum InstructionKind<E> {
    AddLitReg(E, Register),
    AddRegReg(Register, Register),
    AndLitReg(E, Register),
    AndRegReg(Register, Register),
    CalLit(E),
    CalReg(Register),
    DecReg(Register),
    Hlt,
    IncReg(Register),
    JeqLitMem(E, E),
    JeqRegMem(Register, E),
    JgeLitMem(E, E),
    JgeRegMem(Register, E),
    JgtLitMem(E, E),
    JgtRegMem(Register, E),
    JleLitMem(E, E),
    JleRegMem(Register, E),
    JltLitMem(E, E),
    JltRegMem(Register, E),
    JneLitMem(E, E),
    JneRegMem(Register, E),
    LsfRegLit(Register, E),
    LsfRegReg(Register, Register),
    MovLitMem(E, E),
    MovLitOffsetReg(E, Register, Register),
    MovLitReg(E, Register),
    MovMemReg(E, Register),
    MovRegMem(Register, E),
    MovRegReg(Register, Register),
    MovRegPtrReg(Register, Register),
    MulLitReg(E, Register),
    MulRegReg(Register, Register),
    NotReg(Register),
    OrLitReg(E, Register),
    OrRegReg(Register, Register),
    PopReg(Register),
    PshLit(E),
    PshReg(Register),
    Ret,
    RsfRegLit(Register, E),
    RsfRegReg(Register, Register),
    SubLitReg(E, Register),
    SubRegLit(Register, E),
    SubRegReg(Register, Register),
    XorLitReg(E, Register),
    XorRegReg(Register, Register),
}

impl View for Instruction {
    type V = InstructionKind<ExprTree>;

    open spec fn view(&self) -> InstructionKind<ExprTree> {
        match self.kind {
            InstructionKind::AddLitReg(a, b) => InstructionKind::AddLitReg(a@, b),
            InstructionKind::AddRegReg(a, b) => InstructionKind::AddRegReg(a, b),
            InstructionKind::AndLitReg(a, b) => InstructionKind::AndLitReg(a@, b),
            InstructionKind::AndRegReg(a, b) => InstructionKind::AndRegReg(a, b),
            InstructionKind::CalLit(a) => InstructionKind::CalLit(a@),
            InstructionKind::CalReg(a) => InstructionKind::CalReg(a),
            InstructionKind::DecReg(a) => InstructionKind::DecReg(a),
            InstructionKind::Hlt => InstructionKind::Hlt,
            InstructionKind::IncReg(a) => InstructionKind::IncReg(a),
            InstructionKind::JeqLitMem(a, b) => InstructionKind::JeqLitMem(a@, b@),
            InstructionKind::JeqRegMem(a, b) => InstructionKind::JeqRegMem(a, b@),
            InstructionKind::JgeLitMem(a, b) => InstructionKind::JgeLitMem(a@, b@),
            InstructionKind::JgeRegMem(a, b) => InstructionKind::JgeRegMem(a, b@),
            InstructionKind::JgtLitMem(a, b) => InstructionKind::JgtLitMem(a@, b@),
            InstructionKind::JgtRegMem(a, b) => InstructionKind::JgtRegMem(a, b@),
            InstructionKind::JleLitMem(a, b) => InstructionKind::JleLitMem(a@, b@),
            InstructionKind::JleRegMem(a, b) => InstructionKind::JleRegMem(a, b@),
            InstructionKind::JltLitMem(a, b) => InstructionKind::JltLitMem(a@, b@),
            InstructionKind::JltRegMem(a, b) => InstructionKind::JltRegMem(a, b@),
            InstructionKind::JneLitMem(a, b) => InstructionKind::JneLitMem(a@, b@),
            InstructionKind::JneRegMem(a, b) => InstructionKind::JneRegMem(a, b@),
            InstructionKind::LsfRegLit(a, b) => InstructionKind::LsfRegLit(a, b@),
            InstructionKind::LsfRegReg(a, b) => InstructionKind::LsfRegReg(a, b),
            InstructionKind::MovLitMem(a, b) => InstructionKind::MovLitMem(a@, b@),
            InstructionKind::MovLitOffsetReg(a, b, c) => InstructionKind::MovLitOffsetReg(a@, b, c),
            InstructionKind::MovLitReg(a, b) => InstructionKind::MovLitReg(a@, b),
            InstructionKind::MovMemReg(a, b) => InstructionKind::MovMemReg(a@, b),
            InstructionKind::MovRegMem(a, b) => InstructionKind::MovRegMem(a, b@),
            InstructionKind::MovRegReg(a, b) => InstructionKind::MovRegReg(a, b),
            InstructionKind::MovRegPtrReg(a, b) => InstructionKind::MovRegPtrReg(a, b),
            InstructionKind::MulLitReg(a, b) => InstructionKind::MulLitReg(a@, b),
            InstructionKind::MulRegReg(a, b) => InstructionKind::MulRegReg(a, b),
            InstructionKind::NotReg(a) => InstructionKind::NotReg(a),
            InstructionKind::OrLitReg(a, b) => InstructionKind::OrLitReg(a@, b),
            InstructionKind::OrRegReg(a, b) => InstructionKind::OrRegReg(a, b),
            InstructionKind::PopReg(a) => InstructionKind::PopReg(a),
            InstructionKind::PshLit(a) => InstructionKind::PshLit(a@),
            InstructionKind::PshReg(a) => InstructionKind::PshReg(a),
            InstructionKind::Ret => InstructionKind::Ret,
            InstructionKind::RsfRegLit(a, b) => InstructionKind::RsfRegLit(a, b@),
            InstructionKind::RsfRegReg(a, b) => InstructionKind::RsfRegReg(a, b),
            InstructionKind::SubLitReg(a, b) => InstructionKind::SubLitReg(a@, b),
            InstructionKind::SubRegLit(a, b) => InstructionKind::SubRegLit(a, b@),
            InstructionKind::SubRegReg(a, b) => InstructionKind::SubRegReg(a, b),
            InstructionKind::XorLitReg(a, b) => InstructionKind::XorLitReg(a@, b),
            InstructionKind::XorRegReg(a, b) => InstructionKind::XorRegReg(a, b),
        }
    }
}

/// An operator between two expressions.
#[derive(Clone, Copy, Debug, PartialEq, Eq, Structural)]
pub enum Operator {
    OpPlus,
    OpMinus,
    OpMultiply,
}

/// A register by its name.
#[derive(Clone, Copy, Debug, PartialEq, Eq, Structural)]
pub enum Register {
    R1,
    R2,
    R3,
    R4,
    R5,
    R6,
    R7,
    R8,
    Sp,
    Fp,
    Ip,
    Acc,
}

impl View for Operator {
    type V = Operator;

    open spec fn view(&self) -> Operator {
        *self
    }
}

impl View for Register {
    type V = Register;

    open spec fn view(&self) -> Register {
        *self
    }
}

} // verus!
