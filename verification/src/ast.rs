//! The abstract syntax tree. The tree is built once by the parser and
//! never mutated; function bodies are always blocks, and `elif` chains are
//! nested `If` statements in the `else` branch.

use vstd::prelude::*;
use crate::symbol_table::DataType;

verus! {

/// The binary operators, in the abstract. `Exp` is the `^` operator; it
/// also serves as the bitwise exclusive-or when lowered.
#[derive(Debug, Clone, Copy, PartialEq, Eq, Structural)]
pub enum BinOp {
    Or,
    And,
    EqEq,
    NotEq,
    Lt,
    Gt,
    Le,
    Ge,
    BitOr,
    BitXor,
    BitAnd,
    Shl,
    Shr,
    Add,
    Sub,
    Mul,
    Div,
    Mod,
    Exp,
}

/// The prefix operators.
#[derive(Debug, Clone, Copy, PartialEq, Eq, Structural)]
pub enum UnOp {
    Neg,
    BitNot,
    Not,
}

/// Binding power of a binary operator, ascending: `||` binds loosest,
/// exponentiation tightest.
pub open spec fn prec_of(op: BinOp) -> u32 {
    match op {
        BinOp::Or => 1,
        BinOp::And => 2,
        BinOp::EqEq => 3,
        BinOp::NotEq => 3,
        BinOp::Lt => 4,
        BinOp::Gt => 4,
        BinOp::Le => 4,
        BinOp::Ge => 4,
        BinOp::BitOr => 5,
        BinOp::BitXor => 6,
        BinOp::BitAnd => 7,
        BinOp::Shl => 8,
        BinOp::Shr => 8,
        BinOp::Add => 9,
        BinOp::Sub => 9,
        BinOp::Mul => 10,
        BinOp::Div => 10,
        BinOp::Mod => 10,
        BinOp::Exp => 12,
    }
}

/// Exponentiation is the one right-associative binary operator.
pub open spec fn is_right_assoc(op: BinOp) -> bool {
    op == BinOp::Exp
}

/// An expression. Literal payloads keep the raw characters from the token.
#[derive(Debug, PartialEq)]
pub enum Expr {
    IntLit(Vec<char>),
    FloatLit(Vec<char>),
    BoolLit(bool),
    StringLit(Vec<char>),
    CharLit(char),
    Variable(Vec<char>),
    Binary { op: BinOp, left: Box<Expr>, right: Box<Expr> },
    Unary { op: UnOp, operand: Box<Expr> },
    Call { name: Vec<char>, args: Vec<Expr> },
}

/// A `let` binding: the declared type is `None` when the source gave no
/// annotation.
#[derive(Debug, PartialEq)]
pub struct LetBinding {
    pub name: Vec<char>,
    pub data_type: Option<DataType>,
    pub initializer: Expr,
}

/// One arm of a `match`.
#[derive(Debug, PartialEq)]
pub struct MatchArm {
    pub pattern: Expr,
    pub guard: Option<Expr>,
    pub body: Expr,
}

/// A statement.
#[derive(Debug, PartialEq)]
pub enum Stmt {
    Let(LetBinding),
    Assignment { name: Vec<char>, value: Expr },
    If { cond: Expr, then_block: Block, else_block: Option<Block> },
    While { cond: Expr, body: Block },
    For { init: Box<Stmt>, cond: Expr, step: Box<Stmt>, body: Block },
    DoWhile { body: Block, cond: Expr },
    Break,
    Continue,
    Return { value: Option<Expr> },
    Match { scrutinee: Expr, arms: Vec<MatchArm> },
    ExprStmt(Expr),
}

/// A braced scope: a sequence of statements.
#[derive(Debug, PartialEq)]
pub struct Block {
    pub statements: Vec<Stmt>,
}

/// One function parameter.
#[derive(Debug, PartialEq)]
pub struct Param {
    pub name: Vec<char>,
    pub data_type: DataType,
}

/// A function declaration; the body is always a block.
#[derive(Debug, PartialEq)]
pub struct FunctionDecl {
    pub name: Vec<char>,
    pub params: Vec<Param>,
    pub return_type: DataType,
    pub body: Block,
}

/// A top-level item.
#[derive(Debug, PartialEq)]
pub enum Item {
    Function(FunctionDecl),
    Let(LetBinding),
}

/// The root of the tree: the top-level items in source order.
#[derive(Debug, PartialEq)]
pub struct Program {
    pub items: Vec<Item>,
}

} // verus!
