//! The IR generator: lowers the tree to SSA-style instructions through a
//! recording builder. Values and basic blocks are numbered handles; the
//! module is an append-only log of instructions, each tagged with the
//! basic block it belongs to. Value `0` is the sentinel for statements
//! that produce nothing; every real value is defined exactly once, by the
//! instruction that carries it as `dest`.
//!
//! Control flow lowers to blocks in the standard shapes: `if` to
//! then/else/merge, `while` to header/body/exit with the back edge into
//! the header, `for` with a separate step block that `continue` targets,
//! `do` with the body entered first. `break` and `continue` consult the
//! loop-target stack; using either outside a loop is an internal error.

use vstd::prelude::*;
use crate::ast::{BinOp, Block, Expr, MatchArm, Param, Program, Stmt, UnOp, FunctionDecl, Item};
use crate::error::ErrorType;
use crate::symbol_table::{DataType, SymbolInfo, SymbolInfoV, SymbolKind, SymbolKindV, SymbolTable,
    SymbolTableStack, stack_lookup};
use crate::parser::{clone_data_type, infer_literal_type};
use crate::chars::{chars_of, clone_chars};

verus! {

/// The sentinel handle for "no value".
pub const NO_VALUE: usize = 0;

/// The builder calls of the SSA backend that a binary operator selects.
#[derive(Debug, Clone, Copy, PartialEq, Eq, Structural)]
pub enum BuildOp {
    Add,
    Sub,
    Mul,
    Div,
    Rem,
    And,
    Or,
    Xor,
    Shl,
    Shr,
    IcmpEq,
    IcmpNe,
    IcmpLt,
    IcmpLe,
    IcmpGt,
    IcmpGe,
}

/// The builder calls that a prefix operator selects.
#[derive(Debug, Clone, Copy, PartialEq, Eq, Structural)]
pub enum UnaryBuild {
    Negation,
    BitwiseNot,
    LogicalNot,
}

/// Which builder call each binary operator lowers to. The logical and the
/// bitwise conjunction both go to `And` (no short-circuiting), both
/// disjunctions to `Or`, and `^` — exponent and exclusive-or alike — to
/// `Xor`.
pub open spec fn build_call_of(op: BinOp) -> BuildOp {
    match op {
        BinOp::Add => BuildOp::Add,
        BinOp::Sub => BuildOp::Sub,
        BinOp::Mul => BuildOp::Mul,
        BinOp::Div => BuildOp::Div,
        BinOp::Mod => BuildOp::Rem,
        BinOp::And => BuildOp::And,
        BinOp::BitAnd => BuildOp::And,
        BinOp::Or => BuildOp::Or,
        BinOp::BitOr => BuildOp::Or,
        BinOp::Exp => BuildOp::Xor,
        BinOp::BitXor => BuildOp::Xor,
        BinOp::Shl => BuildOp::Shl,
        BinOp::Shr => BuildOp::Shr,
        BinOp::EqEq => BuildOp::IcmpEq,
        BinOp::NotEq => BuildOp::IcmpNe,
        BinOp::Lt => BuildOp::IcmpLt,
        BinOp::Le => BuildOp::IcmpLe,
        BinOp::Gt => BuildOp::IcmpGt,
        BinOp::Ge => BuildOp::IcmpGe,
    }
}

/// The temporary-name hint each binary operator's instruction carries.
pub open spec fn hint_of(op: BinOp) -> Seq<char> {
    match op {
        BinOp::Add => "addtmp"@,
        BinOp::Sub => "subtmp"@,
        BinOp::Mul => "multmp"@,
        BinOp::Div => "divtmp"@,
        BinOp::Mod => "remtmp"@,
        BinOp::And => "andtmp"@,
        BinOp::BitAnd => "andtmp"@,
        BinOp::Or => "ortmp"@,
        BinOp::BitOr => "ortmp"@,
        BinOp::Exp => "xortmp"@,
        BinOp::BitXor => "xortmp"@,
        BinOp::Shl => "shltmp"@,
        BinOp::Shr => "shrtmp"@,
        BinOp::EqEq => "eqtmp"@,
        BinOp::NotEq => "netmp"@,
        BinOp::Lt => "lttmp"@,
        BinOp::Le => "letmp"@,
        BinOp::Gt => "gttmp"@,
        BinOp::Ge => "getmp"@,
    }
}

fn hint_chars(op: BinOp) -> (v: Vec<char>)
    ensures
        v@ == hint_of(op),
{
    match op {
        BinOp::Add => chars_of("addtmp"),
        BinOp::Sub => chars_of("subtmp"),
        BinOp::Mul => chars_of("multmp"),
        BinOp::Div => chars_of("divtmp"),
        BinOp::Mod => chars_of("remtmp"),
        BinOp::And => chars_of("andtmp"),
        BinOp::BitAnd => chars_of("andtmp"),
        BinOp::Or => chars_of("ortmp"),
        BinOp::BitOr => chars_of("ortmp"),
        BinOp::Exp => chars_of("xortmp"),
        BinOp::BitXor => chars_of("xortmp"),
        BinOp::Shl => chars_of("shltmp"),
        BinOp::Shr => chars_of("shrtmp"),
        BinOp::EqEq => chars_of("eqtmp"),
        BinOp::NotEq => chars_of("netmp"),
        BinOp::Lt => chars_of("lttmp"),
        BinOp::Le => chars_of("letmp"),
        BinOp::Gt => chars_of("gttmp"),
        BinOp::Ge => chars_of("getmp"),
    }
}

/// Which builder call each prefix operator lowers to.
pub open spec fn unary_build_of(op: UnOp) -> UnaryBuild {
    match op {
        UnOp::Neg => UnaryBuild::Negation,
        UnOp::BitNot => UnaryBuild::BitwiseNot,
        UnOp::Not => UnaryBuild::LogicalNot,
    }
}

/// The temporary-name hint each prefix operator's instruction carries.
pub open spec fn unary_hint_of(op: UnOp) -> Seq<char> {
    match op {
        UnOp::Neg => "negtmp"@,
        UnOp::BitNot => "nottmp"@,
        UnOp::Not => "lognotmp"@,
    }
}

fn unary_hint_chars(op: UnOp) -> (v: Vec<char>)
    ensures
        v@ == unary_hint_of(op),
{
    match op {
        UnOp::Neg => chars_of("negtmp"),
        UnOp::BitNot => chars_of("nottmp"),
        UnOp::Not => chars_of("lognotmp"),
    }
}

/// One SSA instruction of the recorded module.
#[derive(Debug, PartialEq)]
pub enum Instr {
    Binary { build: BuildOp, dest: usize, lhs: usize, rhs: usize, hint: Vec<char> },
    Unary { build: UnaryBuild, dest: usize, operand: usize, hint: Vec<char> },
    ConstInt { dest: usize, digits: Vec<char> },
    ConstFloat { dest: usize, digits: Vec<char> },
    ConstBool { dest: usize, value: bool },
    ConstString { dest: usize, chars: Vec<char> },
    ConstChar { dest: usize, value: char },
    Param { dest: usize, index: usize },
    Alloca { dest: usize },
    Load { dest: usize, slot: usize },
    Store { slot: usize, value: usize },
    Call { dest: usize, callee: Vec<char>, args: Vec<usize> },
    Br { target: usize },
    CondBr { cond: usize, then_target: usize, else_target: usize },
    Phi { dest: usize, incoming: Vec<(usize, usize)> },
    RetVoid,
    Ret { value: usize },
}

/// Mathematical model of one instruction: payloads become sequences and
/// handles plain integers.
pub enum InstrV {
    Binary { build: BuildOp, dest: int, lhs: int, rhs: int, hint: Seq<char> },
    Unary { build: UnaryBuild, dest: int, operand: int, hint: Seq<char> },
    ConstInt { dest: int, digits: Seq<char> },
    ConstFloat { dest: int, digits: Seq<char> },
    ConstBool { dest: int, value: bool },
    ConstString { dest: int, chars: Seq<char> },
    ConstChar { dest: int, value: char },
    Param { dest: int, index: int },
    Alloca { dest: int },
    Load { dest: int, slot: int },
    Store { slot: int, value: int },
    Call { dest: int, callee: Seq<char>, args: Seq<int> },
    Br { target: int },
    CondBr { cond: int, then_target: int, else_target: int },
    Phi { dest: int, incoming: Seq<(int, int)> },
    RetVoid,
    Ret { value: int },
}

impl View for Instr {
    type V = InstrV;

    open spec fn view(&self) -> InstrV {
        match self {
            Instr::Binary { build, dest, lhs, rhs, hint } => InstrV::Binary {
                build: *build,
                dest: *dest as int,
                lhs: *lhs as int,
                rhs: *rhs as int,
                hint: hint@,
            },
            Instr::Unary { build, dest, operand, hint } => InstrV::Unary {
                build: *build,
                dest: *dest as int,
                operand: *operand as int,
                hint: hint@,
            },
            Instr::ConstInt { dest, digits } => InstrV::ConstInt {
                dest: *dest as int,
                digits: digits@,
            },
            Instr::ConstFloat { dest, digits } => InstrV::ConstFloat {
                dest: *dest as int,
                digits: digits@,
            },
            Instr::ConstBool { dest, value } => InstrV::ConstBool {
                dest: *dest as int,
                value: *value,
            },
            Instr::ConstString { dest, chars } => InstrV::ConstString {
                dest: *dest as int,
                chars: chars@,
            },
            Instr::ConstChar { dest, value } => InstrV::ConstChar {
                dest: *dest as int,
                value: *value,
            },
            Instr::Param { dest, index } => InstrV::Param {
                dest: *dest as int,
                index: *index as int,
            },
            Instr::Alloca { dest } => InstrV::Alloca { dest: *dest as int },
            Instr::Load { dest, slot } => InstrV::Load { dest: *dest as int, slot: *slot as int },
            Instr::Store { slot, value } => InstrV::Store {
                slot: *slot as int,
                value: *value as int,
            },
            Instr::Call { dest, callee, args } => InstrV::Call {
                dest: *dest as int,
                callee: callee@,
                args: args@.map_values(|a: usize| a as int),
            },
            Instr::Br { target } => InstrV::Br { target: *target as int },
            Instr::CondBr { cond, then_target, else_target } => InstrV::CondBr {
                cond: *cond as int,
                then_target: *then_target as int,
                else_target: *else_target as int,
            },
            Instr::Phi { dest, incoming } => InstrV::Phi {
                dest: *dest as int,
                incoming: incoming@.map_values(|p: (usize, usize)| (p.0 as int, p.1 as int)),
            },
            Instr::RetVoid => InstrV::RetVoid,
            Instr::Ret { value } => InstrV::Ret { value: *value as int },
        }
    }
}

/// The model of the instruction log: block handles and instructions.
pub open spec fn log_view(s: Seq<(usize, Instr)>) -> Seq<(int, InstrV)> {
    s.map_values(|p: (usize, Instr)| (p.0 as int, p.1@))
}

/// How many values lowering an expression may define: one per node.
pub open spec fn expr_size(e: Expr) -> nat
    decreases e,
{
    match e {
        Expr::Binary { left, right, .. } => 1 + expr_size(*left) + expr_size(*right),
        Expr::Unary { operand, .. } => 1 + expr_size(*operand),
        Expr::Call { args, .. } => 1 + exprs_size(args@),
        _ => 1,
    }
}

/// The sizes of a list of expressions, summed.
pub open spec fn exprs_size(es: Seq<Expr>) -> nat
    decreases es,
{
    if es.len() == 0 {
        0
    } else {
        expr_size(es[0]) + exprs_size(es.drop_first())
    }
}

proof fn lemma_exprs_size_take(es: Seq<Expr>, i: int)
    requires
        0 <= i < es.len(),
    ensures
        exprs_size(es.take(i + 1)) == exprs_size(es.take(i)) + expr_size(es[i]),
    decreases i,
{
    assert(es.take(i + 1)[0] == es[0]);
    if i == 0 {
        assert(es.take(1).drop_first() =~= es.take(0));
    } else {
        assert(es.take(i)[0] == es[0]);
        lemma_exprs_size_take(es.drop_first(), i - 1);
        assert(es.take(i + 1).drop_first() =~= es.drop_first().take(i));
        assert(es.take(i).drop_first() =~= es.drop_first().take(i - 1));
        assert(es.drop_first()[i - 1] == es[i]);
    }
}

proof fn lemma_exprs_size_take_le(es: Seq<Expr>, i: int)
    requires
        0 <= i <= es.len(),
    ensures
        exprs_size(es.take(i)) <= exprs_size(es),
    decreases es.len() - i,
{
    if i == es.len() {
        assert(es.take(i) =~= es);
    } else {
        lemma_exprs_size_take(es, i);
        lemma_exprs_size_take_le(es, i + 1);
    }
}

/// What lowering an expression yields: the emitted instructions, the value
/// handle of the result, and the value counter afterwards — or the error
/// the lowering reports.
pub enum Lowered {
    Code(Seq<(int, InstrV)>, int, int),
    Undefined(Seq<char>),
    Internal,
}

/// Lowering a list of expressions left to right: the instructions, the
/// result values in order, and the counter afterwards.
pub enum LoweredArgs {
    Code(Seq<(int, InstrV)>, Seq<int>, int),
    Undefined(Seq<char>),
    Internal,
}

/// The lowering of one expression in the given scopes, emitting into
/// `block`, with `next` the first unused value handle. Operands are lowered
/// left before right, each exactly once; every node defines exactly one
/// fresh value, which is the node's result. A variable or callee that does
/// not resolve is the undefined-symbol error; a binding without a storage
/// slot, a callee that is not a function, or an argument-count mismatch is
/// an internal error.
pub open spec fn lower_expr(
    e: Expr,
    scopes: Seq<Map<Seq<char>, SymbolInfoV>>,
    block: int,
    next: int,
) -> Lowered
    decreases e,
{
    match e {
        Expr::IntLit(d) => Lowered::Code(
            seq![(block, InstrV::ConstInt { dest: next, digits: d@ })],
            next,
            next + 1,
        ),
        Expr::FloatLit(d) => Lowered::Code(
            seq![(block, InstrV::ConstFloat { dest: next, digits: d@ })],
            next,
            next + 1,
        ),
        Expr::BoolLit(b) => Lowered::Code(
            seq![(block, InstrV::ConstBool { dest: next, value: b })],
            next,
            next + 1,
        ),
        Expr::StringLit(cs) => Lowered::Code(
            seq![(block, InstrV::ConstString { dest: next, chars: cs@ })],
            next,
            next + 1,
        ),
        Expr::CharLit(c) => Lowered::Code(
            seq![(block, InstrV::ConstChar { dest: next, value: c })],
            next,
            next + 1,
        ),
        Expr::Variable(n) => (match stack_lookup(scopes, n@) {
            None => Lowered::Undefined(n@),
            Some(info) => (match info.storage_slot {
                None => Lowered::Internal,
                Some(slot) => Lowered::Code(
                    seq![(block, InstrV::Load { dest: next, slot: slot as int })],
                    next,
                    next + 1,
                ),
            }),
        }),
        Expr::Binary { op, left, right } => (match lower_expr(*left, scopes, block, next) {
            Lowered::Code(c1, v1, n1) => (match lower_expr(*right, scopes, block, n1) {
                Lowered::Code(c2, v2, n2) => Lowered::Code(
                    c1 + c2 + seq![
                        (
                            block,
                            InstrV::Binary {
                                build: build_call_of(op),
                                dest: n2,
                                lhs: v1,
                                rhs: v2,
                                hint: hint_of(op),
                            },
                        ),
                    ],
                    n2,
                    n2 + 1,
                ),
                Lowered::Undefined(nm) => Lowered::Undefined(nm),
                Lowered::Internal => Lowered::Internal,
            }),
            Lowered::Undefined(nm) => Lowered::Undefined(nm),
            Lowered::Internal => Lowered::Internal,
        }),
        Expr::Unary { op, operand } => (match lower_expr(*operand, scopes, block, next) {
            Lowered::Code(c1, v1, n1) => Lowered::Code(
                c1 + seq![
                    (
                        block,
                        InstrV::Unary {
                            build: unary_build_of(op),
                            dest: n1,
                            operand: v1,
                            hint: unary_hint_of(op),
                        },
                    ),
                ],
                n1,
                n1 + 1,
            ),
            Lowered::Undefined(nm) => Lowered::Undefined(nm),
            Lowered::Internal => Lowered::Internal,
        }),
        Expr::Call { name, args } => (match lower_args(args@, scopes, block, next) {
            LoweredArgs::Code(c, vals, n1) => (match stack_lookup(scopes, name@) {
                None => Lowered::Undefined(name@),
                Some(info) => if info.kind matches SymbolKindV::Function { params, .. }
                    && params.len() == args@.len() {
                    Lowered::Code(
                        c + seq![(block, InstrV::Call { dest: n1, callee: name@, args: vals })],
                        n1,
                        n1 + 1,
                    )
                } else {
                    Lowered::Internal
                },
            }),
            LoweredArgs::Undefined(nm) => Lowered::Undefined(nm),
            LoweredArgs::Internal => Lowered::Internal,
        }),
    }
}

/// The lowerings of a list of expressions, left to right.
pub open spec fn lower_args(
    es: Seq<Expr>,
    scopes: Seq<Map<Seq<char>, SymbolInfoV>>,
    block: int,
    next: int,
) -> LoweredArgs
    decreases es,
{
    if es.len() == 0 {
        LoweredArgs::Code(Seq::empty(), Seq::empty(), next)
    } else {
        match lower_expr(es[0], scopes, block, next) {
            Lowered::Code(c1, v1, n1) => (match lower_args(es.drop_first(), scopes, block, n1) {
                LoweredArgs::Code(c2, vs, n2) => LoweredArgs::Code(c1 + c2, seq![v1] + vs, n2),
                LoweredArgs::Undefined(nm) => LoweredArgs::Undefined(nm),
                LoweredArgs::Internal => LoweredArgs::Internal,
            }),
            Lowered::Undefined(nm) => LoweredArgs::Undefined(nm),
            Lowered::Internal => LoweredArgs::Internal,
        }
    }
}

/// One declared function: its name, arity, and entry block.
#[derive(Debug, PartialEq)]
pub struct IRFunction {
    pub name: Vec<char>,
    pub n_params: usize,
    pub entry: usize,
}

/// The recording builder. `instrs` is the append-only log of instructions,
/// each tagged with its basic block; `blocks` counts the blocks created so
/// far; `cur_block` is where the builder is positioned; `entry_block` is
/// the entry of the function being emitted, where allocations go;
/// `loop_stack` pairs each enclosing loop's break and continue targets.
pub struct IRGenerator {
    pub instrs: Vec<(usize, Instr)>,
    pub blocks: usize,
    pub cur_block: usize,
    pub entry_block: usize,
    pub next_value: usize,
    pub loop_stack: Vec<(usize, usize)>,
    pub functions: Vec<IRFunction>,
}

/// Everything but the log and the value counter is unchanged.
pub open spec fn same_shape(a: IRGenerator, b: IRGenerator) -> bool {
    a.blocks == b.blocks && a.cur_block == b.cur_block && a.entry_block == b.entry_block
        && a.loop_stack@ == b.loop_stack@ && a.functions@ == b.functions@
}

/// The type a `let` binding declares: its annotation, or its literal
/// initializer's own type, or `Integer`.
pub open spec fn let_decl_type(b: crate::ast::LetBinding) -> crate::symbol_table::DataTypeV {
    match b.data_type {
        Some(d) => d@,
        None => crate::parser::infer_literal_type_spec(b.initializer),
    }
}

/// The only errors IR generation reports: an unresolved name, or a broken
/// internal invariant.
pub open spec fn gen_error(e: crate::error::ErrorV) -> bool {
    match e {
        crate::error::ErrorV::UndefinedSymbol { .. } => true,
        crate::error::ErrorV::DevError => true,
        _ => false,
    }
}

impl IRGenerator {
    /// A fresh builder: one block (the module's entry) exists and is
    /// current; value `0` is reserved as the no-value sentinel.
    pub fn new() -> (g: IRGenerator)
        ensures
            g.instrs@.len() == 0,
            g.blocks == 1,
            g.cur_block == 0,
            g.entry_block == 0,
            g.next_value == 1,
            g.loop_stack@.len() == 0,
            g.functions@.len() == 0,
    {
        IRGenerator {
            instrs: Vec::new(),
            blocks: 1,
            cur_block: 0,
            entry_block: 0,
            next_value: 1,
            loop_stack: Vec::new(),
            functions: Vec::new(),
        }
    }

    /// A value handle nobody holds yet.
    fn fresh_value(&mut self) -> (r: Result<usize, ErrorType>)
        ensures
            final(self).instrs@ == old(self).instrs@,
            same_shape(*final(self), *old(self)),
            match r {
                Ok(v) => v == old(self).next_value && final(self).next_value == old(
                    self,
                ).next_value + 1,
                Err(e) => *final(self) == *old(self) && old(self).next_value == usize::MAX && e@
                    == crate::error::ErrorV::DevError,
            },
    {
        if self.next_value == usize::MAX {
            return Err(ErrorType::DevError {});
        }
        let v = self.next_value;
        self.next_value = self.next_value + 1;
        Ok(v)
    }

    /// Creates a new, empty basic block and hands its handle back; the
    /// builder stays where it was.
    pub fn create_basic_block(&mut self) -> (r: Result<usize, ErrorType>)
        ensures
            final(self).instrs@ == old(self).instrs@,
            final(self).next_value == old(self).next_value,
            final(self).cur_block == old(self).cur_block,
            final(self).entry_block == old(self).entry_block,
            final(self).loop_stack@ == old(self).loop_stack@,
            final(self).functions@ == old(self).functions@,
            match r {
                Ok(b) => b == old(self).blocks && final(self).blocks == old(self).blocks + 1,
                Err(e) => *final(self) == *old(self) && old(self).blocks == usize::MAX && e@
                    == crate::error::ErrorV::DevError,
            },
    {
        if self.blocks == usize::MAX {
            return Err(ErrorType::DevError {});
        }
        let b = self.blocks;
        self.blocks = self.blocks + 1;
        Ok(b)
    }

    /// Moves the builder to the end of the given block.
    pub fn position_at_end(&mut self, block: usize)
        ensures
            *final(self) == (IRGenerator { cur_block: block, ..*old(self) }),
    {
        self.cur_block = block;
    }

    /// Appends one instruction to the current block.
    fn emit(&mut self, ins: Instr)
        ensures
            final(self).instrs@ == old(self).instrs@.push((old(self).cur_block, ins)),
            same_shape(*final(self), *old(self)),
            final(self).next_value == old(self).next_value,
    {
        let b = self.cur_block;
        self.instrs.push((b, ins));
    }

    /// Lowers a binary expression whose operands are already evaluated:
    /// appends exactly one instruction, carrying the builder call and the
    /// temporary-name hint the operator selects, and defines a fresh value.
    pub fn generate_binary_exp_ir(&mut self, operator: BinOp, left_val: usize, right_val: usize)
        -> (r: Result<usize, ErrorType>)
        ensures
            same_shape(*final(self), *old(self)),
            match r {
                Ok(v) => {
                    &&& v == old(self).next_value
                    &&& final(self).next_value == old(self).next_value + 1
                    &&& final(self).instrs@.len() == old(self).instrs@.len() + 1
                    &&& final(self).instrs@.drop_last() == old(self).instrs@
                    &&& final(self).instrs@.last().0 == old(self).cur_block
                    &&& (match final(self).instrs@.last().1 {
                        Instr::Binary { build, dest, lhs, rhs, hint } => build == build_call_of(
                            operator,
                        ) && dest == v && lhs == left_val && rhs == right_val && hint@ == hint_of(
                            operator,
                        ),
                        _ => false,
                    })
                },
                Err(e) => *final(self) == *old(self) && old(self).next_value == usize::MAX && e@
                    == crate::error::ErrorV::DevError,
            },
    {
        let dest = match self.fresh_value() {
            Ok(v) => v,
            Err(e) => {
                return Err(e);
            },
        };
        let hint = hint_chars(operator);
        let build = match operator {
            BinOp::Add => BuildOp::Add,
            BinOp::Sub => BuildOp::Sub,
            BinOp::Mul => BuildOp::Mul,
            BinOp::Div => BuildOp::Div,
            BinOp::Mod => BuildOp::Rem,
            BinOp::And => BuildOp::And,
            BinOp::BitAnd => BuildOp::And,
            BinOp::Or => BuildOp::Or,
            BinOp::BitOr => BuildOp::Or,
            BinOp::Exp => BuildOp::Xor,
            BinOp::BitXor => BuildOp::Xor,
            BinOp::Shl => BuildOp::Shl,
            BinOp::Shr => BuildOp::Shr,
            BinOp::EqEq => BuildOp::IcmpEq,
            BinOp::NotEq => BuildOp::IcmpNe,
            BinOp::Lt => BuildOp::IcmpLt,
            BinOp::Le => BuildOp::IcmpLe,
            BinOp::Gt => BuildOp::IcmpGt,
            BinOp::Ge => BuildOp::IcmpGe,
        };
        self.emit(Instr::Binary { build, dest, lhs: left_val, rhs: right_val, hint });
        proof {
            assert(final(self).instrs@.drop_last() =~= old(self).instrs@);
        }
        Ok(dest)
    }

    /// Lowers a prefix operation on an already evaluated operand: one
    /// instruction, fresh value, the operator's builder call and hint.
    pub fn generate_unary_ir(&mut self, operator: UnOp, operand_val: usize) -> (r: Result<
        usize,
        ErrorType,
    >)
        ensures
            same_shape(*final(self), *old(self)),
            match r {
                Ok(v) => {
                    &&& v == old(self).next_value
                    &&& final(self).next_value == old(self).next_value + 1
                    &&& final(self).instrs@.len() == old(self).instrs@.len() + 1
                    &&& final(self).instrs@.drop_last() == old(self).instrs@
                    &&& final(self).instrs@.last().0 == old(self).cur_block
                    &&& (match final(self).instrs@.last().1 {
                        Instr::Unary { build, dest, operand, hint } => build == unary_build_of(
                            operator,
                        ) && dest == v && operand == operand_val && hint@ == unary_hint_of(
                            operator,
                        ),
                        _ => false,
                    })
                },
                Err(e) => *final(self) == *old(self) && old(self).next_value == usize::MAX && e@
                    == crate::error::ErrorV::DevError,
            },
    {
        let dest = match self.fresh_value() {
            Ok(v) => v,
            Err(e) => {
                return Err(e);
            },
        };
        let hint = unary_hint_chars(operator);
        let build = match operator {
            UnOp::Neg => UnaryBuild::Negation,
            UnOp::BitNot => UnaryBuild::BitwiseNot,
            UnOp::Not => UnaryBuild::LogicalNot,
        };
        self.emit(Instr::Unary { build, dest, operand: operand_val, hint });
        proof {
            assert(final(self).instrs@.drop_last() =~= old(self).instrs@);
        }
        Ok(dest)
    }

    /// Emits the unconditional branch a `break` stands for, to the break
    /// target of the innermost loop.
    pub fn generate_break_ir(&mut self, break_block: usize) -> (r: Result<usize, ErrorType>)
        ensures
            same_shape(*final(self), *old(self)),
            final(self).next_value == old(self).next_value,
            final(self).instrs@.len() == old(self).instrs@.len() + 1,
            r is Ok,
            r is Ok ==> final(self).instrs@ == old(self).instrs@.push(
                (old(self).cur_block, Instr::Br { target: break_block }),
            ),
            r matches Ok(v) ==> v == NO_VALUE,
    {
        self.emit(Instr::Br { target: break_block });
        Ok(NO_VALUE)
    }

    /// Emits the unconditional branch a `continue` stands for, to the
    /// continue target of the innermost loop.
    pub fn generate_continue_ir(&mut self, continue_block: usize) -> (r: Result<usize, ErrorType>)
        ensures
            same_shape(*final(self), *old(self)),
            final(self).next_value == old(self).next_value,
            final(self).instrs@.len() == old(self).instrs@.len() + 1,
            r is Ok,
            r is Ok ==> final(self).instrs@ == old(self).instrs@.push(
                (old(self).cur_block, Instr::Br { target: continue_block }),
            ),
            r matches Ok(v) ==> v == NO_VALUE,
    {
        self.emit(Instr::Br { target: continue_block });
        Ok(NO_VALUE)
    }

    /// Emits the return of an already evaluated value, or the void return
    /// when there is none.
    pub fn generate_return_ir(&mut self, value: Option<usize>) -> (r: Result<usize, ErrorType>)
        ensures
            same_shape(*final(self), *old(self)),
            final(self).next_value == old(self).next_value,
            final(self).instrs@.len() == old(self).instrs@.len() + 1,
            r is Ok,
            r is Ok ==> final(self).instrs@ == old(self).instrs@.push(
                (
                    old(self).cur_block,
                    match value {
                        Some(v) => Instr::Ret { value: v },
                        None => Instr::RetVoid,
                    },
                ),
            ),
            r matches Ok(v) ==> v == NO_VALUE,
    {
        match value {
            Some(v) => self.emit(Instr::Ret { value: v }),
            None => self.emit(Instr::RetVoid),
        }
        Ok(NO_VALUE)
    }

    /// Lowers a `let`: an allocation in the entry block of the function
    /// being emitted, a store of the evaluated initializer into the slot,
    /// and the binding's declaration — slot included — in the innermost
    /// scope. Fails only on an empty scope stack.
    pub fn generate_initialization_ir(
        &mut self,
        variable: &Vec<char>,
        data_type: &DataType,
        value_val: usize,
        stack: &mut SymbolTableStack,
    ) -> (r: Result<usize, ErrorType>)
        ensures
            same_shape(*final(self), *old(self)),
            match r {
                Ok(slot) => {
                    &&& slot == old(self).next_value
                    &&& final(self).next_value == old(self).next_value + 1
                    &&& final(self).instrs@ == old(self).instrs@.push(
                        (old(self).entry_block, Instr::Alloca { dest: slot }),
                    ).push((old(self).cur_block, Instr::Store { slot, value: value_val }))
                    &&& old(stack)@.len() > 0
                    &&& final(stack)@ == old(stack)@.update(
                        old(stack)@.len() - 1,
                        old(stack)@.last().insert(
                            variable@,
                            SymbolInfoV {
                                data_type: data_type@,
                                kind: SymbolKindV::Variable,
                                storage_slot: Some(slot),
                            },
                        ),
                    )
                },
                Err(e) => (old(stack)@.len() == 0 || old(self).next_value == usize::MAX)
                    && final(stack)@ == old(stack)@ && final(self).next_value == old(self).next_value
                    && final(self).instrs@ == old(self).instrs@ && e@
                    == crate::error::ErrorV::DevError,
            },
    {
        if stack.is_empty() {
            return Err(ErrorType::DevError {});
        }
        let slot = match self.fresh_value() {
            Ok(v) => v,
            Err(e) => {
                return Err(e);
            },
        };
        let here = self.cur_block;
        self.position_at_end(self.entry_block);
        self.emit(Instr::Alloca { dest: slot });
        self.position_at_end(here);
        self.emit(Instr::Store { slot, value: value_val });
        let info = SymbolInfo {
            data_type: clone_data_type(data_type),
            kind: SymbolKind::Variable,
            storage_slot: Some(slot),
        };
        match stack.insert_in_top(clone_chars(variable), info) {
            Ok(_) => Ok(slot),
            Err(e) => Err(e),
        }
    }

    /// Lowers an assignment: resolves the name and stores the evaluated
    /// value into its slot. An unresolvable name is exactly the
    /// undefined-symbol error; a binding that never got a slot is an
    /// internal error.
    pub fn generate_assignment_ir(
        &mut self,
        variable: &Vec<char>,
        value_val: usize,
        stack: &SymbolTableStack,
    ) -> (r: Result<usize, ErrorType>)
        ensures
            same_shape(*final(self), *old(self)),
            final(self).next_value == old(self).next_value,
            match r {
                Ok(v) => {
                    &&& v == NO_VALUE
                    &&& (match stack_lookup(stack@, variable@) {
                        Some(info) => info.storage_slot is Some && final(self).instrs@ == old(
                            self,
                        ).instrs@.push(
                            (
                                old(self).cur_block,
                                Instr::Store { slot: info.storage_slot->0, value: value_val },
                            ),
                        ),
                        None => false,
                    })
                },
                Err(e) => final(self).instrs@ == old(self).instrs@ && (match e@ {
                    crate::error::ErrorV::UndefinedSymbol { name } => name == variable@
                        && stack_lookup(stack@, variable@) is None,
                    crate::error::ErrorV::DevError => (match stack_lookup(stack@, variable@) {
                        Some(info) => info.storage_slot is None,
                        None => false,
                    }),
                    _ => false,
                }),
            },
    {
        match stack.lookup(variable) {
            None => Err(ErrorType::UndefinedSymbol { name: clone_chars(variable) }),
            Some(info) => {
                match info.storage_slot {
                    None => Err(ErrorType::DevError {}),
                    Some(slot) => {
                        self.emit(Instr::Store { slot, value: value_val });
                        Ok(NO_VALUE)
                    },
                }
            },
        }
    }

    /// Lowers a variable read: resolves the name and loads from its slot
    /// into a fresh value. An unresolvable name is the undefined-symbol
    /// error.
    pub fn generate_variable_ir(&mut self, variable: &Vec<char>, stack: &SymbolTableStack) -> (r:
        Result<usize, ErrorType>)
        ensures
            same_shape(*final(self), *old(self)),
            old(self).next_value <= final(self).next_value,
            old(self).instrs@.len() <= final(self).instrs@.len(),
            match r {
                Ok(v) => {
                    &&& v == old(self).next_value
                    &&& final(self).next_value == old(self).next_value + 1
                    &&& (match stack_lookup(stack@, variable@) {
                        Some(info) => info.storage_slot is Some && final(self).instrs@ == old(
                            self,
                        ).instrs@.push(
                            (
                                old(self).cur_block,
                                Instr::Load { dest: v, slot: info.storage_slot->0 },
                            ),
                        ),
                        None => false,
                    })
                },
                Err(e) => *final(self) == *old(self) && (match e@ {
                    crate::error::ErrorV::UndefinedSymbol { name } => name == variable@
                        && stack_lookup(stack@, variable@) is None,
                    crate::error::ErrorV::DevError => (match stack_lookup(stack@, variable@) {
                        Some(info) => info.storage_slot is None || old(self).next_value
                            == usize::MAX,
                        None => false,
                    }),
                    _ => false,
                }),
            },
    {
        match stack.lookup(variable) {
            None => Err(ErrorType::UndefinedSymbol { name: clone_chars(variable) }),
            Some(info) => {
                match info.storage_slot {
                    None => Err(ErrorType::DevError {}),
                    Some(slot) => {
                        let dest = match self.fresh_value() {
                            Ok(v) => v,
                            Err(e) => {
                                return Err(e);
                            },
                        };
                        self.emit(Instr::Load { dest, slot });
                        Ok(dest)
                    },
                }
            },
        }
    }

    /// Lowers a call whose arguments are already evaluated: resolves the
    /// callee, checks the argument count against the declared parameters,
    /// and emits one call instruction defining a fresh value.
    pub fn generate_fn_call_ir(
        &mut self,
        name: &Vec<char>,
        arguments: Vec<usize>,
        stack: &SymbolTableStack,
    ) -> (r: Result<usize, ErrorType>)
        ensures
            same_shape(*final(self), *old(self)),
            old(self).next_value <= final(self).next_value,
            old(self).instrs@.len() <= final(self).instrs@.len(),
            match r {
                Ok(v) => {
                    &&& v == old(self).next_value
                    &&& final(self).next_value == old(self).next_value + 1
                    &&& (match stack_lookup(stack@, name@) {
                        Some(info) => (info.kind matches SymbolKindV::Function { params, .. }
                            && params.len() == arguments@.len()),
                        None => false,
                    })
                    &&& final(self).instrs@.len() == old(self).instrs@.len() + 1
                    &&& final(self).instrs@.drop_last() == old(self).instrs@
                    &&& final(self).instrs@.last().0 == old(self).cur_block
                    &&& (match final(self).instrs@.last().1 {
                        Instr::Call { dest, callee, args } => dest == v && callee@ == name@
                            && args@ == arguments@,
                        _ => false,
                    })
                },
                Err(e) => *final(self) == *old(self) && (match e@ {
                    crate::error::ErrorV::UndefinedSymbol { name: n } => n == name@
                        && stack_lookup(stack@, name@) is None,
                    crate::error::ErrorV::DevError => (match stack_lookup(stack@, name@) {
                        Some(info) => !(info.kind matches SymbolKindV::Function { params, .. }
                            && params.len() == arguments@.len()) || old(self).next_value
                            == usize::MAX,
                        None => false,
                    }),
                    _ => false,
                }),
            },
    {
        let arity_ok = match stack.lookup(name) {
            None => {
                return Err(ErrorType::UndefinedSymbol { name: clone_chars(name) });
            },
            Some(info) => {
                match &info.kind {
                    SymbolKind::Function { params, .. } => params.len() == arguments.len(),
                    _ => false,
                }
            },
        };
        if !arity_ok {
            return Err(ErrorType::DevError {});
        }
        let dest = match self.fresh_value() {
            Ok(v) => v,
            Err(e) => {
                return Err(e);
            },
        };
        self.emit(Instr::Call { dest, callee: clone_chars(name), args: arguments });
        proof {
            assert(final(self).instrs@.drop_last() =~= old(self).instrs@);
        }
        Ok(dest)
    }
}


impl IRGenerator {
    /// A log extended by one entry is the log plus that entry's view.
    proof fn lemma_log_push(s: Seq<(usize, Instr)>, p: (usize, Instr))
        ensures
            log_view(s.push(p)) == log_view(s) + seq![(p.0 as int, p.1@)],
    {
        assert(log_view(s.push(p)) =~= log_view(s) + seq![(p.0 as int, p.1@)]);
    }

    /// Dispatches one expression to its emitter, evaluating subexpressions
    /// left to right, and hands back the value the expression denotes.
    /// Whenever the value counter has room for the expression, the emitted
    /// instructions, the result and the error are exactly `lower_expr`'s.
    #[verifier::loop_isolation(false)]
    #[verifier::rlimit(100)]
    pub fn ir_router(&mut self, node: &Expr, stack: &SymbolTableStack) -> (r: Result<
        usize,
        ErrorType,
    >)
        ensures
            final(self).functions@ == old(self).functions@,
            final(self).entry_block == old(self).entry_block,
            final(self).cur_block == old(self).cur_block,
            final(self).loop_stack@ == old(self).loop_stack@,
            old(self).instrs@.len() <= final(self).instrs@.len(),
            final(self).blocks == old(self).blocks,
            old(self).next_value <= final(self).next_value,
            final(self).next_value <= old(self).next_value + expr_size(*node),
            r is Ok ==> final(self).instrs@.len() > old(self).instrs@.len(),
            r matches Err(e) ==> gen_error(e@),
            old(self).next_value + expr_size(*node) <= usize::MAX ==> (match lower_expr(
                *node,
                stack@,
                old(self).cur_block as int,
                old(self).next_value as int,
            ) {
                Lowered::Code(code, value, next) => (match r {
                    Ok(v) => v as int == value && final(self).next_value as int == next
                        && log_view(final(self).instrs@) == log_view(old(self).instrs@) + code,
                    Err(_) => false,
                }),
                Lowered::Undefined(nm) => (match r {
                    Ok(_) => false,
                    Err(e) => e@ == (crate::error::ErrorV::UndefinedSymbol { name: nm }),
                }),
                Lowered::Internal => (match r {
                    Ok(_) => false,
                    Err(e) => e@ == crate::error::ErrorV::DevError,
                }),
            }),
        decreases *node,
    {
        let ghost base = log_view(old(self).instrs@);
        match node {
            Expr::IntLit(d) => {
                let dest = match self.fresh_value() {
                    Ok(v) => v,
                    Err(e) => {
                        return Err(e);
                    },
                };
                let ghost pre = self.instrs@;
                self.emit(Instr::ConstInt { dest, digits: clone_chars(d) });
                proof {
                    Self::lemma_log_push(pre, self.instrs@.last());
                }
                Ok(dest)
            },
            Expr::FloatLit(d) => {
                let dest = match self.fresh_value() {
                    Ok(v) => v,
                    Err(e) => {
                        return Err(e);
                    },
                };
                let ghost pre = self.instrs@;
                self.emit(Instr::ConstFloat { dest, digits: clone_chars(d) });
                proof {
                    Self::lemma_log_push(pre, self.instrs@.last());
                }
                Ok(dest)
            },
            Expr::BoolLit(b) => {
                let dest = match self.fresh_value() {
                    Ok(v) => v,
                    Err(e) => {
                        return Err(e);
                    },
                };
                let ghost pre = self.instrs@;
                self.emit(Instr::ConstBool { dest, value: *b });
                proof {
                    Self::lemma_log_push(pre, self.instrs@.last());
                }
                Ok(dest)
            },
            Expr::StringLit(cs) => {
                let dest = match self.fresh_value() {
                    Ok(v) => v,
                    Err(e) => {
                        return Err(e);
                    },
                };
                let ghost pre = self.instrs@;
                self.emit(Instr::ConstString { dest, chars: clone_chars(cs) });
                proof {
                    Self::lemma_log_push(pre, self.instrs@.last());
                }
                Ok(dest)
            },
            Expr::CharLit(c) => {
                let dest = match self.fresh_value() {
                    Ok(v) => v,
                    Err(e) => {
                        return Err(e);
                    },
                };
                let ghost pre = self.instrs@;
                self.emit(Instr::ConstChar { dest, value: *c });
                proof {
                    Self::lemma_log_push(pre, self.instrs@.last());
                }
                Ok(dest)
            },
            Expr::Variable(name) => {
                let ghost pre = self.instrs@;
                let r = self.generate_variable_ir(name, stack);
                proof {
                    if r is Ok {
                        Self::lemma_log_push(pre, self.instrs@.last());
                    }
                }
                r
            },
            Expr::Binary { op, left, right } => {
                let left_val = match self.ir_router(left, stack) {
                    Ok(v) => v,
                    Err(e) => {
                        return Err(e);
                    },
                };
                let right_val = match self.ir_router(right, stack) {
                    Ok(v) => v,
                    Err(e) => {
                        return Err(e);
                    },
                };
                let ghost pre = self.instrs@;
                let r = self.generate_binary_exp_ir(*op, left_val, right_val);
                proof {
                    if r is Ok {
                        Self::lemma_log_push(pre, self.instrs@.last());
                        let sl = lower_expr(
                            **left,
                            stack@,
                            old(self).cur_block as int,
                            old(self).next_value as int,
                        );
                        let sr = lower_expr(
                            **right,
                            stack@,
                            old(self).cur_block as int,
                            sl->Code_2,
                        );
                        assert(base + sl->Code_0 + sr->Code_0 + seq![
                            (self.instrs@.last().0 as int, self.instrs@.last().1@),
                        ] =~= base + (sl->Code_0 + sr->Code_0 + seq![
                            (self.instrs@.last().0 as int, self.instrs@.last().1@),
                        ]));
                    }
                }
                r
            },
            Expr::Unary { op, operand } => {
                let operand_val = match self.ir_router(operand, stack) {
                    Ok(v) => v,
                    Err(e) => {
                        return Err(e);
                    },
                };
                let ghost pre = self.instrs@;
                let r = self.generate_unary_ir(*op, operand_val);
                proof {
                    if r is Ok {
                        Self::lemma_log_push(pre, self.instrs@.last());
                        let so = lower_expr(
                            **operand,
                            stack@,
                            old(self).cur_block as int,
                            old(self).next_value as int,
                        );
                        assert(base + so->Code_0 + seq![
                            (self.instrs@.last().0 as int, self.instrs@.last().1@),
                        ] =~= base + (so->Code_0 + seq![
                            (self.instrs@.last().0 as int, self.instrs@.last().1@),
                        ]));
                    }
                }
                r
            },
            Expr::Call { name, args } => {
                let ghost block = old(self).cur_block as int;
                let ghost n0 = old(self).next_value as int;
                let ghost whole = lower_args(args@, stack@, block, n0);
                let mut vals: Vec<usize> = Vec::new();
                let mut i: usize = 0;
                proof {
                    assert(args@.skip(0) =~= args@);
                    assert(args@.take(0) =~= Seq::<Expr>::empty());
                    assert(log_view(self.instrs@).skip(base.len() as int) =~= Seq::<(
                        int,
                        InstrV,
                    )>::empty());
                    if whole is Code {
                        assert(log_view(self.instrs@).skip(base.len() as int) + whole->Code_0
                            =~= whole->Code_0);
                        assert(vals@.map_values(|u: usize| u as int) + whole->Code_1
                            =~= whole->Code_1);
                    }
                }
                while i < args.len()
                    invariant
                        i <= args@.len(),
                        vals@.len() == i,
                        self.functions@ == old(self).functions@,
                        self.entry_block == old(self).entry_block,
                        self.cur_block == old(self).cur_block,
                        self.loop_stack@ == old(self).loop_stack@,
                        self.blocks == old(self).blocks,
                        old(self).instrs@.len() <= self.instrs@.len(),
                        old(self).next_value <= self.next_value,
                        self.next_value <= old(self).next_value + exprs_size(
                            args@.take(i as int),
                        ),
                        old(self).next_value + expr_size(*node) <= usize::MAX ==> base
                            == log_view(self.instrs@).take(base.len() as int),
                        old(self).next_value + expr_size(*node) <= usize::MAX ==> (match lower_args(
                            args@.skip(i as int),
                            stack@,
                            block,
                            self.next_value as int,
                        ) {
                            LoweredArgs::Code(cr, vr, nr) => whole == LoweredArgs::Code(
                                log_view(self.instrs@).skip(base.len() as int) + cr,
                                vals@.map_values(|u: usize| u as int) + vr,
                                nr,
                            ),
                            LoweredArgs::Undefined(nm) => whole == LoweredArgs::Undefined(nm),
                            LoweredArgs::Internal => whole == LoweredArgs::Internal,
                        }),
                    decreases args@.len() - i,
                {
                    proof {
                        assert(args@.skip(i as int)[0] == args@[i as int]);
                        assert(args@.skip(i as int).drop_first() =~= args@.skip(i + 1 as int));
                        lemma_exprs_size_take(args@, i as int);
                        lemma_exprs_size_take_le(args@, i + 1 as int);
                    }
                    let ghost pre_log = log_view(self.instrs@);
                    let ghost pre_vals = vals@;
                    let ghost pre_next = self.next_value as int;
                    let v = match self.ir_router(&args[i], stack) {
                        Ok(v) => v,
                        Err(e) => {
                            return Err(e);
                        },
                    };
                    vals.push(v);
                    i = i + 1;
                    proof {
                        if old(self).next_value + expr_size(*node) <= usize::MAX {
                            let se = lower_expr(args@[i - 1], stack@, block, pre_next);
                            assert(log_view(self.instrs@) == pre_log + se->Code_0);
                            assert(base =~= log_view(self.instrs@).take(base.len() as int));
                            assert(log_view(self.instrs@).skip(base.len() as int) =~= pre_log.skip(
                                base.len() as int,
                            ) + se->Code_0);
                            assert(vals@.map_values(|u: usize| u as int) =~= pre_vals.map_values(
                                |u: usize| u as int,
                            ).push(se->Code_1));
                            let rest = lower_args(
                                args@.skip(i as int),
                                stack@,
                                block,
                                self.next_value as int,
                            );
                            if rest is Code {
                                assert((pre_log.skip(base.len() as int) + se->Code_0)
                                    + rest->Code_0 =~= pre_log.skip(base.len() as int) + (se->Code_0
                                    + rest->Code_0));
                                assert(pre_vals.map_values(|u: usize| u as int).push(se->Code_1)
                                    + rest->Code_1 =~= pre_vals.map_values(|u: usize| u as int) + (
                                seq![se->Code_1] + rest->Code_1));
                            }
                        }
                    }
                }
                proof {
                    assert(args@.skip(args@.len() as int).len() == 0);
                    assert(args@.take(args@.len() as int) =~= args@);
                }
                let ghost pre = self.instrs@;
                let r = self.generate_fn_call_ir(name, vals, stack);
                proof {
                    if r is Ok {
                        Self::lemma_log_push(pre, self.instrs@.last());
                        if old(self).next_value + expr_size(*node) <= usize::MAX {
                            assert((log_view(pre).skip(base.len() as int)) + seq![
                                (self.instrs@.last().0 as int, self.instrs@.last().1@),
                            ] =~= log_view(self.instrs@).skip(base.len() as int));
                            assert(base + log_view(self.instrs@).skip(base.len() as int)
                                =~= log_view(self.instrs@));
                        }
                    }
                }
                r
            },
        }
    }

    /// Lowers a `match` on an already evaluated scrutinee: a chain of
    /// equality compares, one conditional branch per arm into the arm's
    /// block, a shared merge block, and a phi joining the arm results
    /// there. A guard, when present, is conjoined with the arm's compare.
    #[verifier::loop_isolation(false)]
    pub fn generate_match_ir(
        &mut self,
        to_match: usize,
        arms: &Vec<MatchArm>,
        stack: &SymbolTableStack,
    ) -> (r: Result<usize, ErrorType>)
        ensures
            final(self).functions@ == old(self).functions@,
            final(self).entry_block == old(self).entry_block,
            final(self).loop_stack@ == old(self).loop_stack@,
            old(self).instrs@.len() <= final(self).instrs@.len(),
            old(self).blocks <= final(self).blocks,
            old(self).next_value <= final(self).next_value,
            r matches Err(e) ==> gen_error(e@),
            r is Ok ==> final(self).instrs@.len() > old(self).instrs@.len(),
            r matches Ok(v) ==> final(self).blocks > old(self).blocks && (if arms@.len() == 0 {
                v == NO_VALUE
            } else {
                (match final(self).instrs@.last().1 {
                    Instr::Phi { dest, incoming } => dest == v && incoming@.len() == arms@.len(),
                    _ => false,
                })
            }),
        decreases *arms,
    {
        let merge_bb = self.create_basic_block()?;
        let mut incoming: Vec<(usize, usize)> = Vec::new();
        let mut i: usize = 0;
        while i < arms.len()
            invariant
                i <= arms@.len(),
                incoming@.len() == i,
                old(self).blocks < self.blocks,
                self.functions@ == old(self).functions@,
                self.entry_block == old(self).entry_block,
                self.loop_stack@ == old(self).loop_stack@,
                old(self).instrs@.len() <= self.instrs@.len(),
                old(self).blocks <= self.blocks,
                old(self).next_value <= self.next_value,
            decreases arms@.len() - i,
        {
            let pat_val = self.ir_router(&arms[i].pattern, stack)?;
            let cmp = self.generate_binary_exp_ir(BinOp::EqEq, to_match, pat_val)?;
            let cond = match &arms[i].guard {
                Some(g) => {
                    let guard_val = self.ir_router(g, stack)?;
                    self.generate_binary_exp_ir(BinOp::And, cmp, guard_val)?
                },
                None => cmp,
            };
            let arm_bb = self.create_basic_block()?;
            let next_bb = self.create_basic_block()?;
            self.emit(Instr::CondBr { cond, then_target: arm_bb, else_target: next_bb });
            self.position_at_end(arm_bb);
            let body_val = self.ir_router(&arms[i].body, stack)?;
            self.emit(Instr::Br { target: merge_bb });
            incoming.push((arm_bb, body_val));
            self.position_at_end(next_bb);
            i = i + 1;
        }
        self.emit(Instr::Br { target: merge_bb });
        self.position_at_end(merge_bb);
        if incoming.len() > 0 {
            let dest = match self.fresh_value() {
                Ok(v) => v,
                Err(e) => {
                    return Err(e);
                },
            };
            self.emit(Instr::Phi { dest, incoming });
            Ok(dest)
        } else {
            Ok(NO_VALUE)
        }
    }

    /// Dispatches one statement to its emitter. Statements that produce no
    /// value yield the sentinel. The scope stack comes back as deep as it
    /// went in, and the loop-target stack as it was.
    #[verifier::loop_isolation(false)]
    pub fn generate_stmt_ir(&mut self, s: &Stmt, stack: &mut SymbolTableStack) -> (r: Result<
        usize,
        ErrorType,
    >)
        ensures
            final(self).functions@ == old(self).functions@,
            final(self).entry_block == old(self).entry_block,
            final(self).loop_stack@ == old(self).loop_stack@,
            old(self).instrs@.len() <= final(self).instrs@.len(),
            old(self).blocks <= final(self).blocks,
            old(self).next_value <= final(self).next_value,
            final(stack)@.len() == old(stack)@.len(),
            r is Ok ==> final(self).instrs@.len() > old(self).instrs@.len(),
            r matches Err(e) ==> gen_error(e@),
            (match *s {
                Stmt::Let(b) => old(self).next_value + expr_size(b.initializer) + 1 <= usize::MAX
                    ==> (match lower_expr(
                    b.initializer,
                    old(stack)@,
                    old(self).cur_block as int,
                    old(self).next_value as int,
                ) {
                    Lowered::Code(code, v, next) => (match r {
                        Ok(slot) => old(stack)@.len() > 0 && slot as int == next && log_view(
                            final(self).instrs@,
                        ) == log_view(old(self).instrs@) + code + seq![
                            (old(self).entry_block as int, InstrV::Alloca { dest: next }),
                            (old(self).cur_block as int, InstrV::Store { slot: next, value: v }),
                        ] && final(stack)@ == old(stack)@.update(
                            old(stack)@.len() - 1,
                            old(stack)@.last().insert(
                                b.name@,
                                SymbolInfoV {
                                    data_type: let_decl_type(b),
                                    kind: SymbolKindV::Variable,
                                    storage_slot: Some(slot),
                                },
                            ),
                        ),
                        Err(e2) => e2@ == crate::error::ErrorV::DevError && old(stack)@.len()
                            == 0,
                    }),
                    Lowered::Undefined(nm) => (match r {
                        Ok(_) => false,
                        Err(e2) => e2@ == (crate::error::ErrorV::UndefinedSymbol { name: nm }),
                    }),
                    Lowered::Internal => (match r {
                        Ok(_) => false,
                        Err(e2) => e2@ == crate::error::ErrorV::DevError,
                    }),
                }),
                Stmt::Return { value: Some(e) } => old(self).next_value + expr_size(e)
                    <= usize::MAX ==> (match lower_expr(
                    e,
                    old(stack)@,
                    old(self).cur_block as int,
                    old(self).next_value as int,
                ) {
                    Lowered::Code(code, v, next) => (match r {
                        Ok(res) => res == NO_VALUE && log_view(final(self).instrs@) == log_view(
                            old(self).instrs@,
                        ) + code + seq![(old(self).cur_block as int, InstrV::Ret { value: v })],
                        Err(_) => false,
                    }),
                    Lowered::Undefined(nm) => (match r {
                        Ok(_) => false,
                        Err(e2) => e2@ == (crate::error::ErrorV::UndefinedSymbol { name: nm }),
                    }),
                    Lowered::Internal => (match r {
                        Ok(_) => false,
                        Err(e2) => e2@ == crate::error::ErrorV::DevError,
                    }),
                }),
                Stmt::ExprStmt(e) => old(self).next_value + expr_size(e) <= usize::MAX ==> (
                match lower_expr(
                    e,
                    old(stack)@,
                    old(self).cur_block as int,
                    old(self).next_value as int,
                ) {
                    Lowered::Code(code, v, next) => (match r {
                        Ok(res) => res == NO_VALUE && log_view(final(self).instrs@) == log_view(
                            old(self).instrs@,
                        ) + code && final(self).next_value as int == next,
                        Err(_) => false,
                    }),
                    Lowered::Undefined(nm) => (match r {
                        Ok(_) => false,
                        Err(e2) => e2@ == (crate::error::ErrorV::UndefinedSymbol { name: nm }),
                    }),
                    Lowered::Internal => (match r {
                        Ok(_) => false,
                        Err(e2) => e2@ == crate::error::ErrorV::DevError,
                    }),
                }),
                Stmt::Assignment { name, value } => old(self).next_value + expr_size(value)
                    <= usize::MAX ==> (match lower_expr(
                    value,
                    old(stack)@,
                    old(self).cur_block as int,
                    old(self).next_value as int,
                ) {
                    Lowered::Code(code, v, next) => (match stack_lookup(old(stack)@, name@) {
                        Some(info) => (match info.storage_slot {
                            Some(slot) => (match r {
                                Ok(res) => res == NO_VALUE && log_view(final(self).instrs@)
                                    == log_view(old(self).instrs@) + code + seq![
                                    (
                                        old(self).cur_block as int,
                                        InstrV::Store { slot: slot as int, value: v },
                                    ),
                                ],
                                Err(_) => false,
                            }),
                            None => (match r {
                                Ok(_) => false,
                                Err(e2) => e2@ == crate::error::ErrorV::DevError,
                            }),
                        }),
                        None => (match r {
                            Ok(_) => false,
                            Err(e2) => e2@ == (crate::error::ErrorV::UndefinedSymbol {
                                name: name@,
                            }),
                        }),
                    }),
                    Lowered::Undefined(nm) => (match r {
                        Ok(_) => false,
                        Err(e2) => e2@ == (crate::error::ErrorV::UndefinedSymbol { name: nm }),
                    }),
                    Lowered::Internal => (match r {
                        Ok(_) => false,
                        Err(e2) => e2@ == crate::error::ErrorV::DevError,
                    }),
                }),
                Stmt::Return { value: None } => (match r {
                    Ok(res) => res == NO_VALUE && final(self).instrs@ == old(self).instrs@.push(
                        (old(self).cur_block, Instr::RetVoid),
                    ),
                    Err(_) => false,
                }),
                Stmt::Break => (match r {
                    Ok(res) => res == NO_VALUE && old(self).loop_stack@.len() > 0
                        && final(self).instrs@ == old(self).instrs@.push(
                        (
                            old(self).cur_block,
                            Instr::Br { target: old(self).loop_stack@.last().0 },
                        ),
                    ),
                    Err(e2) => old(self).loop_stack@.len() == 0 && *final(self) == *old(self)
                        && e2@ == crate::error::ErrorV::DevError,
                }),
                Stmt::Continue => (match r {
                    Ok(res) => res == NO_VALUE && old(self).loop_stack@.len() > 0
                        && final(self).instrs@ == old(self).instrs@.push(
                        (
                            old(self).cur_block,
                            Instr::Br { target: old(self).loop_stack@.last().1 },
                        ),
                    ),
                    Err(e2) => old(self).loop_stack@.len() == 0 && *final(self) == *old(self)
                        && e2@ == crate::error::ErrorV::DevError,
                }),
                Stmt::If { else_block, .. } => r matches Ok(res) ==> res == NO_VALUE
                    && final(self).blocks >= old(self).blocks + (if else_block is Some {
                    3int
                } else {
                    2int
                }),
                Stmt::While { .. } => r matches Ok(res) ==> res == NO_VALUE && final(self).blocks
                    >= old(self).blocks + 3,
                Stmt::DoWhile { .. } => r matches Ok(res) ==> res == NO_VALUE
                    && final(self).blocks >= old(self).blocks + 3,
                Stmt::For { .. } => r matches Ok(res) ==> res == NO_VALUE && final(self).blocks
                    >= old(self).blocks + 4,
                _ => true,
            }),
        decreases *s,
    {
        match s {
            Stmt::Let(b) => {
                let ghost base = log_view(self.instrs@);
                let value_val = match self.ir_router(&b.initializer, stack) {
                    Ok(v) => v,
                    Err(e2) => {
                        return Err(e2);
                    },
                };
                let dt = match &b.data_type {
                    Some(d) => clone_data_type(d),
                    None => infer_literal_type(&b.initializer),
                };
                let ghost pre = self.instrs@;
                let r = self.generate_initialization_ir(&b.name, &dt, value_val, stack);
                proof {
                    if r is Ok {
                        let a = self.instrs@[pre.len() as int];
                        let z = self.instrs@.last();
                        assert(self.instrs@ == pre.push(a).push(z));
                        Self::lemma_log_push(pre, a);
                        Self::lemma_log_push(pre.push(a), z);
                        let sv = lower_expr(
                            b.initializer,
                            old(stack)@,
                            old(self).cur_block as int,
                            old(self).next_value as int,
                        );
                        if sv is Code {
                            assert(base + sv->Code_0 + seq![(a.0 as int, a.1@)] + seq![
                                (z.0 as int, z.1@),
                            ] =~= base + (sv->Code_0 + seq![
                                (a.0 as int, a.1@),
                                (z.0 as int, z.1@),
                            ]));
                        }
                    }
                }
                r
            },
            Stmt::Assignment { name, value } => {
                let ghost base = log_view(self.instrs@);
                let value_val = match self.ir_router(value, stack) {
                    Ok(v) => v,
                    Err(e2) => {
                        return Err(e2);
                    },
                };
                let ghost pre = self.instrs@;
                let r = self.generate_assignment_ir(name, value_val, stack);
                proof {
                    if r is Ok {
                        Self::lemma_log_push(pre, self.instrs@.last());
                        let sv = lower_expr(
                            *value,
                            old(stack)@,
                            old(self).cur_block as int,
                            old(self).next_value as int,
                        );
                        if sv is Code {
                            assert(base + sv->Code_0 + seq![
                                (self.instrs@.last().0 as int, self.instrs@.last().1@),
                            ] =~= base + (sv->Code_0 + seq![
                                (self.instrs@.last().0 as int, self.instrs@.last().1@),
                            ]));
                        }
                    }
                }
                r
            },
            Stmt::ExprStmt(e) => {
                let _ = match self.ir_router(e, stack) {
                    Ok(v) => v,
                    Err(e2) => {
                        return Err(e2);
                    },
                };
                Ok(NO_VALUE)
            },
            Stmt::Return { value } => {
                match value {
                    Some(e) => {
                        let ghost base = log_view(self.instrs@);
                        let v = match self.ir_router(e, stack) {
                            Ok(v) => v,
                            Err(e2) => {
                                return Err(e2);
                            },
                        };
                        let ghost pre = self.instrs@;
                        let r = self.generate_return_ir(Some(v));
                        proof {
                            Self::lemma_log_push(pre, self.instrs@.last());
                            let se = lower_expr(
                                *e,
                                old(stack)@,
                                old(self).cur_block as int,
                                old(self).next_value as int,
                            );
                            if se is Code {
                                assert(base + se->Code_0 + seq![
                                    (old(self).cur_block as int, InstrV::Ret { value: se->Code_1 }),
                                ] =~= base + (se->Code_0 + seq![
                                    (old(self).cur_block as int, InstrV::Ret { value: se->Code_1 }),
                                ]));
                            }
                        }
                        r
                    },
                    None => self.generate_return_ir(None),
                }
            },
            Stmt::Break => {
                let target = match self.loop_stack.last() {
                    Some(t) => t.0,
                    None => {
                        return Err(ErrorType::DevError {});
                    },
                };
                self.generate_break_ir(target)
            },
            Stmt::Continue => {
                let target = match self.loop_stack.last() {
                    Some(t) => t.1,
                    None => {
                        return Err(ErrorType::DevError {});
                    },
                };
                self.generate_continue_ir(target)
            },
            Stmt::If { cond, then_block, else_block } => {
                let cond_val = self.ir_router(cond, stack)?;
                let then_bb = self.create_basic_block()?;
                match else_block {
                    Some(eb) => {
                        let else_bb = self.create_basic_block()?;
                        let merge_bb = self.create_basic_block()?;
                        self.emit(
                            Instr::CondBr {
                                cond: cond_val,
                                then_target: then_bb,
                                else_target: else_bb,
                            },
                        );
                        self.position_at_end(then_bb);
                        let _ = self.generate_block_ir(then_block, stack)?;
                        self.emit(Instr::Br { target: merge_bb });
                        self.position_at_end(else_bb);
                        let _ = self.generate_block_ir(eb, stack)?;
                        self.emit(Instr::Br { target: merge_bb });
                        self.position_at_end(merge_bb);
                        Ok(NO_VALUE)
                    },
                    None => {
                        let merge_bb = self.create_basic_block()?;
                        self.emit(
                            Instr::CondBr {
                                cond: cond_val,
                                then_target: then_bb,
                                else_target: merge_bb,
                            },
                        );
                        self.position_at_end(then_bb);
                        let _ = self.generate_block_ir(then_block, stack)?;
                        self.emit(Instr::Br { target: merge_bb });
                        self.position_at_end(merge_bb);
                        Ok(NO_VALUE)
                    },
                }
            },
            Stmt::While { cond, body } => {
                let header_bb = self.create_basic_block()?;
                let body_bb = self.create_basic_block()?;
                let exit_bb = self.create_basic_block()?;
                self.emit(Instr::Br { target: header_bb });
                self.position_at_end(header_bb);
                let cond_val = self.ir_router(cond, stack)?;
                self.emit(
                    Instr::CondBr { cond: cond_val, then_target: body_bb, else_target: exit_bb },
                );
                self.loop_stack.push((exit_bb, header_bb));
                self.position_at_end(body_bb);
                match self.generate_block_ir(body, stack) {
                    Ok(_) => {},
                    Err(e) => {
                        self.loop_stack.pop();
                        return Err(e);
                    },
                }
                self.emit(Instr::Br { target: header_bb });
                self.loop_stack.pop();
                self.position_at_end(exit_bb);
                Ok(NO_VALUE)
            },
            Stmt::For { init, cond, step, body } => {
                let _ = self.generate_stmt_ir(init, stack)?;
                let header_bb = self.create_basic_block()?;
                let body_bb = self.create_basic_block()?;
                let step_bb = self.create_basic_block()?;
                let exit_bb = self.create_basic_block()?;
                self.emit(Instr::Br { target: header_bb });
                self.position_at_end(header_bb);
                let cond_val = self.ir_router(cond, stack)?;
                self.emit(
                    Instr::CondBr { cond: cond_val, then_target: body_bb, else_target: exit_bb },
                );
                self.loop_stack.push((exit_bb, step_bb));
                self.position_at_end(body_bb);
                match self.generate_block_ir(body, stack) {
                    Ok(_) => {},
                    Err(e) => {
                        self.loop_stack.pop();
                        return Err(e);
                    },
                }
                self.emit(Instr::Br { target: step_bb });
                self.loop_stack.pop();
                self.position_at_end(step_bb);
                let _ = self.generate_stmt_ir(step, stack)?;
                self.emit(Instr::Br { target: header_bb });
                self.position_at_end(exit_bb);
                Ok(NO_VALUE)
            },
            Stmt::DoWhile { body, cond } => {
                let body_bb = self.create_basic_block()?;
                let header_bb = self.create_basic_block()?;
                let exit_bb = self.create_basic_block()?;
                self.emit(Instr::Br { target: body_bb });
                self.loop_stack.push((exit_bb, header_bb));
                self.position_at_end(body_bb);
                match self.generate_block_ir(body, stack) {
                    Ok(_) => {},
                    Err(e) => {
                        self.loop_stack.pop();
                        return Err(e);
                    },
                }
                self.emit(Instr::Br { target: header_bb });
                self.loop_stack.pop();
                self.position_at_end(header_bb);
                let cond_val = self.ir_router(cond, stack)?;
                self.emit(
                    Instr::CondBr { cond: cond_val, then_target: body_bb, else_target: exit_bb },
                );
                self.position_at_end(exit_bb);
                Ok(NO_VALUE)
            },
            Stmt::Match { scrutinee, arms } => {
                let scrut_val = self.ir_router(scrutinee, stack)?;
                self.generate_match_ir(scrut_val, arms, stack)
            },
        }
    }

    /// Lowers a block: opens a scope, emits its statements in order, and
    /// closes the scope on every way out. The first failing statement
    /// aborts the block.
    #[verifier::loop_isolation(false)]
    pub fn generate_block_ir(&mut self, b: &Block, stack: &mut SymbolTableStack) -> (r: Result<
        usize,
        ErrorType,
    >)
        ensures
            final(self).functions@ == old(self).functions@,
            final(self).entry_block == old(self).entry_block,
            final(self).loop_stack@ == old(self).loop_stack@,
            old(self).instrs@.len() <= final(self).instrs@.len(),
            old(self).blocks <= final(self).blocks,
            old(self).next_value <= final(self).next_value,
            final(stack)@.len() == old(stack)@.len(),
            r matches Err(e) ==> gen_error(e@),
            r matches Ok(v) ==> v == NO_VALUE && final(self).instrs@.len() >= old(
                self,
            ).instrs@.len() + b.statements@.len(),
        decreases *b,
    {
        stack.push(SymbolTable::new());
        let mut i: usize = 0;
        while i < b.statements.len()
            invariant
                i <= b.statements@.len(),
                stack@.len() == old(stack)@.len() + 1,
                self.instrs@.len() >= old(self).instrs@.len() + i,
                self.functions@ == old(self).functions@,
                self.entry_block == old(self).entry_block,
                self.loop_stack@ == old(self).loop_stack@,
                old(self).instrs@.len() <= self.instrs@.len(),
                old(self).blocks <= self.blocks,
                old(self).next_value <= self.next_value,
            decreases b.statements@.len() - i,
        {
            match self.generate_stmt_ir(&b.statements[i], stack) {
                Ok(_) => {},
                Err(e) => {
                    stack.pop();
                    return Err(e);
                },
            }
            i = i + 1;
        }
        stack.pop();
        Ok(NO_VALUE)
    }

    /// Lowers one function: records it, creates its entry block, opens the
    /// parameter scope, gives each parameter a value, a slot and a store,
    /// and emits the body. The parameter scope closes on every way out.
    #[verifier::loop_isolation(false)]
    pub fn generate_function_ir(&mut self, f: &FunctionDecl, stack: &mut SymbolTableStack) -> (r:
        Result<usize, ErrorType>)
        ensures
            final(self).loop_stack@ == old(self).loop_stack@,
            old(self).instrs@.len() <= final(self).instrs@.len(),
            old(self).blocks <= final(self).blocks,
            final(stack)@.len() == old(stack)@.len(),
            r matches Err(e) ==> gen_error(e@),
            r is Ok ==> final(self).functions@.len() == old(self).functions@.len() + 1
                && final(self).functions@.last().name@ == f.name@
                && final(self).functions@.last().n_params == f.params@.len()
                && final(self).functions@.last().entry == old(self).blocks && old(self).blocks
                < final(self).blocks,
        decreases *f,
    {
        let entry = self.create_basic_block()?;
        self.functions.push(
            IRFunction { name: clone_chars(&f.name), n_params: f.params.len(), entry },
        );
        let saved_entry = self.entry_block;
        self.entry_block = entry;
        self.position_at_end(entry);
        stack.push(SymbolTable::new());
        let mut i: usize = 0;
        while i < f.params.len()
            invariant
                i <= f.params@.len(),
                stack@.len() == old(stack)@.len() + 1,
                self.entry_block == entry,
                entry == old(self).blocks,
                self.loop_stack@ == old(self).loop_stack@,
                old(self).instrs@.len() <= self.instrs@.len(),
                old(self).blocks < self.blocks,
                self.functions@.len() == old(self).functions@.len() + 1,
                self.functions@.last().name@ == f.name@,
                self.functions@.last().n_params == f.params@.len(),
                self.functions@.last().entry == entry,
            decreases f.params@.len() - i,
        {
            let arg_val = match self.fresh_value() {
                Ok(v) => v,
                Err(e) => {
                    stack.pop();
                    self.entry_block = saved_entry;
                    return Err(e);
                },
            };
            self.emit(Instr::Param { dest: arg_val, index: i });
            match self.generate_initialization_ir(
                &f.params[i].name,
                &f.params[i].data_type,
                arg_val,
                stack,
            ) {
                Ok(_) => {},
                Err(e) => {
                    stack.pop();
                    self.entry_block = saved_entry;
                    return Err(e);
                },
            }
            i = i + 1;
        }
        match self.generate_block_ir(&f.body, stack) {
            Ok(_) => {},
            Err(e) => {
                stack.pop();
                self.entry_block = saved_entry;
                return Err(e);
            },
        }
        stack.pop();
        self.entry_block = saved_entry;
        Ok(NO_VALUE)
    }

    /// The entry point: walks the program's top-level items left to right
    /// in one global scope, declaring each function before its body and
    /// each top-level binding at its point of declaration, and emits the
    /// whole module. On success every function item was recorded.
    #[verifier::loop_isolation(false)]
    pub fn generate(&mut self, program: &Program) -> (r: Result<(), ErrorType>)
        ensures
            old(self).instrs@.len() <= final(self).instrs@.len(),
            old(self).blocks <= final(self).blocks,
            r matches Err(e) ==> gen_error(e@),
            r is Ok ==> final(self).functions@.len() == old(self).functions@.len() + fn_count(
                program.items@,
            ),
    {
        let mut stack = SymbolTableStack::new();
        stack.push(SymbolTable::new());
        let module_block = self.cur_block;
        let mut i: usize = 0;
        proof {
            assert(program.items@.take(0) =~= Seq::<Item>::empty());
        }
        while i < program.items.len()
            invariant
                i <= program.items@.len(),
                stack@.len() == 1,
                old(self).instrs@.len() <= self.instrs@.len(),
                old(self).blocks <= self.blocks,
                self.functions@.len() == old(self).functions@.len() + fn_count(
                    program.items@.take(i as int),
                ),
            decreases program.items@.len() - i,
        {
            proof {
                lemma_fn_count_take(program.items@, i as int);
            }
            match &program.items[i] {
                Item::Function(f) => {
                    declare_function(f, &mut stack)?;
                    let _ = self.generate_function_ir(f, &mut stack)?;
                },
                Item::Let(b) => {
                    self.position_at_end(module_block);
                    let value_val = self.ir_router(&b.initializer, &stack)?;
                    let dt = match &b.data_type {
                        Some(d) => clone_data_type(d),
                        None => infer_literal_type(&b.initializer),
                    };
                    let _ = self.generate_initialization_ir(&b.name, &dt, value_val, &mut stack)?;
                },
            }
            i = i + 1;
        }
        proof {
            assert(program.items@.take(program.items@.len() as int) =~= program.items@);
        }
        Ok(())
    }
}

/// How many of the items declare functions.
pub open spec fn fn_count(items: Seq<Item>) -> nat
    decreases items,
{
    if items.len() == 0 {
        0
    } else {
        (match items[0] {
            Item::Function(_) => 1 as nat,
            Item::Let(_) => 0 as nat,
        }) + fn_count(items.drop_first())
    }
}

/// Counting functions distributes over taking one more item.
proof fn lemma_fn_count_take(items: Seq<Item>, i: int)
    requires
        0 <= i < items.len(),
    ensures
        fn_count(items.take(i + 1)) == fn_count(items.take(i)) + (match items[i] {
            Item::Function(_) => 1 as nat,
            Item::Let(_) => 0 as nat,
        }),
    decreases i,
{
    assert(items.take(i + 1)[0] == items[0]);
    if i == 0 {
        assert(items.take(1).drop_first() =~= items.take(0));
        assert(fn_count(items.take(0)) == 0);
    } else {
        lemma_fn_count_take(items.drop_first(), i - 1);
        assert(items.take(i + 1).drop_first() =~= items.drop_first().take(i));
        assert(items.take(i).drop_first() =~= items.drop_first().take(i - 1));
        assert(items.drop_first()[i - 1] == items[i]);
    }
}

/// Declares a function's name and signature in the innermost scope, so
/// that calls to it resolve from its declaration onwards.
/// The binding a function declaration puts in scope: its return type and
/// its signature, with no storage slot.
pub open spec fn fn_sig_info(f: FunctionDecl) -> SymbolInfoV {
    SymbolInfoV {
        data_type: f.return_type@,
        kind: SymbolKindV::Function {
            params: f.params@.map_values(|p: Param| p.data_type@),
            returns: f.return_type@,
        },
        storage_slot: None,
    }
}

pub fn declare_function(f: &FunctionDecl, stack: &mut SymbolTableStack) -> (r: Result<
    (),
    ErrorType,
>)
    ensures
        match r {
            Ok(_) => old(stack)@.len() > 0 && final(stack)@ == old(stack)@.update(
                old(stack)@.len() - 1,
                old(stack)@.last().insert(f.name@, fn_sig_info(*f)),
            ),
            Err(e) => old(stack)@.len() == 0 && final(stack)@ == old(stack)@ && e@
                == crate::error::ErrorV::DevError,
        },
        final(stack)@.len() == old(stack)@.len(),
{
    let mut param_types: Vec<DataType> = Vec::new();
    let mut i: usize = 0;
    while i < f.params.len()
        invariant
            i <= f.params@.len(),
            param_types@.len() == i,
            forall|j: int| 0 <= j < i ==> param_types@[j]@ == f.params@[j].data_type@,
        decreases f.params@.len() - i,
    {
        param_types.push(clone_data_type(&f.params[i].data_type));
        i = i + 1;
    }
    let info = SymbolInfo {
        data_type: clone_data_type(&f.return_type),
        kind: SymbolKind::Function { params: param_types, returns: clone_data_type(
            &f.return_type,
        ) },
        storage_slot: None,
    };
    proof {
        assert(info@.kind matches SymbolKindV::Function { params, .. } && params =~= f.params@.map_values(
            |p: Param| p.data_type@,
        ));
        assert(info@ == fn_sig_info(*f));
    }
    stack.insert_in_top(clone_chars(&f.name), info)
}

} // verus!
