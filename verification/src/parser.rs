//! The parser: a precedence-climbing (Pratt) expression parser inside a
//! recursive-descent statement parser. It consumes the lexer's tokens and
//! builds the tree, declaring every `let` and every parameter in the
//! symbol-table stack at its point of declaration. Recovery is panic-mode:
//! inside a block, an erroneous statement is skipped up to the next `;` or
//! `}` and parsing continues, so several errors can be reported at once.
//!
//! Every parsing step keeps the token stream unchanged, never moves the
//! cursor backwards, and leaves the scope stack as deep as it found it;
//! each successful step consumes at least one token.

use vstd::prelude::*;
use crate::token::{Token, TokenV};
use crate::error::ErrorType;
use crate::ast::{BinOp, Block, Expr, FunctionDecl, Item, LetBinding, MatchArm, Param, Program,
    Stmt, UnOp, is_right_assoc, prec_of};
use crate::symbol_table::{DataType, DataTypeV, SymbolInfo, SymbolKind, SymbolTable,
    SymbolTableStack};
use crate::chars::clone_chars;

verus! {

/// The type a type-name token denotes, if it is one.
pub open spec fn type_of_token(t: TokenV) -> Option<DataTypeV> {
    match t {
        TokenV::TINTEGER => Some(DataTypeV::Integer),
        TokenV::TFLOAT => Some(DataTypeV::Float),
        TokenV::TBOOLEAN => Some(DataTypeV::Boolean),
        TokenV::TSTRING => Some(DataTypeV::String),
        TokenV::TCHAR => Some(DataTypeV::Char),
        TokenV::TVOID => Some(DataTypeV::Void),
        _ => None,
    }
}

/// The rendering of the four basic arithmetic operator tokens.
pub open spec fn op_char(t: TokenV) -> Option<char> {
    match t {
        TokenV::PLUS => Some('+'),
        TokenV::MINUS => Some('-'),
        TokenV::MULTIPLY => Some('*'),
        TokenV::DIVIDE => Some('/'),
        _ => None,
    }
}

/// The binary operator a token denotes, if any.
pub open spec fn binop_of(t: TokenV) -> Option<BinOp> {
    match t {
        TokenV::LOGICALOR => Some(BinOp::Or),
        TokenV::LOGICALAND => Some(BinOp::And),
        TokenV::EQUALEQUAL => Some(BinOp::EqEq),
        TokenV::NOTEQUAL => Some(BinOp::NotEq),
        TokenV::LESSTHAN => Some(BinOp::Lt),
        TokenV::GREATERTHAN => Some(BinOp::Gt),
        TokenV::LESSTHANEQUAL => Some(BinOp::Le),
        TokenV::GREATERTHANEQUAL => Some(BinOp::Ge),
        TokenV::BITOR => Some(BinOp::BitOr),
        TokenV::BITXOR => Some(BinOp::BitXor),
        TokenV::BITAND => Some(BinOp::BitAnd),
        TokenV::SHL => Some(BinOp::Shl),
        TokenV::SHR => Some(BinOp::Shr),
        TokenV::PLUS => Some(BinOp::Add),
        TokenV::MINUS => Some(BinOp::Sub),
        TokenV::MULTIPLY => Some(BinOp::Mul),
        TokenV::DIVIDE => Some(BinOp::Div),
        TokenV::MOD => Some(BinOp::Mod),
        TokenV::EXPONENT => Some(BinOp::Exp),
        _ => None,
    }
}

/// The parser's state: the token slice, the cursor, the live scope stack,
/// and the errors recovered from so far.
pub struct Parser {
    pub input: Vec<Token>,
    pub current: usize,
    pub symbols: SymbolTableStack,
    pub errors: Vec<ErrorType>,
}

impl Parser {
    /// The cursor never leaves the token slice.
    pub open spec fn wf(self) -> bool {
        self.current <= self.input@.len()
    }

    fn err_unexpected(&self, expected: Token) -> ErrorType {
        let found = if self.current < self.input.len() {
            self.input[self.current].clone()
        } else {
            Token::EOF
        };
        ErrorType::UnexpectedToken { expected, found, position: self.current }
    }

    /// Consumes the current token when it is the expected type-name token
    /// and yields the type it names; any other token is an internal error,
    /// and the cursor does not move.
    pub fn consume_type(&mut self) -> (r: Result<DataType, ErrorType>)
        requires
            old(self).wf(),
        ensures
            final(self).wf(),
            final(self).input == old(self).input,
            final(self).symbols == old(self).symbols,
            final(self).errors == old(self).errors,
            match r {
                Ok(dt) => old(self).current < old(self).input@.len() && type_of_token(
                    old(self).input@[old(self).current as int]@,
                ) == Some(dt@) && final(self).current == old(self).current + 1,
                Err(e) => final(self).current == old(self).current && e@ == crate::error::ErrorV::DevError
                    && (old(self).current >= old(self).input@.len() || type_of_token(
                    old(self).input@[old(self).current as int]@,
                ) is None),
            },
    {
        if self.current >= self.input.len() {
            return Err(ErrorType::DevError {});
        }
        let r = match self.input[self.current] {
            Token::TINTEGER => Ok(DataType::Integer),
            Token::TFLOAT => Ok(DataType::Float),
            Token::TBOOLEAN => Ok(DataType::Boolean),
            Token::TSTRING => Ok(DataType::String),
            Token::TCHAR => Ok(DataType::Char),
            Token::TVOID => Ok(DataType::Void),
            _ => Err(ErrorType::DevError {}),
        };
        if r.is_ok() {
            self.current = self.current + 1;
        }
        r
    }

    /// The character a basic arithmetic operator token prints as.
    pub fn operator_to_char(&self, token: &Token) -> (c: char)
        requires
            op_char(token@) is Some,
        ensures
            op_char(token@) == Some(c),
    {
        match token {
            Token::PLUS => '+',
            Token::MINUS => '-',
            Token::MULTIPLY => '*',
            _ => '/',
        }
    }

    /// The binary operator starting at the cursor, with its precedence and
    /// associativity, if the cursor stands on one.
    fn peek_binop(&self) -> (r: Option<(BinOp, u32, bool)>)
        requires
            self.wf(),
        ensures
            match r {
                Some(p) => self.current < self.input@.len() && binop_of(
                    self.input@[self.current as int]@,
                ) == Some(p.0) && p.1 == prec_of(p.0) && p.2 == is_right_assoc(p.0) && p.1 <= 12,
                None => self.current >= self.input@.len() || binop_of(
                    self.input@[self.current as int]@,
                ) is None,
            },
    {
        if self.current >= self.input.len() {
            return None;
        }
        match self.input[self.current] {
            Token::LOGICALOR => Some((BinOp::Or, 1, false)),
            Token::LOGICALAND => Some((BinOp::And, 2, false)),
            Token::EQUALEQUAL => Some((BinOp::EqEq, 3, false)),
            Token::NOTEQUAL => Some((BinOp::NotEq, 3, false)),
            Token::LESSTHAN => Some((BinOp::Lt, 4, false)),
            Token::GREATERTHAN => Some((BinOp::Gt, 4, false)),
            Token::LESSTHANEQUAL => Some((BinOp::Le, 4, false)),
            Token::GREATERTHANEQUAL => Some((BinOp::Ge, 4, false)),
            Token::BITOR => Some((BinOp::BitOr, 5, false)),
            Token::BITXOR => Some((BinOp::BitXor, 6, false)),
            Token::BITAND => Some((BinOp::BitAnd, 7, false)),
            Token::SHL => Some((BinOp::Shl, 8, false)),
            Token::SHR => Some((BinOp::Shr, 8, false)),
            Token::PLUS => Some((BinOp::Add, 9, false)),
            Token::MINUS => Some((BinOp::Sub, 9, false)),
            Token::MULTIPLY => Some((BinOp::Mul, 10, false)),
            Token::DIVIDE => Some((BinOp::Div, 10, false)),
            Token::MOD => Some((BinOp::Mod, 10, false)),
            Token::EXPONENT => Some((BinOp::Exp, 12, true)),
            _ => None,
        }
    }

    /// Consumes one token when its view equals the expected one; otherwise
    /// reports what was found and leaves the cursor alone. Only used with
    /// payload-free expected tokens.
    fn expect(&mut self, expected: Token) -> (r: Result<(), ErrorType>)
        requires
            old(self).wf(),
        ensures
            final(self).wf(),
            final(self).input == old(self).input,
            final(self).symbols == old(self).symbols,
            final(self).errors == old(self).errors,
            match r {
                Ok(_) => old(self).current < old(self).input@.len() && final(self).current == old(
                    self,
                ).current + 1 && old(self).input@[old(self).current as int]@ == expected@,
                Err(_) => final(self).current == old(self).current,
            },
    {
        if self.current >= self.input.len() {
            return Err(self.err_unexpected(expected));
        }
        let ok = match (&self.input[self.current], &expected) {
            (Token::SEMICOLON, Token::SEMICOLON) => true,
            (Token::COMMA, Token::COMMA) => true,
            (Token::COLON, Token::COLON) => true,
            (Token::EQUAL, Token::EQUAL) => true,
            (Token::LPAREN, Token::LPAREN) => true,
            (Token::RPAREN, Token::RPAREN) => true,
            (Token::LBRACKET, Token::LBRACKET) => true,
            (Token::RBRACKET, Token::RBRACKET) => true,
            (Token::GREATERTHAN, Token::GREATERTHAN) => true,
            (Token::WHILE, Token::WHILE) => true,
            _ => false,
        };
        if ok {
            assert(self.input@[self.current as int]@ == expected@);
            self.current = self.current + 1;
            Ok(())
        } else {
            Err(self.err_unexpected(expected))
        }
    }

    /// Parses one atom: a literal, a variable, a call, a parenthesized
    /// expression, or a prefix operator applied to its operand. A literal
    /// token becomes exactly the literal node carrying its characters.
    fn parse_primary(&mut self) -> (r: Result<Expr, ErrorType>)
        requires
            old(self).wf(),
        ensures
            final(self).wf(),
            final(self).input == old(self).input,
            old(self).current <= final(self).current,
            final(self).symbols@.len() == old(self).symbols@.len(),
            final(self).errors == old(self).errors,
            r is Ok ==> final(self).current > old(self).current,
            r matches Ok(e) ==> (match old(self).input@[old(self).current as int]@ {
                TokenV::INT(d) => (match e {
                    Expr::IntLit(v) => v@ == d,
                    _ => false,
                }),
                TokenV::FLOAT(d) => (match e {
                    Expr::FloatLit(v) => v@ == d,
                    _ => false,
                }),
                TokenV::TRUE => e == Expr::BoolLit(true),
                TokenV::FALSE => e == Expr::BoolLit(false),
                TokenV::STRING(cs) => (match e {
                    Expr::StringLit(v) => v@ == cs,
                    _ => false,
                }),
                TokenV::CHAR(c) => (match e {
                    Expr::CharLit(v) => v == c,
                    _ => false,
                }),
                _ => true,
            }),
        decreases old(self).input@.len() - old(self).current, 0int,
    {
        if self.current >= self.input.len() {
            return Err(ErrorType::DevError {});
        }
        match &self.input[self.current] {
            Token::INT(d) => {
                let v = clone_chars(d);
                self.current = self.current + 1;
                Ok(Expr::IntLit(v))
            },
            Token::FLOAT(d) => {
                let v = clone_chars(d);
                self.current = self.current + 1;
                Ok(Expr::FloatLit(v))
            },
            Token::TRUE => {
                self.current = self.current + 1;
                Ok(Expr::BoolLit(true))
            },
            Token::FALSE => {
                self.current = self.current + 1;
                Ok(Expr::BoolLit(false))
            },
            Token::STRING(s) => {
                let v = clone_chars(s);
                self.current = self.current + 1;
                Ok(Expr::StringLit(v))
            },
            Token::CHAR(c) => {
                let c = *c;
                self.current = self.current + 1;
                Ok(Expr::CharLit(c))
            },
            Token::IDENTIFIER(name) => {
                let name = clone_chars(name);
                self.current = self.current + 1;
                let is_call = self.current < self.input.len() && match self.input[self.current] {
                    Token::LPAREN => true,
                    _ => false,
                };
                if is_call {
                    self.current = self.current + 1;
                    let mut args: Vec<Expr> = Vec::new();
                    let at_rparen = self.current < self.input.len() && match self.input[self.current] {
                        Token::RPAREN => true,
                        _ => false,
                    };
                    if !at_rparen {
                        loop
                            invariant
                                self.wf(),
                                self.input == old(self).input,
                                self.current > old(self).current,
                                self.symbols@.len() == old(self).symbols@.len(),
                                self.errors == old(self).errors,
                            decreases self.input@.len() - self.current,
                        {
                            let a = self.parse_expr(1)?;
                            args.push(a);
                            let more = self.current < self.input.len() && match self.input[self.current] {
                                Token::COMMA => true,
                                _ => false,
                            };
                            if more {
                                self.current = self.current + 1;
                            } else {
                                break;
                            }
                        }
                    }
                    self.expect(Token::RPAREN)?;
                    Ok(Expr::Call { name, args })
                } else {
                    Ok(Expr::Variable(name))
                }
            },
            Token::MINUS => {
                self.current = self.current + 1;
                let operand = self.parse_expr(12)?;
                Ok(Expr::Unary { op: UnOp::Neg, operand: Box::new(operand) })
            },
            Token::BITNOT => {
                self.current = self.current + 1;
                let operand = self.parse_expr(12)?;
                Ok(Expr::Unary { op: UnOp::BitNot, operand: Box::new(operand) })
            },
            Token::LOGICALNOT => {
                self.current = self.current + 1;
                let operand = self.parse_expr(12)?;
                Ok(Expr::Unary { op: UnOp::Not, operand: Box::new(operand) })
            },
            Token::LPAREN => {
                self.current = self.current + 1;
                let e = self.parse_expr(1)?;
                self.expect(Token::RPAREN)?;
                Ok(e)
            },
            _ => Err(self.err_unexpected(Token::LPAREN)),
        }
    }

    /// Precedence climbing: parses an expression whose operators all bind
    /// at least as tightly as `min_prec`. On success the cursor stands on
    /// the first token that cannot continue the expression — in particular
    /// never on a binary operator of precedence `min_prec` or above.
    fn parse_expr(&mut self, min_prec: u32) -> (r: Result<Expr, ErrorType>)
        requires
            old(self).wf(),
        ensures
            final(self).wf(),
            final(self).input == old(self).input,
            old(self).current <= final(self).current,
            final(self).symbols@.len() == old(self).symbols@.len(),
            final(self).errors == old(self).errors,
            r is Ok ==> final(self).current > old(self).current,
            r is Ok && final(self).current < final(self).input@.len() ==> (match binop_of(
                final(self).input@[final(self).current as int]@,
            ) {
                Some(op) => prec_of(op) < min_prec,
                None => true,
            }),
        decreases old(self).input@.len() - old(self).current, 1int,
    {
        let mut lhs = self.parse_primary()?;
        loop
            invariant
                self.wf(),
                self.input == old(self).input,
                self.current > old(self).current,
                self.symbols@.len() == old(self).symbols@.len(),
                self.errors == old(self).errors,
            decreases self.input@.len() - self.current,
        {
            match self.peek_binop() {
                None => {
                    return Ok(lhs);
                },
                Some((op, prec, right_assoc)) => {
                    if prec < min_prec {
                        return Ok(lhs);
                    }
                    // Pins the slice length to a machine word: the cursor
                    // sits below it, so the increment cannot overflow.
                    let n = self.input.len();
                    let _ = n;
                    self.current = self.current + 1;
                    let next_min = if right_assoc {
                        prec
                    } else {
                        prec + 1
                    };
                    let rhs = self.parse_expr(next_min)?;
                    lhs = Expr::Binary { op, left: Box::new(lhs), right: Box::new(rhs) };
                },
            }
        }
    }

    /// Skips tokens up to and including the next `;`, or up to (not
    /// including) the next `}` or `EOF`, to resume after a bad statement.
    fn sync(&mut self)
        requires
            old(self).wf(),
        ensures
            final(self).wf(),
            final(self).input == old(self).input,
            old(self).current <= final(self).current,
            final(self).symbols == old(self).symbols,
            final(self).errors == old(self).errors,
            final(self).current == old(self).current ==> (final(self).current >= final(self).input@.len()
                || final(self).input@[final(self).current as int]@ == TokenV::RBRACKET
                || final(self).input@[final(self).current as int]@ == TokenV::EOF),
    {
        while self.current < self.input.len()
            invariant
                self.wf(),
                self.input == old(self).input,
                old(self).current <= self.current,
                self.symbols == old(self).symbols,
                self.errors == old(self).errors,
            decreases self.input@.len() - self.current,
        {
            match self.input[self.current] {
                Token::SEMICOLON => {
                    self.current = self.current + 1;
                    return ;
                },
                Token::RBRACKET => {
                    return ;
                },
                Token::EOF => {
                    return ;
                },
                _ => {
                    self.current = self.current + 1;
                },
            }
        }
    }

    /// Parses the rest of a `let` after its keyword: the name, an optional
    /// `: Type`, `=`, the initializer and `;`; then declares the binding in
    /// the innermost scope. An unannotated binding takes its literal
    /// initializer's type, and `Integer` otherwise.
    fn parse_let_rest(&mut self) -> (r: Result<LetBinding, ErrorType>)
        requires
            old(self).wf(),
        ensures
            final(self).wf(),
            final(self).input == old(self).input,
            old(self).current <= final(self).current,
            final(self).symbols@.len() == old(self).symbols@.len(),
            final(self).errors == old(self).errors,
            r is Ok ==> final(self).current > old(self).current,
        decreases old(self).input@.len() - old(self).current, 2int,
    {
        if self.current >= self.input.len() {
            return Err(ErrorType::DevError {});
        }
        let name = match &self.input[self.current] {
            Token::IDENTIFIER(n) => clone_chars(n),
            _ => {
                return Err(self.err_unexpected(Token::IDENTIFIER(Vec::new())));
            },
        };
        self.current = self.current + 1;
        let has_colon = self.current < self.input.len() && match self.input[self.current] {
            Token::COLON => true,
            _ => false,
        };
        let data_type = if has_colon {
            self.current = self.current + 1;
            Some(self.consume_type()?)
        } else {
            None
        };
        self.expect(Token::EQUAL)?;
        let initializer = self.parse_expr(1)?;
        self.expect(Token::SEMICOLON)?;
        let declared = match &data_type {
            Some(d) => clone_data_type(d),
            None => infer_literal_type(&initializer),
        };
        let info = SymbolInfo {
            data_type: declared,
            kind: SymbolKind::Variable,
            storage_slot: None,
        };
        if self.symbols.is_empty() {
            return Err(ErrorType::DevError {});
        }
        let key = clone_chars(&name);
        match self.symbols.insert_in_top(key, info) {
            Ok(_) => Ok(LetBinding { name, data_type, initializer }),
            Err(e) => Err(e),
        }
    }

    /// Parses the rest of an assignment after its target name: `= expr ;`.
    fn parse_assignment_rest(&mut self, name: Vec<char>) -> (r: Result<Stmt, ErrorType>)
        requires
            old(self).wf(),
        ensures
            final(self).wf(),
            final(self).input == old(self).input,
            old(self).current <= final(self).current,
            final(self).symbols@.len() == old(self).symbols@.len(),
            final(self).errors == old(self).errors,
            r is Ok ==> final(self).current > old(self).current,
        decreases old(self).input@.len() - old(self).current, 2int,
    {
        self.expect(Token::EQUAL)?;
        let value = self.parse_expr(1)?;
        self.expect(Token::SEMICOLON)?;
        Ok(Stmt::Assignment { name, value })
    }

    /// Parses the rest of an `if` after its keyword: condition, block, and
    /// an optional `elif` chain or `else`. An `elif` becomes a nested `If`
    /// as the sole statement of the `else` block.
    fn parse_if_rest(&mut self) -> (r: Result<Stmt, ErrorType>)
        requires
            old(self).wf(),
        ensures
            final(self).wf(),
            final(self).input == old(self).input,
            old(self).current <= final(self).current,
            final(self).symbols@.len() == old(self).symbols@.len(),
            r is Ok ==> final(self).current > old(self).current,
        decreases old(self).input@.len() - old(self).current, 3int,
    {
        let cond = self.parse_expr(1)?;
        let then_block = self.parse_block()?;
        if self.current < self.input.len() {
            let is_elif = match self.input[self.current] {
                Token::ELIF => true,
                _ => false,
            };
            let is_else = match self.input[self.current] {
                Token::ELSE => true,
                _ => false,
            };
            if is_elif {
                self.current = self.current + 1;
                let nested = self.parse_if_rest()?;
                let else_block = Some(Block { statements: vec![nested] });
                return Ok(Stmt::If { cond, then_block, else_block });
            }
            if is_else {
                self.current = self.current + 1;
                let els = self.parse_block()?;
                return Ok(Stmt::If { cond, then_block, else_block: Some(els) });
            }
        }
        Ok(Stmt::If { cond, then_block, else_block: None })
    }

    /// Parses one statement. The cursor must stand on its first token.
    fn parse_statement(&mut self) -> (r: Result<Stmt, ErrorType>)
        requires
            old(self).wf(),
        ensures
            final(self).wf(),
            final(self).input == old(self).input,
            old(self).current <= final(self).current,
            final(self).symbols@.len() == old(self).symbols@.len(),
            r is Ok ==> final(self).current > old(self).current,
        decreases old(self).input@.len() - old(self).current, 4int,
    {
        if self.current >= self.input.len() {
            return Err(ErrorType::DevError {});
        }
        let kind = &self.input[self.current];
        match kind {
            Token::LET => {
                self.current = self.current + 1;
                let b = self.parse_let_rest()?;
                Ok(Stmt::Let(b))
            },
            Token::IF => {
                self.current = self.current + 1;
                self.parse_if_rest()
            },
            Token::WHILE => {
                self.current = self.current + 1;
                let cond = self.parse_expr(1)?;
                let body = self.parse_block()?;
                Ok(Stmt::While { cond, body })
            },
            Token::FOR => {
                self.current = self.current + 1;
                let init = self.parse_for_init()?;
                let cond = self.parse_expr(1)?;
                self.expect(Token::SEMICOLON)?;
                let step = self.parse_for_step()?;
                let body = self.parse_block()?;
                Ok(Stmt::For { init: Box::new(init), cond, step: Box::new(step), body })
            },
            Token::DO => {
                self.current = self.current + 1;
                let body = self.parse_block()?;
                self.expect(Token::WHILE)?;
                let cond = self.parse_expr(1)?;
                self.expect(Token::SEMICOLON)?;
                Ok(Stmt::DoWhile { body, cond })
            },
            Token::BREAK => {
                self.current = self.current + 1;
                self.expect(Token::SEMICOLON)?;
                Ok(Stmt::Break)
            },
            Token::CONTINUE => {
                self.current = self.current + 1;
                self.expect(Token::SEMICOLON)?;
                Ok(Stmt::Continue)
            },
            Token::RETURN => {
                self.current = self.current + 1;
                let at_semi = self.current < self.input.len() && match self.input[self.current] {
                    Token::SEMICOLON => true,
                    _ => false,
                };
                if at_semi {
                    self.current = self.current + 1;
                    Ok(Stmt::Return { value: None })
                } else {
                    let v = self.parse_expr(1)?;
                    self.expect(Token::SEMICOLON)?;
                    Ok(Stmt::Return { value: Some(v) })
                }
            },
            Token::MATCH => {
                self.current = self.current + 1;
                self.parse_match_rest()
            },
            Token::IDENTIFIER(n) => {
                let is_assign = self.current + 1 < self.input.len() && match self.input[self.current
                    + 1] {
                    Token::EQUAL => true,
                    _ => false,
                };
                if is_assign {
                    let name = clone_chars(n);
                    self.current = self.current + 1;
                    self.parse_assignment_rest(name)
                } else {
                    let e = self.parse_expr(1)?;
                    self.expect(Token::SEMICOLON)?;
                    Ok(Stmt::ExprStmt(e))
                }
            },
            _ => {
                let e = self.parse_expr(1)?;
                self.expect(Token::SEMICOLON)?;
                Ok(Stmt::ExprStmt(e))
            },
        }
    }

    /// A `for` loop's first clause: a `let` or an assignment, with its `;`.
    fn parse_for_init(&mut self) -> (r: Result<Stmt, ErrorType>)
        requires
            old(self).wf(),
        ensures
            final(self).wf(),
            final(self).input == old(self).input,
            old(self).current <= final(self).current,
            final(self).symbols@.len() == old(self).symbols@.len(),
            final(self).errors == old(self).errors,
            r is Ok ==> final(self).current > old(self).current,
        decreases old(self).input@.len() - old(self).current, 3int,
    {
        if self.current >= self.input.len() {
            return Err(ErrorType::DevError {});
        }
        match &self.input[self.current] {
            Token::LET => {
                self.current = self.current + 1;
                let b = self.parse_let_rest()?;
                Ok(Stmt::Let(b))
            },
            Token::IDENTIFIER(n) => {
                let name = clone_chars(n);
                self.current = self.current + 1;
                self.parse_assignment_rest(name)
            },
            _ => Err(self.err_unexpected(Token::LET)),
        }
    }

    /// A `for` loop's step clause: an assignment or an expression, without
    /// a trailing `;`.
    fn parse_for_step(&mut self) -> (r: Result<Stmt, ErrorType>)
        requires
            old(self).wf(),
        ensures
            final(self).wf(),
            final(self).input == old(self).input,
            old(self).current <= final(self).current,
            final(self).symbols@.len() == old(self).symbols@.len(),
            final(self).errors == old(self).errors,
            r is Ok ==> final(self).current > old(self).current,
        decreases old(self).input@.len() - old(self).current, 3int,
    {
        if self.current >= self.input.len() {
            return Err(ErrorType::DevError {});
        }
        let is_assign = self.current + 1 < self.input.len() && match (
            &self.input[self.current],
            &self.input[self.current + 1],
        ) {
            (Token::IDENTIFIER(_), Token::EQUAL) => true,
            _ => false,
        };
        if is_assign {
            let name = match &self.input[self.current] {
                Token::IDENTIFIER(n) => clone_chars(n),
                _ => {
                    return Err(ErrorType::DevError {});
                },
            };
            self.current = self.current + 1;
            self.expect(Token::EQUAL)?;
            let value = self.parse_expr(1)?;
            Ok(Stmt::Assignment { name, value })
        } else {
            let e = self.parse_expr(1)?;
            Ok(Stmt::ExprStmt(e))
        }
    }

    /// Parses the rest of a `match` after its keyword: the scrutinee and a
    /// braced list of `pattern (if guard)? => expr ,` arms.
    fn parse_match_rest(&mut self) -> (r: Result<Stmt, ErrorType>)
        requires
            old(self).wf(),
        ensures
            final(self).wf(),
            final(self).input == old(self).input,
            old(self).current <= final(self).current,
            final(self).symbols@.len() == old(self).symbols@.len(),
            r is Ok ==> final(self).current > old(self).current,
        decreases old(self).input@.len() - old(self).current, 3int,
    {
        let scrutinee = self.parse_expr(1)?;
        self.expect(Token::LBRACKET)?;
        let mut arms: Vec<MatchArm> = Vec::new();
        loop
            invariant
                self.wf(),
                self.input == old(self).input,
                self.current > old(self).current,
                self.symbols@.len() == old(self).symbols@.len(),
            decreases self.input@.len() - self.current,
        {
            if self.current >= self.input.len() {
                return Err(self.err_unexpected(Token::RBRACKET));
            }
            let done = match self.input[self.current] {
                Token::RBRACKET => true,
                _ => false,
            };
            if done {
                self.current = self.current + 1;
                return Ok(Stmt::Match { scrutinee, arms });
            }
            let pattern = self.parse_expr(1)?;
            let has_guard = self.current < self.input.len() && match self.input[self.current] {
                Token::IF => true,
                _ => false,
            };
            let guard = if has_guard {
                self.current = self.current + 1;
                Some(self.parse_expr(1)?)
            } else {
                None
            };
            self.expect(Token::EQUAL)?;
            self.expect(Token::GREATERTHAN)?;
            let body = self.parse_expr(1)?;
            arms.push(MatchArm { pattern, guard, body });
            let has_comma = self.current < self.input.len() && match self.input[self.current] {
                Token::COMMA => true,
                _ => false,
            };
            if has_comma {
                self.current = self.current + 1;
            }
        }
    }

    /// Parses a braced block, opening a scope for it and closing that scope
    /// on every way out. Statement errors are recorded and skipped past, so
    /// one block can report several.
    fn parse_block(&mut self) -> (r: Result<Block, ErrorType>)
        requires
            old(self).wf(),
        ensures
            final(self).wf(),
            final(self).input == old(self).input,
            old(self).current <= final(self).current,
            final(self).symbols@.len() == old(self).symbols@.len(),
            r is Ok ==> final(self).current > old(self).current,
        decreases old(self).input@.len() - old(self).current, 5int,
    {
        self.expect(Token::LBRACKET)?;
        self.symbols.push(SymbolTable::new());
        let mut statements: Vec<Stmt> = Vec::new();
        loop
            invariant
                self.wf(),
                self.input == old(self).input,
                self.current > old(self).current,
                self.symbols@.len() == old(self).symbols@.len() + 1,
            decreases self.input@.len() - self.current,
        {
            if self.current >= self.input.len() {
                self.symbols.pop();
                return Err(self.err_unexpected(Token::RBRACKET));
            }
            let head = match self.input[self.current] {
                Token::RBRACKET => 1usize,
                Token::EOF => 2usize,
                _ => 0usize,
            };
            if head == 1 {
                self.current = self.current + 1;
                self.symbols.pop();
                return Ok(Block { statements });
            }
            if head == 2 {
                self.symbols.pop();
                return Err(self.err_unexpected(Token::RBRACKET));
            }
            let before: usize = self.current;
            match self.parse_statement() {
                Ok(s) => {
                    statements.push(s);
                },
                Err(e) => {
                    self.errors.push(e);
                    self.sync();
                    if self.current == before {
                        // The bad statement consumed nothing and the sync
                        // stopped at once: the cursor stands on `}`, `EOF`,
                        // or the end, all of which close the block now.
                        if self.current >= self.input.len() {
                            self.symbols.pop();
                            return Err(self.err_unexpected(Token::RBRACKET));
                        }
                        let at_close = match self.input[self.current] {
                            Token::RBRACKET => true,
                            _ => false,
                        };
                        if at_close {
                            self.current = self.current + 1;
                            self.symbols.pop();
                            return Ok(Block { statements });
                        }
                        self.symbols.pop();
                        return Err(self.err_unexpected(Token::RBRACKET));
                    }
                },
            }
        }
    }

    /// Parses the rest of a function declaration after `fn`: name,
    /// parenthesized `name: Type` parameters, an optional `: Type` return
    /// annotation (`Void` otherwise), and the body block. The function is
    /// declared in the enclosing scope before its parameters open theirs.
    fn parse_function_rest(&mut self) -> (r: Result<FunctionDecl, ErrorType>)
        requires
            old(self).wf(),
        ensures
            final(self).wf(),
            final(self).input == old(self).input,
            old(self).current <= final(self).current,
            final(self).symbols@.len() == old(self).symbols@.len(),
            r is Ok ==> final(self).current > old(self).current,
        decreases old(self).input@.len() - old(self).current, 5int,
    {
        if self.current >= self.input.len() {
            return Err(ErrorType::DevError {});
        }
        let name = match &self.input[self.current] {
            Token::IDENTIFIER(n) => clone_chars(n),
            _ => {
                return Err(self.err_unexpected(Token::IDENTIFIER(Vec::new())));
            },
        };
        self.current = self.current + 1;
        self.expect(Token::LPAREN)?;
        let mut params: Vec<Param> = Vec::new();
        loop
            invariant
                self.wf(),
                self.input == old(self).input,
                self.current > old(self).current,
                self.symbols@.len() == old(self).symbols@.len(),
                self.errors == old(self).errors,
            decreases self.input@.len() - self.current,
        {
            if self.current >= self.input.len() {
                return Err(self.err_unexpected(Token::RPAREN));
            }
            let at_rparen = match self.input[self.current] {
                Token::RPAREN => true,
                _ => false,
            };
            if at_rparen {
                self.current = self.current + 1;
                break;
            }
            let pname = match &self.input[self.current] {
                Token::IDENTIFIER(n) => clone_chars(n),
                _ => {
                    return Err(self.err_unexpected(Token::IDENTIFIER(Vec::new())));
                },
            };
            self.current = self.current + 1;
            self.expect(Token::COLON)?;
            let dt = self.consume_type()?;
            params.push(Param { name: pname, data_type: dt });
            let has_comma = self.current < self.input.len() && match self.input[self.current] {
                Token::COMMA => true,
                _ => false,
            };
            if has_comma {
                self.current = self.current + 1;
            }
        }
        let has_ret = self.current < self.input.len() && match self.input[self.current] {
            Token::COLON => true,
            _ => false,
        };
        let return_type = if has_ret {
            self.current = self.current + 1;
            self.consume_type()?
        } else {
            DataType::Void
        };
        // Declare the function in the enclosing scope, then open the
        // parameter scope and declare each parameter in it.
        let mut param_types: Vec<DataType> = Vec::new();
        let mut i: usize = 0;
        while i < params.len()
            invariant
                i <= params@.len(),
            decreases params@.len() - i,
        {
            param_types.push(clone_data_type(&params[i].data_type));
            i = i + 1;
        }
        let fn_info = SymbolInfo {
            data_type: clone_data_type(&return_type),
            kind: SymbolKind::Function { params: param_types, returns: clone_data_type(
                &return_type,
            ) },
            storage_slot: None,
        };
        if self.symbols.is_empty() {
            return Err(ErrorType::DevError {});
        }
        match self.symbols.insert_in_top(clone_chars(&name), fn_info) {
            Ok(_) => (),
            Err(e) => {
                return Err(e);
            },
        }
        self.symbols.push(SymbolTable::new());
        let mut j: usize = 0;
        while j < params.len()
            invariant
                j <= params@.len(),
                self.wf(),
                self.input == old(self).input,
                self.current > old(self).current,
                self.symbols@.len() == old(self).symbols@.len() + 1,
            decreases params@.len() - j,
        {
            let p = &params[j];
            let info = SymbolInfo {
                data_type: clone_data_type(&p.data_type),
                kind: SymbolKind::Parameter,
                storage_slot: None,
            };
            let key = clone_chars(&p.name);
            match self.symbols.insert_in_top(key, info) {
                Ok(_) => (),
                Err(_) => {
                },
            }
            j = j + 1;
        }
        let body = match self.parse_block() {
            Ok(b) => b,
            Err(e) => {
                self.symbols.pop();
                return Err(e);
            },
        };
        self.symbols.pop();
        Ok(FunctionDecl { name, params, return_type, body })
    }

    /// Skips ahead at the top level: consumes at least one token, then
    /// everything up to and including the next `;` (stopping early at
    /// `EOF`).
    fn sync_top(&mut self)
        requires
            old(self).wf(),
            old(self).current < old(self).input@.len(),
        ensures
            final(self).wf(),
            final(self).input == old(self).input,
            final(self).current > old(self).current,
            final(self).symbols == old(self).symbols,
            final(self).errors == old(self).errors,
    {
        // Pins the slice length to a machine word: the cursor sits below
        // it, so the increment cannot overflow.
        let n = self.input.len();
        let _ = n;
        let first = match self.input[self.current] {
            Token::SEMICOLON => true,
            _ => false,
        };
        self.current = self.current + 1;
        if first {
            return ;
        }
        while self.current < self.input.len()
            invariant
                self.wf(),
                self.input == old(self).input,
                self.current > old(self).current,
                self.symbols == old(self).symbols,
                self.errors == old(self).errors,
            decreases self.input@.len() - self.current,
        {
            match self.input[self.current] {
                Token::SEMICOLON => {
                    self.current = self.current + 1;
                    return ;
                },
                Token::EOF => {
                    return ;
                },
                _ => {
                    self.current = self.current + 1;
                },
            }
        }
    }

    /// Parses a whole translation unit: function declarations and
    /// top-level `let` bindings up to `EOF`, in one global scope. Returns
    /// the program only when no error was recorded anywhere; otherwise the
    /// full list of recovered errors, in source order.
    pub fn parse(tokens: Vec<Token>) -> (r: Result<Program, Vec<ErrorType>>)
        ensures
            r matches Err(es) ==> es@.len() > 0,
            r matches Ok(prog) ==> (prog.items@.len() > 0 || tokens@.len() == 0 || tokens@[0]@
                == TokenV::EOF),
    {
        let mut p = Parser {
            input: tokens,
            current: 0,
            symbols: SymbolTableStack::new(),
            errors: Vec::new(),
        };
        p.symbols.push(SymbolTable::new());
        let mut items: Vec<Item> = Vec::new();
        loop
            invariant
                p.wf(),
                p.symbols@.len() >= 1,
                p.input@ == tokens@,
                p.errors@.len() == 0 ==> (items@.len() > 0 || p.current == 0),
            ensures
                p.errors@.len() == 0 ==> (items@.len() > 0 || tokens@.len() == 0 || tokens@[0]@
                    == TokenV::EOF),
            decreases p.input@.len() - p.current,
        {
            if p.current >= p.input.len() {
                break;
            }
            let head = match p.input[p.current] {
                Token::EOF => 1usize,
                Token::FUNCTION => 2usize,
                Token::LET => 3usize,
                _ => 0usize,
            };
            if head == 1 {
                break;
            } else if head == 2 {
                p.current = p.current + 1;
                match p.parse_function_rest() {
                    Ok(f) => {
                        items.push(Item::Function(f));
                    },
                    Err(e) => {
                        p.errors.push(e);
                        p.sync();
                    },
                }
            } else if head == 3 {
                p.current = p.current + 1;
                match p.parse_let_rest() {
                    Ok(b) => {
                        items.push(Item::Let(b));
                    },
                    Err(e) => {
                        p.errors.push(e);
                        p.sync();
                    },
                }
            } else {
                let e = p.err_unexpected(Token::FUNCTION);
                p.errors.push(e);
                p.sync_top();
            }
        }
        if p.errors.len() == 0 {
            Ok(Program { items })
        } else {
            Err(p.errors)
        }
    }
}

/// A literal's own type, for bindings without an annotation; any other
/// initializer defaults to `Integer`.
pub fn infer_literal_type(e: &Expr) -> (r: DataType)
    ensures
        r@ == infer_literal_type_spec(*e),
{
    match e {
        Expr::IntLit(_) => DataType::Integer,
        Expr::FloatLit(_) => DataType::Float,
        Expr::BoolLit(_) => DataType::Boolean,
        Expr::StringLit(_) => DataType::String,
        Expr::CharLit(_) => DataType::Char,
        _ => DataType::Integer,
    }
}

/// The type `infer_literal_type` assigns.
pub open spec fn infer_literal_type_spec(e: Expr) -> DataTypeV {
    match e {
        Expr::IntLit(_) => DataTypeV::Integer,
        Expr::FloatLit(_) => DataTypeV::Float,
        Expr::BoolLit(_) => DataTypeV::Boolean,
        Expr::StringLit(_) => DataTypeV::String,
        Expr::CharLit(_) => DataTypeV::Char,
        _ => DataTypeV::Integer,
    }
}

/// A copy of a type value, equal to it under the view.
pub fn clone_data_type(d: &DataType) -> (r: DataType)
    ensures
        r@ == d@,
{
    match d {
        DataType::Integer => DataType::Integer,
        DataType::Float => DataType::Float,
        DataType::Boolean => DataType::Boolean,
        DataType::String => DataType::String,
        DataType::Char => DataType::Char,
        DataType::Void => DataType::Void,
        DataType::Struct(n) => DataType::Struct(clone_chars(n)),
        DataType::Enum(n) => DataType::Enum(clone_chars(n)),
    }
}

} // verus!
