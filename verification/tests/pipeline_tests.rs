use compiler_core::ast::{BinOp, Expr, Item, Program, Stmt, UnOp};
use compiler_core::error::ErrorType;
use compiler_core::ir::{BuildOp, IRGenerator, Instr};
use compiler_core::lexer::Lexer;
use compiler_core::parser::Parser;
use compiler_core::resolve::check_program;
use compiler_core::symbol_table::{DataType, SymbolInfo, SymbolKind, SymbolTable, SymbolTableStack};
use compiler_core::token::Token;

fn parse_source(src: &str) -> Program {
    let tokens = Lexer::lex(src).expect("lexing failed");
    Parser::parse(tokens).expect("parsing failed")
}

fn first_initializer(p: &Program) -> &Expr {
    match &p.items[0] {
        Item::Let(b) => &b.initializer,
        _ => panic!("expected a top-level let"),
    }
}

fn chars(s: &str) -> Vec<char> {
    s.chars().collect()
}

fn var(s: &str) -> Expr {
    Expr::Variable(chars(s))
}

fn bin(op: BinOp, l: Expr, r: Expr) -> Expr {
    Expr::Binary { op, left: Box::new(l), right: Box::new(r) }
}

// ---------------------------------------------------------------------
// Precedence and associativity of the expression parser
// ---------------------------------------------------------------------

#[test]
fn test_precedence_mul_binds_tighter_right() {
    let p = parse_source("let r = a + b * c;");
    let expected = bin(BinOp::Add, var("a"), bin(BinOp::Mul, var("b"), var("c")));
    assert_eq!(first_initializer(&p), &expected);
}

#[test]
fn test_precedence_mul_binds_tighter_left() {
    let p = parse_source("let r = a * b + c;");
    let expected = bin(BinOp::Add, bin(BinOp::Mul, var("a"), var("b")), var("c"));
    assert_eq!(first_initializer(&p), &expected);
}

#[test]
fn test_precedence_not_before_and() {
    let p = parse_source("let r = !a && b;");
    let expected = bin(
        BinOp::And,
        Expr::Unary { op: UnOp::Not, operand: Box::new(var("a")) },
        var("b"),
    );
    assert_eq!(first_initializer(&p), &expected);
}

#[test]
fn test_precedence_eq_before_and() {
    let p = parse_source("let r = a == b && c;");
    let expected = bin(BinOp::And, bin(BinOp::EqEq, var("a"), var("b")), var("c"));
    assert_eq!(first_initializer(&p), &expected);
}

#[test]
fn test_left_associativity_of_minus() {
    let p = parse_source("let r = a - b - c;");
    let expected = bin(BinOp::Sub, bin(BinOp::Sub, var("a"), var("b")), var("c"));
    assert_eq!(first_initializer(&p), &expected);
}

#[test]
fn test_right_associativity_of_exponent() {
    let p = parse_source("let r = a ^ b ^ c;");
    let expected = bin(BinOp::Exp, var("a"), bin(BinOp::Exp, var("b"), var("c")));
    assert_eq!(first_initializer(&p), &expected);
}

#[test]
fn test_logical_tree_shape() {
    // `&&` at the root, `>` and `<` as its children.
    let p = parse_source("let result = (5 > 3) && (2 < 4);");
    let expected = bin(
        BinOp::And,
        bin(BinOp::Gt, Expr::IntLit(chars("5")), Expr::IntLit(chars("3"))),
        bin(BinOp::Lt, Expr::IntLit(chars("2")), Expr::IntLit(chars("4"))),
    );
    assert_eq!(first_initializer(&p), &expected);
}

#[test]
fn test_nested_call_ast() {
    // A call node with two children, the first itself a call.
    let p = parse_source("let val = add(multiply(2, 3), 4);");
    let expected = Expr::Call {
        name: chars("add"),
        args: vec![
            Expr::Call {
                name: chars("multiply"),
                args: vec![Expr::IntLit(chars("2")), Expr::IntLit(chars("3"))],
            },
            Expr::IntLit(chars("4")),
        ],
    };
    assert_eq!(first_initializer(&p), &expected);
}

#[test]
fn test_function_decl_ast() {
    let p = parse_source("fn add(a: Integer, b: Integer): Integer { return a + b; }");
    match &p.items[0] {
        Item::Function(f) => {
            assert_eq!(f.name, chars("add"));
            assert_eq!(f.params.len(), 2);
            assert_eq!(f.params[0].name, chars("a"));
            assert_eq!(f.params[0].data_type, DataType::Integer);
            assert_eq!(f.params[1].name, chars("b"));
            assert_eq!(f.params[1].data_type, DataType::Integer);
            assert_eq!(f.return_type, DataType::Integer);
            assert_eq!(f.body.statements.len(), 1);
            let expected = Stmt::Return {
                value: Some(bin(BinOp::Add, var("a"), var("b"))),
            };
            assert_eq!(f.body.statements[0], expected);
        },
        _ => panic!("expected a function declaration"),
    }
}

#[test]
fn test_parse_error_reports_unexpected_token() {
    let tokens = Lexer::lex("let = 5;").expect("lexing failed");
    let errs = Parser::parse(tokens).expect_err("parse should fail");
    assert!(!errs.is_empty());
    assert!(matches!(errs[0], ErrorType::UnexpectedToken { .. }));
}

#[test]
fn test_elif_becomes_nested_if() {
    let p = parse_source("fn f(x: Integer) { if x > 1 { return 1; } elif x > 0 { return 2; } else { return 3; } }");
    match &p.items[0] {
        Item::Function(f) => match &f.body.statements[0] {
            Stmt::If { else_block: Some(eb), .. } => {
                assert_eq!(eb.statements.len(), 1);
                assert!(matches!(eb.statements[0], Stmt::If { .. }));
            },
            _ => panic!("expected an if with an else block"),
        },
        _ => panic!("expected a function"),
    }
}

// ---------------------------------------------------------------------
// Round trip: tokens -> AST -> tokens, ignoring trivia
// ---------------------------------------------------------------------

fn tokens_of_expr(e: &Expr, out: &mut Vec<Token>) {
    match e {
        Expr::IntLit(d) => out.push(Token::INT(d.clone())),
        Expr::FloatLit(d) => out.push(Token::FLOAT(d.clone())),
        Expr::BoolLit(b) => out.push(if *b { Token::TRUE } else { Token::FALSE }),
        Expr::StringLit(s) => out.push(Token::STRING(s.clone())),
        Expr::CharLit(c) => out.push(Token::CHAR(*c)),
        Expr::Variable(n) => out.push(Token::IDENTIFIER(n.clone())),
        Expr::Binary { op, left, right } => {
            tokens_of_expr(left, out);
            out.push(binop_token(*op));
            tokens_of_expr(right, out);
        },
        Expr::Unary { op, operand } => {
            out.push(match op {
                UnOp::Neg => Token::MINUS,
                UnOp::BitNot => Token::BITNOT,
                UnOp::Not => Token::LOGICALNOT,
            });
            tokens_of_expr(operand, out);
        },
        Expr::Call { name, args } => {
            out.push(Token::IDENTIFIER(name.clone()));
            out.push(Token::LPAREN);
            for (i, a) in args.iter().enumerate() {
                if i > 0 {
                    out.push(Token::COMMA);
                }
                tokens_of_expr(a, out);
            }
            out.push(Token::RPAREN);
        },
    }
}

fn binop_token(op: BinOp) -> Token {
    match op {
        BinOp::Or => Token::LOGICALOR,
        BinOp::And => Token::LOGICALAND,
        BinOp::EqEq => Token::EQUALEQUAL,
        BinOp::NotEq => Token::NOTEQUAL,
        BinOp::Lt => Token::LESSTHAN,
        BinOp::Gt => Token::GREATERTHAN,
        BinOp::Le => Token::LESSTHANEQUAL,
        BinOp::Ge => Token::GREATERTHANEQUAL,
        BinOp::BitOr => Token::BITOR,
        BinOp::BitXor => Token::BITXOR,
        BinOp::BitAnd => Token::BITAND,
        BinOp::Shl => Token::SHL,
        BinOp::Shr => Token::SHR,
        BinOp::Add => Token::PLUS,
        BinOp::Sub => Token::MINUS,
        BinOp::Mul => Token::MULTIPLY,
        BinOp::Div => Token::DIVIDE,
        BinOp::Mod => Token::MOD,
        BinOp::Exp => Token::EXPONENT,
    }
}

#[test]
fn test_round_trip_expression_without_parens() {
    // For a source with no redundant parentheses, printing the parsed
    // expression gives back exactly the expression's tokens.
    let src = "let r = a + b * c - 4;";
    let tokens = Lexer::lex(src).expect("lexing failed");
    let p = Parser::parse(tokens.clone()).expect("parsing failed");
    let mut printed = vec![Token::LET, Token::IDENTIFIER(chars("r")), Token::EQUAL];
    tokens_of_expr(first_initializer(&p), &mut printed);
    printed.push(Token::SEMICOLON);
    printed.push(Token::EOF);
    assert_eq!(tokens, printed);
}

#[test]
fn test_round_trip_call_expression() {
    let src = "let v = add(multiply(2, 3), 4);";
    let tokens = Lexer::lex(src).expect("lexing failed");
    let p = Parser::parse(tokens.clone()).expect("parsing failed");
    let mut printed = vec![Token::LET, Token::IDENTIFIER(chars("v")), Token::EQUAL];
    tokens_of_expr(first_initializer(&p), &mut printed);
    printed.push(Token::SEMICOLON);
    printed.push(Token::EOF);
    assert_eq!(tokens, printed);
}

// ---------------------------------------------------------------------
// Scope correctness
// ---------------------------------------------------------------------

#[test]
fn test_scope_check_accepts_resolvable_program() {
    let p = parse_source("fn add(a: Integer, b: Integer): Integer { return a + b; } let x = add(1, 2);");
    assert!(check_program(&p));
}

#[test]
fn test_scope_check_rejects_undefined_variable() {
    let p = parse_source("fn f(): Integer { return y; }");
    assert!(!check_program(&p));
}

#[test]
fn test_scope_check_rejects_name_out_of_scope() {
    // `t` is declared in the `if` block's scope and read after it closed.
    let p = parse_source("fn f(x: Integer) { if x > 0 { let t = 1; } t = 2; }");
    assert!(!check_program(&p));
}

#[test]
fn test_scope_check_sees_let_after_declaration() {
    let p = parse_source("fn f() { let a = 1; let b = a; }");
    assert!(check_program(&p));
}

// ---------------------------------------------------------------------
// IR generation
// ---------------------------------------------------------------------

fn generate_ir(src: &str) -> IRGenerator {
    let p = parse_source(src);
    let mut gen = IRGenerator::new();
    gen.generate(&p).expect("IR generation failed");
    gen
}

#[test]
fn test_ir_add_feeds_return() {
    // The body holds an add instruction whose value feeds a non-void return.
    let gen = generate_ir("fn add(a: Integer, b: Integer): Integer { return a + b; }");
    let mut add_dest = None;
    let mut ret_value = None;
    for (_, ins) in &gen.instrs {
        match ins {
            Instr::Binary { build: BuildOp::Add, dest, .. } => add_dest = Some(*dest),
            Instr::Ret { value } => ret_value = Some(*value),
            _ => {},
        }
    }
    assert_eq!(add_dest.expect("no add emitted"), ret_value.expect("no return emitted"));
}

#[test]
fn test_ir_two_icmp_and_one_and() {
    let gen = generate_ir("fn f(): Boolean { let result = (5 > 3) && (2 < 4); return result; }");
    let mut gts = 0;
    let mut lts = 0;
    let mut ands = 0;
    for (_, ins) in &gen.instrs {
        match ins {
            Instr::Binary { build: BuildOp::IcmpGt, .. } => gts += 1,
            Instr::Binary { build: BuildOp::IcmpLt, .. } => lts += 1,
            Instr::Binary { build: BuildOp::And, .. } => ands += 1,
            _ => {},
        }
    }
    assert_eq!((gts, lts, ands), (1, 1, 1));
}

#[test]
fn test_ir_if_else_makes_three_blocks_and_branches_on_compare() {
    let gen = generate_ir("fn check(x: Integer) { if x > 0 { return true; } else { return false; } }");
    // One module block, the function's entry, and then/else/merge.
    assert_eq!(gen.blocks, 5);
    let mut gt_dest = None;
    let mut branch = None;
    for (_, ins) in &gen.instrs {
        match ins {
            Instr::Binary { build: BuildOp::IcmpGt, dest, .. } => gt_dest = Some(*dest),
            Instr::CondBr { cond, then_target, else_target } => {
                branch = Some((*cond, *then_target, *else_target))
            },
            _ => {},
        }
    }
    let (cond, then_bb, else_bb) = branch.expect("no conditional branch emitted");
    assert_eq!(cond, gt_dest.expect("no compare emitted"));
    assert_ne!(then_bb, else_bb);
}

#[test]
fn test_ir_nested_call_inner_before_outer() {
    let gen = generate_ir(
        "fn multiply(a: Integer, b: Integer): Integer { return a * b; } \
         fn add(a: Integer, b: Integer): Integer { return a + b; } \
         let val = add(multiply(2, 3), 4);",
    );
    let calls: Vec<(Vec<char>, Vec<usize>, usize)> = gen
        .instrs
        .iter()
        .filter_map(|(_, ins)| match ins {
            Instr::Call { dest, callee, args } => Some((callee.clone(), args.clone(), *dest)),
            _ => None,
        })
        .collect();
    assert_eq!(calls.len(), 2);
    assert_eq!(calls[0].0, chars("multiply"));
    assert_eq!(calls[1].0, chars("add"));
    // The inner call's result is the outer call's first argument.
    assert_eq!(calls[1].1[0], calls[0].2);
}

#[test]
fn test_ir_undefined_symbol_error() {
    let p = parse_source("fn f() { x = 1; }");
    let mut gen = IRGenerator::new();
    let e = gen.generate(&p).expect_err("generation should fail");
    assert_eq!(e, ErrorType::UndefinedSymbol { name: chars("x") });
}

#[test]
fn test_ir_while_loop_shape() {
    let gen = generate_ir("fn f() { let i = 0; while i < 3 { i = i + 1; } }");
    // Module block, entry, header, body, exit.
    assert_eq!(gen.blocks, 5);
    let brs = gen
        .instrs
        .iter()
        .filter(|(_, ins)| matches!(ins, Instr::Br { .. }))
        .count();
    assert!(brs >= 2, "expected the back edge and the entry branch");
}

// ---------------------------------------------------------------------
// Symbol tables
// ---------------------------------------------------------------------

fn info(dt: DataType) -> SymbolInfo {
    SymbolInfo { data_type: dt, kind: SymbolKind::Variable, storage_slot: None }
}

#[test]
fn test_symbol_table_insert_and_get() {
    let mut t = SymbolTable::new();
    t.insert(chars("x"), info(DataType::Integer));
    assert_eq!(t.get(&chars("x")), Some(&info(DataType::Integer)));
    assert_eq!(t.get(&chars("y")), None);
}

#[test]
fn test_symbol_table_insert_overwrites() {
    let mut t = SymbolTable::new();
    t.insert(chars("x"), info(DataType::Integer));
    t.insert(chars("x"), info(DataType::Boolean));
    assert_eq!(t.get(&chars("x")), Some(&info(DataType::Boolean)));
}

#[test]
fn test_stack_push_pop_peek_size() {
    let mut s = SymbolTableStack::new();
    assert!(s.is_empty());
    assert_eq!(s.size(), 0);
    s.push(SymbolTable::new());
    s.push(SymbolTable::new());
    assert!(!s.is_empty());
    assert_eq!(s.size(), 2);
    assert!(s.peek().is_some());
    assert!(s.pop().is_some());
    assert_eq!(s.size(), 1);
    assert!(s.pop().is_some());
    assert!(s.pop().is_none());
}

#[test]
fn test_stack_lookup_prefers_inner_scope() {
    let mut s = SymbolTableStack::new();
    let mut outer = SymbolTable::new();
    outer.insert(chars("x"), info(DataType::Integer));
    let mut inner = SymbolTable::new();
    inner.insert(chars("x"), info(DataType::Boolean));
    s.push(outer);
    s.push(inner);
    assert_eq!(s.lookup(&chars("x")), Some(&info(DataType::Boolean)));
    s.pop();
    assert_eq!(s.lookup(&chars("x")), Some(&info(DataType::Integer)));
    assert_eq!(s.lookup(&chars("y")), None);
}

#[test]
fn test_insert_in_top_fails_on_empty_stack() {
    let mut s = SymbolTableStack::new();
    assert_eq!(
        s.insert_in_top(chars("x"), info(DataType::Integer)),
        Err(ErrorType::DevError {})
    );
}

// ---------------------------------------------------------------------
// Parser utilities and error values
// ---------------------------------------------------------------------

fn parser_on(tokens: Vec<Token>) -> Parser {
    Parser { input: tokens, current: 0, symbols: SymbolTableStack::new(), errors: Vec::new() }
}

#[test]
fn test_consume_type_accepts_type_tokens() {
    let mut p = parser_on(vec![Token::TINTEGER, Token::TBOOLEAN, Token::TFLOAT]);
    assert_eq!(p.consume_type(), Ok(DataType::Integer));
    assert_eq!(p.consume_type(), Ok(DataType::Boolean));
    assert_eq!(p.consume_type(), Ok(DataType::Float));
}

#[test]
fn test_consume_type_rejects_other_tokens() {
    let mut p = parser_on(vec![Token::PLUS]);
    assert_eq!(p.consume_type(), Err(ErrorType::DevError {}));
}

#[test]
fn test_operator_to_char() {
    let p = parser_on(vec![]);
    assert_eq!(p.operator_to_char(&Token::PLUS), '+');
    assert_eq!(p.operator_to_char(&Token::MINUS), '-');
    assert_eq!(p.operator_to_char(&Token::MULTIPLY), '*');
    assert_eq!(p.operator_to_char(&Token::DIVIDE), '/');
}

#[test]
fn test_type_mismatch_is_structural() {
    let a = ErrorType::TypeMismatch { expected: DataType::Integer, found: DataType::Boolean };
    let b = ErrorType::TypeMismatch { expected: DataType::Integer, found: DataType::Boolean };
    let c = ErrorType::TypeMismatch { expected: DataType::Boolean, found: DataType::Integer };
    assert_eq!(a, b);
    assert_ne!(a, c);
}

#[test]
fn test_lexer_comment_skipped() {
    let result = Lexer::lex("let x = 1; // trailing words\nlet y = 2;");
    let expected = vec![
        Token::LET,
        Token::IDENTIFIER(vec!['x']),
        Token::EQUAL,
        Token::INT(vec!['1']),
        Token::SEMICOLON,
        Token::LET,
        Token::IDENTIFIER(vec!['y']),
        Token::EQUAL,
        Token::INT(vec!['2']),
        Token::SEMICOLON,
        Token::EOF,
    ];
    assert_eq!(result, Ok(expected));
}

#[test]
fn test_lexer_string_and_char_literals() {
    let result = Lexer::lex("let s = \"hi\\n\"; let c = 'x';");
    let expected = vec![
        Token::LET,
        Token::IDENTIFIER(vec!['s']),
        Token::EQUAL,
        Token::STRING(vec!['h', 'i', '\n']),
        Token::SEMICOLON,
        Token::LET,
        Token::IDENTIFIER(vec!['c']),
        Token::EQUAL,
        Token::CHAR('x'),
        Token::SEMICOLON,
        Token::EOF,
    ];
    assert_eq!(result, Ok(expected));
}

#[test]
fn test_lexer_float_literal() {
    let result = Lexer::lex("3.14 2");
    let expected = vec![
        Token::FLOAT(vec!['3', '.', '1', '4']),
        Token::INT(vec!['2']),
        Token::EOF,
    ];
    assert_eq!(result, Ok(expected));
}

#[test]
fn test_lexer_reports_every_unrecognized_char() {
    let result = Lexer::lex("let $a = #;");
    let expected = Err(vec![
        ErrorType::UnrecognizedToken { token: "$".to_string() },
        ErrorType::UnrecognizedToken { token: "#".to_string() },
    ]);
    assert_eq!(result, expected);
}

#[test]
fn test_match_statement_parses() {
    let p = parse_source("fn f(x: Integer): Integer { match x { 1 => 10, 2 => 20 } return 0; }");
    match &p.items[0] {
        Item::Function(f) => match &f.body.statements[0] {
            Stmt::Match { arms, .. } => assert_eq!(arms.len(), 2),
            other => panic!("expected a match statement, got {:?}", other),
        },
        _ => panic!("expected a function"),
    }
}

#[test]
fn test_for_and_do_while_parse_and_lower() {
    let gen = generate_ir(
        "fn f() { for let i = 0; i < 3; i = i + 1 { let a = i; } do { let b = 1; } while 1 > 2; }",
    );
    assert!(gen.blocks >= 8);
}

#[test]
fn test_break_continue_lower_to_branches() {
    let gen = generate_ir("fn f() { while 1 < 2 { break; } while 1 < 2 { continue; } }");
    let brs = gen
        .instrs
        .iter()
        .filter(|(_, ins)| matches!(ins, Instr::Br { .. }))
        .count();
    assert!(brs >= 4);
}

#[test]
fn test_lex_empty_input_is_just_eof() {
    assert_eq!(Lexer::lex(""), Ok(vec![Token::EOF]));
}

#[test]
fn test_parse_empty_program() {
    let tokens = Lexer::lex("").expect("lexing failed");
    let p = Parser::parse(tokens).expect("parsing failed");
    assert!(p.items.is_empty());
}

#[test]
fn test_lexer_unterminated_string_is_error() {
    let result = Lexer::lex("\"abc");
    let expected = Err(vec![ErrorType::UnrecognizedToken { token: "\"".to_string() }]);
    assert_eq!(result, expected);
}

#[test]
fn test_exponent_above_multiplication() {
    let p = parse_source("let r = a * b ^ c;");
    let expected = bin(BinOp::Mul, var("a"), bin(BinOp::Exp, var("b"), var("c")));
    assert_eq!(first_initializer(&p), &expected);
}

#[test]
fn test_unary_in_conjunction() {
    // The prefix operator binds its operand before `&&` does.
    let gen = generate_ir("fn f(a: Boolean, b: Boolean): Boolean { return !a && b; }");
    let mut nots = 0;
    let mut ands = 0;
    for (_, ins) in &gen.instrs {
        match ins {
            Instr::Unary { .. } => nots += 1,
            Instr::Binary { build: BuildOp::And, .. } => ands += 1,
            _ => {},
        }
    }
    assert_eq!((nots, ands), (1, 1));
}
