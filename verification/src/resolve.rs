//! Scope correctness: every `Variable { name }` in the tree must resolve
//! at its position in a symbol-table stack built by a left-to-right walk
//! that declares every `let`, every parameter and every function at its
//! point of declaration. The spec functions below define that walk over
//! the scopes' name sets; `check_program` walks a real symbol-table stack
//! and is proved to decide exactly that property.

use vstd::prelude::*;
use crate::ast::{Block, Expr, FunctionDecl, Item, Param, Program, Stmt};
use crate::symbol_table::{DataType, SymbolInfo, SymbolInfoV, SymbolKind, SymbolTable,
    SymbolTableStack, stack_lookup};
use crate::chars::clone_chars;
use crate::parser::clone_data_type;

verus! {

/// A name resolves when some open scope declares it.
pub open spec fn resolves(scopes: Seq<Set<Seq<char>>>, name: Seq<char>) -> bool {
    exists|i: int| 0 <= i < scopes.len() && scopes[i].contains(name)
}

/// Declares a name in the innermost scope.
pub open spec fn declare_in_top(scopes: Seq<Set<Seq<char>>>, name: Seq<char>) -> Seq<
    Set<Seq<char>>,
> {
    if scopes.len() > 0 {
        scopes.update(scopes.len() - 1, scopes.last().insert(name))
    } else {
        scopes
    }
}

/// Every variable and callee in the expression resolves.
pub open spec fn expr_resolvable(e: Expr, scopes: Seq<Set<Seq<char>>>) -> bool
    decreases e,
{
    match e {
        Expr::Variable(n) => resolves(scopes, n@),
        Expr::Call { name, args } => resolves(scopes, name@) && (forall|i: int|
            0 <= i < args@.len() ==> expr_resolvable(#[trigger] args@[i], scopes)),
        Expr::Binary { left, right, .. } => expr_resolvable(*left, scopes) && expr_resolvable(
            *right,
            scopes,
        ),
        Expr::Unary { operand, .. } => expr_resolvable(*operand, scopes),
        _ => true,
    }
}

/// The scopes after a statement: a `let` declares its name, and a `for`
/// leaves behind whatever its init and step clauses declared; nothing else
/// changes the enclosing scopes.
pub open spec fn scope_after(s: Stmt, scopes: Seq<Set<Seq<char>>>) -> Seq<Set<Seq<char>>>
    decreases s,
{
    match s {
        Stmt::Let(b) => declare_in_top(scopes, b.name@),
        Stmt::For { init, step, .. } => scope_after(*step, scope_after(*init, scopes)),
        _ => scopes,
    }
}

/// Every name read by the statement resolves at its position in the walk.
pub open spec fn stmt_resolvable(s: Stmt, scopes: Seq<Set<Seq<char>>>) -> bool
    decreases s,
{
    match s {
        Stmt::Let(b) => expr_resolvable(b.initializer, scopes),
        Stmt::Assignment { name, value } => resolves(scopes, name@) && expr_resolvable(
            value,
            scopes,
        ),
        Stmt::If { cond, then_block, else_block } => expr_resolvable(cond, scopes)
            && block_resolvable(then_block, scopes) && (match else_block {
            Some(b) => block_resolvable(b, scopes),
            None => true,
        }),
        Stmt::While { cond, body } => expr_resolvable(cond, scopes) && block_resolvable(
            body,
            scopes,
        ),
        Stmt::For { init, cond, step, body } => stmt_resolvable(*init, scopes) && expr_resolvable(
            cond,
            scope_after(*init, scopes),
        ) && stmt_resolvable(*step, scope_after(*init, scopes)) && block_resolvable(
            body,
            scope_after(*step, scope_after(*init, scopes)),
        ),
        Stmt::DoWhile { body, cond } => block_resolvable(body, scopes) && expr_resolvable(
            cond,
            scopes,
        ),
        Stmt::Break => true,
        Stmt::Continue => true,
        Stmt::Return { value } => (match value {
            Some(e) => expr_resolvable(e, scopes),
            None => true,
        }),
        Stmt::Match { scrutinee, arms } => expr_resolvable(scrutinee, scopes) && (forall|i: int|
            0 <= i < arms@.len() ==> arm_resolvable(#[trigger] arms@[i], scopes)),
        Stmt::ExprStmt(e) => expr_resolvable(e, scopes),
    }
}

/// One match arm: its pattern, its guard when present, and its body.
pub open spec fn arm_resolvable(a: crate::ast::MatchArm, scopes: Seq<Set<Seq<char>>>) -> bool {
    expr_resolvable(a.pattern, scopes) && (match a.guard {
        Some(g) => expr_resolvable(g, scopes),
        None => true,
    }) && expr_resolvable(a.body, scopes)
}

/// A block opens a fresh scope for its statements and the walk declares
/// each `let` before the statements after it.
pub open spec fn block_resolvable(b: Block, scopes: Seq<Set<Seq<char>>>) -> bool
    decreases b,
{
    stmts_resolvable(b.statements@, scopes.push(Set::empty()))
}

/// The statements in order, each in the scopes its predecessors built.
pub open spec fn stmts_resolvable(ss: Seq<Stmt>, scopes: Seq<Set<Seq<char>>>) -> bool
    decreases ss,
{
    if ss.len() == 0 {
        true
    } else {
        stmt_resolvable(ss[0], scopes) && stmts_resolvable(
            ss.drop_first(),
            scope_after(ss[0], scopes),
        )
    }
}

/// The names of a parameter list, as one scope's worth of declarations.
pub open spec fn param_names(ps: Seq<Param>) -> Set<Seq<char>>
    decreases ps.len(),
{
    if ps.len() == 0 {
        Set::empty()
    } else {
        param_names(ps.drop_last()).insert(ps.last().name@)
    }
}

/// A function body resolves under a scope holding its parameters, inside
/// the scopes where the function stands declared.
pub open spec fn fn_resolvable(f: FunctionDecl, scopes: Seq<Set<Seq<char>>>) -> bool {
    block_resolvable(f.body, scopes.push(param_names(f.params@)))
}

/// The top-level items left to right: each function is declared before its
/// own body (so it can call itself), each top-level `let` after its
/// initializer.
pub open spec fn items_resolvable(items: Seq<Item>, scopes: Seq<Set<Seq<char>>>) -> bool
    decreases items,
{
    if items.len() == 0 {
        true
    } else {
        match items[0] {
            Item::Function(f) => fn_resolvable(f, declare_in_top(scopes, f.name@))
                && items_resolvable(items.drop_first(), declare_in_top(scopes, f.name@)),
            Item::Let(b) => expr_resolvable(b.initializer, scopes) && items_resolvable(
                items.drop_first(),
                declare_in_top(scopes, b.name@),
            ),
        }
    }
}

/// Scope correctness for a whole program, in one global scope.
pub open spec fn program_resolvable(p: Program) -> bool {
    items_resolvable(p.items@, seq![Set::<Seq<char>>::empty()])
}

/// The name sets a stack of symbol tables declares, scope for scope.
pub open spec fn doms(s: Seq<Map<Seq<char>, SymbolInfoV>>) -> Seq<Set<Seq<char>>> {
    s.map_values(|m: Map<Seq<char>, SymbolInfoV>| m.dom())
}

/// A stack lookup succeeds exactly when the name resolves in the stack's
/// name sets.
pub proof fn lemma_lookup_resolves(s: Seq<Map<Seq<char>, SymbolInfoV>>, name: Seq<char>)
    ensures
        (stack_lookup(s, name) is Some) == resolves(doms(s), name),
    decreases s.len(),
{
    if s.len() > 0 {
        lemma_lookup_resolves(s.drop_last(), name);
        assert(doms(s.drop_last()) =~= doms(s).drop_last());
        assert(doms(s)[s.len() - 1] == s.last().dom());
        if s.last().contains_key(name) {
            assert(doms(s)[s.len() - 1].contains(name));
        } else {
            if resolves(doms(s.drop_last()), name) {
                let i = choose|i: int|
                    0 <= i < doms(s.drop_last()).len() && doms(s.drop_last())[i].contains(name);
                assert(doms(s)[i].contains(name));
            }
            if resolves(doms(s), name) {
                let i = choose|i: int| 0 <= i < doms(s).len() && doms(s)[i].contains(name);
                if i < s.len() - 1 {
                    assert(doms(s.drop_last())[i].contains(name));
                }
            }
        }
    }
}

/// An arbitrary binding used while walking for resolvability alone.
fn walk_info(dt: DataType) -> (r: SymbolInfo) {
    SymbolInfo { data_type: dt, kind: SymbolKind::Variable, storage_slot: None }
}

/// Whether every name in the expression resolves in the given stack.
#[verifier::loop_isolation(false)]
pub fn check_expr(e: &Expr, stack: &SymbolTableStack) -> (r: bool)
    ensures
        r == expr_resolvable(*e, doms(stack@)),
    decreases *e,
{
    match e {
        Expr::Variable(n) => {
            let found = stack.lookup(n).is_some();
            proof {
                lemma_lookup_resolves(stack@, n@);
            }
            found
        },
        Expr::Call { name, args } => {
            let mut ok = stack.lookup(name).is_some();
            proof {
                lemma_lookup_resolves(stack@, name@);
            }
            let mut i: usize = 0;
            while i < args.len()
                invariant
                    i <= args@.len(),
                    ok == (resolves(doms(stack@), name@) && (forall|j: int|
                        0 <= j < i ==> expr_resolvable(#[trigger] args@[j], doms(stack@)))),
                decreases args@.len() - i,
            {
                let c = check_expr(&args[i], stack);
                ok = ok && c;
                i = i + 1;
            }
            ok
        },
        Expr::Binary { left, right, .. } => {
            let a = check_expr(left, stack);
            let b = check_expr(right, stack);
            a && b
        },
        Expr::Unary { operand, .. } => check_expr(operand, stack),
        _ => true,
    }
}

/// Walks one statement: decides its resolvability and performs exactly the
/// declarations the walk prescribes.
#[verifier::loop_isolation(false)]
pub fn check_stmt(s: &Stmt, stack: &mut SymbolTableStack) -> (r: bool)
    requires
        old(stack)@.len() > 0,
    ensures
        r == stmt_resolvable(*s, doms(old(stack)@)),
        doms(final(stack)@) == scope_after(*s, doms(old(stack)@)),
        final(stack)@.len() == old(stack)@.len(),
        final(stack)@.drop_last() == old(stack)@.drop_last(),
    decreases *s,
{
    match s {
        Stmt::Let(b) => {
            let ok = check_expr(&b.initializer, stack);
            let info = walk_info(DataType::Integer);
            let key = clone_chars(&b.name);
            let _ = stack.insert_in_top(key, info);
            proof {
                assert(doms(stack@) =~~= declare_in_top(doms(old(stack)@), b.name@));
                assert(stack@.drop_last() =~= old(stack)@.drop_last());
            }
            ok
        },
        Stmt::Assignment { name, value } => {
            let found = stack.lookup(name).is_some();
            proof {
                lemma_lookup_resolves(stack@, name@);
            }
            let ok = check_expr(value, stack);
            found && ok
        },
        Stmt::If { cond, then_block, else_block } => {
            let a = check_expr(cond, stack);
            let b = check_block(then_block, stack);
            let c = match else_block {
                Some(eb) => check_block(eb, stack),
                None => true,
            };
            a && b && c
        },
        Stmt::While { cond, body } => {
            let a = check_expr(cond, stack);
            let b = check_block(body, stack);
            a && b
        },
        Stmt::For { init, cond, step, body } => {
            let a = check_stmt(init, stack);
            let b = check_expr(cond, stack);
            let c = check_stmt(step, stack);
            let d = check_block(body, stack);
            a && b && c && d
        },
        Stmt::DoWhile { body, cond } => {
            let a = check_block(body, stack);
            let b = check_expr(cond, stack);
            a && b
        },
        Stmt::Break => true,
        Stmt::Continue => true,
        Stmt::Return { value } => {
            match value {
                Some(e) => check_expr(e, stack),
                None => true,
            }
        },
        Stmt::Match { scrutinee, arms } => {
            let mut ok = check_expr(scrutinee, stack);
            let mut i: usize = 0;
            while i < arms.len()
                invariant
                    i <= arms@.len(),
                    ok == (expr_resolvable(*scrutinee, doms(stack@)) && (forall|j: int|
                        0 <= j < i ==> arm_resolvable(#[trigger] arms@[j], doms(stack@)))),
                decreases arms@.len() - i,
            {
                let a = check_expr(&arms[i].pattern, stack);
                let g = match &arms[i].guard {
                    Some(ge) => check_expr(ge, stack),
                    None => true,
                };
                let bd = check_expr(&arms[i].body, stack);
                ok = ok && a && g && bd;
                i = i + 1;
            }
            ok
        },
        Stmt::ExprStmt(e) => check_expr(e, stack),
    }
}

/// Walks a block in a fresh scope, as the spec walk does.
#[verifier::loop_isolation(false)]
pub fn check_block(b: &Block, stack: &mut SymbolTableStack) -> (r: bool)
    requires
        old(stack)@.len() > 0,
    ensures
        r == block_resolvable(*b, doms(old(stack)@)),
        final(stack)@ == old(stack)@,
    decreases *b,
{
    stack.push(SymbolTable::new());
    proof {
        assert(doms(stack@) =~~= doms(old(stack)@).push(Set::empty()));
        assert(stack@.drop_last() =~= old(stack)@);
        assert(b.statements@.skip(0) =~= b.statements@);
    }
    let mut ok = true;
    let mut i: usize = 0;
    while i < b.statements.len()
        invariant
            i <= b.statements@.len(),
            stack@.len() == old(stack)@.len() + 1,
            stack@.drop_last() == old(stack)@,
            block_resolvable(*b, doms(old(stack)@)) == (ok && stmts_resolvable(
                b.statements@.skip(i as int),
                doms(stack@),
            )),
        decreases b.statements@.len() - i,
    {
        proof {
            assert(b.statements@.skip(i as int)[0] == b.statements@[i as int]);
            assert(b.statements@.skip(i as int).drop_first() =~= b.statements@.skip(i + 1 as int));
        }
        let c = check_stmt(&b.statements[i], stack);
        ok = ok && c;
        i = i + 1;
    }
    proof {
        assert(b.statements@.skip(b.statements@.len() as int).len() == 0);
    }
    stack.pop();
    proof {
        assert(final(stack)@ =~= old(stack)@);
    }
    ok
}

/// Walks one function: parameters in their own scope, then the body.
#[verifier::loop_isolation(false)]
pub fn check_function(f: &FunctionDecl, stack: &mut SymbolTableStack) -> (r: bool)
    requires
        old(stack)@.len() > 0,
    ensures
        r == fn_resolvable(*f, doms(old(stack)@)),
        final(stack)@ == old(stack)@,
{
    stack.push(SymbolTable::new());
    proof {
        assert(doms(stack@) =~~= doms(old(stack)@).push(param_names(f.params@.take(0))));
        assert(stack@.drop_last() =~= old(stack)@);
    }
    let mut i: usize = 0;
    while i < f.params.len()
        invariant
            i <= f.params@.len(),
            stack@.len() == old(stack)@.len() + 1,
            stack@.drop_last() == old(stack)@,
            doms(stack@) == doms(old(stack)@).push(param_names(f.params@.take(i as int))),
            stack@.len() > 0,
        decreases f.params@.len() - i,
    {
        let key = clone_chars(&f.params[i].name);
        let info = walk_info(clone_data_type(&f.params[i].data_type));
        let ghost prev = stack@;
        let ghost keyv = key@;
        let _ = stack.insert_in_top(key, info);
        proof {
            assert(f.params@.take(i + 1 as int).drop_last() =~= f.params@.take(i as int));
            assert(f.params@.take(i + 1 as int).last() == f.params@[i as int]);
            assert(doms(prev)[prev.len() - 1] == prev.last().dom());
            assert(stack@.last().dom() =~= prev.last().dom().insert(keyv));
            assert(doms(stack@) =~~= doms(old(stack)@).push(
                param_names(f.params@.take(i + 1 as int)),
            ));
            assert(stack@.drop_last() =~= old(stack)@);
        }
        i = i + 1;
    }
    proof {
        assert(f.params@.take(f.params@.len() as int) =~= f.params@);
    }
    let ok = check_block(&f.body, stack);
    stack.pop();
    proof {
        assert(final(stack)@ =~= old(stack)@);
    }
    ok
}

/// Decides scope correctness for a whole program: walks the items left to
/// right in one global scope, declaring functions, parameters and `let`
/// bindings exactly where the walk declares them.
#[verifier::loop_isolation(false)]
pub fn check_program(p: &Program) -> (r: bool)
    ensures
        r == program_resolvable(*p),
{
    let mut stack = SymbolTableStack::new();
    stack.push(SymbolTable::new());
    proof {
        assert(doms(stack@) =~~= seq![Set::<Seq<char>>::empty()]);
        assert(p.items@.skip(0) =~= p.items@);
    }
    let mut ok = true;
    let mut i: usize = 0;
    while i < p.items.len()
        invariant
            i <= p.items@.len(),
            stack@.len() == 1,
            program_resolvable(*p) == (ok && items_resolvable(
                p.items@.skip(i as int),
                doms(stack@),
            )),
        decreases p.items@.len() - i,
    {
        proof {
            assert(p.items@.skip(i as int)[0] == p.items@[i as int]);
            assert(p.items@.skip(i as int).drop_first() =~= p.items@.skip(i + 1 as int));
        }
        match &p.items[i] {
            Item::Function(f) => {
                let ghost before = doms(stack@);
                let key = clone_chars(&f.name);
                let info = walk_info(clone_data_type(&f.return_type));
                let _ = stack.insert_in_top(key, info);
                proof {
                    assert(doms(stack@) =~~= declare_in_top(before, f.name@));
                }
                let c = check_function(f, &mut stack);
                ok = ok && c;
            },
            Item::Let(b) => {
                let ghost before = doms(stack@);
                let c = check_expr(&b.initializer, &stack);
                let key = clone_chars(&b.name);
                let info = walk_info(DataType::Integer);
                let _ = stack.insert_in_top(key, info);
                proof {
                    assert(doms(stack@) =~~= declare_in_top(before, b.name@));
                }
                ok = ok && c;
            },
        }
        i = i + 1;
    }
    proof {
        assert(p.items@.skip(p.items@.len() as int).len() == 0);
    }
    ok
}

} // verus!
