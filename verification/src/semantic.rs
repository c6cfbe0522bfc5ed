//! Optimizing rewrites with preservation guarantees: constant folding,
//! expression simplification, dead-code elimination and loop
//! unrolling.  Each strategy returns a new tree together with its
//! preservation level and a count of applied changes.

use vstd::prelude::*;

use crate::bindings::Bindings;
use crate::ir::{
    clone_stmts, expr_eq, lemma_view_exprs_from, lemma_view_stmts_from, stmt_size,
    stmts_size_from, view_exprs, view_stmts, BinaryOperator, Expr, ExprV, Stmt, StmtV,
};

verus! {

/// The folded value of an arithmetic operator on two integer
/// literals, where it is defined for `i64`.  Comparison and logical
/// operators, division by zero and overflowing results are left
/// undefined: folding declines to apply there.
pub open spec fn arith_result(op: BinaryOperator, a: i64, b: i64) -> Option<i64> {
    match op {
        BinaryOperator::Add => a.checked_add(b),
        BinaryOperator::Sub => a.checked_sub(b),
        BinaryOperator::Mul => a.checked_mul(b),
        BinaryOperator::Div => a.checked_div(b),
        _ => None,
    }
}

/// What folding makes of an operator applied to two already folded
/// operands: the literal result where both are integer literals and
/// the operation is defined, the rebuilt operation otherwise.
pub open spec fn fold_binop(op: BinaryOperator, lf: ExprV, rf: ExprV) -> ExprV {
    match (lf, rf) {
        (ExprV::IntLiteral(a), ExprV::IntLiteral(b)) => match arith_result(op, a, b) {
            Some(v) => ExprV::IntLiteral(v),
            None => ExprV::BinaryOp(op, Box::new(lf), Box::new(rf)),
        },
        _ => ExprV::BinaryOp(op, Box::new(lf), Box::new(rf)),
    }
}

/// The constant folding of an expression under the constant
/// environment `env`: operands are folded recursively, identifier
/// references bound in `env` are replaced by their literal value, and
/// an operation on two integer literals is replaced by its result
/// where that result is defined.
pub open spec fn fold_expr(e: ExprV, env: Map<Seq<char>, i64>) -> ExprV
    decreases e, 0int,
{
    match e {
        ExprV::IntLiteral(_) => e,
        ExprV::StringLiteral(_) => e,
        ExprV::BoolLiteral(_) => e,
        ExprV::NullLiteral => e,
        ExprV::Identifier(name) => if env.contains_key(name) {
            ExprV::IntLiteral(env[name])
        } else {
            e
        },
        ExprV::BinaryOp(op, left, right) => fold_binop(
            op,
            fold_expr(*left, env),
            fold_expr(*right, env),
        ),
        ExprV::Call(name, args) => ExprV::Call(name, fold_exprs_from(args, env, 0)),
    }
}

/// The foldings of the expressions of `es` from `i` on, in order.
pub open spec fn fold_exprs_from(es: Seq<ExprV>, env: Map<Seq<char>, i64>, i: int) -> Seq<ExprV>
    decreases es, es.len() - i,
{
    if i < 0 || i >= es.len() {
        Seq::empty()
    } else {
        seq![fold_expr(es[i], env)] + fold_exprs_from(es, env, i + 1)
    }
}

/// `fold_exprs_from` is the pointwise folding of the suffix.
pub broadcast proof fn lemma_fold_exprs_from(es: Seq<ExprV>, env: Map<Seq<char>, i64>, i: int)
    requires
        0 <= i <= es.len(),
    ensures
        (#[trigger] fold_exprs_from(es, env, i)).len() == es.len() - i,
        forall|j: int|
            0 <= j < es.len() - i ==> fold_exprs_from(es, env, i)[j] == fold_expr(
                es[i + j],
                env,
            ),
    decreases es.len() - i,
{
    if i < es.len() {
        lemma_fold_exprs_from(es, env, i + 1);
        assert forall|j: int| 0 <= j < es.len() - i implies fold_exprs_from(es, env, i)[j]
            == fold_expr(es[i + j], env) by {
            if j > 0 {
                assert(fold_exprs_from(es, env, i)[j] == (seq![fold_expr(es[i], env)]
                    + fold_exprs_from(es, env, i + 1))[j]);
                assert((seq![fold_expr(es[i], env)] + fold_exprs_from(es, env, i + 1))[j]
                    == fold_exprs_from(es, env, i + 1)[j - 1]);
            }
        }
    }
}

/// Idempotence of constant folding: folding a second time changes
/// nothing.
pub proof fn lemma_fold_idempotent(e: ExprV, env: Map<Seq<char>, i64>)
    ensures
        fold_expr(fold_expr(e, env), env) == fold_expr(e, env),
    decreases e, 1int,
{
    match e {
        ExprV::BinaryOp(op, left, right) => {
            lemma_fold_idempotent(*left, env);
            lemma_fold_idempotent(*right, env);
        },
        ExprV::Call(name, args) => {
            lemma_fold_idempotent_exprs(args, env);
        },
        _ => {},
    }
}

proof fn lemma_fold_idempotent_exprs(es: Seq<ExprV>, env: Map<Seq<char>, i64>)
    ensures
        fold_exprs_from(fold_exprs_from(es, env, 0), env, 0) == fold_exprs_from(es, env, 0),
    decreases es, 0int,
{
    let once = fold_exprs_from(es, env, 0);
    let twice = fold_exprs_from(once, env, 0);
    lemma_fold_exprs_from(es, env, 0);
    lemma_fold_exprs_from(once, env, 0);
    assert forall|j: int| 0 <= j < once.len() implies #[trigger] twice[j] == once[j] by {
        lemma_fold_idempotent(es[j], env);
    }
    assert(twice =~= once);
}

/// The folding of a statement tree under `env`, with the number of
/// statements whose directly held expression changed.  The condition
/// of an `If` is folded but not counted.
pub open spec fn fold_stmt_rw(s: StmtV, env: Map<Seq<char>, i64>) -> (StmtV, nat)
    decreases s, 0int,
{
    match s {
        StmtV::VarDecl(n, e) => {
            let f = fold_expr(e, env);
            (StmtV::VarDecl(n, f), if f != e { 1nat } else { 0nat })
        },
        StmtV::Assign(n, e) => {
            let f = fold_expr(e, env);
            (StmtV::Assign(n, f), if f != e { 1nat } else { 0nat })
        },
        StmtV::If(c, t, e) => {
            let cf = fold_expr(c, env);
            let tr = fold_stmts_rw(t, env, 0);
            match e {
                Some(els) => {
                    let er = fold_stmts_rw(els, env, 0);
                    (StmtV::If(cf, tr.0, Some(er.0)), tr.1 + er.1)
                },
                None => (StmtV::If(cf, tr.0, None), tr.1),
            }
        },
        StmtV::Loop(count, body) => {
            let br = fold_stmts_rw(body, env, 0);
            (StmtV::Loop(count, br.0), br.1)
        },
        StmtV::Return(e) => {
            let f = fold_expr(e, env);
            (StmtV::Return(f), if f != e { 1nat } else { 0nat })
        },
        StmtV::ExpressionStatement(e) => {
            let f = fold_expr(e, env);
            (StmtV::ExpressionStatement(f), if f != e { 1nat } else { 0nat })
        },
        StmtV::FunctionDef(n, p, body) => {
            let br = fold_stmts_rw(body, env, 0);
            (StmtV::FunctionDef(n, p, br.0), br.1)
        },
        StmtV::Program(body) => {
            let br = fold_stmts_rw(body, env, 0);
            (StmtV::Program(br.0), br.1)
        },
    }
}

/// The foldings of the statements of `ss` from `i` on, with the total
/// change count.
pub open spec fn fold_stmts_rw(ss: Seq<StmtV>, env: Map<Seq<char>, i64>, i: int) -> (
    Seq<StmtV>,
    nat,
)
    decreases ss, ss.len() - i,
{
    if i < 0 || i >= ss.len() {
        (Seq::empty(), 0nat)
    } else {
        let h = fold_stmt_rw(ss[i], env);
        let t = fold_stmts_rw(ss, env, i + 1);
        (seq![h.0] + t.0, h.1 + t.1)
    }
}

/// The simplification of an expression, with the number of algebraic
/// identities applied: `x + 0`, `0 + x`, `x * 1`, `1 * x` reduce to
/// `x`, and `x * 0`, `0 * x` reduce to `0`, applied bottom-up after
/// recursing into subexpressions.
pub open spec fn simplify_expr_rw(e: ExprV) -> (ExprV, nat)
    decreases e,
{
    match e {
        ExprV::BinaryOp(op, left, right) => {
            let ls = simplify_expr_rw(*left);
            let rs = simplify_expr_rw(*right);
            let base = ls.1 + rs.1;
            if op == BinaryOperator::Add && rs.0 == ExprV::IntLiteral(0) {
                (ls.0, base + 1)
            } else if op == BinaryOperator::Add && ls.0 == ExprV::IntLiteral(0) {
                (rs.0, base + 1)
            } else if op == BinaryOperator::Mul && rs.0 == ExprV::IntLiteral(1) {
                (ls.0, base + 1)
            } else if op == BinaryOperator::Mul && ls.0 == ExprV::IntLiteral(1) {
                (rs.0, base + 1)
            } else if op == BinaryOperator::Mul && (rs.0 == ExprV::IntLiteral(0) || ls.0
                == ExprV::IntLiteral(0)) {
                (ExprV::IntLiteral(0), base + 1)
            } else {
                (ExprV::BinaryOp(op, Box::new(ls.0), Box::new(rs.0)), base)
            }
        },
        _ => (e, 0nat),
    }
}

/// The simplification of a statement: the directly held expression of
/// a declaration, assignment, return or expression statement is
/// simplified; any other statement is returned unchanged.
pub open spec fn simplify_stmt_rw(s: StmtV) -> (StmtV, nat) {
    match s {
        StmtV::VarDecl(n, e) => {
            let r = simplify_expr_rw(e);
            (StmtV::VarDecl(n, r.0), r.1)
        },
        StmtV::Assign(n, e) => {
            let r = simplify_expr_rw(e);
            (StmtV::Assign(n, r.0), r.1)
        },
        StmtV::Return(e) => {
            let r = simplify_expr_rw(e);
            (StmtV::Return(r.0), r.1)
        },
        StmtV::ExpressionStatement(e) => {
            let r = simplify_expr_rw(e);
            (StmtV::ExpressionStatement(r.0), r.1)
        },
        _ => (s, 0nat),
    }
}

/// The truth value of a literal condition, where it has one:
/// an integer literal is true when nonzero.
pub open spec fn const_cond(e: ExprV) -> Option<bool> {
    match e {
        ExprV::IntLiteral(v) => Some(v != 0),
        ExprV::BoolLiteral(b) => Some(b),
        _ => None,
    }
}

/// What replaces an `If` whose condition is literally true or false:
/// the taken branch collapsed to its single statement where it has
/// exactly one, an empty no-op expression statement where it is
/// empty, and otherwise an always-true or always-false shell that
/// keeps the statement-sequence shape.
pub open spec fn dce_taken(cond_true: bool, t: Seq<StmtV>, e: Option<Seq<StmtV>>) -> StmtV {
    let taken = if cond_true {
        t
    } else {
        match e {
            Some(els) => els,
            None => Seq::empty(),
        }
    };
    if taken.len() == 1 {
        taken[0]
    } else if taken.len() == 0 {
        StmtV::ExpressionStatement(ExprV::IntLiteral(0))
    } else if cond_true {
        StmtV::If(ExprV::IntLiteral(1), t, None)
    } else {
        StmtV::If(ExprV::IntLiteral(0), Seq::empty(), e)
    }
}

/// Dead-code elimination: an `If` whose condition is a literal
/// boolean or integer is replaced by its taken branch; one whose
/// condition is not literal keeps its shape with both branches
/// processed recursively.  Statements other than `If` are returned
/// unchanged.
pub open spec fn dce_stmt_rw(s: StmtV) -> (StmtV, nat)
    decreases s, 0int,
{
    match s {
        StmtV::If(cond, t, e) => match const_cond(cond) {
            Some(b) => (dce_taken(b, t, e), 1nat),
            None => {
                let tr = dce_stmts_rw(t, 0);
                match e {
                    Some(els) => {
                        let er = dce_stmts_rw(els, 0);
                        (StmtV::If(cond, tr.0, Some(er.0)), tr.1 + er.1)
                    },
                    None => (StmtV::If(cond, tr.0, None), tr.1),
                }
            },
        },
        _ => (s, 0nat),
    }
}

/// Dead-code elimination over the statements of `ss` from `i` on.
pub open spec fn dce_stmts_rw(ss: Seq<StmtV>, i: int) -> (Seq<StmtV>, nat)
    decreases ss, ss.len() - i,
{
    if i < 0 || i >= ss.len() {
        (Seq::empty(), 0nat)
    } else {
        let h = dce_stmt_rw(ss[i]);
        let t = dce_stmts_rw(ss, i + 1);
        (seq![h.0] + t.0, h.1 + t.1)
    }
}

/// `n` concatenated copies of `body`, in order.
pub open spec fn repeat_stmts(body: Seq<StmtV>, n: nat) -> Seq<StmtV>
    decreases n,
{
    if n == 0 {
        Seq::empty()
    } else {
        body + repeat_stmts(body, (n - 1) as nat)
    }
}

/// Loop unrolling: a loop whose statically known count lies in
/// `(0, max_unroll]` is replaced by its body repeated that many
/// times, wrapped in an always-true shell; a loop beyond the bound is
/// left untouched.  `If` branches are processed recursively; other
/// statements are returned unchanged.
pub open spec fn unroll_stmt_rw(s: StmtV, max_unroll: i64) -> (StmtV, nat)
    decreases s, 0int,
{
    match s {
        StmtV::Loop(count, body) => if 0 < count <= max_unroll {
            (StmtV::If(ExprV::IntLiteral(1), repeat_stmts(body, count as nat), None), 1nat)
        } else {
            (s, 0nat)
        },
        StmtV::If(cond, t, e) => {
            let tr = unroll_stmts_rw(t, max_unroll, 0);
            match e {
                Some(els) => {
                    let er = unroll_stmts_rw(els, max_unroll, 0);
                    (StmtV::If(cond, tr.0, Some(er.0)), tr.1 + er.1)
                },
                None => (StmtV::If(cond, tr.0, None), tr.1),
            }
        },
        _ => (s, 0nat),
    }
}

/// Loop unrolling over the statements of `ss` from `i` on.
pub open spec fn unroll_stmts_rw(ss: Seq<StmtV>, max_unroll: i64, i: int) -> (Seq<StmtV>, nat)
    decreases ss, ss.len() - i,
{
    if i < 0 || i >= ss.len() {
        (Seq::empty(), 0nat)
    } else {
        let h = unroll_stmt_rw(ss[i], max_unroll);
        let t = unroll_stmts_rw(ss, max_unroll, i + 1);
        (seq![h.0] + t.0, h.1 + t.1)
    }
}

/// The change count of folding never exceeds the tree size.
pub proof fn lemma_fold_count_bound(s: StmtV, env: Map<Seq<char>, i64>)
    ensures
        fold_stmt_rw(s, env).1 <= stmt_size(s),
    decreases s, 0int,
{
    match s {
        StmtV::If(c, t, e) => {
            lemma_fold_counts_bound(t, env, 0);
            match e {
                Some(els) => {
                    lemma_fold_counts_bound(els, env, 0);
                },
                None => {},
            }
        },
        StmtV::Loop(_, body) => {
            lemma_fold_counts_bound(body, env, 0);
        },
        StmtV::FunctionDef(_, _, body) => {
            lemma_fold_counts_bound(body, env, 0);
        },
        StmtV::Program(body) => {
            lemma_fold_counts_bound(body, env, 0);
        },
        _ => {},
    }
}

proof fn lemma_fold_counts_bound(ss: Seq<StmtV>, env: Map<Seq<char>, i64>, i: int)
    ensures
        fold_stmts_rw(ss, env, i).1 <= stmts_size_from(ss, i),
    decreases ss, ss.len() - i, 1int,
{
    if 0 <= i < ss.len() {
        lemma_fold_count_bound(ss[i], env);
        lemma_fold_counts_bound(ss, env, i + 1);
    }
}

/// The change count of dead-code elimination never exceeds the tree
/// size.
pub proof fn lemma_dce_count_bound(s: StmtV)
    ensures
        dce_stmt_rw(s).1 <= stmt_size(s),
    decreases s, 0int,
{
    match s {
        StmtV::If(c, t, e) => {
            lemma_dce_counts_bound(t, 0);
            match e {
                Some(els) => {
                    lemma_dce_counts_bound(els, 0);
                },
                None => {},
            }
        },
        _ => {},
    }
}

proof fn lemma_dce_counts_bound(ss: Seq<StmtV>, i: int)
    ensures
        dce_stmts_rw(ss, i).1 <= stmts_size_from(ss, i),
    decreases ss, ss.len() - i, 1int,
{
    if 0 <= i < ss.len() {
        lemma_dce_count_bound(ss[i]);
        lemma_dce_counts_bound(ss, i + 1);
    }
}

/// The change count of loop unrolling never exceeds the tree size.
pub proof fn lemma_unroll_count_bound(s: StmtV, max_unroll: i64)
    ensures
        unroll_stmt_rw(s, max_unroll).1 <= stmt_size(s),
    decreases s, 0int,
{
    match s {
        StmtV::If(c, t, e) => {
            lemma_unroll_counts_bound(t, max_unroll, 0);
            match e {
                Some(els) => {
                    lemma_unroll_counts_bound(els, max_unroll, 0);
                },
                None => {},
            }
        },
        _ => {},
    }
}

proof fn lemma_unroll_counts_bound(ss: Seq<StmtV>, max_unroll: i64, i: int)
    ensures
        unroll_stmts_rw(ss, max_unroll, i).1 <= stmts_size_from(ss, i),
    decreases ss, ss.len() - i, 1int,
{
    if 0 <= i < ss.len() {
        lemma_unroll_count_bound(ss[i], max_unroll);
        lemma_unroll_counts_bound(ss, max_unroll, i + 1);
    }
}

/// The identity count of simplification never exceeds the expression
/// size.
pub proof fn lemma_simplify_count_bound(e: ExprV)
    ensures
        simplify_expr_rw(e).1 <= crate::ir::expr_size(e),
    decreases e,
{
    match e {
        ExprV::BinaryOp(_, left, right) => {
            lemma_simplify_count_bound(*left);
            lemma_simplify_count_bound(*right);
        },
        _ => {},
    }
}

/// `fold_stmts_rw` is the pointwise folding of the suffix.
pub broadcast proof fn lemma_fold_stmts_rw(ss: Seq<StmtV>, env: Map<Seq<char>, i64>, i: int)
    requires
        0 <= i <= ss.len(),
    ensures
        (#[trigger] fold_stmts_rw(ss, env, i)).0.len() == ss.len() - i,
        forall|j: int|
            0 <= j < ss.len() - i ==> fold_stmts_rw(ss, env, i).0[j] == fold_stmt_rw(
                ss[i + j],
                env,
            ).0,
    decreases ss.len() - i,
{
    if i < ss.len() {
        lemma_fold_stmts_rw(ss, env, i + 1);
        assert forall|j: int| 0 <= j < ss.len() - i implies fold_stmts_rw(ss, env, i).0[j]
            == fold_stmt_rw(ss[i + j], env).0 by {
            if j > 0 {
                assert(fold_stmts_rw(ss, env, i).0[j] == (seq![fold_stmt_rw(ss[i], env).0]
                    + fold_stmts_rw(ss, env, i + 1).0)[j]);
                assert((seq![fold_stmt_rw(ss[i], env).0] + fold_stmts_rw(ss, env, i + 1).0)[j]
                    == fold_stmts_rw(ss, env, i + 1).0[j - 1]);
            }
        }
    }
}

/// `dce_stmts_rw` is the pointwise elimination of the suffix.
pub broadcast proof fn lemma_dce_stmts_rw(ss: Seq<StmtV>, i: int)
    requires
        0 <= i <= ss.len(),
    ensures
        (#[trigger] dce_stmts_rw(ss, i)).0.len() == ss.len() - i,
        forall|j: int|
            0 <= j < ss.len() - i ==> dce_stmts_rw(ss, i).0[j] == dce_stmt_rw(ss[i + j]).0,
    decreases ss.len() - i,
{
    if i < ss.len() {
        lemma_dce_stmts_rw(ss, i + 1);
        assert forall|j: int| 0 <= j < ss.len() - i implies dce_stmts_rw(ss, i).0[j]
            == dce_stmt_rw(ss[i + j]).0 by {
            if j > 0 {
                assert(dce_stmts_rw(ss, i).0[j] == (seq![dce_stmt_rw(ss[i]).0] + dce_stmts_rw(
                    ss,
                    i + 1,
                ).0)[j]);
                assert((seq![dce_stmt_rw(ss[i]).0] + dce_stmts_rw(ss, i + 1).0)[j]
                    == dce_stmts_rw(ss, i + 1).0[j - 1]);
            }
        }
    }
}

/// `unroll_stmts_rw` is the pointwise unrolling of the suffix.
pub broadcast proof fn lemma_unroll_stmts_rw(ss: Seq<StmtV>, max_unroll: i64, i: int)
    requires
        0 <= i <= ss.len(),
    ensures
        (#[trigger] unroll_stmts_rw(ss, max_unroll, i)).0.len() == ss.len() - i,
        forall|j: int|
            0 <= j < ss.len() - i ==> unroll_stmts_rw(ss, max_unroll, i).0[j] == unroll_stmt_rw(
                ss[i + j],
                max_unroll,
            ).0,
    decreases ss.len() - i,
{
    if i < ss.len() {
        lemma_unroll_stmts_rw(ss, max_unroll, i + 1);
        assert forall|j: int| 0 <= j < ss.len() - i implies unroll_stmts_rw(ss, max_unroll, i).0[j]
            == unroll_stmt_rw(ss[i + j], max_unroll).0 by {
            if j > 0 {
                assert(unroll_stmts_rw(ss, max_unroll, i).0[j] == (seq![unroll_stmt_rw(
                    ss[i],
                    max_unroll,
                ).0] + unroll_stmts_rw(ss, max_unroll, i + 1).0)[j]);
                assert((seq![unroll_stmt_rw(ss[i], max_unroll).0] + unroll_stmts_rw(
                    ss,
                    max_unroll,
                    i + 1,
                ).0)[j] == unroll_stmts_rw(ss, max_unroll, i + 1).0[j - 1]);
            }
        }
    }
}

/// `repeat_stmts(body, n)` is exactly `n` concatenated copies of
/// `body`: it has `n * body.len()` statements, and the `c`-th block
/// of `body.len()` statements reads exactly `body`.
pub proof fn lemma_repeat_stmts(body: Seq<StmtV>, n: nat)
    ensures
        repeat_stmts(body, n).len() == n * body.len(),
        forall|c: int|
            0 <= c < n ==> #[trigger] repeat_stmts(body, n).subrange(
                c * (body.len() as int),
                (c + 1) * (body.len() as int),
            ) == body,
    decreases n,
{
    let l = body.len() as int;
    if n > 0 {
        lemma_repeat_stmts(body, (n - 1) as nat);
        let r1 = repeat_stmts(body, (n - 1) as nat);
        let r = repeat_stmts(body, n);
        assert(r == body + r1);
        assert(r.len() == n * l) by (nonlinear_arith)
            requires
                r.len() == l + r1.len(),
                r1.len() == (n - 1) * l,
                n >= 1,
        ;
        assert forall|c: int| 0 <= c < n implies #[trigger] r.subrange(c * l, (c + 1) * l)
            == body by {
            if c == 0 {
                assert(c * l == 0) by (nonlinear_arith)
                    requires
                        c == 0,
                ;
                assert((c + 1) * l == l) by (nonlinear_arith)
                    requires
                        c == 0,
                ;
                assert(r.subrange(c * l, (c + 1) * l) =~= body);
            } else {
                let c1 = c - 1;
                assert(r1.subrange(c1 * l, (c1 + 1) * l) == body);
                assert((c1 + 1) * l == c1 * l + l) by (nonlinear_arith);
                assert((c + 1) * l == c * l + l) by (nonlinear_arith);
                assert(c * l >= l) by (nonlinear_arith)
                    requires
                        c >= 1,
                        l >= 0,
                ;
                assert((c + 1) * l <= n * l) by (nonlinear_arith)
                    requires
                        c + 1 <= n,
                        l >= 0,
                ;
                assert(r.subrange(c * l, (c + 1) * l) =~= r1.subrange(c1 * l, (c1 + 1) * l));
            }
        }
    }
}

/// Unroll count invariant: a loop whose count lies in
/// `(0, max_unroll]` unrolls to exactly that many concatenated copies
/// of its body inside an always-true shell, counted as one change; a
/// loop whose count exceeds `max_unroll` is returned unchanged with
/// zero changes.
pub proof fn lemma_unroll_count_invariant(count: i64, body: Seq<StmtV>, max_unroll: i64)
    ensures
        0 < count <= max_unroll ==> unroll_stmt_rw(StmtV::Loop(count, body), max_unroll)
            == (
            StmtV::If(ExprV::IntLiteral(1), repeat_stmts(body, count as nat), None),
            1nat,
        ),
        0 < count <= max_unroll ==> repeat_stmts(body, count as nat).len() == count * body.len(),
        count > max_unroll ==> unroll_stmt_rw(StmtV::Loop(count, body), max_unroll) == (
            StmtV::Loop(count, body),
            0nat,
        ),
{
    if 0 < count <= max_unroll {
        lemma_repeat_stmts(body, count as nat);
    }
}

/// Dead-code elimination on an always-true condition: an `If` whose
/// condition is the literal `1`, with a single then-statement,
/// reduces to exactly that statement, discarding the else branch
/// entirely, with one change counted.
pub proof fn lemma_dce_always_true(s1: StmtV, s2: StmtV)
    ensures
        dce_stmt_rw(StmtV::If(ExprV::IntLiteral(1), seq![s1], Some(seq![s2]))) == (s1, 1nat),
{
    assert(seq![s1].len() == 1);
    assert(seq![s1][0] == s1);
}

/// `repeat_stmts` grows by one copy of `body` at the back.
proof fn lemma_repeat_snoc(body: Seq<StmtV>, n: nat)
    ensures
        repeat_stmts(body, n + 1) == repeat_stmts(body, n) + body,
    decreases n,
{
    if n == 0 {
        assert(repeat_stmts(body, 1) =~= repeat_stmts(body, 0) + body);
    } else {
        lemma_repeat_snoc(body, (n - 1) as nat);
        assert(repeat_stmts(body, n + 1) == body + repeat_stmts(body, n));
        assert(body + (repeat_stmts(body, (n - 1) as nat) + body) =~= (body + repeat_stmts(
            body,
            (n - 1) as nat,
        )) + body);
    }
}

/// Rewrite strategies of the semantic transformer.
#[derive(Clone, Copy, Debug, PartialEq, Eq, Structural)]
pub enum TransformationType {
    /// Fold constant expressions.
    ConstantFolding,
    /// Remove branches whose condition is literally decided.
    DeadCodeElimination,
    /// Unroll bounded loops.
    LoopUnrolling,
    /// Inline function calls (placeholder passthrough).
    FunctionInlining,
    /// Apply local algebraic identities.
    ExpressionSimplification,
}

/// Semantic preservation guarantee level of a rewrite strategy.
#[derive(Clone, Copy, Debug, PartialEq, Eq, PartialOrd, Ord, Structural)]
pub enum PreservationLevel {
    /// Guaranteed to preserve semantics.
    Guaranteed,
    /// Likely preserves semantics (heuristic).
    Likely,
    /// May change semantics; callers must not rely on it.
    Unsafe,
}

/// The preservation level that each strategy carries.
pub open spec fn preservation_of(t: TransformationType) -> PreservationLevel {
    match t {
        TransformationType::ConstantFolding => PreservationLevel::Guaranteed,
        TransformationType::ExpressionSimplification => PreservationLevel::Guaranteed,
        TransformationType::DeadCodeElimination => PreservationLevel::Likely,
        TransformationType::LoopUnrolling => PreservationLevel::Likely,
        TransformationType::FunctionInlining => PreservationLevel::Unsafe,
    }
}

/// The tree and change count that a strategy produces on a statement.
pub open spec fn transform_rw(
    t: TransformationType,
    s: StmtV,
    env: Map<Seq<char>, i64>,
    max_unroll: i64,
) -> (StmtV, nat) {
    match t {
        TransformationType::ConstantFolding => fold_stmt_rw(s, env),
        TransformationType::DeadCodeElimination => dce_stmt_rw(s),
        TransformationType::LoopUnrolling => unroll_stmt_rw(s, max_unroll),
        TransformationType::ExpressionSimplification => simplify_stmt_rw(s),
        TransformationType::FunctionInlining => (s, 0nat),
    }
}

/// The result of one rewrite strategy on one statement tree.
#[derive(Debug)]
pub struct TransformationResult {
    /// The new tree.
    pub transformed: Stmt,
    /// The strategy that was applied.
    pub transformation_type: TransformationType,
    /// The guarantee that the strategy carries.
    pub preservation_level: PreservationLevel,
    /// How many changes the strategy applied.
    pub changes_applied: usize,
}

/// Optimizing tree rewriter with a constant environment and a loop
/// unrolling bound.
pub struct SemanticTransformer {
    constants: Bindings,
    max_unroll: i64,
}

impl SemanticTransformer {
    /// The constant environment: names known to hold a constant value.
    pub closed spec fn constants_map(&self) -> Map<Seq<char>, i64> {
        self.constants@
    }

    /// The largest loop count that unrolling will expand.
    pub closed spec fn max_unroll_spec(&self) -> i64 {
        self.max_unroll
    }

    /// A transformer with no known constants and the default unroll
    /// bound of 8.
    pub fn new() -> (r: SemanticTransformer)
        ensures
            r.constants_map() == Map::<Seq<char>, i64>::empty(),
            r.max_unroll_spec() == 8,
    {
        SemanticTransformer { constants: Bindings::new(), max_unroll: 8 }
    }

    /// The same transformer with the unroll bound replaced.
    pub fn with_max_unroll(self, max_unroll: i64) -> (r: SemanticTransformer)
        ensures
            r.constants_map() == self.constants_map(),
            r.max_unroll_spec() == max_unroll,
    {
        SemanticTransformer { constants: self.constants, max_unroll }
    }

    /// Marks `name` as holding the constant `value`.
    pub fn mark_constant(&mut self, name: String, value: i64)
        ensures
            final(self).constants_map() == old(self).constants_map().insert(name@, value),
            final(self).max_unroll_spec() == old(self).max_unroll_spec(),
    {
        self.constants.set(name, value);
    }

    /// Applies constant folding to one expression.
    pub fn constant_fold(&self, expr: &Expr) -> (r: Expr)
        ensures
            r@ == fold_expr(expr@, self.constants_map()),
        decreases expr,
    {
        match expr {
            Expr::IntLiteral(n) => Expr::IntLiteral(*n),
            Expr::StringLiteral(s) => Expr::StringLiteral(s.clone()),
            Expr::BoolLiteral(b) => Expr::BoolLiteral(*b),
            Expr::NullLiteral => Expr::NullLiteral,
            Expr::Identifier(name) => match self.constants.get(name) {
                Some(v) => Expr::IntLiteral(v),
                None => Expr::Identifier(name.clone()),
            },
            Expr::BinaryOp { operator, left, right } => {
                let lf = self.constant_fold(left);
                let rf = self.constant_fold(right);
                let folded: Option<i64> = match (&lf, &rf) {
                    (Expr::IntLiteral(a), Expr::IntLiteral(b)) => match operator {
                        BinaryOperator::Add => a.checked_add(*b),
                        BinaryOperator::Sub => a.checked_sub(*b),
                        BinaryOperator::Mul => a.checked_mul(*b),
                        BinaryOperator::Div => a.checked_div(*b),
                        _ => None,
                    },
                    _ => None,
                };
                match folded {
                    Some(v) => Expr::IntLiteral(v),
                    None => Expr::BinaryOp {
                        operator: *operator,
                        left: Box::new(lf),
                        right: Box::new(rf),
                    },
                }
            },
            Expr::Call { function_name, arguments } => Expr::Call {
                function_name: function_name.clone(),
                arguments: self.fold_exprs_exec(arguments),
            },
        }
    }

    fn fold_exprs_exec(&self, es: &Vec<Expr>) -> (r: Vec<Expr>)
        ensures
            view_exprs(r@) == fold_exprs_from(view_exprs(es@), self.constants_map(), 0),
        decreases es@,
    {
        let mut out: Vec<Expr> = Vec::new();
        let mut i: usize = 0;
        while i < es.len()
            invariant
                i <= es@.len(),
                out@.len() == i,
                forall|j: int|
                    0 <= j < i ==> out@[j]@ == fold_expr(es@[j]@, self.constants_map()),
            decreases es@.len() - i,
        {
            out.push(self.constant_fold(&es[i]));
            i += 1;
        }
        proof {
            lemma_view_exprs_from(es@, 0);
            lemma_view_exprs_from(out@, 0);
            lemma_fold_exprs_from(view_exprs(es@), self.constants_map(), 0);
            assert(view_exprs(out@) =~= fold_exprs_from(view_exprs(es@), self.constants_map(), 0));
        }
        out
    }

    fn fold_stmt_exec(&self, s: &Stmt) -> (r: (Stmt, usize))
        requires
            stmt_size(s@) <= usize::MAX,
        ensures
            r.0@ == fold_stmt_rw(s@, self.constants_map()).0,
            r.1 as nat == fold_stmt_rw(s@, self.constants_map()).1,
        decreases s,
    {
        match s {
            Stmt::VarDecl { name, initializer } => {
                let f = self.constant_fold(initializer);
                let changed: usize = if !expr_eq(&f, initializer) {
                    1
                } else {
                    0
                };
                (Stmt::VarDecl { name: name.clone(), initializer: f }, changed)
            },
            Stmt::Assign { target_name, value } => {
                let f = self.constant_fold(value);
                let changed: usize = if !expr_eq(&f, value) {
                    1
                } else {
                    0
                };
                (Stmt::Assign { target_name: target_name.clone(), value: f }, changed)
            },
            Stmt::If { condition, then_branch, else_branch } => {
                let cf = self.constant_fold(condition);
                let (tf, tc) = self.fold_stmts_exec(then_branch);
                match else_branch {
                    Some(els) => {
                        let (ef, ec) = self.fold_stmts_exec(els);
                        proof {
                            lemma_fold_counts_bound(
                                view_stmts(then_branch@),
                                self.constants_map(),
                                0,
                            );
                            lemma_fold_counts_bound(view_stmts(els@), self.constants_map(), 0);
                        }
                        (
                            Stmt::If {
                                condition: cf,
                                then_branch: tf,
                                else_branch: Some(ef),
                            },
                            tc + ec,
                        )
                    },
                    None => (
                        Stmt::If { condition: cf, then_branch: tf, else_branch: None },
                        tc,
                    ),
                }
            },
            Stmt::Loop { iteration_count, body } => {
                let (bf, bc) = self.fold_stmts_exec(body);
                (Stmt::Loop { iteration_count: *iteration_count, body: bf }, bc)
            },
            Stmt::Return(e) => {
                let f = self.constant_fold(e);
                let changed: usize = if !expr_eq(&f, e) {
                    1
                } else {
                    0
                };
                (Stmt::Return(f), changed)
            },
            Stmt::ExpressionStatement(e) => {
                let f = self.constant_fold(e);
                let changed: usize = if !expr_eq(&f, e) {
                    1
                } else {
                    0
                };
                (Stmt::ExpressionStatement(f), changed)
            },
            Stmt::FunctionDef { name, parameters, body } => {
                let (bf, bc) = self.fold_stmts_exec(body);
                (
                    Stmt::FunctionDef {
                        name: name.clone(),
                        parameters: crate::ir::clone_names(parameters),
                        body: bf,
                    },
                    bc,
                )
            },
            Stmt::Program(body) => {
                let (bf, bc) = self.fold_stmts_exec(body);
                (Stmt::Program(bf), bc)
            },
        }
    }

    fn fold_stmts_exec(&self, ss: &Vec<Stmt>) -> (r: (Vec<Stmt>, usize))
        requires
            stmts_size_from(view_stmts(ss@), 0) <= usize::MAX,
        ensures
            view_stmts(r.0@) == fold_stmts_rw(view_stmts(ss@), self.constants_map(), 0).0,
            r.1 as nat == fold_stmts_rw(view_stmts(ss@), self.constants_map(), 0).1,
        decreases ss@,
    {
        let ghost v = view_stmts(ss@);
        let ghost env = self.constants_map();
        proof {
            lemma_view_stmts_from(ss@, 0);
        }
        let mut out: Vec<Stmt> = Vec::new();
        let mut changes: usize = 0;
        let mut i: usize = 0;
        while i < ss.len()
            invariant
                i <= ss@.len(),
                v == view_stmts(ss@),
                env == self.constants_map(),
                v.len() == ss@.len(),
                forall|j: int| 0 <= j < ss@.len() ==> v[j] == ss@[j]@,
                stmts_size_from(v, 0) <= usize::MAX,
                out@.len() == i,
                forall|j: int| 0 <= j < i ==> out@[j]@ == fold_stmt_rw(v[j], env).0,
                changes as nat + fold_stmts_rw(v, env, i as int).1 == fold_stmts_rw(v, env, 0).1,
            decreases ss@.len() - i,
        {
            proof {
                crate::ir::lemma_stmts_size_from_bounds(v, i as int);
                lemma_fold_counts_bound(v, env, 0);
                lemma_fold_counts_bound(v, env, i as int);
            }
            let (f, c) = self.fold_stmt_exec(&ss[i]);
            out.push(f);
            changes += c;
            i += 1;
        }
        proof {
            lemma_view_stmts_from(out@, 0);
            lemma_fold_stmts_rw(v, env, 0);
            assert(view_stmts(out@) =~= fold_stmts_rw(v, env, 0).0);
        }
        (out, changes)
    }
}

/// Tests whether an expression is exactly the integer literal `v`.
fn is_int_lit(e: &Expr, v: i64) -> (r: bool)
    ensures
        r == (e@ == ExprV::IntLiteral(v)),
{
    match e {
        Expr::IntLiteral(x) => *x == v,
        _ => false,
    }
}

impl SemanticTransformer {
    /// Applies the algebraic identities to one expression, returning
    /// the simplified expression and the number of identities applied.
    pub fn simplify_expr(&self, expr: &Expr) -> (r: (Expr, usize))
        requires
            crate::ir::expr_size(expr@) <= usize::MAX,
        ensures
            r.0@ == simplify_expr_rw(expr@).0,
            r.1 as nat == simplify_expr_rw(expr@).1,
        decreases expr,
    {
        match expr {
            Expr::BinaryOp { operator, left, right } => {
                let (ls, lc) = self.simplify_expr(left);
                let (rs, rc) = self.simplify_expr(right);
                proof {
                    lemma_simplify_count_bound((**left)@);
                    lemma_simplify_count_bound((**right)@);
                }
                if *operator == BinaryOperator::Add && is_int_lit(&rs, 0) {
                    (ls, lc + rc + 1)
                } else if *operator == BinaryOperator::Add && is_int_lit(&ls, 0) {
                    (rs, lc + rc + 1)
                } else if *operator == BinaryOperator::Mul && is_int_lit(&rs, 1) {
                    (ls, lc + rc + 1)
                } else if *operator == BinaryOperator::Mul && is_int_lit(&ls, 1) {
                    (rs, lc + rc + 1)
                } else if *operator == BinaryOperator::Mul && (is_int_lit(&rs, 0) || is_int_lit(
                    &ls,
                    0,
                )) {
                    (Expr::IntLiteral(0), lc + rc + 1)
                } else {
                    (
                        Expr::BinaryOp {
                            operator: *operator,
                            left: Box::new(ls),
                            right: Box::new(rs),
                        },
                        lc + rc,
                    )
                }
            },
            _ => (expr.deep_clone(), 0),
        }
    }

    fn simplify_stmt_exec(&self, s: &Stmt) -> (r: (Stmt, usize))
        requires
            stmt_size(s@) <= usize::MAX,
        ensures
            r.0@ == simplify_stmt_rw(s@).0,
            r.1 as nat == simplify_stmt_rw(s@).1,
    {
        match s {
            Stmt::VarDecl { name, initializer } => {
                let (e, c) = self.simplify_expr(initializer);
                (Stmt::VarDecl { name: name.clone(), initializer: e }, c)
            },
            Stmt::Assign { target_name, value } => {
                let (e, c) = self.simplify_expr(value);
                (Stmt::Assign { target_name: target_name.clone(), value: e }, c)
            },
            Stmt::Return(inner) => {
                let (e, c) = self.simplify_expr(inner);
                (Stmt::Return(e), c)
            },
            Stmt::ExpressionStatement(inner) => {
                let (e, c) = self.simplify_expr(inner);
                (Stmt::ExpressionStatement(e), c)
            },
            _ => (s.deep_clone(), 0),
        }
    }

    fn dce_stmt_exec(&self, s: &Stmt) -> (r: (Stmt, usize))
        requires
            stmt_size(s@) <= usize::MAX,
        ensures
            r.0@ == dce_stmt_rw(s@).0,
            r.1 as nat == dce_stmt_rw(s@).1,
        decreases s,
    {
        match s {
            Stmt::If { condition, then_branch, else_branch } => {
                proof {
                    lemma_view_stmts_from(then_branch@, 0);
                }
                let cond_literal: Option<bool> = match condition {
                    Expr::IntLiteral(v) => Some(*v != 0),
                    Expr::BoolLiteral(b) => Some(*b),
                    _ => None,
                };
                match cond_literal {
                    Some(truth) => {
                        let taken_stmt: Stmt;
                        if truth {
                            if then_branch.len() == 1 {
                                taken_stmt = then_branch[0].deep_clone();
                            } else if then_branch.len() == 0 {
                                taken_stmt = Stmt::ExpressionStatement(Expr::IntLiteral(0));
                            } else {
                                taken_stmt = Stmt::If {
                                    condition: Expr::IntLiteral(1),
                                    then_branch: clone_stmts(then_branch),
                                    else_branch: None,
                                };
                            }
                        } else {
                            match else_branch {
                                Some(els) => {
                                    proof {
                                        lemma_view_stmts_from(els@, 0);
                                    }
                                    if els.len() == 1 {
                                        taken_stmt = els[0].deep_clone();
                                    } else if els.len() == 0 {
                                        taken_stmt = Stmt::ExpressionStatement(
                                            Expr::IntLiteral(0),
                                        );
                                    } else {
                                        let empty_then: Vec<Stmt> = Vec::new();
                                        taken_stmt = Stmt::If {
                                            condition: Expr::IntLiteral(0),
                                            then_branch: empty_then,
                                            else_branch: Some(clone_stmts(els)),
                                        };
                                    }
                                },
                                None => {
                                    taken_stmt = Stmt::ExpressionStatement(Expr::IntLiteral(0));
                                },
                            }
                        }
                        (taken_stmt, 1)
                    },
                    None => {
                        let (tf, tc) = self.dce_stmts_exec(then_branch);
                        match else_branch {
                            Some(els) => {
                                let (ef, ec) = self.dce_stmts_exec(els);
                                proof {
                                    lemma_dce_counts_bound(view_stmts(then_branch@), 0);
                                    lemma_dce_counts_bound(view_stmts(els@), 0);
                                }
                                (
                                    Stmt::If {
                                        condition: condition.deep_clone(),
                                        then_branch: tf,
                                        else_branch: Some(ef),
                                    },
                                    tc + ec,
                                )
                            },
                            None => (
                                Stmt::If {
                                    condition: condition.deep_clone(),
                                    then_branch: tf,
                                    else_branch: None,
                                },
                                tc,
                            ),
                        }
                    },
                }
            },
            _ => (s.deep_clone(), 0),
        }
    }

    fn dce_stmts_exec(&self, ss: &Vec<Stmt>) -> (r: (Vec<Stmt>, usize))
        requires
            stmts_size_from(view_stmts(ss@), 0) <= usize::MAX,
        ensures
            view_stmts(r.0@) == dce_stmts_rw(view_stmts(ss@), 0).0,
            r.1 as nat == dce_stmts_rw(view_stmts(ss@), 0).1,
        decreases ss@,
    {
        let ghost v = view_stmts(ss@);
        proof {
            lemma_view_stmts_from(ss@, 0);
        }
        let mut out: Vec<Stmt> = Vec::new();
        let mut changes: usize = 0;
        let mut i: usize = 0;
        while i < ss.len()
            invariant
                i <= ss@.len(),
                v == view_stmts(ss@),
                v.len() == ss@.len(),
                forall|j: int| 0 <= j < ss@.len() ==> v[j] == ss@[j]@,
                stmts_size_from(v, 0) <= usize::MAX,
                out@.len() == i,
                forall|j: int| 0 <= j < i ==> out@[j]@ == dce_stmt_rw(v[j]).0,
                changes as nat + dce_stmts_rw(v, i as int).1 == dce_stmts_rw(v, 0).1,
            decreases ss@.len() - i,
        {
            proof {
                crate::ir::lemma_stmts_size_from_bounds(v, i as int);
                lemma_dce_counts_bound(v, 0);
                lemma_dce_counts_bound(v, i as int);
            }
            let (f, c) = self.dce_stmt_exec(&ss[i]);
            out.push(f);
            changes += c;
            i += 1;
        }
        proof {
            lemma_view_stmts_from(out@, 0);
            lemma_dce_stmts_rw(v, 0);
            assert(view_stmts(out@) =~= dce_stmts_rw(v, 0).0);
        }
        (out, changes)
    }

    fn unroll_stmt_exec(&self, s: &Stmt) -> (r: (Stmt, usize))
        requires
            stmt_size(s@) <= usize::MAX,
        ensures
            r.0@ == unroll_stmt_rw(s@, self.max_unroll_spec()).0,
            r.1 as nat == unroll_stmt_rw(s@, self.max_unroll_spec()).1,
        decreases s,
    {
        match s {
            Stmt::Loop { iteration_count, body } => {
                let count = *iteration_count;
                if 0 < count && count <= self.max_unroll {
                    let ghost bodyv = view_stmts(body@);
                    let mut unrolled: Vec<Stmt> = Vec::new();
                    let mut j: i64 = 0;
                    proof {
                        assert(view_stmts(unrolled@) =~= repeat_stmts(bodyv, 0));
                    }
                    while j < count
                        invariant
                            0 <= j <= count,
                            bodyv == view_stmts(body@),
                            view_stmts(unrolled@) == repeat_stmts(bodyv, j as nat),
                        decreases count - j,
                    {
                        let ghost before = unrolled@;
                        let mut copy = clone_stmts(body);
                        let ghost copy_snap = copy@;
                        unrolled.append(&mut copy);
                        proof {
                            lemma_view_stmts_from(before, 0);
                            lemma_view_stmts_from(copy_snap, 0);
                            lemma_view_stmts_from(unrolled@, 0);
                            lemma_view_stmts_from(body@, 0);
                            assert(view_stmts(unrolled@) =~= view_stmts(before) + view_stmts(
                                copy_snap,
                            ));
                            assert(view_stmts(copy_snap) == bodyv);
                            lemma_repeat_snoc(bodyv, j as nat);
                        }
                        j += 1;
                    }
                    (
                        Stmt::If {
                            condition: Expr::IntLiteral(1),
                            then_branch: unrolled,
                            else_branch: None,
                        },
                        1,
                    )
                } else {
                    (
                        Stmt::Loop { iteration_count: count, body: clone_stmts(body) },
                        0,
                    )
                }
            },
            Stmt::If { condition, then_branch, else_branch } => {
                let (tf, tc) = self.unroll_stmts_exec(then_branch);
                match else_branch {
                    Some(els) => {
                        let (ef, ec) = self.unroll_stmts_exec(els);
                        proof {
                            lemma_unroll_counts_bound(
                                view_stmts(then_branch@),
                                self.max_unroll,
                                0,
                            );
                            lemma_unroll_counts_bound(view_stmts(els@), self.max_unroll, 0);
                        }
                        (
                            Stmt::If {
                                condition: condition.deep_clone(),
                                then_branch: tf,
                                else_branch: Some(ef),
                            },
                            tc + ec,
                        )
                    },
                    None => (
                        Stmt::If {
                            condition: condition.deep_clone(),
                            then_branch: tf,
                            else_branch: None,
                        },
                        tc,
                    ),
                }
            },
            _ => (s.deep_clone(), 0),
        }
    }

    fn unroll_stmts_exec(&self, ss: &Vec<Stmt>) -> (r: (Vec<Stmt>, usize))
        requires
            stmts_size_from(view_stmts(ss@), 0) <= usize::MAX,
        ensures
            view_stmts(r.0@) == unroll_stmts_rw(view_stmts(ss@), self.max_unroll_spec(), 0).0,
            r.1 as nat == unroll_stmts_rw(view_stmts(ss@), self.max_unroll_spec(), 0).1,
        decreases ss@,
    {
        let ghost v = view_stmts(ss@);
        let ghost m = self.max_unroll_spec();
        proof {
            lemma_view_stmts_from(ss@, 0);
        }
        let mut out: Vec<Stmt> = Vec::new();
        let mut changes: usize = 0;
        let mut i: usize = 0;
        while i < ss.len()
            invariant
                i <= ss@.len(),
                v == view_stmts(ss@),
                m == self.max_unroll_spec(),
                v.len() == ss@.len(),
                forall|j: int| 0 <= j < ss@.len() ==> v[j] == ss@[j]@,
                stmts_size_from(v, 0) <= usize::MAX,
                out@.len() == i,
                forall|j: int| 0 <= j < i ==> out@[j]@ == unroll_stmt_rw(v[j], m).0,
                changes as nat + unroll_stmts_rw(v, m, i as int).1 == unroll_stmts_rw(v, m, 0).1,
            decreases ss@.len() - i,
        {
            proof {
                crate::ir::lemma_stmts_size_from_bounds(v, i as int);
                lemma_unroll_counts_bound(v, m, 0);
                lemma_unroll_counts_bound(v, m, i as int);
            }
            let (f, c) = self.unroll_stmt_exec(&ss[i]);
            out.push(f);
            changes += c;
            i += 1;
        }
        proof {
            lemma_view_stmts_from(out@, 0);
            lemma_unroll_stmts_rw(v, m, 0);
            assert(view_stmts(out@) =~= unroll_stmts_rw(v, m, 0).0);
        }
        (out, changes)
    }

    /// The preservation level that a strategy carries.
    pub fn get_preservation_level(&self, trans_type: TransformationType) -> (r: PreservationLevel)
        ensures
            r == preservation_of(trans_type),
    {
        match trans_type {
            TransformationType::ConstantFolding => PreservationLevel::Guaranteed,
            TransformationType::ExpressionSimplification => PreservationLevel::Guaranteed,
            TransformationType::DeadCodeElimination => PreservationLevel::Likely,
            TransformationType::LoopUnrolling => PreservationLevel::Likely,
            TransformationType::FunctionInlining => PreservationLevel::Unsafe,
        }
    }

    /// Applies one strategy to a statement tree, returning the new
    /// tree, the strategy's preservation level and the number of
    /// changes applied.  Function inlining is a placeholder
    /// passthrough: it returns the input unchanged.
    pub fn transform_stmt(&self, stmt: &Stmt, trans_type: TransformationType) -> (r:
        TransformationResult)
        requires
            stmt_size(stmt@) <= usize::MAX,
        ensures
            r.transformation_type == trans_type,
            r.preservation_level == preservation_of(trans_type),
            r.transformed@ == transform_rw(
                trans_type,
                stmt@,
                self.constants_map(),
                self.max_unroll_spec(),
            ).0,
            r.changes_applied as nat == transform_rw(
                trans_type,
                stmt@,
                self.constants_map(),
                self.max_unroll_spec(),
            ).1,
    {
        let (transformed, changes_applied) = match trans_type {
            TransformationType::ConstantFolding => self.fold_stmt_exec(stmt),
            TransformationType::DeadCodeElimination => self.dce_stmt_exec(stmt),
            TransformationType::LoopUnrolling => self.unroll_stmt_exec(stmt),
            TransformationType::ExpressionSimplification => self.simplify_stmt_exec(stmt),
            TransformationType::FunctionInlining => (stmt.deep_clone(), 0),
        };
        let preservation_level = self.get_preservation_level(trans_type);
        TransformationResult { transformed, transformation_type: trans_type, preservation_level, changes_applied }
    }
}

} // verus!
