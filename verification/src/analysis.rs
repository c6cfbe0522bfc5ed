//! Read-only structural analysis of a tree: aggregate counts and the
//! maximum nesting depth.
//!
//! The walk enters every reachable subtree exactly once, in
//! left-to-right, condition-before-branches order, incrementing a
//! depth counter on every entry into a child (function body, loop
//! body, branch body, nested expression).  The maximum nesting depth
//! is the largest depth observed, seeded at the root's depth 0.

use vstd::prelude::*;

use crate::ir::{expr_size, stmt_size, stmts_size_from, view_stmts, Expr, ExprV, Stmt, StmtV};
use crate::ir::{lemma_view_exprs_from, lemma_view_stmts_from, view_exprs};

verus! {

/// The larger of two naturals.
pub open spec fn nat_max(a: nat, b: nat) -> nat {
    if a >= b {
        a
    } else {
        b
    }
}

/// The call count and height of an expression: its height is the
/// depth of its deepest node below it, zero for a node without
/// children.
pub open spec fn expr_stats(e: ExprV) -> (nat, nat)
    decreases e, 0int,
{
    match e {
        ExprV::BinaryOp(_, left, right) => {
            let a = expr_stats(*left);
            let b = expr_stats(*right);
            (a.0 + b.0, 1 + nat_max(a.1, b.1))
        },
        ExprV::Call(_, args) => {
            let s = exprs_stats(args, 0);
            (1 + s.0, if args.len() == 0 {
                0nat
            } else {
                1 + s.1
            })
        },
        _ => (0nat, 0nat),
    }
}

/// The total call count and largest height over the expressions of
/// `es` from `i` on.
pub open spec fn exprs_stats(es: Seq<ExprV>, i: int) -> (nat, nat)
    decreases es, es.len() - i,
{
    if i < 0 || i >= es.len() {
        (0nat, 0nat)
    } else {
        let h = expr_stats(es[i]);
        let t = exprs_stats(es, i + 1);
        (h.0 + t.0, nat_max(h.1, t.1))
    }
}

/// The function count, variable declaration count, call count and
/// height of a statement tree.
pub open spec fn stmt_stats(s: StmtV) -> (nat, nat, nat, nat)
    decreases s, 0int,
{
    match s {
        StmtV::VarDecl(_, e) => {
            let es = expr_stats(e);
            (0nat, 1nat, es.0, 1 + es.1)
        },
        StmtV::Assign(_, e) => {
            let es = expr_stats(e);
            (0nat, 0nat, es.0, 1 + es.1)
        },
        StmtV::If(c, t, e) => {
            let cs = expr_stats(c);
            let ts = stmts_stats(t, 0);
            let es = match e {
                Some(els) => stmts_stats(els, 0),
                None => (0nat, 0nat, 0nat, 0nat),
            };
            (
                ts.0 + es.0,
                ts.1 + es.1,
                cs.0 + ts.2 + es.2,
                1 + nat_max(cs.1, nat_max(ts.3, es.3)),
            )
        },
        StmtV::Loop(_, body) => {
            let bs = stmts_stats(body, 0);
            (bs.0, bs.1, bs.2, if body.len() == 0 {
                0nat
            } else {
                1 + bs.3
            })
        },
        StmtV::Return(e) => {
            let es = expr_stats(e);
            (0nat, 0nat, es.0, 1 + es.1)
        },
        StmtV::ExpressionStatement(e) => {
            let es = expr_stats(e);
            (0nat, 0nat, es.0, 1 + es.1)
        },
        StmtV::FunctionDef(_, _, body) => {
            let bs = stmts_stats(body, 0);
            (1 + bs.0, bs.1, bs.2, if body.len() == 0 {
                0nat
            } else {
                1 + bs.3
            })
        },
        StmtV::Program(body) => {
            let bs = stmts_stats(body, 0);
            (bs.0, bs.1, bs.2, if body.len() == 0 {
                0nat
            } else {
                1 + bs.3
            })
        },
    }
}

/// The summed counts and largest height over the statements of `ss`
/// from `i` on.
pub open spec fn stmts_stats(ss: Seq<StmtV>, i: int) -> (nat, nat, nat, nat)
    decreases ss, ss.len() - i,
{
    if i < 0 || i >= ss.len() {
        (0nat, 0nat, 0nat, 0nat)
    } else {
        let h = stmt_stats(ss[i]);
        let t = stmts_stats(ss, i + 1);
        (h.0 + t.0, h.1 + t.1, h.2 + t.2, nat_max(h.3, t.3))
    }
}

/// No statistic of an expression exceeds its size.
proof fn lemma_expr_stats_bound(e: ExprV)
    ensures
        expr_stats(e).0 <= expr_size(e),
        expr_stats(e).1 <= expr_size(e),
    decreases e, 0int,
{
    match e {
        ExprV::BinaryOp(_, left, right) => {
            lemma_expr_stats_bound(*left);
            lemma_expr_stats_bound(*right);
        },
        ExprV::Call(_, args) => {
            lemma_exprs_stats_bound(args, 0);
        },
        _ => {},
    }
}

proof fn lemma_exprs_stats_bound(es: Seq<ExprV>, i: int)
    ensures
        exprs_stats(es, i).0 <= crate::ir::exprs_size_from(es, i),
        exprs_stats(es, i).1 <= crate::ir::exprs_size_from(es, i),
    decreases es, es.len() - i, 1int,
{
    if 0 <= i < es.len() {
        lemma_expr_stats_bound(es[i]);
        lemma_exprs_stats_bound(es, i + 1);
    }
}

/// No statistic of a statement tree exceeds its size.
proof fn lemma_stmt_stats_bound(s: StmtV)
    ensures
        stmt_stats(s).0 <= stmt_size(s),
        stmt_stats(s).1 <= stmt_size(s),
        stmt_stats(s).2 <= stmt_size(s),
        stmt_stats(s).3 <= stmt_size(s),
    decreases s, 0int,
{
    match s {
        StmtV::VarDecl(_, e) => {
            lemma_expr_stats_bound(e);
        },
        StmtV::Assign(_, e) => {
            lemma_expr_stats_bound(e);
        },
        StmtV::If(c, t, e) => {
            lemma_expr_stats_bound(c);
            lemma_stmts_stats_bound(t, 0);
            match e {
                Some(els) => {
                    lemma_stmts_stats_bound(els, 0);
                },
                None => {},
            }
        },
        StmtV::Loop(_, body) => {
            lemma_stmts_stats_bound(body, 0);
        },
        StmtV::Return(e) => {
            lemma_expr_stats_bound(e);
        },
        StmtV::ExpressionStatement(e) => {
            lemma_expr_stats_bound(e);
        },
        StmtV::FunctionDef(_, _, body) => {
            lemma_stmts_stats_bound(body, 0);
        },
        StmtV::Program(body) => {
            lemma_stmts_stats_bound(body, 0);
        },
    }
}

proof fn lemma_stmts_stats_bound(ss: Seq<StmtV>, i: int)
    ensures
        stmts_stats(ss, i).0 <= stmts_size_from(ss, i),
        stmts_stats(ss, i).1 <= stmts_size_from(ss, i),
        stmts_stats(ss, i).2 <= stmts_size_from(ss, i),
        stmts_stats(ss, i).3 <= stmts_size_from(ss, i),
    decreases ss, ss.len() - i, 1int,
{
    if 0 <= i < ss.len() {
        lemma_stmt_stats_bound(ss[i]);
        lemma_stmts_stats_bound(ss, i + 1);
    }
}

/// Aggregate structural statistics of one tree.
#[derive(Clone, Copy, Debug, PartialEq, Eq, Structural)]
pub struct Statistics {
    /// Number of function definitions, nested ones included.
    pub function_count: usize,
    /// Number of variable declarations.
    pub variable_declaration_count: usize,
    /// Number of call expressions, wherever they are nested.
    pub call_count: usize,
    /// The maximum nesting depth observed across the whole walk.
    pub max_nesting_depth: usize,
}

/// Walks a tree and produces its aggregate structural statistics.
/// The walk is read-only: a well-formed tree cannot cause failure.
pub fn analyze(tree: &Stmt) -> (r: Statistics)
    requires
        stmt_size(tree@) <= usize::MAX,
    ensures
        r.function_count as nat == stmt_stats(tree@).0,
        r.variable_declaration_count as nat == stmt_stats(tree@).1,
        r.call_count as nat == stmt_stats(tree@).2,
        r.max_nesting_depth as nat == stmt_stats(tree@).3,
    decreases tree,
{
    proof {
        lemma_stmt_stats_bound(tree@);
    }
    match tree {
        Stmt::VarDecl { name: _, initializer } => {
            let (calls, height) = analyze_expr(initializer);
            Statistics {
                function_count: 0,
                variable_declaration_count: 1,
                call_count: calls,
                max_nesting_depth: 1 + height,
            }
        },
        Stmt::Assign { target_name: _, value } => {
            let (calls, height) = analyze_expr(value);
            Statistics {
                function_count: 0,
                variable_declaration_count: 0,
                call_count: calls,
                max_nesting_depth: 1 + height,
            }
        },
        Stmt::If { condition, then_branch, else_branch } => {
            proof {
                lemma_expr_stats_bound(condition@);
                lemma_stmts_stats_bound(view_stmts(then_branch@), 0);
            }
            let (ccalls, cheight) = analyze_expr(condition);
            let (tf, tv, tc, th) = analyze_stmts(then_branch);
            let (ef, ev, ec, eh) = match else_branch {
                Some(els) => {
                    proof {
                        lemma_stmts_stats_bound(view_stmts(els@), 0);
                    }
                    analyze_stmts(els)
                },
                None => (0, 0, 0, 0),
            };
            let branch_h = if th >= eh {
                th
            } else {
                eh
            };
            let inner_h = if cheight >= branch_h {
                cheight
            } else {
                branch_h
            };
            Statistics {
                function_count: tf + ef,
                variable_declaration_count: tv + ev,
                call_count: ccalls + tc + ec,
                max_nesting_depth: 1 + inner_h,
            }
        },
        Stmt::Loop { iteration_count: _, body } => {
            proof {
                lemma_stmts_stats_bound(view_stmts(body@), 0);
                lemma_view_stmts_from(body@, 0);
            }
            let (bf, bv, bc, bh) = analyze_stmts(body);
            Statistics {
                function_count: bf,
                variable_declaration_count: bv,
                call_count: bc,
                max_nesting_depth: if body.len() == 0 {
                    0
                } else {
                    1 + bh
                },
            }
        },
        Stmt::Return(e) => {
            let (calls, height) = analyze_expr(e);
            Statistics {
                function_count: 0,
                variable_declaration_count: 0,
                call_count: calls,
                max_nesting_depth: 1 + height,
            }
        },
        Stmt::ExpressionStatement(e) => {
            let (calls, height) = analyze_expr(e);
            Statistics {
                function_count: 0,
                variable_declaration_count: 0,
                call_count: calls,
                max_nesting_depth: 1 + height,
            }
        },
        Stmt::FunctionDef { name: _, parameters: _, body } => {
            proof {
                lemma_stmts_stats_bound(view_stmts(body@), 0);
                lemma_view_stmts_from(body@, 0);
            }
            let (bf, bv, bc, bh) = analyze_stmts(body);
            Statistics {
                function_count: 1 + bf,
                variable_declaration_count: bv,
                call_count: bc,
                max_nesting_depth: if body.len() == 0 {
                    0
                } else {
                    1 + bh
                },
            }
        },
        Stmt::Program(body) => {
            proof {
                lemma_stmts_stats_bound(view_stmts(body@), 0);
                lemma_view_stmts_from(body@, 0);
            }
            let (bf, bv, bc, bh) = analyze_stmts(body);
            Statistics {
                function_count: bf,
                variable_declaration_count: bv,
                call_count: bc,
                max_nesting_depth: if body.len() == 0 {
                    0
                } else {
                    1 + bh
                },
            }
        },
    }
}

fn analyze_expr(e: &Expr) -> (r: (usize, usize))
    requires
        expr_size(e@) <= usize::MAX,
    ensures
        r.0 as nat == expr_stats(e@).0,
        r.1 as nat == expr_stats(e@).1,
    decreases e,
{
    proof {
        lemma_expr_stats_bound(e@);
    }
    match e {
        Expr::BinaryOp { operator: _, left, right } => {
            proof {
                lemma_expr_stats_bound((**left)@);
                lemma_expr_stats_bound((**right)@);
            }
            let (lc, lh) = analyze_expr(left);
            let (rc, rh) = analyze_expr(right);
            let h = if lh >= rh {
                lh
            } else {
                rh
            };
            return (lc + rc, 1 + h);
        },
        Expr::Call { function_name: _, arguments } => {
            proof {
                lemma_exprs_stats_bound(view_exprs(arguments@), 0);
                lemma_view_exprs_from(arguments@, 0);
            }
            let (ac, ah) = analyze_exprs(arguments);
            if arguments.len() == 0 {
                return (1 + ac, 0);
            }
            return (1 + ac, 1 + ah);
        },
        _ => {
            return (0, 0);
        },
    }
}

fn analyze_exprs(es: &Vec<Expr>) -> (r: (usize, usize))
    requires
        crate::ir::exprs_size_from(view_exprs(es@), 0) <= usize::MAX,
    ensures
        r.0 as nat == exprs_stats(view_exprs(es@), 0).0,
        r.1 as nat == exprs_stats(view_exprs(es@), 0).1,
    decreases es@,
{
    let ghost v = view_exprs(es@);
    proof {
        lemma_view_exprs_from(es@, 0);
    }
    let mut calls: usize = 0;
    let mut height: usize = 0;
    let mut i: usize = 0;
    while i < es.len()
        invariant
            i <= es@.len(),
            v == view_exprs(es@),
            v.len() == es@.len(),
            forall|j: int| 0 <= j < es@.len() ==> v[j] == es@[j]@,
            crate::ir::exprs_size_from(v, 0) <= usize::MAX,
            calls as nat + exprs_stats(v, i as int).0 == exprs_stats(v, 0).0,
            nat_max(height as nat, exprs_stats(v, i as int).1) == exprs_stats(v, 0).1,
        decreases es@.len() - i,
    {
        proof {
            crate::ir::lemma_exprs_size_from_bounds(v, i as int);
            lemma_exprs_stats_bound(v, 0);
            lemma_exprs_stats_bound(v, i as int);
        }
        let (c, h) = analyze_expr(&es[i]);
        calls += c;
        if h > height {
            height = h;
        }
        i += 1;
    }
    (calls, height)
}

fn analyze_stmts(ss: &Vec<Stmt>) -> (r: (usize, usize, usize, usize))
    requires
        stmts_size_from(view_stmts(ss@), 0) <= usize::MAX,
    ensures
        r.0 as nat == stmts_stats(view_stmts(ss@), 0).0,
        r.1 as nat == stmts_stats(view_stmts(ss@), 0).1,
        r.2 as nat == stmts_stats(view_stmts(ss@), 0).2,
        r.3 as nat == stmts_stats(view_stmts(ss@), 0).3,
    decreases ss@,
{
    let ghost v = view_stmts(ss@);
    proof {
        lemma_view_stmts_from(ss@, 0);
    }
    let mut functions: usize = 0;
    let mut var_decls: usize = 0;
    let mut calls: usize = 0;
    let mut height: usize = 0;
    let mut i: usize = 0;
    while i < ss.len()
        invariant
            i <= ss@.len(),
            v == view_stmts(ss@),
            v.len() == ss@.len(),
            forall|j: int| 0 <= j < ss@.len() ==> v[j] == ss@[j]@,
            stmts_size_from(v, 0) <= usize::MAX,
            functions as nat + stmts_stats(v, i as int).0 == stmts_stats(v, 0).0,
            var_decls as nat + stmts_stats(v, i as int).1 == stmts_stats(v, 0).1,
            calls as nat + stmts_stats(v, i as int).2 == stmts_stats(v, 0).2,
            nat_max(height as nat, stmts_stats(v, i as int).3) == stmts_stats(v, 0).3,
        decreases ss@.len() - i,
    {
        proof {
            crate::ir::lemma_stmts_size_from_bounds(v, i as int);
            lemma_stmts_stats_bound(v, 0);
            lemma_stmts_stats_bound(v, i as int);
            lemma_stmt_stats_bound(v[i as int]);
        }
        let s = analyze(&ss[i]);
        functions += s.function_count;
        var_decls += s.variable_declaration_count;
        calls += s.call_count;
        if s.max_nesting_depth > height {
            height = s.max_nesting_depth;
        }
        i += 1;
    }
    (functions, var_decls, calls, height)
}

} // verus!
