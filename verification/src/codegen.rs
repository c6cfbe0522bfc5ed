//! Textual code generation: renders a tree back to indented source
//! text, one statement per line.
//!
//! Binary operations are fully parenthesized, so operator precedence
//! is unambiguous in the output.  Block bodies (function bodies,
//! branch bodies, loop bodies) are indented by four spaces per level.
//! Generation is a pure function of the tree: its exact output is
//! pinned by `gen_stmt`, so two calls on the same tree produce
//! byte-identical text.

use vstd::prelude::*;

use crate::ir::{
    lemma_view_exprs_from, lemma_view_names_from, lemma_view_stmts_from, stmt_size,
    stmts_size_from, view_exprs, view_names, view_stmts, BinaryOperator, Expr, ExprV, Stmt, StmtV,
};

verus! {

/// The character of one decimal digit.
pub open spec fn digit_char(d: int) -> char {
    if d == 0 {
        '0'
    } else if d == 1 {
        '1'
    } else if d == 2 {
        '2'
    } else if d == 3 {
        '3'
    } else if d == 4 {
        '4'
    } else if d == 5 {
        '5'
    } else if d == 6 {
        '6'
    } else if d == 7 {
        '7'
    } else if d == 8 {
        '8'
    } else {
        '9'
    }
}

/// The decimal digits of a natural number, most significant first.
pub open spec fn dec_digits(n: nat) -> Seq<char>
    decreases n,
{
    if n < 10 {
        seq![digit_char(n as int)]
    } else {
        dec_digits(n / 10) + seq![digit_char((n % 10) as int)]
    }
}

/// The decimal rendering of an integer, with a leading minus sign
/// where it is negative.
pub open spec fn int_chars(n: int) -> Seq<char> {
    if n < 0 {
        seq!['-'] + dec_digits((-n) as nat)
    } else {
        dec_digits(n as nat)
    }
}

/// The source text of a binary operator.
pub open spec fn op_chars(op: BinaryOperator) -> Seq<char> {
    match op {
        BinaryOperator::Add => "+"@,
        BinaryOperator::Sub => "-"@,
        BinaryOperator::Mul => "*"@,
        BinaryOperator::Div => "/"@,
        BinaryOperator::Eq => "=="@,
        BinaryOperator::NotEq => "!="@,
        BinaryOperator::Lt => "<"@,
        BinaryOperator::Gt => ">"@,
        BinaryOperator::And => "&&"@,
        BinaryOperator::Or => "||"@,
    }
}

/// Four spaces of indentation per level.
pub open spec fn indent_chars(k: nat) -> Seq<char>
    decreases k,
{
    if k == 0 {
        Seq::empty()
    } else {
        "    "@ + indent_chars((k - 1) as nat)
    }
}

/// The source text of an expression, fully parenthesized.
pub open spec fn gen_expr(e: ExprV) -> Seq<char>
    decreases e, 0int,
{
    match e {
        ExprV::IntLiteral(n) => int_chars(n as int),
        ExprV::StringLiteral(s) => "\""@ + s + "\""@,
        ExprV::BoolLiteral(b) => if b {
            "true"@
        } else {
            "false"@
        },
        ExprV::NullLiteral => "null"@,
        ExprV::Identifier(name) => name,
        ExprV::BinaryOp(op, left, right) => "("@ + gen_expr(*left) + " "@ + op_chars(op) + " "@
            + gen_expr(*right) + ")"@,
        ExprV::Call(name, args) => name + "("@ + gen_args(args, 0) + ")"@,
    }
}

/// The comma-separated argument list of a call, from `i` on.
pub open spec fn gen_args(args: Seq<ExprV>, i: int) -> Seq<char>
    decreases args, args.len() - i,
{
    if i < 0 || i >= args.len() {
        Seq::empty()
    } else if i == args.len() - 1 {
        gen_expr(args[i])
    } else {
        gen_expr(args[i]) + ", "@ + gen_args(args, i + 1)
    }
}

/// The comma-separated parameter list of a function definition, from
/// `i` on.
pub open spec fn gen_params(params: Seq<Seq<char>>, i: int) -> Seq<char>
    decreases params.len() - i,
{
    if i < 0 || i >= params.len() {
        Seq::empty()
    } else if i == params.len() - 1 {
        params[i]
    } else {
        params[i] + ", "@ + gen_params(params, i + 1)
    }
}

/// The source text of a statement at indentation level `k`.
pub open spec fn gen_stmt(s: StmtV, k: nat) -> Seq<char>
    decreases s, 0int,
{
    match s {
        StmtV::VarDecl(name, init) => indent_chars(k) + "let "@ + name + " = "@ + gen_expr(init)
            + ";"@,
        StmtV::Assign(name, value) => indent_chars(k) + name + " = "@ + gen_expr(value) + ";"@,
        StmtV::If(cond, t, e) => indent_chars(k) + "if "@ + gen_expr(cond) + " {\n"@ + gen_lines(
            t,
            k + 1,
            0,
        ) + indent_chars(k) + "}"@ + match e {
            Some(els) => " else {\n"@ + gen_lines(els, k + 1, 0) + indent_chars(k) + "}"@,
            None => Seq::empty(),
        },
        StmtV::Loop(count, body) => indent_chars(k) + "loop "@ + int_chars(count as int) + " {\n"@
            + gen_lines(body, k + 1, 0) + indent_chars(k) + "}"@,
        StmtV::Return(e) => indent_chars(k) + "return "@ + gen_expr(e) + ";"@,
        StmtV::ExpressionStatement(e) => indent_chars(k) + gen_expr(e) + ";"@,
        StmtV::FunctionDef(name, params, body) => indent_chars(k) + "fn "@ + name + "("@
            + gen_params(params, 0) + ") {\n"@ + gen_lines(body, k + 1, 0) + indent_chars(k)
            + "}"@,
        StmtV::Program(body) => gen_program(body, k, 0),
    }
}

/// The statements of a block from `i` on, one per line, each followed
/// by a newline.
pub open spec fn gen_lines(ss: Seq<StmtV>, k: nat, i: int) -> Seq<char>
    decreases ss, ss.len() - i,
{
    if i < 0 || i >= ss.len() {
        Seq::empty()
    } else {
        gen_stmt(ss[i], k) + "\n"@ + gen_lines(ss, k, i + 1)
    }
}

/// The top-level statements of a program from `i` on, joined by
/// newlines.
pub open spec fn gen_program(ss: Seq<StmtV>, k: nat, i: int) -> Seq<char>
    decreases ss, ss.len() - i,
{
    if i < 0 || i >= ss.len() {
        Seq::empty()
    } else if i == ss.len() - 1 {
        gen_stmt(ss[i], k)
    } else {
        gen_stmt(ss[i], k) + "\n"@ + gen_program(ss, k, i + 1)
    }
}

fn digit_str(d: u64) -> (r: &'static str)
    requires
        d < 10,
    ensures
        r@ == seq![digit_char(d as int)],
{
    proof {
        reveal_strlit("0");
        reveal_strlit("1");
        reveal_strlit("2");
        reveal_strlit("3");
        reveal_strlit("4");
        reveal_strlit("5");
        reveal_strlit("6");
        reveal_strlit("7");
        reveal_strlit("8");
        reveal_strlit("9");
    }
    let r: &'static str = match d {
        0 => "0",
        1 => "1",
        2 => "2",
        3 => "3",
        4 => "4",
        5 => "5",
        6 => "6",
        7 => "7",
        8 => "8",
        _ => "9",
    };
    proof {
        assert(r@ =~= seq![digit_char(d as int)]);
    }
    r
}

fn push_u64_digits(out: &mut String, n: u64)
    ensures
        final(out)@ == old(out)@ + dec_digits(n as nat),
    decreases n,
{
    if n < 10 {
        out.append(digit_str(n));
        proof {
            assert(final(out)@ =~= old(out)@ + dec_digits(n as nat));
        }
    } else {
        let ghost before = out@;
        push_u64_digits(out, n / 10);
        out.append(digit_str(n % 10));
        proof {
            assert(final(out)@ =~= before + dec_digits(n as nat));
        }
    }
}

fn push_i64(out: &mut String, n: i64)
    ensures
        final(out)@ == old(out)@ + int_chars(n as int),
{
    if n < 0 {
        let ghost before = out@;
        out.append("-");
        let mag: u64 = ((-(n + 1)) as u64) + 1;
        proof {
            assert(mag as nat == (-(n as int)) as nat);
        }
        push_u64_digits(out, mag);
        proof {
            reveal_strlit("-");
            assert("-"@ =~= seq!['-']);
            assert(final(out)@ =~= before + int_chars(n as int));
        }
    } else {
        push_u64_digits(out, n as u64);
    }
}

fn op_str(op: BinaryOperator) -> (r: &'static str)
    ensures
        r@ == op_chars(op),
{
    match op {
        BinaryOperator::Add => "+",
        BinaryOperator::Sub => "-",
        BinaryOperator::Mul => "*",
        BinaryOperator::Div => "/",
        BinaryOperator::Eq => "==",
        BinaryOperator::NotEq => "!=",
        BinaryOperator::Lt => "<",
        BinaryOperator::Gt => ">",
        BinaryOperator::And => "&&",
        BinaryOperator::Or => "||",
    }
}

fn write_indent(out: &mut String, k: usize)
    ensures
        final(out)@ == old(out)@ + indent_chars(k as nat),
{
    let mut j: usize = 0;
    while j < k
        invariant
            j <= k,
            out@ == old(out)@ + indent_chars(j as nat),
        decreases k - j,
    {
        out.append("    ");
        proof {
            lemma_indent_snoc(j as nat);
        }
        j += 1;
    }
}

/// Indentation grows by one block of four spaces at the back.
proof fn lemma_indent_snoc(k: nat)
    ensures
        indent_chars(k + 1) == indent_chars(k) + "    "@,
    decreases k,
{
    if k == 0 {
        assert(indent_chars(1) =~= indent_chars(0) + "    "@);
    } else {
        lemma_indent_snoc((k - 1) as nat);
        assert(indent_chars(k + 1) == "    "@ + indent_chars(k));
        assert("    "@ + (indent_chars((k - 1) as nat) + "    "@) =~= ("    "@ + indent_chars(
            (k - 1) as nat,
        )) + "    "@);
    }
}

fn write_expr(out: &mut String, e: &Expr)
    ensures
        final(out)@ == old(out)@ + gen_expr(e@),
    decreases e, 0int,
{
    let ghost before = out@;
    match e {
        Expr::IntLiteral(n) => {
            push_i64(out, *n);
        },
        Expr::StringLiteral(s) => {
            out.append("\"");
            out.append(s.as_str());
            out.append("\"");
            proof {
                assert(final(out)@ =~= before + gen_expr(e@));
            }
        },
        Expr::BoolLiteral(b) => {
            if *b {
                out.append("true");
            } else {
                out.append("false");
            }
        },
        Expr::NullLiteral => {
            out.append("null");
        },
        Expr::Identifier(name) => {
            out.append(name.as_str());
        },
        Expr::BinaryOp { operator, left, right } => {
            out.append("(");
            write_expr(out, left);
            out.append(" ");
            out.append(op_str(*operator));
            out.append(" ");
            write_expr(out, right);
            out.append(")");
            proof {
                assert(final(out)@ =~= before + gen_expr(e@));
            }
        },
        Expr::Call { function_name, arguments } => {
            out.append(function_name.as_str());
            out.append("(");
            write_args(out, arguments, 0);
            out.append(")");
            proof {
                assert(final(out)@ =~= before + gen_expr(e@));
            }
        },
    }
}

fn write_args(out: &mut String, args: &Vec<Expr>, i: usize)
    requires
        i <= args@.len(),
    ensures
        final(out)@ == old(out)@ + gen_args(view_exprs(args@), i as int),
    decreases args@, args@.len() - i,
{
    let ghost before = out@;
    let ghost v = view_exprs(args@);
    proof {
        lemma_view_exprs_from(args@, 0);
    }
    if i < args.len() {
        write_expr(out, &args[i]);
        if i + 1 < args.len() {
            out.append(", ");
            write_args(out, args, i + 1);
            proof {
                assert(final(out)@ =~= before + gen_args(v, i as int));
            }
        } else {
            proof {
                assert(final(out)@ =~= before + gen_args(v, i as int));
            }
        }
    }
}

fn write_params(out: &mut String, params: &Vec<String>, i: usize)
    requires
        i <= params@.len(),
    ensures
        final(out)@ == old(out)@ + gen_params(view_names(params@), i as int),
    decreases params@.len() - i,
{
    let ghost before = out@;
    let ghost v = view_names(params@);
    proof {
        lemma_view_names_from(params@, 0);
    }
    if i < params.len() {
        out.append(params[i].as_str());
        if i + 1 < params.len() {
            out.append(", ");
            write_params(out, params, i + 1);
            proof {
                assert(final(out)@ =~= before + gen_params(v, i as int));
            }
        } else {
            proof {
                assert(final(out)@ =~= before + gen_params(v, i as int));
            }
        }
    }
}

#[verifier::rlimit(100)]
fn write_stmt(out: &mut String, s: &Stmt, k: usize)
    requires
        k as nat + stmt_size(s@) <= usize::MAX,
    ensures
        final(out)@ == old(out)@ + gen_stmt(s@, k as nat),
    decreases s, 0int,
{
    let ghost before = out@;
    match s {
        Stmt::VarDecl { name, initializer } => {
            write_indent(out, k);
            out.append("let ");
            out.append(name.as_str());
            out.append(" = ");
            write_expr(out, initializer);
            out.append(";");
            proof {
                assert(final(out)@ =~= before + gen_stmt(s@, k as nat));
            }
        },
        Stmt::Assign { target_name, value } => {
            write_indent(out, k);
            out.append(target_name.as_str());
            out.append(" = ");
            write_expr(out, value);
            out.append(";");
            proof {
                assert(final(out)@ =~= before + gen_stmt(s@, k as nat));
            }
        },
        Stmt::If { condition, then_branch, else_branch } => {
            write_indent(out, k);
            out.append("if ");
            write_expr(out, condition);
            out.append(" {\n");
            write_lines(out, then_branch, k + 1, 0);
            write_indent(out, k);
            out.append("}");
            match else_branch {
                Some(els) => {
                    out.append(" else {\n");
                    write_lines(out, els, k + 1, 0);
                    write_indent(out, k);
                    out.append("}");
                },
                None => {},
            }
            proof {
                assert(final(out)@ =~= before + gen_stmt(s@, k as nat));
            }
        },
        Stmt::Loop { iteration_count, body } => {
            write_indent(out, k);
            out.append("loop ");
            push_i64(out, *iteration_count);
            out.append(" {\n");
            write_lines(out, body, k + 1, 0);
            write_indent(out, k);
            out.append("}");
            proof {
                assert(final(out)@ =~= before + gen_stmt(s@, k as nat));
            }
        },
        Stmt::Return(e) => {
            write_indent(out, k);
            out.append("return ");
            write_expr(out, e);
            out.append(";");
            proof {
                assert(final(out)@ =~= before + gen_stmt(s@, k as nat));
            }
        },
        Stmt::ExpressionStatement(e) => {
            write_indent(out, k);
            write_expr(out, e);
            out.append(";");
            proof {
                assert(final(out)@ =~= before + gen_stmt(s@, k as nat));
            }
        },
        Stmt::FunctionDef { name, parameters, body } => {
            write_indent(out, k);
            out.append("fn ");
            out.append(name.as_str());
            out.append("(");
            write_params(out, parameters, 0);
            out.append(") {\n");
            write_lines(out, body, k + 1, 0);
            write_indent(out, k);
            out.append("}");
            proof {
                assert(final(out)@ =~= before + gen_stmt(s@, k as nat));
            }
        },
        Stmt::Program(body) => {
            write_program(out, body, k, 0);
        },
    }
}

fn write_lines(out: &mut String, ss: &Vec<Stmt>, k: usize, i: usize)
    requires
        i <= ss@.len(),
        k as nat + stmts_size_from(view_stmts(ss@), 0) <= usize::MAX,
    ensures
        final(out)@ == old(out)@ + gen_lines(view_stmts(ss@), k as nat, i as int),
    decreases ss@, ss@.len() - i,
{
    let ghost before = out@;
    let ghost v = view_stmts(ss@);
    proof {
        lemma_view_stmts_from(ss@, 0);
    }
    if i < ss.len() {
        proof {
            crate::ir::lemma_stmts_size_from_bounds(v, i as int);
        }
        write_stmt(out, &ss[i], k);
        out.append("\n");
        write_lines(out, ss, k, i + 1);
        proof {
            assert(final(out)@ =~= before + gen_lines(v, k as nat, i as int));
        }
    }
}

fn write_program(out: &mut String, ss: &Vec<Stmt>, k: usize, i: usize)
    requires
        i <= ss@.len(),
        k as nat + stmts_size_from(view_stmts(ss@), 0) <= usize::MAX,
    ensures
        final(out)@ == old(out)@ + gen_program(view_stmts(ss@), k as nat, i as int),
    decreases ss@, ss@.len() - i,
{
    let ghost before = out@;
    let ghost v = view_stmts(ss@);
    proof {
        lemma_view_stmts_from(ss@, 0);
    }
    if i < ss.len() {
        proof {
            crate::ir::lemma_stmts_size_from_bounds(v, i as int);
        }
        write_stmt(out, &ss[i], k);
        if i + 1 < ss.len() {
            out.append("\n");
            write_program(out, ss, k, i + 1);
            proof {
                assert(final(out)@ =~= before + gen_program(v, k as nat, i as int));
            }
        } else {
            proof {
                assert(final(out)@ =~= before + gen_program(v, k as nat, i as int));
            }
        }
    }
}

/// Renders a whole tree to source text, starting at indentation
/// level zero.  Generation is deterministic: the result is exactly
/// `gen_stmt(tree@, 0)`, so two calls on the same tree produce
/// byte-identical text.
pub fn generate(tree: &Stmt) -> (r: String)
    requires
        stmt_size(tree@) <= usize::MAX,
    ensures
        r@ == gen_stmt(tree@, 0),
{
    let mut out = String::new();
    write_stmt(&mut out, tree, 0);
    proof {
        assert(out@ =~= gen_stmt(tree@, 0));
    }
    out
}

/// Renders one expression to source text.
pub fn generate_expression(e: &Expr) -> (r: String)
    ensures
        r@ == gen_expr(e@),
{
    let mut out = String::new();
    write_expr(&mut out, e);
    proof {
        assert(out@ =~= gen_expr(e@));
    }
    out
}

} // verus!
