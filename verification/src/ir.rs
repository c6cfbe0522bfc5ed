//! The IR tree model: expressions and statements, their mathematical
//! views, structural size, structural equality and deep cloning.
//!
//! Trees are immutable once constructed; every rewrite builds a new
//! tree.  Each executable node type has a ghost mirror (`ExprV`,
//! `StmtV`) over `Seq` and mathematical values, which the contracts of
//! every component speak about.

use vstd::prelude::*;

verus! {

/// Binary operators of the IR.
#[derive(Clone, Copy, Debug, PartialEq, Eq, Structural)]
pub enum BinaryOperator {
    Add,
    Sub,
    Mul,
    Div,
    Eq,
    NotEq,
    Lt,
    Gt,
    And,
    Or,
}

/// An expression tree.
#[derive(Debug, PartialEq)]
pub enum Expr {
    /// Integer literal.
    IntLiteral(i64),
    /// String literal.
    StringLiteral(String),
    /// Boolean literal.
    BoolLiteral(bool),
    /// Null literal.
    NullLiteral,
    /// A free or bound variable reference; purely a lookup key.
    Identifier(String),
    /// Binary operation over two exclusively owned subtrees.
    BinaryOp { operator: BinaryOperator, left: Box<Expr>, right: Box<Expr> },
    /// Function call with an ordered argument list.
    Call { function_name: String, arguments: Vec<Expr> },
}

/// A statement tree.  Statement sequences are ordered and significant.
#[derive(Debug, PartialEq)]
pub enum Stmt {
    /// Introduces a new binding.
    VarDecl { name: String, initializer: Expr },
    /// Rebinds an existing name.
    Assign { target_name: String, value: Expr },
    /// Conditional with an optional else branch.
    If { condition: Expr, then_branch: Vec<Stmt>, else_branch: Option<Vec<Stmt>> },
    /// A bounded counted loop; the iteration count is statically known.
    Loop { iteration_count: i64, body: Vec<Stmt> },
    /// Return statement.
    Return(Expr),
    /// An expression evaluated for its effect, result discarded.
    ExpressionStatement(Expr),
    /// Function definition with ordered parameter names.
    FunctionDef { name: String, parameters: Vec<String>, body: Vec<Stmt> },
    /// The root of a tree.
    Program(Vec<Stmt>),
}

/// The mathematical view of an expression.
#[verifier::ext_equal]
pub enum ExprV {
    IntLiteral(i64),
    StringLiteral(Seq<char>),
    BoolLiteral(bool),
    NullLiteral,
    Identifier(Seq<char>),
    BinaryOp(BinaryOperator, Box<ExprV>, Box<ExprV>),
    Call(Seq<char>, Seq<ExprV>),
}

/// The mathematical view of a statement.
#[verifier::ext_equal]
pub enum StmtV {
    VarDecl(Seq<char>, ExprV),
    Assign(Seq<char>, ExprV),
    If(ExprV, Seq<StmtV>, Option<Seq<StmtV>>),
    Loop(i64, Seq<StmtV>),
    Return(ExprV),
    ExpressionStatement(ExprV),
    FunctionDef(Seq<char>, Seq<Seq<char>>, Seq<StmtV>),
    Program(Seq<StmtV>),
}

impl View for Expr {
    type V = ExprV;

    open spec fn view(&self) -> ExprV
        decreases self, 0int,
    {
        match self {
            Expr::IntLiteral(n) => ExprV::IntLiteral(*n),
            Expr::StringLiteral(s) => ExprV::StringLiteral(s@),
            Expr::BoolLiteral(b) => ExprV::BoolLiteral(*b),
            Expr::NullLiteral => ExprV::NullLiteral,
            Expr::Identifier(name) => ExprV::Identifier(name@),
            Expr::BinaryOp { operator, left, right } => ExprV::BinaryOp(
                *operator,
                Box::new((**left)@),
                Box::new((**right)@),
            ),
            Expr::Call { function_name, arguments } => ExprV::Call(
                function_name@,
                view_exprs_from(arguments@, 0),
            ),
        }
    }
}

/// The views of the expressions of `es` from position `i` on, in order.
pub open spec fn view_exprs_from(es: Seq<Expr>, i: int) -> Seq<ExprV>
    decreases es, es.len() - i,
{
    if i < 0 || i >= es.len() {
        Seq::empty()
    } else {
        seq![es[i]@] + view_exprs_from(es, i + 1)
    }
}

/// The views of a sequence of expressions, in order.
pub open spec fn view_exprs(es: Seq<Expr>) -> Seq<ExprV> {
    view_exprs_from(es, 0)
}

impl View for Stmt {
    type V = StmtV;

    open spec fn view(&self) -> StmtV
        decreases self, 0int,
    {
        match self {
            Stmt::VarDecl { name, initializer } => StmtV::VarDecl(name@, initializer@),
            Stmt::Assign { target_name, value } => StmtV::Assign(target_name@, value@),
            Stmt::If { condition, then_branch, else_branch } => StmtV::If(
                condition@,
                view_stmts_from(then_branch@, 0),
                match else_branch {
                    Some(els) => Some(view_stmts_from(els@, 0)),
                    None => None,
                },
            ),
            Stmt::Loop { iteration_count, body } => StmtV::Loop(
                *iteration_count,
                view_stmts_from(body@, 0),
            ),
            Stmt::Return(e) => StmtV::Return(e@),
            Stmt::ExpressionStatement(e) => StmtV::ExpressionStatement(e@),
            Stmt::FunctionDef { name, parameters, body } => StmtV::FunctionDef(
                name@,
                view_names(parameters@),
                view_stmts_from(body@, 0),
            ),
            Stmt::Program(body) => StmtV::Program(view_stmts_from(body@, 0)),
        }
    }
}

/// The views of the statements of `ss` from position `i` on, in order.
pub open spec fn view_stmts_from(ss: Seq<Stmt>, i: int) -> Seq<StmtV>
    decreases ss, ss.len() - i,
{
    if i < 0 || i >= ss.len() {
        Seq::empty()
    } else {
        seq![ss[i]@] + view_stmts_from(ss, i + 1)
    }
}

/// The views of a sequence of statements, in order.
pub open spec fn view_stmts(ss: Seq<Stmt>) -> Seq<StmtV> {
    view_stmts_from(ss, 0)
}

/// The views of the names of `ns` from position `i` on, in order.
pub open spec fn view_names_from(ns: Seq<String>, i: int) -> Seq<Seq<char>>
    decreases ns.len() - i,
{
    if i < 0 || i >= ns.len() {
        Seq::empty()
    } else {
        seq![ns[i]@] + view_names_from(ns, i + 1)
    }
}

/// The views of a sequence of names, in order.
pub open spec fn view_names(ns: Seq<String>) -> Seq<Seq<char>> {
    view_names_from(ns, 0)
}

/// `view_exprs_from` is the pointwise view of the suffix.
pub broadcast proof fn lemma_view_exprs_from(es: Seq<Expr>, i: int)
    requires
        0 <= i <= es.len(),
    ensures
        (#[trigger] view_exprs_from(es, i)).len() == es.len() - i,
        forall|j: int|
            0 <= j < es.len() - i ==> view_exprs_from(es, i)[j] == es[i + j]@,
    decreases es.len() - i,
{
    if i < es.len() {
        lemma_view_exprs_from(es, i + 1);
        assert forall|j: int| 0 <= j < es.len() - i implies view_exprs_from(es, i)[j] == es[i + j]@ by {
            if j > 0 {
                assert(view_exprs_from(es, i) == seq![es[i]@] + view_exprs_from(es, i + 1));
                assert((seq![es[i]@] + view_exprs_from(es, i + 1))[j] == view_exprs_from(es, i + 1)[j - 1]);
            }
        }
    }
}

/// `view_stmts_from` is the pointwise view of the suffix.
pub broadcast proof fn lemma_view_stmts_from(ss: Seq<Stmt>, i: int)
    requires
        0 <= i <= ss.len(),
    ensures
        (#[trigger] view_stmts_from(ss, i)).len() == ss.len() - i,
        forall|j: int|
            0 <= j < ss.len() - i ==> view_stmts_from(ss, i)[j] == ss[i + j]@,
    decreases ss.len() - i,
{
    if i < ss.len() {
        lemma_view_stmts_from(ss, i + 1);
        assert forall|j: int| 0 <= j < ss.len() - i implies view_stmts_from(ss, i)[j] == ss[i + j]@ by {
            if j > 0 {
                assert(view_stmts_from(ss, i) == seq![ss[i]@] + view_stmts_from(ss, i + 1));
                assert((seq![ss[i]@] + view_stmts_from(ss, i + 1))[j] == view_stmts_from(ss, i + 1)[j - 1]);
            }
        }
    }
}

/// `view_names_from` is the pointwise view of the suffix.
pub broadcast proof fn lemma_view_names_from(ns: Seq<String>, i: int)
    requires
        0 <= i <= ns.len(),
    ensures
        (#[trigger] view_names_from(ns, i)).len() == ns.len() - i,
        forall|j: int|
            0 <= j < ns.len() - i ==> view_names_from(ns, i)[j] == ns[i + j]@,
    decreases ns.len() - i,
{
    if i < ns.len() {
        lemma_view_names_from(ns, i + 1);
        assert forall|j: int| 0 <= j < ns.len() - i implies view_names_from(ns, i)[j] == ns[i + j]@ by {
            if j > 0 {
                assert(view_names_from(ns, i) == seq![ns[i]@] + view_names_from(ns, i + 1));
                assert((seq![ns[i]@] + view_names_from(ns, i + 1))[j] == view_names_from(ns, i + 1)[j - 1]);
            }
        }
    }
}

/// The node count of an expression view: one for the node itself plus
/// the sizes of all subtrees.
pub open spec fn expr_size(e: ExprV) -> nat
    decreases e, 0int,
{
    match e {
        ExprV::BinaryOp(_, left, right) => 1 + expr_size(*left) + expr_size(*right),
        ExprV::Call(_, args) => 1 + exprs_size_from(args, 0),
        _ => 1,
    }
}

/// The total node count of the expression views of `es` from `i` on.
pub open spec fn exprs_size_from(es: Seq<ExprV>, i: int) -> nat
    decreases es, es.len() - i,
{
    if i < 0 || i >= es.len() {
        0
    } else {
        expr_size(es[i]) + exprs_size_from(es, i + 1)
    }
}

/// The node count of a statement view, expression subtrees included.
pub open spec fn stmt_size(s: StmtV) -> nat
    decreases s, 0int,
{
    match s {
        StmtV::VarDecl(_, e) => 1 + expr_size(e),
        StmtV::Assign(_, e) => 1 + expr_size(e),
        StmtV::If(c, t, e) => 1 + expr_size(c) + stmts_size_from(t, 0) + match e {
            Some(els) => stmts_size_from(els, 0),
            None => 0,
        },
        StmtV::Loop(_, body) => 1 + stmts_size_from(body, 0),
        StmtV::Return(e) => 1 + expr_size(e),
        StmtV::ExpressionStatement(e) => 1 + expr_size(e),
        StmtV::FunctionDef(_, _, body) => 1 + stmts_size_from(body, 0),
        StmtV::Program(body) => 1 + stmts_size_from(body, 0),
    }
}

/// The total node count of the statement views of `ss` from `i` on.
pub open spec fn stmts_size_from(ss: Seq<StmtV>, i: int) -> nat
    decreases ss, ss.len() - i,
{
    if i < 0 || i >= ss.len() {
        0
    } else {
        stmt_size(ss[i]) + stmts_size_from(ss, i + 1)
    }
}

/// The size of the suffix at `i` is at least the size of its first
/// element and at most the size of the whole sequence.
pub broadcast proof fn lemma_exprs_size_from_bounds(es: Seq<ExprV>, i: int)
    requires
        0 <= i <= es.len(),
    ensures
        #[trigger] exprs_size_from(es, i) >= if i < es.len() { expr_size(es[i]) } else { 0 },
        exprs_size_from(es, i) <= exprs_size_from(es, 0),
    decreases i,
{
    if i > 0 {
        lemma_exprs_size_from_step(es, i - 1);
        lemma_exprs_size_from_bounds(es, i - 1);
    }
}

proof fn lemma_exprs_size_from_step(es: Seq<ExprV>, i: int)
    requires
        0 <= i < es.len(),
    ensures
        exprs_size_from(es, i + 1) <= exprs_size_from(es, i),
{
}

/// The size of the suffix at `i` is at least the size of its first
/// element and at most the size of the whole sequence.
pub broadcast proof fn lemma_stmts_size_from_bounds(ss: Seq<StmtV>, i: int)
    requires
        0 <= i <= ss.len(),
    ensures
        #[trigger] stmts_size_from(ss, i) >= if i < ss.len() { stmt_size(ss[i]) } else { 0 },
        stmts_size_from(ss, i) <= stmts_size_from(ss, 0),
    decreases i,
{
    if i > 0 {
        lemma_stmts_size_from_bounds(ss, i - 1);
    }
}

/// Structural, node-by-node equality of expressions: the baseline
/// oracle when no evaluation context is supplied.
pub fn expr_eq(a: &Expr, b: &Expr) -> (r: bool)
    ensures
        r == (a@ == b@),
    decreases a,
{
    match (a, b) {
        (Expr::IntLiteral(x), Expr::IntLiteral(y)) => *x == *y,
        (Expr::StringLiteral(x), Expr::StringLiteral(y)) => *x == *y,
        (Expr::BoolLiteral(x), Expr::BoolLiteral(y)) => *x == *y,
        (Expr::NullLiteral, Expr::NullLiteral) => true,
        (Expr::Identifier(x), Expr::Identifier(y)) => *x == *y,
        (
            Expr::BinaryOp { operator: op_a, left: left_a, right: right_a },
            Expr::BinaryOp { operator: op_b, left: left_b, right: right_b },
        ) => *op_a == *op_b && expr_eq(left_a, left_b) && expr_eq(right_a, right_b),
        (
            Expr::Call { function_name: name_a, arguments: args_a },
            Expr::Call { function_name: name_b, arguments: args_b },
        ) => *name_a == *name_b && exprs_eq(args_a, args_b),
        _ => false,
    }
}

/// Structural equality of two expression sequences, element by element.
pub fn exprs_eq(a: &Vec<Expr>, b: &Vec<Expr>) -> (r: bool)
    ensures
        r == (view_exprs(a@) == view_exprs(b@)),
    decreases a@,
{
    proof {
        lemma_view_exprs_from(a@, 0);
        lemma_view_exprs_from(b@, 0);
    }
    if a.len() != b.len() {
        return false;
    }
    let mut i: usize = 0;
    while i < a.len()
        invariant
            i <= a@.len(),
            a@.len() == b@.len(),
            forall|j: int| 0 <= j < i ==> a@[j]@ == b@[j]@,
        decreases a@.len() - i,
    {
        if !expr_eq(&a[i], &b[i]) {
            proof {
                lemma_view_exprs_from(a@, 0);
                lemma_view_exprs_from(b@, 0);
                assert(view_exprs(a@)[i as int] == a@[i as int]@);
                assert(view_exprs(b@)[i as int] == b@[i as int]@);
            }
            return false;
        }
        i += 1;
    }
    proof {
        lemma_view_exprs_from(a@, 0);
        lemma_view_exprs_from(b@, 0);
        assert(view_exprs(a@) =~= view_exprs(b@));
    }
    true
}

/// Structural, node-by-node equality of statements.
pub fn stmt_eq(a: &Stmt, b: &Stmt) -> (r: bool)
    ensures
        r == (a@ == b@),
    decreases a,
{
    match (a, b) {
        (
            Stmt::VarDecl { name: name_a, initializer: init_a },
            Stmt::VarDecl { name: name_b, initializer: init_b },
        ) => *name_a == *name_b && expr_eq(init_a, init_b),
        (
            Stmt::Assign { target_name: name_a, value: value_a },
            Stmt::Assign { target_name: name_b, value: value_b },
        ) => *name_a == *name_b && expr_eq(value_a, value_b),
        (
            Stmt::If { condition: cond_a, then_branch: then_a, else_branch: else_a },
            Stmt::If { condition: cond_b, then_branch: then_b, else_branch: else_b },
        ) => expr_eq(cond_a, cond_b) && stmts_eq(then_a, then_b) && match (else_a, else_b) {
            (Some(ea), Some(eb)) => stmts_eq(ea, eb),
            (None, None) => true,
            _ => false,
        },
        (
            Stmt::Loop { iteration_count: count_a, body: body_a },
            Stmt::Loop { iteration_count: count_b, body: body_b },
        ) => *count_a == *count_b && stmts_eq(body_a, body_b),
        (Stmt::Return(ea), Stmt::Return(eb)) => expr_eq(ea, eb),
        (Stmt::ExpressionStatement(ea), Stmt::ExpressionStatement(eb)) => expr_eq(ea, eb),
        (
            Stmt::FunctionDef { name: name_a, parameters: params_a, body: body_a },
            Stmt::FunctionDef { name: name_b, parameters: params_b, body: body_b },
        ) => *name_a == *name_b && names_eq(params_a, params_b) && stmts_eq(body_a, body_b),
        (Stmt::Program(body_a), Stmt::Program(body_b)) => stmts_eq(body_a, body_b),
        _ => false,
    }
}

/// Structural equality of two statement sequences, element by element.
pub fn stmts_eq(a: &Vec<Stmt>, b: &Vec<Stmt>) -> (r: bool)
    ensures
        r == (view_stmts(a@) == view_stmts(b@)),
    decreases a@,
{
    proof {
        lemma_view_stmts_from(a@, 0);
        lemma_view_stmts_from(b@, 0);
    }
    if a.len() != b.len() {
        return false;
    }
    let mut i: usize = 0;
    while i < a.len()
        invariant
            i <= a@.len(),
            a@.len() == b@.len(),
            forall|j: int| 0 <= j < i ==> a@[j]@ == b@[j]@,
        decreases a@.len() - i,
    {
        if !stmt_eq(&a[i], &b[i]) {
            proof {
                lemma_view_stmts_from(a@, 0);
                lemma_view_stmts_from(b@, 0);
                assert(view_stmts(a@)[i as int] == a@[i as int]@);
                assert(view_stmts(b@)[i as int] == b@[i as int]@);
            }
            return false;
        }
        i += 1;
    }
    proof {
        lemma_view_stmts_from(a@, 0);
        lemma_view_stmts_from(b@, 0);
        assert(view_stmts(a@) =~= view_stmts(b@));
    }
    true
}

/// Equality of two name lists, element by element.
pub fn names_eq(a: &Vec<String>, b: &Vec<String>) -> (r: bool)
    ensures
        r == (view_names(a@) == view_names(b@)),
{
    proof {
        lemma_view_names_from(a@, 0);
        lemma_view_names_from(b@, 0);
    }
    if a.len() != b.len() {
        return false;
    }
    let mut i: usize = 0;
    while i < a.len()
        invariant
            i <= a@.len(),
            a@.len() == b@.len(),
            forall|j: int| 0 <= j < i ==> a@[j]@ == b@[j]@,
        decreases a@.len() - i,
    {
        if !(a[i] == b[i]) {
            proof {
                lemma_view_names_from(a@, 0);
                lemma_view_names_from(b@, 0);
                assert(view_names(a@)[i as int] == a@[i as int]@);
                assert(view_names(b@)[i as int] == b@[i as int]@);
            }
            return false;
        }
        i += 1;
    }
    proof {
        lemma_view_names_from(a@, 0);
        lemma_view_names_from(b@, 0);
        assert(view_names(a@) =~= view_names(b@));
    }
    true
}

impl Expr {
    /// A structurally identical new tree that shares nothing with `self`.
    pub fn deep_clone(&self) -> (r: Expr)
        ensures
            r@ == self@,
        decreases self,
    {
        match self {
            Expr::IntLiteral(n) => Expr::IntLiteral(*n),
            Expr::StringLiteral(s) => Expr::StringLiteral(s.clone()),
            Expr::BoolLiteral(b) => Expr::BoolLiteral(*b),
            Expr::NullLiteral => Expr::NullLiteral,
            Expr::Identifier(name) => Expr::Identifier(name.clone()),
            Expr::BinaryOp { operator, left, right } => Expr::BinaryOp {
                operator: *operator,
                left: Box::new(left.deep_clone()),
                right: Box::new(right.deep_clone()),
            },
            Expr::Call { function_name, arguments } => Expr::Call {
                function_name: function_name.clone(),
                arguments: clone_exprs(arguments),
            },
        }
    }
}

/// Deep-clones a sequence of expressions, in order.
pub fn clone_exprs(es: &Vec<Expr>) -> (r: Vec<Expr>)
    ensures
        r@.len() == es@.len(),
        view_exprs(r@) == view_exprs(es@),
    decreases es@,
{
    let mut out: Vec<Expr> = Vec::new();
    let mut i: usize = 0;
    while i < es.len()
        invariant
            i <= es@.len(),
            out@.len() == i,
            forall|j: int| 0 <= j < i ==> out@[j]@ == es@[j]@,
        decreases es@.len() - i,
    {
        out.push(es[i].deep_clone());
        i += 1;
    }
    proof {
        lemma_view_exprs_from(out@, 0);
        lemma_view_exprs_from(es@, 0);
        assert(view_exprs(out@) =~= view_exprs(es@));
    }
    out
}

impl Stmt {
    /// A structurally identical new tree that shares nothing with `self`.
    pub fn deep_clone(&self) -> (r: Stmt)
        ensures
            r@ == self@,
        decreases self,
    {
        match self {
            Stmt::VarDecl { name, initializer } => Stmt::VarDecl {
                name: name.clone(),
                initializer: initializer.deep_clone(),
            },
            Stmt::Assign { target_name, value } => Stmt::Assign {
                target_name: target_name.clone(),
                value: value.deep_clone(),
            },
            Stmt::If { condition, then_branch, else_branch } => Stmt::If {
                condition: condition.deep_clone(),
                then_branch: clone_stmts(then_branch),
                else_branch: match else_branch {
                    Some(els) => Some(clone_stmts(els)),
                    None => None,
                },
            },
            Stmt::Loop { iteration_count, body } => Stmt::Loop {
                iteration_count: *iteration_count,
                body: clone_stmts(body),
            },
            Stmt::Return(e) => Stmt::Return(e.deep_clone()),
            Stmt::ExpressionStatement(e) => Stmt::ExpressionStatement(e.deep_clone()),
            Stmt::FunctionDef { name, parameters, body } => Stmt::FunctionDef {
                name: name.clone(),
                parameters: clone_names(parameters),
                body: clone_stmts(body),
            },
            Stmt::Program(body) => Stmt::Program(clone_stmts(body)),
        }
    }
}

/// Deep-clones a sequence of statements, in order.
pub fn clone_stmts(ss: &Vec<Stmt>) -> (r: Vec<Stmt>)
    ensures
        r@.len() == ss@.len(),
        view_stmts(r@) == view_stmts(ss@),
    decreases ss@,
{
    let mut out: Vec<Stmt> = Vec::new();
    let mut i: usize = 0;
    while i < ss.len()
        invariant
            i <= ss@.len(),
            out@.len() == i,
            forall|j: int| 0 <= j < i ==> out@[j]@ == ss@[j]@,
        decreases ss@.len() - i,
    {
        out.push(ss[i].deep_clone());
        i += 1;
    }
    proof {
        lemma_view_stmts_from(out@, 0);
        lemma_view_stmts_from(ss@, 0);
        assert(view_stmts(out@) =~= view_stmts(ss@));
    }
    out
}

/// Clones a list of names, in order.
pub fn clone_names(ns: &Vec<String>) -> (r: Vec<String>)
    ensures
        r@.len() == ns@.len(),
        view_names(r@) == view_names(ns@),
{
    let mut out: Vec<String> = Vec::new();
    let mut i: usize = 0;
    while i < ns.len()
        invariant
            i <= ns@.len(),
            out@.len() == i,
            forall|j: int| 0 <= j < i ==> out@[j]@ == ns@[j]@,
        decreases ns@.len() - i,
    {
        out.push(ns[i].clone());
        i += 1;
    }
    proof {
        lemma_view_names_from(out@, 0);
        lemma_view_names_from(ns@, 0);
        assert(view_names(out@) =~= view_names(ns@));
    }
    out
}

} // verus!
