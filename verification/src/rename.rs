//! Structural rewrite: uniform identifier renaming.
//!
//! Every occurrence of a name that is a key of the rename table is
//! replaced by its mapped value, in every syntactic position where a
//! name can appear: function names at definition and at call sites,
//! parameter names, declared and assigned variable names, and
//! identifier references.  Names absent from the table pass through
//! unchanged.  The result is a structurally new tree; the input is
//! left untouched.

use vstd::prelude::*;

use crate::ir::{
    lemma_view_exprs_from, lemma_view_names_from, lemma_view_stmts_from, view_exprs, view_names,
    view_stmts, Expr, ExprV, Stmt, StmtV,
};

verus! {

/// What a name reads after renaming under `table`.
pub open spec fn renamed(name: Seq<char>, table: Map<Seq<char>, Seq<char>>) -> Seq<char> {
    if table.contains_key(name) {
        table[name]
    } else {
        name
    }
}

/// The renaming of an expression view under `table`.
pub open spec fn rename_expr(e: ExprV, table: Map<Seq<char>, Seq<char>>) -> ExprV
    decreases e, 0int,
{
    match e {
        ExprV::IntLiteral(_) => e,
        ExprV::StringLiteral(_) => e,
        ExprV::BoolLiteral(_) => e,
        ExprV::NullLiteral => e,
        ExprV::Identifier(name) => ExprV::Identifier(renamed(name, table)),
        ExprV::BinaryOp(op, left, right) => ExprV::BinaryOp(
            op,
            Box::new(rename_expr(*left, table)),
            Box::new(rename_expr(*right, table)),
        ),
        ExprV::Call(name, args) => ExprV::Call(
            renamed(name, table),
            rename_exprs_from(args, table, 0),
        ),
    }
}

/// The renamings of the expressions of `es` from `i` on, in order.
pub open spec fn rename_exprs_from(
    es: Seq<ExprV>,
    table: Map<Seq<char>, Seq<char>>,
    i: int,
) -> Seq<ExprV>
    decreases es, es.len() - i,
{
    if i < 0 || i >= es.len() {
        Seq::empty()
    } else {
        seq![rename_expr(es[i], table)] + rename_exprs_from(es, table, i + 1)
    }
}

/// The renamings of the names of `ns` from `i` on, in order.
pub open spec fn rename_names_from(
    ns: Seq<Seq<char>>,
    table: Map<Seq<char>, Seq<char>>,
    i: int,
) -> Seq<Seq<char>>
    decreases ns.len() - i,
{
    if i < 0 || i >= ns.len() {
        Seq::empty()
    } else {
        seq![renamed(ns[i], table)] + rename_names_from(ns, table, i + 1)
    }
}

/// The renaming of a statement view under `table`.
pub open spec fn rename_stmt(s: StmtV, table: Map<Seq<char>, Seq<char>>) -> StmtV
    decreases s, 0int,
{
    match s {
        StmtV::VarDecl(name, init) => StmtV::VarDecl(
            renamed(name, table),
            rename_expr(init, table),
        ),
        StmtV::Assign(name, value) => StmtV::Assign(
            renamed(name, table),
            rename_expr(value, table),
        ),
        StmtV::If(cond, then_branch, else_branch) => StmtV::If(
            rename_expr(cond, table),
            rename_stmts_from(then_branch, table, 0),
            match else_branch {
                Some(els) => Some(rename_stmts_from(els, table, 0)),
                None => None,
            },
        ),
        StmtV::Loop(count, body) => StmtV::Loop(count, rename_stmts_from(body, table, 0)),
        StmtV::Return(e) => StmtV::Return(rename_expr(e, table)),
        StmtV::ExpressionStatement(e) => StmtV::ExpressionStatement(rename_expr(e, table)),
        StmtV::FunctionDef(name, params, body) => StmtV::FunctionDef(
            renamed(name, table),
            rename_names_from(params, table, 0),
            rename_stmts_from(body, table, 0),
        ),
        StmtV::Program(body) => StmtV::Program(rename_stmts_from(body, table, 0)),
    }
}

/// The renamings of the statements of `ss` from `i` on, in order.
pub open spec fn rename_stmts_from(
    ss: Seq<StmtV>,
    table: Map<Seq<char>, Seq<char>>,
    i: int,
) -> Seq<StmtV>
    decreases ss, ss.len() - i,
{
    if i < 0 || i >= ss.len() {
        Seq::empty()
    } else {
        seq![rename_stmt(ss[i], table)] + rename_stmts_from(ss, table, i + 1)
    }
}

/// `rename_exprs_from` is the pointwise renaming of the suffix.
pub broadcast proof fn lemma_rename_exprs_from(
    es: Seq<ExprV>,
    table: Map<Seq<char>, Seq<char>>,
    i: int,
)
    requires
        0 <= i <= es.len(),
    ensures
        (#[trigger] rename_exprs_from(es, table, i)).len() == es.len() - i,
        forall|j: int|
            0 <= j < es.len() - i ==> rename_exprs_from(es, table, i)[j] == rename_expr(
                es[i + j],
                table,
            ),
    decreases es.len() - i,
{
    if i < es.len() {
        lemma_rename_exprs_from(es, table, i + 1);
        assert forall|j: int| 0 <= j < es.len() - i implies rename_exprs_from(es, table, i)[j]
            == rename_expr(es[i + j], table) by {
            if j > 0 {
                assert(rename_exprs_from(es, table, i)[j] == (seq![rename_expr(es[i], table)]
                    + rename_exprs_from(es, table, i + 1))[j]);
                assert((seq![rename_expr(es[i], table)] + rename_exprs_from(es, table, i + 1))[j]
                    == rename_exprs_from(es, table, i + 1)[j - 1]);
            }
        }
    }
}

/// `rename_names_from` is the pointwise renaming of the suffix.
pub broadcast proof fn lemma_rename_names_from(
    ns: Seq<Seq<char>>,
    table: Map<Seq<char>, Seq<char>>,
    i: int,
)
    requires
        0 <= i <= ns.len(),
    ensures
        (#[trigger] rename_names_from(ns, table, i)).len() == ns.len() - i,
        forall|j: int|
            0 <= j < ns.len() - i ==> rename_names_from(ns, table, i)[j] == renamed(
                ns[i + j],
                table,
            ),
    decreases ns.len() - i,
{
    if i < ns.len() {
        lemma_rename_names_from(ns, table, i + 1);
        assert forall|j: int| 0 <= j < ns.len() - i implies rename_names_from(ns, table, i)[j]
            == renamed(ns[i + j], table) by {
            if j > 0 {
                assert(rename_names_from(ns, table, i)[j] == (seq![renamed(ns[i], table)]
                    + rename_names_from(ns, table, i + 1))[j]);
                assert((seq![renamed(ns[i], table)] + rename_names_from(ns, table, i + 1))[j]
                    == rename_names_from(ns, table, i + 1)[j - 1]);
            }
        }
    }
}

/// `rename_stmts_from` is the pointwise renaming of the suffix.
pub broadcast proof fn lemma_rename_stmts_from(
    ss: Seq<StmtV>,
    table: Map<Seq<char>, Seq<char>>,
    i: int,
)
    requires
        0 <= i <= ss.len(),
    ensures
        (#[trigger] rename_stmts_from(ss, table, i)).len() == ss.len() - i,
        forall|j: int|
            0 <= j < ss.len() - i ==> rename_stmts_from(ss, table, i)[j] == rename_stmt(
                ss[i + j],
                table,
            ),
    decreases ss.len() - i,
{
    if i < ss.len() {
        lemma_rename_stmts_from(ss, table, i + 1);
        assert forall|j: int| 0 <= j < ss.len() - i implies rename_stmts_from(ss, table, i)[j]
            == rename_stmt(ss[i + j], table) by {
            if j > 0 {
                assert(rename_stmts_from(ss, table, i)[j] == (seq![rename_stmt(ss[i], table)]
                    + rename_stmts_from(ss, table, i + 1))[j]);
                assert((seq![rename_stmt(ss[i], table)] + rename_stmts_from(ss, table, i + 1))[j]
                    == rename_stmts_from(ss, table, i + 1)[j - 1]);
            }
        }
    }
}

/// The rename table as a map; where one old name stands twice, the
/// entry added first wins.
pub open spec fn rename_table_map(entries: Seq<(String, String)>) -> Map<Seq<char>, Seq<char>>
    decreases entries,
{
    if entries.len() == 0 {
        Map::empty()
    } else {
        rename_table_map(entries.subrange(1, entries.len() as int)).insert(
            entries[0].0@,
            entries[0].1@,
        )
    }
}

/// Rename-based tree rewriter.
pub struct AstTransformer {
    renames: Vec<(String, String)>,
}

impl View for AstTransformer {
    type V = Map<Seq<char>, Seq<char>>;

    closed spec fn view(&self) -> Map<Seq<char>, Seq<char>> {
        rename_table_map(self.renames@)
    }
}

impl AstTransformer {
    /// A transformer with an empty rename table.
    pub fn new() -> (r: AstTransformer)
        ensures
            r@ == Map::<Seq<char>, Seq<char>>::empty(),
    {
        AstTransformer { renames: Vec::new() }
    }

    /// Adds the rule that `old_name` reads `new_name` after the rewrite.
    pub fn add_rename(&mut self, old_name: String, new_name: String)
        ensures
            final(self)@ == old(self)@.insert(old_name@, new_name@),
    {
        let ghost prior = self.renames@;
        self.renames.insert(0, (old_name, new_name));
        proof {
            assert(self.renames@.subrange(1, self.renames@.len() as int) =~= prior);
        }
    }

    /// What `name` reads under the table, as a fresh string.
    fn rename_of(&self, name: &String) -> (r: String)
        ensures
            r@ == renamed(name@, self@),
    {
        let r = Self::rename_from(&self.renames, 0, name);
        proof {
            assert(self.renames@.subrange(0, self.renames@.len() as int) =~= self.renames@);
        }
        r
    }

    fn rename_from(entries: &Vec<(String, String)>, i: usize, name: &String) -> (r: String)
        requires
            i <= entries@.len(),
        ensures
            r@ == renamed(
                name@,
                rename_table_map(entries@.subrange(i as int, entries@.len() as int)),
            ),
        decreases entries@.len() - i,
    {
        let ghost suffix = entries@.subrange(i as int, entries@.len() as int);
        if i == entries.len() {
            proof {
                assert(suffix.len() == 0);
            }
            name.clone()
        } else {
            proof {
                assert(suffix.subrange(1, suffix.len() as int) =~= entries@.subrange(
                    i + 1,
                    entries@.len() as int,
                ));
            }
            if entries[i].0 == *name {
                entries[i].1.clone()
            } else {
                Self::rename_from(entries, i + 1, name)
            }
        }
    }

    /// Applies the rename table to a whole tree, building a new tree.
    pub fn transform(&self, tree: &Stmt) -> (r: Stmt)
        ensures
            r@ == rename_stmt(tree@, self@),
        decreases tree,
    {
        match tree {
            Stmt::VarDecl { name, initializer } => Stmt::VarDecl {
                name: self.rename_of(name),
                initializer: self.transform_expr(initializer),
            },
            Stmt::Assign { target_name, value } => Stmt::Assign {
                target_name: self.rename_of(target_name),
                value: self.transform_expr(value),
            },
            Stmt::If { condition, then_branch, else_branch } => Stmt::If {
                condition: self.transform_expr(condition),
                then_branch: self.transform_stmts(then_branch),
                else_branch: match else_branch {
                    Some(els) => Some(self.transform_stmts(els)),
                    None => None,
                },
            },
            Stmt::Loop { iteration_count, body } => Stmt::Loop {
                iteration_count: *iteration_count,
                body: self.transform_stmts(body),
            },
            Stmt::Return(e) => Stmt::Return(self.transform_expr(e)),
            Stmt::ExpressionStatement(e) => Stmt::ExpressionStatement(self.transform_expr(e)),
            Stmt::FunctionDef { name, parameters, body } => Stmt::FunctionDef {
                name: self.rename_of(name),
                parameters: self.transform_names(parameters),
                body: self.transform_stmts(body),
            },
            Stmt::Program(body) => Stmt::Program(self.transform_stmts(body)),
        }
    }

    /// Applies the rename table to one expression, building a new tree.
    pub fn transform_expr(&self, e: &Expr) -> (r: Expr)
        ensures
            r@ == rename_expr(e@, self@),
        decreases e,
    {
        match e {
            Expr::IntLiteral(n) => Expr::IntLiteral(*n),
            Expr::StringLiteral(s) => Expr::StringLiteral(s.clone()),
            Expr::BoolLiteral(b) => Expr::BoolLiteral(*b),
            Expr::NullLiteral => Expr::NullLiteral,
            Expr::Identifier(name) => Expr::Identifier(self.rename_of(name)),
            Expr::BinaryOp { operator, left, right } => Expr::BinaryOp {
                operator: *operator,
                left: Box::new(self.transform_expr(left)),
                right: Box::new(self.transform_expr(right)),
            },
            Expr::Call { function_name, arguments } => Expr::Call {
                function_name: self.rename_of(function_name),
                arguments: self.transform_exprs(arguments),
            },
        }
    }

    fn transform_exprs(&self, es: &Vec<Expr>) -> (r: Vec<Expr>)
        ensures
            view_exprs(r@) == rename_exprs_from(view_exprs(es@), self@, 0),
        decreases es@,
    {
        let mut out: Vec<Expr> = Vec::new();
        let mut i: usize = 0;
        while i < es.len()
            invariant
                i <= es@.len(),
                out@.len() == i,
                forall|j: int| 0 <= j < i ==> out@[j]@ == rename_expr(es@[j]@, self@),
            decreases es@.len() - i,
        {
            out.push(self.transform_expr(&es[i]));
            i += 1;
        }
        proof {
            lemma_view_exprs_from(es@, 0);
            lemma_view_exprs_from(out@, 0);
            lemma_rename_exprs_from(view_exprs(es@), self@, 0);
            assert(view_exprs(out@) =~= rename_exprs_from(view_exprs(es@), self@, 0));
        }
        out
    }

    fn transform_names(&self, ns: &Vec<String>) -> (r: Vec<String>)
        ensures
            view_names(r@) == rename_names_from(view_names(ns@), self@, 0),
    {
        let mut out: Vec<String> = Vec::new();
        let mut i: usize = 0;
        while i < ns.len()
            invariant
                i <= ns@.len(),
                out@.len() == i,
                forall|j: int| 0 <= j < i ==> out@[j]@ == renamed(ns@[j]@, self@),
            decreases ns@.len() - i,
        {
            out.push(self.rename_of(&ns[i]));
            i += 1;
        }
        proof {
            lemma_view_names_from(ns@, 0);
            lemma_view_names_from(out@, 0);
            lemma_rename_names_from(view_names(ns@), self@, 0);
            assert(view_names(out@) =~= rename_names_from(view_names(ns@), self@, 0));
        }
        out
    }

    fn transform_stmts(&self, ss: &Vec<Stmt>) -> (r: Vec<Stmt>)
        ensures
            view_stmts(r@) == rename_stmts_from(view_stmts(ss@), self@, 0),
        decreases ss@,
    {
        let mut out: Vec<Stmt> = Vec::new();
        let mut i: usize = 0;
        while i < ss.len()
            invariant
                i <= ss@.len(),
                out@.len() == i,
                forall|j: int| 0 <= j < i ==> out@[j]@ == rename_stmt(ss@[j]@, self@),
            decreases ss@.len() - i,
        {
            out.push(self.transform(&ss[i]));
            i += 1;
        }
        proof {
            lemma_view_stmts_from(ss@, 0);
            lemma_view_stmts_from(out@, 0);
            lemma_rename_stmts_from(view_stmts(ss@), self@, 0);
            assert(view_stmts(out@) =~= rename_stmts_from(view_stmts(ss@), self@, 0));
        }
        out
    }
}

/// How often `name` occurs in an expression, over every syntactic
/// position where a name can appear.
pub open spec fn name_count_expr(e: ExprV, name: Seq<char>) -> nat
    decreases e, 0int,
{
    match e {
        ExprV::Identifier(n) => if n == name { 1nat } else { 0nat },
        ExprV::BinaryOp(_, left, right) => name_count_expr(*left, name) + name_count_expr(
            *right,
            name,
        ),
        ExprV::Call(f, args) => (if f == name { 1nat } else { 0nat }) + name_count_exprs_from(
            args,
            name,
            0,
        ),
        _ => 0,
    }
}

/// The occurrence count of `name` over the expressions of `es` from `i` on.
pub open spec fn name_count_exprs_from(es: Seq<ExprV>, name: Seq<char>, i: int) -> nat
    decreases es, es.len() - i,
{
    if i < 0 || i >= es.len() {
        0
    } else {
        name_count_expr(es[i], name) + name_count_exprs_from(es, name, i + 1)
    }
}

/// The occurrence count of `name` over the names of `ns` from `i` on.
pub open spec fn name_count_names_from(ns: Seq<Seq<char>>, name: Seq<char>, i: int) -> nat
    decreases ns.len() - i,
{
    if i < 0 || i >= ns.len() {
        0
    } else {
        (if ns[i] == name { 1nat } else { 0nat }) + name_count_names_from(ns, name, i + 1)
    }
}

/// How often `name` occurs in a statement tree, over every syntactic
/// position where a name can appear.
pub open spec fn name_count_stmt(s: StmtV, name: Seq<char>) -> nat
    decreases s, 0int,
{
    match s {
        StmtV::VarDecl(n, e) => (if n == name { 1nat } else { 0nat }) + name_count_expr(e, name),
        StmtV::Assign(n, e) => (if n == name { 1nat } else { 0nat }) + name_count_expr(e, name),
        StmtV::If(c, t, e) => name_count_expr(c, name) + name_count_stmts_from(t, name, 0)
            + match e {
            Some(els) => name_count_stmts_from(els, name, 0),
            None => 0,
        },
        StmtV::Loop(_, body) => name_count_stmts_from(body, name, 0),
        StmtV::Return(e) => name_count_expr(e, name),
        StmtV::ExpressionStatement(e) => name_count_expr(e, name),
        StmtV::FunctionDef(n, params, body) => (if n == name { 1nat } else { 0nat })
            + name_count_names_from(params, name, 0) + name_count_stmts_from(body, name, 0),
        StmtV::Program(body) => name_count_stmts_from(body, name, 0),
    }
}

/// The occurrence count of `name` over the statements of `ss` from `i` on.
pub open spec fn name_count_stmts_from(ss: Seq<StmtV>, name: Seq<char>, i: int) -> nat
    decreases ss, ss.len() - i,
{
    if i < 0 || i >= ss.len() {
        0
    } else {
        name_count_stmt(ss[i], name) + name_count_stmts_from(ss, name, i + 1)
    }
}

proof fn lemma_count_exprs_zero(es: Seq<ExprV>, name: Seq<char>, i: int)
    requires
        0 <= i <= es.len(),
        forall|j: int| i <= j < es.len() ==> name_count_expr(#[trigger] es[j], name) == 0,
    ensures
        name_count_exprs_from(es, name, i) == 0,
    decreases es.len() - i,
{
    if i < es.len() {
        lemma_count_exprs_zero(es, name, i + 1);
    }
}

proof fn lemma_count_names_zero(ns: Seq<Seq<char>>, name: Seq<char>, i: int)
    requires
        0 <= i <= ns.len(),
        forall|j: int| i <= j < ns.len() ==> #[trigger] ns[j] != name,
    ensures
        name_count_names_from(ns, name, i) == 0,
    decreases ns.len() - i,
{
    if i < ns.len() {
        lemma_count_names_zero(ns, name, i + 1);
    }
}

proof fn lemma_count_stmts_zero(ss: Seq<StmtV>, name: Seq<char>, i: int)
    requires
        0 <= i <= ss.len(),
        forall|j: int| i <= j < ss.len() ==> name_count_stmt(#[trigger] ss[j], name) == 0,
    ensures
        name_count_stmts_from(ss, name, i) == 0,
    decreases ss.len() - i,
{
    if i < ss.len() {
        lemma_count_stmts_zero(ss, name, i + 1);
    }
}

/// Rename totality over expressions: under a table that maps `o`
/// somewhere and in which no entry maps to `o`, the renamed
/// expression contains zero occurrences of `o`.
pub proof fn lemma_rename_totality_expr(e: ExprV, table: Map<Seq<char>, Seq<char>>, o: Seq<char>)
    requires
        table.contains_key(o),
        forall|k: Seq<char>| #[trigger] table.contains_key(k) ==> table[k] != o,
    ensures
        name_count_expr(rename_expr(e, table), o) == 0,
    decreases e, 1int,
{
    match e {
        ExprV::BinaryOp(_, left, right) => {
            lemma_rename_totality_expr(*left, table, o);
            lemma_rename_totality_expr(*right, table, o);
        },
        ExprV::Call(f, args) => {
            lemma_rename_totality_exprs(args, table, o);
        },
        _ => {},
    }
}

proof fn lemma_rename_totality_exprs(es: Seq<ExprV>, table: Map<Seq<char>, Seq<char>>, o: Seq<char>)
    requires
        table.contains_key(o),
        forall|k: Seq<char>| #[trigger] table.contains_key(k) ==> table[k] != o,
    ensures
        name_count_exprs_from(rename_exprs_from(es, table, 0), o, 0) == 0,
    decreases es, 0int,
{
    let r = rename_exprs_from(es, table, 0);
    lemma_rename_exprs_from(es, table, 0);
    assert forall|j: int| 0 <= j < r.len() implies name_count_expr(#[trigger] r[j], o) == 0 by {
        lemma_rename_totality_expr(es[j], table, o);
    }
    lemma_count_exprs_zero(r, o, 0);
}

/// Rename totality: after `transform` under a table that maps `o`
/// somewhere and in which no entry maps to `o`, the resulting tree
/// contains zero occurrences of the name `o` in any position.
pub proof fn lemma_rename_totality(tree: StmtV, table: Map<Seq<char>, Seq<char>>, o: Seq<char>)
    requires
        table.contains_key(o),
        forall|k: Seq<char>| #[trigger] table.contains_key(k) ==> table[k] != o,
    ensures
        name_count_stmt(rename_stmt(tree, table), o) == 0,
    decreases tree, 1int,
{
    match tree {
        StmtV::VarDecl(_, e) => {
            lemma_rename_totality_expr(e, table, o);
        },
        StmtV::Assign(_, e) => {
            lemma_rename_totality_expr(e, table, o);
        },
        StmtV::If(c, t, e) => {
            lemma_rename_totality_expr(c, table, o);
            lemma_rename_totality_stmts(t, table, o);
            match e {
                Some(els) => {
                    lemma_rename_totality_stmts(els, table, o);
                },
                None => {},
            }
        },
        StmtV::Loop(_, body) => {
            lemma_rename_totality_stmts(body, table, o);
        },
        StmtV::Return(e) => {
            lemma_rename_totality_expr(e, table, o);
        },
        StmtV::ExpressionStatement(e) => {
            lemma_rename_totality_expr(e, table, o);
        },
        StmtV::FunctionDef(_, params, body) => {
            let rp = rename_names_from(params, table, 0);
            lemma_rename_names_from(params, table, 0);
            assert forall|j: int| 0 <= j < rp.len() implies #[trigger] rp[j] != o by {
                assert(rp[j] == renamed(params[j], table));
            }
            lemma_count_names_zero(rp, o, 0);
            lemma_rename_totality_stmts(body, table, o);
        },
        StmtV::Program(body) => {
            lemma_rename_totality_stmts(body, table, o);
        },
    }
}

proof fn lemma_rename_totality_stmts(ss: Seq<StmtV>, table: Map<Seq<char>, Seq<char>>, o: Seq<char>)
    requires
        table.contains_key(o),
        forall|k: Seq<char>| #[trigger] table.contains_key(k) ==> table[k] != o,
    ensures
        name_count_stmts_from(rename_stmts_from(ss, table, 0), o, 0) == 0,
    decreases ss, 0int,
{
    let r = rename_stmts_from(ss, table, 0);
    lemma_rename_stmts_from(ss, table, 0);
    assert forall|j: int| 0 <= j < r.len() implies name_count_stmt(#[trigger] r[j], o) == 0 by {
        lemma_rename_totality(ss[j], table, o);
    }
    lemma_count_stmts_zero(r, o, 0);
}

proof fn lemma_count_exprs_sum(
    r: Seq<ExprV>,
    es: Seq<ExprV>,
    o: Seq<char>,
    n: Seq<char>,
    i: int,
)
    requires
        r.len() == es.len(),
        0 <= i <= es.len(),
        forall|j: int|
            i <= j < es.len() ==> name_count_expr(#[trigger] r[j], n) == name_count_expr(es[j], n)
                + name_count_expr(es[j], o),
    ensures
        name_count_exprs_from(r, n, i) == name_count_exprs_from(es, n, i)
            + name_count_exprs_from(es, o, i),
    decreases es.len() - i,
{
    if i < es.len() {
        lemma_count_exprs_sum(r, es, o, n, i + 1);
    }
}

proof fn lemma_count_names_sum(
    r: Seq<Seq<char>>,
    ns: Seq<Seq<char>>,
    o: Seq<char>,
    n: Seq<char>,
    i: int,
)
    requires
        r.len() == ns.len(),
        o != n,
        0 <= i <= ns.len(),
        forall|j: int| 0 <= j < ns.len() ==> #[trigger] r[j] == renamed(
            ns[j],
            Map::<Seq<char>, Seq<char>>::empty().insert(o, n),
        ),
    ensures
        name_count_names_from(r, n, i) == name_count_names_from(ns, n, i)
            + name_count_names_from(ns, o, i),
    decreases ns.len() - i,
{
    if i < ns.len() {
        lemma_count_names_sum(r, ns, o, n, i + 1);
    }
}

proof fn lemma_count_stmts_sum(
    r: Seq<StmtV>,
    ss: Seq<StmtV>,
    o: Seq<char>,
    n: Seq<char>,
    i: int,
)
    requires
        r.len() == ss.len(),
        0 <= i <= ss.len(),
        forall|j: int|
            i <= j < ss.len() ==> name_count_stmt(#[trigger] r[j], n) == name_count_stmt(ss[j], n)
                + name_count_stmt(ss[j], o),
    ensures
        name_count_stmts_from(r, n, i) == name_count_stmts_from(ss, n, i)
            + name_count_stmts_from(ss, o, i),
    decreases ss.len() - i,
{
    if i < ss.len() {
        lemma_count_stmts_sum(r, ss, o, n, i + 1);
    }
}

/// Under the one-entry table `o -> n`, every prior occurrence of `o`
/// in an expression now reads `n`, and the occurrences of `n` add up.
pub proof fn lemma_rename_singleton_expr(e: ExprV, o: Seq<char>, n: Seq<char>)
    requires
        o != n,
    ensures
        name_count_expr(rename_expr(e, Map::<Seq<char>, Seq<char>>::empty().insert(o, n)), n)
            == name_count_expr(e, n) + name_count_expr(e, o),
    decreases e, 1int,
{
    let table = Map::<Seq<char>, Seq<char>>::empty().insert(o, n);
    match e {
        ExprV::BinaryOp(_, left, right) => {
            lemma_rename_singleton_expr(*left, o, n);
            lemma_rename_singleton_expr(*right, o, n);
        },
        ExprV::Call(f, args) => {
            lemma_rename_singleton_exprs(args, o, n);
        },
        _ => {},
    }
}

proof fn lemma_rename_singleton_exprs(es: Seq<ExprV>, o: Seq<char>, n: Seq<char>)
    requires
        o != n,
    ensures
        name_count_exprs_from(
            rename_exprs_from(es, Map::<Seq<char>, Seq<char>>::empty().insert(o, n), 0),
            n,
            0,
        ) == name_count_exprs_from(es, n, 0) + name_count_exprs_from(es, o, 0),
    decreases es, 0int,
{
    let table = Map::<Seq<char>, Seq<char>>::empty().insert(o, n);
    let r = rename_exprs_from(es, table, 0);
    lemma_rename_exprs_from(es, table, 0);
    assert forall|j: int| 0 <= j < es.len() implies name_count_expr(#[trigger] r[j], n)
        == name_count_expr(es[j], n) + name_count_expr(es[j], o) by {
        lemma_rename_singleton_expr(es[j], o, n);
    }
    lemma_count_exprs_sum(r, es, o, n, 0);
}

/// Under the one-entry table `o -> n`, every prior occurrence of `o`
/// in a tree now reads `n`: the renamed tree holds `o` nowhere and
/// holds `n` exactly as often as the original held `n` or `o`.
pub proof fn lemma_rename_singleton(tree: StmtV, o: Seq<char>, n: Seq<char>)
    requires
        o != n,
    ensures
        name_count_stmt(rename_stmt(tree, Map::<Seq<char>, Seq<char>>::empty().insert(o, n)), o)
            == 0,
        name_count_stmt(rename_stmt(tree, Map::<Seq<char>, Seq<char>>::empty().insert(o, n)), n)
            == name_count_stmt(tree, n) + name_count_stmt(tree, o),
    decreases tree, 1int,
{
    let table = Map::<Seq<char>, Seq<char>>::empty().insert(o, n);
    lemma_rename_totality(tree, table, o);
    lemma_rename_singleton_adds(tree, o, n);
}

proof fn lemma_rename_singleton_adds(tree: StmtV, o: Seq<char>, n: Seq<char>)
    requires
        o != n,
    ensures
        name_count_stmt(rename_stmt(tree, Map::<Seq<char>, Seq<char>>::empty().insert(o, n)), n)
            == name_count_stmt(tree, n) + name_count_stmt(tree, o),
    decreases tree, 1int,
{
    let table = Map::<Seq<char>, Seq<char>>::empty().insert(o, n);
    match tree {
        StmtV::VarDecl(_, e) => {
            lemma_rename_singleton_expr(e, o, n);
        },
        StmtV::Assign(_, e) => {
            lemma_rename_singleton_expr(e, o, n);
        },
        StmtV::If(c, t, e) => {
            lemma_rename_singleton_expr(c, o, n);
            lemma_rename_singleton_stmts(t, o, n);
            match e {
                Some(els) => {
                    lemma_rename_singleton_stmts(els, o, n);
                },
                None => {},
            }
        },
        StmtV::Loop(_, body) => {
            lemma_rename_singleton_stmts(body, o, n);
        },
        StmtV::Return(e) => {
            lemma_rename_singleton_expr(e, o, n);
        },
        StmtV::ExpressionStatement(e) => {
            lemma_rename_singleton_expr(e, o, n);
        },
        StmtV::FunctionDef(_, params, body) => {
            let rp = rename_names_from(params, table, 0);
            lemma_rename_names_from(params, table, 0);
            lemma_count_names_sum(rp, params, o, n, 0);
            lemma_rename_singleton_stmts(body, o, n);
        },
        StmtV::Program(body) => {
            lemma_rename_singleton_stmts(body, o, n);
        },
    }
}

proof fn lemma_rename_singleton_stmts(ss: Seq<StmtV>, o: Seq<char>, n: Seq<char>)
    requires
        o != n,
    ensures
        name_count_stmts_from(
            rename_stmts_from(ss, Map::<Seq<char>, Seq<char>>::empty().insert(o, n), 0),
            n,
            0,
        ) == name_count_stmts_from(ss, n, 0) + name_count_stmts_from(ss, o, 0),
    decreases ss, 0int,
{
    let table = Map::<Seq<char>, Seq<char>>::empty().insert(o, n);
    let r = rename_stmts_from(ss, table, 0);
    lemma_rename_stmts_from(ss, table, 0);
    assert forall|j: int| 0 <= j < ss.len() implies name_count_stmt(#[trigger] r[j], n)
        == name_count_stmt(ss[j], n) + name_count_stmt(ss[j], o) by {
        lemma_rename_singleton_adds(ss[j], o, n);
    }
    lemma_count_stmts_sum(r, ss, o, n, 0);
}

} // verus!
