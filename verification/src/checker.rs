//! Test-case-driven equivalence checking.
//!
//! Two expressions are evaluated under every registered binding
//! scenario using integer arithmetic; where evaluation of either is
//! undefined (unbound identifier, uninterpretable call, comparison or
//! logical operator, division by zero, overflow) the scenario is
//! inconclusive and skipped.  With no scenario registered, structural
//! equality is the only available oracle.  This is a finite-sample
//! test, not a proof: it can produce false positives but never false
//! negatives relative to the sampled scenarios.

use vstd::prelude::*;

use crate::bindings::Bindings;
use crate::ir::{expr_eq, BinaryOperator, Expr, ExprV};
use crate::semantic::{arith_result, fold_expr, simplify_expr_rw};

verus! {

/// The value of an expression under a binding of names to integers,
/// where that value is defined.
pub open spec fn eval_expr(e: ExprV, env: Map<Seq<char>, i64>) -> Option<i64>
    decreases e,
{
    match e {
        ExprV::IntLiteral(n) => Some(n),
        ExprV::Identifier(name) => if env.contains_key(name) {
            Some(env[name])
        } else {
            None
        },
        ExprV::BinaryOp(op, left, right) => match (eval_expr(*left, env), eval_expr(*right, env)) {
            (Some(a), Some(b)) => arith_result(op, a, b),
            _ => None,
        },
        _ => None,
    }
}

/// Whether two expressions agree under one binding: they do unless
/// both evaluate to defined values and those values differ.
pub open spec fn agree_on(e1: ExprV, e2: ExprV, env: Map<Seq<char>, i64>) -> bool {
    match (eval_expr(e1, env), eval_expr(e2, env)) {
        (Some(a), Some(b)) => a == b,
        _ => true,
    }
}

/// Whether the checker reports two expressions equivalent: with no
/// scenario, exactly when they are structurally equal; otherwise,
/// exactly when no scenario makes them disagree.
pub open spec fn equivalent_under(
    e1: ExprV,
    e2: ExprV,
    scenarios: Seq<Map<Seq<char>, i64>>,
) -> bool {
    if scenarios.len() == 0 {
        e1 == e2
    } else {
        forall|i: int| 0 <= i < scenarios.len() ==> agree_on(e1, e2, scenarios[i])
    }
}

/// Evaluates an expression under one binding scenario.
pub fn evaluate(e: &Expr, scenario: &Bindings) -> (r: Option<i64>)
    ensures
        r == eval_expr(e@, scenario@),
    decreases e,
{
    match e {
        Expr::IntLiteral(n) => Some(*n),
        Expr::Identifier(name) => scenario.get(name),
        Expr::BinaryOp { operator, left, right } => {
            let a = evaluate(left, scenario);
            let b = evaluate(right, scenario);
            match (a, b) {
                (Some(x), Some(y)) => match operator {
                    BinaryOperator::Add => x.checked_add(y),
                    BinaryOperator::Sub => x.checked_sub(y),
                    BinaryOperator::Mul => x.checked_mul(y),
                    BinaryOperator::Div => x.checked_div(y),
                    _ => None,
                },
                _ => None,
            }
        },
        _ => None,
    }
}

/// The views of the binding scenarios of `s` from `i` on, in order.
pub open spec fn scenario_views_from(s: Seq<Bindings>, i: int) -> Seq<Map<Seq<char>, i64>>
    decreases s.len() - i,
{
    if i < 0 || i >= s.len() {
        Seq::empty()
    } else {
        seq![s[i]@] + scenario_views_from(s, i + 1)
    }
}

/// `scenario_views_from` is the pointwise view of the suffix.
pub broadcast proof fn lemma_scenario_views_from(s: Seq<Bindings>, i: int)
    requires
        0 <= i <= s.len(),
    ensures
        (#[trigger] scenario_views_from(s, i)).len() == s.len() - i,
        forall|j: int| 0 <= j < s.len() - i ==> scenario_views_from(s, i)[j] == s[i + j]@,
    decreases s.len() - i,
{
    if i < s.len() {
        lemma_scenario_views_from(s, i + 1);
        assert forall|j: int| 0 <= j < s.len() - i implies scenario_views_from(s, i)[j] == s[i
            + j]@ by {
            if j > 0 {
                assert(scenario_views_from(s, i)[j] == (seq![s[i]@] + scenario_views_from(
                    s,
                    i + 1,
                ))[j]);
                assert((seq![s[i]@] + scenario_views_from(s, i + 1))[j] == scenario_views_from(
                    s,
                    i + 1,
                )[j - 1]);
            }
        }
    }
}

/// Checker that samples two expressions over registered binding
/// scenarios.
pub struct EquivalenceChecker {
    scenarios: Vec<Bindings>,
}

impl View for EquivalenceChecker {
    type V = Seq<Map<Seq<char>, i64>>;

    closed spec fn view(&self) -> Seq<Map<Seq<char>, i64>> {
        scenario_views_from(self.scenarios@, 0)
    }
}

impl EquivalenceChecker {
    /// A checker with no registered scenario.
    pub fn new() -> (r: EquivalenceChecker)
        ensures
            r@ == Seq::<Map<Seq<char>, i64>>::empty(),
    {
        EquivalenceChecker { scenarios: Vec::new() }
    }

    /// Registers one binding scenario.
    pub fn add_binding_scenario(&mut self, scenario: Bindings)
        ensures
            final(self)@ == old(self)@.push(scenario@),
    {
        let ghost prior = self.scenarios@;
        let ghost sv = scenario@;
        self.scenarios.push(scenario);
        proof {
            lemma_scenario_views_from(prior, 0);
            lemma_scenario_views_from(self.scenarios@, 0);
            assert(scenario_views_from(self.scenarios@, 0) =~= scenario_views_from(
                prior,
                0,
            ).push(sv));
        }
    }

    /// Reports whether the two expressions agree on every registered
    /// scenario, falling back to structural equality where no
    /// scenario was registered.
    pub fn are_equivalent(&self, expr1: &Expr, expr2: &Expr) -> (r: bool)
        ensures
            r == equivalent_under(expr1@, expr2@, self@),
    {
        proof {
            lemma_scenario_views_from(self.scenarios@, 0);
        }
        if self.scenarios.len() == 0 {
            return expr_eq(expr1, expr2);
        }
        let mut i: usize = 0;
        while i < self.scenarios.len()
            invariant
                i <= self.scenarios@.len(),
                self@.len() == self.scenarios@.len(),
                forall|j: int| 0 <= j < self.scenarios@.len() ==> self@[j] == self.scenarios@[j]@,
                forall|j: int| 0 <= j < i ==> agree_on(expr1@, expr2@, self@[j]),
            decreases self.scenarios@.len() - i,
        {
            let a = evaluate(expr1, &self.scenarios[i]);
            let b = evaluate(expr2, &self.scenarios[i]);
            match (a, b) {
                (Some(x), Some(y)) => {
                    if x != y {
                        proof {
                            assert(!agree_on(expr1@, expr2@, self@[i as int]));
                        }
                        return false;
                    }
                },
                _ => {},
            }
            i += 1;
        }
        true
    }
}

/// Semantics preservation of simplification: wherever an expression
/// evaluates to a defined value under a binding, its simplification
/// evaluates to the same value under that binding.
pub proof fn lemma_simplify_preserves_eval(e: ExprV, env: Map<Seq<char>, i64>)
    requires
        eval_expr(e, env).is_some(),
    ensures
        eval_expr(simplify_expr_rw(e).0, env) == eval_expr(e, env),
    decreases e,
{
    match e {
        ExprV::BinaryOp(op, left, right) => {
            lemma_simplify_preserves_eval(*left, env);
            lemma_simplify_preserves_eval(*right, env);
        },
        _ => {},
    }
}

/// The stated instance of preservation: adding a literal zero and
/// simplifying evaluates identically to the operand itself, under
/// every binding that gives the operand a defined value.
pub proof fn lemma_simplify_add_zero(x: ExprV, env: Map<Seq<char>, i64>)
    requires
        eval_expr(x, env).is_some(),
    ensures
        eval_expr(
            simplify_expr_rw(
                ExprV::BinaryOp(BinaryOperator::Add, Box::new(x), Box::new(ExprV::IntLiteral(0))),
            ).0,
            env,
        ) == eval_expr(x, env),
{
    reveal_with_fuel(simplify_expr_rw, 2);
    lemma_simplify_preserves_eval(x, env);
}

/// Whether a binding scenario is consistent with a constant
/// environment: every name the environment knows is bound to the
/// same value.
pub open spec fn consistent_with(env: Map<Seq<char>, i64>, scenario: Map<Seq<char>, i64>) -> bool {
    forall|k: Seq<char>|
        #[trigger] env.contains_key(k) ==> scenario.contains_key(k) && scenario[k] == env[k]
}

/// Semantics preservation of constant folding: under any binding
/// scenario consistent with the constant environment, the folded
/// expression evaluates exactly as the original does, defined or
/// not.
pub proof fn lemma_fold_preserves_eval(
    e: ExprV,
    env: Map<Seq<char>, i64>,
    scenario: Map<Seq<char>, i64>,
)
    requires
        consistent_with(env, scenario),
    ensures
        eval_expr(fold_expr(e, env), scenario) == eval_expr(e, scenario),
    decreases e,
{
    match e {
        ExprV::BinaryOp(op, left, right) => {
            lemma_fold_preserves_eval(*left, env, scenario);
            lemma_fold_preserves_eval(*right, env, scenario);
        },
        _ => {},
    }
}

} // verus!
