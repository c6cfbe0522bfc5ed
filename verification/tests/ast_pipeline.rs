//! Tests of the IR pipeline: analysis, renaming, the semantic
//! transformer strategies, the equivalence checker and the code
//! generator.

use batuta_cookbook::analysis::analyze;
use batuta_cookbook::bindings::Bindings;
use batuta_cookbook::checker::{evaluate, EquivalenceChecker};
use batuta_cookbook::codegen::{generate, generate_expression};
use batuta_cookbook::ir::{expr_eq, stmt_eq, BinaryOperator, Expr, Stmt};
use batuta_cookbook::rename::AstTransformer;
use batuta_cookbook::semantic::{
    PreservationLevel, SemanticTransformer, TransformationType,
};

fn lit(n: i64) -> Expr {
    Expr::IntLiteral(n)
}

fn var(name: &str) -> Expr {
    Expr::Identifier(String::from(name))
}

fn binop(op: BinaryOperator, left: Expr, right: Expr) -> Expr {
    Expr::BinaryOp { operator: op, left: Box::new(left), right: Box::new(right) }
}

fn assign(name: &str, value: Expr) -> Stmt {
    Stmt::Assign { target_name: String::from(name), value }
}

#[test]
fn test_constant_fold_simple() {
    let transformer = SemanticTransformer::new();
    let expr = binop(BinaryOperator::Add, lit(2), lit(3));
    let result = transformer.constant_fold(&expr);
    assert_eq!(result, lit(5));
}

#[test]
fn test_constant_fold_nested() {
    let transformer = SemanticTransformer::new();
    let expr = binop(
        BinaryOperator::Mul,
        binop(BinaryOperator::Add, lit(2), lit(3)),
        lit(4),
    );
    let result = transformer.constant_fold(&expr);
    assert_eq!(result, lit(20));
}

#[test]
fn test_constant_fold_with_variable() {
    let transformer = SemanticTransformer::new();
    let expr = binop(BinaryOperator::Add, var("x"), lit(5));
    let result = transformer.constant_fold(&expr);
    assert!(matches!(result, Expr::BinaryOp { .. }));
}

#[test]
fn test_constant_fold_known_variable() {
    let mut transformer = SemanticTransformer::new();
    transformer.mark_constant(String::from("x"), 10);
    let expr = binop(BinaryOperator::Add, var("x"), lit(5));
    let result = transformer.constant_fold(&expr);
    assert_eq!(result, lit(15));
}

#[test]
fn test_constant_fold_declines_division_by_zero() {
    let transformer = SemanticTransformer::new();
    let expr = binop(BinaryOperator::Div, lit(7), lit(0));
    let result = transformer.constant_fold(&expr);
    assert_eq!(result, binop(BinaryOperator::Div, lit(7), lit(0)));
}

#[test]
fn test_constant_fold_declines_overflow() {
    let transformer = SemanticTransformer::new();
    let expr = binop(BinaryOperator::Add, lit(i64::MAX), lit(1));
    let result = transformer.constant_fold(&expr);
    assert_eq!(result, binop(BinaryOperator::Add, lit(i64::MAX), lit(1)));
}

#[test]
fn test_constant_fold_idempotent_samples() {
    let mut transformer = SemanticTransformer::new();
    transformer.mark_constant(String::from("k"), 3);
    let samples = vec![
        binop(BinaryOperator::Add, var("k"), lit(4)),
        binop(BinaryOperator::Div, lit(1), lit(0)),
        binop(BinaryOperator::Mul, var("x"), binop(BinaryOperator::Sub, lit(9), lit(2))),
        Expr::Call {
            function_name: String::from("f"),
            arguments: vec![binop(BinaryOperator::Add, lit(1), lit(1))],
        },
    ];
    for expr in samples {
        let once = transformer.constant_fold(&expr);
        let twice = transformer.constant_fold(&once);
        assert_eq!(twice, once);
    }
}

#[test]
fn test_fold_statement_counts_changes() {
    let transformer = SemanticTransformer::new();
    let stmt = assign("result", binop(BinaryOperator::Add, lit(2), lit(3)));
    let result = transformer.transform_stmt(&stmt, TransformationType::ConstantFolding);
    assert_eq!(result.changes_applied, 1);
    assert_eq!(result.transformed, assign("result", lit(5)));
    assert_eq!(result.preservation_level, PreservationLevel::Guaranteed);
}

#[test]
fn test_fold_statement_no_change() {
    let transformer = SemanticTransformer::new();
    let stmt = assign("result", var("x"));
    let result = transformer.transform_stmt(&stmt, TransformationType::ConstantFolding);
    assert_eq!(result.changes_applied, 0);
    assert_eq!(result.transformed, assign("result", var("x")));
}

#[test]
fn test_dead_code_elimination_true() {
    let transformer = SemanticTransformer::new();
    let stmt = Stmt::If {
        condition: lit(1),
        then_branch: vec![Stmt::ExpressionStatement(lit(42))],
        else_branch: Some(vec![Stmt::ExpressionStatement(lit(0))]),
    };
    let result = transformer.transform_stmt(&stmt, TransformationType::DeadCodeElimination);
    assert!(result.changes_applied > 0);
    assert_eq!(result.transformed, Stmt::ExpressionStatement(lit(42)));
}

#[test]
fn test_dead_code_elimination_false() {
    let transformer = SemanticTransformer::new();
    let stmt = Stmt::If {
        condition: lit(0),
        then_branch: vec![Stmt::ExpressionStatement(lit(42))],
        else_branch: Some(vec![Stmt::ExpressionStatement(lit(99))]),
    };
    let result = transformer.transform_stmt(&stmt, TransformationType::DeadCodeElimination);
    assert!(result.changes_applied > 0);
    assert_eq!(result.transformed, Stmt::ExpressionStatement(lit(99)));
    assert_eq!(result.preservation_level, PreservationLevel::Likely);
}

#[test]
fn test_dead_code_elimination_false_no_else() {
    let transformer = SemanticTransformer::new();
    let stmt = Stmt::If {
        condition: lit(0),
        then_branch: vec![Stmt::ExpressionStatement(lit(42))],
        else_branch: None,
    };
    let result = transformer.transform_stmt(&stmt, TransformationType::DeadCodeElimination);
    assert_eq!(result.transformed, Stmt::ExpressionStatement(lit(0)));
}

#[test]
fn test_dead_code_elimination_shell_wrap() {
    let transformer = SemanticTransformer::new();
    let stmt = Stmt::If {
        condition: Expr::BoolLiteral(true),
        then_branch: vec![assign("a", lit(1)), assign("b", lit(2))],
        else_branch: Some(vec![assign("c", lit(3))]),
    };
    let result = transformer.transform_stmt(&stmt, TransformationType::DeadCodeElimination);
    assert_eq!(
        result.transformed,
        Stmt::If {
            condition: lit(1),
            then_branch: vec![assign("a", lit(1)), assign("b", lit(2))],
            else_branch: None,
        }
    );
}

#[test]
fn test_loop_unrolling_small() {
    let transformer = SemanticTransformer::new();
    let stmt = Stmt::Loop { iteration_count: 3, body: vec![Stmt::ExpressionStatement(lit(1))] };
    let result = transformer.transform_stmt(&stmt, TransformationType::LoopUnrolling);
    assert_eq!(result.changes_applied, 1);
    assert_eq!(
        result.transformed,
        Stmt::If {
            condition: lit(1),
            then_branch: vec![
                Stmt::ExpressionStatement(lit(1)),
                Stmt::ExpressionStatement(lit(1)),
                Stmt::ExpressionStatement(lit(1)),
            ],
            else_branch: None,
        }
    );
}

#[test]
fn test_loop_unrolling_large() {
    let transformer = SemanticTransformer::new();
    let stmt = Stmt::Loop { iteration_count: 100, body: vec![Stmt::ExpressionStatement(lit(1))] };
    let result = transformer.transform_stmt(&stmt, TransformationType::LoopUnrolling);
    assert_eq!(result.changes_applied, 0);
    assert_eq!(
        result.transformed,
        Stmt::Loop { iteration_count: 100, body: vec![Stmt::ExpressionStatement(lit(1))] }
    );
}

#[test]
fn test_loop_unrolling_respects_custom_bound() {
    let transformer = SemanticTransformer::new().with_max_unroll(2);
    let stmt = Stmt::Loop { iteration_count: 3, body: vec![Stmt::ExpressionStatement(lit(1))] };
    let result = transformer.transform_stmt(&stmt, TransformationType::LoopUnrolling);
    assert_eq!(result.changes_applied, 0);
}

#[test]
fn test_expression_simplification() {
    let transformer = SemanticTransformer::new();
    let expr = binop(BinaryOperator::Add, var("x"), lit(0));
    let (result, changes) = transformer.simplify_expr(&expr);
    assert_eq!(result, var("x"));
    assert_eq!(changes, 1);
}

#[test]
fn test_simplify_multiply_by_zero() {
    let transformer = SemanticTransformer::new();
    let expr = binop(BinaryOperator::Mul, var("x"), lit(0));
    let (result, changes) = transformer.simplify_expr(&expr);
    assert_eq!(result, lit(0));
    assert_eq!(changes, 1);
}

#[test]
fn test_simplify_multiply_by_one() {
    let transformer = SemanticTransformer::new();
    let expr = binop(BinaryOperator::Mul, var("y"), lit(1));
    let (result, changes) = transformer.simplify_expr(&expr);
    assert_eq!(result, var("y"));
    assert_eq!(changes, 1);
}

#[test]
fn test_simplify_preserves_evaluation() {
    let transformer = SemanticTransformer::new();
    let mut scenario = Bindings::new();
    scenario.set(String::from("x"), 7);
    let expr = binop(BinaryOperator::Add, var("x"), lit(0));
    let (simplified, _) = transformer.simplify_expr(&expr);
    assert_eq!(evaluate(&expr, &scenario), Some(7));
    assert_eq!(evaluate(&simplified, &scenario), Some(7));
}

#[test]
fn test_fold_preserves_evaluation() {
    let mut transformer = SemanticTransformer::new();
    transformer.mark_constant(String::from("k"), 3);
    let mut scenario = Bindings::new();
    scenario.set(String::from("k"), 3);
    scenario.set(String::from("x"), 4);
    let expr = binop(BinaryOperator::Add, var("k"), var("x"));
    let folded = transformer.constant_fold(&expr);
    assert_eq!(folded, binop(BinaryOperator::Add, lit(3), var("x")));
    assert_eq!(evaluate(&expr, &scenario), Some(7));
    assert_eq!(evaluate(&folded, &scenario), Some(7));
}

#[test]
fn test_function_inlining_passthrough() {
    let transformer = SemanticTransformer::new();
    let stmt = assign("x", binop(BinaryOperator::Add, lit(1), lit(2)));
    let result = transformer.transform_stmt(&stmt, TransformationType::FunctionInlining);
    assert_eq!(result.changes_applied, 0);
    assert_eq!(result.transformed, stmt);
    assert_eq!(result.preservation_level, PreservationLevel::Unsafe);
}

#[test]
fn test_preservation_levels() {
    let transformer = SemanticTransformer::new();
    assert_eq!(
        transformer.get_preservation_level(TransformationType::ConstantFolding),
        PreservationLevel::Guaranteed
    );
    assert_eq!(
        transformer.get_preservation_level(TransformationType::LoopUnrolling),
        PreservationLevel::Likely
    );
    assert_eq!(
        transformer.get_preservation_level(TransformationType::FunctionInlining),
        PreservationLevel::Unsafe
    );
}

#[test]
fn test_equivalence_checker() {
    let mut checker = EquivalenceChecker::new();
    let mut scenario = Bindings::new();
    scenario.set(String::from("x"), 5);
    checker.add_binding_scenario(scenario);

    let expr1 = binop(BinaryOperator::Add, var("x"), lit(3));
    let expr2 = lit(8);
    assert!(checker.are_equivalent(&expr1, &expr2));
}

#[test]
fn test_equivalence_checker_not_equivalent() {
    let mut checker = EquivalenceChecker::new();
    let mut scenario = Bindings::new();
    scenario.set(String::from("x"), 5);
    checker.add_binding_scenario(scenario);

    let expr1 = var("x");
    let expr2 = lit(10);
    assert!(!checker.are_equivalent(&expr1, &expr2));
}

#[test]
fn test_equivalence_checker_structural_fallback() {
    let checker = EquivalenceChecker::new();
    let expr1 = binop(BinaryOperator::Add, var("x"), lit(3));
    let expr2 = binop(BinaryOperator::Add, var("x"), lit(3));
    let expr3 = binop(BinaryOperator::Add, var("x"), lit(4));
    assert!(checker.are_equivalent(&expr1, &expr2));
    assert!(!checker.are_equivalent(&expr1, &expr3));
}

#[test]
fn test_equivalence_checker_skips_undefined() {
    let mut checker = EquivalenceChecker::new();
    let mut scenario = Bindings::new();
    scenario.set(String::from("x"), 5);
    checker.add_binding_scenario(scenario);

    // Division by zero is inconclusive, so the single scenario is
    // skipped and no disagreement is found.
    let expr1 = binop(BinaryOperator::Div, var("x"), lit(0));
    let expr2 = lit(1);
    assert!(checker.are_equivalent(&expr1, &expr2));
}

#[test]
fn test_evaluate_unbound_identifier() {
    let scenario = Bindings::new();
    assert_eq!(evaluate(&var("missing"), &scenario), None);
}

#[test]
fn test_bindings_last_set_wins() {
    let mut b = Bindings::new();
    b.set(String::from("x"), 1);
    b.set(String::from("x"), 2);
    assert_eq!(b.get(&String::from("x")), Some(2));
    assert_eq!(b.get(&String::from("y")), None);
}

#[test]
fn test_analyzer_counts() {
    let tree = Stmt::Program(vec![Stmt::FunctionDef {
        name: String::from("f"),
        parameters: vec![],
        body: vec![
            Stmt::VarDecl { name: String::from("x"), initializer: lit(1) },
            Stmt::Return(var("x")),
        ],
    }]);
    let stats = analyze(&tree);
    assert_eq!(stats.function_count, 1);
    assert_eq!(stats.variable_declaration_count, 1);
    assert!(stats.max_nesting_depth >= 2);
}

#[test]
fn test_analyzer_empty_program() {
    let tree = Stmt::Program(vec![]);
    let stats = analyze(&tree);
    assert_eq!(stats.function_count, 0);
    assert_eq!(stats.variable_declaration_count, 0);
    assert_eq!(stats.call_count, 0);
    assert_eq!(stats.max_nesting_depth, 0);
}

#[test]
fn test_analyzer_counts_calls() {
    let tree = Stmt::Program(vec![Stmt::ExpressionStatement(Expr::Call {
        function_name: String::from("g"),
        arguments: vec![Expr::Call { function_name: String::from("h"), arguments: vec![] }],
    })]);
    let stats = analyze(&tree);
    assert_eq!(stats.call_count, 2);
}

#[test]
fn test_transformer_rename() {
    let mut transformer = AstTransformer::new();
    transformer.add_rename(String::from("old_name"), String::from("new_name"));
    let renamed = transformer.transform_expr(&var("old_name"));
    assert_eq!(renamed, var("new_name"));
}

#[test]
fn test_transformer_no_rename() {
    let transformer = AstTransformer::new();
    let e = var("unchanged");
    let renamed = transformer.transform_expr(&e);
    assert_eq!(renamed, e);
}

#[test]
fn test_transformer_function_rename() {
    let tree = Stmt::FunctionDef {
        name: String::from("old_func"),
        parameters: vec![String::from("param")],
        body: vec![],
    };
    let mut transformer = AstTransformer::new();
    transformer.add_rename(String::from("old_func"), String::from("new_func"));
    let transformed = transformer.transform(&tree);
    match transformed {
        Stmt::FunctionDef { name, .. } => assert_eq!(name, "new_func"),
        _ => panic!("expected a function definition"),
    }
}

#[test]
fn test_transformer_rename_totality() {
    let tree = Stmt::Program(vec![Stmt::FunctionDef {
        name: String::from("old"),
        parameters: vec![String::from("old")],
        body: vec![
            Stmt::Assign { target_name: String::from("old"), value: var("old") },
            Stmt::ExpressionStatement(Expr::Call {
                function_name: String::from("old"),
                arguments: vec![var("keep")],
            }),
        ],
    }]);
    let mut transformer = AstTransformer::new();
    transformer.add_rename(String::from("old"), String::from("new"));
    let transformed = transformer.transform(&tree);
    let text = generate(&transformed);
    assert!(!text.contains("old"));
    assert_eq!(text.matches("new").count(), 5);
    assert!(text.contains("keep"));
}

#[test]
fn test_code_generator_literal() {
    assert_eq!(generate_expression(&lit(42)), "42");
}

#[test]
fn test_code_generator_negative_literal() {
    assert_eq!(generate_expression(&lit(-5)), "-5");
    assert_eq!(generate_expression(&lit(i64::MIN)), "-9223372036854775808");
}

#[test]
fn test_code_generator_identifier() {
    assert_eq!(generate_expression(&var("variable")), "variable");
}

#[test]
fn test_code_generator_binary_op() {
    let e = binop(BinaryOperator::Add, lit(1), lit(2));
    assert_eq!(generate_expression(&e), "(1 + 2)");
}

#[test]
fn test_code_generator_operators() {
    let cases = vec![
        (BinaryOperator::Sub, "(1 - 2)"),
        (BinaryOperator::Mul, "(1 * 2)"),
        (BinaryOperator::Div, "(1 / 2)"),
        (BinaryOperator::Eq, "(1 == 2)"),
        (BinaryOperator::NotEq, "(1 != 2)"),
        (BinaryOperator::Lt, "(1 < 2)"),
        (BinaryOperator::Gt, "(1 > 2)"),
        (BinaryOperator::And, "(1 && 2)"),
        (BinaryOperator::Or, "(1 || 2)"),
    ];
    for (op, expected) in cases {
        assert_eq!(generate_expression(&binop(op, lit(1), lit(2))), expected);
    }
}

#[test]
fn test_code_generator_var_decl() {
    let tree = Stmt::VarDecl { name: String::from("x"), initializer: lit(10) };
    assert_eq!(generate(&tree), "let x = 10;");
}

#[test]
fn test_code_generator_function() {
    let tree = Stmt::FunctionDef {
        name: String::from("test"),
        parameters: vec![String::from("a")],
        body: vec![Stmt::Return(var("a"))],
    };
    let code = generate(&tree);
    assert!(code.contains("fn test(a)"));
    assert!(code.contains("return a;"));
    assert_eq!(code, "fn test(a) {\n    return a;\n}");
}

#[test]
fn test_code_generator_if_else() {
    let tree = Stmt::If {
        condition: binop(BinaryOperator::Gt, var("a"), var("b")),
        then_branch: vec![Stmt::Return(var("a"))],
        else_branch: Some(vec![Stmt::Return(var("b"))]),
    };
    assert_eq!(
        generate(&tree),
        "if (a > b) {\n    return a;\n} else {\n    return b;\n}"
    );
}

#[test]
fn test_code_generator_program_joins_lines() {
    let tree = Stmt::Program(vec![
        Stmt::VarDecl { name: String::from("x"), initializer: lit(1) },
        assign("x", lit(2)),
    ]);
    assert_eq!(generate(&tree), "let x = 1;\nx = 2;");
}

#[test]
fn test_code_generator_string_bool_null() {
    let tree = Stmt::ExpressionStatement(Expr::Call {
        function_name: String::from("emit"),
        arguments: vec![
            Expr::StringLiteral(String::from("hi")),
            Expr::BoolLiteral(true),
            Expr::NullLiteral,
        ],
    });
    assert_eq!(generate(&tree), "emit(\"hi\", true, null);");
}

#[test]
fn test_generate_deterministic() {
    let tree = Stmt::Program(vec![Stmt::FunctionDef {
        name: String::from("calc"),
        parameters: vec![String::from("x")],
        body: vec![
            Stmt::VarDecl {
                name: String::from("result"),
                initializer: binop(BinaryOperator::Mul, var("x"), lit(2)),
            },
            Stmt::Return(var("result")),
        ],
    }]);
    let first = generate(&tree);
    let second = generate(&tree);
    assert_eq!(first, second);
    assert_eq!(first.as_bytes(), second.as_bytes());
}

#[test]
fn test_structural_equality() {
    let a = binop(BinaryOperator::Add, var("x"), lit(3));
    let b = binop(BinaryOperator::Add, var("x"), lit(3));
    let c = binop(BinaryOperator::Add, var("x"), lit(4));
    assert!(expr_eq(&a, &b));
    assert!(!expr_eq(&a, &c));

    let s1 = assign("x", lit(1));
    let s2 = assign("x", lit(1));
    let s3 = assign("y", lit(1));
    assert!(stmt_eq(&s1, &s2));
    assert!(!stmt_eq(&s1, &s3));
}

#[test]
fn test_complete_transformation_pipeline() {
    let tree = Stmt::Program(vec![Stmt::FunctionDef {
        name: String::from("calc"),
        parameters: vec![String::from("x")],
        body: vec![
            Stmt::VarDecl {
                name: String::from("result"),
                initializer: binop(BinaryOperator::Mul, var("x"), lit(2)),
            },
            Stmt::Return(var("result")),
        ],
    }]);

    let stats = analyze(&tree);
    assert_eq!(stats.function_count, 1);
    assert_eq!(stats.variable_declaration_count, 1);

    let mut transformer = AstTransformer::new();
    transformer.add_rename(String::from("calc"), String::from("double"));
    let transformed = transformer.transform(&tree);

    let code = generate(&transformed);
    assert!(code.contains("fn double"));
}
