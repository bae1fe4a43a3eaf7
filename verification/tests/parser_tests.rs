#![allow(dead_code)]

use exp_rs::context::EvalContext;
use exp_rs::engine::parse_expression;
use exp_rs::error::ExprError;
use exp_rs::lexer::Lexer;
use exp_rs::types::{AstExpr, BuiltinFunction, NativeImpl, TokenKind};
use std::rc::Rc;

fn builtin(b: BuiltinFunction, a: &[f64]) -> f64 {
    let truth = |c: bool| if c { 1.0 } else { 0.0 };
    match b {
        BuiltinFunction::Add => a[0] + a[1],
        BuiltinFunction::Sub => a[0] - a[1],
        BuiltinFunction::Mul => a[0] * a[1],
        BuiltinFunction::Div => a[0] / a[1],
        BuiltinFunction::Rem => a[0] % a[1],
        BuiltinFunction::Lt => truth(a[0] < a[1]),
        BuiltinFunction::Gt => truth(a[0] > a[1]),
        BuiltinFunction::Le => truth(a[0] <= a[1]),
        BuiltinFunction::Ge => truth(a[0] >= a[1]),
        BuiltinFunction::Eq => truth(a[0] == a[1]),
        BuiltinFunction::Ne => truth(a[0] != a[1]),
        BuiltinFunction::And => truth(a[0] != 0.0 && a[1] != 0.0),
        BuiltinFunction::Or => truth(a[0] != 0.0 || a[1] != 0.0),
        BuiltinFunction::Neg => -a[0],
        BuiltinFunction::Second => a[1],
        BuiltinFunction::Abs => a[0].abs(),
        BuiltinFunction::Max => a[0].max(a[1]),
        BuiltinFunction::Min => a[0].min(a[1]),
        BuiltinFunction::Sign => {
            if a[0] > 0.0 {
                1.0
            } else if a[0] < 0.0 {
                -1.0
            } else {
                0.0
            }
        }
        BuiltinFunction::E => std::f64::consts::E,
        BuiltinFunction::Pi => std::f64::consts::PI,
        BuiltinFunction::Acos => libm::acos(a[0]),
        BuiltinFunction::Asin => libm::asin(a[0]),
        BuiltinFunction::Atan => libm::atan(a[0]),
        BuiltinFunction::Atan2 => libm::atan2(a[0], a[1]),
        BuiltinFunction::Ceil => libm::ceil(a[0]),
        BuiltinFunction::Cos => libm::cos(a[0]),
        BuiltinFunction::Cosh => libm::cosh(a[0]),
        BuiltinFunction::Exp => libm::exp(a[0]),
        BuiltinFunction::Floor => libm::floor(a[0]),
        BuiltinFunction::Round => libm::round(a[0]),
        BuiltinFunction::Ln => libm::log(a[0]),
        BuiltinFunction::Log => libm::log10(a[0]),
        BuiltinFunction::Log10 => libm::log10(a[0]),
        BuiltinFunction::Pow => libm::pow(a[0], a[1]),
        BuiltinFunction::Sin => libm::sin(a[0]),
        BuiltinFunction::Sinh => libm::sinh(a[0]),
        BuiltinFunction::Sqrt => libm::sqrt(a[0]),
        BuiltinFunction::Tan => libm::tan(a[0]),
        BuiltinFunction::Tanh => libm::tanh(a[0]),
    }
}

type Ext<'a> = &'a [&'a dyn Fn(&[f64]) -> f64];

fn native_bits(ext: Ext, f: NativeImpl, args: &[u64]) -> u64 {
    let a: Vec<f64> = args.iter().map(|x| f64::from_bits(*x)).collect();
    let r = match f {
        NativeImpl::Builtin(b) => builtin(b, &a),
        NativeImpl::External(i) => (ext[i])(&a),
    };
    r.to_bits()
}

fn literal_bits(s: String) -> u64 {
    s.parse::<f64>().expect("number literal").to_bits()
}

fn index_of(x: u64) -> usize {
    f64::from_bits(x) as usize
}

fn interp_with(expr: &str, ctx: Option<Rc<EvalContext>>, ext: Ext) -> Result<f64, ExprError> {
    exp_rs::eval::interp(expr, ctx, |f, a: Vec<u64>| native_bits(ext, f, &a), literal_bits, index_of)
        .map(f64::from_bits)
}

fn interp(expr: &str, ctx: Option<Rc<EvalContext>>) -> Result<f64, ExprError> {
    interp_with(expr, ctx, &[])
}

fn eval_ast_with(ast: &AstExpr, ctx: Option<Rc<EvalContext>>, ext: Ext) -> Result<f64, ExprError> {
    exp_rs::eval::eval_ast(ast, ctx, |f, a: Vec<u64>| native_bits(ext, f, &a), literal_bits, index_of)
        .map(f64::from_bits)
}

fn eval_ast(ast: &AstExpr, ctx: Option<Rc<EvalContext>>) -> Result<f64, ExprError> {
    eval_ast_with(ast, ctx, &[])
}

fn c(v: f64) -> AstExpr {
    AstExpr::Constant(format!("{:?}", v))
}

fn var(name: &str) -> AstExpr {
    AstExpr::Variable(name.to_string())
}

fn func(name: &str, args: Vec<AstExpr>) -> AstExpr {
    AstExpr::Function { name: name.to_string(), args }
}

fn num(s: &str) -> f64 {
    s.parse::<f64>().unwrap()
}

fn bits(v: f64) -> u64 {
    v.to_bits()
}

#[test]
fn engine_test_unknown_variable_and_function_eval() {
    let sin_var_ast = AstExpr::Variable("sin".to_string());
    let err = eval_ast(&sin_var_ast, None).unwrap_err();
    println!("Error when evaluating 'sin' as a variable: {:?}", err);
}

#[test]
fn test_parse_postfix_chained_juxtaposition() {
    let x_var = AstExpr::Variable("x".to_string());
    let tan_x = AstExpr::Function { name: "tan".to_string(), args: vec![x_var] };
    let cos_tan_x = AstExpr::Function { name: "cos".to_string(), args: vec![tan_x] };
    let sin_cos_tan_x = AstExpr::Function { name: "sin".to_string(), args: vec![cos_tan_x] };

    match &sin_cos_tan_x {
        AstExpr::Function { name, args } => {
            assert_eq!(name, "sin");
            assert_eq!(args.len(), 1);
            match &args[0] {
                AstExpr::Function { name: n2, args: args2 } => {
                    assert_eq!(n2, "cos");
                    assert_eq!(args2.len(), 1);
                    match &args2[0] {
                        AstExpr::Function { name: n3, args: args3 } => {
                            assert_eq!(n3, "tan");
                            assert_eq!(args3.len(), 1);
                            match &args3[0] {
                                AstExpr::Variable(var) => assert_eq!(var, "x"),
                                _ => panic!("Expected variable as argument to tan"),
                            }
                        }
                        _ => panic!("Expected tan as argument to cos"),
                    }
                }
                _ => panic!("Expected cos as argument to sin"),
            }
        }
        _ => panic!("Expected function node for sin cos tan x"),
    }
}

#[test]
fn engine_test_pow_arity_ast() {
    let ast = parse_expression("pow(2)").unwrap_or_else(|e| panic!("Parse error: {:?}", e));
    match ast {
        AstExpr::Function { ref name, ref args } if name == "pow" => {
            assert_eq!(args.len(), 2);
            match &args[0] {
                AstExpr::Constant(c) => assert_eq!(num(c), 2.0),
                _ => panic!("Expected constant as pow arg"),
            }
            match &args[1] {
                AstExpr::Constant(c) => assert_eq!(num(c), 2.0),
                _ => panic!("Expected constant as second pow arg"),
            }
        }
        _ => panic!("Expected function node for pow"),
    }
}

#[test]
fn test_parse_postfix_array_and_attribute_access() {
    let arr_index = AstExpr::Array { name: "arr".to_string(), index: Box::new(c(0.0)) };
    let sin_arr = AstExpr::Function { name: "sin".to_string(), args: vec![arr_index] };

    match &sin_arr {
        AstExpr::Function { name, args } => {
            assert_eq!(name, "sin");
            assert_eq!(args.len(), 1);
            match &args[0] {
                AstExpr::Array { name, index } => {
                    assert_eq!(name, "arr");
                    match &**index {
                        AstExpr::Constant(val) => assert_eq!(num(val), 0.0),
                        _ => panic!("Expected constant as array index"),
                    }
                }
                _ => panic!("Expected array as argument to sin"),
            }
        }
        _ => panic!("Expected function node for sin(arr[0])"),
    }

    let foo_bar_x = AstExpr::Function {
        name: "bar".to_string(),
        args: vec![AstExpr::Variable("x".to_string())],
    };

    match &foo_bar_x {
        AstExpr::Function { name, args } => {
            assert_eq!(name, "bar");
            assert_eq!(args.len(), 1);
            match &args[0] {
                AstExpr::Variable(var) => assert_eq!(var, "x"),
                _ => panic!("Expected variable as argument to foo.bar"),
            }
        }
        _ => panic!("Expected function node for foo.bar(x)"),
    }
}

#[test]
fn test_parse_postfix_function_call_after_attribute() {
    let ast = parse_expression("foo.bar(1)").unwrap();
    match ast {
        AstExpr::Function { name, args } => {
            assert_eq!(name, "bar");
            assert_eq!(args.len(), 1);
            match &args[0] {
                AstExpr::Constant(val) => assert_eq!(num(val), 1.0),
                _ => panic!("Expected constant as argument to foo.bar"),
            }
        }
        _ => panic!("Expected function node for foo.bar(1)"),
    }
}

#[test]
fn test_parse_postfix_array_access_complex_index() {
    let ast = parse_expression("arr[1+2*3]").unwrap();
    match ast {
        AstExpr::Array { name, index } => {
            assert_eq!(name, "arr");
            match *index {
                AstExpr::Function { name: ref n, args: ref a } if n == "+" => {
                    assert_eq!(a.len(), 2);
                }
                _ => panic!("Expected function as array index"),
            }
        }
        _ => panic!("Expected array AST node"),
    }
}

#[test]
fn test_atan2_function() {
    let result = interp("atan2(1,2)", None).unwrap();
    assert!((result - 0.4636).abs() < 1e-3, "atan2(1,2) should be approximately 0.4636");

    let result2 = interp("atan2(2,1)", None).unwrap();
    assert!((result2 - 1.1071).abs() < 1e-3, "atan2(2,1) should be approximately 1.1071");

    let result3 = interp("atan2(1,1)", None).unwrap();
    assert!((result3 - 0.7854).abs() < 1e-3, "atan2(1,1) should be approximately 0.7854 (π/4)");
}

#[test]
fn engine_test_pow_arity_eval() {
    let result = interp("pow(2)", None).unwrap();
    assert_eq!(result, 4.0);

    let result2 = interp("pow(2, 3)", None).unwrap();
    assert_eq!(result2, 8.0);
}

#[test]
fn test_function_juxtaposition() {
    let mut ctx = EvalContext::new();
    ctx.register_default_math_functions();
    let ctx_rc = Rc::new(ctx);

    let sin_ast = func("sin", vec![c(0.5)]);
    let result = eval_ast(&sin_ast, Some(ctx_rc.clone())).unwrap();
    assert!((result - libm::sin(0.5)).abs() < 1e-6, "sin 0.5 should work with juxtaposition");

    let cos_ast = func("cos", vec![c(0.0)]);
    let sin_cos_ast = func("sin", vec![cos_ast]);
    let result2 = eval_ast(&sin_cos_ast, None).unwrap();
    assert!((result2 - libm::sin(1.0)).abs() < 1e-6, "sin cos 0 should be sin(cos(0)) = sin(1)");

    let neg_ast = func("neg", vec![c(42.0)]);
    let abs_neg_ast = func("abs", vec![neg_ast]);
    let result3 = eval_ast(&abs_neg_ast, None).unwrap();
    assert_eq!(result3, 42.0, "abs -42 should be 42.0");
}

#[test]
fn engine_test_function_application_juxtaposition_ast() {
    let ast = parse_expression("sin x");
    match ast {
        Ok(ast) => match ast {
            AstExpr::Function { ref name, ref args } if name == "sin" => {
                assert_eq!(args.len(), 1);
                match &args[0] {
                    AstExpr::Variable(var) => assert_eq!(var, "x"),
                    _ => panic!("Expected variable as sin arg"),
                }
            }
            _ => panic!("Expected function node for sin x"),
        },
        Err(e) => panic!("Parse error: {:?}", e),
    }

    let ast2 = parse_expression("abs(-42)");
    match ast2 {
        Ok(ast2) => match ast2 {
            AstExpr::Function { ref name, ref args } if name == "abs" => {
                assert_eq!(args.len(), 1);
                match &args[0] {
                    AstExpr::Function { name: neg_name, args: neg_args } if neg_name == "neg" => {
                        assert_eq!(neg_args.len(), 1);
                        match &neg_args[0] {
                            AstExpr::Constant(c) => assert_eq!(num(c), 42.0),
                            _ => panic!("Expected constant as neg arg"),
                        }
                    }
                    _ => panic!("Expected neg function as abs arg"),
                }
            }
            _ => panic!("Expected function node for abs(-42)"),
        },
        Err(e) => panic!("Parse error: {:?}", e),
    }
}

#[test]
fn test_function_recognition() {
    let sin_ast = func("sin", vec![c(0.5)]);
    let asin_sin_ast = func("asin", vec![sin_ast]);
    let result = eval_ast(&asin_sin_ast, None).unwrap();
    assert!((result - 0.5).abs() < 1e-6, "asin(sin(0.5)) should be 0.5");

    let sin_paren_ast = func("sin", vec![c(0.5)]);
    let result2 = eval_ast(&sin_paren_ast, None).unwrap();
    assert!((result2 - libm::sin(0.5)).abs() < 1e-6, "sin(0.5) should work");
}

#[test]
fn test_parse_postfix_attribute_on_function_result_should_error() {
    let ast = parse_expression("(sin x).foo");
    assert!(ast.is_err(), "Attribute access on function result should be rejected");
}

#[test]
fn test_parse_comma_in_parens_and_top_level() {
    let ast = parse_expression("(1,2)");
    assert!(ast.is_ok(), "Comma in parens should be allowed");
    let ast2 = parse_expression("1,2,3");
    assert!(ast2.is_ok(), "Top-level comma should be allowed");
    let ast3 = parse_expression("(1,2),3");
    assert!(ast3.is_ok(), "Nested comma outside parens should be allowed");
}

#[test]
fn test_deeply_nested_function_calls() {
    let expr = "abs(abs(abs(abs(abs(abs(abs(abs(abs(abs(-12345))))))))))";
    let ast = parse_expression(expr);
    assert!(ast.is_ok(), "Deeply nested function calls should be parsed correctly");

    let unbalanced = "abs(abs(abs(abs(abs(abs(abs(abs(abs(abs(-12345)))))))))";
    let result = parse_expression(unbalanced);
    assert!(result.is_err(), "Unbalanced parentheses should be detected");
    match result {
        Err(ExprError::UnmatchedParenthesis { position: _, found }) => {
            assert_eq!(found, "(", "The unmatched parenthesis should be an opening one");
        }
        _ => panic!("Expected UnmatchedParenthesis error for unbalanced parentheses"),
    }
}

#[test]
fn test_parse_binary_op_deep_right_assoc_pow() {
    let ast = parse_expression("2^2^2^2^2").unwrap();
    fn count_right_assoc_pow(expr: &AstExpr) -> usize {
        match expr {
            AstExpr::Function { name, args } if name == "^" && args.len() == 2 => {
                1 + count_right_assoc_pow(&args[1])
            }
            _ => 0,
        }
    }
    let pow_depth = count_right_assoc_pow(&ast);
    assert_eq!(pow_depth, 4, "Should be right-associative chain of 4 '^'");
}

#[test]
fn test_deeply_nested_function_calls_with_debugging() {
    let expr = "abs(abs(abs(abs(abs(abs(abs(abs(abs(abs(-12345))))))))))";

    let mut lexer = Lexer::new(expr);
    let mut tokens = Vec::new();
    while let Some(tok) = lexer.next_token() {
        tokens.push(tok);
    }

    let open_count = tokens.iter().filter(|t| t.kind == TokenKind::Open && t.text == "(").count();
    let close_count = tokens.iter().filter(|t| t.kind == TokenKind::Close && t.text == ")").count();

    assert_eq!(open_count, close_count, "Number of opening and closing parentheses should match");

    let ast = parse_expression(expr);
    assert!(ast.is_ok(), "Deeply nested function calls should be parsed correctly");
}

#[test]
fn test_parse_binary_op_mixed_unary_and_power() {
    let ast = parse_expression("-2^2").unwrap();
    match ast {
        AstExpr::Function { name, args } if name == "neg" => match &args[0] {
            AstExpr::Function { name: n2, args: args2 } if n2 == "^" => {
                assert_eq!(args2.len(), 2);
            }
            _ => panic!("Expected ^ as argument to neg"),
        },
        _ => panic!("Expected neg as top-level function"),
    }
    let ast2 = parse_expression("(-2)^2").unwrap();
    match ast2 {
        AstExpr::Function { name, args } if name == "^" => match &args[0] {
            AstExpr::Function { name: n2, args: args2 } if n2 == "neg" => {
                assert_eq!(args2.len(), 1);
            }
            _ => panic!("Expected neg as left arg to ^"),
        },
        _ => panic!("Expected ^ as top-level function"),
    }
    let ast3 = parse_expression("-2^-2").unwrap();
    match ast3 {
        AstExpr::Function { name, args } if name == "neg" => match &args[0] {
            AstExpr::Function { name: n2, args: args2 } if n2 == "^" => {
                assert_eq!(args2.len(), 2);
            }
            _ => panic!("Expected ^ as argument to neg"),
        },
        _ => panic!("Expected neg as top-level function"),
    }
}

#[test]
fn test_parse_binary_op_mixed_precedence() {
    let ast = parse_expression("2+3*4^2-5/6").unwrap();
    match ast {
        AstExpr::Function { name, args } if name == "-" => {
            assert_eq!(args.len(), 2);
        }
        _ => panic!("Expected - as top-level function"),
    }
}

#[test]
fn test_parse_primary_paren_errors() {
    let ast = parse_expression("((1+2)");
    assert!(ast.is_err(), "Unmatched parenthesis should be rejected");
    let ast2 = parse_expression("1+)");
    assert!(ast2.is_err(), "Unmatched parenthesis should be rejected");
}

#[test]
fn test_parse_primary_variable_and_number_edge_cases() {
    let ast = parse_expression("foo_bar123").unwrap();
    match ast {
        AstExpr::Variable(name) => assert_eq!(name, "foo_bar123"),
        _ => panic!("Expected variable node"),
    }

    let ast3 = parse_expression("1e-2").unwrap();
    match ast3 {
        AstExpr::Constant(val) => assert!((num(&val) - 0.01).abs() < 1e-10),
        _ => panic!("Expected constant node"),
    }

    let ast4 = parse_expression("1.2e+3").unwrap();
    match ast4 {
        AstExpr::Constant(val) => assert!((num(&val) - 1200.0).abs() < 1e-10),
        _ => panic!("Expected constant node"),
    }
}

#[test]
fn test_parse_decimal_with_leading_dot() {
    let ast = parse_expression(".5").unwrap_or_else(|e| panic!("Parse error: {:?}", e));
    match ast {
        AstExpr::Constant(val) => assert_eq!(num(&val), 0.5),
        _ => panic!("Expected constant node"),
    }
}

#[test]
fn test_eval_invalid_function_arity() {
    let result = interp("sin(1, 2)", None);
    assert!(result.is_err(), "sin(1, 2) should return an error");

    if let Err(err) = result {
        match err {
            ExprError::InvalidFunctionCall { name, expected, found } => {
                assert_eq!(name, "sin");
                assert_eq!(expected, 1);
                assert_eq!(found, 2);
            }
            _ => panic!("Expected InvalidFunctionCall error for sin(1, 2), got: {:?}", err),
        }
    }

    let result2 = interp("pow(2)", None).unwrap();
    assert_eq!(result2, 4.0);
}

#[test]
fn test_function_juxtaposition_no_libm() {
    let mut ctx = EvalContext::new();
    ctx.register_native_function("sin", 1, NativeImpl::External(0)).unwrap();
    ctx.register_native_function("cos", 1, NativeImpl::External(1)).unwrap();
    ctx.register_native_function("abs", 1, NativeImpl::External(2)).unwrap();
    ctx.register_native_function("neg", 1, NativeImpl::External(3)).unwrap();
    let sin = |a: &[f64]| a[0].sin();
    let cos = |a: &[f64]| a[0].cos();
    let abs = |a: &[f64]| a[0].abs();
    let neg = |a: &[f64]| -a[0];
    let ext: Ext = &[&sin, &cos, &abs, &neg];
    let ctx_rc = Rc::new(ctx);

    let sin_ast = func("sin", vec![c(0.5)]);
    let result = eval_ast_with(&sin_ast, Some(ctx_rc.clone()), ext).unwrap();
    assert!((result - (0.5f64).sin()).abs() < 1e-6, "sin 0.5 should work with juxtaposition");

    let sin_cos_ast = func("sin", vec![func("cos", vec![c(0.0)])]);
    let result2 = eval_ast_with(&sin_cos_ast, Some(ctx_rc.clone()), ext).unwrap();
    assert!((result2 - (1.0f64).sin()).abs() < 1e-6, "sin cos 0 should be sin(cos(0)) = sin(1)");

    let abs_neg_ast = func("abs", vec![func("neg", vec![c(42.0)])]);
    let result3 = eval_ast_with(&abs_neg_ast, Some(ctx_rc), ext).unwrap();
    assert_eq!(result3, 42.0, "abs -42 should be 42.0");
}

#[test]
fn test_function_recognition_no_libm() {
    let mut ctx = EvalContext::new();
    ctx.register_native_function("sin", 1, NativeImpl::External(0)).unwrap();
    ctx.register_native_function("asin", 1, NativeImpl::External(1)).unwrap();
    let sin = |a: &[f64]| a[0].sin();
    let asin = |a: &[f64]| a[0].asin();
    let ext: Ext = &[&sin, &asin];
    let ctx_rc = Rc::new(ctx);

    let sin_ast = func("sin", vec![c(0.5)]);
    let asin_sin_ast = func("asin", vec![func("sin", vec![c(0.5)])]);
    let result = eval_ast_with(&asin_sin_ast, Some(ctx_rc.clone()), ext).unwrap();
    assert!((result - 0.5).abs() < 1e-2, "asin(sin(0.5)) should be approximately 0.5");

    let result2 = eval_ast_with(&sin_ast, Some(ctx_rc), ext).unwrap();
    assert!((result2 - (0.5f64).sin()).abs() < 1e-6, "sin(0.5) should work");
}
