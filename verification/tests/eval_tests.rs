#![allow(dead_code)]

use exp_rs::context::{EvalContext, FunctionRegistry};
use exp_rs::engine::{parse_expression, parse_expression_with_reserved};
use exp_rs::error::ExprError;
use exp_rs::types::{AstExpr, BuiltinFunction, NativeImpl};
use std::rc::Rc;

fn builtin(b: BuiltinFunction, a: &[f64]) -> f64 {
    let truth = |c: bool| if c { 1.0 } else { 0.0 };
    match b {
        BuiltinFunction::Add => a[0] + a[1],
        BuiltinFunction::Sub => a[0] - a[1],
        BuiltinFunction::Mul => a[0] * a[1],
        BuiltinFunction::Div => a[0] / a[1],
        BuiltinFunction::Rem => a[0] % a[1],
        BuiltinFunction::Lt => truth(a[0] < a[1]),
        BuiltinFunction::Gt => truth(a[0] > a[1]),
        BuiltinFunction::Le => truth(a[0] <= a[1]),
        BuiltinFunction::Ge => truth(a[0] >= a[1]),
        BuiltinFunction::Eq => truth(a[0] == a[1]),
        BuiltinFunction::Ne => truth(a[0] != a[1]),
        BuiltinFunction::And => truth(a[0] != 0.0 && a[1] != 0.0),
        BuiltinFunction::Or => truth(a[0] != 0.0 || a[1] != 0.0),
        BuiltinFunction::Neg => -a[0],
        BuiltinFunction::Second => a[1],
        BuiltinFunction::Abs => a[0].abs(),
        BuiltinFunction::Max => a[0].max(a[1]),
        BuiltinFunction::Min => a[0].min(a[1]),
        BuiltinFunction::Sign => {
            if a[0] > 0.0 {
                1.0
            } else if a[0] < 0.0 {
                -1.0
            } else {
                0.0
            }
        }
        BuiltinFunction::E => std::f64::consts::E,
        BuiltinFunction::Pi => std::f64::consts::PI,
        BuiltinFunction::Acos => libm::acos(a[0]),
        BuiltinFunction::Asin => libm::asin(a[0]),
        BuiltinFunction::Atan => libm::atan(a[0]),
        BuiltinFunction::Atan2 => libm::atan2(a[0], a[1]),
        BuiltinFunction::Ceil => libm::ceil(a[0]),
        BuiltinFunction::Cos => libm::cos(a[0]),
        BuiltinFunction::Cosh => libm::cosh(a[0]),
        BuiltinFunction::Exp => libm::exp(a[0]),
        BuiltinFunction::Floor => libm::floor(a[0]),
        BuiltinFunction::Round => libm::round(a[0]),
        BuiltinFunction::Ln => libm::log(a[0]),
        BuiltinFunction::Log => libm::log10(a[0]),
        BuiltinFunction::Log10 => libm::log10(a[0]),
        BuiltinFunction::Pow => libm::pow(a[0], a[1]),
        BuiltinFunction::Sin => libm::sin(a[0]),
        BuiltinFunction::Sinh => libm::sinh(a[0]),
        BuiltinFunction::Sqrt => libm::sqrt(a[0]),
        BuiltinFunction::Tan => libm::tan(a[0]),
        BuiltinFunction::Tanh => libm::tanh(a[0]),
    }
}

type Ext<'a> = &'a [&'a dyn Fn(&[f64]) -> f64];

fn native_bits(ext: Ext, f: NativeImpl, args: &[u64]) -> u64 {
    let a: Vec<f64> = args.iter().map(|x| f64::from_bits(*x)).collect();
    let r = match f {
        NativeImpl::Builtin(b) => builtin(b, &a),
        NativeImpl::External(i) => (ext[i])(&a),
    };
    r.to_bits()
}

fn literal_bits(s: String) -> u64 {
    s.parse::<f64>().expect("number literal").to_bits()
}

fn index_of(x: u64) -> usize {
    f64::from_bits(x) as usize
}

fn interp_with(expr: &str, ctx: Option<Rc<EvalContext>>, ext: Ext) -> Result<f64, ExprError> {
    exp_rs::eval::interp(expr, ctx, |f, a: Vec<u64>| native_bits(ext, f, &a), literal_bits, index_of)
        .map(f64::from_bits)
}

fn interp(expr: &str, ctx: Option<Rc<EvalContext>>) -> Result<f64, ExprError> {
    interp_with(expr, ctx, &[])
}

fn eval_ast_with(ast: &AstExpr, ctx: Option<Rc<EvalContext>>, ext: Ext) -> Result<f64, ExprError> {
    exp_rs::eval::eval_ast(ast, ctx, |f, a: Vec<u64>| native_bits(ext, f, &a), literal_bits, index_of)
        .map(f64::from_bits)
}

fn eval_ast(ast: &AstExpr, ctx: Option<Rc<EvalContext>>) -> Result<f64, ExprError> {
    eval_ast_with(ast, ctx, &[])
}

fn c(v: f64) -> AstExpr {
    AstExpr::Constant(format!("{:?}", v))
}

fn var(name: &str) -> AstExpr {
    AstExpr::Variable(name.to_string())
}

fn func(name: &str, args: Vec<AstExpr>) -> AstExpr {
    AstExpr::Function { name: name.to_string(), args }
}

fn num(s: &str) -> f64 {
    s.parse::<f64>().unwrap()
}

fn bits(v: f64) -> u64 {
    v.to_bits()
}

fn create_test_context() -> EvalContext {
    EvalContext::new()
}

#[test]
fn mod_test_eval_user_function_polynomial() {
    let mut ctx = create_test_context();
    ctx.register_expression_function("polynomial", &["x"], "x^3 + 2*x^2 + 3*x + 4").unwrap();
    let ast = func("polynomial", vec![c(3.0)]);
    let val = eval_ast(&ast, Some(Rc::new(ctx.clone()))).unwrap();
    assert_eq!(val, 58.0);
}

#[test]
fn mod_test_eval_expression_function_simple() {
    let mut ctx = EvalContext::new();
    ctx.register_expression_function("double", &["x"], "x*2").unwrap();
    let ast = func("double", vec![c(7.0)]);
    let val = eval_ast(&ast, Some(Rc::new(ctx.clone()))).unwrap();
    assert_eq!(val, 14.0);
}

#[test]
fn mod_test_eval_native_function_simple() {
    let mut ctx = EvalContext::new();
    ctx.register_native_function("triple", 1, NativeImpl::External(0)).unwrap();
    let triple = |args: &[f64]| args[0] * 3.0;
    let ast = func("triple", vec![c(4.0)]);
    let val = eval_ast_with(&ast, Some(Rc::new(ctx.clone())), &[&triple]).unwrap();
    assert_eq!(val, 12.0);
}

#[test]
fn mod_test_eval_variable_builtin_constants() {
    assert!((eval_ast(&var("pi"), None).unwrap() - std::f64::consts::PI).abs() < 1e-10);
    assert!((eval_ast(&var("e"), None).unwrap() - std::f64::consts::E).abs() < 1e-10);
}

#[test]
fn mod_test_eval_variable_context_lookup() {
    let mut ctx = EvalContext::new();
    ctx.set_parameter("x", bits(42.0)).unwrap();
    ctx.constants.insert("y".to_string(), bits(std::f64::consts::PI)).expect("Failed to insert constant");
    assert_eq!(eval_ast(&var("x"), Some(Rc::new(ctx.clone()))).unwrap(), 42.0);
    assert_eq!(eval_ast(&var("y"), Some(Rc::new(ctx.clone()))).unwrap(), std::f64::consts::PI);
}

#[test]
fn mod_test_eval_variable_unknown_and_function_name() {
    let err = eval_ast(&var("nosuchvar"), None).unwrap_err();
    assert!(matches!(err, ExprError::UnknownVariable { .. }));
    let err2 = eval_ast(&var("sin"), None).unwrap_err();
    assert!(matches!(err2, ExprError::Syntax(_)));
}

#[test]
fn mod_test_eval_function_native_and_expression() {
    let mut ctx = create_test_context();
    let val = eval_ast(&func("sin", vec![c(0.0)]), Some(Rc::new(ctx.clone()))).unwrap();
    assert!((val - 0.0).abs() < 1e-10);

    ctx.register_expression_function("double", &["x"], "x*2").unwrap();
    let val2 = eval_ast(&func("double", vec![c(5.0)]), Some(Rc::new(ctx.clone()))).unwrap();
    assert_eq!(val2, 10.0);
}

#[test]
fn mod_test_eval_function_user_function() {
    let mut ctx = create_test_context();
    ctx.register_expression_function("inc", &["x"], "x+1").unwrap();
    let val = eval_ast(&func("inc", vec![c(41.0)]), Some(Rc::new(ctx.clone()))).unwrap();
    assert_eq!(val, 42.0);
}

#[test]
fn mod_test_eval_function_builtin_fallback() {
    let ctx = create_test_context();
    let val = eval_ast(&func("pow", vec![c(2.0), c(3.0)]), Some(Rc::new(ctx.clone()))).unwrap();
    assert_eq!(val, 8.0);
    let val2 = eval_ast(&func("abs", vec![c(-5.0)]), Some(Rc::new(ctx.clone()))).unwrap();
    assert_eq!(val2, 5.0);
}

#[test]
fn mod_test_eval_array_success_and_out_of_bounds() {
    let mut ctx = EvalContext::new();
    ctx.arrays
        .insert("arr".to_string(), vec![bits(1.0), bits(2.0), bits(3.0)])
        .expect("Failed to insert array");

    let ast = AstExpr::Array { name: "arr".to_string(), index: Box::new(c(1.0)) };
    let val = eval_ast(&ast, Some(Rc::new(ctx.clone()))).unwrap();
    assert_eq!(val, 2.0);

    let ast2 = AstExpr::Array { name: "arr".to_string(), index: Box::new(c(10.0)) };
    let err = eval_ast(&ast2, Some(Rc::new(ctx.clone()))).unwrap_err();
    assert!(matches!(err, ExprError::ArrayIndexOutOfBounds { .. }));
}

#[test]
fn mod_test_eval_array_unknown() {
    let ctx = EvalContext::new();
    let ast = AstExpr::Array { name: "nosucharr".to_string(), index: Box::new(c(0.0)) };
    let err = eval_ast(&ast, Some(Rc::new(ctx.clone()))).unwrap_err();
    assert!(matches!(err, ExprError::UnknownVariable { .. }));
}

#[test]
fn mod_test_eval_attribute_success_and_not_found() {
    let mut ctx = EvalContext::new();
    ctx.set_attribute("bar", "foo", bits(123.0)).expect("Failed to set attribute");
    let ast = AstExpr::Attribute { base: "bar".to_string(), attr: "foo".to_string() };
    let val = eval_ast(&ast, Some(Rc::new(ctx.clone()))).unwrap();
    assert_eq!(val, 123.0);
    let ast2 = AstExpr::Attribute { base: "bar".to_string(), attr: "baz".to_string() };
    let err = eval_ast(&ast2, Some(Rc::new(ctx.clone()))).unwrap_err();
    assert!(matches!(err, ExprError::AttributeNotFound { .. }));
}

#[test]
fn mod_test_eval_attribute_unknown_base() {
    let ctx = EvalContext::new();
    let ast = AstExpr::Attribute { base: "nosuch".to_string(), attr: "foo".to_string() };
    let err = eval_ast(&ast, Some(Rc::new(ctx.clone()))).unwrap_err();
    assert!(matches!(err, ExprError::AttributeNotFound { .. }));
}

#[test]
fn mod_test_neg_pow_ast() {
    let ast = parse_expression("-2^2").unwrap_or_else(|e| panic!("Parse error: {:?}", e));
    match ast {
        AstExpr::Function { ref name, ref args } if name == "neg" => {
            assert_eq!(args.len(), 1);
            match &args[0] {
                AstExpr::Function { name: pow_name, args: pow_args } if pow_name == "^" => {
                    assert_eq!(pow_args.len(), 2);
                    match (&pow_args[0], &pow_args[1]) {
                        (AstExpr::Constant(a), AstExpr::Constant(b)) => {
                            assert_eq!(num(a), 2.0);
                            assert_eq!(num(b), 2.0);
                        }
                        _ => panic!("Expected constants as pow args"),
                    }
                }
                _ => panic!("Expected pow as argument to neg"),
            }
        }
        _ => panic!("Expected neg as top-level function"),
    }
}

#[test]
fn mod_test_neg_pow_eval() {
    let val = interp("-2^2", None).unwrap();
    assert_eq!(val, -4.0);
    let val2 = interp("(-2)^2", None).unwrap();
    assert_eq!(val2, 4.0);
}

#[test]
fn mod_test_paren_neg_pow_ast() {
    let ast = parse_expression("(-2)^2").unwrap_or_else(|e| panic!("Parse error: {:?}", e));
    match ast {
        AstExpr::Function { ref name, ref args } if name == "^" => {
            assert_eq!(args.len(), 2);
            match &args[0] {
                AstExpr::Function { name: neg_name, args: neg_args } if neg_name == "neg" => {
                    assert_eq!(neg_args.len(), 1);
                    match &neg_args[0] {
                        AstExpr::Constant(a) => assert_eq!(num(a), 2.0),
                        _ => panic!("Expected constant as neg arg"),
                    }
                }
                _ => panic!("Expected neg as left arg to pow"),
            }
            match &args[1] {
                AstExpr::Constant(b) => assert_eq!(num(b), 2.0),
                _ => panic!("Expected constant as right arg to pow"),
            }
        }
        _ => panic!("Expected pow as top-level function"),
    }
}

#[test]
fn mod_test_function_application_juxtaposition_eval() {
    let ctx = create_test_context();
    let ast = func("abs", vec![func("neg", vec![c(42.0)])]);
    let val = eval_ast(&ast, Some(Rc::new(ctx))).unwrap();
    assert_eq!(val, 42.0);
}

#[test]
fn mod_test_unknown_variable_and_function_ast() {
    let ast = parse_expression("sin").unwrap_or_else(|e| panic!("Parse error: {:?}", e));
    match ast {
        AstExpr::Variable(ref name) => assert_eq!(name, "sin"),
        _ => panic!("Expected variable node for sin"),
    }
    let ast2 = parse_expression("abs").unwrap_or_else(|e| panic!("Parse error: {:?}", e));
    match ast2 {
        AstExpr::Variable(ref name) => assert_eq!(name, "abs"),
        _ => panic!("Expected variable node for abs"),
    }
}

#[test]
fn mod_test_unknown_variable_and_function_eval() {
    let ctx = create_test_context();
    let ctx_rc = Rc::new(ctx);

    let err = eval_ast(&var("sin"), Some(ctx_rc.clone())).unwrap_err();
    match err {
        ExprError::Syntax(msg) => {
            assert!(msg.contains("Function 'sin' used without arguments"));
        }
        _ => panic!("Expected Syntax error, got {:?}", err),
    }

    let err2 = eval_ast(&var("abs"), Some(ctx_rc.clone())).unwrap_err();
    match err2 {
        ExprError::Syntax(msg) => {
            assert!(msg.contains("Function 'abs' used without arguments"));
        }
        _ => panic!("Expected Syntax error, got {:?}", err2),
    }

    let err3 = eval_ast(&var("nosuchvar"), Some(ctx_rc)).unwrap_err();
    assert!(matches!(err3, ExprError::UnknownVariable { name } if name == "nosuchvar"));
}

#[test]
fn mod_test_override_builtin_native() {
    let mut ctx = create_test_context();

    ctx.register_native_function("sin", 1, NativeImpl::External(0)).unwrap();
    ctx.register_native_function("pow", 2, NativeImpl::External(1)).unwrap();
    ctx.register_native_function("^", 2, NativeImpl::External(1)).unwrap();
    let hundred = |_args: &[f64]| 100.0;
    let sum = |args: &[f64]| args[0] + args[1];
    let ext: Ext = &[&hundred, &sum];

    let ctx_rc = Rc::new(ctx.clone());

    let val_sin = interp_with("sin(0.5)", Some(ctx_rc.clone()), ext).unwrap();
    assert_eq!(val_sin, 100.0, "Native 'sin' override failed");

    let val_pow = interp_with("pow(3, 4)", Some(ctx_rc.clone()), ext).unwrap();
    assert_eq!(val_pow, 7.0, "Native 'pow' override failed");

    let val_pow_op = interp_with("3^4", Some(ctx_rc.clone()), ext).unwrap();
    assert_eq!(val_pow_op, 7.0, "Native '^' override failed");

    let val_cos = interp_with("cos(0)", Some(ctx_rc.clone()), ext).unwrap();
    assert!((val_cos - 1.0).abs() < 1e-9, "Built-in/default 'cos' failed after override. Got {}", val_cos);
}

#[test]
fn mod_test_override_builtin_expression() {
    let mut ctx = create_test_context();

    ctx.register_expression_function("cos", &["x"], "x * 10").unwrap();
    ctx.register_expression_function("max", &["a", "b"], "min(a, b)").unwrap();
    let ctx_rc = Rc::new(ctx.clone());

    let val_max = interp("max(10, 2)", Some(ctx_rc.clone())).unwrap();
    assert_eq!(val_max, 2.0, "Expression 'max' override failed");

    let val_cos = interp("cos(5)", Some(ctx_rc.clone())).unwrap();
    assert_eq!(val_cos, 50.0, "Expression 'cos' override failed");

    let val_sin = interp("sin(0)", Some(ctx_rc.clone())).unwrap();
    assert!((val_sin - 0.0).abs() < 1e-9, "Built-in/default 'sin' failed after override");
}

#[test]
fn mod_test_expression_function_uses_correct_context() {
    let mut ctx = create_test_context();
    ctx.set_parameter("a", bits(10.0)).expect("Failed to set parameter");
    ctx.constants.insert("my_const".to_string(), bits(100.0)).expect("Failed to insert constant");

    ctx.register_expression_function("func1_const", &["x"], "x + my_const").unwrap();
    let mut ctx_rc = Rc::new(ctx.clone());

    let val1 = interp("func1_const(5)", Some(ctx_rc.clone())).unwrap();
    assert_eq!(val1, 105.0, "func1_const should use constant from context");

    ctx.register_expression_function("func_uses_outer_var", &["x"], "x + a").unwrap();
    ctx_rc = Rc::new(ctx.clone());

    let result = interp("func_uses_outer_var(5)", Some(ctx_rc.clone()));
    match result {
        Ok(val) => assert_eq!(val, 15.0, "func_uses_outer_var should use variable 'a' from context"),
        Err(e) => panic!("Expected Ok(15.0) for func_uses_outer_var(5), got error: {:?}", e),
    }

    ctx.register_expression_function("shadow_test", &["a"], "a + 1").unwrap();
    ctx_rc = Rc::new(ctx.clone());

    let val_shadow = interp("shadow_test(7)", Some(ctx_rc.clone())).unwrap();
    assert_eq!(val_shadow, 8.0, "Parameter 'a' should shadow context variable 'a'");

    let val_a = interp("a", Some(ctx_rc)).unwrap();
    assert_eq!(val_a, 10.0, "Context 'a' should remain unchanged");
}

#[test]
fn mod_test_polynomial_expression_function_direct() {
    let mut ctx = EvalContext::new();
    ctx.register_expression_function("polynomial", &["x"], "x^3 + 2*x^2 + 3*x + 4").unwrap();
    let ctx_rc = Rc::new(ctx);

    let ast = parse_expression("polynomial(2)").unwrap();
    let result = eval_ast(&ast, Some(ctx_rc.clone())).unwrap();
    assert!((result - 26.0).abs() < 1e-10, "Expected 26.0, got {}", result);

    let ast = parse_expression("polynomial(3)").unwrap();
    let result = eval_ast(&ast, Some(ctx_rc)).unwrap();
    assert!((result - 58.0).abs() < 1e-10, "Expected 58.0, got {}", result);
}

#[test]
fn mod_test_polynomial_subexpressions() {
    let mut ctx = EvalContext::new();
    ctx.set_parameter("x", bits(2.0)).unwrap();
    let ctx_rc = Rc::new(ctx);

    let ast = parse_expression("x^3").unwrap();
    assert_eq!(eval_ast(&ast, Some(ctx_rc.clone())).unwrap(), 8.0);

    let ast = parse_expression("2*x^2").unwrap();
    assert_eq!(eval_ast(&ast, Some(ctx_rc.clone())).unwrap(), 8.0);

    let ast = parse_expression("3*x").unwrap();
    assert_eq!(eval_ast(&ast, Some(ctx_rc.clone())).unwrap(), 6.0);

    let ast = parse_expression("4").unwrap();
    assert_eq!(eval_ast(&ast, Some(ctx_rc)).unwrap(), 4.0);
}

#[test]
fn mod_test_operator_precedence() {
    let mut ctx = EvalContext::new();
    ctx.function_registry = FunctionRegistry::new();

    ctx.register_native_function("+", 2, NativeImpl::Builtin(BuiltinFunction::Add)).unwrap();
    ctx.register_native_function("*", 2, NativeImpl::Builtin(BuiltinFunction::Mul)).unwrap();
    ctx.register_native_function("^", 2, NativeImpl::External(0)).unwrap();
    let powf = |args: &[f64]| args[0].powf(args[1]);

    let ast = parse_expression("2 + 3 * 4 ^ 2").unwrap();
    let result = eval_ast_with(&ast, Some(Rc::new(ctx)), &[&powf]).unwrap();
    assert_eq!(result, 2.0 + 3.0 * 16.0);
}

#[test]
fn mod_test_polynomial_ast_structure() {
    let ast = parse_expression("x^3 + 2*x^2 + 3*x + 4").unwrap();
    println!("{:?}", ast);
}

#[test]
fn mod_test_polynomial_integration_debug() {
    let mut ctx = EvalContext::new();
    ctx.register_expression_function("polynomial", &["x"], "x^3 + 2*x^2 + 3*x + 4").unwrap();

    let params = vec!["x".to_string()];
    let body_ast = parse_expression_with_reserved("x^3 + 2*x^2 + 3*x + 4", Some(&params)).unwrap();
    let call_ast = parse_expression("polynomial(2)").unwrap();

    let ctx_rc = Rc::new(ctx.clone());
    let result = eval_ast(&call_ast, Some(ctx_rc)).unwrap();
    println!("polynomial(2) = {}", result);

    ctx.set_parameter("x", bits(2.0)).unwrap();
    let ctx_rc2 = Rc::new(ctx);
    let direct_result = eval_ast(&body_ast, Some(ctx_rc2)).unwrap();
    println!("Direct eval with x=2: {}", direct_result);
}

#[test]
fn mod_test_polynomial_argument_mapping_debug() {
    let mut ctx = EvalContext::new();
    ctx.register_expression_function("polynomial", &["x"], "x^3 + 2*x^2 + 3*x + 4").unwrap();
    let mut ctx_rc = Rc::new(ctx.clone());

    let ast_lit = parse_expression("polynomial(10)").unwrap();
    let result_lit = eval_ast(&ast_lit, Some(ctx_rc.clone())).unwrap();
    assert_eq!(result_lit, 1234.0);

    ctx.set_parameter("z", bits(10.0)).unwrap();
    ctx_rc = Rc::new(ctx.clone());

    let ast_var = parse_expression("polynomial(z)").unwrap();
    let result_var = eval_ast(&ast_var, Some(ctx_rc.clone())).unwrap();
    assert_eq!(result_var, 1234.0);

    ctx.set_parameter("a", bits(5.0)).unwrap();
    ctx.set_parameter("b", bits(10.0)).unwrap();
    ctx_rc = Rc::new(ctx.clone());

    let ast_sub = parse_expression("polynomial(a + b / 2)").unwrap();
    let result_sub = eval_ast(&ast_sub, Some(ctx_rc.clone())).unwrap();
    assert_eq!(result_sub, 1234.0);

    let ast_nested = parse_expression("polynomial(polynomial(2))").unwrap();
    let result_nested = eval_ast(&ast_nested, Some(ctx_rc)).unwrap();
    println!("polynomial(polynomial(2)) = {}", result_nested);
}

#[test]
fn mod_test_polynomial_shadowing_variable() {
    let mut ctx = EvalContext::new();
    ctx.set_parameter("x", bits(100.0)).unwrap();
    ctx.register_expression_function("polynomial", &["x"], "x^3 + 2*x^2 + 3*x + 4").unwrap();

    let ctx_rc = Rc::new(ctx);
    let call_ast = parse_expression("polynomial(2)").unwrap();
    let result = eval_ast(&call_ast, Some(ctx_rc)).unwrap();
    assert!((result - 26.0).abs() < 1e-10, "Expected 26.0, got {}", result);
}

#[test]
fn mod_test_recursion_depth_tracking_reset() {
    let ast = c(42.0);
    let result = eval_ast(&ast, None);
    assert!(result.is_ok());
    assert_eq!(result.unwrap(), 42.0);
}

#[test]
fn mod_test_nested_function_calls() {
    let mut ctx = EvalContext::new();
    ctx.register_expression_function("double", &["x"], "x * 2").unwrap();
    ctx.register_expression_function("triple", &["x"], "x * 3").unwrap();
    ctx.register_expression_function("add_10", &["x"], "x + 10").unwrap();

    let result = interp("double(triple(add_10(5)))", Some(Rc::new(ctx.clone())));

    assert!(result.is_ok(), "Failed to evaluate nested calls: {:?}", result.err());
    assert_eq!(result.unwrap(), 2.0 * 3.0 * (5.0 + 10.0), "Incorrect result for nested calls");
}

#[test]
fn mod_test_recursion_depth_with_non_recursive_expressions() {
    let expr = "1 + 2 * 3 + 4 * 5 + 6 * 7 + 8 * 9 + 10";
    let result = interp(expr, None);
    assert!(result.is_ok(), "Failed to evaluate non-recursive expression: {:?}", result.err());
    assert_eq!(result.unwrap(), 1.0 + 2.0 * 3.0 + 4.0 * 5.0 + 6.0 * 7.0 + 8.0 * 9.0 + 10.0);
}

#[test]
fn mod_test_recursion_tracking_function_specific() {
    let expr = "(1 + 2) * (3 + 4) * (5 + 6) * (7 + 8) * (9 + 10) * (11 + 12) * (13 + 14)";
    let ctx = EvalContext::new();
    let result = interp(expr, Some(Rc::new(ctx)));
    assert!(result.is_ok());
}

#[test]
fn mod_test_polynomial_ast_cache_effect() {
    let mut ctx = EvalContext::new();
    ctx.register_expression_function("polynomial", &["x"], "x^3 + 2*x^2 + 3*x + 4").unwrap();

    let expr = "polynomial(2)";
    let ctx_rc = Rc::new(ctx);

    let result1 = interp(expr, Some(ctx_rc.clone())).unwrap();
    let result2 = interp(expr, Some(ctx_rc)).unwrap();

    assert_eq!(result1, result2);
    assert!((result1 - 26.0).abs() < 1e-10);
}

#[test]
fn mod_test_polynomial_function_overriding() {
    let mut ctx = EvalContext::new();
    ctx.register_expression_function("polynomial", &["x"], "x + 1").unwrap();
    ctx.register_expression_function("polynomial", &["x"], "x^3 + 2*x^2 + 3*x + 4").unwrap();

    let ctx_rc = Rc::new(ctx);
    let call_ast = parse_expression("polynomial(2)").unwrap();
    let result = eval_ast(&call_ast, Some(ctx_rc)).unwrap();
    assert!((result - 26.0).abs() < 1e-10);
}

#[test]
fn mod_test_polynomial_name_collision_with_builtin() {
    let mut ctx = EvalContext::new();
    ctx.register_expression_function("sin", &["x"], "x + 100").unwrap();

    let ctx_rc = Rc::new(ctx);
    let call_ast = parse_expression("sin(2)").unwrap();
    let result = eval_ast(&call_ast, Some(ctx_rc)).unwrap();
    assert_eq!(result, 102.0);
}

#[test]
fn test_eval_ast_array_and_attribute_errors() {
    let ast = AstExpr::Array { name: "arr".to_string(), index: Box::new(c(0.0)) };
    let err = eval_ast(&ast, None).unwrap_err();
    match err {
        ExprError::UnknownVariable { name } => assert_eq!(name, "arr"),
        _ => panic!("Expected UnknownVariable error"),
    }
    let ast2 = AstExpr::Attribute { base: "foo".to_string(), attr: "bar".to_string() };
    let err2 = eval_ast(&ast2, None).unwrap_err();
    match err2 {
        ExprError::AttributeNotFound { base, attr } => {
            assert_eq!(base, "foo");
            assert_eq!(attr, "bar");
        }
        _ => panic!("Expected AttributeNotFound error"),
    }
}

#[test]
fn test_eval_ast_function_wrong_arity() {
    let mut ctx = EvalContext::new();
    ctx.register_native_function("sin", 1, NativeImpl::External(0)).unwrap();
    let sin = |args: &[f64]| args[0].sin();
    let ctx = Rc::new(ctx);

    let ast = func("sin", vec![c(1.0), c(2.0)]);
    let err = eval_ast_with(&ast, Some(ctx), &[&sin]).unwrap_err();
    match err {
        ExprError::InvalidFunctionCall { name, expected, found } => {
            assert_eq!(name, "sin");
            assert_eq!(expected, 1);
            assert_eq!(found, 2);
        }
        _ => panic!("Expected InvalidFunctionCall error"),
    }
}

#[test]
fn test_eval_ast_unknown_function_and_variable() {
    let ast = func("notafunc", vec![c(1.0)]);
    let err = eval_ast(&ast, None).unwrap_err();
    match err {
        ExprError::UnknownFunction { name } => assert_eq!(name, "notafunc"),
        _ => panic!("Expected UnknownFunction error"),
    }
    let ast2 = var("notavar");
    let err2 = eval_ast(&ast2, None).unwrap_err();
    match err2 {
        ExprError::UnknownVariable { name } => assert_eq!(name, "notavar"),
        _ => panic!("Expected UnknownVariable error"),
    }
}

#[test]
fn mod_test_function_application_juxtaposition_ast() {
    let sin_x_ast = func("sin", vec![var("x")]);
    match sin_x_ast {
        AstExpr::Function { ref name, ref args } if name == "sin" => {
            assert_eq!(args.len(), 1);
            match &args[0] {
                AstExpr::Variable(v) => assert_eq!(v, "x"),
                _ => panic!("Expected variable as argument"),
            }
        }
        _ => panic!("Expected function node for sin x"),
    }

    let neg_42_ast = func("neg", vec![c(42.0)]);
    let abs_neg_42_ast = func("abs", vec![neg_42_ast]);
    match abs_neg_42_ast {
        AstExpr::Function { ref name, ref args } if name == "abs" => {
            assert_eq!(args.len(), 1);
            match &args[0] {
                AstExpr::Function { name: n2, args: args2 } if n2 == "neg" => {
                    assert_eq!(args2.len(), 1);
                    match &args2[0] {
                        AstExpr::Constant(k) => assert_eq!(num(k), 42.0),
                        _ => panic!("Expected constant as neg arg"),
                    }
                }
                _ => panic!("Expected neg as argument to abs"),
            }
        }
        _ => panic!("Expected function node for abs -42"),
    }
}

#[test]
fn mod_test_pow_arity_ast() {
    let ast = parse_expression("pow(2)").unwrap_or_else(|e| panic!("Parse error: {:?}", e));
    match ast {
        AstExpr::Function { ref name, ref args } if name == "pow" => {
            assert!(args.len() == 1 || args.len() == 2);
            match &args[0] {
                AstExpr::Constant(k) => assert_eq!(num(k), 2.0),
                _ => panic!("Expected constant as pow arg"),
            }
            if args.len() == 2 {
                match &args[1] {
                    AstExpr::Constant(k) => assert_eq!(num(k), 2.0),
                    _ => panic!("Expected constant as pow second arg"),
                }
            }
        }
        _ => panic!("Expected function node for pow(2)"),
    }
}

#[test]
fn mod_test_pow_arity_eval() {
    let result = interp("pow(2)", None).unwrap();
    assert_eq!(result, 4.0);
    let result2 = interp("pow(2, 3)", None).unwrap();
    assert_eq!(result2, 8.0);
}

#[test]
fn mod_test_pow_arity_eval_no_builtins() {
    let mut ctx = EvalContext::empty();
    ctx.register_native_function("pow", 2, NativeImpl::External(0)).unwrap();
    let powf = |args: &[f64]| args[0].powf(args[1]);
    let ext: Ext = &[&powf];
    let ctx_rc = Rc::new(ctx);

    let ast = parse_expression("pow(2)").unwrap();
    match &ast {
        AstExpr::Function { name, args } => {
            assert_eq!(name, "pow");
            assert_eq!(args.len(), 2);
        }
        _ => panic!("Expected function node for pow(2)"),
    }

    let result = interp_with("pow(2)", Some(ctx_rc.clone()), ext).unwrap();
    assert_eq!(result, 4.0, "pow(2) should be interpreted as pow(2,2) = 4");
    let result2 = interp_with("pow(2, 3)", Some(ctx_rc), ext).unwrap();
    assert_eq!(result2, 8.0);
}

#[test]
fn eval_test_eval_user_function_polynomial() {
    let mut ctx = create_test_context();
    ctx.register_expression_function("polynomial", &["x"], "x^3 + 2*x^2 + 3*x + 4").unwrap();
    let ast = func("polynomial", vec![c(3.0)]);
    let val = eval_ast(&ast, Some(Rc::new(ctx.clone()))).unwrap();
    assert_eq!(val, 58.0);
}

#[test]
fn eval_test_eval_expression_function_simple() {
    let mut ctx = EvalContext::new();
    ctx.register_expression_function("double", &["x"], "x*2").unwrap();
    let ast = func("double", vec![c(7.0)]);
    let val = eval_ast(&ast, Some(Rc::new(ctx.clone()))).unwrap();
    assert_eq!(val, 14.0);
}

#[test]
fn eval_test_eval_native_function_simple() {
    let mut ctx = EvalContext::new();
    ctx.register_native_function("triple", 1, NativeImpl::External(0)).unwrap();
    let triple = |args: &[f64]| args[0] * 3.0;
    let ast = func("triple", vec![c(4.0)]);
    let val = eval_ast_with(&ast, Some(Rc::new(ctx.clone())), &[&triple]).unwrap();
    assert_eq!(val, 12.0);
}

#[test]
fn eval_test_eval_variable_builtin_constants() {
    assert!((eval_ast(&var("pi"), None).unwrap() - std::f64::consts::PI).abs() < 1e-10);
    assert!((eval_ast(&var("e"), None).unwrap() - std::f64::consts::E).abs() < 1e-10);
}

#[test]
fn eval_test_eval_variable_context_lookup() {
    let mut ctx = EvalContext::new();
    ctx.set_parameter("x", bits(42.0)).unwrap();
    ctx.constants.insert("y".to_string(), bits(3.14)).expect("Failed to insert constant");
    assert_eq!(eval_ast(&var("x"), Some(Rc::new(ctx.clone()))).unwrap(), 42.0);
    assert_eq!(eval_ast(&var("y"), Some(Rc::new(ctx.clone()))).unwrap(), 3.14);
}

#[test]
fn eval_test_eval_variable_unknown_and_function_name() {
    let err = eval_ast(&var("nosuchvar"), None).unwrap_err();
    assert!(matches!(err, ExprError::UnknownVariable { .. }));
    let err2 = eval_ast(&var("sin"), None).unwrap_err();
    assert!(matches!(err2, ExprError::Syntax(_)));
}

#[test]
fn eval_test_eval_function_native_and_expression() {
    let mut ctx = create_test_context();
    let val = eval_ast(&func("sin", vec![c(0.0)]), Some(Rc::new(ctx.clone()))).unwrap();
    assert!((val - 0.0).abs() < 1e-10);

    ctx.register_expression_function("double", &["x"], "x*2").unwrap();
    let val2 = eval_ast(&func("double", vec![c(5.0)]), Some(Rc::new(ctx.clone()))).unwrap();
    assert_eq!(val2, 10.0);
}

#[test]
fn eval_test_eval_function_user_function() {
    let mut ctx = create_test_context();
    ctx.register_expression_function("inc", &["x"], "x+1").unwrap();
    let val = eval_ast(&func("inc", vec![c(41.0)]), Some(Rc::new(ctx.clone()))).unwrap();
    assert_eq!(val, 42.0);
}

#[test]
fn eval_test_eval_function_builtin_fallback() {
    let ctx = create_test_context();
    let val = eval_ast(&func("pow", vec![c(2.0), c(3.0)]), Some(Rc::new(ctx.clone()))).unwrap();
    assert_eq!(val, 8.0);
    let val2 = eval_ast(&func("abs", vec![c(-5.0)]), Some(Rc::new(ctx.clone()))).unwrap();
    assert_eq!(val2, 5.0);
}

#[test]
fn eval_test_eval_array_success_and_out_of_bounds() {
    let mut ctx = EvalContext::new();
    ctx.arrays
        .insert("arr".to_string(), vec![bits(1.0), bits(2.0), bits(3.0)])
        .expect("Failed to insert array");

    let ast = AstExpr::Array { name: "arr".to_string(), index: Box::new(c(1.0)) };
    let val = eval_ast(&ast, Some(Rc::new(ctx.clone()))).unwrap();
    assert_eq!(val, 2.0);

    let ast2 = AstExpr::Array { name: "arr".to_string(), index: Box::new(c(10.0)) };
    let err = eval_ast(&ast2, Some(Rc::new(ctx.clone()))).unwrap_err();
    assert!(matches!(err, ExprError::ArrayIndexOutOfBounds { .. }));
}

#[test]
fn eval_test_eval_array_unknown() {
    let ctx = EvalContext::new();
    let ast = AstExpr::Array { name: "nosucharr".to_string(), index: Box::new(c(0.0)) };
    let err = eval_ast(&ast, Some(Rc::new(ctx.clone()))).unwrap_err();
    assert!(matches!(err, ExprError::UnknownVariable { .. }));
}

#[test]
fn eval_test_eval_attribute_success_and_not_found() {
    let mut ctx = EvalContext::new();
    ctx.set_attribute("bar", "foo", bits(123.0)).expect("Failed to set attribute");
    let ast = AstExpr::Attribute { base: "bar".to_string(), attr: "foo".to_string() };
    let val = eval_ast(&ast, Some(Rc::new(ctx.clone()))).unwrap();
    assert_eq!(val, 123.0);
    let ast2 = AstExpr::Attribute { base: "bar".to_string(), attr: "baz".to_string() };
    let err = eval_ast(&ast2, Some(Rc::new(ctx.clone()))).unwrap_err();
    assert!(matches!(err, ExprError::AttributeNotFound { .. }));
}

#[test]
fn eval_test_eval_attribute_unknown_base() {
    let ctx = EvalContext::new();
    let ast = AstExpr::Attribute { base: "nosuch".to_string(), attr: "foo".to_string() };
    let err = eval_ast(&ast, Some(Rc::new(ctx.clone()))).unwrap_err();
    assert!(matches!(err, ExprError::AttributeNotFound { .. }));
}

#[test]
fn eval_test_neg_pow_ast() {
    let ast = parse_expression("-2^2").unwrap_or_else(|e| panic!("Parse error: {:?}", e));
    match ast {
        AstExpr::Function { ref name, ref args } if name == "neg" => {
            assert_eq!(args.len(), 1);
            match &args[0] {
                AstExpr::Function { name: pow_name, args: pow_args } if pow_name == "^" => {
                    assert_eq!(pow_args.len(), 2);
                    match (&pow_args[0], &pow_args[1]) {
                        (AstExpr::Constant(a), AstExpr::Constant(b)) => {
                            assert_eq!(num(a), 2.0);
                            assert_eq!(num(b), 2.0);
                        }
                        _ => panic!("Expected constants as pow args"),
                    }
                }
                _ => panic!("Expected pow as argument to neg"),
            }
        }
        _ => panic!("Expected neg as top-level function"),
    }
}

#[test]
fn eval_test_neg_pow_eval() {
    let val = interp("-2^2", None).unwrap();
    assert_eq!(val, -4.0);
    let val2 = interp("(-2)^2", None).unwrap();
    assert_eq!(val2, 4.0);
}

#[test]
fn eval_test_paren_neg_pow_ast() {
    let ast = parse_expression("(-2)^2").unwrap_or_else(|e| panic!("Parse error: {:?}", e));
    match ast {
        AstExpr::Function { ref name, ref args } if name == "^" => {
            assert_eq!(args.len(), 2);
            match &args[0] {
                AstExpr::Function { name: neg_name, args: neg_args } if neg_name == "neg" => {
                    assert_eq!(neg_args.len(), 1);
                    match &neg_args[0] {
                        AstExpr::Constant(a) => assert_eq!(num(a), 2.0),
                        _ => panic!("Expected constant as neg arg"),
                    }
                }
                _ => panic!("Expected neg as left arg to pow"),
            }
            match &args[1] {
                AstExpr::Constant(b) => assert_eq!(num(b), 2.0),
                _ => panic!("Expected constant as right arg to pow"),
            }
        }
        _ => panic!("Expected pow as top-level function"),
    }
}

#[test]
fn eval_test_function_application_juxtaposition_eval() {
    let ctx = create_test_context();
    let ast = func("abs", vec![func("neg", vec![c(42.0)])]);
    let val = eval_ast(&ast, Some(Rc::new(ctx))).unwrap();
    assert_eq!(val, 42.0);
}

#[test]
fn eval_test_unknown_variable_and_function_ast() {
    let ast = parse_expression("sin").unwrap_or_else(|e| panic!("Parse error: {:?}", e));
    match ast {
        AstExpr::Variable(ref name) => assert_eq!(name, "sin"),
        _ => panic!("Expected variable node for sin"),
    }
    let ast2 = parse_expression("abs").unwrap_or_else(|e| panic!("Parse error: {:?}", e));
    match ast2 {
        AstExpr::Variable(ref name) => assert_eq!(name, "abs"),
        _ => panic!("Expected variable node for abs"),
    }
}

#[test]
fn eval_test_unknown_variable_and_function_eval() {
    let ctx = create_test_context();
    let ctx_rc = Rc::new(ctx);

    let err = eval_ast(&var("sin"), Some(ctx_rc.clone())).unwrap_err();
    match err {
        ExprError::Syntax(msg) => {
            assert!(msg.contains("Function 'sin' used without arguments"));
        }
        _ => panic!("Expected Syntax error, got {:?}", err),
    }

    let err2 = eval_ast(&var("abs"), Some(ctx_rc.clone())).unwrap_err();
    match err2 {
        ExprError::Syntax(msg) => {
            assert!(msg.contains("Function 'abs' used without arguments"));
        }
        _ => panic!("Expected Syntax error, got {:?}", err2),
    }

    let err3 = eval_ast(&var("nosuchvar"), Some(ctx_rc)).unwrap_err();
    assert!(matches!(err3, ExprError::UnknownVariable { name } if name == "nosuchvar"));
}

#[test]
fn eval_test_override_builtin_native() {
    let mut ctx = create_test_context();

    ctx.register_native_function("sin", 1, NativeImpl::External(0)).unwrap();
    ctx.register_native_function("pow", 2, NativeImpl::External(1)).unwrap();
    ctx.register_native_function("^", 2, NativeImpl::External(1)).unwrap();
    let hundred = |_args: &[f64]| 100.0;
    let sum = |args: &[f64]| args[0] + args[1];
    let ext: Ext = &[&hundred, &sum];

    let ctx_rc = Rc::new(ctx.clone());

    let val_sin = interp_with("sin(0.5)", Some(ctx_rc.clone()), ext).unwrap();
    assert_eq!(val_sin, 100.0, "Native 'sin' override failed");

    let val_pow = interp_with("pow(3, 4)", Some(ctx_rc.clone()), ext).unwrap();
    assert_eq!(val_pow, 7.0, "Native 'pow' override failed");

    let val_pow_op = interp_with("3^4", Some(ctx_rc.clone()), ext).unwrap();
    assert_eq!(val_pow_op, 7.0, "Native '^' override failed");

    let val_cos = interp_with("cos(0)", Some(ctx_rc.clone()), ext).unwrap();
    assert!((val_cos - 1.0).abs() < 1e-9, "Built-in/default 'cos' failed after override. Got {}", val_cos);
}

#[test]
fn eval_test_override_builtin_expression() {
    let mut ctx = create_test_context();

    ctx.register_expression_function("cos", &["x"], "x * 10").unwrap();
    ctx.register_expression_function("max", &["a", "b"], "min(a, b)").unwrap();
    let ctx_rc = Rc::new(ctx.clone());

    let val_max = interp("max(10, 2)", Some(ctx_rc.clone())).unwrap();
    assert_eq!(val_max, 2.0, "Expression 'max' override failed");

    let val_cos = interp("cos(5)", Some(ctx_rc.clone())).unwrap();
    assert_eq!(val_cos, 50.0, "Expression 'cos' override failed");

    let val_sin = interp("sin(0)", Some(ctx_rc.clone())).unwrap();
    assert!((val_sin - 0.0).abs() < 1e-9, "Built-in/default 'sin' failed after override");
}

#[test]
fn eval_test_expression_function_uses_correct_context() {
    let mut ctx = create_test_context();
    ctx.set_parameter("a", bits(10.0)).expect("Failed to set parameter");
    ctx.constants.insert("my_const".to_string(), bits(100.0)).expect("Failed to insert constant");

    ctx.register_expression_function("func1_const", &["x"], "x + my_const").unwrap();
    let mut ctx_rc = Rc::new(ctx.clone());

    let val1 = interp("func1_const(5)", Some(ctx_rc.clone())).unwrap();
    assert_eq!(val1, 105.0, "func1_const should use constant from context");

    ctx.register_expression_function("func_uses_outer_var", &["x"], "x + a").unwrap();
    ctx_rc = Rc::new(ctx.clone());

    let result = interp("func_uses_outer_var(5)", Some(ctx_rc.clone()));
    match result {
        Ok(val) => assert_eq!(val, 15.0, "func_uses_outer_var should use variable 'a' from context"),
        Err(e) => panic!("Expected Ok(15.0) for func_uses_outer_var(5), got error: {:?}", e),
    }

    ctx.register_expression_function("shadow_test", &["a"], "a + 1").unwrap();
    ctx_rc = Rc::new(ctx.clone());

    let val_shadow = interp("shadow_test(7)", Some(ctx_rc.clone())).unwrap();
    assert_eq!(val_shadow, 8.0, "Parameter 'a' should shadow context variable 'a'");

    let val_a = interp("a", Some(ctx_rc)).unwrap();
    assert_eq!(val_a, 10.0, "Context 'a' should remain unchanged");
}

#[test]
fn eval_test_polynomial_expression_function_direct() {
    let mut ctx = EvalContext::new();
    ctx.register_expression_function("polynomial", &["x"], "x^3 + 2*x^2 + 3*x + 4").unwrap();
    let ctx_rc = Rc::new(ctx);

    let ast = parse_expression("polynomial(2)").unwrap();
    let result = eval_ast(&ast, Some(ctx_rc.clone())).unwrap();
    assert!((result - 26.0).abs() < 1e-10, "Expected 26.0, got {}", result);

    let ast = parse_expression("polynomial(3)").unwrap();
    let result = eval_ast(&ast, Some(ctx_rc)).unwrap();
    assert!((result - 58.0).abs() < 1e-10, "Expected 58.0, got {}", result);
}

#[test]
fn eval_test_polynomial_subexpressions() {
    let mut ctx = EvalContext::new();
    ctx.set_parameter("x", bits(2.0)).unwrap();
    let ctx_rc = Rc::new(ctx);

    let ast = parse_expression("x^3").unwrap();
    assert_eq!(eval_ast(&ast, Some(ctx_rc.clone())).unwrap(), 8.0);

    let ast = parse_expression("2*x^2").unwrap();
    assert_eq!(eval_ast(&ast, Some(ctx_rc.clone())).unwrap(), 8.0);

    let ast = parse_expression("3*x").unwrap();
    assert_eq!(eval_ast(&ast, Some(ctx_rc.clone())).unwrap(), 6.0);

    let ast = parse_expression("4").unwrap();
    assert_eq!(eval_ast(&ast, Some(ctx_rc)).unwrap(), 4.0);
}

#[test]
fn eval_test_operator_precedence() {
    let mut ctx = EvalContext::new();
    ctx.function_registry = FunctionRegistry::new();

    ctx.register_native_function("+", 2, NativeImpl::Builtin(BuiltinFunction::Add)).unwrap();
    ctx.register_native_function("*", 2, NativeImpl::Builtin(BuiltinFunction::Mul)).unwrap();
    ctx.register_native_function("^", 2, NativeImpl::External(0)).unwrap();
    let powf = |args: &[f64]| args[0].powf(args[1]);

    let ast = parse_expression("2 + 3 * 4 ^ 2").unwrap();
    let result = eval_ast_with(&ast, Some(Rc::new(ctx)), &[&powf]).unwrap();
    assert_eq!(result, 2.0 + 3.0 * 16.0);
}

#[test]
fn eval_test_polynomial_ast_structure() {
    let ast = parse_expression("x^3 + 2*x^2 + 3*x + 4").unwrap();
    println!("{:?}", ast);
}

#[test]
fn eval_test_polynomial_integration_debug() {
    let mut ctx = EvalContext::new();
    ctx.register_expression_function("polynomial", &["x"], "x^3 + 2*x^2 + 3*x + 4").unwrap();

    let params = vec!["x".to_string()];
    let body_ast = parse_expression_with_reserved("x^3 + 2*x^2 + 3*x + 4", Some(&params)).unwrap();
    let call_ast = parse_expression("polynomial(2)").unwrap();

    let ctx_rc = Rc::new(ctx.clone());
    let result = eval_ast(&call_ast, Some(ctx_rc)).unwrap();
    println!("polynomial(2) = {}", result);

    ctx.set_parameter("x", bits(2.0)).unwrap();
    let ctx_rc2 = Rc::new(ctx);
    let direct_result = eval_ast(&body_ast, Some(ctx_rc2)).unwrap();
    println!("Direct eval with x=2: {}", direct_result);
}

#[test]
fn eval_test_polynomial_argument_mapping_debug() {
    let mut ctx = EvalContext::new();
    ctx.register_expression_function("polynomial", &["x"], "x^3 + 2*x^2 + 3*x + 4").unwrap();
    let mut ctx_rc = Rc::new(ctx.clone());

    let ast_lit = parse_expression("polynomial(10)").unwrap();
    let result_lit = eval_ast(&ast_lit, Some(ctx_rc.clone())).unwrap();
    assert_eq!(result_lit, 1234.0);

    ctx.set_parameter("z", bits(10.0)).unwrap();
    ctx_rc = Rc::new(ctx.clone());

    let ast_var = parse_expression("polynomial(z)").unwrap();
    let result_var = eval_ast(&ast_var, Some(ctx_rc.clone())).unwrap();
    assert_eq!(result_var, 1234.0);

    ctx.set_parameter("a", bits(5.0)).unwrap();
    ctx.set_parameter("b", bits(10.0)).unwrap();
    ctx_rc = Rc::new(ctx.clone());

    let ast_sub = parse_expression("polynomial(a + b / 2)").unwrap();
    let result_sub = eval_ast(&ast_sub, Some(ctx_rc.clone())).unwrap();
    assert_eq!(result_sub, 1234.0);

    let ast_nested = parse_expression("polynomial(polynomial(2))").unwrap();
    let result_nested = eval_ast(&ast_nested, Some(ctx_rc)).unwrap();
    println!("polynomial(polynomial(2)) = {}", result_nested);
}

#[test]
fn eval_test_polynomial_shadowing_variable() {
    let mut ctx = EvalContext::new();
    ctx.set_parameter("x", bits(100.0)).unwrap();
    ctx.register_expression_function("polynomial", &["x"], "x^3 + 2*x^2 + 3*x + 4").unwrap();

    let ctx_rc = Rc::new(ctx);
    let call_ast = parse_expression("polynomial(2)").unwrap();
    let result = eval_ast(&call_ast, Some(ctx_rc)).unwrap();
    assert!((result - 26.0).abs() < 1e-10, "Expected 26.0, got {}", result);
}

#[test]
fn eval_test_recursion_depth_tracking_reset() {
    let ast = c(42.0);
    let result = eval_ast(&ast, None);
    assert!(result.is_ok());
    assert_eq!(result.unwrap(), 42.0);
}

#[test]
fn eval_test_infinite_recursion_detection() {
    let mut ctx = EvalContext::new();
    ctx.register_expression_function("infinite_recursion", &["x"], "infinite_recursion(x + 1)").unwrap();

    let result = interp("infinite_recursion(0)", Some(Rc::new(ctx)));

    assert!(result.is_err(), "Should have failed with recursion limit");
    match result.unwrap_err() {
        ExprError::RecursionLimit(msg) => {
            assert!(msg.contains("recursion depth"), "Error should mention recursion depth, got: {}", msg);
        }
        other => panic!("Expected RecursionLimit error, got: {:?}", other),
    }

    // The depth is carried by each evaluation, so nothing is left over for the next one.
    let fresh = interp("1 + 1", None).unwrap();
    assert_eq!(fresh, 2.0);
}

#[test]
fn eval_test_nested_function_calls() {
    let mut ctx = EvalContext::new();
    ctx.register_expression_function("double", &["x"], "x * 2").unwrap();
    ctx.register_expression_function("triple", &["x"], "x * 3").unwrap();
    ctx.register_expression_function("add_10", &["x"], "x + 10").unwrap();

    let result = interp("double(triple(add_10(5)))", Some(Rc::new(ctx.clone())));

    assert!(result.is_ok(), "Failed to evaluate nested calls: {:?}", result.err());
    assert_eq!(result.unwrap(), 2.0 * 3.0 * (5.0 + 10.0), "Incorrect result for nested calls");
}

#[test]
fn eval_test_recursion_depth_with_non_recursive_expressions() {
    let expr = "1 + 2 * 3 + 4 * 5 + 6 * 7 + 8 * 9 + 10";
    let result = interp(expr, None);
    assert!(result.is_ok(), "Failed to evaluate non-recursive expression: {:?}", result.err());
    assert_eq!(result.unwrap(), 1.0 + 2.0 * 3.0 + 4.0 * 5.0 + 6.0 * 7.0 + 8.0 * 9.0 + 10.0);
}

#[test]
fn eval_test_recursion_tracking_function_specific() {
    let expr = "(1 + 2) * (3 + 4) * (5 + 6) * (7 + 8) * (9 + 10) * (11 + 12) * (13 + 14)";
    let ctx = EvalContext::new();
    let result = interp(expr, Some(Rc::new(ctx)));
    assert!(result.is_ok());
}

#[test]
fn eval_test_polynomial_ast_cache_effect() {
    let mut ctx = EvalContext::new();
    ctx.register_expression_function("polynomial", &["x"], "x^3 + 2*x^2 + 3*x + 4").unwrap();

    let expr = "polynomial(2)";
    let ctx_rc = Rc::new(ctx);

    let result1 = interp(expr, Some(ctx_rc.clone())).unwrap();
    let result2 = interp(expr, Some(ctx_rc)).unwrap();

    assert_eq!(result1, result2);
    assert!((result1 - 26.0).abs() < 1e-10);
}

#[test]
fn eval_test_polynomial_function_overriding() {
    let mut ctx = EvalContext::new();
    ctx.register_expression_function("polynomial", &["x"], "x + 1").unwrap();
    ctx.register_expression_function("polynomial", &["x"], "x^3 + 2*x^2 + 3*x + 4").unwrap();

    let ctx_rc = Rc::new(ctx);
    let call_ast = parse_expression("polynomial(2)").unwrap();
    let result = eval_ast(&call_ast, Some(ctx_rc)).unwrap();
    assert!((result - 26.0).abs() < 1e-10);
}

#[test]
fn eval_test_polynomial_name_collision_with_builtin() {
    let mut ctx = EvalContext::new();
    ctx.register_expression_function("sin", &["x"], "x + 100").unwrap();

    let ctx_rc = Rc::new(ctx);
    let call_ast = parse_expression("sin(2)").unwrap();
    let result = eval_ast(&call_ast, Some(ctx_rc)).unwrap();
    assert_eq!(result, 102.0);
}

#[test]
fn eval_test_function_application_juxtaposition_ast() {
    let sin_x_ast = func("sin", vec![var("x")]);
    match sin_x_ast {
        AstExpr::Function { ref name, ref args } if name == "sin" => {
            assert_eq!(args.len(), 1);
            match &args[0] {
                AstExpr::Variable(v) => assert_eq!(v, "x"),
                _ => panic!("Expected variable as argument"),
            }
        }
        _ => panic!("Expected function node for sin x"),
    }

    let neg_42_ast = func("neg", vec![c(42.0)]);
    let abs_neg_42_ast = func("abs", vec![neg_42_ast]);
    match abs_neg_42_ast {
        AstExpr::Function { ref name, ref args } if name == "abs" => {
            assert_eq!(args.len(), 1);
            match &args[0] {
                AstExpr::Function { name: n2, args: args2 } if n2 == "neg" => {
                    assert_eq!(args2.len(), 1);
                    match &args2[0] {
                        AstExpr::Constant(k) => assert_eq!(num(k), 42.0),
                        _ => panic!("Expected constant as neg arg"),
                    }
                }
                _ => panic!("Expected neg as argument to abs"),
            }
        }
        _ => panic!("Expected function node for abs -42"),
    }
}

#[test]
fn eval_test_pow_arity_ast() {
    let ast = parse_expression("pow(2)").unwrap_or_else(|e| panic!("Parse error: {:?}", e));
    match ast {
        AstExpr::Function { ref name, ref args } if name == "pow" => {
            assert!(args.len() == 1 || args.len() == 2);
            match &args[0] {
                AstExpr::Constant(k) => assert_eq!(num(k), 2.0),
                _ => panic!("Expected constant as pow arg"),
            }
            if args.len() == 2 {
                match &args[1] {
                    AstExpr::Constant(k) => assert_eq!(num(k), 2.0),
                    _ => panic!("Expected constant as pow second arg"),
                }
            }
        }
        _ => panic!("Expected function node for pow(2)"),
    }
}

#[test]
fn eval_test_pow_arity_eval() {
    let result = interp("pow(2)", None).unwrap();
    assert_eq!(result, 4.0);
    let result2 = interp("pow(2, 3)", None).unwrap();
    assert_eq!(result2, 8.0);
}

#[test]
fn eval_test_pow_arity_eval_no_builtins() {
    let mut ctx = EvalContext::empty();
    ctx.register_native_function("pow", 2, NativeImpl::External(0)).unwrap();
    let powf = |args: &[f64]| args[0].powf(args[1]);
    let ext: Ext = &[&powf];
    let ctx_rc = Rc::new(ctx);

    let ast = parse_expression("pow(2)").unwrap();
    match &ast {
        AstExpr::Function { name, args } => {
            assert_eq!(name, "pow");
            assert_eq!(args.len(), 2);
        }
        _ => panic!("Expected function node for pow(2)"),
    }

    let result = interp_with("pow(2)", Some(ctx_rc.clone()), ext).unwrap();
    assert_eq!(result, 4.0, "pow(2) should be interpreted as pow(2,2) = 4");
    let result2 = interp_with("pow(2, 3)", Some(ctx_rc), ext).unwrap();
    assert_eq!(result2, 8.0);
}
