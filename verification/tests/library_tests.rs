use exp_rs::c_api::{copy_to_error_buffer, expr_estimate_arena_size, split_param_list};
use exp_rs::context::{name_key, EvalContext, MAX_NAME_LENGTH};
use exp_rs::engine::{parse_expression, parse_expression_with_reserved, PrattParser};
use exp_rs::error::{decimal, ExprError};
use exp_rs::eval::{bits_is_zero, RecursionCounter, MAX_RECURSION_DEPTH};
use exp_rs::lexer::tokenize;
use exp_rs::stack_ops::{ast_to_stack_op, is_binary_operator, BinaryOp};
use exp_rs::types::{str_less, AstExpr, BuiltinFunction, NativeImpl, TokenKind};
use exp_rs::validation::{builtin_arity_of, ExpressionValidationReport};
use std::rc::Rc;

fn literal_bits(s: String) -> u64 {
    s.parse::<f64>().expect("number literal").to_bits()
}

fn index_of(x: u64) -> usize {
    f64::from_bits(x) as usize
}

fn native_bits(f: NativeImpl, a: Vec<u64>) -> u64 {
    let a: Vec<f64> = a.iter().map(|x| f64::from_bits(*x)).collect();
    let t = |c: bool| if c { 1.0 } else { 0.0 };
    let r = match f {
        NativeImpl::Builtin(BuiltinFunction::Add) => a[0] + a[1],
        NativeImpl::Builtin(BuiltinFunction::Sub) => a[0] - a[1],
        NativeImpl::Builtin(BuiltinFunction::Mul) => a[0] * a[1],
        NativeImpl::Builtin(BuiltinFunction::Div) => a[0] / a[1],
        NativeImpl::Builtin(BuiltinFunction::Pow) => a[0].powf(a[1]),
        NativeImpl::Builtin(BuiltinFunction::Neg) => -a[0],
        NativeImpl::Builtin(BuiltinFunction::Gt) => t(a[0] > a[1]),
        NativeImpl::Builtin(BuiltinFunction::Eq) => t(a[0] == a[1]),
        NativeImpl::Builtin(BuiltinFunction::Second) => a[1],
        NativeImpl::Builtin(BuiltinFunction::Abs) => a[0].abs(),
        _ => f64::NAN,
    };
    r.to_bits()
}

fn interp(expr: &str, ctx: Option<Rc<EvalContext>>) -> Result<f64, ExprError> {
    exp_rs::eval::interp(expr, ctx, native_bits, literal_bits, index_of).map(f64::from_bits)
}

fn kinds(s: &str) -> Vec<(TokenKind, String, usize)> {
    tokenize(s).into_iter().map(|t| (t.kind, t.text, t.position)).collect()
}

#[test]
fn lexer_splits_numbers_names_and_operators() {
    let toks = kinds("x1 + 2.5e3*(y)");
    assert_eq!(
        toks,
        vec![
            (TokenKind::Variable, "x1".to_string(), 0),
            (TokenKind::Operator, "+".to_string(), 3),
            (TokenKind::Number, "2.5e3".to_string(), 5),
            (TokenKind::Operator, "*".to_string(), 10),
            (TokenKind::Open, "(".to_string(), 11),
            (TokenKind::Variable, "y".to_string(), 12),
            (TokenKind::Close, ")".to_string(), 13),
        ]
    );
}

#[test]
fn lexer_takes_longest_operator() {
    let toks = kinds("a<<<b**c>=d&&e");
    let ops: Vec<String> = toks.into_iter().filter(|t| t.0 == TokenKind::Operator).map(|t| t.1).collect();
    assert_eq!(ops, vec!["<<<", "**", ">=", "&&"]);
}

#[test]
fn lexer_reads_leading_dot_number_and_separators() {
    let toks = kinds(".5;1,2");
    assert_eq!(toks[0], (TokenKind::Number, ".5".to_string(), 0));
    assert_eq!(toks[1].0, TokenKind::Separator);
    assert_eq!(toks[3].0, TokenKind::Separator);
    assert!(kinds("   ").is_empty());
}

#[test]
fn error_messages_match_their_variants() {
    assert_eq!(ExprError::UnknownVariable { name: "q".to_string() }.message(), "Unknown variable: 'q'");
    assert_eq!(ExprError::UnknownFunction { name: "f".to_string() }.message(), "Unknown function: 'f'");
    assert_eq!(
        ExprError::InvalidFunctionCall { name: "sin".to_string(), expected: 1, found: 2 }.message(),
        "Invalid function call to 'sin': expected 1 arguments, found 2"
    );
    assert_eq!(
        ExprError::ArrayIndexOutOfBounds { name: "a".to_string(), index: 10, len: 3 }.message(),
        "Array index out of bounds: index 10 is out of bounds for 'a' (length 3)"
    );
    assert_eq!(
        ExprError::AttributeNotFound { base: "o".to_string(), attr: "x".to_string() }.message(),
        "Attribute not found: 'x' in 'o'"
    );
    assert_eq!(
        ExprError::UnmatchedParenthesis { position: 4, found: ")".to_string() }.message(),
        "Unmatched parenthesis at position 4: found ')'"
    );
    assert_eq!(ExprError::CapacityExceeded("variables").message(), "Capacity exceeded for variables");
    assert_eq!(
        ExprError::NameTooLong { name: "n".to_string(), max_len: 32 }.message(),
        "Name too long: 'n' (maximum length is 32)"
    );
    assert_eq!(ExprError::Syntax("bad".to_string()).message(), "bad");
    assert_eq!(decimal(0), "0");
    assert_eq!(decimal(1207), "1207");
}

#[test]
fn names_longer_than_the_limit_are_refused() {
    let long = "a".repeat(MAX_NAME_LENGTH + 1);
    assert!(matches!(name_key(&long), Err(ExprError::NameTooLong { max_len: 32, .. })));
    assert_eq!(name_key(&"b".repeat(MAX_NAME_LENGTH)).unwrap(), "b".repeat(32));
    let mut ctx = EvalContext::new();
    assert!(matches!(ctx.set_parameter(&long, 0), Err(ExprError::NameTooLong { .. })));
    assert!(matches!(
        ctx.register_expression_function(&long, &["x"], "x"),
        Err(ExprError::NameTooLong { .. })
    ));
}

#[test]
fn variable_table_capacity_is_reported() {
    let mut ctx = EvalContext::new();
    for i in 0..64 {
        ctx.set_parameter(&format!("v{}", i), i as u64).unwrap();
    }
    assert!(matches!(ctx.set_parameter("v64", 1), Err(ExprError::CapacityExceeded(_))));
    assert_eq!(ctx.set_parameter("v3", 99).unwrap(), Some(3));
    assert_eq!(ctx.get_variable("v3"), Some(99));
}

#[test]
fn stack_operators_by_text() {
    assert_eq!(ast_to_stack_op("+").unwrap(), BinaryOp::Add);
    assert_eq!(ast_to_stack_op("**").unwrap(), BinaryOp::Power);
    assert_eq!(ast_to_stack_op("!=").unwrap(), BinaryOp::NotEqual);
    match ast_to_stack_op("&&") {
        Err(ExprError::Syntax(m)) => assert_eq!(m, "Unknown operator: &&"),
        other => panic!("unexpected {:?}", other),
    }
    assert!(is_binary_operator("<="));
    assert!(!is_binary_operator("||"));
}

#[test]
fn validation_report_findings() {
    let mut ctx = EvalContext::new();
    let r = ctx
        .register_expression_function_validated("f", &["x", "y"], "x + g(z) + sin(1, 2)", true)
        .unwrap();
    assert!(r.syntax_valid);
    assert!(r.semantic_validated);
    assert_eq!(r.undefined_functions, vec!["g".to_string()]);
    assert_eq!(r.undefined_variables, vec!["z".to_string()]);
    assert_eq!(r.unused_parameters, vec!["y".to_string()]);
    assert_eq!(r.arity_warnings, vec![("sin".to_string(), 2, Some(1))]);
    assert!(!r.is_valid());
    assert!(ctx.get_expression_function("f").is_some());

    let bad = ctx.register_expression_function_validated("h", &["x"], "(x", true).unwrap();
    assert!(!bad.syntax_valid);
    assert!(bad.syntax_error.is_some());
    assert!(ctx.get_expression_function("h").is_none());

    assert!(ExpressionValidationReport::new_syntax_valid().is_valid());
    assert!(!ExpressionValidationReport::new_syntax_valid().has_only_warnings());
    let only_unused = ctx.register_expression_function_validated("k", &["x", "w"], "x", true).unwrap();
    assert!(only_unused.has_only_warnings());
    assert!(only_unused.is_valid());
    assert!(!ExpressionValidationReport::new_syntax_error("e".to_string()).is_valid());
    assert_eq!(builtin_arity_of("atan2"), Some(2));
    assert_eq!(builtin_arity_of("nosuch"), None);
}

#[test]
fn functions_are_listed_sorted_and_once() {
    let mut parent = EvalContext::empty();
    parent.register_expression_function("zeta", &["x"], "x").unwrap();
    parent.register_expression_function("alpha", &["x"], "x").unwrap();
    let mut child = EvalContext::empty();
    child.parent = Some(Rc::new(parent));
    child.register_expression_function("alpha", &["y"], "y").unwrap();
    child.register_expression_function("mid", &["y"], "y").unwrap();
    assert_eq!(child.list_expression_functions(), vec!["alpha", "mid", "zeta"]);
    assert!(str_less("abc", "abd"));
    assert!(!str_less("b", "a"));
}

#[test]
fn short_circuit_skips_the_failing_side() {
    let mut ctx = EvalContext::new();
    ctx.set_parameter("x", 0f64.to_bits()).unwrap();
    let ctx = Rc::new(ctx);
    assert_eq!(interp("x > 0 && nosuch(x)", Some(ctx.clone())).unwrap(), 0.0);
    assert_eq!(interp("x == 0 || nosuch(x)", Some(ctx.clone())).unwrap(), 1.0);
    assert!(interp("x == 0 && nosuch(x)", Some(ctx)).is_err());
}

#[test]
fn ternary_is_refused_and_length_is_limited() {
    assert!(matches!(parse_expression("a ? b : c"), Err(ExprError::Syntax(_))));
    let long = "1+".repeat(5001) + "1";
    assert!(parse_expression(&long).is_err());
    let p = PrattParser::new("1");
    assert!(p.check_expression_length("1").is_ok());
}

#[test]
fn reserved_names_parse_as_variables() {
    let params = vec!["sin".to_string()];
    let ast = parse_expression_with_reserved("sin + 1", Some(&params)).unwrap();
    match ast {
        AstExpr::Function { name, args } => {
            assert_eq!(name, "+");
            assert!(matches!(&args[0], AstExpr::Variable(v) if v == "sin"));
        }
        other => panic!("unexpected {:?}", other),
    }
}

#[test]
fn comma_gives_the_last_value() {
    assert_eq!(interp("1, 2", None).unwrap(), 2.0);
    assert_eq!(interp("2^3^2", None).unwrap(), 512.0);
    assert_eq!(interp("10 - 4 - 3", None).unwrap(), 3.0);
}

#[test]
fn recursion_counter_stops_at_the_limit() {
    let mut c = RecursionCounter::new();
    for _ in 0..MAX_RECURSION_DEPTH {
        c.check_and_increment_recursion_depth().unwrap();
    }
    assert!(matches!(c.check_and_increment_recursion_depth(), Err(ExprError::RecursionLimit(_))));
    assert_eq!(c.get_recursion_depth(), MAX_RECURSION_DEPTH);
    c.decrement_recursion_depth();
    assert_eq!(c.get_recursion_depth(), MAX_RECURSION_DEPTH - 1);
    c.reset_recursion_depth();
    assert_eq!(c.get_recursion_depth(), 0);
    assert!(bits_is_zero(0));
    assert!(bits_is_zero((-0.0f64).to_bits()));
    assert!(!bits_is_zero(1f64.to_bits()));
}

#[test]
fn deep_user_recursion_is_cut() {
    let mut ctx = EvalContext::new();
    ctx.register_expression_function("loop_forever", &["x"], "loop_forever(x + 1)").unwrap();
    let err = interp("loop_forever(1)", Some(Rc::new(ctx))).unwrap_err();
    assert!(matches!(err, ExprError::CapacityExceeded(_) | ExprError::RecursionLimit(_)));
}

#[test]
fn parameter_lists_split_on_commas_and_trim() {
    assert_eq!(split_param_list("x, y ,z"), vec!["x", "y", "z"]);
    assert!(split_param_list("").is_empty());
    assert_eq!(split_param_list("a,,b"), vec!["a", "", "b"]);
    assert_eq!(split_param_list(" \u{3000}p\t"), vec!["p"]);
    assert_eq!(split_param_list("x1,y1,x2,y2").len(), 4);
}

#[test]
fn arena_size_estimate() {
    assert_eq!(expr_estimate_arena_size(2, 10, 3, 100), 1854);
    assert_eq!(expr_estimate_arena_size(0, 0, 0, 0), 0);
    assert_eq!(expr_estimate_arena_size(1, 0, 0, 7), 768);
}

#[test]
fn array_attribute_and_native_reads() {
    let mut ctx = EvalContext::new();
    ctx.arrays.insert("a".to_string(), vec![1, 2, 3]).unwrap();
    ctx.set_attribute("o", "x", 9).unwrap();
    assert_eq!(exp_rs::eval::eval_array(&ctx, &"a".to_string(), 2).unwrap(), 3);
    assert!(matches!(
        exp_rs::eval::eval_array(&ctx, &"a".to_string(), 3),
        Err(ExprError::ArrayIndexOutOfBounds { index: 3, len: 3, .. })
    ));
    assert!(matches!(
        exp_rs::eval::eval_array(&ctx, &"b".to_string(), 0),
        Err(ExprError::UnknownVariable { .. })
    ));
    assert_eq!(exp_rs::eval::eval_attribute(&ctx, &"o".to_string(), &"x".to_string()).unwrap(), 9);
    assert!(matches!(
        exp_rs::eval::eval_attribute(&ctx, &"o".to_string(), &"y".to_string()),
        Err(ExprError::AttributeNotFound { .. })
    ));
    let f = ctx.get_native_function("abs").unwrap().clone();
    let r = exp_rs::eval::eval_native_function(&"abs".to_string(), &f, vec![1, 2], &native_bits);
    assert!(matches!(r, Err(ExprError::InvalidFunctionCall { expected: 1, found: 2, .. })));
    let v = exp_rs::eval::eval_native_function(&"abs".to_string(), &f, vec![(-2.5f64).to_bits()], &native_bits).unwrap();
    assert_eq!(f64::from_bits(v), 2.5);
}

#[test]
fn default_context_is_a_new_context() {
    let a = EvalContext::default();
    let b = EvalContext::new();
    assert_eq!(a.list_native_functions(), b.list_native_functions());
    assert!(a.list_expression_functions().is_empty());
    assert!(a.get_native_function("sin").is_some());
    assert!(EvalContext::empty().list_native_functions().is_empty());
}

#[test]
fn expression_function_bodies_are_parsed_when_registered() {
    let mut ctx = EvalContext::new();
    assert!(matches!(ctx.register_expression_function("bad", &["x"], "x +"), Err(ExprError::Syntax(_))));
    assert!(ctx.get_expression_function("bad").is_none());
    assert!(ctx.register_expression_function("good", &["x"], "x + 1").is_ok());
    assert!(ctx.get_expression_function("good").is_some());
}

#[test]
fn variable_reads_follow_the_lookup_order() {
    let long = "v".repeat(40);
    assert!(matches!(interp(&long, None), Err(ExprError::UnknownVariable { .. })));
    assert!(matches!(interp("tau", None), Err(ExprError::UnknownVariable { .. })));
    assert!(matches!(interp("PI", None), Err(ExprError::UnknownVariable { .. })));
    let mut ctx = EvalContext::new();
    ctx.set_parameter("pi", 3f64.to_bits()).unwrap();
    ctx.constants.insert("k".to_string(), 7f64.to_bits()).unwrap();
    let ctx = Rc::new(ctx);
    assert_eq!(interp("pi", Some(ctx.clone())).unwrap(), std::f64::consts::PI);
    let mut child = EvalContext::new();
    child.constants.insert("k".to_string(), 8f64.to_bits()).unwrap();
    child.parent = Some(ctx);
    assert_eq!(
        exp_rs::eval::eval_ast(
            &exp_rs::types::AstExpr::Variable("k".to_string()),
            Some(Rc::new(child)),
            native_bits,
            literal_bits,
            index_of
        )
        .map(f64::from_bits)
        .unwrap(),
        8.0
    );
}

#[test]
fn built_in_fallback_checks_arity_first() {
    let ctx = Rc::new(EvalContext::empty());
    let call = |s: &str| interp(s, Some(ctx.clone()));
    assert!(matches!(call("sin()"), Err(ExprError::InvalidFunctionCall { expected: 1, found: 0, .. })));
    assert!(matches!(call("max(1)"), Err(ExprError::InvalidFunctionCall { expected: 2, found: 1, .. })));
    assert!(matches!(call("sin(q, q)"), Err(ExprError::InvalidFunctionCall { expected: 1, found: 2, .. })));
    assert!(matches!(call("foo(1, 2, 3)"), Err(ExprError::UnknownFunction { .. })));
    assert!(matches!(call("foo(q)"), Err(ExprError::UnknownVariable { .. })));
    assert_eq!(call("abs(-2)").unwrap(), 2.0);
    assert_eq!(call("3 > 2").unwrap(), 1.0);
}

#[test]
fn expression_function_arity_is_checked_before_arguments() {
    let mut ctx = EvalContext::new();
    ctx.register_expression_function("f", &["x"], "x").unwrap();
    let err = interp("f(q, q)", Some(Rc::new(ctx))).unwrap_err();
    assert!(matches!(err, ExprError::InvalidFunctionCall { expected: 1, found: 2, .. }));
}

#[test]
fn nesting_of_function_nodes_is_limited() {
    let sum = vec!["1"; 300].join("+");
    assert!(matches!(interp(&sum, None), Err(ExprError::RecursionLimit(_))));
    let short = vec!["1"; 200].join("+");
    assert_eq!(interp(&short, None).unwrap(), 200.0);
}

#[test]
fn length_limit_counts_bytes() {
    let p = PrattParser::new("1");
    assert!(p.check_expression_length(&"1".repeat(10000)).is_ok());
    match p.check_expression_length(&"1".repeat(10001)) {
        Err(ExprError::Syntax(m)) => assert_eq!(m, "Expression too long: 10001 characters (maximum is 10000)"),
        other => panic!("unexpected {:?}", other),
    }
    assert!(p.check_expression_length(&"é".repeat(6000)).is_err());
}

#[test]
fn arrays_and_attributes_are_found_in_parents_and_in_calls() {
    let mut parent = EvalContext::new();
    parent.arrays.insert("a".to_string(), vec![5f64.to_bits(), 6f64.to_bits()]).unwrap();
    parent.set_attribute("o", "x", 9f64.to_bits()).unwrap();
    let mut child = EvalContext::new();
    child.parent = Some(Rc::new(parent));
    child.register_expression_function("second", &["i"], "a[i] + o.x").unwrap();
    let child = Rc::new(child);
    assert_eq!(interp("a[1]", Some(child.clone())).unwrap(), 6.0);
    assert_eq!(interp("second(1)", Some(child)).unwrap(), 15.0);
}

#[test]
fn registering_defaults_twice_is_registering_once() {
    let mut ctx = EvalContext::new();
    ctx.set_parameter("x", 5).unwrap();
    ctx.register_expression_function("double", &["x"], "x * 2").unwrap();
    ctx.register_default_math_functions();
    let once = ctx.list_native_functions();
    ctx.register_default_math_functions();
    assert_eq!(ctx.list_native_functions(), once);
    assert_eq!(ctx.get_native_function("sin").unwrap().arity, 1);
    assert_eq!(ctx.list_expression_functions(), vec!["double".to_string()]);
    assert!(ctx.get_variable("x").is_some());
}

#[test]
fn with_default_functions_is_new() {
    let a = EvalContext::with_default_functions();
    let b = EvalContext::new();
    assert_eq!(a.list_native_functions(), b.list_native_functions());
    for name in b.list_native_functions() {
        assert_eq!(
            a.get_native_function(&name).unwrap().arity,
            b.get_native_function(&name).unwrap().arity
        );
    }
    assert!(a.list_expression_functions().is_empty());
    assert!(a.parent.is_none());
}

#[test]
fn enable_default_functions_is_register_default_math_functions() {
    let mut a = EvalContext::empty();
    let mut b = EvalContext::empty();
    a.enable_default_functions();
    b.register_default_math_functions();
    assert_eq!(a.list_native_functions(), b.list_native_functions());
    assert_eq!(a.list_native_functions(), EvalContext::new().list_native_functions());
}

#[test]
fn counter_in_then_out() {
    let mut c = RecursionCounter::new();
    for _ in 0..7 {
        c.check_and_increment_recursion_depth().unwrap();
    }
    for _ in 0..3 {
        c.decrement_recursion_depth();
    }
    assert_eq!(c.get_recursion_depth(), 4);
    for _ in 0..10 {
        c.decrement_recursion_depth();
    }
    assert_eq!(c.get_recursion_depth(), 0);
}

fn num(s: &str) -> AstExpr {
    AstExpr::Constant(s.to_string())
}

fn call(name: &str, args: Vec<AstExpr>) -> AstExpr {
    AstExpr::Function { name: name.to_string(), args }
}

fn assert_same(a: AstExpr, b: AstExpr) {
    assert_eq!(format!("{:?}", a), format!("{:?}", b));
}

#[test]
fn operators_group_by_binding_power() {
    assert_same(parse_expression("1 + 2 * 3").unwrap(), call("+", vec![num("1"), call("*", vec![num("2"), num("3")])]));
    assert_same(parse_expression("1 * 2 + 3").unwrap(), call("+", vec![call("*", vec![num("1"), num("2")]), num("3")]));
    assert_same(parse_expression("1 - 2 - 3").unwrap(), call("-", vec![call("-", vec![num("1"), num("2")]), num("3")]));
    assert_same(parse_expression("1 ^ 2 ^ 3").unwrap(), call("^", vec![num("1"), call("^", vec![num("2"), num("3")])]));
}

#[test]
fn a_name_before_a_number_is_a_call() {
    assert_same(parse_expression("sin 2").unwrap(), call("sin", vec![num("2")]));
}

#[test]
fn a_clone_reads_as_the_original_and_stays_apart() {
    let mut ctx = EvalContext::new();
    ctx.set_parameter("x", 7).unwrap();
    ctx.set_attribute("o", "a", 3).unwrap();
    ctx.arrays.insert("v".to_string(), vec![1, 2]).unwrap();
    ctx.register_expression_function("twice", &["y"], "y * 2").unwrap();
    let copy = ctx.clone();
    assert_eq!(copy.get_variable("x"), Some(7));
    assert_eq!(copy.list_native_functions(), ctx.list_native_functions());
    assert_eq!(copy.list_expression_functions(), vec!["twice".to_string()]);
    assert_eq!(exp_rs::eval::eval_attribute(&copy, &"o".to_string(), &"a".to_string()).unwrap(), 3);
    assert_eq!(exp_rs::eval::eval_array(&copy, &"v".to_string(), 1).unwrap(), 2);
    ctx.set_parameter("x", 8).unwrap();
    assert_eq!(copy.get_variable("x"), Some(7));
    assert_eq!(ctx.get_variable("x"), Some(8));
}

const ERROR_BUFFER_SIZE: usize = 256;

#[test]
fn test_error_buffer_null_termination() {
    let short_msg = "Test error message";
    let buffer = copy_to_error_buffer(short_msg, ERROR_BUFFER_SIZE);
    assert_eq!(buffer.len(), ERROR_BUFFER_SIZE);
    let mut found_null = false;
    for (i, &byte) in buffer.iter().enumerate() {
        if byte == 0 {
            found_null = true;
            assert_eq!(std::str::from_utf8(&buffer[..i]).unwrap(), short_msg);
            break;
        }
    }
    assert!(found_null, "Error buffer should be null terminated");

    let max_msg = "a".repeat(ERROR_BUFFER_SIZE - 1);
    let buffer = copy_to_error_buffer(&max_msg, ERROR_BUFFER_SIZE);
    assert_eq!(buffer[ERROR_BUFFER_SIZE - 1], 0);
    assert_eq!(buffer[ERROR_BUFFER_SIZE - 2], b'a');

    let long_msg = "a".repeat(ERROR_BUFFER_SIZE + 10);
    let buffer = copy_to_error_buffer(&long_msg, ERROR_BUFFER_SIZE);
    assert_eq!(buffer[ERROR_BUFFER_SIZE - 1], 0);
    let recovered_msg = std::str::from_utf8(&buffer[..ERROR_BUFFER_SIZE - 1]).unwrap();
    assert_eq!(recovered_msg.len(), ERROR_BUFFER_SIZE - 1);
}

#[test]
fn error_buffer_of_one_byte_holds_only_the_terminator() {
    assert_eq!(copy_to_error_buffer("abc", 1), vec![0u8]);
    assert_eq!(copy_to_error_buffer("ab", 4), vec![b'a', b'b', 0, 0]);
}

#[test]
fn more_leaves_than_entries_stop_at_zero() {
    let mut c = RecursionCounter::new();
    c.check_and_increment_recursion_depth().unwrap();
    c.check_and_increment_recursion_depth().unwrap();
    for _ in 0..5 {
        c.decrement_recursion_depth();
    }
    assert_eq!(c.get_recursion_depth(), 0);
    assert_eq!(c.get_recursion_depth(), 0);
}
