use vstd::prelude::*;
use crate::types::{Ast, AstExpr, NativeImpl, ast_view, args_view, str_eq};
use crate::error::{ExprError, ErrSpec};
use crate::context::{
    EvalContext, lookup_variable, lookup_constant, lookup_native, name_fits, name_too_long, name_key,
    VariableMap,
};
use crate::maps::{value_entries, array_entries, object_entries};
use crate::engine::{parse_text_spec, parse_expression_with_reserved, lemma_args_view_index, lemma_args_view_len};
use crate::eval::{
    Env, EvalEnv, find_expression, bind_params, bind_params_exec, native_result, eval_native_function,
    literal_value, index_value, is_zero, truth, bits_is_zero, without_arguments_err, scope_view,
    eval_result_view, oracles_ok, lemma_literal_value, lemma_index_value, ZERO_BITS, ONE_BITS, PI_BITS,
    E_BITS,
};

verus! {

/// How many operations may wait on the stack of a batch evaluation when one more is taken up.
pub const MAX_PENDING_OPS: usize = 1000;

/// How many contexts the stack of a batch evaluation holds: the evaluation's own and one per
/// call of an expression function under way.
pub const CONTEXT_STACK_CAPACITY: usize = 64;

/// How deeply calls of expression functions may nest in a batch evaluation.
pub const MAX_CALL_DEPTH: usize = 63;

/// The bits of tau, twice pi.
pub const TAU_BITS: u64 = 0x4019_21fb_5444_2d18;

/// The operations waiting below one that is taken up: `extra` more than `below`, counted up to
/// one past the limit (beyond it every count gives the same refusal).
pub open spec fn pending_after(below: int, extra: int) -> int {
    if below + extra > MAX_PENDING_OPS {
        MAX_PENDING_OPS + 1
    } else {
        below + extra
    }
}

pub open spec fn stack_limit_err() -> ErrSpec {
    ErrSpec::RecursionLimit("Maximum evaluation depth 1000 exceeded"@)
}

pub open spec fn context_stack_err() -> ErrSpec {
    ErrSpec::CapacityExceeded("context stack"@)
}

/// A variable of the innermost call that has it, else of an outer call, else a variable of
/// the context or its parents, else a constant of them.
pub open spec fn frames_lookup(ctx: EvalContext, scope: Seq<Map<Seq<char>, u64>>, name: Seq<char>) -> Option<u64>
    decreases scope.len(),
{
    if scope.len() == 0 {
        match lookup_variable(ctx, name) {
            Some(v) => Some(v),
            None => lookup_constant(ctx, name),
        }
    } else if name_fits(name) && scope.last().contains_key(name) {
        Some(scope.last()[name])
    } else {
        frames_lookup(ctx, scope.drop_last(), name)
    }
}

/// Names that are functions, operators among them, and so cannot be read as variables.
pub open spec fn names_an_operation(name: Seq<char>) -> bool {
    name == "sin"@ || name == "cos"@ || name == "tan"@ || name == "asin"@ || name == "acos"@
        || name == "atan"@ || name == "atan2"@ || name == "sinh"@ || name == "cosh"@ || name
        == "tanh"@ || name == "exp"@ || name == "log"@ || name == "log10"@ || name == "ln"@
        || name == "sqrt"@ || name == "abs"@ || name == "ceil"@ || name == "floor"@ || name
        == "pow"@ || name == "neg"@ || name == ","@ || name == "comma"@ || name == "+"@ || name
        == "-"@ || name == "*"@ || name == "/"@ || name == "%"@ || name == "^"@ || name == "max"@
        || name == "min"@ || name == "<"@ || name == ">"@ || name == "<="@ || name == ">="@
        || name == "=="@ || name == "!="@
}

/// A variable read in a batch evaluation: a batch parameter first, then the parameters of the
/// calls under way and the context, then the constants pi, e and tau.
pub open spec fn batch_variable_spec(ctx: EvalContext, env: Env, scope: Seq<Map<Seq<char>, u64>>, name: Seq<char>) -> Result<u64, ErrSpec> {
    if !name_fits(name) {
        Err(name_too_long(name))
    } else if env.overrides.contains_key(name) {
        Ok(env.overrides[name])
    } else {
        match frames_lookup(ctx, scope, name) {
            Some(v) => Ok(v),
            None => if name == "pi"@ || name == "PI"@ {
                Ok(PI_BITS)
            } else if name == "e"@ || name == "E"@ {
                Ok(E_BITS)
            } else if name == "tau"@ || name == "TAU"@ {
                Ok(TAU_BITS)
            } else if names_an_operation(name) && name.len() > 1 {
                Err(without_arguments_err(name))
            } else {
                Err(ErrSpec::UnknownVariable { name })
            },
        }
    }
}

/// Element `k` of the array `name` of the context itself; inside a call there are none.
pub open spec fn own_array_read(ctx: EvalContext, scope: Seq<Map<Seq<char>, u64>>, name: Seq<char>, k: int) -> Result<u64, ErrSpec> {
    if scope.len() == 0 && array_entries(ctx.arrays).contains_key(name) {
        let a = array_entries(ctx.arrays)[name]@;
        if k < a.len() {
            Ok(a[k])
        } else {
            Err(ErrSpec::ArrayIndexOutOfBounds { name, index: k, len: a.len() as int })
        }
    } else {
        Err(ErrSpec::UnknownVariable { name })
    }
}

/// The attribute `attr` of the object `base` of the context itself; inside a call there are
/// none.
pub open spec fn own_attribute_read(ctx: EvalContext, scope: Seq<Map<Seq<char>, u64>>, base: Seq<char>, attr: Seq<char>) -> Result<u64, ErrSpec> {
    if !name_fits(base) {
        Err(name_too_long(base))
    } else if !name_fits(attr) {
        Err(name_too_long(attr))
    } else if scope.len() == 0 && object_entries(ctx.attributes).contains_key(base)
        && value_entries(object_entries(ctx.attributes)[base]).contains_key(attr) {
        Ok(value_entries(object_entries(ctx.attributes)[base])[attr])
    } else {
        Err(ErrSpec::AttributeNotFound { base, attr })
    }
}

/// What calling a function on argument values comes to: a value, an error, or a body to
/// evaluate with a new frame of parameters.
pub enum CallPlan {
    Value(u64),
    Fail(ErrSpec),
    Body(Map<Seq<char>, u64>, Ast),
}

/// Calling `name` on argument values, `calls` calls deep: an expression function (local ones
/// first), whose number of parameters is checked, whose parameters are bound and whose body
/// is parsed, and which needs a place on the context stack; else a native function, whose
/// number of arguments is checked.
pub open spec fn plan_call<N: Fn(NativeImpl, Vec<u64>) -> u64>(
    ctx: EvalContext,
    env: Env,
    name: Seq<char>,
    vals: Seq<u64>,
    calls: int,
    n: N,
) -> CallPlan {
    match find_expression(ctx, env, name) {
        Some(f) => {
            let fv = f@;
            if vals.len() != fv.params.len() {
                CallPlan::Fail(
                    ErrSpec::InvalidFunctionCall {
                        name: fv.name,
                        expected: fv.params.len() as int,
                        found: vals.len() as int,
                    },
                )
            } else {
                match bind_params(fv.params, vals, Map::empty()) {
                    Err(err) => CallPlan::Fail(err),
                    Ok(frame) => match parse_text_spec(fv.expression, Some(fv.params), None) {
                        Err(err) => CallPlan::Fail(err),
                        Ok(body) => if calls >= MAX_CALL_DEPTH || calls < 0 {
                            CallPlan::Fail(context_stack_err())
                        } else {
                            CallPlan::Body(frame, body)
                        },
                    },
                }
            }
        },
        None => match lookup_native(ctx, name) {
            Some(f) => match native_result(name, f, vals, n) {
                Ok(v) => CallPlan::Value(v),
                Err(e) => CallPlan::Fail(e),
            },
            None => CallPlan::Fail(ErrSpec::UnknownFunction { name }),
        },
    }
}

/// The value of an expression in a batch evaluation, `calls` calls of expression functions
/// deep, with `pending` operations waiting below it on the evaluation's stack.  Taking up an
/// expression with more than `MAX_PENDING_OPS` operations waiting is refused.  A call first
/// evaluates all its arguments, the last one deepest on the stack, then finds its function;
/// `&&` and `||`, a logical node, an array index and a condition wait on one operation; the
/// branch of a condition and the body of a call take the place of the node.
pub open spec fn batch_eval_spec<N: Fn(NativeImpl, Vec<u64>) -> u64, L: Fn(String) -> u64, I: Fn(u64) -> usize>(
    ctx: EvalContext,
    env: Env,
    scope: Seq<Map<Seq<char>, u64>>,
    e: Ast,
    calls: int,
    pending: int,
    n: N,
    l: L,
    i: I,
) -> Result<u64, ErrSpec>
    decreases MAX_CALL_DEPTH - calls, e, 0int,
{
    if pending > MAX_PENDING_OPS {
        Err(stack_limit_err())
    } else {
        let below1 = pending_after(pending, 1);
        match e {
            Ast::Constant(text) => Ok(literal_value(l, text)),
            Ast::Variable(name) => batch_variable_spec(ctx, env, scope, name),
            Ast::Function(name, args) => if (name == "&&"@ || name == "||"@) && args.len() == 2 {
                match batch_eval_spec(ctx, env, scope, args[0], calls, below1, n, l, i) {
                    Err(err) => Err(err),
                    Ok(a) => if name == "&&"@ && is_zero(a) {
                        Ok(ZERO_BITS)
                    } else if name == "||"@ && !is_zero(a) {
                        Ok(ONE_BITS)
                    } else {
                        match batch_eval_spec(ctx, env, scope, args[1], calls, below1, n, l, i) {
                            Err(err) => Err(err),
                            Ok(b) => Ok(truth(!is_zero(b))),
                        }
                    },
                }
            } else if !name_fits(name) {
                Err(name_too_long(name))
            } else {
                match batch_eval_args_spec(ctx, env, scope, args, calls, pending, n, l, i) {
                    Err(err) => Err(err),
                    Ok(vals) => match plan_call(ctx, env, name, vals, calls, n) {
                        CallPlan::Value(v) => Ok(v),
                        CallPlan::Fail(err) => Err(err),
                        CallPlan::Body(frame, body) => if 0 <= calls < MAX_CALL_DEPTH {
                            batch_eval_spec(ctx, env, scope.push(frame), body, calls + 1, pending, n, l, i)
                        } else {
                            Err(context_stack_err())
                        },
                    },
                }
            },
            Ast::Array(name, index) => if !name_fits(name) {
                Err(name_too_long(name))
            } else {
                match batch_eval_spec(ctx, env, scope, *index, calls, below1, n, l, i) {
                    Err(err) => Err(err),
                    Ok(x) => own_array_read(ctx, scope, name, index_value(i, x)),
                }
            },
            Ast::Attribute(base, attr) => own_attribute_read(ctx, scope, base, attr),
            Ast::LogicalOp(op, left, right) => match batch_eval_spec(ctx, env, scope, *left, calls, below1, n, l, i) {
                Err(err) => Err(err),
                Ok(a) => if op == crate::types::LogicalOperator::And && is_zero(a) {
                    Ok(ZERO_BITS)
                } else if op == crate::types::LogicalOperator::Or && !is_zero(a) {
                    Ok(ONE_BITS)
                } else {
                    match batch_eval_spec(ctx, env, scope, *right, calls, below1, n, l, i) {
                        Err(err) => Err(err),
                        Ok(b) => Ok(truth(!is_zero(b))),
                    }
                },
            },
            Ast::Conditional(c, t, f) => match batch_eval_spec(ctx, env, scope, *c, calls, below1, n, l, i) {
                Err(err) => Err(err),
                Ok(x) => if !is_zero(x) {
                    batch_eval_spec(ctx, env, scope, *t, calls, pending, n, l, i)
                } else {
                    batch_eval_spec(ctx, env, scope, *f, calls, pending, n, l, i)
                },
            },
        }
    }
}

/// The values of the arguments of a call, left to right, the first error stopping them; with
/// `pending` operations below the call, the first of `k` remaining arguments has `k` more
/// waiting below it (the call itself and the arguments after it).
pub open spec fn batch_eval_args_spec<N: Fn(NativeImpl, Vec<u64>) -> u64, L: Fn(String) -> u64, I: Fn(u64) -> usize>(
    ctx: EvalContext,
    env: Env,
    scope: Seq<Map<Seq<char>, u64>>,
    args: Seq<Ast>,
    calls: int,
    pending: int,
    n: N,
    l: L,
    i: I,
) -> Result<Seq<u64>, ErrSpec>
    decreases MAX_CALL_DEPTH - calls, args, 0int,
{
    if args.len() == 0 {
        Ok(Seq::empty())
    } else {
        match batch_eval_spec(ctx, env, scope, args[0], calls, pending_after(pending, args.len() as int), n, l, i) {
            Err(err) => Err(err),
            Ok(v) => match batch_eval_args_spec(ctx, env, scope, args.drop_first(), calls, pending, n, l, i) {
                Err(err) => Err(err),
                Ok(vs) => Ok(seq![v] + vs),
            },
        }
    }
}

proof fn lemma_batch_args_len<N: Fn(NativeImpl, Vec<u64>) -> u64, L: Fn(String) -> u64, I: Fn(u64) -> usize>(
    ctx: EvalContext,
    env: Env,
    scope: Seq<Map<Seq<char>, u64>>,
    args: Seq<Ast>,
    calls: int,
    pending: int,
    n: N,
    l: L,
    i: I,
)
    ensures
        batch_eval_args_spec(ctx, env, scope, args, calls, pending, n, l, i) is Ok
            ==> batch_eval_args_spec(ctx, env, scope, args, calls, pending, n, l, i)->Ok_0.len() == args.len(),
    decreases args.len(),
{
    if args.len() > 0 {
        lemma_batch_args_len(ctx, env, scope, args.drop_first(), calls, pending, n, l, i);
    }
}

#[inline(never)]
fn frames_lookup_exec(ctx: &EvalContext, scope: &Vec<VariableMap>, k: usize, name: &str) -> (r: Option<u64>)
    requires
        k <= scope@.len(),
    ensures
        r == frames_lookup(*ctx, scope_view(scope@).take(k as int), name@),
    decreases k,
{
    let ghost sv = scope_view(scope@).take(k as int);
    if k == 0 {
        match ctx.get_variable(name) {
            Some(v) => Some(v),
            None => ctx.get_constant(name),
        }
    } else {
        proof {
            assert(sv.last() == value_entries(scope@[k - 1]));
            assert(sv.drop_last() == scope_view(scope@).take(k - 1));
        }
        if name.unicode_len() <= crate::context::MAX_NAME_LENGTH {
            match scope[k - 1].get(name) {
                Some(v) => return Some(v),
                None => {},
            }
        }
        frames_lookup_exec(ctx, scope, k - 1, name)
    }
}

#[inline(never)]
fn names_an_operation_exec(name: &str) -> (b: bool)
    ensures
        b == names_an_operation(name@),
{
    str_eq(name, "sin") || str_eq(name, "cos") || str_eq(name, "tan") || str_eq(name, "asin")
        || str_eq(name, "acos") || str_eq(name, "atan") || str_eq(name, "atan2") || str_eq(
        name,
        "sinh",
    ) || str_eq(name, "cosh") || str_eq(name, "tanh") || str_eq(name, "exp") || str_eq(name, "log")
        || str_eq(name, "log10") || str_eq(name, "ln") || str_eq(name, "sqrt") || str_eq(name, "abs")
        || str_eq(name, "ceil") || str_eq(name, "floor") || str_eq(name, "pow") || str_eq(name, "neg")
        || str_eq(name, ",") || str_eq(name, "comma") || str_eq(name, "+") || str_eq(name, "-")
        || str_eq(name, "*") || str_eq(name, "/") || str_eq(name, "%") || str_eq(name, "^")
        || str_eq(name, "max") || str_eq(name, "min") || str_eq(name, "<") || str_eq(name, ">")
        || str_eq(name, "<=") || str_eq(name, ">=") || str_eq(name, "==") || str_eq(name, "!=")
}

/// A variable read in a batch evaluation: a batch parameter first, then the parameters of the
/// calls under way and the context, then the constants pi, e and tau.
#[inline(never)]
pub fn batch_eval_variable(ctx: &EvalContext, env: &EvalEnv, scope: &Vec<VariableMap>, name: &str) -> (r: Result<u64, ExprError>)
    ensures
        eval_result_view(r) == batch_variable_spec(*ctx, env@, scope_view(scope@), name@),
{
    match name_key(name) {
        Ok(_) => {},
        Err(e) => return Err(e),
    }
    match env.overrides.get(name) {
        Some(v) => return Ok(v),
        None => {},
    }
    proof {
        assert(scope_view(scope@).take(scope@.len() as int) == scope_view(scope@));
    }
    match frames_lookup_exec(ctx, scope, scope.len(), name) {
        Some(v) => Ok(v),
        None => {
            if str_eq(name, "pi") || str_eq(name, "PI") {
                Ok(PI_BITS)
            } else if str_eq(name, "e") || str_eq(name, "E") {
                Ok(E_BITS)
            } else if str_eq(name, "tau") || str_eq(name, "TAU") {
                Ok(TAU_BITS)
            } else if names_an_operation_exec(name) && name.unicode_len() > 1 {
                let mut m = String::from_str("Function '");
                m.append(name);
                m.append("' used without arguments");
                Err(ExprError::Syntax(m))
            } else {
                Err(ExprError::UnknownVariable { name: String::from_str(name) })
            }
        },
    }
}

/// Prepares a call of an expression function, `calls` calls deep: checks the number of
/// arguments, binds the parameters into a new frame pushed on `scope`, parses the body and
/// takes a place on the context stack.
#[inline(never)]
fn prepare_batch_call(
    f: &crate::types::ExpressionFunction,
    vals: &Vec<u64>,
    calls: usize,
    scope: &mut Vec<VariableMap>,
) -> (r: Result<AstExpr, ExprError>)
    ensures
        ({
            let fv = f@;
            if vals@.len() != fv.params.len() {
                &&& r.is_err()
                &&& r->Err_0@ == ErrSpec::InvalidFunctionCall {
                    name: fv.name,
                    expected: fv.params.len() as int,
                    found: vals@.len() as int,
                }
                &&& final(scope)@ == old(scope)@
            } else {
                match bind_params(fv.params, vals@, Map::empty()) {
                    Err(err) => r.is_err() && r->Err_0@ == err && final(scope)@ == old(scope)@,
                    Ok(frame) => match parse_text_spec(fv.expression, Some(fv.params), None) {
                        Err(err) => r.is_err() && r->Err_0@ == err && final(scope)@ == old(scope)@,
                        Ok(body) => if calls >= MAX_CALL_DEPTH {
                            r.is_err() && r->Err_0@ == context_stack_err() && final(scope)@ == old(scope)@
                        } else {
                            &&& r.is_ok()
                            &&& ast_view(r.unwrap()) == body
                            &&& final(scope)@.len() == old(scope)@.len() + 1
                            &&& final(scope)@.drop_last() == old(scope)@
                            &&& value_entries(final(scope)@.last()) == frame
                        },
                    },
                }
            }
        }),
{
    if vals.len() != f.params.len() {
        return Err(
            ExprError::InvalidFunctionCall {
                name: f.name.clone(),
                expected: f.params.len(),
                found: vals.len(),
            },
        );
    }
    let frame = match bind_params_exec(&f.params, vals) {
        Ok(m) => m,
        Err(e) => return Err(e),
    };
    let params = f.params.as_slice();
    proof {
        assert(crate::engine::slice_names(Some(params)) =~~= Some(crate::types::string_views(f.params@)));
    }
    let body = match parse_expression_with_reserved(f.expression.as_str(), Some(params)) {
        Ok(b) => b,
        Err(e) => return Err(e),
    };
    if calls >= MAX_CALL_DEPTH {
        return Err(ExprError::CapacityExceeded("context stack"));
    }
    scope.push(frame);
    proof {
        assert(scope@.drop_last() =~= old(scope)@);
    }
    Ok(body)
}

/// `pending_after` on machine integers.
fn pending_after_exec(below: usize, extra: usize) -> (r: usize)
    requires
        below <= MAX_PENDING_OPS,
    ensures
        r == pending_after(below as int, extra as int),
{
    if extra > MAX_PENDING_OPS - below {
        MAX_PENDING_OPS + 1
    } else {
        below + extra
    }
}

#[inline(never)]
fn stack_limit_error() -> (e: ExprError)
    ensures
        e@ == stack_limit_err(),
{
    ExprError::RecursionLimit(String::from_str("Maximum evaluation depth 1000 exceeded"))
}

/// Element `k` of the array `name` of the context itself; inside a call there are none.
#[inline(never)]
pub fn own_array(ctx: &EvalContext, scope: &Vec<VariableMap>, name: &String, k: usize) -> (r: Result<u64, ExprError>)
    ensures
        eval_result_view(r) == own_array_read(*ctx, scope_view(scope@), name@, k as int),
{
    if scope.len() == 0 {
        match ctx.arrays.get(name.as_str()) {
            Some(a) => {
                if k < a.len() {
                    Ok(a[k])
                } else {
                    Err(ExprError::ArrayIndexOutOfBounds { name: name.clone(), index: k, len: a.len() })
                }
            },
            None => Err(ExprError::UnknownVariable { name: name.clone() }),
        }
    } else {
        Err(ExprError::UnknownVariable { name: name.clone() })
    }
}

/// The attribute `attr` of the object `base` of the context itself; inside a call there are
/// none.
#[inline(never)]
pub fn own_attribute(ctx: &EvalContext, scope: &Vec<VariableMap>, base: &String, attr: &String) -> (r: Result<u64, ExprError>)
    ensures
        eval_result_view(r) == own_attribute_read(*ctx, scope_view(scope@), base@, attr@),
{
    match name_key(base.as_str()) {
        Ok(_) => {},
        Err(err) => return Err(err),
    }
    match name_key(attr.as_str()) {
        Ok(_) => {},
        Err(err) => return Err(err),
    }
    if scope.len() == 0 {
        match ctx.attributes.get(base.as_str()) {
            Some(m) => match m.get(attr.as_str()) {
                Some(v) => return Ok(v),
                None => {},
            },
            None => {},
        }
    }
    Err(ExprError::AttributeNotFound { base: base.clone(), attr: attr.clone() })
}

/// The value of an expression in a batch evaluation, `calls` calls deep, with `pending`
/// operations waiting below it.
pub fn batch_eval_inner<N: Fn(NativeImpl, Vec<u64>) -> u64, L: Fn(String) -> u64, I: Fn(u64) -> usize>(
    ctx: &EvalContext,
    env: &EvalEnv,
    scope: &mut Vec<VariableMap>,
    e: &AstExpr,
    calls: usize,
    pending: usize,
    native: &N,
    literal: &L,
    index: &I,
) -> (r: Result<u64, ExprError>)
    requires
        oracles_ok(*native, *literal, *index),
        calls <= MAX_CALL_DEPTH,
        pending <= MAX_PENDING_OPS + 1,
    ensures
        final(scope)@ == old(scope)@,
        eval_result_view(r) == batch_eval_spec(
            *ctx,
            env@,
            scope_view(old(scope)@),
            ast_view(*e),
            calls as int,
            pending as int,
            *native,
            *literal,
            *index,
        ),
    decreases MAX_CALL_DEPTH - calls, e, 0int,
{
    if pending > MAX_PENDING_OPS {
        return Err(stack_limit_error());
    }
    let below1 = pending_after_exec(pending, 1);
    match e {
        AstExpr::Constant(text) => {
            let t = text.clone();
            let ghost tg = t;
            let v = literal(t);
            proof {
                lemma_literal_value(*literal, tg, v);
            }
            Ok(v)
        },
        AstExpr::Variable(name) => batch_eval_variable(ctx, env, scope, name.as_str()),
        AstExpr::Function { name, args } => {
            proof {
                assert(decreases_to!(*e => (*e)->args));
            }
            batch_eval_function(ctx, env, scope, name, args, calls, pending, native, literal, index)
        },
        AstExpr::Array { name, index: idx } => {
            match name_key(name.as_str()) {
                Ok(_) => {},
                Err(err) => return Err(err),
            }
            let x = match batch_eval_inner(ctx, env, scope, idx, calls, below1, native, literal, index) {
                Ok(v) => v,
                Err(err) => return Err(err),
            };
            let k = index(x);
            proof {
                lemma_index_value(*index, x, k);
            }
            own_array(ctx, scope, name, k)
        },
        AstExpr::Attribute { base, attr } => own_attribute(ctx, scope, base, attr),
        AstExpr::LogicalOp { op, left, right } => {
            let a = match batch_eval_inner(ctx, env, scope, left, calls, below1, native, literal, index) {
                Ok(v) => v,
                Err(err) => return Err(err),
            };
            let is_and = match op {
                crate::types::LogicalOperator::And => true,
                crate::types::LogicalOperator::Or => false,
            };
            if is_and && bits_is_zero(a) {
                return Ok(ZERO_BITS);
            }
            if !is_and && !bits_is_zero(a) {
                return Ok(ONE_BITS);
            }
            let b = match batch_eval_inner(ctx, env, scope, right, calls, below1, native, literal, index) {
                Ok(v) => v,
                Err(err) => return Err(err),
            };
            Ok(if bits_is_zero(b) { ZERO_BITS } else { ONE_BITS })
        },
        AstExpr::Conditional { condition, true_branch, false_branch } => {
            let c = match batch_eval_inner(ctx, env, scope, condition, calls, below1, native, literal, index) {
                Ok(v) => v,
                Err(err) => return Err(err),
            };
            if !bits_is_zero(c) {
                batch_eval_inner(ctx, env, scope, true_branch, calls, pending, native, literal, index)
            } else {
                batch_eval_inner(ctx, env, scope, false_branch, calls, pending, native, literal, index)
            }
        },
    }
}

/// The values of the arguments of a call with `pending` operations below it, left to right;
/// the first error stops.
pub fn batch_eval_args<N: Fn(NativeImpl, Vec<u64>) -> u64, L: Fn(String) -> u64, I: Fn(u64) -> usize>(
    ctx: &EvalContext,
    env: &EvalEnv,
    scope: &mut Vec<VariableMap>,
    args: &Vec<AstExpr>,
    calls: usize,
    pending: usize,
    native: &N,
    literal: &L,
    index: &I,
) -> (r: Result<Vec<u64>, ExprError>)
    requires
        oracles_ok(*native, *literal, *index),
        calls <= MAX_CALL_DEPTH,
        pending <= MAX_PENDING_OPS,
    ensures
        final(scope)@ == old(scope)@,
        match batch_eval_args_spec(
            *ctx,
            env@,
            scope_view(old(scope)@),
            args_view(args@),
            calls as int,
            pending as int,
            *native,
            *literal,
            *index,
        ) {
            Ok(vs) => r.is_ok() && r.unwrap()@ == vs,
            Err(err) => r.is_err() && r->Err_0@ == err,
        },
    decreases MAX_CALL_DEPTH - calls, args, 0int,
{
    let ghost sv = scope_view(scope@);
    let ghost av = args_view(args@);
    proof {
        lemma_args_view_len(args@);
    }
    let mut vals: Vec<u64> = Vec::new();
    let mut k: usize = 0;
    proof {
        assert(av.skip(0) == av);
        assert(vals@ + Seq::<u64>::empty() == vals@);
    }
    while k < args.len()
        invariant
            k <= args@.len(),
            av == args_view(args@),
            av.len() == args@.len(),
            scope@ == old(scope)@,
            sv == scope_view(scope@),
            calls <= MAX_CALL_DEPTH,
            pending <= MAX_PENDING_OPS,
            oracles_ok(*native, *literal, *index),
            batch_eval_args_spec(*ctx, env@, sv, av, calls as int, pending as int, *native, *literal, *index)
                == match batch_eval_args_spec(
                *ctx,
                env@,
                sv,
                av.skip(k as int),
                calls as int,
                pending as int,
                *native,
                *literal,
                *index,
            ) {
                Ok(rest) => Ok(vals@ + rest),
                Err(err) => Err(err),
            },
        decreases args@.len() - k,
    {
        proof {
            lemma_args_view_index(args@, k as int);
            assert(av.skip(k as int)[0] == av[k as int]);
            assert(av.skip(k as int).drop_first() == av.skip(k + 1));
            assert(av.skip(k as int).len() == args@.len() - k);
            assert(decreases_to!(*args => args@));
            assert(decreases_to!(args@ => args@[k as int]));
        }
        let below = pending_after_exec(pending, args.len() - k);
        let v = match batch_eval_inner(ctx, env, scope, &args[k], calls, below, native, literal, index) {
            Ok(v) => v,
            Err(err) => return Err(err),
        };
        proof {
            let rest = batch_eval_args_spec(*ctx, env@, sv, av.skip(k + 1), calls as int, pending as int, *native, *literal, *index);
            if rest is Ok {
                assert(vals@ + (seq![v] + rest->Ok_0) == vals@.push(v) + rest->Ok_0);
            }
        }
        vals.push(v);
        k = k + 1;
    }
    proof {
        assert(av.skip(k as int) == Seq::<Ast>::empty());
        assert(vals@ + Seq::<u64>::empty() == vals@);
    }
    Ok(vals)
}

/// A call of `name` on `args` in a batch evaluation.  `&&` and `||` evaluate their right side
/// only where the left one leaves the result open.  Any other call evaluates all its
/// arguments, then finds its function (a local expression function, one of the context, a
/// native one) and applies it.
pub fn batch_eval_function<N: Fn(NativeImpl, Vec<u64>) -> u64, L: Fn(String) -> u64, I: Fn(u64) -> usize>(
    ctx: &EvalContext,
    env: &EvalEnv,
    scope: &mut Vec<VariableMap>,
    name: &String,
    args: &Vec<AstExpr>,
    calls: usize,
    pending: usize,
    native: &N,
    literal: &L,
    index: &I,
) -> (r: Result<u64, ExprError>)
    requires
        oracles_ok(*native, *literal, *index),
        calls <= MAX_CALL_DEPTH,
        pending <= MAX_PENDING_OPS,
    ensures
        final(scope)@ == old(scope)@,
        eval_result_view(r) == batch_eval_spec(
            *ctx,
            env@,
            scope_view(old(scope)@),
            Ast::Function(name@, args_view(args@)),
            calls as int,
            pending as int,
            *native,
            *literal,
            *index,
        ),
    decreases MAX_CALL_DEPTH - calls, args, 1int,
{
    let ghost sv = scope_view(scope@);
    proof {
        lemma_args_view_len(args@);
    }
    let below1 = pending_after_exec(pending, 1);
    let is_and = str_eq(name.as_str(), "&&");
    let is_or = str_eq(name.as_str(), "||");
    proof {
        reveal_strlit("&&");
        reveal_strlit("||");
        assert("&&"@[0] == '&');
        assert("||"@[0] == '|');
        assert("&&"@ != "||"@);
    }
    if (is_and || is_or) && args.len() == 2 {
        proof {
            lemma_args_view_index(args@, 0);
            lemma_args_view_index(args@, 1);
            assert(decreases_to!(*args => args@));
            assert(decreases_to!(args@ => args@[0]));
            assert(decreases_to!(args@ => args@[1]));
        }
        let a = match batch_eval_inner(ctx, env, scope, &args[0], calls, below1, native, literal, index) {
            Ok(v) => v,
            Err(err) => return Err(err),
        };
        if is_and && bits_is_zero(a) {
            return Ok(ZERO_BITS);
        }
        if is_or && !bits_is_zero(a) {
            return Ok(ONE_BITS);
        }
        let b = match batch_eval_inner(ctx, env, scope, &args[1], calls, below1, native, literal, index) {
            Ok(v) => v,
            Err(err) => return Err(err),
        };
        return Ok(if bits_is_zero(b) { ZERO_BITS } else { ONE_BITS });
    }
    match name_key(name.as_str()) {
        Ok(_) => {},
        Err(err) => return Err(err),
    }
    let vals = match batch_eval_args(ctx, env, scope, args, calls, pending, native, literal, index) {
        Ok(v) => v,
        Err(err) => return Err(err),
    };
    proof {
        lemma_batch_args_len(*ctx, env@, sv, args_view(args@), calls as int, pending as int, *native, *literal, *index);
    }
    let found = match env.locals.get(name.as_str()) {
        Some(f) => Some(f),
        None => ctx.get_expression_function(name.as_str()),
    };
    proof {
        match find_expression(*ctx, env@, name@) {
            Some(f) => assert(found.is_some() && *found.unwrap() == f),
            None => assert(found.is_none()),
        }
    }
    match found {
        Some(f) => {
            match prepare_batch_call(f, &vals, calls, scope) {
                Err(err) => Err(err),
                Ok(body) => {
                    proof {
                        assert(scope@ =~= old(scope)@.push(scope@.last()));
                        assert(scope_view(scope@) =~= sv.push(value_entries(scope@.last())));
                    }
                    let r = batch_eval_inner(ctx, env, scope, &body, calls + 1, pending, native, literal, index);
                    let _ = scope.pop();
                    proof {
                        assert(scope@ =~= old(scope)@);
                    }
                    r
                },
            }
        },
        None => match ctx.get_native_function(name.as_str()) {
            Some(f) => eval_native_function(name, f, vals, native),
            None => Err(ExprError::UnknownFunction { name: name.clone() }),
        },
    }
}

} // verus!
