use vstd::prelude::*;
use crate::types::{Ast, AstExpr, NativeImpl, BuiltinFunction, ast_view, args_view, str_eq, ExpressionSpec};
use crate::error::{ExprError, ErrSpec};
use crate::context::{
    EvalContext, lookup_variable, lookup_constant, lookup_native, lookup_expression, lookup_array,
    lookup_object, name_fits, name_too_long, name_key, VariableMap,
};
use crate::maps::{NameMap, value_entries, array_entries, object_entries};
use crate::engine::{parse_text_spec, parse_expression_with_reserved, lemma_args_view_index, lemma_args_view_len};

verus! {

/// How many function and logical nodes may nest in an evaluation.
pub const MAX_RECURSION_DEPTH: usize = 250;

/// The bits of 1.0, the value of a true comparison.
pub const ONE_BITS: u64 = 0x3ff0_0000_0000_0000;

/// The bits of 0.0, the value of a false comparison.
pub const ZERO_BITS: u64 = 0;

/// The bits of pi.
pub const PI_BITS: u64 = 0x4009_21fb_5444_2d18;

/// The bits of e.
pub const E_BITS: u64 = 0x4005_bf0a_8b14_5769;

/// A number is false when it is zero, of either sign.
pub open spec fn is_zero(bits: u64) -> bool {
    bits & 0x7fff_ffff_ffff_ffff == 0
}

pub open spec fn truth(b: bool) -> u64 {
    if b {
        ONE_BITS
    } else {
        ZERO_BITS
    }
}

/// Whether a number is zero, of either sign.
pub fn bits_is_zero(bits: u64) -> (b: bool)
    ensures
        b == is_zero(bits),
{
    bits & 0x7fff_ffff_ffff_ffff == 0
}

/// The native functions compute the same result from the same arguments.
pub open spec fn native_deterministic<N: Fn(NativeImpl, Vec<u64>) -> u64>(n: N) -> bool {
    &&& forall|f: NativeImpl, a: Vec<u64>| #[trigger] call_requires(n, (f, a))
    &&& forall|f: NativeImpl, a: Vec<u64>, b: Vec<u64>, r1: u64, r2: u64|
        a@ == b@ && #[trigger] call_ensures(n, (f, a), r1) && #[trigger] call_ensures(n, (f, b), r2)
            ==> r1 == r2
}

/// Reading a number literal gives the same number each time.
pub open spec fn literal_deterministic<L: Fn(String) -> u64>(l: L) -> bool {
    &&& forall|s: String| #[trigger] call_requires(l, (s,))
    &&& forall|s: String, t: String, r1: u64, r2: u64|
        s@ == t@ && #[trigger] call_ensures(l, (s,), r1) && #[trigger] call_ensures(l, (t,), r2)
            ==> r1 == r2
}

/// Turning a number into an index gives the same index each time.
pub open spec fn index_deterministic<I: Fn(u64) -> usize>(i: I) -> bool {
    &&& forall|x: u64| #[trigger] call_requires(i, (x,))
    &&& forall|x: u64, r1: usize, r2: usize|
        #[trigger] call_ensures(i, (x,), r1) && #[trigger] call_ensures(i, (x,), r2) ==> r1 == r2
}

/// A call of the native function on arguments with these values may give `r`.
pub open spec fn native_gives<N: Fn(NativeImpl, Vec<u64>) -> u64>(n: N, f: NativeImpl, args: Seq<u64>, r: u64) -> bool {
    exists|a: Vec<u64>| a@ == args && #[trigger] call_ensures(n, (f, a), r)
}

/// What a native function gives for the arguments.
pub open spec fn native_value<N: Fn(NativeImpl, Vec<u64>) -> u64>(n: N, f: NativeImpl, args: Seq<u64>) -> u64 {
    choose|r: u64| #[trigger] native_gives(n, f, args, r)
}

/// Reading a literal with this text may give `r`.
pub open spec fn literal_gives<L: Fn(String) -> u64>(l: L, text: Seq<char>, r: u64) -> bool {
    exists|s: String| s@ == text && #[trigger] call_ensures(l, (s,), r)
}

/// The number that a literal stands for.
pub open spec fn literal_value<L: Fn(String) -> u64>(l: L, text: Seq<char>) -> u64 {
    choose|r: u64| #[trigger] literal_gives(l, text, r)
}

/// The index that a number stands for.
pub open spec fn index_value<I: Fn(u64) -> usize>(i: I, x: u64) -> int {
    (choose|r: usize| #[trigger] call_ensures(i, (x,), r)) as int
}

/// The value of a name in a context: its own variables, then its own constants, then the
/// variables and then the constants of the whole chain of contexts.
pub open spec fn context_value(ctx: EvalContext, name: Seq<char>) -> Option<u64> {
    if value_entries(ctx.variables).contains_key(name) {
        Some(value_entries(ctx.variables)[name])
    } else if value_entries(ctx.constants).contains_key(name) {
        Some(value_entries(ctx.constants)[name])
    } else {
        match lookup_variable(ctx, name) {
            Some(v) => Some(v),
            None => lookup_constant(ctx, name),
        }
    }
}

/// Names that are functions and so cannot be read as variables.
pub open spec fn names_a_function(name: Seq<char>) -> bool {
    name == "sin"@ || name == "cos"@ || name == "tan"@ || name == "asin"@ || name == "acos"@
        || name == "atan"@ || name == "atan2"@ || name == "sinh"@ || name == "cosh"@ || name
        == "tanh"@ || name == "exp"@ || name == "log"@ || name == "log10"@ || name == "ln"@
        || name == "sqrt"@ || name == "abs"@ || name == "ceil"@ || name == "floor"@ || name
        == "pow"@ || name == "neg"@ || name == ","@ || name == "comma"@ || name == "+"@ || name
        == "-"@ || name == "*"@ || name == "/"@ || name == "%"@ || name == "^"@ || name == "max"@
        || name == "min"@
}

pub open spec fn without_arguments_err(name: Seq<char>) -> ErrSpec {
    ErrSpec::Syntax("Function '"@ + name + "' used without arguments"@)
}

/// What a batch evaluation adds to a context: parameter values that every read of their names
/// sees first, and expression functions that every call of their names finds first.
pub struct Env {
    pub overrides: Map<Seq<char>, u64>,
    pub locals: Map<Seq<char>, crate::types::ExpressionFunction>,
}

/// An evaluation that adds nothing to its context.
pub open spec fn no_env() -> Env {
    Env { overrides: Map::empty(), locals: Map::empty() }
}

/// The expression function that a call of `name` finds: a local one first, then one of the
/// context or of its parents.
pub open spec fn find_expression(ctx: EvalContext, env: Env, name: Seq<char>) -> Option<crate::types::ExpressionFunction> {
    if env.locals.contains_key(name) {
        Some(env.locals[name])
    } else {
        lookup_expression(ctx, name)
    }
}

/// A name read outside any parameter: the constants `pi` and `e` first, then the context;
/// a function name of the built-in list (of more than one character) read without arguments
/// is a syntax error, any other unknown name an unknown variable.
pub open spec fn global_variable(ctx: EvalContext, name: Seq<char>) -> Result<u64, ErrSpec> {
    if name == "pi"@ {
        Ok(PI_BITS)
    } else if name == "e"@ {
        Ok(E_BITS)
    } else {
        match context_value(ctx, name) {
            Some(v) => Ok(v),
            None => if names_a_function(name) && name.len() > 1 {
                Err(without_arguments_err(name))
            } else {
                Err(ErrSpec::UnknownVariable { name })
            },
        }
    }
}

/// The value of a variable read in an expression: a batch parameter first, then a parameter
/// of the innermost call, then the name as `global_variable` reads it.
pub open spec fn variable_spec(ctx: EvalContext, env: Env, scope: Seq<Map<Seq<char>, u64>>, name: Seq<char>) -> Result<u64, ErrSpec> {
    if env.overrides.contains_key(name) {
        Ok(env.overrides[name])
    } else if scope.len() > 0 && scope.last().contains_key(name) {
        Ok(scope.last()[name])
    } else {
        global_variable(ctx, name)
    }
}

/// Binding the parameters of a function to the values of its arguments, as `set_parameter`
/// would, one after the other.
pub open spec fn bind_params(params: Seq<Seq<char>>, vals: Seq<u64>, m: Map<Seq<char>, u64>) -> Result<Map<Seq<char>, u64>, ErrSpec>
    decreases params.len(),
{
    if params.len() == 0 || vals.len() == 0 {
        Ok(m)
    } else if !name_fits(params[0]) {
        Err(name_too_long(params[0]))
    } else if m.contains_key(params[0]) || m.len() < 64 {
        bind_params(params.drop_first(), vals.drop_first(), m.insert(params[0], vals[0]))
    } else {
        Err(ErrSpec::CapacityExceeded("variables"@))
    }
}

pub open spec fn recursion_limit_err() -> ErrSpec {
    ErrSpec::RecursionLimit(
        "Maximum recursion depth of 250 exceeded during expression evaluation"@,
    )
}

/// The built-in function of one argument that a name falls back to where no context
/// defines it.
pub open spec fn unary_builtin(name: Seq<char>) -> Option<BuiltinFunction> {
    if name == "sin"@ { Some(BuiltinFunction::Sin) }
    else if name == "cos"@ { Some(BuiltinFunction::Cos) }
    else if name == "tan"@ { Some(BuiltinFunction::Tan) }
    else if name == "asin"@ { Some(BuiltinFunction::Asin) }
    else if name == "acos"@ { Some(BuiltinFunction::Acos) }
    else if name == "atan"@ { Some(BuiltinFunction::Atan) }
    else if name == "sinh"@ { Some(BuiltinFunction::Sinh) }
    else if name == "cosh"@ { Some(BuiltinFunction::Cosh) }
    else if name == "tanh"@ { Some(BuiltinFunction::Tanh) }
    else if name == "exp"@ { Some(BuiltinFunction::Exp) }
    else if name == "log"@ || name == "ln"@ { Some(BuiltinFunction::Ln) }
    else if name == "log10"@ { Some(BuiltinFunction::Log10) }
    else if name == "sqrt"@ { Some(BuiltinFunction::Sqrt) }
    else if name == "abs"@ { Some(BuiltinFunction::Abs) }
    else if name == "ceil"@ { Some(BuiltinFunction::Ceil) }
    else if name == "floor"@ { Some(BuiltinFunction::Floor) }
    else if name == "neg"@ { Some(BuiltinFunction::Neg) }
    else { None }
}

/// The built-in function of two arguments that a name falls back to where no context
/// defines it; a call of one with another number of arguments is refused.
pub open spec fn binary_builtin(name: Seq<char>) -> Option<BuiltinFunction> {
    if name == "+"@ { Some(BuiltinFunction::Add) }
    else if name == "-"@ { Some(BuiltinFunction::Sub) }
    else if name == "*"@ { Some(BuiltinFunction::Mul) }
    else if name == "/"@ { Some(BuiltinFunction::Div) }
    else if name == "^"@ || name == "pow"@ { Some(BuiltinFunction::Pow) }
    else if name == "max"@ { Some(BuiltinFunction::Max) }
    else if name == "min"@ { Some(BuiltinFunction::Min) }
    else if name == "%"@ { Some(BuiltinFunction::Rem) }
    else if name == ","@ || name == "comma"@ { Some(BuiltinFunction::Second) }
    else if name == "atan2"@ { Some(BuiltinFunction::Atan2) }
    else { None }
}

/// The comparisons that a name of two arguments falls back to.
pub open spec fn comparison_builtin(name: Seq<char>) -> Option<BuiltinFunction> {
    if name == "<"@ { Some(BuiltinFunction::Lt) }
    else if name == ">"@ { Some(BuiltinFunction::Gt) }
    else if name == "<="@ { Some(BuiltinFunction::Le) }
    else if name == ">="@ { Some(BuiltinFunction::Ge) }
    else if name == "=="@ { Some(BuiltinFunction::Eq) }
    else if name == "!="@ || name == "<>"@ { Some(BuiltinFunction::Ne) }
    else { None }
}

/// The built-in function that a call with `k` arguments falls back to.
pub open spec fn fallback_builtin(name: Seq<char>, k: nat) -> Option<BuiltinFunction> {
    if k == 1 {
        unary_builtin(name)
    } else if k == 2 {
        match binary_builtin(name) {
            Some(b) => Some(b),
            None => comparison_builtin(name),
        }
    } else {
        None
    }
}

/// Why a call of `name` with `k` arguments is refused before any argument is evaluated, if it
/// is: its number of arguments is not the one its function takes.
pub open spec fn arity_err(ctx: EvalContext, env: Env, name: Seq<char>, k: nat) -> Option<ErrSpec> {
    match find_expression(ctx, env, name) {
        Some(f) => if k != f@.params.len() {
            Some(ErrSpec::InvalidFunctionCall { name, expected: f@.params.len() as int, found: k as int })
        } else {
            None
        },
        None => match lookup_native(ctx, name) {
            Some(f) => if k != f.arity {
                Some(ErrSpec::InvalidFunctionCall { name, expected: f.arity as int, found: k as int })
            } else {
                None
            },
            None => if unary_builtin(name) is Some && k != 1 {
                Some(ErrSpec::InvalidFunctionCall { name, expected: 1, found: k as int })
            } else if binary_builtin(name) is Some && k != 2 {
                Some(ErrSpec::InvalidFunctionCall { name, expected: 2, found: k as int })
            } else if k != 1 && k != 2 {
                Some(ErrSpec::UnknownFunction { name })
            } else {
                None
            },
        },
    }
}

/// The value of an expression, under `depth` enclosing function and logical nodes, with
/// `scope` holding the parameters of the calls under way.  A function or logical node that
/// would be the `MAX_RECURSION_DEPTH + 1`-th to nest is refused.
pub open spec fn eval_spec<N: Fn(NativeImpl, Vec<u64>) -> u64, L: Fn(String) -> u64, I: Fn(u64) -> usize>(
    ctx: EvalContext,
    env: Env,
    scope: Seq<Map<Seq<char>, u64>>,
    e: Ast,
    depth: int,
    n: N,
    l: L,
    i: I,
) -> Result<u64, ErrSpec>
    decreases MAX_RECURSION_DEPTH - depth, e, 0int,
{
    match e {
        Ast::Constant(text) => Ok(literal_value(l, text)),
        Ast::Variable(name) => variable_spec(ctx, env, scope, name),
        Ast::Function(name, args) => if depth < 0 || depth >= MAX_RECURSION_DEPTH {
            Err(recursion_limit_err())
        } else if (name == "&&"@ || name == "||"@) && args.len() == 2 {
            match eval_spec(ctx, env, scope, args[0], depth + 1, n, l, i) {
                Err(err) => Err(err),
                Ok(a) => if name == "&&"@ && is_zero(a) {
                    Ok(ZERO_BITS)
                } else if name == "||"@ && !is_zero(a) {
                    Ok(ONE_BITS)
                } else {
                    match eval_spec(ctx, env, scope, args[1], depth + 1, n, l, i) {
                        Err(err) => Err(err),
                        Ok(b) => Ok(truth(!is_zero(b))),
                    }
                },
            }
        } else {
            match arity_err(ctx, env, name, args.len()) {
                Some(err) => Err(err),
                None => match eval_args_spec(ctx, env, scope, args, depth + 1, n, l, i) {
                    Err(err) => Err(err),
                    Ok(vals) => match find_expression(ctx, env, name) {
                        Some(f) => match bind_params(f@.params, vals, Map::empty()) {
                            Err(err) => Err(err),
                            Ok(frame) => match parse_text_spec(f@.expression, Some(f@.params), None) {
                                Err(err) => Err(err),
                                Ok(body) => eval_spec(ctx, env, scope.push(frame), body, depth + 1, n, l, i),
                            },
                        },
                        None => match lookup_native(ctx, name) {
                            Some(f) => Ok(native_value(n, f.implementation, vals)),
                            None => match fallback_builtin(name, args.len()) {
                                Some(b) => Ok(native_value(n, NativeImpl::Builtin(b), vals)),
                                None => Err(ErrSpec::UnknownFunction { name }),
                            },
                        },
                    },
                },
            }
        },
        Ast::Array(name, index) => match eval_spec(ctx, env, scope, *index, depth, n, l, i) {
            Err(err) => Err(err),
            Ok(x) => array_read(ctx, name, index_value(i, x)),
        },
        Ast::Attribute(base, attr) => attribute_read(ctx, base, attr),
        Ast::LogicalOp(op, left, right) => if depth < 0 || depth >= MAX_RECURSION_DEPTH {
            Err(recursion_limit_err())
        } else {
            match eval_spec(ctx, env, scope, *left, depth + 1, n, l, i) {
                Err(err) => Err(err),
                Ok(a) => if op == crate::types::LogicalOperator::And && is_zero(a) {
                    Ok(ZERO_BITS)
                } else if op == crate::types::LogicalOperator::Or && !is_zero(a) {
                    Ok(ONE_BITS)
                } else {
                    match eval_spec(ctx, env, scope, *right, depth + 1, n, l, i) {
                        Err(err) => Err(err),
                        Ok(b) => Ok(truth(!is_zero(b))),
                    }
                },
            }
        },
        Ast::Conditional(c, t, f) => match eval_spec(ctx, env, scope, *c, depth, n, l, i) {
            Err(err) => Err(err),
            Ok(x) => if !is_zero(x) {
                eval_spec(ctx, env, scope, *t, depth, n, l, i)
            } else {
                eval_spec(ctx, env, scope, *f, depth, n, l, i)
            },
        },
    }
}

/// Element `k` of the array `name` of the context or of its parents.
pub open spec fn array_read(ctx: EvalContext, name: Seq<char>, k: int) -> Result<u64, ErrSpec> {
    match lookup_array(ctx, name) {
        Some(a) => if k < a@.len() {
            Ok(a@[k])
        } else {
            Err(ErrSpec::ArrayIndexOutOfBounds { name, index: k, len: a@.len() as int })
        },
        None => Err(ErrSpec::UnknownVariable { name }),
    }
}

/// The attribute `attr` of the object `base` of the context or of its parents.
pub open spec fn attribute_read(ctx: EvalContext, base: Seq<char>, attr: Seq<char>) -> Result<u64, ErrSpec> {
    match lookup_object(ctx, base) {
        Some(m) => if value_entries(m).contains_key(attr) {
            Ok(value_entries(m)[attr])
        } else {
            Err(ErrSpec::AttributeNotFound { base, attr })
        },
        None => Err(ErrSpec::AttributeNotFound { base, attr }),
    }
}

/// Calling the native function `f` under the name `name`: refused with another number of
/// arguments than it takes.
pub open spec fn native_result<N: Fn(NativeImpl, Vec<u64>) -> u64>(
    name: Seq<char>,
    f: crate::types::NativeFunction,
    vals: Seq<u64>,
    n: N,
) -> Result<u64, ErrSpec> {
    if vals.len() != f.arity {
        Err(ErrSpec::InvalidFunctionCall { name, expected: f.arity as int, found: vals.len() as int })
    } else {
        Ok(native_value(n, f.implementation, vals))
    }
}

/// The values of the arguments, left to right; the first error stops.
pub open spec fn eval_args_spec<N: Fn(NativeImpl, Vec<u64>) -> u64, L: Fn(String) -> u64, I: Fn(u64) -> usize>(
    ctx: EvalContext,
    env: Env,
    scope: Seq<Map<Seq<char>, u64>>,
    args: Seq<Ast>,
    depth: int,
    n: N,
    l: L,
    i: I,
) -> Result<Seq<u64>, ErrSpec>
    decreases MAX_RECURSION_DEPTH - depth, args, 0int,
{
    if args.len() == 0 {
        Ok(Seq::empty())
    } else {
        match eval_spec(ctx, env, scope, args[0], depth, n, l, i) {
            Err(err) => Err(err),
            Ok(v) => match eval_args_spec(ctx, env, scope, args.drop_first(), depth, n, l, i) {
                Err(err) => Err(err),
                Ok(vs) => Ok(seq![v] + vs),
            },
        }
    }
}

} // verus!

verus! {

/// The parameters and local functions of a batch evaluation.
pub struct EvalEnv {
    pub overrides: VariableMap,
    pub locals: crate::context::ExpressionFunctionMap,
}

impl View for EvalEnv {
    type V = Env;

    open spec fn view(&self) -> Env {
        Env { overrides: value_entries(self.overrides), locals: crate::maps::expression_entries(self.locals) }
    }
}

impl EvalEnv {
    /// An environment that adds nothing.
    pub fn new() -> (e: Self)
        ensures
            e@ == no_env(),
    {
        let e = EvalEnv { overrides: NameMap::<u64, 64>::new(), locals: NameMap::<crate::types::ExpressionFunction, 64>::new() };
        proof {
            assert(e@.overrides =~= Map::<Seq<char>, u64>::empty());
            assert(e@.locals =~= Map::<Seq<char>, crate::types::ExpressionFunction>::empty());
        }
        e
    }
}

pub open spec fn scope_view(s: Seq<VariableMap>) -> Seq<Map<Seq<char>, u64>> {
    Seq::new(s.len(), |k: int| value_entries(s[k]))
}

pub open spec fn eval_result_view(r: Result<u64, ExprError>) -> Result<u64, ErrSpec> {
    match r {
        Ok(v) => Ok(v),
        Err(e) => Err(e@),
    }
}

/// The oracles that compute numbers answer deterministically and accept every argument.
pub open spec fn oracles_ok<N: Fn(NativeImpl, Vec<u64>) -> u64, L: Fn(String) -> u64, I: Fn(u64) -> usize>(
    n: N,
    l: L,
    i: I,
) -> bool {
    native_deterministic(n) && literal_deterministic(l) && index_deterministic(i)
}

pub(crate) proof fn lemma_native_value<N: Fn(NativeImpl, Vec<u64>) -> u64>(n: N, f: NativeImpl, a: Vec<u64>, r: u64)
    requires
        native_deterministic(n),
        call_ensures(n, (f, a), r),
    ensures
        native_value(n, f, a@) == r,
{
    assert(native_gives(n, f, a@, r));
    let r0 = native_value(n, f, a@);
    assert(native_gives(n, f, a@, r0));
    let a0 = choose|a0: Vec<u64>| a0@ == a@ && #[trigger] call_ensures(n, (f, a0), r0);
    assert(call_ensures(n, (f, a0), r0));
}

pub(crate) proof fn lemma_literal_value<L: Fn(String) -> u64>(l: L, s: String, r: u64)
    requires
        literal_deterministic(l),
        call_ensures(l, (s,), r),
    ensures
        literal_value(l, s@) == r,
{
    assert(literal_gives(l, s@, r));
    let r0 = literal_value(l, s@);
    assert(literal_gives(l, s@, r0));
    let s0 = choose|s0: String| s0@ == s@ && #[trigger] call_ensures(l, (s0,), r0);
    assert(call_ensures(l, (s0,), r0));
}

pub(crate) proof fn lemma_index_value<I: Fn(u64) -> usize>(i: I, x: u64, r: usize)
    requires
        index_deterministic(i),
        call_ensures(i, (x,), r),
    ensures
        index_value(i, x) == r as int,
{
    let r0 = choose|r0: usize| #[trigger] call_ensures(i, (x,), r0);
    assert(call_ensures(i, (x,), r0));
}

#[inline(never)]
fn names_a_function_exec(name: &str) -> (b: bool)
    ensures
        b == names_a_function(name@),
{
    str_eq(name, "sin") || str_eq(name, "cos") || str_eq(name, "tan") || str_eq(name, "asin")
        || str_eq(name, "acos") || str_eq(name, "atan") || str_eq(name, "atan2") || str_eq(
        name,
        "sinh",
    ) || str_eq(name, "cosh") || str_eq(name, "tanh") || str_eq(name, "exp") || str_eq(name, "log")
        || str_eq(name, "log10") || str_eq(name, "ln") || str_eq(name, "sqrt") || str_eq(name, "abs")
        || str_eq(name, "ceil") || str_eq(name, "floor") || str_eq(name, "pow") || str_eq(name, "neg")
        || str_eq(name, ",") || str_eq(name, "comma") || str_eq(name, "+") || str_eq(name, "-")
        || str_eq(name, "*") || str_eq(name, "/") || str_eq(name, "%") || str_eq(name, "^")
        || str_eq(name, "max") || str_eq(name, "min")
}

/// The value of a variable read in an expression: a batch parameter first, then a parameter
/// of the innermost call, then the constants `pi` and `e`, then the context (its own
/// variables and constants, then those of the whole chain).
#[inline(never)]
pub fn eval_variable(ctx: &EvalContext, env: &EvalEnv, scope: &Vec<VariableMap>, name: &str) -> (r: Result<u64, ExprError>)
    ensures
        eval_result_view(r) == variable_spec(*ctx, env@, scope_view(scope@), name@),
{
    match env.overrides.get(name) {
        Some(v) => return Ok(v),
        None => {},
    }
    if scope.len() > 0 {
        proof {
            assert(scope_view(scope@).last() == value_entries(scope@[scope@.len() - 1]));
        }
        match scope[scope.len() - 1].get(name) {
            Some(v) => return Ok(v),
            None => {},
        }
    }
    if str_eq(name, "pi") {
        return Ok(PI_BITS);
    }
    if str_eq(name, "e") {
        return Ok(E_BITS);
    }
    match ctx.variables.get(name) {
        Some(v) => return Ok(v),
        None => {},
    }
    match ctx.constants.get(name) {
        Some(v) => return Ok(v),
        None => {},
    }
    match ctx.get_variable(name) {
        Some(v) => return Ok(v),
        None => {},
    }
    match ctx.get_constant(name) {
        Some(v) => return Ok(v),
        None => {},
    }
    if names_a_function_exec(name) && name.unicode_len() > 1 {
        let mut m = String::from_str("Function '");
        m.append(name);
        m.append("' used without arguments");
        Err(ExprError::Syntax(m))
    } else {
        Err(ExprError::UnknownVariable { name: String::from_str(name) })
    }
}

#[inline(never)]
fn unary_builtin_exec(name: &str) -> (r: Option<BuiltinFunction>)
    ensures
        r == unary_builtin(name@),
{
    if str_eq(name, "sin") { Some(BuiltinFunction::Sin) }
    else if str_eq(name, "cos") { Some(BuiltinFunction::Cos) }
    else if str_eq(name, "tan") { Some(BuiltinFunction::Tan) }
    else if str_eq(name, "asin") { Some(BuiltinFunction::Asin) }
    else if str_eq(name, "acos") { Some(BuiltinFunction::Acos) }
    else if str_eq(name, "atan") { Some(BuiltinFunction::Atan) }
    else if str_eq(name, "sinh") { Some(BuiltinFunction::Sinh) }
    else if str_eq(name, "cosh") { Some(BuiltinFunction::Cosh) }
    else if str_eq(name, "tanh") { Some(BuiltinFunction::Tanh) }
    else if str_eq(name, "exp") { Some(BuiltinFunction::Exp) }
    else if str_eq(name, "log") || str_eq(name, "ln") { Some(BuiltinFunction::Ln) }
    else if str_eq(name, "log10") { Some(BuiltinFunction::Log10) }
    else if str_eq(name, "sqrt") { Some(BuiltinFunction::Sqrt) }
    else if str_eq(name, "abs") { Some(BuiltinFunction::Abs) }
    else if str_eq(name, "ceil") { Some(BuiltinFunction::Ceil) }
    else if str_eq(name, "floor") { Some(BuiltinFunction::Floor) }
    else if str_eq(name, "neg") { Some(BuiltinFunction::Neg) }
    else { None }
}

#[inline(never)]
fn binary_builtin_exec(name: &str) -> (r: Option<BuiltinFunction>)
    ensures
        r == binary_builtin(name@),
{
    if str_eq(name, "+") { Some(BuiltinFunction::Add) }
    else if str_eq(name, "-") { Some(BuiltinFunction::Sub) }
    else if str_eq(name, "*") { Some(BuiltinFunction::Mul) }
    else if str_eq(name, "/") { Some(BuiltinFunction::Div) }
    else if str_eq(name, "^") || str_eq(name, "pow") { Some(BuiltinFunction::Pow) }
    else if str_eq(name, "max") { Some(BuiltinFunction::Max) }
    else if str_eq(name, "min") { Some(BuiltinFunction::Min) }
    else if str_eq(name, "%") { Some(BuiltinFunction::Rem) }
    else if str_eq(name, ",") || str_eq(name, "comma") { Some(BuiltinFunction::Second) }
    else if str_eq(name, "atan2") { Some(BuiltinFunction::Atan2) }
    else { None }
}

#[inline(never)]
fn comparison_builtin_exec(name: &str) -> (r: Option<BuiltinFunction>)
    ensures
        r == comparison_builtin(name@),
{
    if str_eq(name, "<") { Some(BuiltinFunction::Lt) }
    else if str_eq(name, ">") { Some(BuiltinFunction::Gt) }
    else if str_eq(name, "<=") { Some(BuiltinFunction::Le) }
    else if str_eq(name, ">=") { Some(BuiltinFunction::Ge) }
    else if str_eq(name, "==") { Some(BuiltinFunction::Eq) }
    else if str_eq(name, "!=") || str_eq(name, "<>") { Some(BuiltinFunction::Ne) }
    else { None }
}

} // verus!

verus! {

/// Binds the parameters of a function to argument values, as `set_parameter` would.
#[inline(never)]
pub(crate) fn bind_params_exec(params: &Vec<String>, vals: &Vec<u64>) -> (r: Result<VariableMap, ExprError>)
    requires
        params@.len() == vals@.len(),
    ensures
        match bind_params(crate::types::string_views(params@), vals@, Map::empty()) {
            Ok(m) => r.is_ok() && value_entries(r.unwrap()) == m,
            Err(e) => r.is_err() && r->Err_0@ == e,
        },
{
    let ghost ps = crate::types::string_views(params@);
    let mut frame = NameMap::<u64, 64>::new();
    proof {
        assert(value_entries(frame) =~= Map::<Seq<char>, u64>::empty());
        assert(ps.skip(0) == ps);
        assert(vals@.skip(0) == vals@);
    }
    let mut k: usize = 0;
    while k < params.len()
        invariant
            k <= params@.len(),
            params@.len() == vals@.len(),
            ps == crate::types::string_views(params@),
            bind_params(ps.skip(k as int), vals@.skip(k as int), value_entries(frame)) == bind_params(
                ps,
                vals@,
                Map::empty(),
            ),
        decreases params@.len() - k,
    {
        proof {
            assert(ps.skip(k as int)[0] == params@[k as int]@);
            assert(vals@.skip(k as int)[0] == vals@[k as int]);
            assert(ps.skip(k as int).drop_first() == ps.skip(k + 1));
            assert(vals@.skip(k as int).drop_first() == vals@.skip(k + 1));
        }
        let key = match name_key(params[k].as_str()) {
            Ok(key) => key,
            Err(e) => return Err(e),
        };
        match frame.insert(key, vals[k]) {
            Ok(_) => {},
            Err(()) => return Err(ExprError::CapacityExceeded("variables")),
        }
        k = k + 1;
    }
    proof {
        assert(ps.skip(k as int).len() == 0);
    }
    Ok(frame)
}

/// Prepares a call of an expression function on argument values: binds the parameters into a
/// new frame pushed on `scope`, and parses the body.
#[inline(never)]
fn prepare_expression_call(
    f: &crate::types::ExpressionFunction,
    vals: &Vec<u64>,
    scope: &mut Vec<VariableMap>,
) -> (r: Result<AstExpr, ExprError>)
    requires
        vals@.len() == f@.params.len(),
    ensures
        ({
            let fv = f@;
            match bind_params(fv.params, vals@, Map::empty()) {
                Err(err) => r.is_err() && r->Err_0@ == err && final(scope)@ == old(scope)@,
                Ok(frame) => match parse_text_spec(fv.expression, Some(fv.params), None) {
                    Err(err) => r.is_err() && r->Err_0@ == err && final(scope)@ == old(scope)@,
                    Ok(body) => {
                        &&& r.is_ok()
                        &&& ast_view(r.unwrap()) == body
                        &&& final(scope)@.len() == old(scope)@.len() + 1
                        &&& final(scope)@.drop_last() == old(scope)@
                        &&& value_entries(final(scope)@.last()) == frame
                    },
                },
            }
        }),
{
    let frame = match bind_params_exec(&f.params, vals) {
        Ok(m) => m,
        Err(e) => return Err(e),
    };
    let params = f.params.as_slice();
    proof {
        assert(crate::engine::slice_names(Some(params)) =~~= Some(crate::types::string_views(f.params@)));
    }
    let body = match parse_expression_with_reserved(f.expression.as_str(), Some(params)) {
        Ok(b) => b,
        Err(e) => return Err(e),
    };
    scope.push(frame);
    proof {
        assert(scope@.drop_last() =~= old(scope)@);
    }
    Ok(body)
}

/// The value of an expression in a context, under `depth` enclosing function and logical
/// nodes, with `scope` holding the parameters of the calls of expression functions under way.
pub fn eval_ast_inner<N: Fn(NativeImpl, Vec<u64>) -> u64, L: Fn(String) -> u64, I: Fn(u64) -> usize>(
    ctx: &EvalContext,
    env: &EvalEnv,
    scope: &mut Vec<VariableMap>,
    e: &AstExpr,
    depth: usize,
    native: &N,
    literal: &L,
    index: &I,
) -> (r: Result<u64, ExprError>)
    requires
        oracles_ok(*native, *literal, *index),
        depth <= MAX_RECURSION_DEPTH,
    ensures
        final(scope)@ == old(scope)@,
        eval_result_view(r) == eval_spec(
            *ctx,
            env@,
            scope_view(old(scope)@),
            ast_view(*e),
            depth as int,
            *native,
            *literal,
            *index,
        ),
    decreases MAX_RECURSION_DEPTH - depth, e, 0int,
{
    match e {
        AstExpr::Constant(text) => {
            let t = text.clone();
            let ghost tg = t;
            let v = literal(t);
            proof {
                lemma_literal_value(*literal, tg, v);
            }
            Ok(v)
        },
        AstExpr::Variable(name) => eval_variable(ctx, env, scope, name.as_str()),
        AstExpr::Function { name, args } => {
            proof {
                assert(decreases_to!(*e => (*e)->args));
            }
            eval_function(ctx, env, scope, name, args, depth, native, literal, index)
        },
        AstExpr::Array { name, index: idx } => {
            let x = match eval_ast_inner(ctx, env, scope, idx, depth, native, literal, index) {
                Ok(v) => v,
                Err(err) => return Err(err),
            };
            let k = index(x);
            proof {
                lemma_index_value(*index, x, k);
            }
            eval_array(ctx, name, k)
        },
        AstExpr::Attribute { base, attr } => eval_attribute(ctx, base, attr),
        AstExpr::LogicalOp { op, left, right } => {
            if depth >= MAX_RECURSION_DEPTH {
                return Err(recursion_limit_error());
            }
            let a = match eval_ast_inner(ctx, env, scope, left, depth + 1, native, literal, index) {
                Ok(v) => v,
                Err(err) => return Err(err),
            };
            let is_and = match op {
                crate::types::LogicalOperator::And => true,
                crate::types::LogicalOperator::Or => false,
            };
            if is_and && bits_is_zero(a) {
                return Ok(ZERO_BITS);
            }
            if !is_and && !bits_is_zero(a) {
                return Ok(ONE_BITS);
            }
            let b = match eval_ast_inner(ctx, env, scope, right, depth + 1, native, literal, index) {
                Ok(v) => v,
                Err(err) => return Err(err),
            };
            Ok(if bits_is_zero(b) { ZERO_BITS } else { ONE_BITS })
        },
        AstExpr::Conditional { condition, true_branch, false_branch } => {
            let c = match eval_ast_inner(ctx, env, scope, condition, depth, native, literal, index) {
                Ok(v) => v,
                Err(err) => return Err(err),
            };
            if !bits_is_zero(c) {
                eval_ast_inner(ctx, env, scope, true_branch, depth, native, literal, index)
            } else {
                eval_ast_inner(ctx, env, scope, false_branch, depth, native, literal, index)
            }
        },
    }
}

proof fn lemma_eval_args_len<N: Fn(NativeImpl, Vec<u64>) -> u64, L: Fn(String) -> u64, I: Fn(u64) -> usize>(
    ctx: EvalContext,
    env: Env,
    scope: Seq<Map<Seq<char>, u64>>,
    args: Seq<Ast>,
    depth: int,
    n: N,
    l: L,
    i: I,
)
    ensures
        eval_args_spec(ctx, env, scope, args, depth, n, l, i) is Ok ==> eval_args_spec(
            ctx,
            env,
            scope,
            args,
            depth,
            n,
            l,
            i,
        )->Ok_0.len() == args.len(),
    decreases args.len(),
{
    if args.len() > 0 {
        lemma_eval_args_len(ctx, env, scope, args.drop_first(), depth, n, l, i);
    }
}

#[inline(never)]
fn recursion_limit_error() -> (e: ExprError)
    ensures
        e@ == recursion_limit_err(),
{
    ExprError::RecursionLimit(
        String::from_str("Maximum recursion depth of 250 exceeded during expression evaluation"),
    )
}

/// The values of the arguments, left to right; the first error stops.
pub fn eval_args<N: Fn(NativeImpl, Vec<u64>) -> u64, L: Fn(String) -> u64, I: Fn(u64) -> usize>(
    ctx: &EvalContext,
    env: &EvalEnv,
    scope: &mut Vec<VariableMap>,
    args: &Vec<AstExpr>,
    depth: usize,
    native: &N,
    literal: &L,
    index: &I,
) -> (r: Result<Vec<u64>, ExprError>)
    requires
        oracles_ok(*native, *literal, *index),
        depth <= MAX_RECURSION_DEPTH,
    ensures
        final(scope)@ == old(scope)@,
        match eval_args_spec(
            *ctx,
            env@,
            scope_view(old(scope)@),
            args_view(args@),
            depth as int,
            *native,
            *literal,
            *index,
        ) {
            Ok(vs) => r.is_ok() && r.unwrap()@ == vs,
            Err(err) => r.is_err() && r->Err_0@ == err,
        },
    decreases MAX_RECURSION_DEPTH - depth, args, 0int,
{
    let ghost sv = scope_view(scope@);
    let ghost av = args_view(args@);
    proof {
        lemma_args_view_len(args@);
    }
    let mut vals: Vec<u64> = Vec::new();
    let mut k: usize = 0;
    proof {
        assert(av.skip(0) == av);
        assert(vals@ + Seq::<u64>::empty() == vals@);
    }
    while k < args.len()
        invariant
            k <= args@.len(),
            av == args_view(args@),
            av.len() == args@.len(),
            scope@ == old(scope)@,
            sv == scope_view(scope@),
            depth <= MAX_RECURSION_DEPTH,
            oracles_ok(*native, *literal, *index),
            eval_args_spec(*ctx, env@, sv, av, depth as int, *native, *literal, *index) == match eval_args_spec(
                *ctx,
                env@,
                sv,
                av.skip(k as int),
                depth as int,
                *native,
                *literal,
                *index,
            ) {
                Ok(rest) => Ok(vals@ + rest),
                Err(err) => Err(err),
            },
        decreases args@.len() - k,
    {
        proof {
            lemma_args_view_index(args@, k as int);
            assert(av.skip(k as int)[0] == av[k as int]);
            assert(av.skip(k as int).drop_first() == av.skip(k + 1));
            assert(decreases_to!(*args => args@));
            assert(decreases_to!(args@ => args@[k as int]));
        }
        let v = match eval_ast_inner(ctx, env, scope, &args[k], depth, native, literal, index) {
            Ok(v) => v,
            Err(err) => return Err(err),
        };
        proof {
            let rest = eval_args_spec(*ctx, env@, sv, av.skip(k + 1), depth as int, *native, *literal, *index);
            if rest is Ok {
                assert(vals@ + (seq![v] + rest->Ok_0) == vals@.push(v) + rest->Ok_0);
            }
        }
        vals.push(v);
        k = k + 1;
    }
    proof {
        assert(av.skip(k as int) == Seq::<Ast>::empty());
        assert(vals@ + Seq::<u64>::empty() == vals@);
    }
    Ok(vals)
}

/// The value of a call of the function `name` on `args`.  `&&` and `||` evaluate their right
/// side only where the left one leaves the result open.  Any other call first finds its
/// function (a local expression function, one of the context, a native one, or a built-in
/// fallback) and checks the number of arguments, then evaluates the arguments and applies
/// the function.
pub fn eval_function<N: Fn(NativeImpl, Vec<u64>) -> u64, L: Fn(String) -> u64, I: Fn(u64) -> usize>(
    ctx: &EvalContext,
    env: &EvalEnv,
    scope: &mut Vec<VariableMap>,
    name: &String,
    args: &Vec<AstExpr>,
    depth: usize,
    native: &N,
    literal: &L,
    index: &I,
) -> (r: Result<u64, ExprError>)
    requires
        oracles_ok(*native, *literal, *index),
        depth <= MAX_RECURSION_DEPTH,
    ensures
        final(scope)@ == old(scope)@,
        eval_result_view(r) == eval_spec(
            *ctx,
            env@,
            scope_view(old(scope)@),
            Ast::Function(name@, args_view(args@)),
            depth as int,
            *native,
            *literal,
            *index,
        ),
    decreases MAX_RECURSION_DEPTH - depth, args, 0int,
{
    let ghost sv = scope_view(scope@);
    proof {
        lemma_args_view_len(args@);
    }
    if depth >= MAX_RECURSION_DEPTH {
        return Err(recursion_limit_error());
    }
    let is_and = str_eq(name.as_str(), "&&");
    let is_or = str_eq(name.as_str(), "||");
    proof {
        reveal_strlit("&&");
        reveal_strlit("||");
        assert("&&"@[0] == '&');
        assert("||"@[0] == '|');
        assert("&&"@ != "||"@);
    }
    if (is_and || is_or) && args.len() == 2 {
        proof {
            lemma_args_view_index(args@, 0);
            lemma_args_view_index(args@, 1);
            assert(decreases_to!(*args => args@));
            assert(decreases_to!(args@ => args@[0]));
            assert(decreases_to!(args@ => args@[1]));
        }
        let a = match eval_ast_inner(ctx, env, scope, &args[0], depth + 1, native, literal, index) {
            Ok(v) => v,
            Err(err) => return Err(err),
        };
        if is_and && bits_is_zero(a) {
            return Ok(ZERO_BITS);
        }
        if is_or && !bits_is_zero(a) {
            return Ok(ONE_BITS);
        }
        let b = match eval_ast_inner(ctx, env, scope, &args[1], depth + 1, native, literal, index) {
            Ok(v) => v,
            Err(err) => return Err(err),
        };
        return Ok(if bits_is_zero(b) { ZERO_BITS } else { ONE_BITS });
    }
    let found = match env.locals.get(name.as_str()) {
        Some(f) => Some(f),
        None => ctx.get_expression_function(name.as_str()),
    };
    proof {
        match find_expression(*ctx, env@, name@) {
            Some(f) => assert(found.is_some() && *found.unwrap() == f),
            None => assert(found.is_none()),
        }
    }
    match found {
        Some(f) => {
            if args.len() != f.params.len() {
                return Err(
                    ExprError::InvalidFunctionCall {
                        name: name.clone(),
                        expected: f.params.len(),
                        found: args.len(),
                    },
                );
            }
            let vals = match eval_args(ctx, env, scope, args, depth + 1, native, literal, index) {
                Ok(v) => v,
                Err(err) => return Err(err),
            };
            proof {
                lemma_eval_args_len(*ctx, env@, sv, args_view(args@), depth + 1, *native, *literal, *index);
            }
            match prepare_expression_call(f, &vals, scope) {
                Err(err) => Err(err),
                Ok(body) => {
                    proof {
                        assert(scope@ =~= old(scope)@.push(scope@.last()));
                        assert(scope_view(scope@) =~= sv.push(value_entries(scope@.last())));
                    }
                    let r = eval_ast_inner(ctx, env, scope, &body, depth + 1, native, literal, index);
                    let _ = scope.pop();
                    proof {
                        assert(scope@ =~= old(scope)@);
                    }
                    r
                },
            }
        },
        None => match ctx.get_native_function(name.as_str()) {
            Some(f) => {
                if args.len() != f.arity {
                    return Err(
                        ExprError::InvalidFunctionCall {
                            name: name.clone(),
                            expected: f.arity,
                            found: args.len(),
                        },
                    );
                }
                let vals = match eval_args(ctx, env, scope, args, depth + 1, native, literal, index) {
                    Ok(v) => v,
                    Err(err) => return Err(err),
                };
                proof {
                    lemma_eval_args_len(*ctx, env@, sv, args_view(args@), depth + 1, *native, *literal, *index);
                }
                eval_native_function(name, f, vals, native)
            },
            None => {
                let unary = unary_builtin_exec(name.as_str());
                let binary = binary_builtin_exec(name.as_str());
                if unary.is_some() && args.len() != 1 {
                    return Err(ExprError::InvalidFunctionCall { name: name.clone(), expected: 1, found: args.len() });
                }
                if binary.is_some() && args.len() != 2 {
                    return Err(ExprError::InvalidFunctionCall { name: name.clone(), expected: 2, found: args.len() });
                }
                if args.len() != 1 && args.len() != 2 {
                    return Err(ExprError::UnknownFunction { name: name.clone() });
                }
                let vals = match eval_args(ctx, env, scope, args, depth + 1, native, literal, index) {
                    Ok(v) => v,
                    Err(err) => return Err(err),
                };
                let op = if args.len() == 1 {
                    unary
                } else {
                    match binary {
                        Some(b) => Some(b),
                        None => comparison_builtin_exec(name.as_str()),
                    }
                };
                match op {
                    Some(b) => {
                        let ghost a = vals;
                        let v = native(NativeImpl::Builtin(b), vals);
                        proof {
                            lemma_native_value(*native, NativeImpl::Builtin(b), a, v);
                        }
                        Ok(v)
                    },
                    None => Err(ExprError::UnknownFunction { name: name.clone() }),
                }
            },
        },
    }
}

/// Calls the native function `f` under the name `name` on argument values; refused with
/// another number of arguments than it takes.
#[inline(never)]
pub fn eval_native_function<N: Fn(NativeImpl, Vec<u64>) -> u64>(
    name: &String,
    f: &crate::types::NativeFunction,
    vals: Vec<u64>,
    native: &N,
) -> (r: Result<u64, ExprError>)
    requires
        native_deterministic(*native),
    ensures
        eval_result_view(r) == native_result(name@, *f, vals@, *native),
{
    if vals.len() != f.arity {
        Err(ExprError::InvalidFunctionCall { name: name.clone(), expected: f.arity, found: vals.len() })
    } else {
        let ghost a = vals;
        let imp = f.implementation;
        let v = native(imp, vals);
        proof {
            lemma_native_value(*native, imp, a, v);
        }
        Ok(v)
    }
}

/// Element `k` of the array `name` of the context or of its parents.
#[inline(never)]
pub fn eval_array(ctx: &EvalContext, name: &String, k: usize) -> (r: Result<u64, ExprError>)
    ensures
        eval_result_view(r) == array_read(*ctx, name@, k as int),
{
    match ctx.get_array(name.as_str()) {
        Some(a) => {
            if k < a.len() {
                Ok(a[k])
            } else {
                Err(ExprError::ArrayIndexOutOfBounds { name: name.clone(), index: k, len: a.len() })
            }
        },
        None => Err(ExprError::UnknownVariable { name: name.clone() }),
    }
}

/// The attribute `attr` of the object `base` of the context or of its parents.
#[inline(never)]
pub fn eval_attribute(ctx: &EvalContext, base: &String, attr: &String) -> (r: Result<u64, ExprError>)
    ensures
        eval_result_view(r) == attribute_read(*ctx, base@, attr@),
{
    match ctx.get_attribute_map(base.as_str()) {
        Some(m) => match m.get(attr.as_str()) {
            Some(v) => Ok(v),
            None => Err(ExprError::AttributeNotFound { base: base.clone(), attr: attr.clone() }),
        },
        None => Err(ExprError::AttributeNotFound { base: base.clone(), attr: attr.clone() }),
    }
}
} // verus!

verus! {

use std::rc::Rc;
use crate::context::{data_empty, natives_view, expressions_view, default_natives};
use crate::engine::parse_expression_with_context;

/// What `EvalContext::new` gives.
pub open spec fn is_default_context(c: EvalContext) -> bool {
    &&& data_empty(c)
    &&& natives_view(c.function_registry.native_functions) == default_natives()
    &&& expressions_view(c.function_registry.expression_functions).is_empty()
}

/// Parsing an expression with the given context names, then evaluating it.
pub open spec fn interp_spec<N: Fn(NativeImpl, Vec<u64>) -> u64, L: Fn(String) -> u64, I: Fn(u64) -> usize>(
    c: EvalContext,
    text: Seq<char>,
    names: Seq<Seq<char>>,
    n: N,
    l: L,
    i: I,
) -> Result<u64, ErrSpec> {
    match parse_text_spec(text, None, Some(names)) {
        Err(e) => Err(e),
        Ok(a) => eval_spec(c, no_env(), Seq::empty(), a, 0, n, l, i),
    }
}

/// Evaluates an expression in a context, or in a new context where none is given.  Numbers
/// are the bits of `f64` values; `native` computes the native functions, `literal` reads
/// number literals and `index` turns a number into an array index.
pub fn eval_ast<N: Fn(NativeImpl, Vec<u64>) -> u64, L: Fn(String) -> u64, I: Fn(u64) -> usize>(
    ast: &AstExpr,
    ctx: Option<Rc<EvalContext>>,
    native: N,
    literal: L,
    index: I,
) -> (r: Result<u64, ExprError>)
    requires
        oracles_ok(native, literal, index),
    ensures
        match ctx {
            Some(c) => eval_result_view(r) == eval_spec(
                *c,
                no_env(),
                Seq::empty(),
                ast_view(*ast),
                0,
                native,
                literal,
                index,
            ),
            None => exists|c: EvalContext|
                is_default_context(c) && eval_result_view(r) == #[trigger] eval_spec(
                    c,
                    no_env(),
                    Seq::empty(),
                    ast_view(*ast),
                    0,
                    native,
                    literal,
                    index,
                ),
        },
{
    let c = match ctx {
        Some(c) => c,
        None => Rc::new(EvalContext::new()),
    };
    let env = EvalEnv::new();
    let mut scope: Vec<VariableMap> = Vec::new();
    proof {
        assert(scope_view(scope@) =~= Seq::<Map<Seq<char>, u64>>::empty());
    }
    eval_ast_inner(&*c, &env, &mut scope, ast, 0, &native, &literal, &index)
}

/// Parses an expression, with the variables and constants of the context as names that are
/// never applied to what follows them, and evaluates it.
pub fn interp<N: Fn(NativeImpl, Vec<u64>) -> u64, L: Fn(String) -> u64, I: Fn(u64) -> usize>(
    expression: &str,
    ctx: Option<Rc<EvalContext>>,
    native: N,
    literal: L,
    index: I,
) -> (r: Result<u64, ExprError>)
    requires
        oracles_ok(native, literal, index),
    ensures
        exists|c: EvalContext, names: Seq<Seq<char>>|
            {
                &&& match ctx {
                    Some(x) => c == *x,
                    None => is_default_context(c),
                }
                &&& names.to_set() == value_entries(c.variables).dom() + value_entries(c.constants).dom()
                &&& eval_result_view(r) == #[trigger] interp_spec(c, expression@, names, native, literal, index)
            },
{
    let c = match ctx {
        Some(c) => c,
        None => Rc::new(EvalContext::new()),
    };
    let mut names = c.variables.keys();
    let consts = c.constants.keys();
    let ghost vnames = names@;
    let mut k: usize = 0;
    while k < consts.len()
        invariant
            k <= consts@.len(),
            names@ == vnames + consts@.take(k as int),
        decreases consts@.len() - k,
    {
        names.push(consts[k].clone());
        proof {
            assert(consts@.take(k + 1) == consts@.take(k as int).push(consts@[k as int]));
        }
        k = k + 1;
    }
    let ghost nv = crate::types::string_views(names@);
    proof {
        assert(consts@.take(consts@.len() as int) == consts@);
        let cv = *c;
        let vd = value_entries(cv.variables).dom();
        let cd = value_entries(cv.constants).dom();
        assert(nv.to_set() =~= vd + cd) by {
            assert forall|x: Seq<char>| nv.to_set().contains(x) implies (vd + cd).contains(x) by {
                let j = choose|j: int| 0 <= j < nv.len() && nv[j] == x;
                if j < vnames.len() {
                    assert(names@[j] == vnames[j]);
                } else {
                    assert(names@[j] == consts@[j - vnames.len()]);
                }
            }
            assert forall|x: Seq<char>| (vd + cd).contains(x) implies nv.to_set().contains(x) by {
                if vd.contains(x) {
                    let j = choose|j: int| 0 <= j < vnames.len() && #[trigger] vnames[j]@ == x;
                    assert(nv[j] == x);
                } else {
                    let j = choose|j: int| 0 <= j < consts@.len() && #[trigger] consts@[j]@ == x;
                    assert(nv[vnames.len() + j] == x);
                }
            }
        }
    }
    let slice = names.as_slice();
    proof {
        assert(crate::engine::slice_names(Some(slice)) =~~= Some(nv));
    }
    let parsed = parse_expression_with_context(expression, None, Some(slice));
    let r = match parsed {
        Err(e) => Err(e),
        Ok(ast) => {
            let env = EvalEnv::new();
            let mut scope: Vec<VariableMap> = Vec::new();
            proof {
                assert(scope_view(scope@) =~= Seq::<Map<Seq<char>, u64>>::empty());
            }
            eval_ast_inner(&*c, &env, &mut scope, &ast, 0, &native, &literal, &index)
        },
    };
    proof {
        assert(eval_result_view(r) == interp_spec(*c, expression@, nv, native, literal, index));
    }
    r
}

/// Counts how deeply calls of expression functions nest.
pub struct RecursionCounter {
    depth: usize,
}

/// Entering a call: one more, unless `MAX_RECURSION_DEPTH` calls are already under way.
pub open spec fn counter_entered(before: RecursionCounter, after: RecursionCounter) -> bool {
    &&& before.spec_depth() < MAX_RECURSION_DEPTH ==> after.spec_depth() == before.spec_depth() + 1
    &&& before.spec_depth() >= MAX_RECURSION_DEPTH ==> after.spec_depth() == before.spec_depth()
}

/// Leaving a call: one fewer, never below zero.
pub open spec fn counter_left(before: RecursionCounter, after: RecursionCounter) -> bool {
    &&& before.spec_depth() > 0 ==> after.spec_depth() == before.spec_depth() - 1
    &&& before.spec_depth() == 0 ==> after.spec_depth() == 0
}

impl RecursionCounter {
    pub closed spec fn spec_depth(&self) -> nat {
        self.depth as nat
    }

    /// A counter at zero.
    pub fn new() -> (c: Self)
        ensures
            c.spec_depth() == 0,
    {
        RecursionCounter { depth: 0 }
    }

    /// Enters a call: refused once `MAX_RECURSION_DEPTH` calls are under way.
    pub fn check_and_increment_recursion_depth(&mut self) -> (r: Result<(), ExprError>)
        ensures
            old(self).spec_depth() >= MAX_RECURSION_DEPTH ==> r.is_err() && r->Err_0@ == recursion_limit_err()
                && final(self).spec_depth() == old(self).spec_depth(),
            old(self).spec_depth() < MAX_RECURSION_DEPTH ==> r.is_ok() && final(self).spec_depth() == old(
                self,
            ).spec_depth() + 1,
            counter_entered(*old(self), *final(self)),
    {
        if self.depth >= MAX_RECURSION_DEPTH {
            Err(
                ExprError::RecursionLimit(
                    String::from_str("Maximum recursion depth of 250 exceeded during expression evaluation"),
                ),
            )
        } else {
            self.depth = self.depth + 1;
            Ok(())
        }
    }

    /// Leaves a call; the count never goes below zero.
    pub fn decrement_recursion_depth(&mut self)
        ensures
            old(self).spec_depth() > 0 ==> final(self).spec_depth() == old(self).spec_depth() - 1,
            old(self).spec_depth() == 0 ==> final(self).spec_depth() == 0,
            counter_left(*old(self), *final(self)),
    {
        if self.depth > 0 {
            self.depth = self.depth - 1;
        }
    }

    /// The number of calls under way.
    pub fn get_recursion_depth(&self) -> (d: usize)
        ensures
            d == self.spec_depth(),
    {
        self.depth
    }

    /// Sets the count back to zero.
    pub fn reset_recursion_depth(&mut self)
        ensures
            final(self).spec_depth() == 0,
    {
        self.depth = 0;
    }
}

/// Gives back the depth it is given: the limit itself is fixed at `MAX_RECURSION_DEPTH`.
pub fn set_max_recursion_depth(depth: usize) -> (r: usize)
    ensures
        r == depth,
{
    depth
}

} // verus!
