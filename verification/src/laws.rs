use vstd::prelude::*;
use crate::types::{ExpressionSpec, NativeImpl, Ast, TokenKind};
use crate::context::{
    EvalContext, lookup_expression, lookup_variable, lookup_constant, lookup_native, lookup_array,
    lookup_object, expressions_view, natives_view,
    name_fits, register_one, native_spec, native_names, expression_names, register_rows, default_table,
    default_natives, same_data, data_empty, lemma_register_rows_idempotent, lemma_default_names_distinct,
    copy_of,
};
use crate::maps::{value_entries, expression_entries, native_entries, array_entries, object_entries};
use crate::eval::{Env, no_env, eval_spec, find_expression, variable_spec, is_zero, ZERO_BITS, ONE_BITS, RecursionCounter, counter_entered, counter_left, MAX_RECURSION_DEPTH};
use crate::validation::{ExpressionValidationReport, report_valid, report_only_warnings, Findings, check_node, check_args};
use crate::arena_pool::ArenaPool;
use crate::lexer::{lex_from, skip_spaces, token_at, token_end_at};
use crate::batch_eval::{batch_eval_spec, batch_eval_args_spec, batch_variable_spec, pending_after};
use crate::engine::{parse_text_spec, ternary_err, PCfg, parse_expr_spec, prefix_spec, primary_spec, postfix_spec, infix_spec, juxt_spec, bp_spec, is1, is2, blocks_juxtaposition};

verus! {

/// A function registered under a name is what looking the name up then finds.
pub proof fn law_lookup_after_register(before: EvalContext, after: EvalContext, name: Seq<char>, f: ExpressionSpec)
    requires
        name_fits(name),
        expressions_view(after.function_registry.expression_functions) == expressions_view(
            before.function_registry.expression_functions,
        ).insert(name, f),
    ensures
        lookup_expression(after, name).is_some(),
        lookup_expression(after, name).unwrap()@ == f,
{
    let m = expression_entries(after.function_registry.expression_functions);
    assert(expressions_view(after.function_registry.expression_functions).contains_key(name));
    assert(m.contains_key(name));
    assert(expressions_view(after.function_registry.expression_functions)[name] == m[name]@);
}

/// Unregistering a function from a context leaves visible what its parents define under the
/// same name.
pub proof fn law_unregister_reveals_parent(before: EvalContext, after: EvalContext, name: Seq<char>)
    requires
        name_fits(name),
        after.parent == before.parent,
        expressions_view(after.function_registry.expression_functions) == expressions_view(
            before.function_registry.expression_functions,
        ).remove(name),
    ensures
        lookup_expression(after, name) == match after.parent {
            Some(p) => lookup_expression(*p, name),
            None => None,
        },
{
    let m = expression_entries(after.function_registry.expression_functions);
    assert(!expressions_view(after.function_registry.expression_functions).contains_key(name));
    assert(!m.contains_key(name));
}

/// A variable reads back the value last set.
pub proof fn law_variable_read_after_write(before: EvalContext, after: EvalContext, name: Seq<char>, v: u64)
    requires
        name_fits(name),
        value_entries(after.variables) == value_entries(before.variables).insert(name, v),
    ensures
        lookup_variable(after, name) == Some(v),
{
}

/// Where a context lacks a variable, it reads its parent's.
pub proof fn law_child_reads_parent(child: EvalContext, name: Seq<char>)
    requires
        !value_entries(child.variables).contains_key(name),
        child.parent.is_some(),
    ensures
        lookup_variable(child, name) == lookup_variable(*child.parent.unwrap(), name),
{
}

/// Registering a native function under the name of another, built-in or not, replaces it.
pub proof fn law_native_override(
    before: EvalContext,
    after: EvalContext,
    name: Seq<char>,
    arity: nat,
    implementation: NativeImpl,
)
    requires
        name_fits(name),
        natives_view(before.function_registry.native_functions).contains_key(name),
        natives_view(after.function_registry.native_functions) == register_one(
            natives_view(before.function_registry.native_functions),
            name,
            arity,
            implementation,
        ),
    ensures
        lookup_native(after, name).is_some(),
        lookup_native(after, name).unwrap()@ == native_spec(name, arity, implementation),
{
    let m = native_entries(after.function_registry.native_functions);
    assert(natives_view(after.function_registry.native_functions).contains_key(name));
    assert(m.contains_key(name));
    assert(natives_view(after.function_registry.native_functions)[name] == m[name]@);
}

/// The functions a context lists include those of its parent.
pub proof fn law_list_includes_parent(child: EvalContext)
    requires
        child.parent.is_some(),
    ensures
        native_names(*child.parent.unwrap()).subset_of(native_names(child)),
        expression_names(*child.parent.unwrap()).subset_of(expression_names(child)),
{
}

/// `&&` with a false left side is false, whatever its right side would give, error included
/// (within the nesting limit).
pub proof fn law_and_short_circuits<N: Fn(NativeImpl, Vec<u64>) -> u64, L: Fn(String) -> u64, I: Fn(u64) -> usize>(
    ctx: EvalContext,
    env: Env,
    scope: Seq<Map<Seq<char>, u64>>,
    left: Ast,
    right: Ast,
    depth: int,
    n: N,
    l: L,
    i: I,
)
    requires
        0 <= depth < crate::eval::MAX_RECURSION_DEPTH,
        eval_spec(ctx, env, scope, left, depth + 1, n, l, i) is Ok,
        is_zero(eval_spec(ctx, env, scope, left, depth + 1, n, l, i)->Ok_0),
    ensures
        eval_spec(ctx, env, scope, Ast::Function("&&"@, seq![left, right]), depth, n, l, i) == Ok::<u64, crate::error::ErrSpec>(ZERO_BITS),
{
}

/// `||` with a true left side is true, whatever its right side would give, error included
/// (within the nesting limit).
pub proof fn law_or_short_circuits<N: Fn(NativeImpl, Vec<u64>) -> u64, L: Fn(String) -> u64, I: Fn(u64) -> usize>(
    ctx: EvalContext,
    env: Env,
    scope: Seq<Map<Seq<char>, u64>>,
    left: Ast,
    right: Ast,
    depth: int,
    n: N,
    l: L,
    i: I,
)
    requires
        0 <= depth < crate::eval::MAX_RECURSION_DEPTH,
        eval_spec(ctx, env, scope, left, depth + 1, n, l, i) is Ok,
        !is_zero(eval_spec(ctx, env, scope, left, depth + 1, n, l, i)->Ok_0),
    ensures
        eval_spec(ctx, env, scope, Ast::Function("||"@, seq![left, right]), depth, n, l, i) == Ok::<u64, crate::error::ErrSpec>(ONE_BITS),
{
    reveal_strlit("&&");
    reveal_strlit("||");
    assert("&&"@[0] != "||"@[0]);
}

/// The second context reads as the first with the parameter values `m` set as variables, has
/// the same native functions, arrays and objects of its own, and neither has expression
/// functions.
pub open spec fn reads_as_with_variables(c1: EvalContext, c2: EvalContext, m: Map<Seq<char>, u64>) -> bool {
    &&& forall|x: Seq<char>| lookup_expression(c1, x) is None
    &&& forall|x: Seq<char>| lookup_expression(c2, x) is None
    &&& forall|x: Seq<char>|
        name_fits(x) && m.contains_key(x) ==> #[trigger] lookup_variable(c2, x) == Some(m[x])
    &&& forall|x: Seq<char>|
        !(name_fits(x) && m.contains_key(x)) ==> #[trigger] lookup_variable(c2, x) == lookup_variable(c1, x)
            && lookup_constant(c2, x) == lookup_constant(c1, x)
    &&& forall|x: Seq<char>| #[trigger] lookup_native(c2, x) == lookup_native(c1, x)
    &&& array_entries(c2.arrays) == array_entries(c1.arrays)
    &&& object_entries(c2.attributes) == object_entries(c1.attributes)
}

/// Where no expression function is defined, a batch parameter reads as a variable of the
/// context of the same value: a batch evaluation with parameters gives what a batch
/// evaluation without them gives in a context that holds them as variables.
pub proof fn law_params_read_like_variables<N: Fn(NativeImpl, Vec<u64>) -> u64, L: Fn(String) -> u64, I: Fn(u64) -> usize>(
    c1: EvalContext,
    c2: EvalContext,
    m: Map<Seq<char>, u64>,
    e: Ast,
    calls: int,
    pending: int,
    n: N,
    l: L,
    i: I,
)
    requires
        reads_as_with_variables(c1, c2, m),
    ensures
        batch_eval_spec(c1, Env { overrides: m, locals: Map::empty() }, Seq::empty(), e, calls, pending, n, l, i)
            == batch_eval_spec(c2, no_env(), Seq::empty(), e, calls, pending, n, l, i),
    decreases e,
{
    let b1 = pending_after(pending, 1);
    match e {
        Ast::Variable(name) => {
            assert(lookup_variable(c2, name) == lookup_variable(c2, name));
        },
        Ast::Function(name, args) => {
            if args.len() == 2 {
                law_params_read_like_variables(c1, c2, m, args[0], calls, b1, n, l, i);
                law_params_read_like_variables(c1, c2, m, args[1], calls, b1, n, l, i);
            }
            lemma_args_read_like_variables(c1, c2, m, args, calls, pending, n, l, i);
            assert(lookup_expression(c1, name) is None);
            assert(lookup_expression(c2, name) is None);
            assert(lookup_native(c2, name) == lookup_native(c1, name));
        },
        Ast::Array(name, index) => {
            law_params_read_like_variables(c1, c2, m, *index, calls, b1, n, l, i);
        },
        Ast::Attribute(base, attr) => {},
        Ast::LogicalOp(op, left, right) => {
            law_params_read_like_variables(c1, c2, m, *left, calls, b1, n, l, i);
            law_params_read_like_variables(c1, c2, m, *right, calls, b1, n, l, i);
        },
        Ast::Conditional(c, t, f) => {
            law_params_read_like_variables(c1, c2, m, *c, calls, b1, n, l, i);
            law_params_read_like_variables(c1, c2, m, *t, calls, pending, n, l, i);
            law_params_read_like_variables(c1, c2, m, *f, calls, pending, n, l, i);
        },
        Ast::Constant(_) => {},
    }
}

proof fn lemma_args_read_like_variables<N: Fn(NativeImpl, Vec<u64>) -> u64, L: Fn(String) -> u64, I: Fn(u64) -> usize>(
    c1: EvalContext,
    c2: EvalContext,
    m: Map<Seq<char>, u64>,
    args: Seq<Ast>,
    calls: int,
    pending: int,
    n: N,
    l: L,
    i: I,
)
    requires
        reads_as_with_variables(c1, c2, m),
    ensures
        batch_eval_args_spec(c1, Env { overrides: m, locals: Map::empty() }, Seq::empty(), args, calls, pending, n, l, i)
            == batch_eval_args_spec(c2, no_env(), Seq::empty(), args, calls, pending, n, l, i),
    decreases args,
{
    if args.len() > 0 {
        law_params_read_like_variables(c1, c2, m, args[0], calls, pending_after(pending, args.len() as int), n, l, i);
        lemma_args_read_like_variables(c1, c2, m, args.drop_first(), calls, pending, n, l, i);
    }
}

/// The expression functions of a batch are found before those of the context and its parents.
pub proof fn law_local_functions_first(ctx: EvalContext, env: Env, name: Seq<char>)
    requires
        env.locals.contains_key(name),
    ensures
        find_expression(ctx, env, name) == Some(env.locals[name]),
{
}

/// A batch parameter is read before anything else of the same name: call parameters,
/// variables, constants and the built-in constants.
pub proof fn law_batch_params_first(ctx: EvalContext, env: Env, scope: Seq<Map<Seq<char>, u64>>, name: Seq<char>)
    requires
        env.overrides.contains_key(name),
        name_fits(name),
    ensures
        batch_variable_spec(ctx, env, scope, name) == Ok::<u64, crate::error::ErrSpec>(env.overrides[name]),
{
}

/// Inside a call of an expression function, its parameters hide the variables and constants
/// of the context that have the same names.
pub proof fn law_call_parameters_shadow_context(
    ctx: EvalContext,
    env: Env,
    scope: Seq<Map<Seq<char>, u64>>,
    name: Seq<char>,
)
    requires
        !env.overrides.contains_key(name),
        scope.len() > 0,
        scope.last().contains_key(name),
        name_fits(name),
    ensures
        batch_variable_spec(ctx, env, scope, name) == Ok::<u64, crate::error::ErrSpec>(scope.last()[name]),
{
}

/// An attribute set on an object reads back, in an expression outside calls, as the value
/// it was set to.
pub proof fn law_attribute_read_after_set<N: Fn(NativeImpl, Vec<u64>) -> u64, L: Fn(String) -> u64, I: Fn(u64) -> usize>(
    before: EvalContext,
    after: EvalContext,
    env: Env,
    obj: Seq<char>,
    attr: Seq<char>,
    v: u64,
    n: N,
    l: L,
    i: I,
)
    requires
        name_fits(obj),
        name_fits(attr),
        object_entries(after.attributes).contains_key(obj),
        value_entries(object_entries(after.attributes)[obj]) == (if object_entries(
            before.attributes,
        ).contains_key(obj) {
            value_entries(object_entries(before.attributes)[obj])
        } else {
            Map::<Seq<char>, u64>::empty()
        }).insert(attr, v),
    ensures
        eval_spec(after, env, Seq::empty(), Ast::Attribute(obj, attr), 0, n, l, i) == Ok::<
            u64,
            crate::error::ErrSpec,
        >(v),
{
}

/// A report with only warnings is a valid report.
pub proof fn law_only_warnings_is_valid(r: ExpressionValidationReport)
    requires
        report_only_warnings(r),
    ensures
        report_valid(r),
{
}

/// Checking an arena out and returning it leaves the pool as it was.
pub proof fn law_checkout_release_restores(p0: ArenaPool, p1: ArenaPool, p2: ArenaPool, i: int)
    requires
        0 <= i < p0.used().len(),
        !p0.used()[i],
        p1.used() == p0.used().update(i, true),
        p2.used() == p1.used().update(i, false),
        p0.wf(),
        p2.wf(),
    ensures
        p2.used() == p0.used(),
        p2.spec_active_count() == p0.spec_active_count(),
{
    assert(p2.used() =~= p0.used());
    crate::arena_pool::lemma_active_count_bounded(&p0);
    crate::arena_pool::lemma_active_count_bounded(&p2);
}

/// An expression holding `?` or `:` never parses.
pub proof fn law_ternary_refused(input: Seq<char>, reserved: Option<Seq<Seq<char>>>, context: Option<Seq<Seq<char>>>)
    requires
        input.contains('?') || input.contains(':'),
    ensures
        parse_text_spec(input, reserved, context) == Err::<Ast, crate::error::ErrSpec>(ternary_err()),
{
}

/// The lexer only cuts the input: each token's text is the input at its position, and the
/// tokens come in increasing positions.
pub proof fn law_tokens_are_input_slices(s: Seq<char>, i: int)
    requires
        0 <= i <= s.len(),
    ensures
        forall|k: int|
            0 <= k < lex_from(s, i).len() ==> {
                let t = #[trigger] lex_from(s, i)[k];
                &&& i <= t.position
                &&& t.position + t.text.len() <= s.len()
                &&& t.text == s.subrange(t.position, t.position + t.text.len())
            },
        forall|a: int, b: int|
            0 <= a < b < lex_from(s, i).len() ==> #[trigger] lex_from(s, i)[a].position
                + lex_from(s, i)[a].text.len() <= #[trigger] lex_from(s, i)[b].position,
    decreases s.len() - i,
{
    crate::lexer::lemma_lex_from_in_bounds(s, i);
    let j = skip_spaces(s, i);
    if 0 <= i <= j < s.len() {
        let e = token_end_at(s, j);
        if j < e <= s.len() {
            law_tokens_are_input_slices(s, e);
            crate::lexer::lemma_lex_from_in_bounds(s, e);
            let rest = lex_from(s, e);
            assert(lex_from(s, i) == seq![token_at(s, j)] + rest);
            assert(token_at(s, j).text.len() == e - j);
            assert forall|k: int| 0 <= k < lex_from(s, i).len() implies {
                let t = #[trigger] lex_from(s, i)[k];
                &&& i <= t.position
                &&& t.position + t.text.len() <= s.len()
                &&& t.text == s.subrange(t.position, t.position + t.text.len())
            } by {
                if k > 0 {
                    assert(lex_from(s, i)[k] == rest[k - 1]);
                }
            }
            assert forall|a: int, b: int|
                0 <= a < b < lex_from(s, i).len() implies #[trigger] lex_from(s, i)[a].position
                    + lex_from(s, i)[a].text.len() <= #[trigger] lex_from(s, i)[b].position by {
                assert(lex_from(s, i)[b] == rest[b - 1]);
                if a > 0 {
                    assert(lex_from(s, i)[a] == rest[a - 1]);
                }
            }
        }
    }
}

/// Entering a call and leaving it leaves the count of calls as it was.
pub proof fn law_enter_leave_restores(c0: RecursionCounter, c1: RecursionCounter, c2: RecursionCounter)
    requires
        c0.spec_depth() < crate::eval::MAX_RECURSION_DEPTH,
        c1.spec_depth() == c0.spec_depth() + 1,
        c1.spec_depth() > 0 ==> c2.spec_depth() == c1.spec_depth() - 1,
    ensures
        c2.spec_depth() == c0.spec_depth(),
{
}

/// Registering the default functions a second time changes nothing: the natives are those of
/// the first registration, and nothing else of the context moves.
pub proof fn law_default_registration_idempotent(c0: EvalContext, c1: EvalContext, c2: EvalContext)
    requires
        natives_view(c0.function_registry.native_functions).dom().finite(),
        same_data(c1, c0),
        c1.function_registry.expression_functions == c0.function_registry.expression_functions,
        natives_view(c1.function_registry.native_functions) == register_rows(
            natives_view(c0.function_registry.native_functions),
            default_table(),
        ),
        same_data(c2, c1),
        c2.function_registry.expression_functions == c1.function_registry.expression_functions,
        natives_view(c2.function_registry.native_functions) == register_rows(
            natives_view(c1.function_registry.native_functions),
            default_table(),
        ),
    ensures
        natives_view(c2.function_registry.native_functions) == natives_view(c1.function_registry.native_functions),
        same_data(c2, c1),
        expressions_view(c2.function_registry.expression_functions) == expressions_view(
            c1.function_registry.expression_functions,
        ),
{
    lemma_default_names_distinct();
    lemma_register_rows_idempotent(natives_view(c0.function_registry.native_functions), default_table());
}

/// Two contexts made as `new` and `with_default_functions` make them hold the same functions
/// and the same (empty) data.
pub proof fn law_new_contexts_agree(a: EvalContext, b: EvalContext)
    requires
        data_empty(a),
        natives_view(a.function_registry.native_functions) == default_natives(),
        expressions_view(a.function_registry.expression_functions).is_empty(),
        data_empty(b),
        natives_view(b.function_registry.native_functions) == default_natives(),
        expressions_view(b.function_registry.expression_functions).is_empty(),
    ensures
        natives_view(a.function_registry.native_functions) == natives_view(b.function_registry.native_functions),
        expressions_view(a.function_registry.expression_functions) == expressions_view(
            b.function_registry.expression_functions,
        ),
        value_entries(a.variables) == value_entries(b.variables),
        value_entries(a.constants) == value_entries(b.constants),
        array_entries(a.arrays) == array_entries(b.arrays),
        object_entries(a.attributes) == object_entries(b.attributes),
        a.parent == b.parent,
{
    assert(value_entries(a.variables) =~= value_entries(b.variables));
    assert(value_entries(a.constants) =~= value_entries(b.constants));
    assert(array_entries(a.arrays) =~= array_entries(b.arrays));
    assert(object_entries(a.attributes) =~= object_entries(b.attributes));
    assert(expressions_view(a.function_registry.expression_functions) =~= expressions_view(
        b.function_registry.expression_functions,
    ));
}

/// `enable_default_functions` and `register_default_math_functions`, applied to the same
/// context, give contexts with the same functions and the same data.
pub proof fn law_enable_is_register(c: EvalContext, a: EvalContext, b: EvalContext)
    requires
        same_data(a, c),
        a.function_registry.expression_functions == c.function_registry.expression_functions,
        natives_view(a.function_registry.native_functions) == register_rows(
            natives_view(c.function_registry.native_functions),
            default_table(),
        ),
        same_data(b, c),
        b.function_registry.expression_functions == c.function_registry.expression_functions,
        natives_view(b.function_registry.native_functions) == register_rows(
            natives_view(c.function_registry.native_functions),
            default_table(),
        ),
    ensures
        natives_view(a.function_registry.native_functions) == natives_view(b.function_registry.native_functions),
        a.function_registry.expression_functions == b.function_registry.expression_functions,
        same_data(a, b),
{
}

#[verifier::spinoff_prover]
proof fn lemma_counter_up(cs: Seq<RecursionCounter>, k: nat, n: nat)
    requires
        cs.len() > k,
        n <= k,
        cs[0].spec_depth() + k <= MAX_RECURSION_DEPTH,
        forall|i: int| 0 <= i < k ==> counter_entered(#[trigger] cs[i], cs[i + 1]),
    ensures
        cs[n as int].spec_depth() == cs[0].spec_depth() + n,
    decreases n,
{
    if n > 0 {
        lemma_counter_up(cs, k, (n - 1) as nat);
        assert(counter_entered(cs[n - 1], cs[n as int]));
    }
}

#[verifier::spinoff_prover]
proof fn lemma_counter_down(cs: Seq<RecursionCounter>, k: nat, j: nat, n: nat)
    requires
        cs.len() > k + j,
        n <= j,
        forall|i: int| k <= i < k + j ==> counter_left(#[trigger] cs[i], cs[i + 1]),
    ensures
        cs[(k + n) as int].spec_depth() == if n <= cs[k as int].spec_depth() {
            cs[k as int].spec_depth() - n
        } else {
            0
        },
    decreases n,
{
    if n > 0 {
        lemma_counter_down(cs, k, j, (n - 1) as nat);
        assert(counter_left(cs[k + n - 1], cs[(k + n) as int]));
    }
}

/// Entering `k` calls from zero and then leaving `j` times leaves the count at `k - j`, or at
/// zero where there were more leaves than entries, as long as the `k` calls stay within
/// `MAX_RECURSION_DEPTH`.
pub proof fn law_counter_in_then_out(cs: Seq<RecursionCounter>, k: nat, j: nat)
    requires
        cs.len() == k + j + 1,
        cs[0].spec_depth() == 0,
        k <= MAX_RECURSION_DEPTH,
        forall|i: int| 0 <= i < k ==> counter_entered(#[trigger] cs[i], cs[i + 1]),
        forall|i: int| k <= i < k + j ==> counter_left(#[trigger] cs[i], cs[i + 1]),
    ensures
        cs[(k + j) as int].spec_depth() == if j <= k {
            k - j
        } else {
            0
        },
{
    lemma_counter_up(cs, k, k);
    lemma_counter_down(cs, k, j, j);
}

/// Parsing ends at token `q`: there is none, or it closes the token stream.
pub open spec fn stops_at(c: PCfg, q: int) -> bool {
    q == c.toks.len() || (0 <= q < c.toks.len() && (c.toks[q].kind == TokenKind::End || c.toks[q].kind
        == TokenKind::Error))
}

/// Token `p` is the binary operator `op`.
pub open spec fn binary_op_at(c: PCfg, p: int, op: Seq<char>) -> bool {
    &&& 0 <= p < c.toks.len()
    &&& c.toks[p].kind == TokenKind::Operator
    &&& c.toks[p].text == op
    &&& bp_spec(op).is_some()
}

/// How tightly the right operand of `op` binds: one less than its right binding power for the
/// right-associative `^` and `**`.
pub open spec fn rhs_bp(op: Seq<char>) -> int {
    if is1(op, '^') || is2(op, '*', '*') {
        bp_spec(op).unwrap().1 - 1
    } else {
        bp_spec(op).unwrap().1
    }
}

proof fn lemma_stop(c: PCfg, l: Ast, q: int, min_bp: int, allow: bool, d: int)
    requires
        stops_at(c, q),
    ensures
        postfix_spec(c, l, q, d) == Ok::<(Ast, int), crate::error::ErrSpec>((l, q)),
        infix_spec(c, l, q, min_bp, allow, d) == Ok::<(Ast, int), crate::error::ErrSpec>((l, q)),
        juxt_spec(c, l, q, allow, d) == Ok::<(Ast, int), crate::error::ErrSpec>((l, q)),
{
}

/// A number followed by the end, or by an operator that binds less tightly than `min_bp`.
proof fn lemma_number_alone(c: PCfg, p: int, min_bp: int, allow: bool, dep: int)
    requires
        0 <= p < c.toks.len(),
        c.toks[p].kind == TokenKind::Number,
        stops_at(c, p + 1) || (binary_op_at(c, p + 1, c.toks[p + 1].text) && bp_spec(
            c.toks[p + 1].text,
        ).unwrap().0 < min_bp),
        0 <= dep,
        dep + 1 <= c.max,
    ensures
        parse_expr_spec(c, p, min_bp, allow, dep) == Ok::<(Ast, int), crate::error::ErrSpec>(
            (Ast::Constant(c.toks[p].text), p + 1),
        ),
{
    let d = dep + 1;
    let a = Ast::Constant(c.toks[p].text);
    assert(primary_spec(c, p, d) == Ok::<(Ast, int), crate::error::ErrSpec>((a, p + 1)));
    assert(prefix_spec(c, p, allow, d) == Ok::<(Ast, int), crate::error::ErrSpec>((a, p + 1)));
    if stops_at(c, p + 1) {
        lemma_stop(c, a, p + 1, min_bp, allow, d);
    } else {
        let o = c.toks[p + 1].text;
        assert(!is1(o, '(') && !is1(o, '[') && !is1(o, '.'));
        assert(postfix_spec(c, a, p + 1, d) == Ok::<(Ast, int), crate::error::ErrSpec>((a, p + 1)));
        assert(infix_spec(c, a, p + 1, min_bp, allow, d) == Ok::<(Ast, int), crate::error::ErrSpec>((a, p + 1)));
        assert(juxt_spec(c, a, p + 1, allow, d) == Ok::<(Ast, int), crate::error::ErrSpec>((a, p + 1)));
    }
}

/// Precedence and associativity: in `a o1 b o2 x` the second operator takes `b` as its left
/// operand when it binds at least as tightly as the right side of the first, and otherwise
/// applies to the result of the first.  So `a + b * x` is `a + (b * x)`, `a * b + x` is
/// `(a * b) + x`, `a - b - x` is `(a - b) - x` and `a ^ b ^ x` is `a ^ (b ^ x)`.
pub proof fn law_binary_operator_grouping(c: PCfg, p: int, o1: Seq<char>, o2: Seq<char>, allow: bool, dep: int)
    requires
        0 <= p,
        p + 5 <= c.toks.len(),
        c.toks[p].kind == TokenKind::Number,
        binary_op_at(c, p + 1, o1),
        c.toks[p + 2].kind == TokenKind::Number,
        binary_op_at(c, p + 3, o2),
        c.toks[p + 4].kind == TokenKind::Number,
        stops_at(c, p + 5),
        0 <= dep,
        dep + 3 <= c.max,
    ensures
        ({
            let a = Ast::Constant(c.toks[p].text);
            let b = Ast::Constant(c.toks[p + 2].text);
            let x = Ast::Constant(c.toks[p + 4].text);
            &&& bp_spec(o2).unwrap().0 >= rhs_bp(o1) ==> parse_expr_spec(c, p, 0, allow, dep) == Ok::<
                (Ast, int),
                crate::error::ErrSpec,
            >((Ast::Function(o1, seq![a, Ast::Function(o2, seq![b, x])]), p + 5))
            &&& bp_spec(o2).unwrap().0 < rhs_bp(o1) ==> parse_expr_spec(c, p, 0, allow, dep) == Ok::<
                (Ast, int),
                crate::error::ErrSpec,
            >((Ast::Function(o2, seq![Ast::Function(o1, seq![a, b]), x]), p + 5))
        }),
{
    let d = dep + 1;
    let a = Ast::Constant(c.toks[p].text);
    let b = Ast::Constant(c.toks[p + 2].text);
    let x = Ast::Constant(c.toks[p + 4].text);
    let r1 = rhs_bp(o1);
    let r2 = rhs_bp(o2);
    assert(primary_spec(c, p, d) == Ok::<(Ast, int), crate::error::ErrSpec>((a, p + 1)));
    assert(prefix_spec(c, p, allow, d) == Ok::<(Ast, int), crate::error::ErrSpec>((a, p + 1)));
    assert(!is1(o1, '(') && !is1(o1, '[') && !is1(o1, '.'));
    assert(!is1(o2, '(') && !is1(o2, '[') && !is1(o2, '.'));
    assert(postfix_spec(c, a, p + 1, d) == Ok::<(Ast, int), crate::error::ErrSpec>((a, p + 1)));
    assert(bp_spec(o1).unwrap().0 >= 1 && bp_spec(o2).unwrap().0 >= 1);
    lemma_number_alone(c, p + 4, r2, allow, d + 1);
    lemma_number_alone(c, p + 4, r2, allow, d);
    if bp_spec(o2).unwrap().0 >= r1 {
        let inner = Ast::Function(o2, seq![b, x]);
        let d2 = d + 1;
        assert(primary_spec(c, p + 2, d2) == Ok::<(Ast, int), crate::error::ErrSpec>((b, p + 3)));
        assert(prefix_spec(c, p + 2, allow, d2) == Ok::<(Ast, int), crate::error::ErrSpec>((b, p + 3)));
        assert(postfix_spec(c, b, p + 3, d2) == Ok::<(Ast, int), crate::error::ErrSpec>((b, p + 3)));
        lemma_stop(c, inner, p + 5, r1, allow, d2);
        assert(infix_spec(c, b, p + 3, r1, allow, d2) == Ok::<(Ast, int), crate::error::ErrSpec>((inner, p + 5)));
        assert(parse_expr_spec(c, p + 2, r1, allow, d) == Ok::<(Ast, int), crate::error::ErrSpec>((inner, p + 5)));
        let whole = Ast::Function(o1, seq![a, inner]);
        lemma_stop(c, whole, p + 5, 0, allow, d);
        assert(infix_spec(c, a, p + 1, 0, allow, d) == Ok::<(Ast, int), crate::error::ErrSpec>((whole, p + 5)));
    } else {
        lemma_number_alone(c, p + 2, r1, allow, d);
        let left = Ast::Function(o1, seq![a, b]);
        let whole = Ast::Function(o2, seq![left, x]);
        lemma_stop(c, whole, p + 5, 0, allow, d);
        assert(infix_spec(c, left, p + 3, 0, allow, d) == Ok::<(Ast, int), crate::error::ErrSpec>((whole, p + 5)));
        assert(infix_spec(c, a, p + 1, 0, allow, d) == Ok::<(Ast, int), crate::error::ErrSpec>((whole, p + 5)));
    }
}

/// Implicit application: a name that is neither a reserved parameter nor a context variable,
/// followed directly by a number, is a call of that name with the number as its argument.
pub proof fn law_juxtaposition_is_a_call(c: PCfg, p: int, allow: bool, dep: int)
    requires
        0 <= p,
        p + 2 <= c.toks.len(),
        c.toks[p].kind == TokenKind::Variable,
        !blocks_juxtaposition(c, c.toks[p].text),
        c.toks[p + 1].kind == TokenKind::Number,
        stops_at(c, p + 2),
        0 <= dep,
        dep + 2 <= c.max,
    ensures
        parse_expr_spec(c, p, 0, allow, dep) == Ok::<(Ast, int), crate::error::ErrSpec>(
            (Ast::Function(c.toks[p].text, seq![Ast::Constant(c.toks[p + 1].text)]), p + 2),
        ),
{
    let d = dep + 1;
    let f = Ast::Variable(c.toks[p].text);
    assert(primary_spec(c, p, d) == Ok::<(Ast, int), crate::error::ErrSpec>((f, p + 1)));
    assert(prefix_spec(c, p, allow, d) == Ok::<(Ast, int), crate::error::ErrSpec>((f, p + 1)));
    assert(postfix_spec(c, f, p + 1, d) == Ok::<(Ast, int), crate::error::ErrSpec>((f, p + 1)));
    assert(infix_spec(c, f, p + 1, 0, allow, d) == Ok::<(Ast, int), crate::error::ErrSpec>((f, p + 1)));
    lemma_number_alone(c, p + 1, 16, allow, d);
}

/// A clone of a context reads as the original under every name: the same variables and
/// constants, arrays and objects with the same entries, functions with the same description.
pub proof fn law_clone_reads_alike(a: EvalContext, b: EvalContext, name: Seq<char>)
    requires
        copy_of(b, a),
    ensures
        lookup_variable(b, name) == lookup_variable(a, name),
        lookup_constant(b, name) == lookup_constant(a, name),
        lookup_array(b, name).is_some() == lookup_array(a, name).is_some(),
        lookup_array(b, name).is_some() ==> lookup_array(b, name).unwrap()@ == lookup_array(a, name).unwrap()@,
        lookup_object(b, name).is_some() == lookup_object(a, name).is_some(),
        lookup_object(b, name).is_some() ==> value_entries(lookup_object(b, name).unwrap()) == value_entries(
            lookup_object(a, name).unwrap(),
        ),
        lookup_native(b, name).is_some() == lookup_native(a, name).is_some(),
        lookup_native(b, name).is_some() ==> lookup_native(b, name).unwrap()@ == lookup_native(a, name).unwrap()@,
        lookup_expression(b, name).is_some() == lookup_expression(a, name).is_some(),
        lookup_expression(b, name).is_some() ==> lookup_expression(b, name).unwrap()@ == lookup_expression(
            a,
            name,
        ).unwrap()@,
{
    let nb = b.function_registry.native_functions;
    let na = a.function_registry.native_functions;
    assert(native_entries(nb).dom() == natives_view(nb).dom());
    assert(native_entries(na).dom() == natives_view(na).dom());
    if native_entries(nb).contains_key(name) {
        assert(natives_view(nb)[name] == native_entries(nb)[name]@);
        assert(natives_view(na)[name] == native_entries(na)[name]@);
    }
    let eb = b.function_registry.expression_functions;
    let ea = a.function_registry.expression_functions;
    assert(expression_entries(eb).dom() == expressions_view(eb).dom());
    assert(expression_entries(ea).dom() == expressions_view(ea).dom());
    if expression_entries(eb).contains_key(name) {
        assert(expressions_view(eb)[name] == expression_entries(eb)[name]@);
        assert(expressions_view(ea)[name] == expression_entries(ea)[name]@);
    }
}

/// A context that lacks a constant reads its parent's.
pub proof fn law_child_reads_parent_constant(child: EvalContext, name: Seq<char>)
    requires
        !value_entries(child.constants).contains_key(name),
        child.parent.is_some(),
    ensures
        lookup_constant(child, name) == lookup_constant(*child.parent.unwrap(), name),
{
}

/// A constant that a context's parent holds itself is what the context reads under that name,
/// where the context holds no constant of that name.
pub proof fn law_parent_constant_is_inherited(child: EvalContext, name: Seq<char>, v: u64)
    requires
        name_fits(name),
        !value_entries(child.constants).contains_key(name),
        child.parent.is_some(),
        value_entries((*child.parent.unwrap()).constants).contains_key(name),
        value_entries((*child.parent.unwrap()).constants)[name] == v,
    ensures
        lookup_constant(child, name) == Some(v),
{
    assert(lookup_constant(*child.parent.unwrap(), name) == Some(v));
}

/// A variable that a context's parent holds itself is what the context reads under that name,
/// where the context holds no variable of that name.
pub proof fn law_parent_variable_is_inherited(child: EvalContext, name: Seq<char>, v: u64)
    requires
        name_fits(name),
        !value_entries(child.variables).contains_key(name),
        child.parent.is_some(),
        value_entries((*child.parent.unwrap()).variables).contains_key(name),
        value_entries((*child.parent.unwrap()).variables)[name] == v,
    ensures
        lookup_variable(child, name) == Some(v),
{
    assert(lookup_variable(*child.parent.unwrap(), name) == Some(v));
}

/// A name reported as an undefined variable: no parameter, and neither a variable nor a
/// constant of the context or its parents.
pub open spec fn truly_undefined_variable(ctx: EvalContext, params: Seq<Seq<char>>, n: Seq<char>) -> bool {
    &&& !params.contains(n)
    &&& lookup_variable(ctx, n) is None
    &&& lookup_constant(ctx, n) is None
}

/// A name reported as an undefined function: neither a native nor an expression function of
/// the context or its parents.
pub open spec fn truly_undefined_function(ctx: EvalContext, n: Seq<char>) -> bool {
    &&& lookup_native(ctx, n) is None
    &&& lookup_expression(ctx, n) is None
}

/// `g` extends the lists of `f` with names that are truly undefined.
pub open spec fn only_appends_undefined(ctx: EvalContext, params: Seq<Seq<char>>, f: Findings, g: Findings) -> bool {
    &&& g.undefined_variables.len() >= f.undefined_variables.len()
    &&& g.undefined_variables.take(f.undefined_variables.len() as int) == f.undefined_variables
    &&& forall|k: int|
        f.undefined_variables.len() <= k < g.undefined_variables.len() ==> truly_undefined_variable(
            ctx,
            params,
            #[trigger] g.undefined_variables[k],
        )
    &&& g.undefined_functions.len() >= f.undefined_functions.len()
    &&& g.undefined_functions.take(f.undefined_functions.len() as int) == f.undefined_functions
    &&& forall|k: int|
        f.undefined_functions.len() <= k < g.undefined_functions.len() ==> truly_undefined_function(
            ctx,
            #[trigger] g.undefined_functions[k],
        )
}

/// Checking an expression only adds names at the end of its lists, and never reports as
/// undefined a parameter, a variable or a constant (of the context or a parent), nor as an
/// undefined function a native or expression function that the context or a parent has.
pub proof fn law_defined_names_are_not_undefined(ctx: EvalContext, params: Seq<Seq<char>>, e: Ast, f: Findings)
    ensures
        only_appends_undefined(ctx, params, f, check_node(ctx, params, e, f)),
    decreases e,
{
    let g = check_node(ctx, params, e, f);
    match e {
        Ast::Function(n, args) => {
            let f1 = if crate::validation::expected_arity(ctx, n).is_none() {
                Findings { undefined_functions: f.undefined_functions.push(n), ..f }
            } else {
                f
            };
            let f2 = match crate::validation::expected_arity(ctx, n) {
                Some(x) => if args.len() != x {
                    Findings { arity_warnings: f1.arity_warnings.push((n, args.len(), Some(x))), ..f1 }
                } else {
                    f1
                },
                None => f1,
            };
            assert(f2.undefined_variables == f.undefined_variables);
            assert(f2.undefined_functions == f1.undefined_functions);
            assert(f.undefined_variables.take(f.undefined_variables.len() as int) =~= f.undefined_variables);
            assert(f1.undefined_functions.take(f.undefined_functions.len() as int) =~= f.undefined_functions);
            assert(only_appends_undefined(ctx, params, f, f2));
            lemma_args_defined_names_are_not_undefined(ctx, params, args, f2);
            lemma_undefined_chain(ctx, params, f, f2, g);
        },
        Ast::Array(_, index) => {
            law_defined_names_are_not_undefined(ctx, params, *index, f);
        },
        Ast::LogicalOp(_, l, r) => {
            let f1 = check_node(ctx, params, *l, f);
            law_defined_names_are_not_undefined(ctx, params, *l, f);
            law_defined_names_are_not_undefined(ctx, params, *r, f1);
            lemma_undefined_chain(ctx, params, f, f1, g);
        },
        Ast::Conditional(c, t, el) => {
            let f1 = check_node(ctx, params, *c, f);
            let f2 = check_node(ctx, params, *t, f1);
            law_defined_names_are_not_undefined(ctx, params, *c, f);
            law_defined_names_are_not_undefined(ctx, params, *t, f1);
            law_defined_names_are_not_undefined(ctx, params, *el, f2);
            lemma_undefined_chain(ctx, params, f, f1, f2);
            lemma_undefined_chain(ctx, params, f, f2, g);
        },
        _ => {
            assert(g.undefined_variables.take(f.undefined_variables.len() as int) =~= f.undefined_variables);
            assert(g.undefined_functions.take(f.undefined_functions.len() as int) =~= f.undefined_functions);
        },
    }
}

/// Two steps that each only append truly undefined names make one.
proof fn lemma_undefined_chain(ctx: EvalContext, params: Seq<Seq<char>>, f: Findings, f1: Findings, g: Findings)
    requires
        only_appends_undefined(ctx, params, f, f1),
        only_appends_undefined(ctx, params, f1, g),
    ensures
        only_appends_undefined(ctx, params, f, g),
{
    let a = f.undefined_variables.len() as int;
    let b = f1.undefined_variables.len() as int;
    assert(g.undefined_variables.take(a) =~= f.undefined_variables) by {
        assert forall|k: int| 0 <= k < a implies g.undefined_variables[k] == f.undefined_variables[k] by {
            assert(g.undefined_variables.take(b)[k] == f1.undefined_variables[k]);
            assert(f1.undefined_variables.take(a)[k] == f.undefined_variables[k]);
        }
    }
    assert forall|k: int| a <= k < g.undefined_variables.len() implies truly_undefined_variable(
        ctx,
        params,
        #[trigger] g.undefined_variables[k],
    ) by {
        if k < b {
            assert(g.undefined_variables.take(b)[k] == f1.undefined_variables[k]);
        }
    }
    let c = f.undefined_functions.len() as int;
    let d = f1.undefined_functions.len() as int;
    assert(g.undefined_functions.take(c) =~= f.undefined_functions) by {
        assert forall|k: int| 0 <= k < c implies g.undefined_functions[k] == f.undefined_functions[k] by {
            assert(g.undefined_functions.take(d)[k] == f1.undefined_functions[k]);
            assert(f1.undefined_functions.take(c)[k] == f.undefined_functions[k]);
        }
    }
    assert forall|k: int| c <= k < g.undefined_functions.len() implies truly_undefined_function(
        ctx,
        #[trigger] g.undefined_functions[k],
    ) by {
        if k < d {
            assert(g.undefined_functions.take(d)[k] == f1.undefined_functions[k]);
        }
    }
}

proof fn lemma_args_defined_names_are_not_undefined(ctx: EvalContext, params: Seq<Seq<char>>, args: Seq<Ast>, f: Findings)
    ensures
        only_appends_undefined(ctx, params, f, check_args(ctx, params, args, f)),
    decreases args,
{
    if args.len() == 0 {
        assert(f.undefined_variables.take(f.undefined_variables.len() as int) =~= f.undefined_variables);
        assert(f.undefined_functions.take(f.undefined_functions.len() as int) =~= f.undefined_functions);
    } else {
        let f1 = check_node(ctx, params, args[0], f);
        law_defined_names_are_not_undefined(ctx, params, args[0], f);
        lemma_args_defined_names_are_not_undefined(ctx, params, args.drop_first(), f1);
        lemma_undefined_chain(ctx, params, f, f1, check_args(ctx, params, args, f));
    }
}

/// A variable that is no parameter and that nothing defines (no variable, constant, native
/// or expression function of the context or its parents) is reported as undefined.
pub proof fn law_undefined_variable_is_reported(ctx: EvalContext, params: Seq<Seq<char>>, n: Seq<char>, f: Findings)
    requires
        !params.contains(n),
        lookup_variable(ctx, n) is None,
        lookup_constant(ctx, n) is None,
        lookup_native(ctx, n) is None,
        lookup_expression(ctx, n) is None,
    ensures
        check_node(ctx, params, Ast::Variable(n), f).undefined_variables == f.undefined_variables.push(n),
{
}

/// A parameter read by an expression is marked used and never reported as undefined.
pub proof fn law_read_parameter_is_used(ctx: EvalContext, params: Seq<Seq<char>>, n: Seq<char>, f: Findings)
    requires
        params.contains(n),
    ensures
        check_node(ctx, params, Ast::Variable(n), f).used.contains(n),
        check_node(ctx, params, Ast::Variable(n), f).undefined_variables == f.undefined_variables,
{
}

/// `a && b` is true exactly when both sides are non-zero, and `a || b` exactly when either
/// is, for sides that evaluate without error.
pub proof fn law_logical_operators_compute_truth<N: Fn(NativeImpl, Vec<u64>) -> u64, L: Fn(String) -> u64, I: Fn(u64) -> usize>(
    ctx: EvalContext,
    env: Env,
    scope: Seq<Map<Seq<char>, u64>>,
    left: Ast,
    right: Ast,
    depth: int,
    a: u64,
    b: u64,
    n: N,
    l: L,
    i: I,
)
    requires
        0 <= depth < MAX_RECURSION_DEPTH,
        eval_spec(ctx, env, scope, left, depth + 1, n, l, i) == Ok::<u64, crate::error::ErrSpec>(a),
        eval_spec(ctx, env, scope, right, depth + 1, n, l, i) == Ok::<u64, crate::error::ErrSpec>(b),
    ensures
        eval_spec(ctx, env, scope, Ast::Function("&&"@, seq![left, right]), depth, n, l, i) == Ok::<u64, crate::error::ErrSpec>(
            if a != 0 && a != 0x8000_0000_0000_0000 && b != 0 && b != 0x8000_0000_0000_0000 { ONE_BITS } else { ZERO_BITS },
        ),
        eval_spec(ctx, env, scope, Ast::Function("||"@, seq![left, right]), depth, n, l, i) == Ok::<u64, crate::error::ErrSpec>(
            if (a != 0 && a != 0x8000_0000_0000_0000) || (b != 0 && b != 0x8000_0000_0000_0000) { ONE_BITS } else { ZERO_BITS },
        ),
        eval_spec(ctx, env, scope, Ast::LogicalOp(crate::types::LogicalOperator::And, Box::new(left), Box::new(right)), depth, n, l, i)
            == Ok::<u64, crate::error::ErrSpec>(
            if a != 0 && a != 0x8000_0000_0000_0000 && b != 0 && b != 0x8000_0000_0000_0000 { ONE_BITS } else { ZERO_BITS },
        ),
        eval_spec(ctx, env, scope, Ast::LogicalOp(crate::types::LogicalOperator::Or, Box::new(left), Box::new(right)), depth, n, l, i)
            == Ok::<u64, crate::error::ErrSpec>(
            if (a != 0 && a != 0x8000_0000_0000_0000) || (b != 0 && b != 0x8000_0000_0000_0000) { ONE_BITS } else { ZERO_BITS },
        ),
{
    reveal_strlit("&&");
    reveal_strlit("||");
    assert("&&"@[0] != "||"@[0]);
    assert(seq![left, right][0] == left && seq![left, right][1] == right);
    lemma_is_zero_iff(a);
    lemma_is_zero_iff(b);
}

/// `a && b` and `a || b` in a batch: true exactly when both sides, or either side, are non-zero.
pub proof fn law_batch_logical_operators_compute_truth<N: Fn(NativeImpl, Vec<u64>) -> u64, L: Fn(String) -> u64, I: Fn(u64) -> usize>(
    ctx: EvalContext,
    env: Env,
    scope: Seq<Map<Seq<char>, u64>>,
    left: Ast,
    right: Ast,
    calls: int,
    pending: int,
    a: u64,
    b: u64,
    n: N,
    l: L,
    i: I,
)
    requires
        0 <= pending < crate::batch_eval::MAX_PENDING_OPS,
        batch_eval_spec(ctx, env, scope, left, calls, pending + 1, n, l, i) == Ok::<u64, crate::error::ErrSpec>(a),
        batch_eval_spec(ctx, env, scope, right, calls, pending + 1, n, l, i) == Ok::<u64, crate::error::ErrSpec>(b),
    ensures
        batch_eval_spec(ctx, env, scope, Ast::Function("&&"@, seq![left, right]), calls, pending, n, l, i) == Ok::<u64, crate::error::ErrSpec>(
            if a != 0 && a != 0x8000_0000_0000_0000 && b != 0 && b != 0x8000_0000_0000_0000 { ONE_BITS } else { ZERO_BITS },
        ),
        batch_eval_spec(ctx, env, scope, Ast::Function("||"@, seq![left, right]), calls, pending, n, l, i) == Ok::<u64, crate::error::ErrSpec>(
            if (a != 0 && a != 0x8000_0000_0000_0000) || (b != 0 && b != 0x8000_0000_0000_0000) { ONE_BITS } else { ZERO_BITS },
        ),
{
    reveal_strlit("&&");
    reveal_strlit("||");
    assert("&&"@[0] != "||"@[0]);
    assert(seq![left, right][0] == left && seq![left, right][1] == right);
    lemma_is_zero_iff(a);
    lemma_is_zero_iff(b);
}

/// A number is zero, of either sign, exactly when its bits are those of 0.0 or of -0.0.
proof fn lemma_is_zero_iff(x: u64)
    ensures
        is_zero(x) <==> (x == 0 || x == 0x8000_0000_0000_0000),
{
    assert((x & 0x7fff_ffff_ffff_ffff == 0) <==> (x == 0 || x == 0x8000_0000_0000_0000)) by (bit_vector);
}

/// The additive and multiplicative operators.
pub open spec fn arithmetic_op(op: Seq<char>) -> bool {
    op == seq!['+'] || op == seq!['-'] || op == seq!['*'] || op == seq!['/'] || op == seq!['%']
}

/// The comparison operators.
pub open spec fn comparison_op(op: Seq<char>) -> bool {
    op == seq!['=', '='] || op == seq!['!', '='] || op == seq!['<'] || op == seq!['>'] || op == seq!['<', '=']
        || op == seq!['>', '='] || op == seq!['<', '>']
}

/// Comparisons bind less tightly than arithmetic: `a + b < x` is `(a + b) < x` and
/// `a < b + x` is `a < (b + x)`, for any numbers and any arithmetic and comparison operator.
pub proof fn law_comparisons_bind_below_arithmetic(c: PCfg, p: int, o1: Seq<char>, o2: Seq<char>, allow: bool, dep: int)
    requires
        0 <= p,
        p + 5 <= c.toks.len(),
        c.toks[p].kind == TokenKind::Number,
        c.toks[p + 1].kind == TokenKind::Operator,
        c.toks[p + 1].text == o1,
        c.toks[p + 2].kind == TokenKind::Number,
        c.toks[p + 3].kind == TokenKind::Operator,
        c.toks[p + 3].text == o2,
        c.toks[p + 4].kind == TokenKind::Number,
        stops_at(c, p + 5),
        0 <= dep,
        dep + 3 <= c.max,
        (arithmetic_op(o1) && comparison_op(o2)) || (comparison_op(o1) && arithmetic_op(o2)),
    ensures
        ({
            let a = Ast::Constant(c.toks[p].text);
            let b = Ast::Constant(c.toks[p + 2].text);
            let x = Ast::Constant(c.toks[p + 4].text);
            &&& arithmetic_op(o1) ==> parse_expr_spec(c, p, 0, allow, dep) == Ok::<(Ast, int), crate::error::ErrSpec>(
                (Ast::Function(o2, seq![Ast::Function(o1, seq![a, b]), x]), p + 5),
            )
            &&& comparison_op(o1) ==> parse_expr_spec(c, p, 0, allow, dep) == Ok::<(Ast, int), crate::error::ErrSpec>(
                (Ast::Function(o1, seq![a, Ast::Function(o2, seq![b, x])]), p + 5),
            )
        }),
{
    assert(bp_spec(o1).is_some() && bp_spec(o2).is_some());
    law_binary_operator_grouping(c, p, o1, o2, allow, dep);
    if arithmetic_op(o1) {
        assert(rhs_bp(o1) >= 10);
        assert(bp_spec(o2).unwrap().0 == 7);
    } else {
        assert(rhs_bp(o1) == 8);
        assert(bp_spec(o2).unwrap().0 >= 9);
    }
}

/// The precedence level of a binary operator, from lowest to highest: `||`, `&&`, `|`, `&`,
/// the comparisons, the shifts, `+ -`, `* / %`, `^`, `**`.
pub open spec fn operator_level(op: Seq<char>) -> Option<int> {
    if op == seq!['|', '|'] {
        Some(2)
    } else if op == seq!['&', '&'] {
        Some(3)
    } else if op == seq!['|'] {
        Some(4)
    } else if op == seq!['&'] {
        Some(6)
    } else if comparison_op(op) {
        Some(7)
    } else if op == seq!['<', '<'] || op == seq!['>', '>'] || op == seq!['<', '<', '<'] || op == seq!['>', '>', '>'] {
        Some(8)
    } else if op == seq!['+'] || op == seq!['-'] {
        Some(9)
    } else if op == seq!['*'] || op == seq!['/'] || op == seq!['%'] {
        Some(10)
    } else if op == seq!['^'] {
        Some(15)
    } else if op == seq!['*', '*'] {
        Some(16)
    } else {
        None
    }
}

/// The operators that group to the right: `^` and `**`.
pub open spec fn groups_right(op: Seq<char>) -> bool {
    op == seq!['^'] || op == seq!['*', '*']
}

/// Precedence and associativity of the binary operators: in `a o1 b o2 x`, the second
/// operator takes `b` as its left operand when it has a higher level than the first, or the
/// same level and the first groups to the right; otherwise it applies to `a o1 b`.  (A `^`
/// after `**` is the one pair that takes `b`, though `^` is the lower level.)
pub proof fn law_operator_precedence(c: PCfg, p: int, o1: Seq<char>, o2: Seq<char>, allow: bool, dep: int)
    requires
        0 <= p,
        p + 5 <= c.toks.len(),
        c.toks[p].kind == TokenKind::Number,
        c.toks[p + 1].kind == TokenKind::Operator,
        c.toks[p + 1].text == o1,
        c.toks[p + 2].kind == TokenKind::Number,
        c.toks[p + 3].kind == TokenKind::Operator,
        c.toks[p + 3].text == o2,
        c.toks[p + 4].kind == TokenKind::Number,
        stops_at(c, p + 5),
        0 <= dep,
        dep + 3 <= c.max,
        operator_level(o1) is Some,
        operator_level(o2) is Some,
        !(o1 == seq!['*', '*'] && o2 == seq!['^']),
    ensures
        ({
            let a = Ast::Constant(c.toks[p].text);
            let b = Ast::Constant(c.toks[p + 2].text);
            let x = Ast::Constant(c.toks[p + 4].text);
            let l1 = operator_level(o1).unwrap();
            let l2 = operator_level(o2).unwrap();
            &&& (l2 > l1 || (l2 == l1 && groups_right(o1))) ==> parse_expr_spec(c, p, 0, allow, dep) == Ok::<
                (Ast, int),
                crate::error::ErrSpec,
            >((Ast::Function(o1, seq![a, Ast::Function(o2, seq![b, x])]), p + 5))
            &&& !(l2 > l1 || (l2 == l1 && groups_right(o1))) ==> parse_expr_spec(c, p, 0, allow, dep) == Ok::<
                (Ast, int),
                crate::error::ErrSpec,
            >((Ast::Function(o2, seq![Ast::Function(o1, seq![a, b]), x]), p + 5))
        }),
{
    lemma_level_is_binding_power(o1);
    lemma_level_is_binding_power(o2);
    law_binary_operator_grouping(c, p, o1, o2, allow, dep);
}

proof fn lemma_level_is_binding_power(op: Seq<char>)
    requires
        operator_level(op) is Some,
    ensures
        bp_spec(op) is Some,
        bp_spec(op).unwrap().0 == operator_level(op).unwrap(),
        rhs_bp(op) == if groups_right(op) {
            operator_level(op).unwrap() - 1
        } else {
            operator_level(op).unwrap() + 1
        },
{
}

/// A context's own variable or constant hides its parents' under the same name.
pub proof fn law_own_values_come_first(ctx: EvalContext, name: Seq<char>)
    requires
        name_fits(name),
    ensures
        value_entries(ctx.variables).contains_key(name) ==> lookup_variable(ctx, name) == Some(
            value_entries(ctx.variables)[name],
        ),
        value_entries(ctx.constants).contains_key(name) ==> lookup_constant(ctx, name) == Some(
            value_entries(ctx.constants)[name],
        ),
{
}

/// A context without a parent reads only its own variables and constants.
pub proof fn law_root_reads_only_its_own(ctx: EvalContext, name: Seq<char>)
    requires
        ctx.parent.is_none(),
        !value_entries(ctx.variables).contains_key(name) || !name_fits(name),
        !value_entries(ctx.constants).contains_key(name) || !name_fits(name),
    ensures
        lookup_variable(ctx, name) is None,
        lookup_constant(ctx, name) is None,
{
}

/// Arrays and objects that a context lacks are read from its parent.
pub proof fn law_child_reads_parent_arrays_and_objects(child: EvalContext, name: Seq<char>)
    requires
        child.parent.is_some(),
    ensures
        !array_entries(child.arrays).contains_key(name) ==> lookup_array(child, name) == lookup_array(
            *child.parent.unwrap(),
            name,
        ),
        !object_entries(child.attributes).contains_key(name) ==> lookup_object(child, name) == lookup_object(
            *child.parent.unwrap(),
            name,
        ),
{
}

/// Reading a name in an expression evaluated in a context that has no variable of that name
/// anywhere, and no constant of its own, gives its parent's constant.
pub proof fn law_expression_reads_parent_constant(child: EvalContext, name: Seq<char>, v: u64)
    requires
        name_fits(name),
        name != "pi"@,
        name != "e"@,
        lookup_variable(child, name) is None,
        !value_entries(child.constants).contains_key(name),
        child.parent.is_some(),
        value_entries((*child.parent.unwrap()).constants).contains_key(name),
        value_entries((*child.parent.unwrap()).constants)[name] == v,
    ensures
        variable_spec(child, no_env(), Seq::empty(), name) == Ok::<u64, crate::error::ErrSpec>(v),
{
    law_parent_constant_is_inherited(child, name, v);
    assert(!value_entries(child.variables).contains_key(name));
}

/// A leading minus binds tighter than every binary operator but `^` and `**`: `-a ^ b` is
/// `-(a ^ b)`, while `-a * b` is `(-a) * b` and `-a + b` is `(-a) + b`.
pub proof fn law_prefix_minus_precedence(c: PCfg, p: int, o: Seq<char>, allow: bool, dep: int)
    requires
        0 <= p,
        p + 4 <= c.toks.len(),
        c.toks[p].kind == TokenKind::Operator,
        c.toks[p].text == seq!['-'],
        c.toks[p + 1].kind == TokenKind::Number,
        c.toks[p + 2].kind == TokenKind::Operator,
        c.toks[p + 2].text == o,
        c.toks[p + 3].kind == TokenKind::Number,
        stops_at(c, p + 4),
        0 <= dep,
        dep + 3 <= c.max,
        operator_level(o) is Some,
    ensures
        ({
            let a = Ast::Constant(c.toks[p + 1].text);
            let b = Ast::Constant(c.toks[p + 3].text);
            let neg = seq!['n', 'e', 'g'];
            &&& groups_right(o) ==> parse_expr_spec(c, p, 0, allow, dep) == Ok::<(Ast, int), crate::error::ErrSpec>(
                (Ast::Function(neg, seq![Ast::Function(o, seq![a, b])]), p + 4),
            )
            &&& !groups_right(o) ==> parse_expr_spec(c, p, 0, allow, dep) == Ok::<(Ast, int), crate::error::ErrSpec>(
                (Ast::Function(o, seq![Ast::Function(neg, seq![a]), b]), p + 4),
            )
        }),
{
    lemma_level_is_binding_power(o);
    let d = dep + 1;
    let a = Ast::Constant(c.toks[p + 1].text);
    let b = Ast::Constant(c.toks[p + 3].text);
    let neg = seq!['n', 'e', 'g'];
    let r = rhs_bp(o);
    assert(!is1(o, '(') && !is1(o, '[') && !is1(o, '.'));
    lemma_number_alone(c, p + 3, r, allow, d + 1);
    lemma_number_alone(c, p + 3, r, allow, d);
    if groups_right(o) {
        let d2 = d + 1;
        let inner = Ast::Function(o, seq![a, b]);
        assert(primary_spec(c, p + 1, d2) == Ok::<(Ast, int), crate::error::ErrSpec>((a, p + 2)));
        assert(prefix_spec(c, p + 1, allow, d2) == Ok::<(Ast, int), crate::error::ErrSpec>((a, p + 2)));
        assert(postfix_spec(c, a, p + 2, d2) == Ok::<(Ast, int), crate::error::ErrSpec>((a, p + 2)));
        lemma_stop(c, inner, p + 4, 14, allow, d2);
        assert(infix_spec(c, a, p + 2, 14, allow, d2) == Ok::<(Ast, int), crate::error::ErrSpec>((inner, p + 4)));
        assert(parse_expr_spec(c, p + 1, 14, allow, d) == Ok::<(Ast, int), crate::error::ErrSpec>((inner, p + 4)));
        let whole = Ast::Function(neg, seq![inner]);
        assert(prefix_spec(c, p, allow, d) == Ok::<(Ast, int), crate::error::ErrSpec>((whole, p + 4)));
        lemma_stop(c, whole, p + 4, 0, allow, d);
    } else {
        lemma_number_alone(c, p + 1, 14, allow, d);
        let na = Ast::Function(neg, seq![a]);
        assert(prefix_spec(c, p, allow, d) == Ok::<(Ast, int), crate::error::ErrSpec>((na, p + 2)));
        assert(postfix_spec(c, na, p + 2, d) == Ok::<(Ast, int), crate::error::ErrSpec>((na, p + 2)));
        let whole = Ast::Function(o, seq![na, b]);
        lemma_stop(c, whole, p + 4, 0, allow, d);
        assert(infix_spec(c, na, p + 2, 0, allow, d) == Ok::<(Ast, int), crate::error::ErrSpec>((whole, p + 4)));
    }
}

/// A call of a function that nothing defines (no native or expression function of the
/// context or its parents, and none of the math functions known without registration) is
/// reported as undefined.
pub proof fn law_undefined_function_is_reported(ctx: EvalContext, params: Seq<Seq<char>>, n: Seq<char>, f: Findings)
    requires
        lookup_native(ctx, n) is None,
        lookup_expression(ctx, n) is None,
        crate::validation::builtin_arity(n) is None,
    ensures
        check_node(ctx, params, Ast::Function(n, Seq::empty()), f).undefined_functions == f.undefined_functions.push(n),
        check_node(ctx, params, Ast::Function(n, Seq::empty()), f).undefined_variables == f.undefined_variables,
{
    assert(crate::validation::expected_arity(ctx, n) is None);
    let f1 = Findings { undefined_functions: f.undefined_functions.push(n), ..f };
    assert(check_args(ctx, params, Seq::<Ast>::empty(), f1) == f1);
}

} // verus!
