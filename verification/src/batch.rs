use vstd::prelude::*;
use std::rc::Rc;
use crate::types::{Ast, AstExpr, ExpressionFunction, ExpressionSpec, NativeImpl, ast_view, str_eq};
use crate::error::{ExprError, ErrSpec};
use crate::context::{
    EvalContext, ExpressionFunctionMap, VariableMap, name_fits, name_too_long, name_key,
    param_views,
};
use crate::maps::{NameMap, value_entries, expression_entries};
use crate::engine::{parse_expression, parse_text_spec};
use crate::eval::{Env, EvalEnv, oracles_ok, scope_view};
use crate::batch_eval::{batch_eval_spec, batch_eval_inner};

verus! {

/// The most parameters that one evaluation of a batch hands to its expressions.
pub const MAX_BATCH_PARAMS: usize = 16;

/// A parameter of a batch: its name and its value (the bits of an `f64`).
#[derive(Clone, Debug)]
pub struct Param {
    pub name: String,
    pub value: u64,
}

/// The names and values of parameters.
pub open spec fn params_view(ps: Seq<Param>) -> Seq<(Seq<char>, u64)> {
    Seq::new(ps.len(), |i: int| (ps[i].name@, ps[i].value))
}

/// No name occurs twice.
pub open spec fn distinct_names(ps: Seq<(Seq<char>, u64)>) -> bool {
    forall|i: int, j: int| 0 <= i < j < ps.len() ==> #[trigger] ps[i].0 != #[trigger] ps[j].0
}

/// Whether a parameter has this name.
pub open spec fn has_name(ps: Seq<(Seq<char>, u64)>, name: Seq<char>) -> bool {
    exists|i: int| 0 <= i < ps.len() && #[trigger] ps[i].0 == name
}

pub open spec fn overrides_full_err() -> ErrSpec {
    ErrSpec::CapacityExceeded("parameter overrides"@)
}

/// The table of parameter values that an evaluation hands to its expressions, filled in
/// order, or the error that stops it: a name that is too long, or one more name than the
/// table holds.
pub open spec fn overrides_spec(ps: Seq<(Seq<char>, u64)>) -> Result<Map<Seq<char>, u64>, ErrSpec>
    decreases ps.len(),
{
    if ps.len() == 0 {
        Ok(Map::empty())
    } else {
        match overrides_spec(ps.drop_last()) {
            Err(e) => Err(e),
            Ok(m) => {
                let (name, value) = ps.last();
                if !name_fits(name) {
                    Err(name_too_long(name))
                } else if m.contains_key(name) || m.len() < MAX_BATCH_PARAMS {
                    Ok(m.insert(name, value))
                } else {
                    Err(overrides_full_err())
                }
            },
        }
    }
}

/// Once filling the table fails on a prefix of the parameters, it fails on all of them with
/// the same error.
proof fn lemma_overrides_err_extends(ps: Seq<(Seq<char>, u64)>, k: int)
    requires
        0 <= k <= ps.len(),
        overrides_spec(ps.take(k)) is Err,
    ensures
        overrides_spec(ps) == overrides_spec(ps.take(k)),
    decreases ps.len(),
{
    if k == ps.len() {
        assert(ps.take(k) =~= ps);
    } else {
        assert(ps.drop_last().take(k) =~= ps.take(k));
        lemma_overrides_err_extends(ps.drop_last(), k);
    }
}

/// The value of one expression of a batch: evaluated alone, outside any call, with nothing
/// waiting on the evaluation's stack.
pub open spec fn batch_value<N: Fn(NativeImpl, Vec<u64>) -> u64, L: Fn(String) -> u64, I: Fn(u64) -> usize>(
    ctx: EvalContext,
    env: Env,
    a: Ast,
    n: N,
    l: L,
    i: I,
) -> Result<u64, ErrSpec> {
    batch_eval_spec(ctx, env, Seq::empty(), a, 0, 0, n, l, i)
}

/// What evaluating the expressions in order, each result stored in its slot, comes to: every
/// slot filled where all succeed; otherwise the first failure's error, with the slots before
/// it filled and the others as they were.
pub open spec fn batch_outcome<N: Fn(NativeImpl, Vec<u64>) -> u64, L: Fn(String) -> u64, I: Fn(u64) -> usize>(
    ctx: EvalContext,
    env: Env,
    asts: Seq<Ast>,
    before: Seq<u64>,
    after: Seq<u64>,
    r: Result<(), ErrSpec>,
    n: N,
    l: L,
    i: I,
) -> bool {
    &&& after.len() == before.len()
    &&& match r {
        Ok(()) => forall|k: int|
            0 <= k < asts.len() ==> #[trigger] batch_value(ctx, env, asts[k], n, l, i) == Ok::<
                u64,
                ErrSpec,
            >(after[k]),
        Err(e) => exists|j: int|
            {
                &&& 0 <= j < asts.len()
                &&& #[trigger] batch_value(ctx, env, asts[j], n, l, i) == Err::<u64, ErrSpec>(e)
                &&& forall|k: int|
                    0 <= k < j ==> #[trigger] batch_value(ctx, env, asts[k], n, l, i) == Ok::<
                        u64,
                        ErrSpec,
                    >(after[k])
                &&& forall|k: int| j <= k < after.len() ==> #[trigger] after[k] == before[k]
            },
    }
}

/// An empty batch.
pub open spec fn is_empty_batch(b: BatchCore) -> bool {
    &&& b.wf()
    &&& b.texts() == Seq::<Seq<char>>::empty()
    &&& b.asts() == Seq::<Ast>::empty()
    &&& b.params() == Seq::<(Seq<char>, u64)>::empty()
    &&& b.results() == Seq::<u64>::empty()
    &&& !b.has_locals()
    &&& b.locals() == Map::<Seq<char>, ExpressionSpec>::empty()
}

/// The two batches have the same local functions.
pub open spec fn same_locals(a: BatchCore, b: BatchCore) -> bool {
    a.has_locals() == b.has_locals() && a.local_entries() == b.local_entries()
}

/// What adding an expression does.
pub open spec fn add_expression_post(old: BatchCore, new: BatchCore, expr: Seq<char>, r: Result<usize, ExprError>) -> bool {
    &&& new.wf()
    &&& new.params() == old.params()
    &&& same_locals(old, new)
    &&& match parse_text_spec(expr, None, None) {
        Err(e) => {
            &&& r.is_err()
            &&& r->Err_0@ == e
            &&& new.texts() == old.texts()
            &&& new.asts() == old.asts()
            &&& new.results() == old.results()
        },
        Ok(a) => {
            &&& r == Ok::<usize, ExprError>(old.asts().len() as usize)
            &&& new.texts() == old.texts().push(expr)
            &&& new.asts() == old.asts().push(a)
            &&& new.results() == old.results().push(0u64)
        },
    }
}

/// The expressions, results and local functions stay as they were.
pub open spec fn only_params_change(old: BatchCore, new: BatchCore) -> bool {
    &&& new.wf()
    &&& new.texts() == old.texts()
    &&& new.asts() == old.asts()
    &&& new.results() == old.results()
    &&& same_locals(old, new)
}

/// What adding a parameter does.
pub open spec fn add_parameter_post(old: BatchCore, new: BatchCore, name: Seq<char>, value: u64, r: Result<usize, ExprError>) -> bool {
    &&& only_params_change(old, new)
    &&& has_name(old.params(), name) ==> {
        &&& r.is_err()
        &&& r->Err_0@ == ErrSpec::DuplicateParameter(name)
        &&& new.params() == old.params()
    }
    &&& !has_name(old.params(), name) ==> {
        &&& r == Ok::<usize, ExprError>(old.params().len() as usize)
        &&& new.params() == old.params().push((name, value))
    }
}

/// What setting a parameter by its index does.
pub open spec fn set_param_post(old: BatchCore, new: BatchCore, idx: usize, value: u64, r: Result<(), ExprError>) -> bool {
    &&& only_params_change(old, new)
    &&& idx < old.params().len() ==> {
        &&& r.is_ok()
        &&& new.params() == old.params().update(idx as int, (old.params()[idx as int].0, value))
    }
    &&& idx >= old.params().len() ==> {
        &&& r.is_err()
        &&& r->Err_0@ == ErrSpec::InvalidParameterIndex(idx as int)
        &&& new.params() == old.params()
    }
}

/// What setting a parameter by its name does.
pub open spec fn set_param_by_name_post(old: BatchCore, new: BatchCore, name: Seq<char>, value: u64, r: Result<(), ExprError>) -> bool {
    &&& only_params_change(old, new)
    &&& has_name(old.params(), name) ==> {
        &&& r.is_ok()
        &&& exists|k: int|
            0 <= k < old.params().len() && #[trigger] old.params()[k].0 == name && new.params()
                == old.params().update(k, (name, value))
    }
    &&& !has_name(old.params(), name) ==> {
        &&& r.is_err()
        &&& r->Err_0@ == ErrSpec::UnknownVariable { name }
        &&& new.params() == old.params()
    }
}

pub open spec fn unit_result_view(r: Result<(), ExprError>) -> Result<(), ErrSpec> {
    match r {
        Ok(()) => Ok(()),
        Err(e) => Err(e@),
    }
}

/// What evaluating the batch does.
pub open spec fn eval_post<N: Fn(NativeImpl, Vec<u64>) -> u64, L: Fn(String) -> u64, I: Fn(u64) -> usize>(
    old: BatchCore,
    new: BatchCore,
    ctx: EvalContext,
    r: Result<(), ExprError>,
    n: N,
    l: L,
    i: I,
) -> bool {
    &&& new.wf()
    &&& new.texts() == old.texts()
    &&& new.asts() == old.asts()
    &&& new.params() == old.params()
    &&& same_locals(old, new)
    &&& match overrides_spec(old.params()) {
        Err(e) => {
            &&& r.is_err()
            &&& r->Err_0@ == e
            &&& new.results() == old.results()
        },
        Ok(m) => batch_outcome(
            ctx,
            old.env_with(m),
            old.asts(),
            old.results(),
            new.results(),
            unit_result_view(r),
            n,
            l,
            i,
        ),
    }
}

/// The expressions, parameters and results stay as they were.
pub open spec fn only_locals_change(old: BatchCore, new: BatchCore) -> bool {
    &&& new.wf()
    &&& new.texts() == old.texts()
    &&& new.asts() == old.asts()
    &&& new.params() == old.params()
    &&& new.results() == old.results()
}

/// What registering a local expression function does.
pub open spec fn register_post(
    old: BatchCore,
    new: BatchCore,
    name: Seq<char>,
    params: Seq<Seq<char>>,
    body: Seq<char>,
    r: Result<(), ExprError>,
) -> bool {
    let m = old.locals();
    let f = ExpressionSpec { name, params, expression: body, description: None };
    &&& only_locals_change(old, new)
    &&& new.has_locals()
    &&& if !name_fits(name) {
        r.is_err() && r->Err_0@ == name_too_long(name) && new.locals() == m
    } else if m.contains_key(name) || m.len() < 64 {
        r.is_ok() && new.locals() == m.insert(name, f)
    } else {
        &&& r.is_err()
        &&& r->Err_0@ == ErrSpec::Other("Too many expression functions"@)
        &&& new.locals() == m
    }
}

/// What unregistering a local expression function does.
pub open spec fn unregister_post(old: BatchCore, new: BatchCore, name: Seq<char>, r: Result<bool, ExprError>) -> bool {
    &&& only_locals_change(old, new)
    &&& new.has_locals() == old.has_locals()
    &&& !old.has_locals() ==> r == Ok::<bool, ExprError>(false) && new.locals() == old.locals()
    &&& old.has_locals() && !name_fits(name) ==> {
        &&& r.is_err()
        &&& r->Err_0@ == name_too_long(name)
        &&& new.locals() == old.locals()
    }
    &&& old.has_locals() && name_fits(name) ==> {
        &&& r == Ok::<bool, ExprError>(old.locals().contains_key(name))
        &&& new.locals() == old.locals().remove(name)
    }
}

/// What clearing the batch does.
pub open spec fn clear_post(old: BatchCore, new: BatchCore) -> bool {
    &&& new.wf()
    &&& new.texts() == Seq::<Seq<char>>::empty()
    &&& new.asts() == Seq::<Ast>::empty()
    &&& new.params() == Seq::<(Seq<char>, u64)>::empty()
    &&& new.results() == Seq::<u64>::empty()
    &&& new.has_locals() == old.has_locals()
    &&& new.locals() == Map::<Seq<char>, ExpressionSpec>::empty()
}

/// What reading a result gives.
pub open spec fn result_at(b: BatchCore, idx: usize) -> Option<u64> {
    if idx < b.results().len() {
        Some(b.results()[idx as int])
    } else {
        None
    }
}

/// What reading a parameter by its index gives.
pub open spec fn param_at_post(b: BatchCore, idx: usize, r: Option<&Param>) -> bool {
    &&& idx < b.params().len() ==> r.is_some() && (r.unwrap().name@, r.unwrap().value) == b.params()[idx as int]
    &&& idx >= b.params().len() ==> r.is_none()
}

/// What reading a parameter by its name gives.
pub open spec fn param_named_post(b: BatchCore, name: Seq<char>, r: Option<&Param>) -> bool {
    &&& has_name(b.params(), name) ==> r.is_some() && r.unwrap().name@ == name && exists|k: int|
        0 <= k < b.params().len() && #[trigger] b.params()[k] == (name, r.unwrap().value)
    &&& !has_name(b.params(), name) ==> r.is_none()
}

/// Expressions parsed once and evaluated together, with parameters that they all read before
/// anything else, and expression functions of their own that they call before any other.
pub struct BatchCore {
    expressions: Vec<(String, AstExpr)>,
    params: Vec<Param>,
    results: Vec<u64>,
    local_functions: Option<ExpressionFunctionMap>,
}

impl BatchCore {
    /// The texts of the expressions.
    pub closed spec fn texts(&self) -> Seq<Seq<char>> {
        Seq::new(self.expressions@.len(), |k: int| self.expressions@[k].0@)
    }

    /// The parsed expressions.
    pub closed spec fn asts(&self) -> Seq<Ast> {
        Seq::new(self.expressions@.len(), |k: int| ast_view(self.expressions@[k].1))
    }

    /// The parameters: names and values, in the order they were added.
    pub closed spec fn params(&self) -> Seq<(Seq<char>, u64)> {
        params_view(self.params@)
    }

    /// The last result of each expression (zero before its first evaluation).
    pub closed spec fn results(&self) -> Seq<u64> {
        self.results@
    }

    /// Whether the table of local functions was made.
    pub closed spec fn has_locals(&self) -> bool {
        self.local_functions is Some
    }

    /// The local expression functions.
    pub closed spec fn local_entries(&self) -> Map<Seq<char>, ExpressionFunction> {
        match self.local_functions {
            Some(m) => expression_entries(m),
            None => Map::empty(),
        }
    }

    /// The local expression functions, by their views.
    pub closed spec fn locals(&self) -> Map<Seq<char>, ExpressionSpec> {
        self.local_entries().map_values(|f: ExpressionFunction| f@)
    }

    /// What the batch adds to a context when it is evaluated with the parameter table `m`.
    pub closed spec fn env_with(&self, m: Map<Seq<char>, u64>) -> Env {
        Env { overrides: m, locals: self.local_entries() }
    }

    /// One result slot for each expression, and no parameter name twice.
    pub closed spec fn wf(&self) -> bool {
        &&& self.results@.len() == self.expressions@.len()
        &&& distinct_names(self.params())
    }

    /// An empty batch.
    pub fn new() -> (b: Self)
        ensures
            is_empty_batch(b),
    {
        let b = BatchCore {
            expressions: Vec::new(),
            params: Vec::new(),
            results: Vec::new(),
            local_functions: None,
        };
        proof {
            assert(b.texts() =~= Seq::<Seq<char>>::empty());
            assert(b.asts() =~= Seq::<Ast>::empty());
            assert(b.params() =~= Seq::<(Seq<char>, u64)>::empty());
            assert(b.locals() =~= Map::<Seq<char>, ExpressionSpec>::empty());
        }
        b
    }

    /// Parses an expression and adds it, with a result slot of zero; gives its index.  An
    /// expression that does not parse is not added.
    pub fn add_expression(&mut self, expr: &str) -> (r: Result<usize, ExprError>)
        requires
            old(self).wf(),
        ensures
            add_expression_post(*old(self), *final(self), expr@, r),
    {
        let ast = match parse_expression(expr) {
            Ok(a) => a,
            Err(e) => return Err(e),
        };
        let idx = self.expressions.len();
        self.expressions.push((String::from_str(expr), ast));
        self.results.push(0);
        proof {
            assert(self.texts() =~= old(self).texts().push(expr@));
            assert(self.asts() =~= old(self).asts().push(ast_view(ast)));
        }
        Ok(idx)
    }

    /// The index of the parameter named `name`, if there is one.
    fn find_param(&self, name: &str) -> (r: Option<usize>)
        ensures
            match r {
                Some(k) => k < self.params().len() && self.params()[k as int].0 == name@,
                None => !has_name(self.params(), name@),
            },
    {
        let mut k: usize = 0;
        while k < self.params.len()
            invariant
                k <= self.params@.len(),
                forall|j: int| 0 <= j < k ==> #[trigger] self.params()[j].0 != name@,
            decreases self.params@.len() - k,
        {
            if str_eq(self.params[k].name.as_str(), name) {
                return Some(k);
            }
            k = k + 1;
        }
        None
    }

    /// Adds a parameter with its first value and gives its index; refused where a parameter
    /// of that name exists.
    pub fn add_parameter(&mut self, name: &str, initial_value: u64) -> (r: Result<usize, ExprError>)
        requires
            old(self).wf(),
        ensures
            add_parameter_post(*old(self), *final(self), name@, initial_value, r),
    {
        match self.find_param(name) {
            Some(_) => return Err(ExprError::DuplicateParameter(String::from_str(name))),
            None => {},
        }
        let idx = self.params.len();
        self.params.push(Param { name: String::from_str(name), value: initial_value });
        proof {
            assert(self.params() =~= old(self).params().push((name@, initial_value)));
            assert forall|i: int, j: int| 0 <= i < j < self.params().len() implies #[trigger] self.params()[i].0
                != #[trigger] self.params()[j].0 by {
                if j == old(self).params().len() {
                    assert(old(self).params()[i].0 != name@);
                }
            }
        }
        Ok(idx)
    }

    /// Sets the value of the parameter at `idx`; refused past the last parameter.
    pub fn set_param(&mut self, idx: usize, value: u64) -> (r: Result<(), ExprError>)
        requires
            old(self).wf(),
        ensures
            set_param_post(*old(self), *final(self), idx, value, r),
    {
        if idx >= self.params.len() {
            return Err(ExprError::InvalidParameterIndex(idx));
        }
        let mut p = self.params.remove(idx);
        p.value = value;
        self.params.insert(idx, p);
        proof {
            assert(self.params() =~= old(self).params().update(
                idx as int,
                (old(self).params()[idx as int].0, value),
            ));
            assert forall|i: int, j: int| 0 <= i < j < self.params().len() implies #[trigger] self.params()[i].0
                != #[trigger] self.params()[j].0 by {
                assert(self.params()[i].0 == old(self).params()[i].0);
                assert(self.params()[j].0 == old(self).params()[j].0);
            }
        }
        Ok(())
    }

    /// Sets the value of the parameter named `name`; refused where there is none.
    pub fn set_param_by_name(&mut self, name: &str, value: u64) -> (r: Result<(), ExprError>)
        requires
            old(self).wf(),
        ensures
            set_param_by_name_post(*old(self), *final(self), name@, value, r),
    {
        match self.find_param(name) {
            Some(k) => {
                let r = self.set_param(k, value);
                proof {
                    assert(old(self).params()[k as int].0 == name@);
                }
                r
            },
            None => Err(ExprError::UnknownVariable { name: String::from_str(name) }),
        }
    }

    /// Builds the table of parameter values handed to the expressions.
    fn build_overrides(&self) -> (r: Result<VariableMap, ExprError>)
        requires
            self.wf(),
        ensures
            match overrides_spec(self.params()) {
                Ok(m) => r.is_ok() && value_entries(r.unwrap()) == m,
                Err(e) => r.is_err() && r->Err_0@ == e,
            },
    {
        let ghost ps = self.params();
        let ghost names = Seq::new(ps.len(), |j: int| ps[j].0);
        let mut m = NameMap::<u64, 64>::new();
        proof {
            assert(value_entries(m) =~= Map::<Seq<char>, u64>::empty());
            assert(ps.take(0) =~= Seq::<(Seq<char>, u64)>::empty());
            assert(names.take(0).to_set() =~= Set::<Seq<char>>::empty());
        }
        let mut k: usize = 0;
        while k < self.params.len()
            invariant
                k <= self.params@.len(),
                ps == self.params(),
                ps.len() == self.params@.len(),
                names == Seq::new(ps.len(), |j: int| ps[j].0),
                distinct_names(ps),
                overrides_spec(ps.take(k as int)) == Ok::<Map<Seq<char>, u64>, ErrSpec>(value_entries(m)),
                value_entries(m).dom() == names.take(k as int).to_set(),
            decreases self.params@.len() - k,
        {
            proof {
                assert(ps.take(k + 1).drop_last() =~= ps.take(k as int));
                assert(ps.take(k + 1).last() == ps[k as int]);
                assert(ps[k as int] == (self.params@[k as int].name@, self.params@[k as int].value));
                assert(names.take(k as int).no_duplicates()) by {
                    assert forall|i: int, j: int| 0 <= i < names.take(k as int).len() && 0 <= j < names.take(
                        k as int,
                    ).len() && i != j implies names.take(k as int)[i] != names.take(k as int)[j] by {
                        if i < j {
                            assert(ps[i].0 != ps[j].0);
                        } else {
                            assert(ps[j].0 != ps[i].0);
                        }
                    }
                }
                names.take(k as int).unique_seq_to_set();
                assert(!value_entries(m).contains_key(names[k as int])) by {
                    if names.take(k as int).to_set().contains(names[k as int]) {
                        assert(names.take(k as int).contains(names[k as int]));
                        let j = choose|j: int| 0 <= j < k && names.take(k as int)[j] == names[k as int];
                        assert(ps[j].0 != ps[k as int].0);
                    }
                }
            }
            let key = match name_key(self.params[k].name.as_str()) {
                Ok(key) => key,
                Err(e) => {
                    proof {
                        lemma_overrides_err_extends(ps, k + 1);
                    }
                    return Err(e);
                },
            };
            if k >= MAX_BATCH_PARAMS {
                proof {
                    assert(value_entries(m).len() == k);
                    assert(overrides_spec(ps.take(k + 1)) == Err::<Map<Seq<char>, u64>, ErrSpec>(
                        overrides_full_err(),
                    ));
                    lemma_overrides_err_extends(ps, k + 1);
                }
                return Err(ExprError::CapacityExceeded("parameter overrides"));
            }
            let ins = m.insert(key, self.params[k].value);
            proof {
                assert(ins.is_ok());
                assert(names.take(k + 1) =~= names.take(k as int).push(names[k as int]));
                names.take(k as int).lemma_push_to_set_commute(names[k as int]);
                assert(value_entries(m).dom() =~= names.take(k + 1).to_set());
            }
            k = k + 1;
        }
        proof {
            assert(ps.take(k as int) =~= ps);
        }
        Ok(m)
    }

    /// Evaluates the expressions in order with the parameters, storing each result; the first
    /// failure stops it.
    fn run_all<N: Fn(NativeImpl, Vec<u64>) -> u64, L: Fn(String) -> u64, I: Fn(u64) -> usize>(
        exprs: &Vec<(String, AstExpr)>,
        results: &mut Vec<u64>,
        ctx: &EvalContext,
        env: &EvalEnv,
        native: &N,
        literal: &L,
        index: &I,
    ) -> (r: Result<(), ExprError>)
        requires
            old(results)@.len() == exprs@.len(),
            oracles_ok(*native, *literal, *index),
        ensures
            batch_outcome(
                *ctx,
                env@,
                Seq::new(exprs@.len(), |k: int| ast_view(exprs@[k].1)),
                old(results)@,
                final(results)@,
                match r {
                    Ok(()) => Ok(()),
                    Err(e) => Err(e@),
                },
                *native,
                *literal,
                *index,
            ),
    {
        let ghost asts = Seq::new(exprs@.len(), |k: int| ast_view(exprs@[k].1));
        let mut k: usize = 0;
        while k < exprs.len()
            invariant
                k <= exprs@.len(),
                asts == Seq::new(exprs@.len(), |k: int| ast_view(exprs@[k].1)),
                results@.len() == exprs@.len(),
                old(results)@.len() == exprs@.len(),
                oracles_ok(*native, *literal, *index),
                forall|j: int|
                    0 <= j < k ==> #[trigger] batch_value(*ctx, env@, asts[j], *native, *literal, *index)
                        == Ok::<u64, ErrSpec>(results@[j]),
                forall|j: int| k <= j < results@.len() ==> #[trigger] results@[j] == old(results)@[j],
            decreases exprs@.len() - k,
        {
            let mut scope: Vec<VariableMap> = Vec::new();
            proof {
                assert(scope_view(scope@) =~= Seq::<Map<Seq<char>, u64>>::empty());
            }
            let v = batch_eval_inner(ctx, env, &mut scope, &exprs[k].1, 0, 0, native, literal, index);
            match v {
                Ok(v) => {
                    results.set(k, v);
                },
                Err(e) => {
                    proof {
                        assert(batch_value(*ctx, env@, asts[k as int], *native, *literal, *index) == Err::<
                            u64,
                            ErrSpec,
                        >(e@));
                        assert(batch_outcome(
                            *ctx,
                            env@,
                            asts,
                            old(results)@,
                            results@,
                            Err::<(), ErrSpec>(e@),
                            *native,
                            *literal,
                            *index,
                        ));
                    }
                    return Err(e);
                },
            }
            k = k + 1;
        }
        Ok(())
    }

    /// Evaluates every expression in `base_ctx` with the current parameter values, storing the
    /// results.  The parameters are read before anything else; the local functions are called
    /// before any other.
    pub fn eval<N: Fn(NativeImpl, Vec<u64>) -> u64, L: Fn(String) -> u64, I: Fn(u64) -> usize>(
        &mut self,
        base_ctx: &Rc<EvalContext>,
        native: N,
        literal: L,
        index: I,
    ) -> (r: Result<(), ExprError>)
        requires
            old(self).wf(),
            oracles_ok(native, literal, index),
        ensures
            eval_post(*old(self), *final(self), **base_ctx, r, native, literal, index),
    {
        let overrides = match self.build_overrides() {
            Ok(m) => m,
            Err(e) => return Err(e),
        };
        let had = self.local_functions.is_some();
        let locals = match self.local_functions.take() {
            Some(l) => l,
            None => NameMap::<ExpressionFunction, 64>::new(),
        };
        let env = EvalEnv { overrides, locals };
        proof {
            assert(env@.locals =~= old(self).local_entries());
            assert(env@ == old(self).env_with(value_entries(overrides)));
            assert(Seq::new(self.expressions@.len(), |k: int| ast_view(self.expressions@[k].1))
                == old(self).asts());
        }
        let r = Self::run_all(&self.expressions, &mut self.results, &**base_ctx, &env, &native, &literal, &index);
        let EvalEnv { overrides: _, locals } = env;
        if had {
            self.local_functions = Some(locals);
        }
        proof {
            assert(self.local_entries() =~= old(self).local_entries());
            assert(self.params() == old(self).params());
        }
        r
    }

    /// The last result of the expression at `expr_idx`.
    pub fn get_result(&self, expr_idx: usize) -> (r: Option<u64>)
        ensures
            r == result_at(*self, expr_idx),
    {
        if expr_idx < self.results.len() {
            Some(self.results[expr_idx])
        } else {
            None
        }
    }

    /// The last results of all expressions.
    pub fn get_all_results(&self) -> (r: &[u64])
        ensures
            r@ == self.results(),
    {
        self.results.as_slice()
    }

    /// The number of parameters.
    pub fn param_count(&self) -> (n: usize)
        ensures
            n == self.params().len(),
    {
        self.params.len()
    }

    /// The number of expressions.
    pub fn expression_count(&self) -> (n: usize)
        ensures
            n == self.asts().len(),
    {
        self.expressions.len()
    }

    /// The parameter at `idx`.
    pub fn get_param(&self, idx: usize) -> (r: Option<&Param>)
        ensures
            param_at_post(*self, idx, r),
    {
        if idx < self.params.len() {
            Some(&self.params[idx])
        } else {
            None
        }
    }

    /// The parameter named `name`.
    pub fn get_param_by_name(&self, name: &str) -> (r: Option<&Param>)
        ensures
            param_named_post(*self, name@, r),
    {
        match self.find_param(name) {
            Some(k) => Some(&self.params[k]),
            None => None,
        }
    }

    /// Registers an expression function of this batch, called before any function of the
    /// context of the same name.  The body is kept as text and parsed when it is called.
    pub fn register_expression_function(&mut self, name: &str, params: &[&str], body: &str) -> (r: Result<
        (),
        ExprError,
    >)
        requires
            old(self).wf(),
        ensures
            register_post(*old(self), *final(self), name@, param_views(params), body@, r),
    {
        let mut map = match self.local_functions.take() {
            Some(m) => m,
            None => NameMap::<ExpressionFunction, 64>::new(),
        };
        let ghost m0 = expression_entries(map);
        proof {
            assert(m0 =~= old(self).local_entries());
        }
        let mut param_names: Vec<String> = Vec::new();
        let mut i: usize = 0;
        while i < params.len()
            invariant
                i <= params@.len(),
                param_names@.len() == i,
                forall|k: int| 0 <= k < i ==> (#[trigger] param_names@[k])@ == params@[k]@,
            decreases params@.len() - i,
        {
            param_names.push(String::from_str(params[i]));
            i = i + 1;
        }
        assert(crate::types::string_views(param_names@) =~= param_views(params));
        let key = match name_key(name) {
            Ok(k) => k,
            Err(e) => {
                self.local_functions = Some(map);
                proof {
                    assert(self.locals() =~= old(self).locals());
                }
                return Err(e);
            },
        };
        let f = ExpressionFunction {
            name: key.clone(),
            params: param_names,
            expression: String::from_str(body),
            description: None,
        };
        let ghost fv = f@;
        let ins = map.insert(key, f);
        self.local_functions = Some(map);
        proof {
            assert(m0.map_values(|f: ExpressionFunction| f@).dom() == m0.dom());
            if ins.is_ok() {
                assert(self.locals() =~= old(self).locals().insert(name@, fv));
            } else {
                assert(self.locals() =~= old(self).locals());
            }
        }
        match ins {
            Ok(()) => Ok(()),
            Err(()) => Err(ExprError::Other(String::from_str("Too many expression functions"))),
        }
    }

    /// Unregisters an expression function of this batch; tells whether it was registered.
    /// Before any local function is registered, every name is answered `false`.
    pub fn unregister_expression_function(&mut self, name: &str) -> (r: Result<bool, ExprError>)
        requires
            old(self).wf(),
        ensures
            unregister_post(*old(self), *final(self), name@, r),
    {
        match self.local_functions.take() {
            None => {
                proof {
                    assert(self.locals() =~= old(self).locals());
                }
                Ok(false)
            },
            Some(mut map) => {
                let ghost m0 = expression_entries(map);
                match name_key(name) {
                    Ok(_) => {},
                    Err(e) => {
                        self.local_functions = Some(map);
                        return Err(e);
                    },
                }
                let removed = map.remove(name);
                self.local_functions = Some(map);
                proof {
                    assert(self.locals() =~= old(self).locals().remove(name@));
                }
                Ok(removed)
            },
        }
    }

    /// Removes every expression, parameter and result, and empties the table of local
    /// functions, which stays made.
    pub fn clear(&mut self)
        requires
            old(self).wf(),
        ensures
            clear_post(*old(self), *final(self)),
    {
        self.expressions = Vec::new();
        self.params = Vec::new();
        self.results = Vec::new();
        if self.local_functions.is_some() {
            self.local_functions = Some(NameMap::<ExpressionFunction, 64>::new());
        }
        proof {
            assert(self.texts() =~= Seq::<Seq<char>>::empty());
            assert(self.asts() =~= Seq::<Ast>::empty());
            assert(self.params() =~= Seq::<(Seq<char>, u64)>::empty());
            assert(self.locals() =~= Map::<Seq<char>, ExpressionSpec>::empty());
        }
    }
}

} // verus!

verus! {

use crate::eval::is_default_context;

/// `bumpalo::Bump::allocated_bytes`: the bytes the arena has taken from the allocator.  It
/// depends on how the allocator served the arena, so nothing is said of it.
#[verifier::external_body]
fn arena_bytes(arena: &bumpalo::Bump) -> usize {
    arena.allocated_bytes()
}

/// The parameters named in a list, added one after the other: the first name given twice
/// stops it.
pub open spec fn add_all_spec(ps: Seq<(Seq<char>, u64)>) -> Result<Seq<(Seq<char>, u64)>, ErrSpec>
    decreases ps.len(),
{
    if ps.len() == 0 {
        Ok(Seq::empty())
    } else {
        match add_all_spec(ps.drop_last()) {
            Err(e) => Err(e),
            Ok(q) => if has_name(q, ps.last().0) {
                Err(ErrSpec::DuplicateParameter(ps.last().0))
            } else {
                Ok(q.push(ps.last()))
            },
        }
    }
}

/// The value of one expression evaluated alone in a context with the given parameters and no
/// local functions.
pub open spec fn single_value<N: Fn(NativeImpl, Vec<u64>) -> u64, L: Fn(String) -> u64, I: Fn(u64) -> usize>(
    ctx: EvalContext,
    params: Seq<(Seq<char>, u64)>,
    text: Seq<char>,
    n: N,
    l: L,
    i: I,
) -> Result<u64, ErrSpec> {
    match parse_text_spec(text, None, None) {
        Err(e) => Err(e),
        Ok(a) => match overrides_spec(params) {
            Err(e) => Err(e),
            Ok(m) => batch_value(ctx, Env { overrides: m, locals: Map::empty() }, a, n, l, i),
        },
    }
}

pub open spec fn value_result_view(r: Result<u64, ExprError>) -> Result<u64, ErrSpec> {
    match r {
        Ok(v) => Ok(v),
        Err(e) => Err(e@),
    }
}

pub open spec fn one_expression_err() -> ErrSpec {
    ErrSpec::Other("eval_single requires exactly one expression"@)
}

/// What evaluating the one expression of a batch does.
pub open spec fn eval_single_post<N: Fn(NativeImpl, Vec<u64>) -> u64, L: Fn(String) -> u64, I: Fn(u64) -> usize>(
    old: BatchCore,
    new: BatchCore,
    ctx: EvalContext,
    r: Result<u64, ExprError>,
    n: N,
    l: L,
    i: I,
) -> bool {
    &&& new.wf()
    &&& new.texts() == old.texts()
    &&& new.asts() == old.asts()
    &&& new.params() == old.params()
    &&& same_locals(old, new)
    &&& if old.asts().len() != 1 {
        &&& r.is_err()
        &&& r->Err_0@ == one_expression_err()
        &&& new.results() == old.results()
    } else {
        &&& value_result_view(r) == match overrides_spec(old.params()) {
            Err(e) => Err(e),
            Ok(m) => batch_value(ctx, old.env_with(m), old.asts()[0], n, l, i),
        }
        &&& new.results() == match r {
            Ok(v) => seq![v],
            Err(_) => old.results(),
        }
    }
}

impl BatchCore {
    /// Evaluates the one expression of the batch and gives its value; refused where the batch
    /// holds another number of expressions.
    pub fn eval_single<N: Fn(NativeImpl, Vec<u64>) -> u64, L: Fn(String) -> u64, I: Fn(u64) -> usize>(
        &mut self,
        ctx: &Rc<EvalContext>,
        native: N,
        literal: L,
        index: I,
    ) -> (r: Result<u64, ExprError>)
        requires
            old(self).wf(),
            oracles_ok(native, literal, index),
        ensures
            eval_single_post(*old(self), *final(self), **ctx, r, native, literal, index),
    {
        if self.expressions.len() != 1 {
            return Err(ExprError::Other(String::from_str("eval_single requires exactly one expression")));
        }
        match self.eval(ctx, native, literal, index) {
            Ok(()) => {},
            Err(e) => {
                proof {
                    assert(self.results() =~= old(self).results());
                }
                return Err(e);
            },
        }
        match self.get_result(0) {
            Some(v) => {
                proof {
                    assert(self.results() =~= seq![v]);
                }
                Ok(v)
            },
            None => Err(ExprError::Other(String::from_str("No result"))),
        }
    }
}

/// Builds a batch of one expression; refused where the expression does not parse.
fn single_batch(expr: &str) -> (r: Result<BatchCore, ExprError>)
    ensures
        match parse_text_spec(expr@, None, None) {
            Err(e) => r.is_err() && r->Err_0@ == e,
            Ok(a) => {
                &&& r.is_ok()
                &&& r.unwrap().wf()
                &&& r.unwrap().texts() == seq![expr@]
                &&& r.unwrap().asts() == seq![a]
                &&& r.unwrap().results() == seq![0u64]
                &&& r.unwrap().params() == Seq::<(Seq<char>, u64)>::empty()
                &&& !r.unwrap().has_locals()
            },
        },
{
    let mut b = BatchCore::new();
    match b.add_expression(expr) {
        Ok(_) => {},
        Err(e) => return Err(e),
    }
    proof {
        assert(b.texts() =~= seq![expr@]);
        assert(b.results() =~= seq![0u64]);
    }
    Ok(b)
}

/// Evaluates one expression in a context with the given parameters.
fn eval_one<N: Fn(NativeImpl, Vec<u64>) -> u64, L: Fn(String) -> u64, I: Fn(u64) -> usize>(
    expr: &str,
    params: &[(&str, u64)],
    ctx: &Rc<EvalContext>,
    native: N,
    literal: L,
    index: I,
) -> (r: Result<u64, ExprError>)
    requires
        oracles_ok(native, literal, index),
    ensures
        value_result_view(r) == match add_all_spec(Seq::new(params@.len(), |k: int| (params@[k].0@, params@[k].1))) {
            Err(e) => Err(e),
            Ok(q) => single_value(**ctx, q, expr@, native, literal, index),
        },
{
    let ghost pairs = Seq::new(params@.len(), |k: int| (params@[k].0@, params@[k].1));
    let mut b = BatchCore::new();
    let mut k: usize = 0;
    proof {
        assert(pairs.take(0) =~= Seq::<(Seq<char>, u64)>::empty());
    }
    while k < params.len()
        invariant
            k <= params@.len(),
            pairs == Seq::new(params@.len(), |k: int| (params@[k].0@, params@[k].1)),
            add_all_spec(pairs.take(k as int)) == Ok::<Seq<(Seq<char>, u64)>, ErrSpec>(b.params()),
            b.wf(),
            b.asts() == Seq::<Ast>::empty(),
            b.texts() == Seq::<Seq<char>>::empty(),
            b.results() == Seq::<u64>::empty(),
            !b.has_locals(),
            b.local_entries() == Map::<Seq<char>, ExpressionFunction>::empty(),
        decreases params@.len() - k,
    {
        proof {
            assert(pairs.take(k + 1).drop_last() =~= pairs.take(k as int));
            assert(pairs.take(k + 1).last() == pairs[k as int]);
        }
        let (name, value) = params[k];
        match b.add_parameter(name, value) {
            Ok(_) => {},
            Err(e) => {
                proof {
                    lemma_add_all_err_extends(pairs, k + 1);
                }
                return Err(e);
            },
        }
        k = k + 1;
    }
    proof {
        assert(pairs.take(k as int) =~= pairs);
    }
    match b.add_expression(expr) {
        Ok(_) => {},
        Err(e) => return Err(e),
    }
    proof {
        assert(b.asts() =~= seq![b.asts()[0]]);
        assert(b.env_with(Map::empty()).locals == Map::<Seq<char>, ExpressionFunction>::empty());
    }
    match b.eval_single(ctx, native, literal, index) {
        Ok(v) => Ok(v),
        Err(e) => Err(e),
    }
}

/// Once adding the parameters fails on a prefix of the list, it fails on the whole list with
/// the same error.
proof fn lemma_add_all_err_extends(ps: Seq<(Seq<char>, u64)>, k: int)
    requires
        0 <= k <= ps.len(),
        add_all_spec(ps.take(k)) is Err,
    ensures
        add_all_spec(ps) == add_all_spec(ps.take(k)),
    decreases ps.len(),
{
    if k == ps.len() {
        assert(ps.take(k) =~= ps);
    } else {
        assert(ps.drop_last().take(k) =~= ps.take(k));
        lemma_add_all_err_extends(ps.drop_last(), k);
    }
}

} // verus!

verus! {

/// Expressions parsed once and evaluated together with parameters that they share.
pub struct BatchBuilder {
    batch: BatchCore,
}

impl BatchBuilder {
    /// An empty batch.
    pub fn new() -> (b: Self)
        ensures
            is_empty_batch(b.batch()),
    {
        BatchBuilder { batch: BatchCore::new() }
    }

    /// This builder's batch.
    pub closed spec fn batch(&self) -> BatchCore {
        self.batch
    }

    /// Parses an expression and adds it, with a result slot of zero; gives its index.
    pub fn add_expression(&mut self, expr: &str) -> (r: Result<usize, ExprError>)
        requires
            old(self).batch().wf(),
        ensures
            add_expression_post(old(self).batch(), final(self).batch(), expr@, r),
    {
        self.batch.add_expression(expr)
    }

    /// Adds a parameter with its first value and gives its index; refused where a parameter
    /// of that name exists.
    pub fn add_parameter(&mut self, name: &str, initial_value: u64) -> (r: Result<usize, ExprError>)
        requires
            old(self).batch().wf(),
        ensures
            add_parameter_post(old(self).batch(), final(self).batch(), name@, initial_value, r),
    {
        self.batch.add_parameter(name, initial_value)
    }

    /// Sets the value of the parameter at `idx`; refused past the last parameter.
    pub fn set_param(&mut self, idx: usize, value: u64) -> (r: Result<(), ExprError>)
        requires
            old(self).batch().wf(),
        ensures
            set_param_post(old(self).batch(), final(self).batch(), idx, value, r),
    {
        self.batch.set_param(idx, value)
    }

    /// Sets the value of the parameter named `name`; refused where there is none.
    pub fn set_param_by_name(&mut self, name: &str, value: u64) -> (r: Result<(), ExprError>)
        requires
            old(self).batch().wf(),
        ensures
            set_param_by_name_post(old(self).batch(), final(self).batch(), name@, value, r),
    {
        self.batch.set_param_by_name(name, value)
    }

    /// Evaluates every expression in `base_ctx` with the current parameter values, storing the
    /// results; the first failure stops it.
    pub fn eval<N: Fn(NativeImpl, Vec<u64>) -> u64, L: Fn(String) -> u64, I: Fn(u64) -> usize>(
        &mut self,
        base_ctx: &Rc<EvalContext>,
        native: N,
        literal: L,
        index: I,
    ) -> (r: Result<(), ExprError>)
        requires
            old(self).batch().wf(),
            oracles_ok(native, literal, index),
        ensures
            eval_post(old(self).batch(), final(self).batch(), **base_ctx, r, native, literal, index),
    {
        self.batch.eval(base_ctx, native, literal, index)
    }

    /// The last result of the expression at `expr_idx`.
    pub fn get_result(&self, expr_idx: usize) -> (r: Option<u64>)
        ensures
            r == result_at(self.batch(), expr_idx),
    {
        self.batch.get_result(expr_idx)
    }

    /// The last results of all expressions.
    pub fn get_all_results(&self) -> (r: &[u64])
        ensures
            r@ == self.batch().results(),
    {
        self.batch.get_all_results()
    }

    /// The number of parameters.
    pub fn param_count(&self) -> (n: usize)
        ensures
            n == self.batch().params().len(),
    {
        self.batch.param_count()
    }

    /// The number of expressions.
    pub fn expression_count(&self) -> (n: usize)
        ensures
            n == self.batch().asts().len(),
    {
        self.batch.expression_count()
    }

    /// The parameter at `idx`.
    pub fn get_param(&self, idx: usize) -> (r: Option<&Param>)
        ensures
            param_at_post(self.batch(), idx, r),
    {
        self.batch.get_param(idx)
    }

    /// The parameter named `name`.
    pub fn get_param_by_name(&self, name: &str) -> (r: Option<&Param>)
        ensures
            param_named_post(self.batch(), name@, r),
    {
        self.batch.get_param_by_name(name)
    }
}

impl Default for BatchBuilder {
    fn default() -> (b: Self)
        ensures
            is_empty_batch(b.batch()),
    {
        BatchBuilder::new()
    }
}

/// A batch of expressions, with parameters and local expression functions, tied to an arena.
pub struct Expression<'arena> {
    arena: &'arena bumpalo::Bump,
    batch: BatchCore,
}

impl<'arena> Expression<'arena> {
    /// The arena of the batch.
    pub closed spec fn arena(&self) -> &'arena bumpalo::Bump {
        self.arena
    }

    /// An empty batch tied to `arena`.
    pub fn new(arena: &'arena bumpalo::Bump) -> (b: Self)
        ensures
            is_empty_batch(b.batch()),
            b.arena() == arena,
    {
        Expression { arena, batch: BatchCore::new() }
    }

    /// This batch's batch.
    pub closed spec fn batch(&self) -> BatchCore {
        self.batch
    }

    /// Parses an expression and adds it, with a result slot of zero; gives its index.
    pub fn add_expression(&mut self, expr: &str) -> (r: Result<usize, ExprError>)
        requires
            old(self).batch().wf(),
        ensures
            add_expression_post(old(self).batch(), final(self).batch(), expr@, r),
            final(self).arena() == old(self).arena(),
    {
        self.batch.add_expression(expr)
    }

    /// Adds a parameter with its first value and gives its index; refused where a parameter
    /// of that name exists.
    pub fn add_parameter(&mut self, name: &str, initial_value: u64) -> (r: Result<usize, ExprError>)
        requires
            old(self).batch().wf(),
        ensures
            add_parameter_post(old(self).batch(), final(self).batch(), name@, initial_value, r),
            final(self).arena() == old(self).arena(),
    {
        self.batch.add_parameter(name, initial_value)
    }

    /// Sets the value of the parameter at `idx`; refused past the last parameter.
    pub fn set_param(&mut self, idx: usize, value: u64) -> (r: Result<(), ExprError>)
        requires
            old(self).batch().wf(),
        ensures
            set_param_post(old(self).batch(), final(self).batch(), idx, value, r),
            final(self).arena() == old(self).arena(),
    {
        self.batch.set_param(idx, value)
    }

    /// Sets the value of the parameter named `name`; refused where there is none.
    pub fn set_param_by_name(&mut self, name: &str, value: u64) -> (r: Result<(), ExprError>)
        requires
            old(self).batch().wf(),
        ensures
            set_param_by_name_post(old(self).batch(), final(self).batch(), name@, value, r),
            final(self).arena() == old(self).arena(),
    {
        self.batch.set_param_by_name(name, value)
    }

    /// Evaluates every expression in `base_ctx` with the current parameter values, storing the
    /// results; the first failure stops it.
    pub fn eval<N: Fn(NativeImpl, Vec<u64>) -> u64, L: Fn(String) -> u64, I: Fn(u64) -> usize>(
        &mut self,
        base_ctx: &Rc<EvalContext>,
        native: N,
        literal: L,
        index: I,
    ) -> (r: Result<(), ExprError>)
        requires
            old(self).batch().wf(),
            oracles_ok(native, literal, index),
        ensures
            eval_post(old(self).batch(), final(self).batch(), **base_ctx, r, native, literal, index),
            final(self).arena() == old(self).arena(),
    {
        self.batch.eval(base_ctx, native, literal, index)
    }

    /// The last result of the expression at `expr_idx`.
    pub fn get_result(&self, expr_idx: usize) -> (r: Option<u64>)
        ensures
            r == result_at(self.batch(), expr_idx),
    {
        self.batch.get_result(expr_idx)
    }

    /// The last results of all expressions.
    pub fn get_all_results(&self) -> (r: &[u64])
        ensures
            r@ == self.batch().results(),
    {
        self.batch.get_all_results()
    }

    /// The number of parameters.
    pub fn param_count(&self) -> (n: usize)
        ensures
            n == self.batch().params().len(),
    {
        self.batch.param_count()
    }

    /// The number of expressions.
    pub fn expression_count(&self) -> (n: usize)
        ensures
            n == self.batch().asts().len(),
    {
        self.batch.expression_count()
    }

    /// The parameter at `idx`.
    pub fn get_param(&self, idx: usize) -> (r: Option<&Param>)
        ensures
            param_at_post(self.batch(), idx, r),
    {
        self.batch.get_param(idx)
    }

    /// The parameter named `name`.
    pub fn get_param_by_name(&self, name: &str) -> (r: Option<&Param>)
        ensures
            param_named_post(self.batch(), name@, r),
    {
        self.batch.get_param_by_name(name)
    }

    /// Registers an expression function of this batch, called before any function of the
    /// context of the same name.
    pub fn register_expression_function(&mut self, name: &str, params: &[&str], body: &str) -> (r: Result<
        (),
        ExprError,
    >)
        requires
            old(self).batch().wf(),
        ensures
            register_post(old(self).batch(), final(self).batch(), name@, param_views(params), body@, r),
            final(self).arena() == old(self).arena(),
    {
        self.batch.register_expression_function(name, params, body)
    }

    /// Unregisters an expression function of this batch; tells whether it was registered.
    pub fn unregister_expression_function(&mut self, name: &str) -> (r: Result<bool, ExprError>)
        requires
            old(self).batch().wf(),
        ensures
            unregister_post(old(self).batch(), final(self).batch(), name@, r),
            final(self).arena() == old(self).arena(),
    {
        self.batch.unregister_expression_function(name)
    }

    /// A batch of the one expression `expr`; refused where it does not parse.
    pub fn parse(expr: &str, arena: &'arena bumpalo::Bump) -> (r: Result<Self, ExprError>)
        ensures
            match parse_text_spec(expr@, None, None) {
                Err(e) => r.is_err() && r->Err_0@ == e,
                Ok(a) => {
                    &&& r.is_ok()
                    &&& r.unwrap().batch().wf()
                    &&& r.unwrap().batch().texts() == seq![expr@]
                    &&& r.unwrap().batch().asts() == seq![a]
                    &&& r.unwrap().batch().results() == seq![0u64]
                    &&& r.unwrap().batch().params() == Seq::<(Seq<char>, u64)>::empty()
                    &&& !r.unwrap().batch().has_locals()
                    &&& r.unwrap().arena() == arena
                },
            },
    {
        match single_batch(expr) {
            Ok(batch) => Ok(Expression { arena, batch }),
            Err(e) => Err(e),
        }
    }

    /// The value of an expression in a new context (the one `EvalContext::new` makes).
    pub fn eval_simple<N: Fn(NativeImpl, Vec<u64>) -> u64, L: Fn(String) -> u64, I: Fn(u64) -> usize>(
        expr: &str,
        arena: &'arena bumpalo::Bump,
        native: N,
        literal: L,
        index: I,
    ) -> (r: Result<u64, ExprError>)
        requires
            oracles_ok(native, literal, index),
        ensures
            exists|c: EvalContext|
                is_default_context(c) && value_result_view(r) == #[trigger] single_value(
                    c,
                    Seq::empty(),
                    expr@,
                    native,
                    literal,
                    index,
                ),
    {
        let ctx = Rc::new(EvalContext::new());
        let r = Self::eval_with_context(expr, &ctx, arena, native, literal, index);
        proof {
            assert(is_default_context(*ctx));
        }
        r
    }

    /// The value of an expression in a context.
    pub fn eval_with_context<N: Fn(NativeImpl, Vec<u64>) -> u64, L: Fn(String) -> u64, I: Fn(u64) -> usize>(
        expr: &str,
        ctx: &Rc<EvalContext>,
        arena: &'arena bumpalo::Bump,
        native: N,
        literal: L,
        index: I,
    ) -> (r: Result<u64, ExprError>)
        requires
            oracles_ok(native, literal, index),
        ensures
            value_result_view(r) == single_value(**ctx, Seq::empty(), expr@, native, literal, index),
    {
        let none: [(&str, u64); 0] = [];
        let r = eval_one(expr, &none, ctx, native, literal, index);
        proof {
            assert(Seq::new(none@.len(), |k: int| (none@[k].0@, none@[k].1)) =~= Seq::<(Seq<char>, u64)>::empty());
        }
        r
    }

    /// The value of an expression in a context with the given parameters; refused where a
    /// name is given twice.
    pub fn eval_with_params<N: Fn(NativeImpl, Vec<u64>) -> u64, L: Fn(String) -> u64, I: Fn(u64) -> usize>(
        expr: &str,
        params: &[(&str, u64)],
        ctx: &Rc<EvalContext>,
        arena: &'arena bumpalo::Bump,
        native: N,
        literal: L,
        index: I,
    ) -> (r: Result<u64, ExprError>)
        requires
            oracles_ok(native, literal, index),
        ensures
            value_result_view(r) == match add_all_spec(Seq::new(params@.len(), |k: int| (params@[k].0@, params@[k].1))) {
                Err(e) => Err(e),
                Ok(q) => single_value(**ctx, q, expr@, native, literal, index),
            },
    {
        eval_one(expr, params, ctx, native, literal, index)
    }

    /// Evaluates the one expression of the batch and gives its value; refused where the batch
    /// holds another number of expressions.
    pub fn eval_single<N: Fn(NativeImpl, Vec<u64>) -> u64, L: Fn(String) -> u64, I: Fn(u64) -> usize>(
        &mut self,
        ctx: &Rc<EvalContext>,
        native: N,
        literal: L,
        index: I,
    ) -> (r: Result<u64, ExprError>)
        requires
            old(self).batch().wf(),
            oracles_ok(native, literal, index),
        ensures
            eval_single_post(old(self).batch(), final(self).batch(), **ctx, r, native, literal, index),
            final(self).arena() == old(self).arena(),
    {
        self.batch.eval_single(ctx, native, literal, index)
    }

    /// Sets the value of the parameter named `name`, as `set_param_by_name` does.
    pub fn set(&mut self, name: &str, value: u64) -> (r: Result<(), ExprError>)
        requires
            old(self).batch().wf(),
        ensures
            set_param_by_name_post(old(self).batch(), final(self).batch(), name@, value, r),
            final(self).arena() == old(self).arena(),
    {
        self.batch.set_param_by_name(name, value)
    }
}

/// A batch of expressions, with parameters and local expression functions, whose memory comes
/// from an arena.
pub struct ArenaBatchBuilder<'arena> {
    arena: &'arena bumpalo::Bump,
    batch: BatchCore,
}

impl<'arena> ArenaBatchBuilder<'arena> {
    /// The arena of the batch.
    pub closed spec fn arena(&self) -> &'arena bumpalo::Bump {
        self.arena
    }

    /// An empty batch tied to `arena`.
    pub fn new(arena: &'arena bumpalo::Bump) -> (b: Self)
        ensures
            is_empty_batch(b.batch()),
            b.arena() == arena,
    {
        ArenaBatchBuilder { arena, batch: BatchCore::new() }
    }

    /// This batch's batch.
    pub closed spec fn batch(&self) -> BatchCore {
        self.batch
    }

    /// Parses an expression and adds it, with a result slot of zero; gives its index.
    pub fn add_expression(&mut self, expr: &str) -> (r: Result<usize, ExprError>)
        requires
            old(self).batch().wf(),
        ensures
            add_expression_post(old(self).batch(), final(self).batch(), expr@, r),
            final(self).arena() == old(self).arena(),
    {
        self.batch.add_expression(expr)
    }

    /// Adds a parameter with its first value and gives its index; refused where a parameter
    /// of that name exists.
    pub fn add_parameter(&mut self, name: &str, initial_value: u64) -> (r: Result<usize, ExprError>)
        requires
            old(self).batch().wf(),
        ensures
            add_parameter_post(old(self).batch(), final(self).batch(), name@, initial_value, r),
            final(self).arena() == old(self).arena(),
    {
        self.batch.add_parameter(name, initial_value)
    }

    /// Sets the value of the parameter at `idx`; refused past the last parameter.
    pub fn set_param(&mut self, idx: usize, value: u64) -> (r: Result<(), ExprError>)
        requires
            old(self).batch().wf(),
        ensures
            set_param_post(old(self).batch(), final(self).batch(), idx, value, r),
            final(self).arena() == old(self).arena(),
    {
        self.batch.set_param(idx, value)
    }

    /// Sets the value of the parameter named `name`; refused where there is none.
    pub fn set_param_by_name(&mut self, name: &str, value: u64) -> (r: Result<(), ExprError>)
        requires
            old(self).batch().wf(),
        ensures
            set_param_by_name_post(old(self).batch(), final(self).batch(), name@, value, r),
            final(self).arena() == old(self).arena(),
    {
        self.batch.set_param_by_name(name, value)
    }

    /// Evaluates every expression in `base_ctx` with the current parameter values, storing the
    /// results; the first failure stops it.
    pub fn eval<N: Fn(NativeImpl, Vec<u64>) -> u64, L: Fn(String) -> u64, I: Fn(u64) -> usize>(
        &mut self,
        base_ctx: &Rc<EvalContext>,
        native: N,
        literal: L,
        index: I,
    ) -> (r: Result<(), ExprError>)
        requires
            old(self).batch().wf(),
            oracles_ok(native, literal, index),
        ensures
            eval_post(old(self).batch(), final(self).batch(), **base_ctx, r, native, literal, index),
            final(self).arena() == old(self).arena(),
    {
        self.batch.eval(base_ctx, native, literal, index)
    }

    /// The last result of the expression at `expr_idx`.
    pub fn get_result(&self, expr_idx: usize) -> (r: Option<u64>)
        ensures
            r == result_at(self.batch(), expr_idx),
    {
        self.batch.get_result(expr_idx)
    }

    /// The last results of all expressions.
    pub fn get_all_results(&self) -> (r: &[u64])
        ensures
            r@ == self.batch().results(),
    {
        self.batch.get_all_results()
    }

    /// The number of parameters.
    pub fn param_count(&self) -> (n: usize)
        ensures
            n == self.batch().params().len(),
    {
        self.batch.param_count()
    }

    /// The number of expressions.
    pub fn expression_count(&self) -> (n: usize)
        ensures
            n == self.batch().asts().len(),
    {
        self.batch.expression_count()
    }

    /// Registers an expression function of this batch, called before any function of the
    /// context of the same name.
    pub fn register_expression_function(&mut self, name: &str, params: &[&str], body: &str) -> (r: Result<
        (),
        ExprError,
    >)
        requires
            old(self).batch().wf(),
        ensures
            register_post(old(self).batch(), final(self).batch(), name@, param_views(params), body@, r),
            final(self).arena() == old(self).arena(),
    {
        self.batch.register_expression_function(name, params, body)
    }

    /// Unregisters an expression function of this batch; tells whether it was registered.
    pub fn unregister_expression_function(&mut self, name: &str) -> (r: Result<bool, ExprError>)
        requires
            old(self).batch().wf(),
        ensures
            unregister_post(old(self).batch(), final(self).batch(), name@, r),
            final(self).arena() == old(self).arena(),
    {
        self.batch.unregister_expression_function(name)
    }

    /// The bytes the arena has taken from the allocator.
    pub fn arena_allocated_bytes(&self) -> usize {
        arena_bytes(self.arena)
    }

    /// Removes every expression, parameter and result, and empties the table of local
    /// functions.
    pub fn clear(&mut self)
        requires
            old(self).batch().wf(),
        ensures
            clear_post(old(self).batch(), final(self).batch()),
            final(self).arena() == old(self).arena(),
    {
        self.batch.clear()
    }
}

} // verus!

verus! {

/// Parsing an expression into a batch of its own, adding parameters and evaluating it alone
/// gives what evaluating the expression with those parameters gives.
pub proof fn law_eval_single_matches_eval_with_params<N: Fn(NativeImpl, Vec<u64>) -> u64, L: Fn(String) -> u64, I: Fn(u64) -> usize>(
    old: BatchCore,
    new: BatchCore,
    ctx: EvalContext,
    text: Seq<char>,
    r: Result<u64, ExprError>,
    n: N,
    l: L,
    i: I,
)
    requires
        old.wf(),
        !old.has_locals(),
        parse_text_spec(text, None, None) is Ok,
        old.asts() == seq![parse_text_spec(text, None, None)->Ok_0],
        eval_single_post(old, new, ctx, r, n, l, i),
    ensures
        value_result_view(r) == single_value(ctx, old.params(), text, n, l, i),
{
    assert(old.local_entries() == Map::<Seq<char>, ExpressionFunction>::empty());
}

/// A parameter set by its name reads back, by its name, the value it was set to.
pub proof fn law_param_read_after_set(
    old: BatchCore,
    new: BatchCore,
    name: Seq<char>,
    value: u64,
    r: Result<(), ExprError>,
    got: Option<&Param>,
)
    requires
        old.wf(),
        has_name(old.params(), name),
        set_param_by_name_post(old, new, name, value, r),
        param_named_post(new, name, got),
    ensures
        got.is_some(),
        got.unwrap().value == value,
{
    let k = choose|k: int|
        0 <= k < old.params().len() && #[trigger] old.params()[k].0 == name && new.params()
            == old.params().update(k, (name, value));
    assert(new.params()[k] == (name, value));
    assert(new.params()[k].0 == name);
    assert(has_name(new.params(), name));
    let j = choose|j: int| 0 <= j < new.params().len() && #[trigger] new.params()[j] == (name, got.unwrap().value);
    if j != k {
        if j < k {
            assert(new.params()[j].0 != new.params()[k].0);
        } else {
            assert(new.params()[k].0 != new.params()[j].0);
        }
    }
}

} // verus!
