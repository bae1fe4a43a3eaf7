use vstd::prelude::*;
use crate::types::{Ast, AstExpr, ast_view, args_view, string_views};
use crate::context::{
    EvalContext, lookup_variable, lookup_constant, lookup_native, lookup_expression,
};
use crate::engine::{lemma_args_view_index, lemma_args_view_len};

verus! {

/// Findings of checking an expression function before it is registered.
pub struct ExpressionValidationReport {
    /// Whether the expression is syntactically valid.
    pub syntax_valid: bool,
    /// The syntax error, if any.
    pub syntax_error: Option<String>,
    /// Functions that the expression calls and that nothing defines.
    pub undefined_functions: Vec<String>,
    /// Calls with another number of arguments than the function takes: (name, used, expected).
    pub arity_warnings: Vec<(String, usize, Option<usize>)>,
    /// Variables that the expression reads and that nothing defines (parameters excepted).
    pub undefined_variables: Vec<String>,
    /// Parameters that the expression does not use.
    pub unused_parameters: Vec<String>,
    /// Whether the semantic checks were made.
    pub semantic_validated: bool,
}

pub type ArityWarning = (Seq<char>, nat, Option<nat>);

/// What the semantic checks collect while they walk an expression.
pub struct Findings {
    pub undefined_variables: Seq<Seq<char>>,
    pub undefined_functions: Seq<Seq<char>>,
    pub arity_warnings: Seq<ArityWarning>,
    pub used: Set<Seq<char>>,
}

pub open spec fn opt_usize_view(o: Option<usize>) -> Option<nat> {
    match o {
        Some(n) => Some(n as nat),
        None => None,
    }
}

pub open spec fn arity_views(v: Seq<(String, usize, Option<usize>)>) -> Seq<ArityWarning> {
    Seq::new(v.len(), |i: int| (v[i].0@, v[i].1 as nat, opt_usize_view(v[i].2)))
}

pub open spec fn findings_of(r: ExpressionValidationReport, used: Seq<String>) -> Findings {
    Findings {
        undefined_variables: string_views(r.undefined_variables@),
        undefined_functions: string_views(r.undefined_functions@),
        arity_warnings: arity_views(r.arity_warnings@),
        used: string_views(used).to_set(),
    }
}

/// The number of arguments of the math functions that need no registration to be known.
pub open spec fn builtin_arity(name: Seq<char>) -> Option<nat> {
    if name == "sin"@ || name == "cos"@ || name == "tan"@ || name == "asin"@ || name == "acos"@
        || name == "atan"@ || name == "sinh"@ || name == "cosh"@ || name == "tanh"@ || name
        == "exp"@ || name == "ln"@ || name == "log"@ || name == "log10"@ || name == "sqrt"@
        || name == "ceil"@ || name == "floor"@ || name == "round"@ || name == "abs"@ || name
        == "sign"@ {
        Some(1)
    } else if name == "pow"@ || name == "atan2"@ || name == "min"@ || name == "max"@ || name
        == "fmod"@ {
        Some(2)
    } else if name == "pi"@ || name == "e"@ {
        Some(0)
    } else {
        None
    }
}

/// The number of arguments that a function called `name` takes, if anything defines it.
pub open spec fn expected_arity(ctx: EvalContext, name: Seq<char>) -> Option<nat> {
    match lookup_native(ctx, name) {
        Some(f) => Some(f.arity as nat),
        None => match lookup_expression(ctx, name) {
            Some(f) => Some(f.params.len() as nat),
            None => builtin_arity(name),
        },
    }
}

/// A name that the context defines as a variable or a constant.
pub open spec fn defines_value(ctx: EvalContext, name: Seq<char>) -> bool {
    lookup_variable(ctx, name).is_some() || lookup_constant(ctx, name).is_some()
}

/// The findings after checking one node and then its children, left to right.
pub open spec fn check_node(ctx: EvalContext, params: Seq<Seq<char>>, e: Ast, f: Findings) -> Findings
    decreases e,
{
    match e {
        Ast::Constant(_) => f,
        Ast::Variable(n) => if params.contains(n) {
            Findings { used: f.used.insert(n), ..f }
        } else if !defines_value(ctx, n) && lookup_native(ctx, n).is_none() && lookup_expression(
            ctx,
            n,
        ).is_none() {
            Findings { undefined_variables: f.undefined_variables.push(n), ..f }
        } else {
            f
        },
        Ast::Function(n, args) => {
            let f1 = if expected_arity(ctx, n).is_none() {
                Findings { undefined_functions: f.undefined_functions.push(n), ..f }
            } else {
                f
            };
            let f2 = match expected_arity(ctx, n) {
                Some(x) => if args.len() != x {
                    Findings {
                        arity_warnings: f1.arity_warnings.push((n, args.len(), Some(x))),
                        ..f1
                    }
                } else {
                    f1
                },
                None => f1,
            };
            check_args(ctx, params, args, f2)
        },
        Ast::Array(_, index) => check_node(ctx, params, *index, f),
        Ast::Attribute(base, _) => if params.contains(base) {
            Findings { used: f.used.insert(base), ..f }
        } else if !defines_value(ctx, base) {
            Findings { undefined_variables: f.undefined_variables.push(base), ..f }
        } else {
            f
        },
        Ast::LogicalOp(_, l, r) => check_node(ctx, params, *r, check_node(ctx, params, *l, f)),
        Ast::Conditional(c, t, el) => check_node(
            ctx,
            params,
            *el,
            check_node(ctx, params, *t, check_node(ctx, params, *c, f)),
        ),
    }
}

pub open spec fn check_args(ctx: EvalContext, params: Seq<Seq<char>>, args: Seq<Ast>, f: Findings) -> Findings
    decreases args,
{
    if args.len() == 0 {
        f
    } else {
        check_args(ctx, params, args.drop_first(), check_node(ctx, params, args[0], f))
    }
}

/// The parameters that were not used, in order.
pub open spec fn unused(params: Seq<Seq<char>>, used: Set<Seq<char>>) -> Seq<Seq<char>> {
    params.filter(|p: Seq<char>| !used.contains(p))
}

} // verus!

verus! {

pub proof fn lemma_string_views_push(v: Seq<String>, x: String)
    ensures
        string_views(v.push(x)) == string_views(v).push(x@),
{
    assert(string_views(v.push(x)) =~= string_views(v).push(x@));
}

pub proof fn lemma_arity_views_push(v: Seq<(String, usize, Option<usize>)>, x: (String, usize, Option<usize>))
    ensures
        arity_views(v.push(x)) == arity_views(v).push((x.0@, x.1 as nat, opt_usize_view(x.2))),
{
    assert(arity_views(v.push(x)) =~= arity_views(v).push((x.0@, x.1 as nat, opt_usize_view(x.2))));
}

fn slice_contains(v: &[String], name: &String) -> (b: bool)
    ensures
        b == string_views(v@).contains(name@),
{
    let mut i: usize = 0;
    while i < v.len()
        invariant
            i <= v@.len(),
            forall|k: int| 0 <= k < i ==> (#[trigger] v@[k])@ != name@,
        decreases v@.len() - i,
    {
        if v[i] == *name {
            assert(string_views(v@)[i as int] == name@);
            return true;
        }
        i = i + 1;
    }
    assert forall|k: int| 0 <= k < string_views(v@).len() implies string_views(v@)[k] != name@ by {
        assert(v@[k]@ != name@);
    }
    false
}

fn vec_contains(v: &Vec<String>, name: &String) -> (b: bool)
    ensures
        b == string_views(v@).contains(name@),
{
    slice_contains(v.as_slice(), name)
}

/// The number of arguments of a math function that needs no registration to be known.
pub fn builtin_arity_of(name: &str) -> (r: Option<usize>)
    ensures
        opt_usize_view(r) == builtin_arity(name@),
{
    if str_eq(name, "sin") || str_eq(name, "cos") || str_eq(name, "tan") || str_eq(name, "asin")
        || str_eq(name, "acos") || str_eq(name, "atan") || str_eq(name, "sinh") || str_eq(
        name,
        "cosh",
    ) || str_eq(name, "tanh") || str_eq(name, "exp") || str_eq(name, "ln") || str_eq(name, "log")
        || str_eq(name, "log10") || str_eq(name, "sqrt") || str_eq(name, "ceil") || str_eq(
        name,
        "floor",
    ) || str_eq(name, "round") || str_eq(name, "abs") || str_eq(name, "sign") {
        Some(1)
    } else if str_eq(name, "pow") || str_eq(name, "atan2") || str_eq(name, "min") || str_eq(
        name,
        "max",
    ) || str_eq(name, "fmod") {
        Some(2)
    } else if str_eq(name, "pi") || str_eq(name, "e") {
        Some(0)
    } else {
        None
    }
}

use crate::types::str_eq;

/// The report's fields other than the semantic findings are the same.
pub open spec fn same_frame(a: ExpressionValidationReport, b: ExpressionValidationReport) -> bool {
    &&& a.syntax_valid == b.syntax_valid
    &&& a.syntax_error == b.syntax_error
    &&& a.unused_parameters == b.unused_parameters
    &&& a.semantic_validated == b.semantic_validated
}

impl EvalContext {
    /// The number of arguments that a function called `name` takes, if anything defines it.
    pub fn expected_arity_of(&self, name: &str) -> (r: Option<usize>)
        ensures
            opt_usize_view(r) == expected_arity(*self, name@),
    {
        match self.get_native_function(name) {
            Some(f) => Some(f.arity),
            None => match self.get_expression_function(name) {
                Some(f) => Some(f.params.len()),
                None => builtin_arity_of(name),
            },
        }
    }

    fn check_node(
        &self,
        node: &AstExpr,
        params: &[String],
        used: &mut Vec<String>,
        report: &mut ExpressionValidationReport,
    )
        ensures
            same_frame(*final(report), *old(report)),
            findings_of(*final(report), final(used)@) == check_node(
                *self,
                string_views(params@),
                ast_view(*node),
                findings_of(*old(report), old(used)@),
            ),
        decreases node,
    {
        let ghost ps = string_views(params@);
        match node {
            AstExpr::Constant(_) => {},
            AstExpr::Variable(name) => {
                if slice_contains(params, name) {
                    proof {
                        lemma_string_views_push(used@, *name);
                        string_views(used@).lemma_push_to_set_commute(name@);
                    }
                    used.push(name.clone());
                } else if self.get_variable(name.as_str()).is_none() && self.get_constant(
                    name.as_str(),
                ).is_none() && self.get_native_function(name.as_str()).is_none()
                    && self.get_expression_function(name.as_str()).is_none() {
                    proof {
                        lemma_string_views_push(report.undefined_variables@, *name);
                    }
                    report.undefined_variables.push(name.clone());
                }
            },
            AstExpr::Attribute { base, .. } => {
                if slice_contains(params, base) {
                    proof {
                        lemma_string_views_push(used@, *base);
                        string_views(used@).lemma_push_to_set_commute(base@);
                    }
                    used.push(base.clone());
                } else if self.get_variable(base.as_str()).is_none() && self.get_constant(
                    base.as_str(),
                ).is_none() {
                    proof {
                        lemma_string_views_push(report.undefined_variables@, *base);
                    }
                    report.undefined_variables.push(base.clone());
                }
            },
            AstExpr::Function { name, args } => {
                let expected = self.expected_arity_of(name.as_str());
                if expected.is_none() {
                    proof {
                        lemma_string_views_push(report.undefined_functions@, *name);
                    }
                    report.undefined_functions.push(name.clone());
                }
                match expected {
                    Some(x) => {
                        if args.len() != x {
                            proof {
                                lemma_arity_views_push(
                                    report.arity_warnings@,
                                    (*name, args.len(), Some(x)),
                                );
                                lemma_args_view_len(args@);
                            }
                            report.arity_warnings.push((name.clone(), args.len(), Some(x)));
                        } else {
                            proof {
                                lemma_args_view_len(args@);
                            }
                        }
                    },
                    None => {},
                }
                let ghost av = args_view(args@);
                let ghost f2 = findings_of(*report, used@);
                let mut i: usize = 0;
                proof {
                    lemma_args_view_len(args@);
                    assert(av.skip(0) == av);
                }
                while i < args.len()
                    invariant
                        i <= args.len(),
                        av == args_view(args@),
                        av.len() == args@.len(),
                        ps == string_views(params@),
                        *node == (AstExpr::Function { name: *name, args: *args }),
                        same_frame(*report, *old(report)),
                        check_args(*self, ps, av.skip(i as int), findings_of(*report, used@))
                            == check_args(*self, ps, av, f2),
                    decreases args.len() - i,
                {
                    proof {
                        lemma_args_view_index(args@, i as int);
                        assert(av.skip(i as int)[0] == av[i as int]);
                        assert(av.skip(i as int).drop_first() == av.skip(i + 1));
                        assert(*node == AstExpr::Function { name: *name, args: *args });
                        assert(decreases_to!(*node => (*node)->args));
                        assert((*node)->args == *args);
                        assert(decreases_to!(*args => args@));
                        assert(decreases_to!(args@ => args@[i as int]));
                        assert(decreases_to!(*node => args@[i as int]));
                    }
                    self.check_node(&args[i], params, used, report);
                    i = i + 1;
                }
                proof {
                    assert(av.skip(i as int) == Seq::<Ast>::empty());
                }
            },
            AstExpr::Array { index, .. } => {
                self.check_node(index, params, used, report);
            },
            AstExpr::LogicalOp { left, right, .. } => {
                self.check_node(left, params, used, report);
                self.check_node(right, params, used, report);
            },
            AstExpr::Conditional { condition, true_branch, false_branch } => {
                self.check_node(condition, params, used, report);
                self.check_node(true_branch, params, used, report);
                self.check_node(false_branch, params, used, report);
            },
        }
    }

    /// Checks an expression against this context: undefined functions and variables, calls
    /// with the wrong number of arguments, and parameters left unused are added to `report`.
    pub fn validate_expression_semantics(
        &self,
        ast: &AstExpr,
        param_names: &[String],
        report: &mut ExpressionValidationReport,
    )
        ensures
            final(report).syntax_valid == old(report).syntax_valid,
            final(report).syntax_error == old(report).syntax_error,
            final(report).semantic_validated == old(report).semantic_validated,
            ({
                let f = check_node(
                    *self,
                    string_views(param_names@),
                    ast_view(*ast),
                    Findings {
                        undefined_variables: string_views(old(report).undefined_variables@),
                        undefined_functions: string_views(old(report).undefined_functions@),
                        arity_warnings: arity_views(old(report).arity_warnings@),
                        used: Set::empty(),
                    },
                );
                &&& string_views(final(report).undefined_variables@) == f.undefined_variables
                &&& string_views(final(report).undefined_functions@) == f.undefined_functions
                &&& arity_views(final(report).arity_warnings@) == f.arity_warnings
                &&& string_views(final(report).unused_parameters@) == string_views(
                    old(report).unused_parameters@,
                ) + unused(string_views(param_names@), f.used)
            }),
            forall|k: int|
                old(report).undefined_variables@.len() <= k < final(report).undefined_variables@.len()
                    ==> crate::laws::truly_undefined_variable(
                    *self,
                    string_views(param_names@),
                    #[trigger] final(report).undefined_variables@[k]@,
                ),
            forall|k: int|
                old(report).undefined_functions@.len() <= k < final(report).undefined_functions@.len()
                    ==> crate::laws::truly_undefined_function(*self, #[trigger] final(report).undefined_functions@[k]@),
    {
        let ghost f0 = Findings {
            undefined_variables: string_views(report.undefined_variables@),
            undefined_functions: string_views(report.undefined_functions@),
            arity_warnings: arity_views(report.arity_warnings@),
            used: Set::empty(),
        };
        proof {
            crate::laws::law_defined_names_are_not_undefined(*self, string_views(param_names@), ast_view(*ast), f0);
        }
        let mut used: Vec<String> = Vec::new();
        proof {
            assert(string_views(used@).to_set() =~= Set::<Seq<char>>::empty());
        }
        self.check_node(ast, param_names, &mut used, report);
        let ghost r1 = *report;
        let ghost u = string_views(used@).to_set();
        let ghost ps = string_views(param_names@);
        let ghost before = string_views(report.unused_parameters@);
        let mut i: usize = 0;
        proof {
            assert(ps.take(0) == Seq::<Seq<char>>::empty());
            reveal(Seq::filter);
            assert(unused(ps.take(0), u) == Seq::<Seq<char>>::empty());
            assert(before + Seq::<Seq<char>>::empty() == before);
        }
        while i < param_names.len()
            invariant
                i <= param_names@.len(),
                ps == string_views(param_names@),
                u == string_views(used@).to_set(),
                report.syntax_valid == r1.syntax_valid,
                report.syntax_error == r1.syntax_error,
                report.semantic_validated == r1.semantic_validated,
                report.undefined_variables == r1.undefined_variables,
                report.undefined_functions == r1.undefined_functions,
                report.arity_warnings == r1.arity_warnings,
                string_views(report.unused_parameters@) == before + unused(ps.take(i as int), u),
            decreases param_names@.len() - i,
        {
            let p = &param_names[i];
            proof {
                assert(ps.take(i + 1) == ps.take(i as int).push(p@));
                reveal(Seq::filter);
                assert(ps.take(i as int).push(p@).drop_last() == ps.take(i as int));
            }
            if !vec_contains(&used, p) {
                proof {
                    lemma_string_views_push(report.unused_parameters@, *p);
                }
                report.unused_parameters.push(p.clone());
            }
            i = i + 1;
        }
        proof {
            assert(ps.take(param_names@.len() as int) == ps);
            let g = check_node(*self, ps, ast_view(*ast), f0);
            assert forall|k: int|
                old(report).undefined_variables@.len() <= k < report.undefined_variables@.len()
                    implies crate::laws::truly_undefined_variable(*self, ps, #[trigger] report.undefined_variables@[k]@) by {
                assert(string_views(report.undefined_variables@)[k] == report.undefined_variables@[k]@);
                assert(g.undefined_variables[k] == report.undefined_variables@[k]@);
            }
            assert forall|k: int|
                old(report).undefined_functions@.len() <= k < report.undefined_functions@.len()
                    implies crate::laws::truly_undefined_function(*self, #[trigger] report.undefined_functions@[k]@) by {
                assert(string_views(report.undefined_functions@)[k] == report.undefined_functions@[k]@);
                assert(g.undefined_functions[k] == report.undefined_functions@[k]@);
            }
        }
    }
}

} // verus!

verus! {

/// The expression parsed and nothing it uses is undefined or misused.
pub open spec fn report_valid(r: ExpressionValidationReport) -> bool {
    r.syntax_valid && r.undefined_functions@.len() == 0 && r.arity_warnings@.len() == 0
        && r.undefined_variables@.len() == 0
}

/// The only findings are unused parameters.
pub open spec fn report_only_warnings(r: ExpressionValidationReport) -> bool {
    report_valid(r) && r.unused_parameters@.len() > 0
}

impl ExpressionValidationReport {
    /// A report on an expression that parsed.
    pub fn new_syntax_valid() -> (r: Self)
        ensures
            r.syntax_valid,
            r.syntax_error.is_none(),
            r.undefined_functions@.len() == 0,
            r.arity_warnings@.len() == 0,
            r.undefined_variables@.len() == 0,
            r.unused_parameters@.len() == 0,
            !r.semantic_validated,
    {
        ExpressionValidationReport {
            syntax_valid: true,
            syntax_error: None,
            undefined_functions: Vec::new(),
            arity_warnings: Vec::new(),
            undefined_variables: Vec::new(),
            unused_parameters: Vec::new(),
            semantic_validated: false,
        }
    }

    /// A report on an expression that did not parse.
    pub fn new_syntax_error(error: String) -> (r: Self)
        ensures
            !r.syntax_valid,
            r.syntax_error == Some(error),
            r.undefined_functions@.len() == 0,
            r.arity_warnings@.len() == 0,
            r.undefined_variables@.len() == 0,
            r.unused_parameters@.len() == 0,
            !r.semantic_validated,
    {
        ExpressionValidationReport {
            syntax_valid: false,
            syntax_error: Some(error),
            undefined_functions: Vec::new(),
            arity_warnings: Vec::new(),
            undefined_variables: Vec::new(),
            unused_parameters: Vec::new(),
            semantic_validated: false,
        }
    }

    /// True where the expression parsed and nothing it uses is undefined or misused.
    pub fn is_valid(&self) -> (b: bool)
        ensures
            b == report_valid(*self),
    {
        self.syntax_valid && self.undefined_functions.len() == 0 && self.arity_warnings.len() == 0
            && self.undefined_variables.len() == 0
    }

    /// True where the only findings are unused parameters.
    pub fn has_only_warnings(&self) -> (b: bool)
        ensures
            b == report_only_warnings(*self),
    {
        self.syntax_valid && self.undefined_functions.len() == 0 && self.arity_warnings.len() == 0
            && self.undefined_variables.len() == 0 && self.unused_parameters.len() != 0
    }
}

} // verus!

verus! {

use crate::context::{expressions_view, natives_view, name_fits, name_too_long, same_data, param_views};
use crate::types::ExpressionSpec;
use crate::error::{ExprError, message_spec};
use crate::engine::{parse_text_spec, parse_expression_with_reserved};

fn owned_names(params: &[&str]) -> (r: Vec<String>)
    ensures
        string_views(r@) == param_views(params),
{
    let mut names: Vec<String> = Vec::new();
    let mut i: usize = 0;
    while i < params.len()
        invariant
            i <= params@.len(),
            names@.len() == i,
            forall|k: int| 0 <= k < i ==> (#[trigger] names@[k])@ == params@[k]@,
        decreases params@.len() - i,
    {
        names.push(String::from_str(params[i]));
        i = i + 1;
    }
    assert(string_views(names@) =~= param_views(params));
    names
}

pub open spec fn no_findings() -> Findings {
    Findings {
        undefined_variables: Seq::empty(),
        undefined_functions: Seq::empty(),
        arity_warnings: Seq::empty(),
        used: Set::empty(),
    }
}

/// The report holds no findings at all.
pub open spec fn report_clean(r: ExpressionValidationReport) -> bool {
    &&& r.undefined_functions@.len() == 0
    &&& r.arity_warnings@.len() == 0
    &&& r.undefined_variables@.len() == 0
    &&& r.unused_parameters@.len() == 0
}

impl EvalContext {
    /// Registers an expression function after parsing it and, where `validate_semantics` is
    /// set, checking it against this context.  An expression that does not parse is not
    /// registered: the report says why.  Findings of the checks do not stop registration.
    pub fn register_expression_function_validated(
        &mut self,
        name: &str,
        params: &[&str],
        expression: &str,
        validate_semantics: bool,
    ) -> (r: Result<ExpressionValidationReport, ExprError>)
        ensures
            same_data(*final(self), *old(self)),
            final(self).function_registry.native_functions == old(
                self,
            ).function_registry.native_functions,
            ({
                let m = expressions_view(old(self).function_registry.expression_functions);
                let m2 = expressions_view(final(self).function_registry.expression_functions);
                let ps = param_views(params);
                match parse_text_spec(expression@, Some(ps), None) {
                    Err(e) => {
                        &&& r.is_ok()
                        &&& !r.unwrap().syntax_valid
                        &&& r.unwrap().syntax_error.is_some()
                        &&& r.unwrap().syntax_error.unwrap()@ == message_spec(e)
                        &&& report_clean(r.unwrap())
                        &&& !r.unwrap().semantic_validated
                        &&& m2 == m
                    },
                    Ok(a) => {
                        let f = ExpressionSpec {
                            name: name@,
                            params: ps,
                            expression: expression@,
                            description: None,
                        };
                        let found = check_node(*old(self), ps, a, no_findings());
                        &&& if !name_fits(name@) {
                            r.is_err() && r->Err_0@ == name_too_long(name@) && m2 == m
                        } else if m.contains_key(name@) || m.len() < 64 {
                            r.is_ok() && m2 == m.insert(name@, f)
                        } else {
                            &&& r.is_err()
                            &&& r->Err_0@ == crate::error::ErrSpec::CapacityExceeded(
                                "expression_functions"@,
                            )
                            &&& m2 == m
                        }
                        &&& r.is_ok() ==> {
                            let rep = r.unwrap();
                            &&& rep.syntax_valid
                            &&& rep.syntax_error.is_none()
                            &&& rep.semantic_validated == validate_semantics
                            &&& validate_semantics ==> {
                                &&& string_views(rep.undefined_variables@) == found.undefined_variables
                                &&& string_views(rep.undefined_functions@) == found.undefined_functions
                                &&& arity_views(rep.arity_warnings@) == found.arity_warnings
                                &&& string_views(rep.unused_parameters@) == unused(ps, found.used)
                            }
                            &&& !validate_semantics ==> report_clean(rep)
                        }
                    },
                }
            }),
    {
        let param_names = owned_names(params);
        let names_slice = param_names.as_slice();
        proof {
            assert(names_slice@ == param_names@);
            assert(crate::engine::slice_names(Some(names_slice)) =~~= Some(param_views(params)));
        }
        let parsed = parse_expression_with_reserved(expression, Some(names_slice));
        let ast = match parsed {
            Ok(a) => a,
            Err(err) => {
                return Ok(ExpressionValidationReport::new_syntax_error(err.message()));
            },
        };
        let mut report = ExpressionValidationReport::new_syntax_valid();
        if validate_semantics {
            report.semantic_validated = true;
            proof {
                assert(string_views(report.undefined_variables@) =~= Seq::<Seq<char>>::empty());
                assert(string_views(report.undefined_functions@) =~= Seq::<Seq<char>>::empty());
                assert(arity_views(report.arity_warnings@) =~= Seq::<ArityWarning>::empty());
                assert(string_views(report.unused_parameters@) =~= Seq::<Seq<char>>::empty());
            }
            self.validate_expression_semantics(&ast, param_names.as_slice(), &mut report);
            proof {
                let f = check_node(*old(self), param_views(params), ast_view(ast), no_findings());
                assert(Seq::<Seq<char>>::empty() + unused(param_views(params), f.used) == unused(param_views(params), f.used));
            }
        }
        match self.register_expression_function(name, params, expression) {
            Ok(()) => Ok(report),
            Err(e) => Err(e),
        }
    }
}

} // verus!
