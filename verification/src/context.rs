use vstd::prelude::*;
use std::rc::Rc;
use crate::types::{
    NativeFunction, ExpressionFunction, NativeImpl, BuiltinFunction, NativeSpec, ExpressionSpec,
    string_views, strictly_sorted, insert_sorted,
};
use crate::maps::{
    NameMap, value_entries, array_entries, object_entries, native_entries, expression_entries,
    lists_keys,
};
use crate::error::ExprError;
use crate::engine::parse_text_spec;

verus! {

/// The longest name that a variable, constant, array, object, attribute or function may have.
pub const MAX_NAME_LENGTH: usize = 32;

/// Table of variables or constants.
pub type VariableMap = NameMap<u64, 64>;

/// Table of arrays.
pub type ArrayMap = NameMap<Vec<u64>, 16>;

/// Table of objects, each with its table of attributes.
pub type AttributeMap = NameMap<NameMap<u64, 64>, 16>;

/// Table of native functions.
pub type NativeFunctionMap = NameMap<NativeFunction, 128>;

/// Table of expression functions.
pub type ExpressionFunctionMap = NameMap<ExpressionFunction, 64>;

pub open spec fn name_fits(name: Seq<char>) -> bool {
    name.len() <= MAX_NAME_LENGTH
}

pub open spec fn name_too_long(name: Seq<char>) -> crate::error::ErrSpec {
    crate::error::ErrSpec::NameTooLong { name, max_len: MAX_NAME_LENGTH as int }
}

/// A name as a table key; refused where it is longer than `MAX_NAME_LENGTH`.
pub fn name_key(name: &str) -> (r: Result<String, ExprError>)
    ensures
        name_fits(name@) ==> r.is_ok() && r.unwrap()@ == name@,
        !name_fits(name@) ==> r.is_err() && r->Err_0@ == name_too_long(name@),
{
    if name.unicode_len() > MAX_NAME_LENGTH {
        Err(ExprError::NameTooLong { name: String::from_str(name), max_len: MAX_NAME_LENGTH })
    } else {
        Ok(String::from_str(name))
    }
}

pub open spec fn natives_view(m: NativeFunctionMap) -> Map<Seq<char>, NativeSpec> {
    native_entries(m).map_values(|f: NativeFunction| f@)
}

pub open spec fn expressions_view(m: ExpressionFunctionMap) -> Map<Seq<char>, ExpressionSpec> {
    expression_entries(m).map_values(|f: ExpressionFunction| f@)
}

/// The functions available in a context.
#[derive(Debug)]
pub struct FunctionRegistry {
    /// Native functions implemented outside the expression language.
    pub native_functions: NativeFunctionMap,
    /// Functions defined by expressions.
    pub expression_functions: ExpressionFunctionMap,
}

impl FunctionRegistry {
    /// A registry without functions.
    pub fn new() -> (r: Self)
        ensures
            natives_view(r.native_functions) == Map::<Seq<char>, NativeSpec>::empty(),
            expressions_view(r.expression_functions) == Map::<Seq<char>, ExpressionSpec>::empty(),
    {
        let r = FunctionRegistry {
            native_functions: NameMap::<NativeFunction, 128>::new(),
            expression_functions: NameMap::<ExpressionFunction, 64>::new(),
        };
        assert(natives_view(r.native_functions) =~= Map::<Seq<char>, NativeSpec>::empty());
        assert(expressions_view(r.expression_functions) =~= Map::<Seq<char>, ExpressionSpec>::empty());
        r
    }
}

/// Evaluation context: variables, constants, arrays, objects and functions, and an optional
/// parent context whose entries are visible where this one lacks them.
#[derive(Debug)]
pub struct EvalContext {
    /// Variables that can be modified during evaluation.
    pub variables: VariableMap,
    /// Constants that cannot be modified during evaluation.
    pub constants: VariableMap,
    /// Arrays of values, read with `array[index]`.
    pub arrays: ArrayMap,
    /// Object attributes, read with `object.attribute`.
    pub attributes: AttributeMap,
    /// Registry of functions available in this context.
    pub function_registry: FunctionRegistry,
    /// Optional parent context for variable and function inheritance.
    pub parent: Option<Rc<EvalContext>>,
}

/// `b` is a copy of `a`: the same entries in every table, the same functions and the same
/// parent.
pub open spec fn copy_of(b: EvalContext, a: EvalContext) -> bool {
    &&& value_entries(b.variables) == value_entries(a.variables)
    &&& value_entries(b.constants) == value_entries(a.constants)
    &&& array_entries(b.arrays).dom() == array_entries(a.arrays).dom()
    &&& forall|k: Seq<char>| #[trigger] array_entries(b.arrays).contains_key(k) ==> array_entries(b.arrays)[k]@
        == array_entries(a.arrays)[k]@
    &&& object_entries(b.attributes).dom() == object_entries(a.attributes).dom()
    &&& forall|k: Seq<char>| #[trigger] object_entries(b.attributes).contains_key(k) ==> value_entries(
        object_entries(b.attributes)[k],
    ) == value_entries(object_entries(a.attributes)[k])
    &&& natives_view(b.function_registry.native_functions) == natives_view(a.function_registry.native_functions)
    &&& expressions_view(b.function_registry.expression_functions) == expressions_view(
        a.function_registry.expression_functions,
    )
    &&& b.parent == a.parent
}

/// `Rc::clone`: another pointer to the same context.
#[verifier::external_body]
fn share(p: &Rc<EvalContext>) -> (r: Rc<EvalContext>)
    ensures
        r == *p,
{
    Rc::clone(p)
}

impl Clone for FunctionRegistry {
    /// A registry with copies of the same functions.
    fn clone(&self) -> (r: Self)
        ensures
            natives_view(r.native_functions) == natives_view(self.native_functions),
            expressions_view(r.expression_functions) == expressions_view(self.expression_functions),
    {
        let r = FunctionRegistry {
            native_functions: self.native_functions.copy(),
            expression_functions: self.expression_functions.copy(),
        };
        assert(natives_view(r.native_functions) =~= natives_view(self.native_functions));
        assert(expressions_view(r.expression_functions) =~= expressions_view(self.expression_functions));
        r
    }
}

impl Clone for EvalContext {
    /// A context with copies of the same tables and functions, sharing the same parent.
    fn clone(&self) -> (r: Self)
        ensures
            copy_of(r, *self),
    {
        let parent = match &self.parent {
            Some(p) => Some(share(p)),
            None => None,
        };
        EvalContext {
            variables: self.variables.copy(),
            constants: self.constants.copy(),
            arrays: self.arrays.copy(),
            attributes: self.attributes.copy(),
            function_registry: self.function_registry.clone(),
            parent,
        }
    }
}

/// The value of a variable, looked up in the context and then in its parents.
pub open spec fn lookup_variable(ctx: EvalContext, name: Seq<char>) -> Option<u64>
    decreases ctx,
{
    if name_fits(name) && value_entries(ctx.variables).contains_key(name) {
        Some(value_entries(ctx.variables)[name])
    } else {
        match ctx.parent {
            Some(p) => lookup_variable(*p, name),
            None => None,
        }
    }
}

/// The value of a constant, looked up in the context and then in its parents.
pub open spec fn lookup_constant(ctx: EvalContext, name: Seq<char>) -> Option<u64>
    decreases ctx,
{
    if name_fits(name) && value_entries(ctx.constants).contains_key(name) {
        Some(value_entries(ctx.constants)[name])
    } else {
        match ctx.parent {
            Some(p) => lookup_constant(*p, name),
            None => None,
        }
    }
}

/// An array, looked up in the context and then in its parents.
pub open spec fn lookup_array(ctx: EvalContext, name: Seq<char>) -> Option<Vec<u64>>
    decreases ctx,
{
    if name_fits(name) && array_entries(ctx.arrays).contains_key(name) {
        Some(array_entries(ctx.arrays)[name])
    } else {
        match ctx.parent {
            Some(p) => lookup_array(*p, name),
            None => None,
        }
    }
}

/// The attributes of an object, looked up in the context and then in its parents.
pub open spec fn lookup_object(ctx: EvalContext, name: Seq<char>) -> Option<NameMap<u64, 64>>
    decreases ctx,
{
    if name_fits(name) && object_entries(ctx.attributes).contains_key(name) {
        Some(object_entries(ctx.attributes)[name])
    } else {
        match ctx.parent {
            Some(p) => lookup_object(*p, name),
            None => None,
        }
    }
}

/// A native function, looked up in the context and then in its parents.
pub open spec fn lookup_native(ctx: EvalContext, name: Seq<char>) -> Option<NativeFunction>
    decreases ctx,
{
    if name_fits(name) && native_entries(ctx.function_registry.native_functions).contains_key(
        name,
    ) {
        Some(native_entries(ctx.function_registry.native_functions)[name])
    } else {
        match ctx.parent {
            Some(p) => lookup_native(*p, name),
            None => None,
        }
    }
}

/// An expression function, looked up in the context and then in its parents.
pub open spec fn lookup_expression(ctx: EvalContext, name: Seq<char>) -> Option<ExpressionFunction>
    decreases ctx,
{
    if name_fits(name) && expression_entries(ctx.function_registry.expression_functions).contains_key(
        name,
    ) {
        Some(expression_entries(ctx.function_registry.expression_functions)[name])
    } else {
        match ctx.parent {
            Some(p) => lookup_expression(*p, name),
            None => None,
        }
    }
}

/// The names of the native functions of a context and of its parents.
pub open spec fn native_names(ctx: EvalContext) -> Set<Seq<char>>
    decreases ctx,
{
    native_entries(ctx.function_registry.native_functions).dom().union(
        match ctx.parent {
            Some(p) => native_names(*p),
            None => Set::empty(),
        },
    )
}

/// The names of the expression functions of a context and of its parents.
pub open spec fn expression_names(ctx: EvalContext) -> Set<Seq<char>>
    decreases ctx,
{
    expression_entries(ctx.function_registry.expression_functions).dom().union(
        match ctx.parent {
            Some(p) => expression_names(*p),
            None => Set::empty(),
        },
    )
}

} // verus!

verus! {

/// The built-in functions that every new context has: name, arity and operation.
pub open spec fn default_table() -> Seq<(Seq<char>, nat, BuiltinFunction)> {
    seq![
        ("+"@, 2nat, BuiltinFunction::Add),
        ("-"@, 2nat, BuiltinFunction::Sub),
        ("*"@, 2nat, BuiltinFunction::Mul),
        ("/"@, 2nat, BuiltinFunction::Div),
        ("%"@, 2nat, BuiltinFunction::Rem),
        ("<"@, 2nat, BuiltinFunction::Lt),
        (">"@, 2nat, BuiltinFunction::Gt),
        ("<="@, 2nat, BuiltinFunction::Le),
        (">="@, 2nat, BuiltinFunction::Ge),
        ("=="@, 2nat, BuiltinFunction::Eq),
        ("!="@, 2nat, BuiltinFunction::Ne),
        ("&&"@, 2nat, BuiltinFunction::And),
        ("||"@, 2nat, BuiltinFunction::Or),
        ("add"@, 2nat, BuiltinFunction::Add),
        ("sub"@, 2nat, BuiltinFunction::Sub),
        ("mul"@, 2nat, BuiltinFunction::Mul),
        ("div"@, 2nat, BuiltinFunction::Div),
        ("fmod"@, 2nat, BuiltinFunction::Rem),
        ("neg"@, 1nat, BuiltinFunction::Neg),
        (","@, 2nat, BuiltinFunction::Second),
        ("comma"@, 2nat, BuiltinFunction::Second),
        ("abs"@, 1nat, BuiltinFunction::Abs),
        ("max"@, 2nat, BuiltinFunction::Max),
        ("min"@, 2nat, BuiltinFunction::Min),
        ("sign"@, 1nat, BuiltinFunction::Sign),
        ("e"@, 0nat, BuiltinFunction::E),
        ("pi"@, 0nat, BuiltinFunction::Pi),
        ("acos"@, 1nat, BuiltinFunction::Acos),
        ("asin"@, 1nat, BuiltinFunction::Asin),
        ("atan"@, 1nat, BuiltinFunction::Atan),
        ("atan2"@, 2nat, BuiltinFunction::Atan2),
        ("ceil"@, 1nat, BuiltinFunction::Ceil),
        ("cos"@, 1nat, BuiltinFunction::Cos),
        ("cosh"@, 1nat, BuiltinFunction::Cosh),
        ("exp"@, 1nat, BuiltinFunction::Exp),
        ("floor"@, 1nat, BuiltinFunction::Floor),
        ("round"@, 1nat, BuiltinFunction::Round),
        ("ln"@, 1nat, BuiltinFunction::Ln),
        ("log"@, 1nat, BuiltinFunction::Log),
        ("log10"@, 1nat, BuiltinFunction::Log10),
        ("pow"@, 2nat, BuiltinFunction::Pow),
        ("^"@, 2nat, BuiltinFunction::Pow),
        ("sin"@, 1nat, BuiltinFunction::Sin),
        ("sinh"@, 1nat, BuiltinFunction::Sinh),
        ("sqrt"@, 1nat, BuiltinFunction::Sqrt),
        ("tan"@, 1nat, BuiltinFunction::Tan),
        ("tanh"@, 1nat, BuiltinFunction::Tanh),
    ]
}

/// The row of the default table that a name stands in, by its characters; -1 for others.
spec fn default_name_rank(s: Seq<char>) -> int {
    if s.len() == 1 && s[0] == '+' {
        0
    } else if s.len() == 1 && s[0] == '-' {
        1
    } else if s.len() == 1 && s[0] == '*' {
        2
    } else if s.len() == 1 && s[0] == '/' {
        3
    } else if s.len() == 1 && s[0] == '%' {
        4
    } else if s.len() == 1 && s[0] == '<' {
        5
    } else if s.len() == 1 && s[0] == '>' {
        6
    } else if s.len() == 2 && s[0] == '<' && s[1] == '=' {
        7
    } else if s.len() == 2 && s[0] == '>' && s[1] == '=' {
        8
    } else if s.len() == 2 && s[0] == '=' && s[1] == '=' {
        9
    } else if s.len() == 2 && s[0] == '!' && s[1] == '=' {
        10
    } else if s.len() == 2 && s[0] == '&' && s[1] == '&' {
        11
    } else if s.len() == 2 && s[0] == '|' && s[1] == '|' {
        12
    } else if s.len() == 3 && s[0] == 'a' && s[1] == 'd' && s[2] == 'd' {
        13
    } else if s.len() == 3 && s[0] == 's' && s[1] == 'u' && s[2] == 'b' {
        14
    } else if s.len() == 3 && s[0] == 'm' && s[1] == 'u' && s[2] == 'l' {
        15
    } else if s.len() == 3 && s[0] == 'd' && s[1] == 'i' && s[2] == 'v' {
        16
    } else if s.len() == 4 && s[0] == 'f' && s[1] == 'm' && s[2] == 'o' && s[3] == 'd' {
        17
    } else if s.len() == 3 && s[0] == 'n' && s[1] == 'e' && s[2] == 'g' {
        18
    } else if s.len() == 1 && s[0] == ',' {
        19
    } else if s.len() == 5 && s[0] == 'c' && s[1] == 'o' && s[2] == 'm' && s[3] == 'm' && s[4] == 'a' {
        20
    } else if s.len() == 3 && s[0] == 'a' && s[1] == 'b' && s[2] == 's' {
        21
    } else if s.len() == 3 && s[0] == 'm' && s[1] == 'a' && s[2] == 'x' {
        22
    } else if s.len() == 3 && s[0] == 'm' && s[1] == 'i' && s[2] == 'n' {
        23
    } else if s.len() == 4 && s[0] == 's' && s[1] == 'i' && s[2] == 'g' && s[3] == 'n' {
        24
    } else if s.len() == 1 && s[0] == 'e' {
        25
    } else if s.len() == 2 && s[0] == 'p' && s[1] == 'i' {
        26
    } else if s.len() == 4 && s[0] == 'a' && s[1] == 'c' && s[2] == 'o' && s[3] == 's' {
        27
    } else if s.len() == 4 && s[0] == 'a' && s[1] == 's' && s[2] == 'i' && s[3] == 'n' {
        28
    } else if s.len() == 4 && s[0] == 'a' && s[1] == 't' && s[2] == 'a' && s[3] == 'n' {
        29
    } else if s.len() == 5 && s[0] == 'a' && s[1] == 't' && s[2] == 'a' && s[3] == 'n' && s[4] == '2' {
        30
    } else if s.len() == 4 && s[0] == 'c' && s[1] == 'e' && s[2] == 'i' && s[3] == 'l' {
        31
    } else if s.len() == 3 && s[0] == 'c' && s[1] == 'o' && s[2] == 's' {
        32
    } else if s.len() == 4 && s[0] == 'c' && s[1] == 'o' && s[2] == 's' && s[3] == 'h' {
        33
    } else if s.len() == 3 && s[0] == 'e' && s[1] == 'x' && s[2] == 'p' {
        34
    } else if s.len() == 5 && s[0] == 'f' && s[1] == 'l' && s[2] == 'o' && s[3] == 'o' && s[4] == 'r' {
        35
    } else if s.len() == 5 && s[0] == 'r' && s[1] == 'o' && s[2] == 'u' && s[3] == 'n' && s[4] == 'd' {
        36
    } else if s.len() == 2 && s[0] == 'l' && s[1] == 'n' {
        37
    } else if s.len() == 3 && s[0] == 'l' && s[1] == 'o' && s[2] == 'g' {
        38
    } else if s.len() == 5 && s[0] == 'l' && s[1] == 'o' && s[2] == 'g' && s[3] == '1' && s[4] == '0' {
        39
    } else if s.len() == 3 && s[0] == 'p' && s[1] == 'o' && s[2] == 'w' {
        40
    } else if s.len() == 1 && s[0] == '^' {
        41
    } else if s.len() == 3 && s[0] == 's' && s[1] == 'i' && s[2] == 'n' {
        42
    } else if s.len() == 4 && s[0] == 's' && s[1] == 'i' && s[2] == 'n' && s[3] == 'h' {
        43
    } else if s.len() == 4 && s[0] == 's' && s[1] == 'q' && s[2] == 'r' && s[3] == 't' {
        44
    } else if s.len() == 3 && s[0] == 't' && s[1] == 'a' && s[2] == 'n' {
        45
    } else if s.len() == 4 && s[0] == 't' && s[1] == 'a' && s[2] == 'n' && s[3] == 'h' {
        46
    } else {
        -1
    }
}

/// No two rows of the default table share a name.
#[verifier::rlimit(50)]
#[verifier::spinoff_prover]
pub proof fn lemma_default_names_distinct()
    ensures
        rows_distinct(default_table()),
{
    reveal_strlit("+");
    reveal_strlit("-");
    reveal_strlit("*");
    reveal_strlit("/");
    reveal_strlit("%");
    reveal_strlit("<");
    reveal_strlit(">");
    reveal_strlit("<=");
    reveal_strlit(">=");
    reveal_strlit("==");
    reveal_strlit("!=");
    reveal_strlit("&&");
    reveal_strlit("||");
    reveal_strlit("add");
    reveal_strlit("sub");
    reveal_strlit("mul");
    reveal_strlit("div");
    reveal_strlit("fmod");
    reveal_strlit("neg");
    reveal_strlit(",");
    reveal_strlit("comma");
    reveal_strlit("abs");
    reveal_strlit("max");
    reveal_strlit("min");
    reveal_strlit("sign");
    reveal_strlit("e");
    reveal_strlit("pi");
    reveal_strlit("acos");
    reveal_strlit("asin");
    reveal_strlit("atan");
    reveal_strlit("atan2");
    reveal_strlit("ceil");
    reveal_strlit("cos");
    reveal_strlit("cosh");
    reveal_strlit("exp");
    reveal_strlit("floor");
    reveal_strlit("round");
    reveal_strlit("ln");
    reveal_strlit("log");
    reveal_strlit("log10");
    reveal_strlit("pow");
    reveal_strlit("^");
    reveal_strlit("sin");
    reveal_strlit("sinh");
    reveal_strlit("sqrt");
    reveal_strlit("tan");
    reveal_strlit("tanh");
    let t = default_table();
    assert(default_name_rank(t[0].0) == 0);
    assert(default_name_rank(t[1].0) == 1);
    assert(default_name_rank(t[2].0) == 2);
    assert(default_name_rank(t[3].0) == 3);
    assert(default_name_rank(t[4].0) == 4);
    assert(default_name_rank(t[5].0) == 5);
    assert(default_name_rank(t[6].0) == 6);
    assert(default_name_rank(t[7].0) == 7);
    assert(default_name_rank(t[8].0) == 8);
    assert(default_name_rank(t[9].0) == 9);
    assert(default_name_rank(t[10].0) == 10);
    assert(default_name_rank(t[11].0) == 11);
    assert(default_name_rank(t[12].0) == 12);
    assert(default_name_rank(t[13].0) == 13);
    assert(default_name_rank(t[14].0) == 14);
    assert(default_name_rank(t[15].0) == 15);
    assert(default_name_rank(t[16].0) == 16);
    assert(default_name_rank(t[17].0) == 17);
    assert(default_name_rank(t[18].0) == 18);
    assert(default_name_rank(t[19].0) == 19);
    assert(default_name_rank(t[20].0) == 20);
    assert(default_name_rank(t[21].0) == 21);
    assert(default_name_rank(t[22].0) == 22);
    assert(default_name_rank(t[23].0) == 23);
    assert(default_name_rank(t[24].0) == 24);
    assert(default_name_rank(t[25].0) == 25);
    assert(default_name_rank(t[26].0) == 26);
    assert(default_name_rank(t[27].0) == 27);
    assert(default_name_rank(t[28].0) == 28);
    assert(default_name_rank(t[29].0) == 29);
    assert(default_name_rank(t[30].0) == 30);
    assert(default_name_rank(t[31].0) == 31);
    assert(default_name_rank(t[32].0) == 32);
    assert(default_name_rank(t[33].0) == 33);
    assert(default_name_rank(t[34].0) == 34);
    assert(default_name_rank(t[35].0) == 35);
    assert(default_name_rank(t[36].0) == 36);
    assert(default_name_rank(t[37].0) == 37);
    assert(default_name_rank(t[38].0) == 38);
    assert(default_name_rank(t[39].0) == 39);
    assert(default_name_rank(t[40].0) == 40);
    assert(default_name_rank(t[41].0) == 41);
    assert(default_name_rank(t[42].0) == 42);
    assert(default_name_rank(t[43].0) == 43);
    assert(default_name_rank(t[44].0) == 44);
    assert(default_name_rank(t[45].0) == 45);
    assert(default_name_rank(t[46].0) == 46);
    assert forall|k: int| 0 <= k < t.len() implies default_name_rank(#[trigger] t[k].0) == k by {
        assert(k == 0 || k == 1 || k == 2 || k == 3 || k == 4 || k == 5 || k == 6 || k == 7 || k == 8 || k == 9 || k == 10 || k == 11 || k == 12 || k == 13 || k == 14 || k == 15 || k == 16 || k == 17 || k == 18 || k == 19 || k == 20 || k == 21 || k == 22 || k == 23 || k == 24 || k == 25 || k == 26 || k == 27 || k == 28 || k == 29 || k == 30 || k == 31 || k == 32 || k == 33 || k == 34 || k == 35 || k == 36 || k == 37 || k == 38 || k == 39 || k == 40 || k == 41 || k == 42 || k == 43 || k == 44 || k == 45 || k == 46);
    }
}

/// The native function that registering `name` with `arity` and `implementation` stores.
pub open spec fn native_spec(name: Seq<char>, arity: nat, implementation: NativeImpl) -> NativeSpec {
    NativeSpec { arity, implementation, name, description: None }
}

/// Registering one native function: it is stored unless the table is full and lacks the name.
pub open spec fn register_one(
    m: Map<Seq<char>, NativeSpec>,
    name: Seq<char>,
    arity: nat,
    implementation: NativeImpl,
) -> Map<Seq<char>, NativeSpec> {
    if !name_fits(name) {
        m
    } else if m.contains_key(name) || m.len() < 128 {
        m.insert(name, native_spec(name, arity, implementation))
    } else {
        m
    }
}

/// Registering the rows of a table, first to last.
pub open spec fn register_rows(
    m: Map<Seq<char>, NativeSpec>,
    rows: Seq<(Seq<char>, nat, BuiltinFunction)>,
) -> Map<Seq<char>, NativeSpec>
    decreases rows.len(),
{
    if rows.len() == 0 {
        m
    } else {
        register_rows(
            register_one(m, rows[0].0, rows[0].1, NativeImpl::Builtin(rows[0].2)),
            rows.drop_first(),
        )
    }
}

/// No two rows share a name.
pub open spec fn rows_distinct(rows: Seq<(Seq<char>, nat, BuiltinFunction)>) -> bool {
    forall|i: int, j: int| 0 <= i < j < rows.len() ==> (#[trigger] rows[i]).0 != (#[trigger] rows[j]).0
}

/// A row registered into `m` leaves it as it is.
pub open spec fn row_is_noop(m: Map<Seq<char>, NativeSpec>, row: (Seq<char>, nat, BuiltinFunction)) -> bool {
    register_one(m, row.0, row.1, NativeImpl::Builtin(row.2)) == m
}

/// Rows that do not name `k` leave its entry as it is.
proof fn lemma_register_rows_other_key(
    m: Map<Seq<char>, NativeSpec>,
    rows: Seq<(Seq<char>, nat, BuiltinFunction)>,
    k: Seq<char>,
)
    requires
        forall|i: int| 0 <= i < rows.len() ==> (#[trigger] rows[i]).0 != k,
    ensures
        register_rows(m, rows).contains_key(k) == m.contains_key(k),
        m.contains_key(k) ==> register_rows(m, rows)[k] == m[k],
    decreases rows.len(),
{
    if rows.len() > 0 {
        let rest = rows.drop_first();
        assert forall|i: int| 0 <= i < rest.len() implies (#[trigger] rest[i]).0 != k by {
            assert(rest[i] == rows[i + 1]);
        }
        lemma_register_rows_other_key(register_one(m, rows[0].0, rows[0].1, NativeImpl::Builtin(rows[0].2)), rest, k);
    }
}

/// Registering keeps a finite table finite and never shrinks it.
proof fn lemma_register_rows_grows(m: Map<Seq<char>, NativeSpec>, rows: Seq<(Seq<char>, nat, BuiltinFunction)>)
    requires
        m.dom().finite(),
    ensures
        register_rows(m, rows).dom().finite(),
        register_rows(m, rows).len() >= m.len(),
    decreases rows.len(),
{
    if rows.len() > 0 {
        let m1 = register_one(m, rows[0].0, rows[0].1, NativeImpl::Builtin(rows[0].2));
        assert(m1.dom().finite() && m1.len() >= m.len()) by {
            if m1 != m {
                assert(m1.dom() == m.dom().insert(rows[0].0));
            }
        }
        lemma_register_rows_grows(m1, rows.drop_first());
    }
}

/// Rows that each leave `m` as it is leave it as it is together.
proof fn lemma_register_rows_noop(m: Map<Seq<char>, NativeSpec>, rows: Seq<(Seq<char>, nat, BuiltinFunction)>)
    requires
        forall|i: int| 0 <= i < rows.len() ==> row_is_noop(m, #[trigger] rows[i]),
    ensures
        register_rows(m, rows) == m,
    decreases rows.len(),
{
    if rows.len() > 0 {
        let rest = rows.drop_first();
        assert(row_is_noop(m, rows[0]));
        assert forall|i: int| 0 <= i < rest.len() implies row_is_noop(m, #[trigger] rest[i]) by {
            assert(rest[i] == rows[i + 1]);
        }
        lemma_register_rows_noop(m, rest);
    }
}

/// After rows with distinct names are registered, each of them is a no-op on the result.
proof fn lemma_register_rows_settled(m: Map<Seq<char>, NativeSpec>, rows: Seq<(Seq<char>, nat, BuiltinFunction)>)
    requires
        m.dom().finite(),
        rows_distinct(rows),
    ensures
        forall|i: int| 0 <= i < rows.len() ==> row_is_noop(register_rows(m, rows), #[trigger] rows[i]),
    decreases rows.len(),
{
    if rows.len() > 0 {
        let r = rows[0];
        let m1 = register_one(m, r.0, r.1, NativeImpl::Builtin(r.2));
        let rest = rows.drop_first();
        let z = register_rows(m, rows);
        assert(z == register_rows(m1, rest));
        assert(m1.dom().finite() && m1.len() >= m.len()) by {
            if m1 != m {
                assert(m1.dom() == m.dom().insert(r.0));
            }
        }
        assert(rows_distinct(rest)) by {
            assert forall|i: int, j: int| 0 <= i < j < rest.len() implies (#[trigger] rest[i]).0 != (#[trigger] rest[j]).0 by {
                assert(rest[i] == rows[i + 1] && rest[j] == rows[j + 1]);
            }
        }
        assert forall|i: int| 0 <= i < rest.len() implies (#[trigger] rest[i]).0 != r.0 by {
            assert(rest[i] == rows[i + 1]);
        }
        lemma_register_rows_settled(m1, rest);
        lemma_register_rows_other_key(m1, rest, r.0);
        lemma_register_rows_grows(m1, rest);
        assert(row_is_noop(z, r)) by {
            if name_fits(r.0) && (m.contains_key(r.0) || m.len() < 128) {
                assert(z.contains_key(r.0) && z[r.0] == native_spec(r.0, r.1, NativeImpl::Builtin(r.2)));
                assert(z.insert(r.0, native_spec(r.0, r.1, NativeImpl::Builtin(r.2))) =~= z);
            }
        }
        assert forall|i: int| 0 <= i < rows.len() implies row_is_noop(z, #[trigger] rows[i]) by {
            if i > 0 {
                assert(rows[i] == rest[i - 1]);
            }
        }
    }
}

/// Registering rows with distinct names a second time changes nothing.
pub proof fn lemma_register_rows_idempotent(m: Map<Seq<char>, NativeSpec>, rows: Seq<(Seq<char>, nat, BuiltinFunction)>)
    requires
        m.dom().finite(),
        rows_distinct(rows),
    ensures
        register_rows(register_rows(m, rows), rows) == register_rows(m, rows),
{
    lemma_register_rows_settled(m, rows);
    lemma_register_rows_noop(register_rows(m, rows), rows);
}

fn default_rows() -> (v: Vec<(&'static str, usize, BuiltinFunction)>)
    ensures
        v@.len() == default_table().len(),
        forall|i: int|
            0 <= i < v@.len() ==> (#[trigger] v@[i]).0@ == default_table()[i].0 && v@[i].1
                == default_table()[i].1 && v@[i].2 == default_table()[i].2,
{
    let v = vec![
        ("+", 2, BuiltinFunction::Add),
        ("-", 2, BuiltinFunction::Sub),
        ("*", 2, BuiltinFunction::Mul),
        ("/", 2, BuiltinFunction::Div),
        ("%", 2, BuiltinFunction::Rem),
        ("<", 2, BuiltinFunction::Lt),
        (">", 2, BuiltinFunction::Gt),
        ("<=", 2, BuiltinFunction::Le),
        (">=", 2, BuiltinFunction::Ge),
        ("==", 2, BuiltinFunction::Eq),
        ("!=", 2, BuiltinFunction::Ne),
        ("&&", 2, BuiltinFunction::And),
        ("||", 2, BuiltinFunction::Or),
        ("add", 2, BuiltinFunction::Add),
        ("sub", 2, BuiltinFunction::Sub),
        ("mul", 2, BuiltinFunction::Mul),
        ("div", 2, BuiltinFunction::Div),
        ("fmod", 2, BuiltinFunction::Rem),
        ("neg", 1, BuiltinFunction::Neg),
        (",", 2, BuiltinFunction::Second),
        ("comma", 2, BuiltinFunction::Second),
        ("abs", 1, BuiltinFunction::Abs),
        ("max", 2, BuiltinFunction::Max),
        ("min", 2, BuiltinFunction::Min),
        ("sign", 1, BuiltinFunction::Sign),
        ("e", 0, BuiltinFunction::E),
        ("pi", 0, BuiltinFunction::Pi),
        ("acos", 1, BuiltinFunction::Acos),
        ("asin", 1, BuiltinFunction::Asin),
        ("atan", 1, BuiltinFunction::Atan),
        ("atan2", 2, BuiltinFunction::Atan2),
        ("ceil", 1, BuiltinFunction::Ceil),
        ("cos", 1, BuiltinFunction::Cos),
        ("cosh", 1, BuiltinFunction::Cosh),
        ("exp", 1, BuiltinFunction::Exp),
        ("floor", 1, BuiltinFunction::Floor),
        ("round", 1, BuiltinFunction::Round),
        ("ln", 1, BuiltinFunction::Ln),
        ("log", 1, BuiltinFunction::Log),
        ("log10", 1, BuiltinFunction::Log10),
        ("pow", 2, BuiltinFunction::Pow),
        ("^", 2, BuiltinFunction::Pow),
        ("sin", 1, BuiltinFunction::Sin),
        ("sinh", 1, BuiltinFunction::Sinh),
        ("sqrt", 1, BuiltinFunction::Sqrt),
        ("tan", 1, BuiltinFunction::Tan),
        ("tanh", 1, BuiltinFunction::Tanh),
    ];
    v
}

} // verus!

verus! {

/// The variables, constants, arrays, objects and parent of two contexts are the same.
pub open spec fn same_data(a: EvalContext, b: EvalContext) -> bool {
    &&& a.variables == b.variables
    &&& a.constants == b.constants
    &&& a.arrays == b.arrays
    &&& a.attributes == b.attributes
    &&& a.parent == b.parent
}

/// A context without variables, constants, arrays, objects or parent.
pub open spec fn data_empty(c: EvalContext) -> bool {
    &&& value_entries(c.variables).dom().is_empty()
    &&& value_entries(c.constants).dom().is_empty()
    &&& array_entries(c.arrays).dom().is_empty()
    &&& object_entries(c.attributes).dom().is_empty()
    &&& c.parent.is_none()
}

/// The natives of a new context: the default table registered into an empty table.
pub open spec fn default_natives() -> Map<Seq<char>, NativeSpec> {
    register_rows(Map::empty(), default_table())
}

pub open spec fn param_views(params: &[&str]) -> Seq<Seq<char>> {
    Seq::new(params@.len(), |i: int| params@[i]@)
}

impl EvalContext {
    /// A context with the default math functions and nothing else.
    pub fn new() -> (c: Self)
        ensures
            data_empty(c),
            natives_view(c.function_registry.native_functions) == default_natives(),
            natives_view(c.function_registry.native_functions).dom().finite(),
            expressions_view(c.function_registry.expression_functions).is_empty(),
    {
        let mut ctx = Self::empty();
        assert(natives_view(ctx.function_registry.native_functions) =~= Map::<Seq<char>, NativeSpec>::empty());
        ctx.register_default_math_functions();
        ctx
    }

    /// The same as `new`.
    pub fn with_default_functions() -> (c: Self)
        ensures
            data_empty(c),
            natives_view(c.function_registry.native_functions) == default_natives(),
            natives_view(c.function_registry.native_functions).dom().finite(),
            expressions_view(c.function_registry.expression_functions).is_empty(),
    {
        Self::new()
    }

    /// A context without any function.
    pub fn empty() -> (c: Self)
        ensures
            data_empty(c),
            natives_view(c.function_registry.native_functions).is_empty(),
            expressions_view(c.function_registry.expression_functions).is_empty(),
    {
        let c = EvalContext {
            variables: NameMap::<u64, 64>::new(),
            constants: NameMap::<u64, 64>::new(),
            arrays: NameMap::<Vec<u64>, 16>::new(),
            attributes: NameMap::<NameMap<u64, 64>, 16>::new(),
            function_registry: FunctionRegistry::new(),
            parent: None,
        };
        c
    }

    /// Sets a variable; gives back its previous value.
    pub fn set_parameter(&mut self, name: &str, value: u64) -> (r: Result<Option<u64>, ExprError>)
        ensures
            final(self).constants == old(self).constants,
            final(self).arrays == old(self).arrays,
            final(self).attributes == old(self).attributes,
            final(self).parent == old(self).parent,
            final(self).function_registry == old(self).function_registry,
            ({
                let m = value_entries(old(self).variables);
                if !name_fits(name@) {
                    &&& r.is_err()
                    &&& r->Err_0@ == name_too_long(name@)
                    &&& value_entries(final(self).variables) == m
                } else if m.contains_key(name@) || m.len() < 64 {
                    &&& r == Ok::<Option<u64>, ExprError>(m.get(name@))
                    &&& value_entries(final(self).variables) == m.insert(name@, value)
                } else {
                    &&& r.is_err()
                    &&& r->Err_0@ == crate::error::ErrSpec::CapacityExceeded("variables"@)
                    &&& value_entries(final(self).variables) == m
                }
            }),
    {
        let key = match name_key(name) {
            Ok(k) => k,
            Err(e) => return Err(e),
        };
        match self.variables.insert(key, value) {
            Ok(prev) => Ok(prev),
            Err(()) => Err(ExprError::CapacityExceeded("variables")),
        }
    }

    /// Registers a native function under `name`.
    pub fn register_native_function(&mut self, name: &str, arity: usize, implementation: NativeImpl) -> (r:
        Result<(), ExprError>)
        ensures
            same_data(*final(self), *old(self)),
            final(self).function_registry.expression_functions == old(
                self,
            ).function_registry.expression_functions,
            natives_view(final(self).function_registry.native_functions) == register_one(
                natives_view(old(self).function_registry.native_functions),
                name@,
                arity as nat,
                implementation,
            ),
            ({
                let m = natives_view(old(self).function_registry.native_functions);
                if !name_fits(name@) {
                    r.is_err() && r->Err_0@ == name_too_long(name@)
                } else if m.contains_key(name@) || m.len() < 128 {
                    r.is_ok()
                } else {
                    r.is_err() && r->Err_0@ == crate::error::ErrSpec::CapacityExceeded(
                        "native_functions"@,
                    )
                }
            }),
    {
        let ghost m0 = native_entries(self.function_registry.native_functions);
        let key = match name_key(name) {
            Ok(k) => k,
            Err(e) => return Err(e),
        };
        let f = NativeFunction { arity, implementation, name: key.clone(), description: None };
        let ghost fv = f@;
        let r = self.function_registry.native_functions.insert(key, f);
        proof {
            assert(m0.map_values(|f: NativeFunction| f@).dom() == m0.dom());
            if r.is_ok() {
                assert(natives_view(self.function_registry.native_functions) =~= natives_view(
                    old(self).function_registry.native_functions,
                ).insert(name@, fv));
            }
        }
        match r {
            Ok(()) => Ok(()),
            Err(()) => Err(ExprError::CapacityExceeded("native_functions")),
        }
    }

    /// Registers a function defined by an expression over the given parameters.  The
    /// expression is parsed first, with the parameters as names that are never applied to
    /// what follows them; one that does not parse is refused with the parse error.
    pub fn register_expression_function(&mut self, name: &str, params: &[&str], expression: &str) -> (r:
        Result<(), ExprError>)
        ensures
            same_data(*final(self), *old(self)),
            final(self).function_registry.native_functions == old(
                self,
            ).function_registry.native_functions,
            ({
                let m = expressions_view(old(self).function_registry.expression_functions);
                let f = ExpressionSpec {
                    name: name@,
                    params: param_views(params),
                    expression: expression@,
                    description: None,
                };
                let m2 = expressions_view(final(self).function_registry.expression_functions);
                if parse_text_spec(expression@, Some(param_views(params)), None) is Err {
                    &&& r.is_err()
                    &&& r->Err_0@ == parse_text_spec(expression@, Some(param_views(params)), None)->Err_0
                    &&& m2 == m
                } else if !name_fits(name@) {
                    r.is_err() && r->Err_0@ == name_too_long(name@) && m2 == m
                } else if m.contains_key(name@) || m.len() < 64 {
                    r.is_ok() && m2 == m.insert(name@, f)
                } else {
                    &&& r.is_err()
                    &&& r->Err_0@ == crate::error::ErrSpec::CapacityExceeded("expression_functions"@)
                    &&& m2 == m
                }
            }),
    {
        let ghost m0 = expression_entries(self.function_registry.expression_functions);
        let mut param_names: Vec<String> = Vec::new();
        let mut i: usize = 0;
        while i < params.len()
            invariant
                i <= params@.len(),
                param_names@.len() == i,
                forall|k: int| 0 <= k < i ==> (#[trigger] param_names@[k])@ == params@[k]@,
            decreases params@.len() - i,
        {
            let p = String::from_str(params[i]);
            param_names.push(p);
            i = i + 1;
        }
        assert(string_views(param_names@) =~= param_views(params));
        let names = param_names.as_slice();
        proof {
            assert(crate::engine::slice_names(Some(names)) =~~= Some(param_views(params)));
        }
        match crate::engine::parse_expression_with_reserved(expression, Some(names)) {
            Ok(_) => {},
            Err(e) => return Err(e),
        }
        let key = match name_key(name) {
            Ok(k) => k,
            Err(e) => {
                return Err(e);
            },
        };
        let f = ExpressionFunction {
            name: key.clone(),
            params: param_names,
            expression: String::from_str(expression),
            description: None,
        };
        let ghost fv = f@;
        let r = self.function_registry.expression_functions.insert(key, f);
        proof {
            assert(m0.map_values(|f: ExpressionFunction| f@).dom() == m0.dom());
            if r.is_ok() {
                assert(expressions_view(self.function_registry.expression_functions)
                    =~= expressions_view(old(self).function_registry.expression_functions).insert(
                    name@,
                    fv,
                ));
            }
        }
        match r {
            Ok(()) => Ok(()),
            Err(()) => Err(ExprError::CapacityExceeded("expression_functions")),
        }
    }

    /// Unregisters an expression function of this context (not of its parents); tells whether
    /// it was registered here.
    pub fn unregister_expression_function(&mut self, name: &str) -> (r: Result<bool, ExprError>)
        ensures
            same_data(*final(self), *old(self)),
            final(self).function_registry.native_functions == old(
                self,
            ).function_registry.native_functions,
            ({
                let m = expressions_view(old(self).function_registry.expression_functions);
                let m2 = expressions_view(final(self).function_registry.expression_functions);
                if !name_fits(name@) {
                    r.is_err() && r->Err_0@ == name_too_long(name@) && m2 == m
                } else {
                    r == Ok::<bool, ExprError>(m.contains_key(name@)) && m2 == m.remove(name@)
                }
            }),
    {
        let key = match name_key(name) {
            Ok(k) => k,
            Err(e) => return Err(e),
        };
        let was_removed = self.function_registry.expression_functions.remove(key.as_str());
        proof {
            assert(expressions_view(self.function_registry.expression_functions) =~= expressions_view(
                old(self).function_registry.expression_functions,
            ).remove(name@));
        }
        Ok(was_removed)
    }

    /// The same as `register_default_math_functions`.
    pub fn enable_default_functions(&mut self)
        ensures
            same_data(*final(self), *old(self)),
            final(self).function_registry.expression_functions == old(
                self,
            ).function_registry.expression_functions,
            natives_view(final(self).function_registry.native_functions) == register_rows(
                natives_view(old(self).function_registry.native_functions),
                default_table(),
            ),
            natives_view(old(self).function_registry.native_functions).dom().finite() ==> {
                &&& natives_view(final(self).function_registry.native_functions).dom().finite()
                &&& register_rows(natives_view(final(self).function_registry.native_functions), default_table())
                    == natives_view(final(self).function_registry.native_functions)
            },
    {
        self.register_default_math_functions();
    }

    /// Registers the built-in operators and math functions as native functions, in the order
    /// of `default_table`; one that finds the table full is left out.
    pub fn register_default_math_functions(&mut self)
        ensures
            same_data(*final(self), *old(self)),
            final(self).function_registry.expression_functions == old(
                self,
            ).function_registry.expression_functions,
            natives_view(final(self).function_registry.native_functions) == register_rows(
                natives_view(old(self).function_registry.native_functions),
                default_table(),
            ),
            natives_view(old(self).function_registry.native_functions).dom().finite() ==> {
                &&& natives_view(final(self).function_registry.native_functions).dom().finite()
                &&& register_rows(natives_view(final(self).function_registry.native_functions), default_table())
                    == natives_view(final(self).function_registry.native_functions)
            },
    {
        let rows = default_rows();
        let ghost t = default_table();
        let mut i: usize = 0;
        assert(t.skip(0) == t);
        while i < rows.len()
            invariant
                i <= rows@.len(),
                rows@.len() == t.len(),
                t == default_table(),
                forall|k: int|
                    0 <= k < rows@.len() ==> (#[trigger] rows@[k]).0@ == t[k].0 && rows@[k].1
                        == t[k].1 && rows@[k].2 == t[k].2,
                same_data(*self, *old(self)),
                self.function_registry.expression_functions == old(
                    self,
                ).function_registry.expression_functions,
                register_rows(natives_view(self.function_registry.native_functions), t.skip(i as int))
                    == register_rows(natives_view(old(self).function_registry.native_functions), t),
            decreases rows@.len() - i,
        {
            let (name, arity, b) = rows[i];
            proof {
                assert(t.skip(i as int).drop_first() == t.skip(i + 1));
                assert(t.skip(i as int)[0] == t[i as int]);
            }
            let _ = self.register_native_function(name, arity, NativeImpl::Builtin(b));
            i = i + 1;
        }
        proof {
            assert(t.skip(i as int) == Seq::<(Seq<char>, nat, BuiltinFunction)>::empty());
            let m0 = natives_view(old(self).function_registry.native_functions);
            if m0.dom().finite() {
                lemma_register_rows_grows(m0, t);
                lemma_default_names_distinct();
                lemma_register_rows_idempotent(m0, t);
            }
        }
    }
}

} // verus!

verus! {

fn fits(name: &str) -> (b: bool)
    ensures
        b == name_fits(name@),
{
    name.unicode_len() <= MAX_NAME_LENGTH
}

impl EvalContext {
    /// The value of a variable of this context or, failing that, of its parents.
    pub fn get_variable(&self, name: &str) -> (r: Option<u64>)
        ensures
            r == lookup_variable(*self, name@),
        decreases self,
    {
        if fits(name) {
            match self.variables.get(name) {
                Some(v) => return Some(v),
                None => {},
            }
        }
        match &self.parent {
            Some(p) => p.get_variable(name),
            None => None,
        }
    }

    /// The value of a constant of this context or, failing that, of its parents.
    pub fn get_constant(&self, name: &str) -> (r: Option<u64>)
        ensures
            r == lookup_constant(*self, name@),
        decreases self,
    {
        if fits(name) {
            match self.constants.get(name) {
                Some(v) => return Some(v),
                None => {},
            }
        }
        match &self.parent {
            Some(p) => p.get_constant(name),
            None => None,
        }
    }

    /// An array of this context or, failing that, of its parents.
    pub fn get_array(&self, name: &str) -> (r: Option<&Vec<u64>>)
        ensures
            match lookup_array(*self, name@) {
                Some(a) => r.is_some() && *r.unwrap() == a,
                None => r.is_none(),
            },
        decreases self,
    {
        if fits(name) {
            match self.arrays.get(name) {
                Some(v) => return Some(v),
                None => {},
            }
        }
        match &self.parent {
            Some(p) => p.get_array(name),
            None => None,
        }
    }

    /// The attributes of an object of this context or, failing that, of its parents.
    pub fn get_attribute_map(&self, base: &str) -> (r: Option<&NameMap<u64, 64>>)
        ensures
            match lookup_object(*self, base@) {
                Some(a) => r.is_some() && *r.unwrap() == a,
                None => r.is_none(),
            },
        decreases self,
    {
        if fits(base) {
            match self.attributes.get(base) {
                Some(v) => return Some(v),
                None => {},
            }
        }
        match &self.parent {
            Some(p) => p.get_attribute_map(base),
            None => None,
        }
    }

    /// A native function of this context or, failing that, of its parents.
    pub fn get_native_function(&self, name: &str) -> (r: Option<&NativeFunction>)
        ensures
            match lookup_native(*self, name@) {
                Some(f) => r.is_some() && *r.unwrap() == f,
                None => r.is_none(),
            },
        decreases self,
    {
        if fits(name) {
            match self.function_registry.native_functions.get(name) {
                Some(v) => return Some(v),
                None => {},
            }
        }
        match &self.parent {
            Some(p) => p.get_native_function(name),
            None => None,
        }
    }

    /// An expression function of this context or, failing that, of its parents.
    pub fn get_expression_function(&self, name: &str) -> (r: Option<&ExpressionFunction>)
        ensures
            match lookup_expression(*self, name@) {
                Some(f) => r.is_some() && *r.unwrap() == f,
                None => r.is_none(),
            },
        decreases self,
    {
        if fits(name) {
            match self.function_registry.expression_functions.get(name) {
                Some(v) => return Some(v),
                None => {},
            }
        }
        match &self.parent {
            Some(p) => p.get_expression_function(name),
            None => None,
        }
    }

    /// The names of the native functions of this context and of its parents, each once, in
    /// increasing order.
    pub fn list_native_functions(&self) -> (r: Vec<String>)
        ensures
            strictly_sorted(string_views(r@)),
            string_views(r@).to_set() == native_names(*self),
        decreases self,
    {
        let keys = self.function_registry.native_functions.keys();
        let mut out: Vec<String> = Vec::new();
        let ghost dom = native_entries(self.function_registry.native_functions).dom();
        let mut i: usize = 0;
        while i < keys.len()
            invariant
                i <= keys.len(),
                lists_keys(keys@, dom),
                strictly_sorted(string_views(out@)),
                string_views(out@).to_set() == string_views(keys@.take(i as int)).to_set(),
            decreases keys.len() - i,
        {
            proof {
                assert(string_views(keys@.take(i + 1)) =~= string_views(keys@.take(i as int)).push(
                    keys@[i as int]@,
                ));
                string_views(keys@.take(i as int)).lemma_push_to_set_commute(keys@[i as int]@);
            }
            insert_sorted(&mut out, keys[i].clone());
            i = i + 1;
        }
        proof {
            assert(keys@.take(keys@.len() as int) == keys@);
            assert(string_views(keys@).to_set() =~= dom) by {
                assert forall|k: Seq<char>| dom.contains(k) implies string_views(keys@).to_set().contains(k) by {
                    let j = choose|j: int| 0 <= j < keys@.len() && #[trigger] keys@[j]@ == k;
                    assert(string_views(keys@)[j] == k);
                }
            }
        }
        match &self.parent {
            Some(p) => {
                let names = p.list_native_functions();
                let ghost own = string_views(out@).to_set();
                let mut j: usize = 0;
                while j < names.len()
                    invariant
                        j <= names.len(),
                        strictly_sorted(string_views(out@)),
                        string_views(out@).to_set() == own.union(string_views(names@.take(j as int)).to_set()),
                    decreases names.len() - j,
                {
                    proof {
                        assert(string_views(names@.take(j + 1)) =~= string_views(names@.take(j as int)).push(
                            names@[j as int]@,
                        ));
                        string_views(names@.take(j as int)).lemma_push_to_set_commute(names@[j as int]@);
                    }
                    insert_sorted(&mut out, names[j].clone());
                    proof {
                        assert(string_views(out@).to_set() =~= own.union(string_views(names@.take(j + 1)).to_set()));
                    }
                    j = j + 1;
                }
                proof {
                    assert(names@.take(names@.len() as int) == names@);
                    assert(string_views(out@).to_set() =~= native_names(*self));
                }
            },
            None => {
                proof {
                    assert(string_views(out@).to_set() =~= native_names(*self));
                }
            },
        }
        out
    }

    /// The names of the expression functions of this context and of its parents, each once, in
    /// increasing order.
    pub fn list_expression_functions(&self) -> (r: Vec<String>)
        ensures
            strictly_sorted(string_views(r@)),
            string_views(r@).to_set() == expression_names(*self),
        decreases self,
    {
        let keys = self.function_registry.expression_functions.keys();
        let mut out: Vec<String> = Vec::new();
        let ghost dom = expression_entries(self.function_registry.expression_functions).dom();
        let mut i: usize = 0;
        while i < keys.len()
            invariant
                i <= keys.len(),
                lists_keys(keys@, dom),
                strictly_sorted(string_views(out@)),
                string_views(out@).to_set() == string_views(keys@.take(i as int)).to_set(),
            decreases keys.len() - i,
        {
            proof {
                assert(string_views(keys@.take(i + 1)) =~= string_views(keys@.take(i as int)).push(
                    keys@[i as int]@,
                ));
                string_views(keys@.take(i as int)).lemma_push_to_set_commute(keys@[i as int]@);
            }
            insert_sorted(&mut out, keys[i].clone());
            i = i + 1;
        }
        proof {
            assert(keys@.take(keys@.len() as int) == keys@);
            assert(string_views(keys@).to_set() =~= dom) by {
                assert forall|k: Seq<char>| dom.contains(k) implies string_views(keys@).to_set().contains(k) by {
                    let j = choose|j: int| 0 <= j < keys@.len() && #[trigger] keys@[j]@ == k;
                    assert(string_views(keys@)[j] == k);
                }
            }
        }
        match &self.parent {
            Some(p) => {
                let names = p.list_expression_functions();
                let ghost own = string_views(out@).to_set();
                let mut j: usize = 0;
                while j < names.len()
                    invariant
                        j <= names.len(),
                        strictly_sorted(string_views(out@)),
                        string_views(out@).to_set() == own.union(string_views(names@.take(j as int)).to_set()),
                    decreases names.len() - j,
                {
                    proof {
                        assert(string_views(names@.take(j + 1)) =~= string_views(names@.take(j as int)).push(
                            names@[j as int]@,
                        ));
                        string_views(names@.take(j as int)).lemma_push_to_set_commute(names@[j as int]@);
                    }
                    insert_sorted(&mut out, names[j].clone());
                    proof {
                        assert(string_views(out@).to_set() =~= own.union(string_views(names@.take(j + 1)).to_set()));
                    }
                    j = j + 1;
                }
                proof {
                    assert(names@.take(names@.len() as int) == names@);
                    assert(string_views(out@).to_set() =~= expression_names(*self));
                }
            },
            None => {
                proof {
                    assert(string_views(out@).to_set() =~= expression_names(*self));
                }
            },
        }
        out
    }
}

} // verus!

verus! {

impl EvalContext {
    /// Sets an attribute of an object of this context, creating the object where it is
    /// missing; gives back the attribute's previous value.
    pub fn set_attribute(&mut self, object_name: &str, attr_name: &str, value: u64) -> (r: Result<
        Option<u64>,
        ExprError,
    >)
        ensures
            final(self).variables == old(self).variables,
            final(self).constants == old(self).constants,
            final(self).arrays == old(self).arrays,
            final(self).parent == old(self).parent,
            final(self).function_registry == old(self).function_registry,
            ({
                let objs = object_entries(old(self).attributes);
                let objs2 = object_entries(final(self).attributes);
                let present = objs.contains_key(object_name@);
                let attrs = if present {
                    value_entries(objs[object_name@])
                } else {
                    Map::<Seq<char>, u64>::empty()
                };
                if !name_fits(object_name@) {
                    r.is_err() && r->Err_0@ == name_too_long(object_name@) && objs2 == objs
                } else if !name_fits(attr_name@) {
                    r.is_err() && r->Err_0@ == name_too_long(attr_name@) && objs2 == objs
                } else if !present && objs.len() >= 16 {
                    &&& r.is_err()
                    &&& r->Err_0@ == crate::error::ErrSpec::CapacityExceeded("attributes"@)
                    &&& objs2 == objs
                } else {
                    &&& objs2.dom() == objs.dom().insert(object_name@)
                    &&& forall|k: Seq<char>|
                        k != object_name@ && #[trigger] objs.contains_key(k) ==> objs2[k] == objs[k]
                    &&& if attrs.contains_key(attr_name@) || attrs.len() < 64 {
                        &&& r == Ok::<Option<u64>, ExprError>(attrs.get(attr_name@))
                        &&& value_entries(objs2[object_name@]) == attrs.insert(attr_name@, value)
                    } else {
                        &&& r.is_err()
                        &&& r->Err_0@ == crate::error::ErrSpec::CapacityExceeded(
                            "object attributes"@,
                        )
                        &&& value_entries(objs2[object_name@]) == attrs
                    }
                }
            }),
    {
        let obj_key = match name_key(object_name) {
            Ok(k) => k,
            Err(e) => return Err(e),
        };
        let attr_key = match name_key(attr_name) {
            Ok(k) => k,
            Err(e) => return Err(e),
        };
        let mut inner = match self.attributes.get(object_name) {
            Some(m) => m.copy(),
            None => {
                let empty = NameMap::<u64, 64>::new();
                assert(value_entries(empty) =~= Map::<Seq<char>, u64>::empty());
                empty
            },
        };
        let r = inner.insert(attr_key, value);
        let present = match self.attributes.get(object_name) {
            Some(_) => true,
            None => false,
        };
        if !present {
            let empty = NameMap::<u64, 64>::new();
            if self.attributes.insert(obj_key.clone(), empty).is_err() {
                return Err(ExprError::CapacityExceeded("attributes"));
            }
        }
        let _ = self.attributes.insert(obj_key, inner);
        match r {
            Ok(prev) => Ok(prev),
            Err(()) => Err(ExprError::CapacityExceeded("object attributes")),
        }
    }
}

} // verus!

verus! {

impl Default for EvalContext {
    /// A context as `EvalContext::new` makes it.
    fn default() -> (c: Self)
        ensures
            data_empty(c),
            natives_view(c.function_registry.native_functions) == default_natives(),
            expressions_view(c.function_registry.expression_functions).is_empty(),
    {
        EvalContext::new()
    }
}

} // verus!
