use vstd::prelude::*;
use vstd::std_specs::iter::IteratorSpec;

verus! {

/// Defines the type of logical operation.
#[derive(Clone, Copy, Debug, PartialEq, Eq, Structural)]
pub enum LogicalOperator {
    And,
    Or,
}

/// Abstract syntax tree of an expression.
#[derive(Debug)]
pub enum AstExpr {
    /// A number literal, kept as the text of the literal.
    Constant(String),
    Variable(String),
    Function { name: String, args: Vec<AstExpr> },
    Array { name: String, index: Box<AstExpr> },
    Attribute { base: String, attr: String },
    LogicalOp { op: LogicalOperator, left: Box<AstExpr>, right: Box<AstExpr> },
    Conditional { condition: Box<AstExpr>, true_branch: Box<AstExpr>, false_branch: Box<AstExpr> },
}

/// Mathematical model of an abstract syntax tree.
pub enum Ast {
    Constant(Seq<char>),
    Variable(Seq<char>),
    Function(Seq<char>, Seq<Ast>),
    Array(Seq<char>, Box<Ast>),
    Attribute(Seq<char>, Seq<char>),
    LogicalOp(LogicalOperator, Box<Ast>, Box<Ast>),
    Conditional(Box<Ast>, Box<Ast>, Box<Ast>),
}

pub open spec fn ast_view(e: AstExpr) -> Ast
    decreases e,
{
    match e {
        AstExpr::Constant(s) => Ast::Constant(s@),
        AstExpr::Variable(s) => Ast::Variable(s@),
        AstExpr::Function { name, args } => Ast::Function(name@, args_view(args@)),
        AstExpr::Array { name, index } => Ast::Array(name@, Box::new(ast_view(*index))),
        AstExpr::Attribute { base, attr } => Ast::Attribute(base@, attr@),
        AstExpr::LogicalOp { op, left, right } => Ast::LogicalOp(op, Box::new(ast_view(*left)), Box::new(ast_view(*right))),
        AstExpr::Conditional { condition, true_branch, false_branch } => Ast::Conditional(
            Box::new(ast_view(*condition)),
            Box::new(ast_view(*true_branch)),
            Box::new(ast_view(*false_branch)),
        ),
    }
}

pub open spec fn args_view(args: Seq<AstExpr>) -> Seq<Ast>
    decreases args,
{
    if args.len() == 0 {
        Seq::empty()
    } else {
        seq![ast_view(args[0])] + args_view(args.drop_first())
    }
}

} // verus!

verus! {

/// Classifies the kind of token produced during lexical analysis.
#[derive(Clone, Copy, Debug, PartialEq, Eq, Structural)]
pub enum TokenKind {
    Number,
    Variable,
    Operator,
    Open,
    Close,
    Separator,
    End,
    Error,
    Null,
}

/// Classifies the kind of expression node in the AST.
#[derive(Clone, Copy, Debug, PartialEq, Eq, Structural)]
pub enum ExprKind {
    Constant,
    Variable,
    Function { arity: usize },
    Array,
    Attribute,
    LogicalOp,
}

/// A token: its kind, its text in the input and the index of its first character.
#[derive(Clone, Debug)]
pub struct Token {
    pub kind: TokenKind,
    pub text: String,
    pub position: usize,
}

/// Mathematical model of a token.
pub struct TokenSpec {
    pub kind: TokenKind,
    pub text: Seq<char>,
    pub position: int,
}

impl View for Token {
    type V = TokenSpec;

    open spec fn view(&self) -> TokenSpec {
        TokenSpec { kind: self.kind, text: self.text@, position: self.position as int }
    }
}

pub open spec fn tokens_view(toks: Seq<Token>) -> Seq<TokenSpec> {
    Seq::new(toks.len(), |i: int| toks[i]@)
}

/// Appends a character to a string.
pub assume_specification[ String::push ](s: &mut String, ch: char)
    ensures
        final(s)@ == old(s)@.push(ch),
;

/// Whether two strings hold the same characters.
pub fn str_eq(a: &str, b: &str) -> (r: bool)
    ensures
        r == (a@ == b@),
{
    let n = a.unicode_len();
    let m = b.unicode_len();
    if n != m {
        return false;
    }
    let mut i: usize = 0;
    while i < n
        invariant
            n == a@.len(),
            m == b@.len(),
            n == m,
            i <= n,
            a@.subrange(0, i as int) == b@.subrange(0, i as int),
        decreases n - i,
    {
        if a.get_char(i) != b.get_char(i) {
            assert(a@[i as int] != b@[i as int]);
            return false;
        }
        assert(a@.subrange(0, i + 1) == a@.subrange(0, i as int).push(a@[i as int]));
        assert(b@.subrange(0, i + 1) == b@.subrange(0, i as int).push(b@[i as int]));
        i = i + 1;
    }
    assert(a@ == a@.subrange(0, n as int));
    assert(b@ == b@.subrange(0, n as int));
    true
}

/// A string holding the given characters.
pub fn string_from_chars(chars: &Vec<char>, start: usize, end: usize) -> (s: String)
    requires
        start <= end <= chars.len(),
    ensures
        s@ == chars@.subrange(start as int, end as int),
{
    let mut s = String::new();
    let mut i = start;
    while i < end
        invariant
            start <= i <= end,
            end <= chars.len(),
            s@ == chars@.subrange(start as int, i as int),
        decreases end - i,
    {
        s.push(chars[i]);
        assert(chars@.subrange(start as int, i + 1) == chars@.subrange(start as int, i as int).push(chars@[i as int]));
        i = i + 1;
    }
    s
}

/// The characters of a string.
pub fn chars_of(s: &str) -> (v: Vec<char>)
    ensures
        v@ == s@,
{
    let n = s.unicode_len();
    let mut v: Vec<char> = Vec::new();
    let mut it = s.chars();
    let mut i: usize = 0;
    proof {
        broadcast use vstd::string::group_string_axioms;
        assert(it.remaining() == s@);
    }
    while i < n
        invariant
            n == s@.len(),
            i <= n,
            v@ == s@.subrange(0, i as int),
            it.remaining() == s@.subrange(i as int, n as int),
            it.obeys_prophetic_iter_laws(),
        decreases n - i,
    {
        broadcast use vstd::string::group_string_axioms;
        let c = it.next();
        match c {
            Some(ch) => {
                v.push(ch);
                assert(s@.subrange(0, i + 1) == s@.subrange(0, i as int).push(s@[i as int]));
                assert(s@.subrange(i + 1, n as int) == s@.subrange(i as int, n as int).drop_first());
            }
            None => {
                assert(false);
            }
        }
        i = i + 1;
    }
    assert(v@ == s@);
    v
}

} // verus!

verus! {

/// How a native function computes: one of the built-in operations, or a function that the
/// embedding program registered under an index of its own.
#[derive(Clone, Copy, Debug, PartialEq, Eq, Structural)]
pub enum NativeImpl {
    Builtin(BuiltinFunction),
    External(usize),
}

/// The built-in numeric operations.
#[derive(Clone, Copy, Debug, PartialEq, Eq, Structural)]
pub enum BuiltinFunction {
    Add,
    Sub,
    Mul,
    Div,
    Rem,
    Lt,
    Gt,
    Le,
    Ge,
    Eq,
    Ne,
    And,
    Or,
    Neg,
    Second,
    Abs,
    Max,
    Min,
    Sign,
    E,
    Pi,
    Acos,
    Asin,
    Atan,
    Atan2,
    Ceil,
    Cos,
    Cosh,
    Exp,
    Floor,
    Round,
    Ln,
    Log,
    Log10,
    Pow,
    Sin,
    Sinh,
    Sqrt,
    Tan,
    Tanh,
}

/// A function computed outside the expression language.
#[derive(Clone, Debug)]
pub struct NativeFunction {
    /// Number of arguments the function takes.
    pub arity: usize,
    /// What computes the function.
    pub implementation: NativeImpl,
    /// The name under which it is called.
    pub name: String,
    /// Optional description of what the function does.
    pub description: Option<String>,
}

/// A function defined by an expression over its parameters.
#[derive(Clone, Debug)]
pub struct ExpressionFunction {
    /// The name under which it is called.
    pub name: String,
    /// The names of its parameters.
    pub params: Vec<String>,
    /// The expression that defines it.
    pub expression: String,
    /// Optional description of what the function does.
    pub description: Option<String>,
}

} // verus!

verus! {

/// The order of `String`: lexicographic by characters.
pub open spec fn seq_less(a: Seq<char>, b: Seq<char>) -> bool
    decreases a.len(),
{
    if a.len() == 0 {
        b.len() > 0
    } else if b.len() == 0 {
        false
    } else if a[0] != b[0] {
        a[0] < b[0]
    } else {
        seq_less(a.drop_first(), b.drop_first())
    }
}

pub proof fn lemma_seq_less_transitive(a: Seq<char>, b: Seq<char>, c: Seq<char>)
    requires
        seq_less(a, b),
        seq_less(b, c),
    ensures
        seq_less(a, c),
    decreases a.len(),
{
    if a.len() > 0 && b.len() > 0 && c.len() > 0 {
        if a[0] == b[0] && b[0] == c[0] {
            lemma_seq_less_transitive(a.drop_first(), b.drop_first(), c.drop_first());
        }
    }
}

pub proof fn lemma_seq_less_total(a: Seq<char>, b: Seq<char>)
    requires
        a != b,
    ensures
        seq_less(a, b) || seq_less(b, a),
    decreases a.len(),
{
    if a.len() > 0 && b.len() > 0 {
        if a[0] == b[0] {
            if a.drop_first() == b.drop_first() {
                assert(a == seq![a[0]] + a.drop_first());
                assert(b == seq![b[0]] + b.drop_first());
            }
            lemma_seq_less_total(a.drop_first(), b.drop_first());
        } else {
        }
    } else if a.len() == 0 && b.len() == 0 {
        assert(a == b);
    }
}

/// Whether `a` comes before `b` in the order of strings.
pub fn str_less(a: &str, b: &str) -> (r: bool)
    ensures
        r == seq_less(a@, b@),
{
    let x = chars_of(a);
    let y = chars_of(b);
    let mut i: usize = 0;
    assert(a@.subrange(0, a@.len() as int) == a@);
    assert(b@.subrange(0, b@.len() as int) == b@);
    while i < x.len() && i < y.len()
        invariant
            x@ == a@,
            y@ == b@,
            i <= x.len(),
            i <= y.len(),
            seq_less(a@, b@) == seq_less(a@.subrange(i as int, a@.len() as int), b@.subrange(i as int, b@.len() as int)),
        decreases x.len() - i,
    {
        let ghost sa = a@.subrange(i as int, a@.len() as int);
        let ghost sb = b@.subrange(i as int, b@.len() as int);
        if x[i] != y[i] {
            return x[i] < y[i];
        }
        assert(sa.drop_first() == a@.subrange(i + 1, a@.len() as int));
        assert(sb.drop_first() == b@.subrange(i + 1, b@.len() as int));
        i = i + 1;
    }
    i < y.len()
}

/// `v` is in strictly increasing order.
pub open spec fn strictly_sorted(v: Seq<Seq<char>>) -> bool {
    forall|i: int, j: int| 0 <= i < j < v.len() ==> seq_less(#[trigger] v[i], #[trigger] v[j])
}

pub open spec fn string_views(v: Seq<String>) -> Seq<Seq<char>> {
    Seq::new(v.len(), |i: int| v[i]@)
}

/// Inserts `x` into the strictly sorted `v`, unless it is there already.
pub fn insert_sorted(v: &mut Vec<String>, x: String)
    requires
        strictly_sorted(string_views(old(v)@)),
    ensures
        strictly_sorted(string_views(final(v)@)),
        string_views(final(v)@).to_set() == string_views(old(v)@).to_set().insert(x@),
{
    let ghost vs = string_views(v@);
    let mut k: usize = 0;
    while k < v.len() && str_less(v[k].as_str(), x.as_str())
        invariant
            k <= v.len(),
            vs == string_views(v@),
            strictly_sorted(vs),
            forall|i: int| 0 <= i < k ==> seq_less(#[trigger] vs[i], x@),
        decreases v.len() - k,
    {
        k = k + 1;
    }
    if k < v.len() && v[k] == x {
        assert(vs.to_set().insert(x@) =~= vs.to_set()) by {
            assert(vs[k as int] == x@);
        }
        return;
    }
    proof {
        if k < v.len() {
            assert(!seq_less(vs[k as int], x@));
            assert(vs[k as int] != x@);
            lemma_seq_less_total(vs[k as int], x@);
            assert forall|j: int| k <= j < vs.len() implies seq_less(x@, #[trigger] vs[j]) by {
                if j > k {
                    lemma_seq_less_transitive(x@, vs[k as int], vs[j]);
                }
            }
        }
    }
    v.insert(k, x);
    proof {
        let nv = string_views(v@);
        assert(nv =~= vs.insert(k as int, x@));
        assert forall|i: int, j: int| 0 <= i < j < nv.len() implies seq_less(#[trigger] nv[i], #[trigger] nv[j]) by {
            if j < k {
            } else if j == k {
            } else if i < k {
                assert(nv[j] == vs[j - 1]);
                if k < vs.len() {
                    lemma_seq_less_transitive(nv[i], x@, vs[j - 1]);
                }
            } else if i == k {
                assert(nv[j] == vs[j - 1]);
            } else {
                assert(nv[i] == vs[i - 1]);
                assert(nv[j] == vs[j - 1]);
            }
        }
        assert(nv.to_set() =~= vs.to_set().insert(x@)) by {
            assert forall|e: Seq<char>| nv.to_set().contains(e) implies vs.to_set().insert(x@).contains(e) by {
                let i = choose|i: int| 0 <= i < nv.len() && nv[i] == e;
                if i < k {
                    assert(vs[i] == e);
                } else if i > k {
                    assert(vs[i - 1] == e);
                }
            }
            assert forall|e: Seq<char>| vs.to_set().insert(x@).contains(e) implies nv.to_set().contains(e) by {
                if e == x@ {
                    assert(nv[k as int] == e);
                } else {
                    let i = choose|i: int| 0 <= i < vs.len() && vs[i] == e;
                    if i < k {
                        assert(nv[i] == e);
                    } else {
                        assert(nv[i + 1] == e);
                    }
                }
            }
        }
    }
}

} // verus!

verus! {

/// Mathematical model of a native function.
pub struct NativeSpec {
    pub arity: nat,
    pub implementation: NativeImpl,
    pub name: Seq<char>,
    pub description: Option<Seq<char>>,
}

pub open spec fn opt_string_view(s: Option<String>) -> Option<Seq<char>> {
    match s {
        Some(s) => Some(s@),
        None => None,
    }
}

impl View for NativeFunction {
    type V = NativeSpec;

    open spec fn view(&self) -> NativeSpec {
        NativeSpec {
            arity: self.arity as nat,
            implementation: self.implementation,
            name: self.name@,
            description: opt_string_view(self.description),
        }
    }
}

/// Mathematical model of an expression function.
pub struct ExpressionSpec {
    pub name: Seq<char>,
    pub params: Seq<Seq<char>>,
    pub expression: Seq<char>,
    pub description: Option<Seq<char>>,
}

impl View for ExpressionFunction {
    type V = ExpressionSpec;

    open spec fn view(&self) -> ExpressionSpec {
        ExpressionSpec {
            name: self.name@,
            params: string_views(self.params@),
            expression: self.expression@,
            description: opt_string_view(self.description),
        }
    }
}

} // verus!
