use vstd::prelude::*;
use crate::types::{Ast, AstExpr, Token, TokenKind, TokenSpec, tokens_view, ast_view, args_view, str_eq};
use crate::error::{ExprError, ErrSpec, dec, decimal};
use crate::lexer::{tokenize, lex, lemma_lex_in_bounds};

verus! {

pub open spec fn is1(t: Seq<char>, a: char) -> bool {
    t.len() == 1 && t[0] == a
}

pub open spec fn is2(t: Seq<char>, a: char, b: char) -> bool {
    t.len() == 2 && t[0] == a && t[1] == b
}

pub open spec fn is3(t: Seq<char>, a: char, b: char, c: char) -> bool {
    t.len() == 3 && t[0] == a && t[1] == b && t[2] == c
}

/// Binding powers (left, right) of the infix operators.
pub open spec fn bp_spec(op: Seq<char>) -> Option<(int, int)> {
    if is1(op, ',') || is1(op, ';') {
        Some((1, 2))
    } else if is2(op, '|', '|') {
        Some((2, 3))
    } else if is2(op, '&', '&') {
        Some((3, 4))
    } else if is1(op, '|') {
        Some((4, 5))
    } else if is1(op, '&') {
        Some((6, 7))
    } else if is2(op, '=', '=') || is2(op, '!', '=') || is1(op, '<') || is1(op, '>') || is2(
        op,
        '<',
        '=',
    ) || is2(op, '>', '=') || is2(op, '<', '>') {
        Some((7, 8))
    } else if is2(op, '<', '<') || is2(op, '>', '>') || is3(op, '<', '<', '<') || is3(
        op,
        '>',
        '>',
        '>',
    ) {
        Some((8, 9))
    } else if is1(op, '+') || is1(op, '-') {
        Some((9, 10))
    } else if is1(op, '*') || is1(op, '/') || is1(op, '%') {
        Some((10, 11))
    } else if is1(op, '^') {
        Some((15, 15))
    } else if is2(op, '*', '*') {
        Some((16, 16))
    } else {
        None
    }
}

/// Binding power of the prefix operators.
pub open spec fn prefix_bp_spec(op: Seq<char>) -> Option<int> {
    if is1(op, '+') || is1(op, '-') || is1(op, '~') {
        Some(14)
    } else {
        None
    }
}

/// What the parser works on: the tokens, the input's length, the names that are never
/// applied by juxtaposition, and the nesting limit.
pub struct PCfg {
    pub toks: Seq<TokenSpec>,
    pub input_len: int,
    pub reserved: Option<Seq<Seq<char>>>,
    pub context: Option<Seq<Seq<char>>>,
    pub max: int,
}

pub type PRes = Result<(Ast, int), ErrSpec>;

pub open spec fn syntax(m: Seq<char>) -> ErrSpec {
    ErrSpec::Syntax(m)
}

pub open spec fn neg_name() -> Seq<char> {
    seq!['n', 'e', 'g']
}

/// A name that blocks juxtaposition: a reserved parameter or a context variable.
pub open spec fn blocks_juxtaposition(c: PCfg, name: Seq<char>) -> bool {
    (c.reserved.is_some() && c.reserved.unwrap().contains(name)) || (c.context.is_some()
        && c.context.unwrap().contains(name))
}

/// A call of `pow` or `atan2` with one argument gets a default second argument.
pub open spec fn default_args(name: Seq<char>, args: Seq<Ast>) -> Seq<Ast> {
    if name == seq!['p', 'o', 'w'] && args.len() == 1 {
        args.push(Ast::Constant(seq!['2']))
    } else if name == seq!['a', 't', 'a', 'n', '2'] && args.len() == 1 {
        args.push(Ast::Constant(seq!['1']))
    } else {
        args
    }
}

pub open spec fn recursion_message(max: int) -> Seq<char> {
    "Expression too complex: exceeded maximum recursion depth of "@ + dec(max as nat)
}

/// An expression whose operators bind at least as tightly as `min_bp`, starting at token `p`,
/// nested `dep` levels deep.
pub open spec fn parse_expr_spec(c: PCfg, p: int, min_bp: int, allow: bool, dep: int) -> PRes
    decreases c.max + 1 - dep, c.toks.len() - p, 0int,
{
    let d = dep + 1;
    if d > c.max || dep < 0 {
        Err(ErrSpec::RecursionLimit(recursion_message(c.max)))
    } else {
        match prefix_spec(c, p, allow, d) {
            Err(e) => Err(e),
            Ok((l1, p1)) => match postfix_spec(c, l1, p1, d) {
                Err(e) => Err(e),
                Ok((l2, p2)) => match infix_spec(c, l2, p2, min_bp, allow, d) {
                    Err(e) => Err(e),
                    Ok((l3, p3)) => juxt_spec(c, l3, p3, allow, d),
                },
            },
        }
    }
}

/// A prefix operator applied to an expression, or a primary expression.
pub open spec fn prefix_spec(c: PCfg, p: int, allow: bool, d: int) -> PRes
    decreases c.max + 1 - d, c.toks.len() - p, 5int,
{
    if 0 <= p < c.toks.len() && c.toks[p].kind == TokenKind::Operator && prefix_bp_spec(
        c.toks[p].text,
    ).is_some() {
        let t = c.toks[p];
        if p + 1 >= c.toks.len() {
            Err(
                syntax(
                    "Expected expression after '"@ + t.text + "' at position "@ + dec(
                        t.position as nat,
                    ),
                ),
            )
        } else {
            match parse_expr_spec(c, p + 1, prefix_bp_spec(t.text).unwrap(), allow, d) {
                Err(e) => Err(e),
                Ok((rhs, q)) => if is1(t.text, '-') {
                    Ok((Ast::Function(neg_name(), seq![rhs]), q))
                } else {
                    Ok((rhs, q))
                },
            }
        }
    } else {
        primary_spec(c, p, d)
    }
}

/// A number, a variable or a parenthesized expression.
pub open spec fn primary_spec(c: PCfg, p: int, d: int) -> PRes
    decreases c.max + 1 - d, c.toks.len() - p, 4int,
{
    if p < 0 || p >= c.toks.len() {
        Err(syntax("Unexpected end of input"@))
    } else {
        let t = c.toks[p];
        if t.kind == TokenKind::Number {
            Ok((Ast::Constant(t.text), p + 1))
        } else if t.kind == TokenKind::Variable {
            Ok((Ast::Variable(t.text), p + 1))
        } else if t.kind == TokenKind::Open && is1(t.text, '(') {
            paren_spec(c, p, d)
        } else if t.kind == TokenKind::Close {
            Err(
                syntax(
                    "Unexpected closing parenthesis at position "@ + dec(t.position as nat) + ": '"@
                        + t.text + "'"@,
                ),
            )
        } else {
            Err(
                syntax(
                    "Unexpected token at position "@ + dec(t.position as nat) + ": '"@ + t.text
                        + "'"@,
                ),
            )
        }
    }
}

/// A parenthesized expression; token `p` opens it.
pub open spec fn paren_spec(c: PCfg, p: int, d: int) -> PRes
    decreases c.max + 1 - d, c.toks.len() - p, 3int,
{
    if p < 0 || p >= c.toks.len() {
        Err(syntax("Unexpected end of input"@))
    } else {
        let open = c.toks[p].position;
        match parse_expr_spec(c, p + 1, 0, true, d) {
            Err(e) => Err(e),
            Ok((e, q)) => if 0 <= q < c.toks.len() {
                if c.toks[q].kind == TokenKind::Close {
                    Ok((e, q + 1))
                } else {
                    Err(
                        syntax(
                            "Expected closing parenthesis ')' but found '"@ + c.toks[q].text
                                + "' at position "@ + dec(c.toks[q].position as nat)
                                + " (opening at position "@ + dec(open as nat) + ")"@,
                        ),
                    )
                }
            } else {
                Err(
                    syntax(
                        "Expected closing parenthesis ')' but found end of input (opening at position "@
                            + dec(open as nat) + ")"@,
                    ),
                )
            },
        }
    }
}

/// Function calls, array reads and attribute reads that follow an expression.
pub open spec fn postfix_spec(c: PCfg, lhs: Ast, p: int, d: int) -> PRes
    decreases c.max + 1 - d, c.toks.len() - p, 6int,
{
    if 0 <= p < c.toks.len() {
        let t = c.toks[p];
        let r = if t.kind == TokenKind::Open && is1(t.text, '(') {
            Some(call_spec(c, lhs, p, d))
        } else if t.kind == TokenKind::Open && is1(t.text, '[') {
            Some(array_spec(c, lhs, p, d))
        } else if t.kind == TokenKind::Operator && is1(t.text, '.') {
            Some(attr_spec(c, lhs, p, d))
        } else {
            None
        };
        match r {
            None => Ok((lhs, p)),
            Some(Err(e)) => Err(e),
            Some(Ok((l2, q))) => if p < q <= c.toks.len() {
                postfix_spec(c, l2, q, d)
            } else {
                Ok((l2, q))
            },
        }
    } else {
        Ok((lhs, p))
    }
}

/// The name under which a call of `lhs` is made, if it can be called.
pub open spec fn callee_name(lhs: Ast) -> Option<Seq<char>> {
    match lhs {
        Ast::Variable(n) => Some(n),
        Ast::Attribute(_, a) => Some(a),
        _ => None,
    }
}

/// A function call; token `p` is its opening parenthesis.
pub open spec fn call_spec(c: PCfg, lhs: Ast, p: int, d: int) -> PRes
    decreases c.max + 1 - d, c.toks.len() - p, 3int,
{
    match callee_name(lhs) {
        None => Err(syntax("Function call on non-function expression"@)),
        Some(name) => {
            let q = p + 1;
            if 0 <= q < c.toks.len() && c.toks[q].kind != TokenKind::Close {
                match args_spec(c, q, d) {
                    Err(e) => Err(e),
                    Ok((args, q2)) => finish_call(c, name, args, q2),
                }
            } else {
                finish_call(c, name, Seq::empty(), q)
            }
        },
    }
}

/// The closing parenthesis of a call at token `q`.
pub open spec fn finish_call(c: PCfg, name: Seq<char>, args: Seq<Ast>, q: int) -> PRes {
    if 0 <= q < c.toks.len() {
        if c.toks[q].kind == TokenKind::Close {
            Ok((Ast::Function(name, default_args(name, args)), q + 1))
        } else {
            Err(
                syntax(
                    "Expected closing parenthesis ')' but found '"@ + c.toks[q].text
                        + "' at position "@ + dec(c.toks[q].position as nat) + " in function call"@,
                ),
            )
        }
    } else {
        Err(ErrSpec::UnmatchedParenthesis { position: c.input_len, found: seq!['('] })
    }
}

/// The arguments of a call, from its first one at token `q`.
pub open spec fn args_spec(c: PCfg, q: int, d: int) -> Result<(Seq<Ast>, int), ErrSpec>
    decreases c.max + 1 - d, c.toks.len() - q, 2int,
{
    match parse_expr_spec(c, q, 0, false, d) {
        Err(e) => Err(e),
        Ok((a, q1)) => if q < q1 <= c.toks.len() {
            args_rest(c, seq![a], q1, d)
        } else {
            Ok((seq![a], q1))
        },
    }
}

/// Further arguments, each after a comma.
pub open spec fn args_rest(c: PCfg, acc: Seq<Ast>, q: int, d: int) -> Result<
    (Seq<Ast>, int),
    ErrSpec,
>
    decreases c.max + 1 - d, c.toks.len() - q, 2int,
{
    if 0 <= q < c.toks.len() {
        let t = c.toks[q];
        if t.kind == TokenKind::Separator && is1(t.text, ',') {
            match parse_expr_spec(c, q + 1, 0, false, d) {
                Err(e) => Err(e),
                Ok((a, q2)) => if q < q2 <= c.toks.len() {
                    args_rest(c, acc.push(a), q2, d)
                } else {
                    Ok((acc.push(a), q2))
                },
            }
        } else if t.kind == TokenKind::Close {
            Ok((acc, q))
        } else {
            Err(
                syntax(
                    "Expected ',' or ')' but found '"@ + t.text + "' at position "@ + dec(
                        t.position as nat,
                    ) + " in function call"@,
                ),
            )
        }
    } else {
        Ok((acc, q))
    }
}

/// An array read; token `p` is its opening bracket.
pub open spec fn array_spec(c: PCfg, lhs: Ast, p: int, d: int) -> PRes
    decreases c.max + 1 - d, c.toks.len() - p, 3int,
{
    if p < 0 || p >= c.toks.len() {
        Err(syntax("Unexpected end of input"@))
    } else {
        match lhs {
            Ast::Variable(name) => {
                let open = c.toks[p].position;
                match parse_expr_spec(c, p + 1, 0, true, d) {
                    Err(e) => Err(e),
                    Ok((idx, q)) => if 0 <= q < c.toks.len() && c.toks[q].kind == TokenKind::Close {
                        Ok((Ast::Array(name, Box::new(idx)), q + 1))
                    } else {
                        Err(closing_err(c, q, "closing bracket ']'"@, open))
                    },
                }
            },
            _ => Err(
                syntax(
                    "Array access on non-array expression at position "@ + dec(
                        c.toks[p].position as nat,
                    ),
                ),
            ),
        }
    }
}

/// An attribute read; token `p` is its dot.
pub open spec fn attr_spec(c: PCfg, lhs: Ast, p: int, d: int) -> PRes
    decreases c.max + 1 - d, c.toks.len() - p, 3int,
{
    if p < 0 || p >= c.toks.len() {
        Err(syntax("Unexpected end of input"@))
    } else {
        let dot = c.toks[p].position;
        let q = p + 1;
        if q < c.toks.len() && c.toks[q].kind == TokenKind::Variable {
            match lhs {
                Ast::Variable(base) => Ok((Ast::Attribute(base, c.toks[q].text), q + 1)),
                _ => Err(
                    syntax(
                        "Attribute access on non-object expression at position "@ + dec(
                            dot as nat,
                        ),
                    ),
                ),
            }
        } else {
            Err(expect_err(c, q, "Expected attribute name"@))
        }
    }
}

/// The error of a missing closing token at `q`; `open` is where the opening one stands.
pub open spec fn closing_err(c: PCfg, q: int, expected: Seq<char>, open: int) -> ErrSpec {
    if 0 <= q < c.toks.len() {
        syntax(
            "Expected "@ + expected + " at position "@ + dec(c.toks[q].position as nat)
                + ", found '"@ + c.toks[q].text + "' (opening at position "@ + dec(open as nat)
                + ")"@,
        )
    } else {
        syntax(
            "Expected "@ + expected + " but found end of input (opening at position "@ + dec(
                open as nat,
            ) + ")"@,
        )
    }
}

/// The error of an unexpected token at `q`, which is not a closing token that was expected.
pub open spec fn expect_err(c: PCfg, q: int, msg: Seq<char>) -> ErrSpec {
    if 0 <= q < c.toks.len() {
        syntax(
            msg + " at position "@ + dec(c.toks[q].position as nat) + ", found '"@
                + c.toks[q].text + "'"@,
        )
    } else {
        syntax(msg + " at position "@ + dec(0) + ", found '"@ + "end of input"@ + "'"@)
    }
}

/// The token at `p` read as an infix operator (a comma or semicolon only where allowed).
pub open spec fn infix_op_at(c: PCfg, p: int, allow: bool) -> bool {
    let t = c.toks[p];
    t.kind == TokenKind::Operator || (t.kind == TokenKind::Separator && (is1(t.text, ',') || is1(
        t.text,
        ';',
    )) && allow)
}

/// Infix operators, each binding at least as tightly as `min_bp`, applied left to right.
pub open spec fn infix_spec(c: PCfg, lhs: Ast, p: int, min_bp: int, allow: bool, d: int) -> PRes
    decreases c.max + 1 - d, c.toks.len() - p, 6int,
{
    if 0 <= p < c.toks.len() && infix_op_at(c, p, allow) && bp_spec(c.toks[p].text).is_some()
        && bp_spec(c.toks[p].text).unwrap().0 >= min_bp {
        let t = c.toks[p];
        let (l, r) = bp_spec(t.text).unwrap();
        let rbp = if is1(t.text, '^') || is2(t.text, '*', '*') {
            r - 1
        } else {
            r
        };
        match parse_expr_spec(c, p + 1, rbp, allow, d) {
            Err(e) => Err(e),
            Ok((rhs, q)) => {
                let nl = Ast::Function(t.text, seq![lhs, rhs]);
                if p < q <= c.toks.len() {
                    infix_spec(c, nl, q, min_bp, allow, d)
                } else {
                    Ok((nl, q))
                }
            },
        }
    } else {
        Ok((lhs, p))
    }
}

/// A token that can start the argument of an implicit function application: the argument
/// is a primary (a number, a name or a parenthesized expression), so `f -1` is a subtraction.
pub open spec fn starts_juxtaposed(t: TokenSpec) -> bool {
    t.kind == TokenKind::Number || t.kind == TokenKind::Variable || t.kind == TokenKind::Open
}

/// Implicit function application: a name followed directly by its argument, as in `sin x`.
pub open spec fn juxt_spec(c: PCfg, lhs: Ast, p: int, allow: bool, d: int) -> PRes
    decreases c.max + 1 - d, c.toks.len() - p, 6int,
{
    if 0 <= p < c.toks.len() && starts_juxtaposed(c.toks[p]) {
        match lhs {
            Ast::Variable(name) => if !blocks_juxtaposition(c, name) {
                match parse_expr_spec(c, p, 16, allow, d) {
                    Err(e) => Err(e),
                    Ok((arg, q)) => Ok((Ast::Function(name, seq![arg]), q)),
                }
            } else {
                Ok((lhs, p))
            },
            _ => Ok((lhs, p)),
        }
    } else {
        Ok((lhs, p))
    }
}

/// A whole expression: what follows it may only be an error token.
pub open spec fn parse_all_spec(c: PCfg) -> Result<Ast, ErrSpec> {
    match parse_expr_spec(c, 0, 0, true, 0) {
        Err(e) => Err(e),
        Ok((e, p)) => if 0 <= p < c.toks.len() {
            let t = c.toks[p];
            if t.kind == TokenKind::Error {
                Ok(e)
            } else if t.kind == TokenKind::Close {
                Err(
                    syntax(
                        "Unexpected closing parenthesis at position "@ + dec(t.position as nat)
                            + ": check for balanced parentheses"@,
                    ),
                )
            } else {
                Err(
                    syntax(
                        "Unexpected token at position "@ + dec(t.position as nat) + ": '"@ + t.text
                            + "'"@,
                    ),
                )
            }
        } else {
            Ok(e)
        },
    }
}

} // verus!

verus! {

/// The maximum number of characters that may follow the first token of an expression.
pub const MAX_EXPRESSION_LENGTH: usize = 10000;

/// How deeply expressions may nest.
pub const MAX_RECURSION_DEPTH: usize = 2000;

/// Token binding powers for the Pratt parser.
#[derive(Debug, Clone, Copy)]
pub struct BindingPower {
    pub left: u8,
    pub right: u8,
}

impl BindingPower {
    pub fn new(left: u8, right: u8) -> (r: Self)
        ensures
            r.left == left,
            r.right == right,
    {
        BindingPower { left, right }
    }

    /// A left-associative operator binds its right side one step tighter.
    pub fn left_assoc(power: u8) -> (r: Self)
        requires
            power < 255,
        ensures
            r.left == power,
            r.right == power + 1,
    {
        Self::new(power, power + 1)
    }

    /// A right-associative operator binds both sides equally.
    pub fn right_assoc(power: u8) -> (r: Self)
        ensures
            r.left == power,
            r.right == power,
    {
        Self::new(power, power)
    }
}

pub open spec fn names_view(v: Option<Vec<String>>) -> Option<Seq<Seq<char>>> {
    match v {
        Some(v) => Some(Seq::new(v.len() as nat, |i: int| v@[i]@)),
        None => None,
    }
}

fn text_is1(t: &String, a: char) -> (b: bool)
    ensures
        b == is1(t@, a),
{
    let s = t.as_str();
    s.unicode_len() == 1 && s.get_char(0) == a
}

fn text_is2(t: &String, a: char, b: char) -> (r: bool)
    ensures
        r == is2(t@, a, b),
{
    let s = t.as_str();
    s.unicode_len() == 2 && s.get_char(0) == a && s.get_char(1) == b
}

fn list_contains(v: &Vec<String>, name: &String) -> (b: bool)
    ensures
        b == Seq::new(v.len() as nat, |i: int| v@[i]@).contains(name@),
{
    let ghost vs = Seq::new(v.len() as nat, |i: int| v@[i]@);
    let mut i: usize = 0;
    while i < v.len()
        invariant
            i <= v.len(),
            vs == Seq::new(v.len() as nat, |i: int| v@[i]@),
            forall|k: int| 0 <= k < i ==> vs[k] != name@,
        decreases v.len() - i,
    {
        if v[i] == *name {
            assert(vs[i as int] == name@);
            return true;
        }
        i = i + 1;
    }
    assert forall|k: int| 0 <= k < vs.len() implies vs[k] != name@ by {}
    false
}

/// `prefix` + the decimal form of `n` + `mid` + `text` + `suffix`.
fn message(prefix: &str, n: usize, mid: &str, text: &str, suffix: &str) -> (s: String)
    ensures
        s@ == prefix@ + dec(n as nat) + mid@ + text@ + suffix@,
{
    let mut s = String::from_str(prefix);
    let d = decimal(n);
    s.append(d.as_str());
    s.append(mid);
    s.append(text);
    s.append(suffix);
    s
}

/// A copy of a token.
fn copy_token(t: &Token) -> (r: Token)
    ensures
        r@ == t@,
{
    Token { kind: t.kind, text: t.text.clone(), position: t.position }
}

pub proof fn lemma_args_view_push(s: Seq<AstExpr>, x: AstExpr)
    ensures
        args_view(s.push(x)) == args_view(s).push(ast_view(x)),
    decreases s.len(),
{
    if s.len() == 0 {
        assert(s.push(x).drop_first() == Seq::<AstExpr>::empty());
        assert(args_view(Seq::<AstExpr>::empty()) == Seq::<Ast>::empty());
        assert(args_view(s.push(x)) == seq![ast_view(x)] + Seq::<Ast>::empty());
    } else {
        assert(s.push(x).drop_first() == s.drop_first().push(x));
        lemma_args_view_push(s.drop_first(), x);
        assert(args_view(s.push(x)) == seq![ast_view(s[0])] + args_view(s.drop_first().push(x)));
    }
}

pub proof fn lemma_args_view_len(s: Seq<AstExpr>)
    ensures
        args_view(s).len() == s.len(),
    decreases s.len(),
{
    if s.len() > 0 {
        lemma_args_view_len(s.drop_first());
    }
}

pub proof fn lemma_args_view_empty()
    ensures
        args_view(Seq::<AstExpr>::empty()) == Seq::<Ast>::empty(),
{
}

/// Whether `r` is what `s` says, with the parser left at `after`.
pub closed spec fn matches(r: Result<AstExpr, ExprError>, s: PRes, after: PrattParser, depth: usize) -> bool {
    match s {
        Ok((a, q)) => {
            &&& r.is_ok()
            &&& ast_view(r.unwrap()) == a
            &&& after.pos == q
            &&& after.recursion_depth == depth
        },
        Err(e) => {
            &&& r.is_err()
            &&& r->Err_0@ == e
        },
    }
}

/// A Pratt parser over the tokens of an expression.
pub struct PrattParser {
    tokens: Vec<Token>,
    pos: usize,
    input_len: usize,
    remaining: String,
    recursion_depth: usize,
    max_recursion_depth: usize,
    reserved_vars: Option<Vec<String>>,
    context_vars: Option<Vec<String>>,
}

impl PrattParser {
    pub closed spec fn cfg(&self) -> PCfg {
        PCfg {
            toks: tokens_view(self.tokens@),
            input_len: self.input_len as int,
            reserved: names_view(self.reserved_vars),
            context: names_view(self.context_vars),
            max: self.max_recursion_depth as int,
        }
    }

    pub closed spec fn wf(&self) -> bool {
        &&& self.pos <= self.tokens.len()
        &&& self.recursion_depth <= self.max_recursion_depth
        &&& self.max_recursion_depth == MAX_RECURSION_DEPTH
    }

    pub closed spec fn spec_pos(&self) -> int {
        self.pos as int
    }

    pub closed spec fn spec_depth(&self) -> int {
        self.recursion_depth as int
    }

    pub closed spec fn remaining_view(&self) -> Seq<char> {
        self.remaining@
    }

    /// A parser at the first token of `input`.
    pub fn new(input: &str) -> (p: Self)
        ensures
            p.wf(),
            p.cfg() == (PCfg {
                toks: lex(input@),
                input_len: input@.len() as int,
                reserved: None,
                context: None,
                max: MAX_RECURSION_DEPTH as int,
            }),
            p.spec_pos() == 0,
            p.spec_depth() == 0,
            p.remaining_view() == remaining_after_first(input@),
    {
        let chars = crate::types::chars_of(input);
        let tokens = tokenize(input);
        proof {
            lemma_lex_in_bounds(input@);
        }
        let first_end = if tokens.len() > 0 {
            assert(tokens_view(tokens@)[0] == tokens@[0]@);
            tokens[0].position + tokens[0].text.as_str().unicode_len()
        } else {
            chars.len()
        };
        let remaining = crate::types::string_from_chars(&chars, first_end, chars.len());
        PrattParser {
            tokens,
            pos: 0,
            input_len: chars.len(),
            remaining,
            recursion_depth: 0,
            max_recursion_depth: MAX_RECURSION_DEPTH,
            reserved_vars: None,
            context_vars: None,
        }
    }

    /// A parser that never applies the given parameter or context names to what follows them.
    pub fn with_reserved_vars_and_context(
        input: &str,
        reserved_vars: Option<&[String]>,
        context_vars: Option<&[String]>,
    ) -> (p: Self)
        ensures
            p.wf(),
            p.cfg() == (PCfg {
                toks: lex(input@),
                input_len: input@.len() as int,
                reserved: match reserved_vars {
                    Some(v) => Some(Seq::new(v@.len(), |i: int| v@[i]@)),
                    None => None,
                },
                context: match context_vars {
                    Some(v) => Some(Seq::new(v@.len(), |i: int| v@[i]@)),
                    None => None,
                },
                max: MAX_RECURSION_DEPTH as int,
            }),
            p.spec_pos() == 0,
            p.spec_depth() == 0,
            p.remaining_view() == remaining_after_first(input@),
    {
        let mut parser = Self::new(input);
        match reserved_vars {
            Some(vars) => {
                parser.reserved_vars = Some(copy_names(vars));
            },
            None => {},
        }
        match context_vars {
            Some(vars) => {
                parser.context_vars = Some(copy_names(vars));
            },
            None => {},
        }
        parser
    }

    /// The current token.
    pub fn peek(&self) -> (t: Option<&Token>)
        requires
            self.wf(),
        ensures
            t.is_some() == (self.spec_pos() < self.cfg().toks.len()),
            t.is_some() ==> t.unwrap()@ == self.cfg().toks[self.spec_pos()],
    {
        if self.pos < self.tokens.len() {
            assert(tokens_view(self.tokens@)[self.pos as int] == self.tokens@[self.pos as int]@);
            Some(&self.tokens[self.pos])
        } else {
            None
        }
    }

    /// Takes the current token and moves to the next one.
    pub fn next(&mut self) -> (t: Option<Token>)
        requires
            old(self).wf(),
        ensures
            final(self).wf(),
            final(self).cfg() == old(self).cfg(),
            final(self).spec_depth() == old(self).spec_depth(),
            final(self).remaining_view() == old(self).remaining_view(),
            old(self).spec_pos() < old(self).cfg().toks.len() ==> {
                &&& t.is_some()
                &&& t.unwrap()@ == old(self).cfg().toks[old(self).spec_pos()]
                &&& final(self).spec_pos() == old(self).spec_pos() + 1
            },
            old(self).spec_pos() >= old(self).cfg().toks.len() ==> t.is_none() && final(self).spec_pos() == old(self).spec_pos(),
    {
        if self.pos < self.tokens.len() {
            assert(tokens_view(self.tokens@)[self.pos as int] == self.tokens@[self.pos as int]@);
            let t = copy_token(&self.tokens[self.pos]);
            self.pos = self.pos + 1;
            Some(t)
        } else {
            None
        }
    }

    /// Takes the current token if it is of the given kind; otherwise reports it.
    pub fn expect(&mut self, kind: TokenKind, error_msg: &str) -> (r: Result<Token, ExprError>)
        requires
            old(self).wf(),
        ensures
            final(self).wf(),
            final(self).cfg() == old(self).cfg(),
            final(self).spec_depth() == old(self).spec_depth(),
            final(self).remaining_view() == old(self).remaining_view(),
            ({
                let c = old(self).cfg();
                let q = old(self).spec_pos();
                if q < c.toks.len() && c.toks[q].kind == kind {
                    &&& r.is_ok()
                    &&& r.unwrap()@ == c.toks[q]
                    &&& final(self).spec_pos() == q + 1
                } else if q < c.toks.len() && kind == TokenKind::Close {
                    &&& r.is_err()
                    &&& r->Err_0@ == ErrSpec::UnmatchedParenthesis {
                        position: c.toks[q].position,
                        found: c.toks[q].text,
                    }
                    &&& final(self).spec_pos() == q
                } else {
                    &&& r.is_err()
                    &&& r->Err_0@ == expect_err(c, q, error_msg@)
                    &&& final(self).spec_pos() == q
                }
            }),
    {
        proof {
            assert(self.pos < self.tokens.len() ==> tokens_view(self.tokens@)[self.pos as int]
                == self.tokens@[self.pos as int]@);
        }
        if self.pos < self.tokens.len() {
            if self.tokens[self.pos].kind == kind {
                let t = self.next();
                return Ok(t.unwrap());
            }
            if kind == TokenKind::Close {
                let position = self.tokens[self.pos].position;
                let found = self.tokens[self.pos].text.clone();
                return Err(ExprError::UnmatchedParenthesis { position, found });
            }
            let t = &self.tokens[self.pos];
            let mut pre = String::from_str(error_msg);
            pre.append(" at position ");
            Err(ExprError::Syntax(message(pre.as_str(), t.position, ", found '", t.text.as_str(), "'")))
        } else {
            let mut pre = String::from_str(error_msg);
            pre.append(" at position ");
            Err(ExprError::Syntax(message(pre.as_str(), 0, ", found '", "end of input", "'")))
        }
    }
}

/// What follows the first token of an input.
pub open spec fn remaining_after_first(s: Seq<char>) -> Seq<char> {
    let toks = lex(s);
    if toks.len() > 0 {
        s.subrange(toks[0].position + toks[0].text.len(), s.len() as int)
    } else {
        Seq::empty()
    }
}

fn copy_names(v: &[String]) -> (r: Vec<String>)
    ensures
        Seq::new(r@.len(), |i: int| r@[i]@) == Seq::new(v@.len(), |i: int| v@[i]@),
{
    let mut r: Vec<String> = Vec::new();
    let mut i: usize = 0;
    while i < v.len()
        invariant
            i <= v@.len(),
            r@.len() == i,
            forall|k: int| 0 <= k < i ==> r@[k]@ == v@[k]@,
        decreases v@.len() - i,
    {
        r.push(v[i].clone());
        i = i + 1;
    }
    assert(Seq::new(r@.len(), |i: int| r@[i]@) =~= Seq::new(v@.len(), |i: int| v@[i]@));
    r
}

} // verus!

verus! {

impl PrattParser {
    fn recursion_error(&self) -> (e: ExprError)
        ensures
            e@ == ErrSpec::RecursionLimit(recursion_message(self.max_recursion_depth as int)),
    {
        let mut s = String::from_str("Expression too complex: exceeded maximum recursion depth of ");
        let d = decimal(self.max_recursion_depth);
        s.append(d.as_str());
        ExprError::RecursionLimit(s)
    }

    proof fn tok_view_lemma(&self)
        requires
            self.pos < self.tokens.len(),
        ensures
            self.cfg().toks[self.pos as int] == self.tokens@[self.pos as int]@,
    {
    }

    fn parse_expr_unified(&mut self, min_bp: u8, allow_comma: bool) -> (r: Result<AstExpr, ExprError>)
        requires
            old(self).wf(),
        ensures
            final(self).wf(),
            final(self).cfg() == old(self).cfg(),
            matches(
                r,
                parse_expr_spec(
                    old(self).cfg(),
                    old(self).pos as int,
                    min_bp as int,
                    allow_comma,
                    old(self).recursion_depth as int,
                ),
                *final(self),
                old(self).recursion_depth,
            ),
        decreases old(self).max_recursion_depth + 1 - old(self).recursion_depth, old(
            self,
        ).tokens.len() - old(self).pos, 0int,
    {
        if self.recursion_depth >= self.max_recursion_depth {
            return Err(self.recursion_error());
        }
        self.recursion_depth = self.recursion_depth + 1;
        let lhs = match self.parse_prefix_or_primary(allow_comma) {
            Ok(l) => l,
            Err(e) => return Err(e),
        };
        let lhs = match self.parse_postfix(lhs) {
            Ok(l) => l,
            Err(e) => return Err(e),
        };
        let lhs = match self.parse_infix_operators(lhs, min_bp, allow_comma) {
            Ok(l) => l,
            Err(e) => return Err(e),
        };
        let lhs = match self.parse_juxtaposition(lhs, allow_comma) {
            Ok(l) => l,
            Err(e) => return Err(e),
        };
        self.recursion_depth = self.recursion_depth - 1;
        Ok(lhs)
    }

    fn parse_prefix_or_primary(&mut self, allow_comma: bool) -> (r: Result<AstExpr, ExprError>)
        requires
            old(self).wf(),
        ensures
            final(self).wf(),
            final(self).cfg() == old(self).cfg(),
            matches(
                r,
                prefix_spec(
                    old(self).cfg(),
                    old(self).pos as int,
                    allow_comma,
                    old(self).recursion_depth as int,
                ),
                *final(self),
                old(self).recursion_depth,
            ),
        decreases old(self).max_recursion_depth + 1 - old(self).recursion_depth, old(
            self,
        ).tokens.len() - old(self).pos, 5int,
    {
        if self.pos < self.tokens.len() && self.tokens[self.pos].kind == TokenKind::Operator {
            proof {
                self.tok_view_lemma();
            }
            let bp = Self::get_prefix_binding_power(self.tokens[self.pos].text.as_str());
            match bp {
                Some(r_bp) => {
                    let op_position = self.tokens[self.pos].position;
                    let is_minus = text_is1(&self.tokens[self.pos].text, '-');
                    let op_text = self.tokens[self.pos].text.clone();
                    self.pos = self.pos + 1;
                    if self.pos >= self.tokens.len() {
                        let mut m = String::from_str("Expected expression after '");
                        m.append(op_text.as_str());
                        m.append("' at position ");
                        let d = decimal(op_position);
                        m.append(d.as_str());
                        return Err(ExprError::Syntax(m));
                    }
                    let rhs = match self.parse_expr_unified(r_bp, allow_comma) {
                        Ok(e) => e,
                        Err(e) => return Err(e),
                    };
                    if is_minus {
                        let name = String::from_str("neg");
                        let ghost rv = ast_view(rhs);
                        let args = vec![rhs];
                        proof {
                            reveal_strlit("neg");
                            lemma_args_view_push(Seq::empty(), rhs);
                            lemma_args_view_empty();
                            assert(args@ == Seq::<AstExpr>::empty().push(rhs));
                            assert(args_view(args@) == seq![rv]);
                            assert(name@ == neg_name());
                        }
                        Ok(AstExpr::Function { name, args })
                    } else {
                        Ok(rhs)
                    }
                },
                None => self.parse_primary(),
            }
        } else {
            self.parse_primary()
        }
    }

    fn parse_primary(&mut self) -> (r: Result<AstExpr, ExprError>)
        requires
            old(self).wf(),
        ensures
            final(self).wf(),
            final(self).cfg() == old(self).cfg(),
            matches(
                r,
                primary_spec(old(self).cfg(), old(self).pos as int, old(self).recursion_depth as int),
                *final(self),
                old(self).recursion_depth,
            ),
        decreases old(self).max_recursion_depth + 1 - old(self).recursion_depth, old(
            self,
        ).tokens.len() - old(self).pos, 4int,
    {
        if self.pos >= self.tokens.len() {
            return Err(ExprError::Syntax(String::from_str("Unexpected end of input")));
        }
        proof {
            self.tok_view_lemma();
        }
        let kind = self.tokens[self.pos].kind;
        if kind == TokenKind::Number {
            let t = self.tokens[self.pos].text.clone();
            self.pos = self.pos + 1;
            Ok(AstExpr::Constant(t))
        } else if kind == TokenKind::Variable {
            let t = self.tokens[self.pos].text.clone();
            self.pos = self.pos + 1;
            Ok(AstExpr::Variable(t))
        } else if kind == TokenKind::Open && text_is1(&self.tokens[self.pos].text, '(') {
            self.parse_parenthesized_expr()
        } else if kind == TokenKind::Close {
            let t = &self.tokens[self.pos];
            Err(
                ExprError::Syntax(
                    message(
                        "Unexpected closing parenthesis at position ",
                        t.position,
                        ": '",
                        t.text.as_str(),
                        "'",
                    ),
                ),
            )
        } else {
            let t = &self.tokens[self.pos];
            Err(
                ExprError::Syntax(
                    message("Unexpected token at position ", t.position, ": '", t.text.as_str(), "'"),
                ),
            )
        }
    }
}

} // verus!

verus! {

impl PrattParser {
    fn parse_parenthesized_expr(&mut self) -> (r: Result<AstExpr, ExprError>)
        requires
            old(self).wf(),
        ensures
            final(self).wf(),
            final(self).cfg() == old(self).cfg(),
            matches(
                r,
                paren_spec(old(self).cfg(), old(self).pos as int, old(self).recursion_depth as int),
                *final(self),
                old(self).recursion_depth,
            ),
        decreases old(self).max_recursion_depth + 1 - old(self).recursion_depth, old(
            self,
        ).tokens.len() - old(self).pos, 3int,
    {
        if self.pos >= self.tokens.len() {
            return Err(ExprError::Syntax(String::from_str("Unexpected end of input")));
        }
        proof {
            self.tok_view_lemma();
        }
        let open_position = self.tokens[self.pos].position;
        self.pos = self.pos + 1;
        let expr = match self.parse_expr_unified(0, true) {
            Ok(e) => e,
            Err(e) => return Err(e),
        };
        if self.pos < self.tokens.len() {
            proof {
                self.tok_view_lemma();
            }
            if self.tokens[self.pos].kind == TokenKind::Close {
                self.pos = self.pos + 1;
                return Ok(expr);
            }
            let t = &self.tokens[self.pos];
            let mut m = String::from_str("Expected closing parenthesis ')' but found '");
            m.append(t.text.as_str());
            m.append("' at position ");
            let d = decimal(t.position);
            m.append(d.as_str());
            m.append(" (opening at position ");
            let d2 = decimal(open_position);
            m.append(d2.as_str());
            m.append(")");
            return Err(ExprError::Syntax(m));
        }
        let mut m = String::from_str(
            "Expected closing parenthesis ')' but found end of input (opening at position ",
        );
        let d = decimal(open_position);
        m.append(d.as_str());
        m.append(")");
        Err(ExprError::Syntax(m))
    }

    fn parse_postfix(&mut self, lhs: AstExpr) -> (r: Result<AstExpr, ExprError>)
        requires
            old(self).wf(),
        ensures
            final(self).wf(),
            final(self).cfg() == old(self).cfg(),
            matches(
                r,
                postfix_spec(
                    old(self).cfg(),
                    ast_view(lhs),
                    old(self).pos as int,
                    old(self).recursion_depth as int,
                ),
                *final(self),
                old(self).recursion_depth,
            ),
        decreases old(self).max_recursion_depth + 1 - old(self).recursion_depth, old(
            self,
        ).tokens.len() - old(self).pos, 6int,
    {
        if self.pos >= self.tokens.len() {
            return Ok(lhs);
        }
        proof {
            self.tok_view_lemma();
        }
        let p = self.pos;
        let kind = self.tokens[p].kind;
        let r = if kind == TokenKind::Open && text_is1(&self.tokens[p].text, '(') {
            self.parse_function_call(lhs)
        } else if kind == TokenKind::Open && text_is1(&self.tokens[p].text, '[') {
            self.parse_array_access(lhs)
        } else if kind == TokenKind::Operator && text_is1(&self.tokens[p].text, '.') {
            self.parse_attribute_access(lhs)
        } else {
            return Ok(lhs);
        };
        match r {
            Err(e) => Err(e),
            Ok(l2) => if p < self.pos {
                self.parse_postfix(l2)
            } else {
                Ok(l2)
            },
        }
    }

    fn parse_function_call(&mut self, expr: AstExpr) -> (r: Result<AstExpr, ExprError>)
        requires
            old(self).wf(),
            old(self).pos < old(self).tokens.len(),
        ensures
            final(self).wf(),
            final(self).cfg() == old(self).cfg(),
            matches(
                r,
                call_spec(
                    old(self).cfg(),
                    ast_view(expr),
                    old(self).pos as int,
                    old(self).recursion_depth as int,
                ),
                *final(self),
                old(self).recursion_depth,
            ),
        decreases old(self).max_recursion_depth + 1 - old(self).recursion_depth, old(
            self,
        ).tokens.len() - old(self).pos, 3int,
    {
        let name = match &expr {
            AstExpr::Variable(n) => n.clone(),
            AstExpr::Attribute { attr, .. } => attr.clone(),
            _ => {
                return Err(ExprError::Syntax(String::from_str("Function call on non-function expression")));
            },
        };
        self.pos = self.pos + 1;
        let mut args: Vec<AstExpr> = Vec::new();
        if self.pos < self.tokens.len() && self.tokens[self.pos].kind != TokenKind::Close {
            proof {
                self.tok_view_lemma();
            }
            match self.parse_args() {
                Ok(a) => {
                    args = a;
                },
                Err(e) => return Err(e),
            }
        } else {
            proof {
                if self.pos < self.tokens.len() {
                    self.tok_view_lemma()
                }
                lemma_args_view_empty();
            }
        }
        if self.pos < self.tokens.len() {
            proof {
                self.tok_view_lemma();
            }
            if self.tokens[self.pos].kind == TokenKind::Close {
                self.pos = self.pos + 1;
                let ghost before = args_view(args@);
                proof {
                    lemma_args_view_len(args@);
                }
                if args.len() == 1 && str_eq(name.as_str(), "pow") {
                    let two_text = String::from_str("2");
                    proof {
                        reveal_strlit("pow");
                        reveal_strlit("2");
                        assert(two_text@ == seq!['2']);
                        assert(name@ == seq!['p', 'o', 'w']);
                    }
                    let two = AstExpr::Constant(two_text);
                    proof {
                        lemma_args_view_push(args@, two);
                    }
                    args.push(two);
                    proof {
                        assert(args_view(args@) == before.push(Ast::Constant(seq!['2'])));
                        assert(default_args(name@, before) == before.push(Ast::Constant(seq!['2'])));
                    }
                } else if args.len() == 1 && str_eq(name.as_str(), "atan2") {
                    let one_text = String::from_str("1");
                    proof {
                        reveal_strlit("atan2");
                        reveal_strlit("1");
                        reveal_strlit("pow");
                        assert(one_text@ == seq!['1']);
                        assert(name@ == seq!['a', 't', 'a', 'n', '2']);
                    }
                    let one = AstExpr::Constant(one_text);
                    proof {
                        lemma_args_view_push(args@, one);
                    }
                    args.push(one);
                    proof {
                        assert(args_view(args@) == before.push(Ast::Constant(seq!['1'])));
                        assert(name@ != seq!['p', 'o', 'w']);
                        assert(default_args(name@, before) == before.push(Ast::Constant(seq!['1'])));
                    }
                } else {
                    proof {
                        reveal_strlit("atan2");
                        reveal_strlit("pow");
                        assert("pow"@ == seq!['p', 'o', 'w']);
                        assert("atan2"@ == seq!['a', 't', 'a', 'n', '2']);
                        assert(default_args(name@, before) == before);
                    }
                }
                return Ok(AstExpr::Function { name, args });
            }
            let t = &self.tokens[self.pos];
            let mut m = String::from_str("Expected closing parenthesis ')' but found '");
            m.append(t.text.as_str());
            m.append("' at position ");
            let d = decimal(t.position);
            m.append(d.as_str());
            m.append(" in function call");
            return Err(ExprError::Syntax(m));
        }
        let found = String::from_str("(");
        proof {
            reveal_strlit("(");
            assert(found@ == seq!['(']);
        }
        Err(ExprError::UnmatchedParenthesis { position: self.input_len, found })
    }
}

} // verus!

verus! {

impl PrattParser {
    fn parse_args(&mut self) -> (r: Result<Vec<AstExpr>, ExprError>)
        requires
            old(self).wf(),
        ensures
            final(self).wf(),
            final(self).cfg() == old(self).cfg(),
            match args_spec(old(self).cfg(), old(self).pos as int, old(self).recursion_depth as int) {
                Ok((a, q)) => {
                    &&& r.is_ok()
                    &&& args_view(r.unwrap()@) == a
                    &&& final(self).pos == q
                    &&& final(self).recursion_depth == old(self).recursion_depth
                },
                Err(e) => r.is_err() && r->Err_0@ == e,
            },
        decreases old(self).max_recursion_depth + 1 - old(self).recursion_depth, old(
            self,
        ).tokens.len() - old(self).pos, 2int,
    {
        let q = self.pos;
        let first = match self.parse_expr_unified(0, false) {
            Ok(e) => e,
            Err(e) => return Err(e),
        };
        let ghost fv = ast_view(first);
        let acc = vec![first];
        proof {
            lemma_args_view_push(Seq::empty(), first);
            assert(acc@ == Seq::<AstExpr>::empty().push(first));
            lemma_args_view_empty();
            assert(args_view(acc@) == seq![fv]);
        }
        if q < self.pos {
            self.parse_args_rest(acc)
        } else {
            Ok(acc)
        }
    }

    fn parse_args_rest(&mut self, acc: Vec<AstExpr>) -> (r: Result<Vec<AstExpr>, ExprError>)
        requires
            old(self).wf(),
        ensures
            final(self).wf(),
            final(self).cfg() == old(self).cfg(),
            match args_rest(
                old(self).cfg(),
                args_view(acc@),
                old(self).pos as int,
                old(self).recursion_depth as int,
            ) {
                Ok((a, q)) => {
                    &&& r.is_ok()
                    &&& args_view(r.unwrap()@) == a
                    &&& final(self).pos == q
                    &&& final(self).recursion_depth == old(self).recursion_depth
                },
                Err(e) => r.is_err() && r->Err_0@ == e,
            },
        decreases old(self).max_recursion_depth + 1 - old(self).recursion_depth, old(
            self,
        ).tokens.len() - old(self).pos, 2int,
    {
        if self.pos >= self.tokens.len() {
            return Ok(acc);
        }
        proof {
            self.tok_view_lemma();
        }
        let q = self.pos;
        if self.tokens[q].kind == TokenKind::Separator && text_is1(&self.tokens[q].text, ',') {
            self.pos = self.pos + 1;
            let a = match self.parse_expr_unified(0, false) {
                Ok(e) => e,
                Err(e) => return Err(e),
            };
            let mut acc = acc;
            proof {
                lemma_args_view_push(acc@, a);
            }
            acc.push(a);
            if q < self.pos {
                self.parse_args_rest(acc)
            } else {
                Ok(acc)
            }
        } else if self.tokens[q].kind == TokenKind::Close {
            Ok(acc)
        } else {
            let t = &self.tokens[q];
            let mut m = String::from_str("Expected ',' or ')' but found '");
            m.append(t.text.as_str());
            m.append("' at position ");
            let d = decimal(t.position);
            m.append(d.as_str());
            m.append(" in function call");
            Err(ExprError::Syntax(m))
        }
    }

    /// Takes the closing token that must follow; otherwise reports what stands there.
    pub fn expect_closing(&mut self, kind: TokenKind, expected: &str, opening_position: usize) -> (r:
        Result<(), ExprError>)
        requires
            old(self).wf(),
            kind == TokenKind::Close,
        ensures
            final(self).wf(),
            final(self).cfg() == old(self).cfg(),
            final(self).spec_depth() == old(self).spec_depth(),
            final(self).remaining_view() == old(self).remaining_view(),
            ({
                let c = old(self).cfg();
                let q = old(self).spec_pos();
                if q < c.toks.len() && c.toks[q].kind == kind {
                    r.is_ok() && final(self).spec_pos() == q + 1
                } else {
                    &&& r.is_err()
                    &&& r->Err_0@ == closing_err(c, q, expected@, opening_position as int)
                    &&& final(self).spec_pos() == q
                }
            }),
    {
        if self.pos < self.tokens.len() {
            proof {
                self.tok_view_lemma();
            }
            if self.tokens[self.pos].kind == kind {
                self.pos = self.pos + 1;
                return Ok(());
            }
            let t = &self.tokens[self.pos];
            let mut m = String::from_str("Expected ");
            m.append(expected);
            m.append(" at position ");
            let d = decimal(t.position);
            m.append(d.as_str());
            m.append(", found '");
            m.append(t.text.as_str());
            m.append("' (opening at position ");
            let d2 = decimal(opening_position);
            m.append(d2.as_str());
            m.append(")");
            return Err(ExprError::Syntax(m));
        }
        let mut m = String::from_str("Expected ");
        m.append(expected);
        m.append(" but found end of input (opening at position ");
        let d = decimal(opening_position);
        m.append(d.as_str());
        m.append(")");
        Err(ExprError::Syntax(m))
    }

    fn parse_array_access(&mut self, expr: AstExpr) -> (r: Result<AstExpr, ExprError>)
        requires
            old(self).wf(),
            old(self).pos < old(self).tokens.len(),
        ensures
            final(self).wf(),
            final(self).cfg() == old(self).cfg(),
            matches(
                r,
                array_spec(
                    old(self).cfg(),
                    ast_view(expr),
                    old(self).pos as int,
                    old(self).recursion_depth as int,
                ),
                *final(self),
                old(self).recursion_depth,
            ),
        decreases old(self).max_recursion_depth + 1 - old(self).recursion_depth, old(
            self,
        ).tokens.len() - old(self).pos, 3int,
    {
        proof {
            self.tok_view_lemma();
        }
        match expr {
            AstExpr::Variable(name) => {
                let open_position = self.tokens[self.pos].position;
                self.pos = self.pos + 1;
                let index = match self.parse_expr_unified(0, true) {
                    Ok(e) => e,
                    Err(e) => return Err(e),
                };
                match self.expect_closing(TokenKind::Close, "closing bracket ']'", open_position) {
                    Ok(()) => Ok(AstExpr::Array { name, index: Box::new(index) }),
                    Err(e) => Err(e),
                }
            },
            _ => {
                let position = self.tokens[self.pos].position;
                let m = message("Array access on non-array expression at position ", position, "", "", "");
                proof {
                    reveal_strlit("");
                    assert(m@ == "Array access on non-array expression at position "@ + dec(position as nat));
                }
                Err(ExprError::Syntax(m))
            },
        }
    }

    fn parse_attribute_access(&mut self, expr: AstExpr) -> (r: Result<AstExpr, ExprError>)
        requires
            old(self).wf(),
            old(self).pos < old(self).tokens.len(),
        ensures
            final(self).wf(),
            final(self).cfg() == old(self).cfg(),
            matches(
                r,
                attr_spec(
                    old(self).cfg(),
                    ast_view(expr),
                    old(self).pos as int,
                    old(self).recursion_depth as int,
                ),
                *final(self),
                old(self).recursion_depth,
            ),
    {
        proof {
            self.tok_view_lemma();
        }
        let dot_position = self.tokens[self.pos].position;
        self.pos = self.pos + 1;
        let attr_tok = match self.expect(TokenKind::Variable, "Expected attribute name") {
            Ok(t) => t,
            Err(e) => return Err(e),
        };
        match expr {
            AstExpr::Variable(base) => Ok(AstExpr::Attribute { base, attr: attr_tok.text }),
            _ => {
                let m = message("Attribute access on non-object expression at position ", dot_position, "", "", "");
                proof {
                    reveal_strlit("");
                    assert(m@ == "Attribute access on non-object expression at position "@ + dec(dot_position as nat));
                }
                Err(ExprError::Syntax(m))
            },
        }
    }
}

} // verus!

verus! {

fn str_is1(s: &str, a: char) -> (b: bool)
    ensures
        b == is1(s@, a),
{
    s.unicode_len() == 1 && s.get_char(0) == a
}

fn str_is2(s: &str, a: char, b: char) -> (r: bool)
    ensures
        r == is2(s@, a, b),
{
    s.unicode_len() == 2 && s.get_char(0) == a && s.get_char(1) == b
}

fn str_is3(s: &str, a: char, b: char, c: char) -> (r: bool)
    ensures
        r == is3(s@, a, b, c),
{
    s.unicode_len() == 3 && s.get_char(0) == a && s.get_char(1) == b && s.get_char(2) == c
}

impl PrattParser {
    /// Binding power of an infix operator, or `None` for a token that is not one.
    pub fn get_binding_power(op: &str) -> (r: Option<BindingPower>)
        ensures
            match bp_spec(op@) {
                Some((l, rr)) => r.is_some() && r.unwrap().left == l && r.unwrap().right == rr,
                None => r.is_none(),
            },
    {
        if str_is1(op, ',') || str_is1(op, ';') {
            Some(BindingPower::left_assoc(1))
        } else if str_is2(op, '|', '|') {
            Some(BindingPower::left_assoc(2))
        } else if str_is2(op, '&', '&') {
            Some(BindingPower::left_assoc(3))
        } else if str_is1(op, '|') {
            Some(BindingPower::left_assoc(4))
        } else if str_is1(op, '&') {
            Some(BindingPower::left_assoc(6))
        } else if str_is2(op, '=', '=') || str_is2(op, '!', '=') || str_is1(op, '<') || str_is1(
            op,
            '>',
        ) || str_is2(op, '<', '=') || str_is2(op, '>', '=') || str_is2(op, '<', '>') {
            Some(BindingPower::left_assoc(7))
        } else if str_is2(op, '<', '<') || str_is2(op, '>', '>') || str_is3(op, '<', '<', '<')
            || str_is3(op, '>', '>', '>') {
            Some(BindingPower::left_assoc(8))
        } else if str_is1(op, '+') || str_is1(op, '-') {
            Some(BindingPower::left_assoc(9))
        } else if str_is1(op, '*') || str_is1(op, '/') || str_is1(op, '%') {
            Some(BindingPower::left_assoc(10))
        } else if str_is1(op, '^') {
            Some(BindingPower::right_assoc(15))
        } else if str_is2(op, '*', '*') {
            Some(BindingPower::right_assoc(16))
        } else {
            None
        }
    }

    /// Binding power of a prefix operator, or `None` for a token that is not one.
    pub fn get_prefix_binding_power(op: &str) -> (r: Option<u8>)
        ensures
            match prefix_bp_spec(op@) {
                Some(b) => r == Some(b as u8),
                None => r.is_none(),
            },
    {
        if str_is1(op, '+') || str_is1(op, '-') || str_is1(op, '~') {
            Some(14)
        } else {
            None
        }
    }

    fn parse_infix_operators(&mut self, lhs: AstExpr, min_bp: u8, allow_comma: bool) -> (r: Result<
        AstExpr,
        ExprError,
    >)
        requires
            old(self).wf(),
        ensures
            final(self).wf(),
            final(self).cfg() == old(self).cfg(),
            matches(
                r,
                infix_spec(
                    old(self).cfg(),
                    ast_view(lhs),
                    old(self).pos as int,
                    min_bp as int,
                    allow_comma,
                    old(self).recursion_depth as int,
                ),
                *final(self),
                old(self).recursion_depth,
            ),
        decreases old(self).max_recursion_depth + 1 - old(self).recursion_depth, old(
            self,
        ).tokens.len() - old(self).pos, 6int,
    {
        if self.pos >= self.tokens.len() {
            return Ok(lhs);
        }
        proof {
            self.tok_view_lemma();
        }
        let p = self.pos;
        let kind = self.tokens[p].kind;
        let is_op = kind == TokenKind::Operator || (kind == TokenKind::Separator && (text_is1(
            &self.tokens[p].text,
            ',',
        ) || text_is1(&self.tokens[p].text, ';')) && allow_comma);
        if !is_op {
            return Ok(lhs);
        }
        let bp = match Self::get_binding_power(self.tokens[p].text.as_str()) {
            Some(bp) => bp,
            None => return Ok(lhs),
        };
        if bp.left < min_bp {
            return Ok(lhs);
        }
        let op = self.tokens[p].text.clone();
        let is_pow = text_is1(&op, '^') || text_is2(&op, '*', '*');
        self.pos = self.pos + 1;
        let rbp = if is_pow {
            bp.right - 1
        } else {
            bp.right
        };
        let rhs = match self.parse_expr_unified(rbp, allow_comma) {
            Ok(e) => e,
            Err(e) => return Err(e),
        };
        let ghost lv = ast_view(lhs);
        let ghost rv = ast_view(rhs);
        let args = vec![lhs, rhs];
        proof {
            lemma_args_view_push(Seq::empty(), lhs);
            lemma_args_view_push(seq![lhs], rhs);
            assert(seq![lhs] == Seq::<AstExpr>::empty().push(lhs));
            assert(args@ == seq![lhs].push(rhs));
            lemma_args_view_empty();
            assert(args_view(args@) == seq![lv, rv]);
        }
        let nl = AstExpr::Function { name: op, args };
        if p < self.pos {
            self.parse_infix_operators(nl, min_bp, allow_comma)
        } else {
            Ok(nl)
        }
    }

    fn blocks_juxtaposition(&self, name: &String) -> (b: bool)
        ensures
            b == blocks_juxtaposition(self.cfg(), name@),
    {
        let reserved = match &self.reserved_vars {
            Some(v) => list_contains(v, name),
            None => false,
        };
        let in_context = match &self.context_vars {
            Some(v) => list_contains(v, name),
            None => false,
        };
        reserved || in_context
    }

    fn parse_juxtaposition(&mut self, lhs: AstExpr, allow_comma: bool) -> (r: Result<AstExpr, ExprError>)
        requires
            old(self).wf(),
        ensures
            final(self).wf(),
            final(self).cfg() == old(self).cfg(),
            matches(
                r,
                juxt_spec(
                    old(self).cfg(),
                    ast_view(lhs),
                    old(self).pos as int,
                    allow_comma,
                    old(self).recursion_depth as int,
                ),
                *final(self),
                old(self).recursion_depth,
            ),
        decreases old(self).max_recursion_depth + 1 - old(self).recursion_depth, old(
            self,
        ).tokens.len() - old(self).pos, 6int,
    {
        if self.pos >= self.tokens.len() {
            return Ok(lhs);
        }
        proof {
            self.tok_view_lemma();
        }
        let t = &self.tokens[self.pos];
        let valid_rhs = t.kind == TokenKind::Number || t.kind == TokenKind::Variable || t.kind
            == TokenKind::Open;
        if !valid_rhs {
            return Ok(lhs);
        }
        match lhs {
            AstExpr::Variable(name) => {
                if self.blocks_juxtaposition(&name) {
                    return Ok(AstExpr::Variable(name));
                }
                let arg = match self.parse_expr_unified(16, allow_comma) {
                    Ok(e) => e,
                    Err(e) => return Err(e),
                };
                let ghost av = ast_view(arg);
                let args = vec![arg];
                proof {
                    lemma_args_view_push(Seq::empty(), arg);
                    assert(args@ == Seq::<AstExpr>::empty().push(arg));
                    lemma_args_view_empty();
                    assert(args_view(args@) == seq![av]);
                }
                Ok(AstExpr::Function { name, args })
            },
            other => Ok(other),
        }
    }
}

} // verus!

verus! {

pub open spec fn too_long_err(n: nat) -> ErrSpec {
    syntax("Expression too long: "@ + dec(n) + " characters (maximum is 10000)"@)
}

/// The length in bytes of the UTF-8 encoding of a text, as `str::len` gives it.
pub open spec fn byte_len(s: Seq<char>) -> usize {
    vstd::utf8::encode_utf8(s).len() as usize
}

/// The whole parse of an input by a parser made for it: the length check, in bytes, then the
/// expression.
pub open spec fn parse_tokens_spec(c: PCfg, remaining: Seq<char>) -> Result<Ast, ErrSpec> {
    if byte_len(remaining) > MAX_EXPRESSION_LENGTH {
        Err(too_long_err(byte_len(remaining) as nat))
    } else {
        parse_all_spec(c)
    }
}

pub open spec fn ternary_err() -> ErrSpec {
    syntax("Ternary expressions (? :) are not supported"@)
}

/// What parsing an expression gives, with the given parameter and context names.
pub open spec fn parse_text_spec(
    input: Seq<char>,
    reserved: Option<Seq<Seq<char>>>,
    context: Option<Seq<Seq<char>>>,
) -> Result<Ast, ErrSpec> {
    if input.contains('?') || input.contains(':') {
        Err(ternary_err())
    } else {
        parse_tokens_spec(
            PCfg {
                toks: lex(input),
                input_len: input.len() as int,
                reserved,
                context,
                max: MAX_RECURSION_DEPTH as int,
            },
            remaining_after_first(input),
        )
    }
}

pub open spec fn slice_names(v: Option<&[String]>) -> Option<Seq<Seq<char>>> {
    match v {
        Some(v) => Some(Seq::new(v@.len(), |i: int| v@[i]@)),
        None => None,
    }
}

pub open spec fn result_view(r: Result<AstExpr, ExprError>) -> Result<Ast, ErrSpec> {
    match r {
        Ok(a) => Ok(ast_view(a)),
        Err(e) => Err(e@),
    }
}

impl PrattParser {
    /// Refuses an expression whose UTF-8 encoding is longer than `MAX_EXPRESSION_LENGTH`
    /// bytes.
    pub fn check_expression_length(&self, input: &str) -> (r: Result<(), ExprError>)
        ensures
            byte_len(input@) <= MAX_EXPRESSION_LENGTH ==> r.is_ok(),
            byte_len(input@) > MAX_EXPRESSION_LENGTH ==> r.is_err() && r->Err_0@ == too_long_err(
                byte_len(input@) as nat,
            ),
    {
        let n = input.len();
        if n > MAX_EXPRESSION_LENGTH {
            let m = message("Expression too long: ", n, " characters (maximum is 10000)", "", "");
            proof {
                reveal_strlit("");
                assert(m@ == "Expression too long: "@ + dec(n as nat) + " characters (maximum is 10000)"@);
            }
            return Err(ExprError::Syntax(m));
        }
        Ok(())
    }

    /// Parses the whole expression; after it only an error token may follow.
    pub fn parse(&mut self) -> (r: Result<AstExpr, ExprError>)
        requires
            old(self).wf(),
            old(self).spec_pos() == 0,
        ensures
            result_view(r) == parse_tokens_spec(old(self).cfg(), old(self).remaining_view()),
    {
        match self.check_expression_length(self.remaining.as_str()) {
            Ok(()) => {},
            Err(e) => return Err(e),
        }
        self.recursion_depth = 0;
        let expr = match self.parse_expr_unified(0, true) {
            Ok(e) => e,
            Err(e) => return Err(e),
        };
        if self.pos < self.tokens.len() {
            proof {
                self.tok_view_lemma();
            }
            let t = &self.tokens[self.pos];
            if t.kind == TokenKind::Error {
                return Ok(expr);
            } else if t.kind == TokenKind::Close {
                let m = message(
                    "Unexpected closing parenthesis at position ",
                    t.position,
                    ": check for balanced parentheses",
                    "",
                    "",
                );
                proof {
                    reveal_strlit("");
                    assert(m@ == "Unexpected closing parenthesis at position "@ + dec(t.position as nat)
                        + ": check for balanced parentheses"@);
                }
                return Err(ExprError::Syntax(m));
            } else {
                return Err(
                    ExprError::Syntax(
                        message("Unexpected token at position ", t.position, ": '", t.text.as_str(), "'"),
                    ),
                );
            }
        }
        Ok(expr)
    }
}

fn has_ternary_char(input: &str) -> (b: bool)
    ensures
        b == (input@.contains('?') || input@.contains(':')),
{
    let chars = crate::types::chars_of(input);
    let mut i: usize = 0;
    while i < chars.len()
        invariant
            chars@ == input@,
            i <= chars.len(),
            forall|k: int| 0 <= k < i ==> chars@[k] != '?' && chars@[k] != ':',
        decreases chars.len() - i,
    {
        if chars[i] == '?' || chars[i] == ':' {
            assert(input@[i as int] == chars@[i as int]);
            return true;
        }
        i = i + 1;
    }
    false
}

/// Parses an expression; `reserved_vars` (function parameters) and `context_vars` (known
/// variables) are never applied by juxtaposition to what follows them.
pub fn parse_expression_with_context(
    input: &str,
    reserved_vars: Option<&[String]>,
    context_vars: Option<&[String]>,
) -> (r: Result<AstExpr, ExprError>)
    ensures
        result_view(r) == parse_text_spec(input@, slice_names(reserved_vars), slice_names(context_vars)),
{
    if has_ternary_char(input) {
        return Err(ExprError::Syntax(String::from_str("Ternary expressions (? :) are not supported")));
    }
    let mut parser = PrattParser::with_reserved_vars_and_context(input, reserved_vars, context_vars);
    parser.parse()
}

/// Parses an expression.
pub fn parse_expression(input: &str) -> (r: Result<AstExpr, ExprError>)
    ensures
        result_view(r) == parse_text_spec(input@, None, None),
{
    parse_expression_with_context(input, None, None)
}

/// Parses an expression whose parameters are `reserved_vars`.
pub fn parse_expression_with_reserved(input: &str, reserved_vars: Option<&[String]>) -> (r: Result<
    AstExpr,
    ExprError,
>)
    ensures
        result_view(r) == parse_text_spec(input@, slice_names(reserved_vars), None),
{
    parse_expression_with_context(input, reserved_vars, None)
}

} // verus!

verus! {

pub proof fn lemma_args_view_index(s: Seq<AstExpr>, k: int)
    requires
        0 <= k < s.len(),
    ensures
        args_view(s)[k] == ast_view(s[k]),
    decreases s.len(),
{
    lemma_args_view_len(s);
    if k > 0 {
        lemma_args_view_index(s.drop_first(), k - 1);
        lemma_args_view_len(s.drop_first());
    }
}

} // verus!
