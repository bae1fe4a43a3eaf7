use vstd::prelude::*;
use crate::types::{Token, TokenKind, TokenSpec, tokens_view, chars_of, string_from_chars};

verus! {

pub open spec fn is_digit(c: char) -> bool {
    '0' <= c && c <= '9'
}

pub open spec fn is_ident_start(c: char) -> bool {
    ('a' <= c && c <= 'z') || ('A' <= c && c <= 'Z') || c == '_'
}

pub open spec fn is_ident_char(c: char) -> bool {
    is_ident_start(c) || is_digit(c)
}

pub open spec fn is_space(c: char) -> bool {
    c == ' ' || c == '\t' || c == '\n' || c == '\r'
}

/// Characters that form an operator on their own.
pub open spec fn is_single_op(c: char) -> bool {
    c == '+' || c == '-' || c == '*' || c == '/' || c == '%' || c == '^' || c == '<' || c == '>'
        || c == '&' || c == '|' || c == '~' || c == '.' || c == '!' || c == '='
}

/// Pairs of characters that form one operator: && || == != <= >= << >> ** <>
pub open spec fn is_double_op(a: char, b: char) -> bool {
    (a == '&' && b == '&') || (a == '|' && b == '|') || (a == '=' && b == '=') || (a == '!' && b
        == '=') || (a == '<' && b == '=') || (a == '>' && b == '=') || (a == '<' && b == '<') || (a
        == '>' && b == '>') || (a == '*' && b == '*') || (a == '<' && b == '>')
}

/// First index at or after `i` whose character is not a digit.
pub open spec fn scan_digits(s: Seq<char>, i: int) -> int
    decreases s.len() - i,
{
    if 0 <= i < s.len() && is_digit(s[i]) {
        scan_digits(s, i + 1)
    } else {
        i
    }
}

/// First index at or after `i` whose character cannot continue an identifier.
pub open spec fn scan_ident(s: Seq<char>, i: int) -> int
    decreases s.len() - i,
{
    if 0 <= i < s.len() && is_ident_char(s[i]) {
        scan_ident(s, i + 1)
    } else {
        i
    }
}

/// First index at or after `i` that is not whitespace.
pub open spec fn skip_spaces(s: Seq<char>, i: int) -> int
    decreases s.len() - i,
{
    if 0 <= i < s.len() && is_space(s[i]) {
        skip_spaces(s, i + 1)
    } else {
        i
    }
}

/// A number starts with a digit, or with a dot followed by a digit.
pub open spec fn starts_number(s: Seq<char>, i: int) -> bool {
    is_digit(s[i]) || (s[i] == '.' && i + 1 < s.len() && is_digit(s[i + 1]))
}

/// End of a number literal: digits, an optional fraction, an optional exponent.
pub open spec fn number_end(s: Seq<char>, i: int) -> int {
    let j = scan_digits(s, i);
    let k = if j < s.len() && s[j] == '.' {
        scan_digits(s, j + 1)
    } else {
        j
    };
    if k < s.len() && (s[k] == 'e' || s[k] == 'E') {
        let m = if k + 1 < s.len() && (s[k + 1] == '+' || s[k + 1] == '-') {
            k + 2
        } else {
            k + 1
        };
        if m < s.len() && is_digit(s[m]) {
            scan_digits(s, m)
        } else {
            k
        }
    } else {
        k
    }
}

/// Length of the operator at `i`, or 0 where none starts there.
pub open spec fn op_len(s: Seq<char>, i: int) -> int {
    if i + 2 < s.len() && ((s[i] == '<' && s[i + 1] == '<' && s[i + 2] == '<') || (s[i] == '>'
        && s[i + 1] == '>' && s[i + 2] == '>')) {
        3
    } else if i + 1 < s.len() && is_double_op(s[i], s[i + 1]) {
        2
    } else if is_single_op(s[i]) {
        1
    } else {
        0
    }
}

pub open spec fn token_kind_at(s: Seq<char>, i: int) -> TokenKind {
    if starts_number(s, i) {
        TokenKind::Number
    } else if is_ident_start(s[i]) {
        TokenKind::Variable
    } else if op_len(s, i) > 0 {
        TokenKind::Operator
    } else if s[i] == '(' || s[i] == '[' {
        TokenKind::Open
    } else if s[i] == ')' || s[i] == ']' {
        TokenKind::Close
    } else if s[i] == ',' || s[i] == ';' {
        TokenKind::Separator
    } else {
        TokenKind::Error
    }
}

pub open spec fn token_end_at(s: Seq<char>, i: int) -> int {
    match token_kind_at(s, i) {
        TokenKind::Number => number_end(s, i),
        TokenKind::Variable => scan_ident(s, i),
        TokenKind::Operator => i + op_len(s, i),
        _ => i + 1,
    }
}

/// The token that starts at `i` (which holds no whitespace).
pub open spec fn token_at(s: Seq<char>, i: int) -> TokenSpec {
    TokenSpec {
        kind: token_kind_at(s, i),
        text: s.subrange(i, token_end_at(s, i)),
        position: i,
    }
}

/// The tokens of `s` from index `i` on.
pub open spec fn lex_from(s: Seq<char>, i: int) -> Seq<TokenSpec>
    decreases s.len() - i,
{
    let j = skip_spaces(s, i);
    if 0 <= i <= j < s.len() {
        let e = token_end_at(s, j);
        if j < e <= s.len() {
            seq![token_at(s, j)] + lex_from(s, e)
        } else {
            Seq::empty()
        }
    } else {
        Seq::empty()
    }
}

/// The tokens of an expression.
pub open spec fn lex(s: Seq<char>) -> Seq<TokenSpec> {
    lex_from(s, 0)
}

proof fn lemma_scan_digits(s: Seq<char>, i: int)
    requires
        0 <= i <= s.len(),
    ensures
        i <= scan_digits(s, i) <= s.len(),
        forall|k: int| i <= k < scan_digits(s, i) ==> is_digit(#[trigger] s[k]),
    decreases s.len() - i,
{
    if i < s.len() && is_digit(s[i]) {
        lemma_scan_digits(s, i + 1);
    }
}

proof fn lemma_scan_ident(s: Seq<char>, i: int)
    requires
        0 <= i <= s.len(),
    ensures
        i <= scan_ident(s, i) <= s.len(),
    decreases s.len() - i,
{
    if i < s.len() && is_ident_char(s[i]) {
        lemma_scan_ident(s, i + 1);
    }
}

proof fn lemma_skip_spaces(s: Seq<char>, i: int)
    requires
        0 <= i <= s.len(),
    ensures
        i <= skip_spaces(s, i) <= s.len(),
        skip_spaces(s, i) < s.len() ==> !is_space(s[skip_spaces(s, i)]),
    decreases s.len() - i,
{
    if i < s.len() && is_space(s[i]) {
        lemma_skip_spaces(s, i + 1);
    }
}

/// Every token has at least one character and ends inside the input.
proof fn lemma_token_end(s: Seq<char>, i: int)
    requires
        0 <= i < s.len(),
    ensures
        i < token_end_at(s, i) <= s.len(),
{
    lemma_scan_ident(s, i);
    lemma_scan_digits(s, i);
    lemma_scan_ident(s, i + 1);
    lemma_scan_digits(s, i + 1);
    if starts_number(s, i) {
        let j = scan_digits(s, i);
        if !is_digit(s[i]) {
            assert(j == i);
        } else {
            assert(j == scan_digits(s, i + 1));
        }
        let k = if j < s.len() && s[j] == '.' {
            lemma_scan_digits(s, j + 1);
            scan_digits(s, j + 1)
        } else {
            j
        };
        assert(i < k <= s.len());
        if k < s.len() && (s[k] == 'e' || s[k] == 'E') {
            let m = if k + 1 < s.len() && (s[k + 1] == '+' || s[k + 1] == '-') {
                k + 2
            } else {
                k + 1
            };
            if m < s.len() && is_digit(s[m]) {
                lemma_scan_digits(s, m);
            }
        }
    }
}

fn is_digit_exec(c: char) -> (b: bool)
    ensures
        b == is_digit(c),
{
    '0' <= c && c <= '9'
}

fn is_ident_start_exec(c: char) -> (b: bool)
    ensures
        b == is_ident_start(c),
{
    ('a' <= c && c <= 'z') || ('A' <= c && c <= 'Z') || c == '_'
}

fn is_ident_char_exec(c: char) -> (b: bool)
    ensures
        b == is_ident_char(c),
{
    is_ident_start_exec(c) || is_digit_exec(c)
}

fn is_space_exec(c: char) -> (b: bool)
    ensures
        b == is_space(c),
{
    c == ' ' || c == '\t' || c == '\n' || c == '\r'
}

fn is_single_op_exec(c: char) -> (b: bool)
    ensures
        b == is_single_op(c),
{
    c == '+' || c == '-' || c == '*' || c == '/' || c == '%' || c == '^' || c == '<' || c == '>'
        || c == '&' || c == '|' || c == '~' || c == '.' || c == '!' || c == '='
}

fn is_double_op_exec(a: char, b: char) -> (r: bool)
    ensures
        r == is_double_op(a, b),
{
    (a == '&' && b == '&') || (a == '|' && b == '|') || (a == '=' && b == '=') || (a == '!' && b
        == '=') || (a == '<' && b == '=') || (a == '>' && b == '=') || (a == '<' && b == '<') || (a
        == '>' && b == '>') || (a == '*' && b == '*') || (a == '<' && b == '>')
}

fn digit_at(chars: &Vec<char>, i: usize) -> (b: bool)
    ensures
        b == (i < chars.len() && is_digit(chars@[i as int])),
{
    i < chars.len() && is_digit_exec(chars[i])
}

fn scan_digits_exec(chars: &Vec<char>, i: usize) -> (r: usize)
    requires
        i <= chars.len(),
    ensures
        r == scan_digits(chars@, i as int),
{
    let mut j = i;
    while digit_at(chars, j)
        invariant
            i <= j <= chars.len(),
            scan_digits(chars@, i as int) == scan_digits(chars@, j as int),
        decreases chars.len() - j,
    {
        j = j + 1;
    }
    j
}

fn ident_char_at(chars: &Vec<char>, i: usize) -> (b: bool)
    ensures
        b == (i < chars.len() && is_ident_char(chars@[i as int])),
{
    i < chars.len() && is_ident_char_exec(chars[i])
}

fn scan_ident_exec(chars: &Vec<char>, i: usize) -> (r: usize)
    requires
        i <= chars.len(),
    ensures
        r == scan_ident(chars@, i as int),
{
    let mut j = i;
    while ident_char_at(chars, j)
        invariant
            i <= j <= chars.len(),
            scan_ident(chars@, i as int) == scan_ident(chars@, j as int),
        decreases chars.len() - j,
    {
        j = j + 1;
    }
    j
}

fn space_at(chars: &Vec<char>, i: usize) -> (b: bool)
    ensures
        b == (i < chars.len() && is_space(chars@[i as int])),
{
    i < chars.len() && is_space_exec(chars[i])
}

fn skip_spaces_exec(chars: &Vec<char>, i: usize) -> (r: usize)
    requires
        i <= chars.len(),
    ensures
        r == skip_spaces(chars@, i as int),
{
    let mut j = i;
    while space_at(chars, j)
        invariant
            i <= j <= chars.len(),
            skip_spaces(chars@, i as int) == skip_spaces(chars@, j as int),
        decreases chars.len() - j,
    {
        j = j + 1;
    }
    j
}

fn number_end_exec(chars: &Vec<char>, i: usize) -> (r: usize)
    requires
        i < chars.len(),
    ensures
        r == number_end(chars@, i as int),
{
    let s = Ghost(chars@);
    proof {
        lemma_scan_digits(chars@, i as int);
    }
    let j = scan_digits_exec(chars, i);
    let k = if j < chars.len() && chars[j] == '.' {
        proof {
            lemma_scan_digits(chars@, j + 1);
        }
        scan_digits_exec(chars, j + 1)
    } else {
        j
    };
    if k < chars.len() && (chars[k] == 'e' || chars[k] == 'E') {
        let m = if k + 1 < chars.len() && (chars[k + 1] == '+' || chars[k + 1] == '-') {
            k + 2
        } else {
            k + 1
        };
        if digit_at(chars, m) {
            scan_digits_exec(chars, m)
        } else {
            k
        }
    } else {
        k
    }
}

fn op_len_exec(chars: &Vec<char>, i: usize) -> (r: usize)
    requires
        i < chars.len(),
    ensures
        r == op_len(chars@, i as int),
{
    let n = chars.len();
    if n - i > 2 && ((chars[i] == '<' && chars[i + 1] == '<' && chars[i + 2] == '<') || (chars[i]
        == '>' && chars[i + 1] == '>' && chars[i + 2] == '>')) {
        3
    } else if n - i > 1 && is_double_op_exec(chars[i], chars[i + 1]) {
        2
    } else if is_single_op_exec(chars[i]) {
        1
    } else {
        0
    }
}

/// Splits an expression into tokens.
pub struct Lexer {
    chars: Vec<char>,
    pos: usize,
}

impl Lexer {
    pub closed spec fn input(&self) -> Seq<char> {
        self.chars@
    }

    pub closed spec fn position(&self) -> int {
        self.pos as int
    }

    pub closed spec fn wf(&self) -> bool {
        self.pos <= self.chars.len()
    }

    /// A lexer at the start of `input`.
    pub fn new(input: &str) -> (lx: Self)
        ensures
            lx.wf(),
            lx.input() == input@,
            lx.position() == 0,
    {
        Lexer { chars: chars_of(input), pos: 0 }
    }

    /// The next token, or `None` at the end of the input; whitespace is skipped.
    pub fn next_token(&mut self) -> (tok: Option<Token>)
        requires
            old(self).wf(),
        ensures
            final(self).wf(),
            final(self).input() == old(self).input(),
            ({
                let s = old(self).input();
                let j = skip_spaces(s, old(self).position());
                if j < s.len() {
                    &&& tok.is_some()
                    &&& tok.unwrap()@ == token_at(s, j)
                    &&& final(self).position() == token_end_at(s, j)
                } else {
                    &&& tok.is_none()
                    &&& final(self).position() == old(self).position()
                }
            }),
    {
        proof {
            lemma_skip_spaces(self.chars@, self.pos as int);
        }
        let j = skip_spaces_exec(&self.chars, self.pos);
        if j >= self.chars.len() {
            return None;
        }
        let c = self.chars[j];
        proof {
            lemma_token_end(self.chars@, j as int);
            lemma_scan_ident(self.chars@, j as int);
        }
        let starts_num = is_digit_exec(c) || (c == '.' && digit_at(&self.chars, j + 1));
        let (kind, end) = if starts_num {
            (TokenKind::Number, number_end_exec(&self.chars, j))
        } else if is_ident_start_exec(c) {
            (TokenKind::Variable, scan_ident_exec(&self.chars, j))
        } else {
            let ol = op_len_exec(&self.chars, j);
            if ol > 0 {
                (TokenKind::Operator, j + ol)
            } else if c == '(' || c == '[' {
                (TokenKind::Open, j + 1)
            } else if c == ')' || c == ']' {
                (TokenKind::Close, j + 1)
            } else if c == ',' || c == ';' {
                (TokenKind::Separator, j + 1)
            } else {
                (TokenKind::Error, j + 1)
            }
        };
        let text = string_from_chars(&self.chars, j, end);
        self.pos = end;
        Some(Token { kind, text, position: j })
    }
}

/// The tokens of an expression, in order.
pub fn tokenize(input: &str) -> (toks: Vec<Token>)
    ensures
        tokens_view(toks@) == lex(input@),
{
    let mut lx = Lexer::new(input);
    let mut toks: Vec<Token> = Vec::new();
    let ghost s = input@;
    loop
        invariant
            lx.wf(),
            lx.input() == s,
            0 <= lx.position() <= s.len(),
            tokens_view(toks@) + lex_from(s, lx.position()) == lex(s),
        ensures
            tokens_view(toks@) == lex(s),
        decreases s.len() - lx.position(),
    {
        let ghost p = lx.position();
        proof {
            lemma_skip_spaces(s, p);
        }
        match lx.next_token() {
            Some(t) => {
                proof {
                    let j = skip_spaces(s, p);
                    lemma_token_end(s, j);
                    assert(lex_from(s, p) == seq![token_at(s, j)] + lex_from(s, token_end_at(s, j)));
                    assert(tokens_view(toks@.push(t)) == tokens_view(toks@).push(t@));
                }
                toks.push(t);
            }
            None => {
                proof {
                    assert(lex_from(s, p) == Seq::<TokenSpec>::empty());
                    assert(tokens_view(toks@) + Seq::<TokenSpec>::empty() == tokens_view(toks@));
                }
                break;
            }
        }
    }
    toks
}

} // verus!

verus! {

/// Every token lies inside the input, after the index that lexing started at.
pub proof fn lemma_lex_from_in_bounds(s: Seq<char>, i: int)
    requires
        0 <= i <= s.len(),
    ensures
        forall|k: int|
            0 <= k < lex_from(s, i).len() ==> {
                let t = #[trigger] lex_from(s, i)[k];
                &&& i <= t.position
                &&& t.position + t.text.len() <= s.len()
                &&& t.text.len() >= 1
            },
    decreases s.len() - i,
{
    lemma_skip_spaces(s, i);
    let j = skip_spaces(s, i);
    if j < s.len() {
        lemma_token_end(s, j);
        let e = token_end_at(s, j);
        lemma_lex_from_in_bounds(s, e);
        let rest = lex_from(s, e);
        assert(lex_from(s, i) == seq![token_at(s, j)] + rest);
        assert forall|k: int| 0 <= k < lex_from(s, i).len() implies {
            let t = #[trigger] lex_from(s, i)[k];
            &&& i <= t.position
            &&& t.position + t.text.len() <= s.len()
            &&& t.text.len() >= 1
        } by {
            if k > 0 {
                assert(lex_from(s, i)[k] == rest[k - 1]);
            }
        }
    }
}

pub proof fn lemma_lex_in_bounds(s: Seq<char>)
    ensures
        forall|k: int|
            0 <= k < lex(s).len() ==> {
                let t = #[trigger] lex(s)[k];
                &&& 0 <= t.position
                &&& t.position + t.text.len() <= s.len()
                &&& t.text.len() >= 1
            },
{
    lemma_lex_from_in_bounds(s, 0);
}

} // verus!
