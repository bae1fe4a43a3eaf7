use vstd::prelude::*;

verus! {

/// Errors of parsing and evaluation.
#[derive(Clone, Debug)]
#[allow(inconsistent_fields)]
pub enum ExprError {
    /// The expression does not follow the grammar.
    Syntax(String),
    /// A parenthesis was opened and never closed.
    UnmatchedParenthesis { position: usize, found: String },
    /// A variable that no context defines.
    UnknownVariable { name: String },
    /// A function that no context defines.
    UnknownFunction { name: String },
    /// A function called with the wrong number of arguments.
    InvalidFunctionCall { name: String, expected: usize, found: usize },
    /// An array read past its end.
    ArrayIndexOutOfBounds { name: String, index: usize, len: usize },
    /// An attribute that its object does not have.
    AttributeNotFound { base: String, attr: String },
    /// Nesting deeper than the limit allows.
    RecursionLimit(String),
    /// A fixed-capacity table is full.
    CapacityExceeded(&'static str),
    /// A name longer than the longest name a table can hold.
    NameTooLong { name: String, max_len: usize },
    /// A batch parameter added under a name that a parameter of the batch already has.
    DuplicateParameter(String),
    /// A batch parameter index past the last parameter.
    InvalidParameterIndex(usize),
    /// Any other failure.
    Other(String),
}

/// Mathematical model of an error.
#[allow(inconsistent_fields)]
pub enum ErrSpec {
    Syntax(Seq<char>),
    UnmatchedParenthesis { position: int, found: Seq<char> },
    UnknownVariable { name: Seq<char> },
    UnknownFunction { name: Seq<char> },
    InvalidFunctionCall { name: Seq<char>, expected: int, found: int },
    ArrayIndexOutOfBounds { name: Seq<char>, index: int, len: int },
    AttributeNotFound { base: Seq<char>, attr: Seq<char> },
    RecursionLimit(Seq<char>),
    CapacityExceeded(Seq<char>),
    NameTooLong { name: Seq<char>, max_len: int },
    DuplicateParameter(Seq<char>),
    InvalidParameterIndex(int),
    Other(Seq<char>),
}

impl View for ExprError {
    type V = ErrSpec;

    open spec fn view(&self) -> ErrSpec {
        match self {
            ExprError::Syntax(m) => ErrSpec::Syntax(m@),
            ExprError::UnmatchedParenthesis { position, found } => ErrSpec::UnmatchedParenthesis {
                position: *position as int,
                found: found@,
            },
            ExprError::UnknownVariable { name } => ErrSpec::UnknownVariable { name: name@ },
            ExprError::UnknownFunction { name } => ErrSpec::UnknownFunction { name: name@ },
            ExprError::InvalidFunctionCall { name, expected, found } => ErrSpec::InvalidFunctionCall {
                name: name@,
                expected: *expected as int,
                found: *found as int,
            },
            ExprError::ArrayIndexOutOfBounds { name, index, len } => ErrSpec::ArrayIndexOutOfBounds {
                name: name@,
                index: *index as int,
                len: *len as int,
            },
            ExprError::AttributeNotFound { base, attr } => ErrSpec::AttributeNotFound {
                base: base@,
                attr: attr@,
            },
            ExprError::RecursionLimit(m) => ErrSpec::RecursionLimit(m@),
            ExprError::CapacityExceeded(m) => ErrSpec::CapacityExceeded(m@),
            ExprError::NameTooLong { name, max_len } => ErrSpec::NameTooLong {
                name: name@,
                max_len: *max_len as int,
            },
            ExprError::DuplicateParameter(n) => ErrSpec::DuplicateParameter(n@),
            ExprError::InvalidParameterIndex(i) => ErrSpec::InvalidParameterIndex(*i as int),
            ExprError::Other(m) => ErrSpec::Other(m@),
        }
    }
}

impl ExprError {
    /// The message of the error, as its `Display` form would print it.
    pub fn message(&self) -> (s: String)
        ensures
            s@ == message_spec(self@),
    {
        match self {
            ExprError::Syntax(m) => m.clone(),
            ExprError::RecursionLimit(m) => m.clone(),
            ExprError::Other(m) => m.clone(),
            ExprError::UnmatchedParenthesis { position, found } => {
                let mut s = String::from_str("Unmatched parenthesis at position ");
                s.append(decimal(*position).as_str());
                s.append(": found '");
                s.append(found.as_str());
                s.append("'");
                s
            },
            ExprError::UnknownVariable { name } => {
                let mut s = String::from_str("Unknown variable: '");
                s.append(name.as_str());
                s.append("'");
                s
            },
            ExprError::UnknownFunction { name } => {
                let mut s = String::from_str("Unknown function: '");
                s.append(name.as_str());
                s.append("'");
                s
            },
            ExprError::InvalidFunctionCall { name, expected, found } => {
                let mut s = String::from_str("Invalid function call to '");
                s.append(name.as_str());
                s.append("': expected ");
                s.append(decimal(*expected).as_str());
                s.append(" arguments, found ");
                s.append(decimal(*found).as_str());
                s
            },
            ExprError::ArrayIndexOutOfBounds { name, index, len } => {
                let mut s = String::from_str("Array index out of bounds: index ");
                s.append(decimal(*index).as_str());
                s.append(" is out of bounds for '");
                s.append(name.as_str());
                s.append("' (length ");
                s.append(decimal(*len).as_str());
                s.append(")");
                s
            },
            ExprError::AttributeNotFound { base, attr } => {
                let mut s = String::from_str("Attribute not found: '");
                s.append(attr.as_str());
                s.append("' in '");
                s.append(base.as_str());
                s.append("'");
                s
            },
            ExprError::CapacityExceeded(what) => {
                let mut s = String::from_str("Capacity exceeded for ");
                s.append(what);
                s
            },
            ExprError::NameTooLong { name, max_len } => {
                let mut s = String::from_str("Name too long: '");
                s.append(name.as_str());
                s.append("' (maximum length is ");
                s.append(decimal(*max_len).as_str());
                s.append(")");
                s
            },
            ExprError::DuplicateParameter(n) => {
                let mut s = String::from_str("Duplicate parameter: '");
                s.append(n.as_str());
                s.append("'");
                s
            },
            ExprError::InvalidParameterIndex(i) => {
                let mut s = String::from_str("Invalid parameter index: ");
                s.append(decimal(*i).as_str());
                s
            },
        }
    }
}

/// The text of an error.
pub open spec fn message_spec(e: ErrSpec) -> Seq<char> {
    match e {
        ErrSpec::Syntax(m) => m,
        ErrSpec::RecursionLimit(m) => m,
        ErrSpec::Other(m) => m,
        ErrSpec::UnmatchedParenthesis { position, found } => "Unmatched parenthesis at position "@
            + dec(position as nat) + ": found '"@ + found + "'"@,
        ErrSpec::UnknownVariable { name } => "Unknown variable: '"@ + name + "'"@,
        ErrSpec::UnknownFunction { name } => "Unknown function: '"@ + name + "'"@,
        ErrSpec::InvalidFunctionCall { name, expected, found } => "Invalid function call to '"@
            + name + "': expected "@ + dec(expected as nat) + " arguments, found "@ + dec(
            found as nat,
        ),
        ErrSpec::ArrayIndexOutOfBounds { name, index, len } => "Array index out of bounds: index "@
            + dec(index as nat) + " is out of bounds for '"@ + name + "' (length "@ + dec(
            len as nat,
        ) + ")"@,
        ErrSpec::AttributeNotFound { base, attr } => "Attribute not found: '"@ + attr + "' in '"@
            + base + "'"@,
        ErrSpec::CapacityExceeded(what) => "Capacity exceeded for "@ + what,
        ErrSpec::NameTooLong { name, max_len } => "Name too long: '"@ + name
            + "' (maximum length is "@ + dec(max_len as nat) + ")"@,
        ErrSpec::DuplicateParameter(name) => "Duplicate parameter: '"@ + name + "'"@,
        ErrSpec::InvalidParameterIndex(i) => "Invalid parameter index: "@ + dec(i as nat),
    }
}

/// The decimal digit for `d`.
pub open spec fn digit_char(d: int) -> char {
    if d == 0 { '0' } else if d == 1 { '1' } else if d == 2 { '2' } else if d == 3 { '3' }
    else if d == 4 { '4' } else if d == 5 { '5' } else if d == 6 { '6' } else if d == 7 { '7' }
    else if d == 8 { '8' } else { '9' }
}

/// The decimal representation of `n`.
pub open spec fn dec(n: nat) -> Seq<char>
    decreases n,
{
    if n < 10 {
        seq![digit_char(n as int)]
    } else {
        dec(n / 10).push(digit_char((n % 10) as int))
    }
}

fn digit_char_exec(d: usize) -> (c: char)
    requires
        d < 10,
    ensures
        c == digit_char(d as int),
{
    if d == 0 { '0' } else if d == 1 { '1' } else if d == 2 { '2' } else if d == 3 { '3' }
    else if d == 4 { '4' } else if d == 5 { '5' } else if d == 6 { '6' } else if d == 7 { '7' }
    else if d == 8 { '8' } else { '9' }
}

/// The decimal representation of a number.
pub fn decimal(n: usize) -> (s: String)
    ensures
        s@ == dec(n as nat),
    decreases n,
{
    if n < 10 {
        let mut s = String::new();
        s.push(digit_char_exec(n));
        s
    } else {
        let mut s = decimal(n / 10);
        s.push(digit_char_exec(n % 10));
        s
    }
}

} // verus!
