use vstd::prelude::*;
use crate::error::{ExprError, ErrSpec};
use crate::types::str_eq;

verus! {

/// Unary operators.
#[derive(Debug, Clone, Copy, PartialEq, Eq, Structural)]
pub enum UnaryOp {
    Negate,
    Not,
}

/// Binary operators; `&&` and `||` are evaluated apart, for short-circuiting.
#[derive(Debug, Clone, Copy, PartialEq, Eq, Structural)]
pub enum BinaryOp {
    Add,
    Subtract,
    Multiply,
    Divide,
    Modulo,
    Power,
    Less,
    Greater,
    LessEqual,
    GreaterEqual,
    Equal,
    NotEqual,
}

/// The binary operator that an operator's text names.
pub open spec fn binary_op_spec(op: Seq<char>) -> Option<BinaryOp> {
    if op == "+"@ {
        Some(BinaryOp::Add)
    } else if op == "-"@ {
        Some(BinaryOp::Subtract)
    } else if op == "*"@ {
        Some(BinaryOp::Multiply)
    } else if op == "/"@ {
        Some(BinaryOp::Divide)
    } else if op == "%"@ {
        Some(BinaryOp::Modulo)
    } else if op == "^"@ || op == "**"@ {
        Some(BinaryOp::Power)
    } else if op == "<"@ {
        Some(BinaryOp::Less)
    } else if op == ">"@ {
        Some(BinaryOp::Greater)
    } else if op == "<="@ {
        Some(BinaryOp::LessEqual)
    } else if op == ">="@ {
        Some(BinaryOp::GreaterEqual)
    } else if op == "=="@ {
        Some(BinaryOp::Equal)
    } else if op == "!="@ {
        Some(BinaryOp::NotEqual)
    } else {
        None
    }
}

/// The binary operator for an operator's text; any other text is a syntax error.
pub fn ast_to_stack_op(op: &str) -> (r: Result<BinaryOp, ExprError>)
    ensures
        match binary_op_spec(op@) {
            Some(b) => r == Ok::<BinaryOp, ExprError>(b),
            None => r.is_err() && r->Err_0@ == ErrSpec::Syntax("Unknown operator: "@ + op@),
        },
{
    if str_eq(op, "+") {
        Ok(BinaryOp::Add)
    } else if str_eq(op, "-") {
        Ok(BinaryOp::Subtract)
    } else if str_eq(op, "*") {
        Ok(BinaryOp::Multiply)
    } else if str_eq(op, "/") {
        Ok(BinaryOp::Divide)
    } else if str_eq(op, "%") {
        Ok(BinaryOp::Modulo)
    } else if str_eq(op, "^") || str_eq(op, "**") {
        Ok(BinaryOp::Power)
    } else if str_eq(op, "<") {
        Ok(BinaryOp::Less)
    } else if str_eq(op, ">") {
        Ok(BinaryOp::Greater)
    } else if str_eq(op, "<=") {
        Ok(BinaryOp::LessEqual)
    } else if str_eq(op, ">=") {
        Ok(BinaryOp::GreaterEqual)
    } else if str_eq(op, "==") {
        Ok(BinaryOp::Equal)
    } else if str_eq(op, "!=") {
        Ok(BinaryOp::NotEqual)
    } else {
        let mut m = String::from_str("Unknown operator: ");
        m.append(op);
        Err(ExprError::Syntax(m))
    }
}

/// Whether an operator's text names a binary operator.
pub fn is_binary_operator(op: &str) -> (b: bool)
    ensures
        b == binary_op_spec(op@).is_some(),
{
    str_eq(op, "+") || str_eq(op, "-") || str_eq(op, "*") || str_eq(op, "/") || str_eq(op, "%")
        || str_eq(op, "^") || str_eq(op, "**") || str_eq(op, "<") || str_eq(op, ">") || str_eq(
        op,
        "<=",
    ) || str_eq(op, ">=") || str_eq(op, "==") || str_eq(op, "!=")
}

} // verus!
