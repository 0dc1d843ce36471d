//! The tree-walking evaluator: reduces an expression tree to a runtime
//! literal value, or fails with a structured runtime error.

use vstd::prelude::*;
use vstd::string::StringExecFns;
use crate::ast::{ExprView, Expression, sp_expr_view};
use crate::exception::{self, Exception, ExceptionView};
use crate::token::{Literal, LiteralView, TokenEnum};

verus! {

/// Truthiness of a literal: `false` and the absence of a value are falsy,
/// every other value is truthy.
pub open spec fn sp_truthy(v: LiteralView) -> bool {
    match v {
        LiteralView::Bool(b) => b,
        LiteralView::Nil => false,
        _ => true,
    }
}

/// The runtime error for an operand that must be a number.
pub open spec fn sp_err_must_number() -> ExceptionView {
    ExceptionView { line: 1, where_r: ""@, message: "Must be a number"@ }
}

/// The runtime error for `+` on anything but two numbers or two strings.
pub open spec fn sp_err_plus_operands() -> ExceptionView {
    ExceptionView {
        line: 1,
        where_r: ""@,
        message: "Must be all string or number for PLUS (+)"@,
    }
}

/// The runtime error for a division whose right operand is zero.
pub open spec fn sp_err_division_by_zero() -> ExceptionView {
    ExceptionView { line: 1, where_r: ""@, message: "Division by zero."@ }
}

/// The runtime error for an arithmetic result outside the 64-bit range.
pub open spec fn sp_err_overflow() -> ExceptionView {
    ExceptionView { line: 1, where_r: ""@, message: "Number overflow."@ }
}

/// The runtime error for an operator token that the parser never produces
/// in this position: an internal-invariant violation.
pub open spec fn sp_err_invalid_op(op: crate::token::TokenView) -> ExceptionView {
    ExceptionView { line: op.line, where_r: ""@, message: "Invalid operator."@ }
}

/// The value of a binary operator applied to two already-evaluated
/// operands.
pub open spec fn sp_apply_binary(op: crate::token::TokenView, l: LiteralView, r: LiteralView) ->
    core::result::Result<LiteralView, ExceptionView> {
    match op.kind {
        TokenEnum::Minus => match (l, r) {
            (LiteralView::Num(a), LiteralView::Num(b)) => match a.checked_sub(b) {
                Some(v) => Ok(LiteralView::Num(v)),
                None => Err(sp_err_overflow()),
            },
            _ => Err(sp_err_must_number()),
        },
        TokenEnum::Slash => match (l, r) {
            (LiteralView::Num(a), LiteralView::Num(b)) => if b == 0 {
                Err(sp_err_division_by_zero())
            } else {
                match a.checked_div(b) {
                    Some(v) => Ok(LiteralView::Num(v)),
                    None => Err(sp_err_overflow()),
                }
            },
            _ => Err(sp_err_must_number()),
        },
        TokenEnum::Star => match (l, r) {
            (LiteralView::Num(a), LiteralView::Num(b)) => match a.checked_mul(b) {
                Some(v) => Ok(LiteralView::Num(v)),
                None => Err(sp_err_overflow()),
            },
            _ => Err(sp_err_must_number()),
        },
        TokenEnum::Plus => match (l, r) {
            (LiteralView::Num(a), LiteralView::Num(b)) => match a.checked_add(b) {
                Some(v) => Ok(LiteralView::Num(v)),
                None => Err(sp_err_overflow()),
            },
            (LiteralView::Str(a), LiteralView::Str(b)) => Ok(LiteralView::Str(a + b)),
            _ => Err(sp_err_plus_operands()),
        },
        TokenEnum::Greater => match (l, r) {
            (LiteralView::Num(a), LiteralView::Num(b)) => Ok(LiteralView::Bool(a > b)),
            _ => Err(sp_err_must_number()),
        },
        TokenEnum::GreaterEqual => match (l, r) {
            (LiteralView::Num(a), LiteralView::Num(b)) => Ok(LiteralView::Bool(a >= b)),
            _ => Err(sp_err_must_number()),
        },
        TokenEnum::Less => match (l, r) {
            (LiteralView::Num(a), LiteralView::Num(b)) => Ok(LiteralView::Bool(a < b)),
            _ => Err(sp_err_must_number()),
        },
        TokenEnum::LessEqual => match (l, r) {
            (LiteralView::Num(a), LiteralView::Num(b)) => Ok(LiteralView::Bool(a <= b)),
            _ => Err(sp_err_must_number()),
        },
        TokenEnum::BangEqual => Ok(LiteralView::Bool(!(l == r))),
        TokenEnum::EqualEqual => Ok(LiteralView::Bool(l == r)),
        _ => Err(sp_err_invalid_op(op)),
    }
}

/// The value of an expression: a literal, or the first runtime error.
/// In a binary node the right operand is evaluated before the left one,
/// as the evaluator does.
pub open spec fn sp_eval(e: ExprView) -> core::result::Result<LiteralView, ExceptionView>
    decreases e,
{
    match e {
        ExprView::Lit { value } => Ok(value),
        ExprView::Grouping { inner } => sp_eval(*inner),
        ExprView::Unary { op, right } => match sp_eval(*right) {
            Err(x) => Err(x),
            Ok(v) => match op.kind {
                TokenEnum::Minus => match v {
                    LiteralView::Num(n) => if n == i64::MIN {
                        Err(sp_err_overflow())
                    } else {
                        Ok(LiteralView::Num((-(n as int)) as i64))
                    },
                    _ => Err(sp_err_must_number()),
                },
                TokenEnum::Bang => Ok(LiteralView::Bool(!sp_truthy(v))),
                _ => Err(sp_err_invalid_op(op)),
            },
        },
        ExprView::Binary { op, left, right } => match sp_eval(*right) {
            Err(x) => Err(x),
            Ok(rv) => match sp_eval(*left) {
                Err(x) => Err(x),
                Ok(lv) => sp_apply_binary(op, lv, rv),
            },
        },
    }
}

/// Every operator in the tree is one the evaluator gives a meaning to.
/// This is the well-formed set of the parser without the comma operator,
/// which parses but has no evaluation rule.
pub open spec fn sp_eval_ops(e: ExprView) -> bool
    decreases e,
{
    match e {
        ExprView::Binary { op, left, right } => {
            &&& (op.kind == TokenEnum::BangEqual || op.kind == TokenEnum::EqualEqual || op.kind
                == TokenEnum::Greater || op.kind == TokenEnum::GreaterEqual || op.kind
                == TokenEnum::Less || op.kind == TokenEnum::LessEqual || op.kind
                == TokenEnum::Plus || op.kind == TokenEnum::Minus || op.kind == TokenEnum::Star
                || op.kind == TokenEnum::Slash)
            &&& sp_eval_ops(*left)
            &&& sp_eval_ops(*right)
        },
        ExprView::Grouping { inner } => sp_eval_ops(*inner),
        ExprView::Lit { value } => true,
        ExprView::Unary { op, right } => (op.kind == TokenEnum::Bang || op.kind
            == TokenEnum::Minus) && sp_eval_ops(*right),
    }
}

/// On a tree whose operators all have an evaluation rule, the evaluator
/// never reports the invalid-operator error: that error marks an
/// internal-invariant violation, not a reachable outcome.  (A comma
/// operator, which the parser may produce but the evaluator gives no
/// meaning, is the one parser-made operator outside this set.)
pub proof fn lemma_no_invalid_operator(e: ExprView)
    requires
        sp_eval_ops(e),
    ensures
        sp_eval(e) is Err ==> sp_eval(e)->Err_0.message != "Invalid operator."@,
    decreases e,
{
    reveal_strlit("Invalid operator.");
    reveal_strlit("Must be a number");
    reveal_strlit("Must be all string or number for PLUS (+)");
    reveal_strlit("Division by zero.");
    reveal_strlit("Number overflow.");
    assert("Division by zero."@[0] == 'D' && "Invalid operator."@[0] == 'I');
    match e {
        ExprView::Lit { value } => {},
        ExprView::Grouping { inner } => {
            lemma_no_invalid_operator(*inner);
        },
        ExprView::Unary { op, right } => {
            lemma_no_invalid_operator(*right);
        },
        ExprView::Binary { op, left, right } => {
            lemma_no_invalid_operator(*left);
            lemma_no_invalid_operator(*right);
        },
    }
}

/// The tree-walking evaluator.  It holds no state: evaluation is plain
/// recursion over the tree.
#[derive(Debug, Clone)]
pub struct Interpreter;

impl Interpreter {
    /// Evaluates an expression tree to a literal value, or to the first
    /// runtime error, exactly as [`sp_eval`] describes.
    pub fn evaluate(&self, expr: &Expression) -> (r: exception::Result<Literal>)
        ensures
            match sp_eval(sp_expr_view(*expr)) {
                Ok(v) => r is Ok && r->Ok_0@ == v,
                Err(x) => r is Err && r->Err_0@ == x,
            },
        decreases expr,
    {
        match expr {
            Expression::Literal { value } => Ok(value.clone()),
            Expression::Grouping { expression } => self.evaluate(expression),
            Expression::Unary { operator, right } => {
                let v = match self.evaluate(right) {
                    Ok(v) => v,
                    Err(x) => return Err(x),
                };
                match operator.token_type {
                    TokenEnum::Minus => {
                        let n = check_number(v)?;
                        if n == i64::MIN {
                            Exception::error(1, "", "Number overflow.")
                        } else {
                            Ok(Literal::Number(-n))
                        }
                    },
                    TokenEnum::Bang => Ok(Literal::Bool(!is_truthy(v))),
                    _ => Exception::error(operator.line, "", "Invalid operator."),
                }
            },
            Expression::Binary { operator, left, right } => {
                let rv = match self.evaluate(right) {
                    Ok(v) => v,
                    Err(x) => return Err(x),
                };
                let lv = match self.evaluate(left) {
                    Ok(v) => v,
                    Err(x) => return Err(x),
                };
                match operator.token_type {
                    TokenEnum::Minus => {
                        let a = check_number(lv)?;
                        let b = check_number(rv)?;
                        match a.checked_sub(b) {
                            Some(v) => Ok(Literal::Number(v)),
                            None => Exception::error(1, "", "Number overflow."),
                        }
                    },
                    TokenEnum::Slash => {
                        let a = check_number(lv)?;
                        let b = check_number(rv)?;
                        if b == 0 {
                            Exception::error(1, "", "Division by zero.")
                        } else {
                            match a.checked_div(b) {
                                Some(v) => Ok(Literal::Number(v)),
                                None => Exception::error(1, "", "Number overflow."),
                            }
                        }
                    },
                    TokenEnum::Star => {
                        let a = check_number(lv)?;
                        let b = check_number(rv)?;
                        match a.checked_mul(b) {
                            Some(v) => Ok(Literal::Number(v)),
                            None => Exception::error(1, "", "Number overflow."),
                        }
                    },
                    TokenEnum::Plus => {
                        match (lv, rv) {
                            (Literal::Number(a), Literal::Number(b)) => match a.checked_add(b) {
                                Some(v) => Ok(Literal::Number(v)),
                                None => Exception::error(1, "", "Number overflow."),
                            },
                            (Literal::String(a), Literal::String(b)) => Ok(
                                Literal::String(a.concat(b.as_str())),
                            ),
                            _ => Exception::error(
                                1,
                                "",
                                "Must be all string or number for PLUS (+)",
                            ),
                        }
                    },
                    TokenEnum::Greater => {
                        let a = check_number(lv)?;
                        let b = check_number(rv)?;
                        Ok(Literal::Bool(a > b))
                    },
                    TokenEnum::GreaterEqual => {
                        let a = check_number(lv)?;
                        let b = check_number(rv)?;
                        Ok(Literal::Bool(a >= b))
                    },
                    TokenEnum::Less => {
                        let a = check_number(lv)?;
                        let b = check_number(rv)?;
                        Ok(Literal::Bool(a < b))
                    },
                    TokenEnum::LessEqual => {
                        let a = check_number(lv)?;
                        let b = check_number(rv)?;
                        Ok(Literal::Bool(a <= b))
                    },
                    TokenEnum::BangEqual => Ok(Literal::Bool(!(lv == rv))),
                    TokenEnum::EqualEqual => Ok(Literal::Bool(lv == rv)),
                    _ => Exception::error(operator.line, "", "Invalid operator."),
                }
            },
        }
    }
}

/// The numeric payload of a literal, or the must-be-a-number error.
fn check_number(value: Literal) -> (r: exception::Result<i64>)
    ensures
        match value@ {
            LiteralView::Num(n) => r == exception::Result::<i64>::Ok(n),
            _ => r is Err && r->Err_0@ == sp_err_must_number(),
        },
{
    match value {
        Literal::Number(v) => Ok(v),
        _ => Exception::error(1, "", "Must be a number"),
    }
}

/// Truthiness of a literal value.
fn is_truthy(value: Literal) -> (r: bool)
    ensures
        r == sp_truthy(value@),
{
    match value {
        Literal::Bool(false) | Literal::Nil => false,
        _ => true,
    }
}

} // verus!
