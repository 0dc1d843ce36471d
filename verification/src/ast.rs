//! The expression tree built by the parser, plus two pure printers over
//! it: a parenthesized-prefix form and a reverse-Polish form.

use vstd::prelude::*;
use vstd::string::StringExecFns;
use crate::exception;
use crate::token::{Literal, LiteralView, Token, TokenView, sp_lit_text};

verus! {

/// The mathematical value of an [`Expression`].
pub enum ExprView {
    Binary { op: TokenView, left: Box<ExprView>, right: Box<ExprView> },
    Grouping { inner: Box<ExprView> },
    Lit { value: LiteralView },
    Unary { op: TokenView, right: Box<ExprView> },
}

/// An expression tree node.  Each node exclusively owns its children:
/// a strict tree, built bottom-up by the parser and read by the printers
/// and the interpreter.
#[derive(Debug)]
pub enum Expression {
    Binary { operator: Token, left: Box<Expression>, right: Box<Expression> },
    Grouping { expression: Box<Expression> },
    Literal { value: Literal },
    Unary { operator: Token, right: Box<Expression> },
}

/// The mathematical value of an expression tree.
pub open spec fn sp_expr_view(e: Expression) -> ExprView
    decreases e,
{
    match e {
        Expression::Binary { operator, left, right } => ExprView::Binary {
            op: operator@,
            left: Box::new(sp_expr_view(*left)),
            right: Box::new(sp_expr_view(*right)),
        },
        Expression::Grouping { expression } => ExprView::Grouping {
            inner: Box::new(sp_expr_view(*expression)),
        },
        Expression::Literal { value } => ExprView::Lit { value: value@ },
        Expression::Unary { operator, right } => ExprView::Unary {
            op: operator@,
            right: Box::new(sp_expr_view(*right)),
        },
    }
}

/// Every operator token in the tree lies in the operator set the parser
/// uses at that node: a `Binary` node holds a comma, equality,
/// comparison, term, or factor operator, and a `Unary` node holds `!` or
/// `-`.
pub open spec fn sp_wf_expr(e: ExprView) -> bool
    decreases e,
{
    match e {
        ExprView::Binary { op, left, right } => {
            &&& (op.kind == crate::token::TokenEnum::Comma || op.kind
                == crate::token::TokenEnum::BangEqual || op.kind
                == crate::token::TokenEnum::EqualEqual || op.kind
                == crate::token::TokenEnum::Greater || op.kind
                == crate::token::TokenEnum::GreaterEqual || op.kind
                == crate::token::TokenEnum::Less || op.kind == crate::token::TokenEnum::LessEqual
                || op.kind == crate::token::TokenEnum::Plus || op.kind
                == crate::token::TokenEnum::Minus || op.kind == crate::token::TokenEnum::Star
                || op.kind == crate::token::TokenEnum::Slash)
            &&& sp_wf_expr(*left)
            &&& sp_wf_expr(*right)
        },
        ExprView::Grouping { inner } => sp_wf_expr(*inner),
        ExprView::Lit { value } => true,
        ExprView::Unary { op, right } => (op.kind == crate::token::TokenEnum::Bang || op.kind
            == crate::token::TokenEnum::Minus) && sp_wf_expr(*right),
    }
}

/// The parenthesized-prefix text of an expression: operators and operands
/// wrapped as `(<op-or-name> <operand> ...)`, a grouping rendered with the
/// name `group`, and a bare literal rendered as its text form.
pub open spec fn sp_paren_text(e: ExprView) -> Seq<char>
    decreases e,
{
    match e {
        ExprView::Binary { op, left, right } => "("@ + op.lexeme + " "@ + sp_paren_text(*left)
            + " "@ + sp_paren_text(*right) + ")"@,
        ExprView::Grouping { inner } => "("@ + "group"@ + " "@ + sp_paren_text(*inner) + ")"@,
        ExprView::Lit { value } => sp_lit_text(value),
        ExprView::Unary { op, right } => "("@ + op.lexeme + " "@ + sp_paren_text(*right) + ")"@,
    }
}

/// The reverse-Polish text of an expression: operands before their
/// operator, groupings transparent, literals as their text form.
pub open spec fn sp_rpn_text(e: ExprView) -> Seq<char>
    decreases e,
{
    match e {
        ExprView::Binary { op, left, right } => sp_rpn_text(*left) + " "@ + sp_rpn_text(*right)
            + " "@ + op.lexeme,
        ExprView::Grouping { inner } => sp_rpn_text(*inner),
        ExprView::Lit { value } => sp_lit_text(value),
        ExprView::Unary { op, right } => sp_rpn_text(*right) + " "@ + op.lexeme,
    }
}

/// The text of the given rendered operands, each preceded by one space.
pub open spec fn sp_joined_parts(parts: Seq<Seq<char>>) -> Seq<char>
    decreases parts.len(),
{
    if parts.len() == 0 {
        Seq::<char>::empty()
    } else {
        sp_joined_parts(parts.drop_last()) + " "@ + parts.last()
    }
}

impl Expression {
    /// Renders `expr` in parenthesized-prefix form.  Printing never fails;
    /// the result type matches the other stages of the pipeline.
    pub fn accept(&self, expr: &Expression) -> (r: exception::Result<String>)
        ensures
            r is Ok,
            r->Ok_0@ == sp_paren_text(sp_expr_view(*expr)),
        decreases expr,
    {
        match expr {
            Expression::Binary { operator, left, right } => {
                let mut parts: Vec<String> = Vec::new();
                let l = match self.accept(left) {
                    Ok(s) => s,
                    Err(e) => return Err(e),
                };
                let rr = match self.accept(right) {
                    Ok(s) => s,
                    Err(e) => return Err(e),
                };
                let ghost lv = l@;
                let ghost rv = rr@;
                parts.push(l);
                parts.push(rr);
                let out = self.parenthesize(operator.lexeme.as_str(), &parts);
                proof {
                    let ps = parts.deep_view();
                    assert(ps =~= seq![lv, rv]);
                    assert(ps.drop_last() =~= seq![lv]);
                    assert(seq![lv].drop_last() =~= Seq::<Seq<char>>::empty());
                    assert(sp_joined_parts(Seq::<Seq<char>>::empty()) == Seq::<char>::empty());
                    assert(sp_joined_parts(seq![lv]) == Seq::<char>::empty() + " "@ + lv);
                    assert(out@ =~= sp_paren_text(sp_expr_view(*expr)));
                }
                Ok(out)
            },
            Expression::Grouping { expression } => {
                let mut parts: Vec<String> = Vec::new();
                let inner = match self.accept(expression) {
                    Ok(s) => s,
                    Err(e) => return Err(e),
                };
                let ghost iv = inner@;
                parts.push(inner);
                let out = self.parenthesize("group", &parts);
                proof {
                    let ps = parts.deep_view();
                    assert(ps =~= seq![iv]);
                    assert(ps.drop_last() =~= Seq::<Seq<char>>::empty());
                    assert(sp_joined_parts(Seq::<Seq<char>>::empty()) == Seq::<char>::empty());
                    assert(out@ =~= sp_paren_text(sp_expr_view(*expr)));
                }
                Ok(out)
            },
            Expression::Literal { value } => Ok(value.to_string()),
            Expression::Unary { operator, right } => {
                let mut parts: Vec<String> = Vec::new();
                let rr = match self.accept(right) {
                    Ok(s) => s,
                    Err(e) => return Err(e),
                };
                let ghost rv = rr@;
                parts.push(rr);
                let out = self.parenthesize(operator.lexeme.as_str(), &parts);
                proof {
                    let ps = parts.deep_view();
                    assert(ps =~= seq![rv]);
                    assert(ps.drop_last() =~= Seq::<Seq<char>>::empty());
                    assert(sp_joined_parts(Seq::<Seq<char>>::empty()) == Seq::<char>::empty());
                    assert(out@ =~= sp_paren_text(sp_expr_view(*expr)));
                }
                Ok(out)
            },
        }
    }

    /// Renders this expression in parenthesized-prefix form.
    pub fn print(&self) -> (r: exception::Result<String>)
        ensures
            r is Ok,
            r->Ok_0@ == sp_paren_text(sp_expr_view(*self)),
    {
        self.accept(self)
    }

    /// Wraps a name and already-rendered operands as
    /// `(<name> <operand> ...)`.
    fn parenthesize(&self, name: &str, parts: &Vec<String>) -> (r: String)
        ensures
            r@ == "("@ + name@ + sp_joined_parts(parts.deep_view()) + ")"@,
    {
        let mut builder = String::from_str("(");
        builder.append(name);
        proof {
            assert(parts.deep_view().take(0) =~= Seq::<Seq<char>>::empty());
            assert(sp_joined_parts(Seq::<Seq<char>>::empty()) == Seq::<char>::empty());
            assert(builder@ =~= "("@ + name@ + sp_joined_parts(parts.deep_view().take(0)));
        }
        let mut i: usize = 0;
        while i < parts.len()
            invariant
                i <= parts.len(),
                builder@ == "("@ + name@ + sp_joined_parts(parts.deep_view().take(i as int)),
            decreases parts.len() - i,
        {
            builder.append(" ");
            builder.append(parts[i].as_str());
            proof {
                let ps = parts.deep_view();
                assert(ps.take(i as int + 1).drop_last() =~= ps.take(i as int));
                assert(ps.take(i as int + 1).last() == ps[i as int]);
                assert(builder@ =~= "("@ + name@ + sp_joined_parts(ps.take(i as int + 1)));
            }
            i = i + 1;
        }
        builder.append(")");
        proof {
            assert(parts.deep_view().take(parts.deep_view().len() as int) =~= parts.deep_view());
        }
        builder
    }

    /// Renders this expression in reverse-Polish form.
    pub fn reverse_polish_notation(&self) -> (r: exception::Result<String>)
        ensures
            r is Ok,
            r->Ok_0@ == sp_rpn_text(sp_expr_view(*self)),
        decreases self,
    {
        match self {
            Expression::Binary { operator, left, right } => {
                let mut builder = match left.reverse_polish_notation() {
                    Ok(s) => s,
                    Err(e) => return Err(e),
                };
                let right_rpn = match right.reverse_polish_notation() {
                    Ok(s) => s,
                    Err(e) => return Err(e),
                };
                builder.append(" ");
                builder.append(right_rpn.as_str());
                builder.append(" ");
                builder.append(operator.lexeme.as_str());
                Ok(builder)
            },
            Expression::Grouping { expression } => expression.reverse_polish_notation(),
            Expression::Literal { value } => Ok(value.to_string()),
            Expression::Unary { operator, right } => {
                let mut builder = match right.reverse_polish_notation() {
                    Ok(s) => s,
                    Err(e) => return Err(e),
                };
                builder.append(" ");
                builder.append(operator.lexeme.as_str());
                Ok(builder)
            },
        }
    }
}

} // verus!
