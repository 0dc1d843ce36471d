//! The recursive-descent parser: consumes a token sequence ending in
//! `EOF` and builds one expression tree, climbing the precedence ladder
//!
//! | level      | operators         | associativity |
//! |------------|-------------------|---------------|
//! | comma      | `,`               | left          |
//! | equality   | `==` `!=`         | left          |
//! | comparison | `>` `>=` `<` `<=` | left          |
//! | term       | `+` `-`           | left          |
//! | factor     | `*` `/`           | left          |
//! | unary      | `!` `-` (prefix)  | right         |
//! | primary    | literals, `( )`   |               |
//!
//! Each left-associative level parses one higher-precedence operand, then
//! folds further operands into `Binary` nodes while its own operators
//! follow.  The parser reads one token of lookahead and never consumes
//! the terminal `EOF`.

use vstd::prelude::*;
use vstd::string::StringExecFns;
use crate::ast::{ExprView, Expression, sp_expr_view, sp_wf_expr};
use crate::exception::{self, Exception, ExceptionView};
use crate::token::{Token, TokenEnum, TokenView};

verus! {

/// What one parsing level produces: the parsed expression and the
/// position after it, or a syntax error.
pub type ParseResult = core::result::Result<(ExprView, int), ExceptionView>;

/// A usable token sequence: non-empty, ending with the `EOF` sentinel.
pub open spec fn sp_wf_tokens(toks: Seq<TokenView>) -> bool {
    toks.len() >= 1 && toks[toks.len() - 1].kind == TokenEnum::EOF
}

/// A token kind that would begin a statement in a statement grammar:
/// the synchronization points of error recovery.
pub open spec fn sp_statement_keyword(k: TokenEnum) -> bool {
    k == TokenEnum::Class || k == TokenEnum::Fun || k == TokenEnum::Var || k == TokenEnum::For
        || k == TokenEnum::If || k == TokenEnum::While || k == TokenEnum::Print || k
        == TokenEnum::Return
}

/// The syntax error reported at a token: located `" at end"` for the
/// `EOF` token, else `" at '<lexeme>'"`.
pub open spec fn sp_parse_err(t: TokenView, message: Seq<char>) -> ExceptionView {
    if t.kind == TokenEnum::EOF {
        ExceptionView { line: t.line, where_r: " at end"@, message: message }
    } else {
        ExceptionView { line: t.line, where_r: " at '"@ + t.lexeme + "'"@, message: message }
    }
}

/// A primary expression at `i`: a literal keyword, a `Number` or `String`
/// token, or a parenthesized expression.
pub open spec fn sp_primary(toks: Seq<TokenView>, i: int) -> ParseResult
    decreases toks.len() - i, 0int,
{
    let k = toks[i].kind;
    if k == TokenEnum::True {
        Ok((ExprView::Lit { value: crate::token::LiteralView::Bool(true) }, i + 1))
    } else if k == TokenEnum::False {
        Ok((ExprView::Lit { value: crate::token::LiteralView::Bool(false) }, i + 1))
    } else if k == TokenEnum::Null {
        Ok((ExprView::Lit { value: crate::token::LiteralView::Nil }, i + 1))
    } else if k == TokenEnum::Number || k == TokenEnum::String {
        Ok((ExprView::Lit { value: toks[i].literal }, i + 1))
    } else if k == TokenEnum::LeftParen {
        if 0 <= i && i < toks.len() {
            match sp_expression(toks, i + 1) {
                Err(e) => Err(e),
                Ok((e, j)) => {
                    if i + 1 <= j < toks.len() {
                        if toks[j].kind == TokenEnum::RightParen {
                            Ok((ExprView::Grouping { inner: Box::new(e) }, j + 1))
                        } else {
                            Err(sp_parse_err(toks[j], "Expect ')' after expression."@))
                        }
                    } else {
                        Err(arbitrary())
                    }
                },
            }
        } else {
            Err(arbitrary())
        }
    } else {
        Err(sp_parse_err(toks[i], "Expect expression."@))
    }
}

/// A unary expression at `i`: prefix `!` or `-` applied to another unary
/// expression (right-associative), or a primary expression.
pub open spec fn sp_unary(toks: Seq<TokenView>, i: int) -> ParseResult
    decreases toks.len() - i, 1int,
{
    if 0 <= i < toks.len() && (toks[i].kind == TokenEnum::Bang || toks[i].kind
        == TokenEnum::Minus) {
        match sp_unary(toks, i + 1) {
            Err(e) => Err(e),
            Ok((r, j)) => Ok((ExprView::Unary { op: toks[i], right: Box::new(r) }, j)),
        }
    } else {
        sp_primary(toks, i)
    }
}

/// Folds further `* /` operands onto `e`, left-associatively.
pub open spec fn sp_factor_rest(toks: Seq<TokenView>, e: ExprView, i: int) -> ParseResult
    decreases toks.len() - i, 0int,
{
    if 0 <= i < toks.len() && (toks[i].kind == TokenEnum::Star || toks[i].kind
        == TokenEnum::Slash) {
        match sp_unary(toks, i + 1) {
            Err(e2) => Err(e2),
            Ok((r, j)) => {
                if i < j <= toks.len() {
                    sp_factor_rest(
                        toks,
                        ExprView::Binary { op: toks[i], left: Box::new(e), right: Box::new(r) },
                        j,
                    )
                } else {
                    Err(arbitrary())
                }
            },
        }
    } else {
        Ok((e, i))
    }
}

/// A factor at `i`: unary expressions joined by `*` or `/`.
pub open spec fn sp_factor(toks: Seq<TokenView>, i: int) -> ParseResult
    decreases toks.len() - i, 2int,
{
    match sp_unary(toks, i) {
        Err(e) => Err(e),
        Ok((e, j)) => {
            if i < j <= toks.len() {
                sp_factor_rest(toks, e, j)
            } else {
                Err(arbitrary())
            }
        },
    }
}

/// Folds further `+ -` operands onto `e`, left-associatively.
pub open spec fn sp_term_rest(toks: Seq<TokenView>, e: ExprView, i: int) -> ParseResult
    decreases toks.len() - i, 0int,
{
    if 0 <= i < toks.len() && (toks[i].kind == TokenEnum::Plus || toks[i].kind
        == TokenEnum::Minus) {
        match sp_factor(toks, i + 1) {
            Err(e2) => Err(e2),
            Ok((r, j)) => {
                if i < j <= toks.len() {
                    sp_term_rest(
                        toks,
                        ExprView::Binary { op: toks[i], left: Box::new(e), right: Box::new(r) },
                        j,
                    )
                } else {
                    Err(arbitrary())
                }
            },
        }
    } else {
        Ok((e, i))
    }
}

/// A term at `i`: factors joined by `+` or `-`.
pub open spec fn sp_term(toks: Seq<TokenView>, i: int) -> ParseResult
    decreases toks.len() - i, 3int,
{
    match sp_factor(toks, i) {
        Err(e) => Err(e),
        Ok((e, j)) => {
            if i < j <= toks.len() {
                sp_term_rest(toks, e, j)
            } else {
                Err(arbitrary())
            }
        },
    }
}

/// Folds further comparison operands onto `e`, left-associatively.
pub open spec fn sp_comparison_rest(toks: Seq<TokenView>, e: ExprView, i: int) -> ParseResult
    decreases toks.len() - i, 0int,
{
    if 0 <= i < toks.len() && (toks[i].kind == TokenEnum::Greater || toks[i].kind
        == TokenEnum::GreaterEqual || toks[i].kind == TokenEnum::Less || toks[i].kind
        == TokenEnum::LessEqual) {
        match sp_term(toks, i + 1) {
            Err(e2) => Err(e2),
            Ok((r, j)) => {
                if i < j <= toks.len() {
                    sp_comparison_rest(
                        toks,
                        ExprView::Binary { op: toks[i], left: Box::new(e), right: Box::new(r) },
                        j,
                    )
                } else {
                    Err(arbitrary())
                }
            },
        }
    } else {
        Ok((e, i))
    }
}

/// A comparison at `i`: terms joined by `>`, `>=`, `<`, or `<=`.
pub open spec fn sp_comparison(toks: Seq<TokenView>, i: int) -> ParseResult
    decreases toks.len() - i, 4int,
{
    match sp_term(toks, i) {
        Err(e) => Err(e),
        Ok((e, j)) => {
            if i < j <= toks.len() {
                sp_comparison_rest(toks, e, j)
            } else {
                Err(arbitrary())
            }
        },
    }
}

/// Folds further `== !=` operands onto `e`, left-associatively.
pub open spec fn sp_equality_rest(toks: Seq<TokenView>, e: ExprView, i: int) -> ParseResult
    decreases toks.len() - i, 0int,
{
    if 0 <= i < toks.len() && (toks[i].kind == TokenEnum::BangEqual || toks[i].kind
        == TokenEnum::EqualEqual) {
        match sp_comparison(toks, i + 1) {
            Err(e2) => Err(e2),
            Ok((r, j)) => {
                if i < j <= toks.len() {
                    sp_equality_rest(
                        toks,
                        ExprView::Binary { op: toks[i], left: Box::new(e), right: Box::new(r) },
                        j,
                    )
                } else {
                    Err(arbitrary())
                }
            },
        }
    } else {
        Ok((e, i))
    }
}

/// An equality at `i`: comparisons joined by `==` or `!=`.
pub open spec fn sp_equality(toks: Seq<TokenView>, i: int) -> ParseResult
    decreases toks.len() - i, 5int,
{
    match sp_comparison(toks, i) {
        Err(e) => Err(e),
        Ok((e, j)) => {
            if i < j <= toks.len() {
                sp_equality_rest(toks, e, j)
            } else {
                Err(arbitrary())
            }
        },
    }
}

/// Folds further comma operands onto `e`, left-associatively.
pub open spec fn sp_comma_rest(toks: Seq<TokenView>, e: ExprView, i: int) -> ParseResult
    decreases toks.len() - i, 0int,
{
    if 0 <= i < toks.len() && toks[i].kind == TokenEnum::Comma {
        match sp_equality(toks, i + 1) {
            Err(e2) => Err(e2),
            Ok((r, j)) => {
                if i < j <= toks.len() {
                    sp_comma_rest(
                        toks,
                        ExprView::Binary { op: toks[i], left: Box::new(e), right: Box::new(r) },
                        j,
                    )
                } else {
                    Err(arbitrary())
                }
            },
        }
    } else {
        Ok((e, i))
    }
}

/// A comma expression at `i`: equalities joined by `,`.
pub open spec fn sp_comma(toks: Seq<TokenView>, i: int) -> ParseResult
    decreases toks.len() - i, 6int,
{
    match sp_equality(toks, i) {
        Err(e) => Err(e),
        Ok((e, j)) => {
            if i < j <= toks.len() {
                sp_comma_rest(toks, e, j)
            } else {
                Err(arbitrary())
            }
        },
    }
}

/// A whole expression: the lowest level of the ladder.
pub open spec fn sp_expression(toks: Seq<TokenView>, i: int) -> ParseResult
    decreases toks.len() - i, 7int,
{
    sp_comma(toks, i)
}

proof fn lemma_primary_wf(toks: Seq<TokenView>, i: int)
    ensures
        sp_primary(toks, i) is Ok ==> sp_wf_expr(sp_primary(toks, i)->Ok_0.0),
    decreases toks.len() - i, 0int,
{
    let k = toks[i].kind;
    if k != TokenEnum::True && k != TokenEnum::False && k != TokenEnum::Null && k
        != TokenEnum::Number && k != TokenEnum::String && k == TokenEnum::LeftParen && 0 <= i && i
        < toks.len() {
        lemma_expression_wf(toks, i + 1);
    }
}

proof fn lemma_unary_wf(toks: Seq<TokenView>, i: int)
    ensures
        sp_unary(toks, i) is Ok ==> sp_wf_expr(sp_unary(toks, i)->Ok_0.0),
    decreases toks.len() - i, 1int,
{
    if 0 <= i < toks.len() && (toks[i].kind == TokenEnum::Bang || toks[i].kind
        == TokenEnum::Minus) {
        lemma_unary_wf(toks, i + 1);
    } else {
        lemma_primary_wf(toks, i);
    }
}

proof fn lemma_factor_rest_wf(toks: Seq<TokenView>, e: ExprView, i: int)
    requires
        sp_wf_expr(e),
    ensures
        sp_factor_rest(toks, e, i) is Ok ==> sp_wf_expr(sp_factor_rest(toks, e, i)->Ok_0.0),
    decreases toks.len() - i, 0int,
{
    if 0 <= i < toks.len() && (toks[i].kind == TokenEnum::Star || toks[i].kind
        == TokenEnum::Slash) {
        lemma_unary_wf(toks, i + 1);
        match sp_unary(toks, i + 1) {
            Ok((r, j)) => {
                if i < j <= toks.len() {
                    lemma_factor_rest_wf(
                        toks,
                        ExprView::Binary { op: toks[i], left: Box::new(e), right: Box::new(r) },
                        j,
                    );
                }
            },
            Err(_) => {},
        }
    }
}

proof fn lemma_factor_wf(toks: Seq<TokenView>, i: int)
    ensures
        sp_factor(toks, i) is Ok ==> sp_wf_expr(sp_factor(toks, i)->Ok_0.0),
    decreases toks.len() - i, 2int,
{
    lemma_unary_wf(toks, i);
    match sp_unary(toks, i) {
        Ok((e, j)) => {
            if i < j <= toks.len() {
                lemma_factor_rest_wf(toks, e, j);
            }
        },
        Err(_) => {},
    }
}

proof fn lemma_term_rest_wf(toks: Seq<TokenView>, e: ExprView, i: int)
    requires
        sp_wf_expr(e),
    ensures
        sp_term_rest(toks, e, i) is Ok ==> sp_wf_expr(sp_term_rest(toks, e, i)->Ok_0.0),
    decreases toks.len() - i, 0int,
{
    if 0 <= i < toks.len() && (toks[i].kind == TokenEnum::Plus || toks[i].kind
        == TokenEnum::Minus) {
        lemma_factor_wf(toks, i + 1);
        match sp_factor(toks, i + 1) {
            Ok((r, j)) => {
                if i < j <= toks.len() {
                    lemma_term_rest_wf(
                        toks,
                        ExprView::Binary { op: toks[i], left: Box::new(e), right: Box::new(r) },
                        j,
                    );
                }
            },
            Err(_) => {},
        }
    }
}

proof fn lemma_term_wf(toks: Seq<TokenView>, i: int)
    ensures
        sp_term(toks, i) is Ok ==> sp_wf_expr(sp_term(toks, i)->Ok_0.0),
    decreases toks.len() - i, 3int,
{
    lemma_factor_wf(toks, i);
    match sp_factor(toks, i) {
        Ok((e, j)) => {
            if i < j <= toks.len() {
                lemma_term_rest_wf(toks, e, j);
            }
        },
        Err(_) => {},
    }
}

proof fn lemma_comparison_rest_wf(toks: Seq<TokenView>, e: ExprView, i: int)
    requires
        sp_wf_expr(e),
    ensures
        sp_comparison_rest(toks, e, i) is Ok ==> sp_wf_expr(sp_comparison_rest(toks, e, i)->Ok_0.0),
    decreases toks.len() - i, 0int,
{
    if 0 <= i < toks.len() && (toks[i].kind == TokenEnum::Greater || toks[i].kind
        == TokenEnum::GreaterEqual || toks[i].kind == TokenEnum::Less || toks[i].kind
        == TokenEnum::LessEqual) {
        lemma_term_wf(toks, i + 1);
        match sp_term(toks, i + 1) {
            Ok((r, j)) => {
                if i < j <= toks.len() {
                    lemma_comparison_rest_wf(
                        toks,
                        ExprView::Binary { op: toks[i], left: Box::new(e), right: Box::new(r) },
                        j,
                    );
                }
            },
            Err(_) => {},
        }
    }
}

proof fn lemma_comparison_wf(toks: Seq<TokenView>, i: int)
    ensures
        sp_comparison(toks, i) is Ok ==> sp_wf_expr(sp_comparison(toks, i)->Ok_0.0),
    decreases toks.len() - i, 4int,
{
    lemma_term_wf(toks, i);
    match sp_term(toks, i) {
        Ok((e, j)) => {
            if i < j <= toks.len() {
                lemma_comparison_rest_wf(toks, e, j);
            }
        },
        Err(_) => {},
    }
}

proof fn lemma_equality_rest_wf(toks: Seq<TokenView>, e: ExprView, i: int)
    requires
        sp_wf_expr(e),
    ensures
        sp_equality_rest(toks, e, i) is Ok ==> sp_wf_expr(sp_equality_rest(toks, e, i)->Ok_0.0),
    decreases toks.len() - i, 0int,
{
    if 0 <= i < toks.len() && (toks[i].kind == TokenEnum::BangEqual || toks[i].kind
        == TokenEnum::EqualEqual) {
        lemma_comparison_wf(toks, i + 1);
        match sp_comparison(toks, i + 1) {
            Ok((r, j)) => {
                if i < j <= toks.len() {
                    lemma_equality_rest_wf(
                        toks,
                        ExprView::Binary { op: toks[i], left: Box::new(e), right: Box::new(r) },
                        j,
                    );
                }
            },
            Err(_) => {},
        }
    }
}

proof fn lemma_equality_wf(toks: Seq<TokenView>, i: int)
    ensures
        sp_equality(toks, i) is Ok ==> sp_wf_expr(sp_equality(toks, i)->Ok_0.0),
    decreases toks.len() - i, 5int,
{
    lemma_comparison_wf(toks, i);
    match sp_comparison(toks, i) {
        Ok((e, j)) => {
            if i < j <= toks.len() {
                lemma_equality_rest_wf(toks, e, j);
            }
        },
        Err(_) => {},
    }
}

proof fn lemma_comma_rest_wf(toks: Seq<TokenView>, e: ExprView, i: int)
    requires
        sp_wf_expr(e),
    ensures
        sp_comma_rest(toks, e, i) is Ok ==> sp_wf_expr(sp_comma_rest(toks, e, i)->Ok_0.0),
    decreases toks.len() - i, 0int,
{
    if 0 <= i < toks.len() && toks[i].kind == TokenEnum::Comma {
        lemma_equality_wf(toks, i + 1);
        match sp_equality(toks, i + 1) {
            Ok((r, j)) => {
                if i < j <= toks.len() {
                    lemma_comma_rest_wf(
                        toks,
                        ExprView::Binary { op: toks[i], left: Box::new(e), right: Box::new(r) },
                        j,
                    );
                }
            },
            Err(_) => {},
        }
    }
}

proof fn lemma_comma_wf(toks: Seq<TokenView>, i: int)
    ensures
        sp_comma(toks, i) is Ok ==> sp_wf_expr(sp_comma(toks, i)->Ok_0.0),
    decreases toks.len() - i, 6int,
{
    lemma_equality_wf(toks, i);
    match sp_equality(toks, i) {
        Ok((e, j)) => {
            if i < j <= toks.len() {
                lemma_comma_rest_wf(toks, e, j);
            }
        },
        Err(_) => {},
    }
}

proof fn lemma_expression_wf(toks: Seq<TokenView>, i: int)
    ensures
        sp_expression(toks, i) is Ok ==> sp_wf_expr(sp_expression(toks, i)->Ok_0.0),
    decreases toks.len() - i, 7int,
{
    lemma_comma_wf(toks, i);
}

/// Every expression tree the parser builds is well-formed: each of its
/// `Binary` and `Unary` nodes holds an operator token from the set the
/// corresponding parsing level matches on, so the printers and the
/// interpreter never see an operator the parser could not have placed
/// there.
pub proof fn lemma_parser_output_wf(toks: Seq<TokenView>, i: int)
    ensures
        sp_expression(toks, i) is Ok ==> sp_wf_expr(sp_expression(toks, i)->Ok_0.0),
{
    lemma_expression_wf(toks, i);
}

/// Membership in a one-element kind list.
proof fn lemma_kinds_one(s: Seq<TokenEnum>, a: TokenEnum)
    requires
        s =~= seq![a],
    ensures
        forall|k: TokenEnum| #[trigger] s.contains(k) <==> k == a,
{
    assert forall|k: TokenEnum| #[trigger] s.contains(k) implies k == a by {
        let q = choose|q: int| 0 <= q < s.len() && s[q] == k;
    }
    assert forall|k: TokenEnum| k == a implies #[trigger] s.contains(k) by {
        assert(s[0] == k);
    }
}

/// Membership in a two-element kind list.
proof fn lemma_kinds_two(s: Seq<TokenEnum>, a: TokenEnum, b: TokenEnum)
    requires
        s =~= seq![a, b],
    ensures
        forall|k: TokenEnum| #[trigger] s.contains(k) <==> (k == a || k == b),
{
    assert forall|k: TokenEnum| #[trigger] s.contains(k) implies (k == a || k == b) by {
        let q = choose|q: int| 0 <= q < s.len() && s[q] == k;
    }
    assert forall|k: TokenEnum| k == a || k == b implies #[trigger] s.contains(k) by {
        if k == a {
            assert(s[0] == k);
        } else {
            assert(s[1] == k);
        }
    }
}

/// Membership in a four-element kind list.
proof fn lemma_kinds_four(s: Seq<TokenEnum>, a: TokenEnum, b: TokenEnum, c: TokenEnum, d: TokenEnum)
    requires
        s =~= seq![a, b, c, d],
    ensures
        forall|k: TokenEnum| #[trigger] s.contains(k) <==> (k == a || k == b || k == c || k == d),
{
    assert forall|k: TokenEnum| #[trigger] s.contains(k) implies (k == a || k == b || k == c || k
        == d) by {
        let q = choose|q: int| 0 <= q < s.len() && s[q] == k;
    }
    assert forall|k: TokenEnum| k == a || k == b || k == c || k == d implies #[trigger] s.contains(
        k,
    ) by {
        if k == a {
            assert(s[0] == k);
        } else if k == b {
            assert(s[1] == k);
        } else if k == c {
            assert(s[2] == k);
        } else {
            assert(s[3] == k);
        }
    }
}

/// The parser: a cursor over a scanned token sequence.
#[derive(Debug)]
pub struct Parser {
    pub tokens: Vec<Token>,
    pub current: usize,
}

impl Parser {
    /// The mathematical view of the token sequence.
    pub open spec fn toks(&self) -> Seq<TokenView> {
        self.tokens.deep_view()
    }

    /// Well-formedness: the token sequence ends in `EOF` and the cursor
    /// stands on a token.
    pub open spec fn wf(&self) -> bool {
        sp_wf_tokens(self.toks()) && self.current < self.tokens@.len()
    }

    /// A parser at the first token of the given sequence, which must end
    /// in the `EOF` sentinel (as every scanned sequence does).
    pub fn new(tokens: Vec<Token>) -> (r: Self)
        requires
            sp_wf_tokens(tokens.deep_view()),
        ensures
            r.wf(),
            r.toks() == tokens.deep_view(),
            r.current == 0,
    {
        Self { tokens: tokens, current: 0 }
    }

    /// The token under the cursor, not yet consumed.
    fn peek(&self) -> (t: Token)
        requires
            self.wf(),
        ensures
            t == self.tokens@[self.current as int],
    {
        self.tokens[self.current].clone()
    }

    /// The most recently consumed token.
    fn previous(&self) -> (t: Token)
        requires
            self.wf(),
            self.current >= 1,
        ensures
            t == self.tokens@[self.current as int - 1],
    {
        self.tokens[self.current - 1].clone()
    }

    /// Whether the cursor has reached the `EOF` sentinel.
    fn is_at_end(&self) -> (r: bool)
        requires
            self.wf(),
        ensures
            r == (self.toks()[self.current as int].kind == TokenEnum::EOF),
    {
        self.peek().token_type == TokenEnum::EOF
    }

    /// Whether the token under the cursor has the given kind; the `EOF`
    /// sentinel never matches.
    fn check(&self, token_type: TokenEnum) -> (r: bool)
        requires
            self.wf(),
        ensures
            r == (self.toks()[self.current as int].kind != TokenEnum::EOF
                && self.toks()[self.current as int].kind == token_type),
    {
        if self.is_at_end() {
            return false;
        }
        self.peek().token_type == token_type
    }

    /// Consumes the token under the cursor (unless it is `EOF`) and
    /// returns the most recently consumed token.
    fn advance(&mut self) -> (t: Token)
        requires
            old(self).wf(),
            old(self).toks()[old(self).current as int].kind != TokenEnum::EOF || old(self).current
                >= 1,
        ensures
            final(self).wf(),
            final(self).tokens == old(self).tokens,
            (old(self).toks()[old(self).current as int].kind != TokenEnum::EOF ==> (final(
                self).current == old(self).current + 1 && t == old(self).tokens@[old(
                self).current as int])),
            (old(self).toks()[old(self).current as int].kind == TokenEnum::EOF ==> (final(
                self).current == old(self).current && t == old(self).tokens@[old(
                self).current as int - 1])),
    {
        if !self.is_at_end() {
            let n = self.tokens.len();
            assert(self.current < n);
            self.current = self.current + 1;
        }
        self.previous()
    }

    /// When the token under the cursor has one of the given kinds,
    /// consumes it and reports a match; otherwise leaves the cursor
    /// alone.
    fn matching(&mut self, types: Vec<TokenEnum>) -> (r: bool)
        requires
            old(self).wf(),
        ensures
            final(self).wf(),
            final(self).tokens == old(self).tokens,
            r == (old(self).toks()[old(self).current as int].kind != TokenEnum::EOF
                && types@.contains(old(self).toks()[old(self).current as int].kind)),
            r ==> final(self).current == old(self).current + 1,
            !r ==> final(self).current == old(self).current,
    {
        let mut idx: usize = 0;
        while idx < types.len()
            invariant
                idx <= types@.len(),
                self == old(self),
                self.wf(),
                forall|q: int|
                    0 <= q < idx ==> !(self.toks()[self.current as int].kind != TokenEnum::EOF
                        && self.toks()[self.current as int].kind == types@[q]),
            decreases types@.len() - idx,
        {
            if self.check(types[idx]) {
                self.advance();
                proof {
                    assert(types@.contains(old(self).toks()[old(self).current as int].kind));
                }
                return true;
            }
            idx = idx + 1;
        }
        proof {
            if old(self).toks()[old(self).current as int].kind != TokenEnum::EOF && types@.contains(
                old(self).toks()[old(self).current as int].kind,
            ) {
                let k0 = old(self).toks()[old(self).current as int].kind;
                let q = choose|q: int| 0 <= q < types@.len() && types@[q] == k0;
                assert(false);
            }
        }
        false
    }

    /// Consumes the token under the cursor when it has the given kind;
    /// otherwise reports a syntax error at that token.
    fn consume(&mut self, token_type: TokenEnum, message: &str) -> (r: exception::Result<Token>)
        requires
            old(self).wf(),
        ensures
            final(self).wf(),
            final(self).tokens == old(self).tokens,
            (if old(self).toks()[old(self).current as int].kind != TokenEnum::EOF && old(
                self,
            ).toks()[old(self).current as int].kind == token_type {
                r is Ok && final(self).current == old(self).current + 1
            } else {
                r is Err && r->Err_0@ == sp_parse_err(
                    old(self).toks()[old(self).current as int],
                    message@,
                ) && final(self).current == old(self).current
            }),
    {
        if self.check(token_type) {
            return Ok(self.advance());
        }
        Self::error(self.peek(), message)
    }

    /// The syntax error for an unexpected token: located `" at end"` when
    /// the token is the `EOF` sentinel, else `" at '<lexeme>'"`.
    fn error<T>(token: Token, message: &str) -> (r: exception::Result<T>)
        ensures
            r is Err,
            r->Err_0@ == sp_parse_err(token@, message@),
    {
        if token.token_type == TokenEnum::EOF {
            return Exception::error(token.line, " at end", message);
        }
        let mut where_r = String::from_str(" at '");
        where_r.append(token.lexeme.as_str());
        where_r.append("'");
        proof {
            assert(where_r@ =~= " at '"@ + token.lexeme@ + "'"@);
        }
        Exception::error(token.line, where_r.as_str(), message)
    }

    /// Parses one whole expression from the tokens, as [`sp_expression`]
    /// describes; trailing tokens after the expression are left
    /// unconsumed.
    pub fn parser(&mut self) -> (r: exception::Result<Expression>)
        requires
            old(self).wf(),
        ensures
            final(self).wf(),
            final(self).tokens == old(self).tokens,
            match sp_expression(old(self).toks(), old(self).current as int) {
                Ok((e, j)) => r is Ok && sp_expr_view(r->Ok_0) == e && final(self).current as int
                    == j,
                Err(x) => r is Err && r->Err_0@ == x,
            },
    {
        self.expression()
    }

    /// The lowest level of the precedence ladder.
    fn expression(&mut self) -> (r: exception::Result<Expression>)
        requires
            old(self).wf(),
        ensures
            final(self).wf(),
            final(self).tokens == old(self).tokens,
            r is Ok ==> final(self).current > old(self).current,
            match sp_expression(old(self).toks(), old(self).current as int) {
                Ok((e, j)) => r is Ok && sp_expr_view(r->Ok_0) == e && final(self).current as int
                    == j,
                Err(x) => r is Err && r->Err_0@ == x,
            },
        decreases self.tokens@.len() - self.current, 7int,
    {
        self.comma()
    }

    /// The comma level: equalities joined by `,`, left-associative.
    fn comma(&mut self) -> (r: exception::Result<Expression>)
        requires
            old(self).wf(),
        ensures
            final(self).wf(),
            final(self).tokens == old(self).tokens,
            r is Ok ==> final(self).current > old(self).current,
            match sp_comma(old(self).toks(), old(self).current as int) {
                Ok((e, j)) => r is Ok && sp_expr_view(r->Ok_0) == e && final(self).current as int
                    == j,
                Err(x) => r is Err && r->Err_0@ == x,
            },
        decreases self.tokens@.len() - self.current, 6int,
    {
        let ghost toks = self.toks();
        let ghost i0 = self.current as int;
        let mut expr = match self.equality() {
            Ok(e) => e,
            Err(x) => {
                return Err(x);
            },
        };
        loop
            invariant
                self.wf(),
                self.tokens == old(self).tokens,
                toks == old(self).toks(),
                i0 == old(self).current as int,
                self.current as int > i0,
                sp_comma_rest(toks, sp_expr_view(expr), self.current as int) == sp_comma(toks, i0),
            ensures
                self.wf(),
                self.tokens == old(self).tokens,
                self.current as int > i0,
                sp_comma(toks, i0) == Ok::<(ExprView, int), ExceptionView>(
                    (sp_expr_view(expr), self.current as int),
                ),
            decreases self.tokens@.len() - self.current,
        {
            let ghost head = *self;
            let ghost ev0 = sp_expr_view(expr);
            let kinds = vec![TokenEnum::Comma];
            proof {
                lemma_kinds_one(kinds@, TokenEnum::Comma);
            }
            if !self.matching(kinds) {
                break;
            }
            let operator = self.previous();
            let right = match self.equality() {
                Ok(e) => e,
                Err(x) => {
                    proof {
                        assert(sp_comma_rest(toks, ev0, head.current as int) == Err::<
                            (ExprView, int),
                            ExceptionView,
                        >(x@));
                    }
                    return Err(x);
                },
            };
            let ghost rv = sp_expr_view(right);
            expr = Expression::Binary { operator: operator, left: Box::new(expr), right: Box::new(
                right,
            ) };
            proof {
                assert(operator@ == toks[head.current as int]);
                assert(sp_expr_view(expr) == (ExprView::Binary {
                    op: toks[head.current as int],
                    left: Box::new(ev0),
                    right: Box::new(rv),
                }));
                assert(sp_comma_rest(toks, ev0, head.current as int) == sp_comma_rest(
                    toks,
                    sp_expr_view(expr),
                    self.current as int,
                ));
            }
        }
        Ok(expr)
    }

    /// The equality level: comparisons joined by `==` or `!=`.
    fn equality(&mut self) -> (r: exception::Result<Expression>)
        requires
            old(self).wf(),
        ensures
            final(self).wf(),
            final(self).tokens == old(self).tokens,
            r is Ok ==> final(self).current > old(self).current,
            match sp_equality(old(self).toks(), old(self).current as int) {
                Ok((e, j)) => r is Ok && sp_expr_view(r->Ok_0) == e && final(self).current as int
                    == j,
                Err(x) => r is Err && r->Err_0@ == x,
            },
        decreases self.tokens@.len() - self.current, 5int,
    {
        let ghost toks = self.toks();
        let ghost i0 = self.current as int;
        let mut expr = match self.comparison() {
            Ok(e) => e,
            Err(x) => {
                return Err(x);
            },
        };
        loop
            invariant
                self.wf(),
                self.tokens == old(self).tokens,
                toks == old(self).toks(),
                i0 == old(self).current as int,
                self.current as int > i0,
                sp_equality_rest(toks, sp_expr_view(expr), self.current as int) == sp_equality(
                    toks,
                    i0,
                ),
            ensures
                self.wf(),
                self.tokens == old(self).tokens,
                self.current as int > i0,
                sp_equality(toks, i0) == Ok::<(ExprView, int), ExceptionView>(
                    (sp_expr_view(expr), self.current as int),
                ),
            decreases self.tokens@.len() - self.current,
        {
            let ghost head = *self;
            let ghost ev0 = sp_expr_view(expr);
            let kinds = vec![TokenEnum::BangEqual, TokenEnum::EqualEqual];
            proof {
                lemma_kinds_two(kinds@, TokenEnum::BangEqual, TokenEnum::EqualEqual);
            }
            if !self.matching(kinds) {
                break;
            }
            let operator = self.previous();
            let right = match self.comparison() {
                Ok(e) => e,
                Err(x) => {
                    proof {
                        assert(sp_equality_rest(toks, ev0, head.current as int) == Err::<
                            (ExprView, int),
                            ExceptionView,
                        >(x@));
                    }
                    return Err(x);
                },
            };
            let ghost rv = sp_expr_view(right);
            expr = Expression::Binary { operator: operator, left: Box::new(expr), right: Box::new(
                right,
            ) };
            proof {
                assert(operator@ == toks[head.current as int]);
                assert(sp_expr_view(expr) == (ExprView::Binary {
                    op: toks[head.current as int],
                    left: Box::new(ev0),
                    right: Box::new(rv),
                }));
                assert(sp_equality_rest(toks, ev0, head.current as int) == sp_equality_rest(
                    toks,
                    sp_expr_view(expr),
                    self.current as int,
                ));
            }
        }
        Ok(expr)
    }

    /// The comparison level: terms joined by `>`, `>=`, `<`, or `<=`.
    fn comparison(&mut self) -> (r: exception::Result<Expression>)
        requires
            old(self).wf(),
        ensures
            final(self).wf(),
            final(self).tokens == old(self).tokens,
            r is Ok ==> final(self).current > old(self).current,
            match sp_comparison(old(self).toks(), old(self).current as int) {
                Ok((e, j)) => r is Ok && sp_expr_view(r->Ok_0) == e && final(self).current as int
                    == j,
                Err(x) => r is Err && r->Err_0@ == x,
            },
        decreases self.tokens@.len() - self.current, 4int,
    {
        let ghost toks = self.toks();
        let ghost i0 = self.current as int;
        let mut expr = match self.term() {
            Ok(e) => e,
            Err(x) => {
                return Err(x);
            },
        };
        loop
            invariant
                self.wf(),
                self.tokens == old(self).tokens,
                toks == old(self).toks(),
                i0 == old(self).current as int,
                self.current as int > i0,
                sp_comparison_rest(toks, sp_expr_view(expr), self.current as int) == sp_comparison(
                    toks,
                    i0,
                ),
            ensures
                self.wf(),
                self.tokens == old(self).tokens,
                self.current as int > i0,
                sp_comparison(toks, i0) == Ok::<(ExprView, int), ExceptionView>(
                    (sp_expr_view(expr), self.current as int),
                ),
            decreases self.tokens@.len() - self.current,
        {
            let ghost head = *self;
            let ghost ev0 = sp_expr_view(expr);
            let kinds = vec![
                TokenEnum::Greater,
                TokenEnum::GreaterEqual,
                TokenEnum::Less,
                TokenEnum::LessEqual,
            ];
            proof {
                lemma_kinds_four(
                    kinds@,
                    TokenEnum::Greater,
                    TokenEnum::GreaterEqual,
                    TokenEnum::Less,
                    TokenEnum::LessEqual,
                );
            }
            if !self.matching(kinds) {
                break;
            }
            let operator = self.previous();
            let right = match self.term() {
                Ok(e) => e,
                Err(x) => {
                    proof {
                        assert(sp_comparison_rest(toks, ev0, head.current as int) == Err::<
                            (ExprView, int),
                            ExceptionView,
                        >(x@));
                    }
                    return Err(x);
                },
            };
            let ghost rv = sp_expr_view(right);
            expr = Expression::Binary { operator: operator, left: Box::new(expr), right: Box::new(
                right,
            ) };
            proof {
                assert(operator@ == toks[head.current as int]);
                assert(sp_expr_view(expr) == (ExprView::Binary {
                    op: toks[head.current as int],
                    left: Box::new(ev0),
                    right: Box::new(rv),
                }));
                assert(sp_comparison_rest(toks, ev0, head.current as int) == sp_comparison_rest(
                    toks,
                    sp_expr_view(expr),
                    self.current as int,
                ));
            }
        }
        Ok(expr)
    }

    /// The term level: factors joined by `+` or `-`.
    fn term(&mut self) -> (r: exception::Result<Expression>)
        requires
            old(self).wf(),
        ensures
            final(self).wf(),
            final(self).tokens == old(self).tokens,
            r is Ok ==> final(self).current > old(self).current,
            match sp_term(old(self).toks(), old(self).current as int) {
                Ok((e, j)) => r is Ok && sp_expr_view(r->Ok_0) == e && final(self).current as int
                    == j,
                Err(x) => r is Err && r->Err_0@ == x,
            },
        decreases self.tokens@.len() - self.current, 3int,
    {
        let ghost toks = self.toks();
        let ghost i0 = self.current as int;
        let mut expr = match self.factor() {
            Ok(e) => e,
            Err(x) => {
                return Err(x);
            },
        };
        loop
            invariant
                self.wf(),
                self.tokens == old(self).tokens,
                toks == old(self).toks(),
                i0 == old(self).current as int,
                self.current as int > i0,
                sp_term_rest(toks, sp_expr_view(expr), self.current as int) == sp_term(toks, i0),
            ensures
                self.wf(),
                self.tokens == old(self).tokens,
                self.current as int > i0,
                sp_term(toks, i0) == Ok::<(ExprView, int), ExceptionView>(
                    (sp_expr_view(expr), self.current as int),
                ),
            decreases self.tokens@.len() - self.current,
        {
            let ghost head = *self;
            let ghost ev0 = sp_expr_view(expr);
            let kinds = vec![TokenEnum::Plus, TokenEnum::Minus];
            proof {
                lemma_kinds_two(kinds@, TokenEnum::Plus, TokenEnum::Minus);
            }
            if !self.matching(kinds) {
                break;
            }
            let operator = self.previous();
            let right = match self.factor() {
                Ok(e) => e,
                Err(x) => {
                    proof {
                        assert(sp_term_rest(toks, ev0, head.current as int) == Err::<
                            (ExprView, int),
                            ExceptionView,
                        >(x@));
                    }
                    return Err(x);
                },
            };
            let ghost rv = sp_expr_view(right);
            expr = Expression::Binary { operator: operator, left: Box::new(expr), right: Box::new(
                right,
            ) };
            proof {
                assert(operator@ == toks[head.current as int]);
                assert(sp_expr_view(expr) == (ExprView::Binary {
                    op: toks[head.current as int],
                    left: Box::new(ev0),
                    right: Box::new(rv),
                }));
                assert(sp_term_rest(toks, ev0, head.current as int) == sp_term_rest(
                    toks,
                    sp_expr_view(expr),
                    self.current as int,
                ));
            }
        }
        Ok(expr)
    }

    /// The factor level: unary expressions joined by `*` or `/`.
    fn factor(&mut self) -> (r: exception::Result<Expression>)
        requires
            old(self).wf(),
        ensures
            final(self).wf(),
            final(self).tokens == old(self).tokens,
            r is Ok ==> final(self).current > old(self).current,
            match sp_factor(old(self).toks(), old(self).current as int) {
                Ok((e, j)) => r is Ok && sp_expr_view(r->Ok_0) == e && final(self).current as int
                    == j,
                Err(x) => r is Err && r->Err_0@ == x,
            },
        decreases self.tokens@.len() - self.current, 2int,
    {
        let ghost toks = self.toks();
        let ghost i0 = self.current as int;
        let mut expr = match self.unary() {
            Ok(e) => e,
            Err(x) => {
                return Err(x);
            },
        };
        loop
            invariant
                self.wf(),
                self.tokens == old(self).tokens,
                toks == old(self).toks(),
                i0 == old(self).current as int,
                self.current as int > i0,
                sp_factor_rest(toks, sp_expr_view(expr), self.current as int) == sp_factor(
                    toks,
                    i0,
                ),
            ensures
                self.wf(),
                self.tokens == old(self).tokens,
                self.current as int > i0,
                sp_factor(toks, i0) == Ok::<(ExprView, int), ExceptionView>(
                    (sp_expr_view(expr), self.current as int),
                ),
            decreases self.tokens@.len() - self.current,
        {
            let ghost head = *self;
            let ghost ev0 = sp_expr_view(expr);
            let kinds = vec![TokenEnum::Star, TokenEnum::Slash];
            proof {
                lemma_kinds_two(kinds@, TokenEnum::Star, TokenEnum::Slash);
            }
            if !self.matching(kinds) {
                break;
            }
            let operator = self.previous();
            let right = match self.unary() {
                Ok(e) => e,
                Err(x) => {
                    proof {
                        assert(sp_factor_rest(toks, ev0, head.current as int) == Err::<
                            (ExprView, int),
                            ExceptionView,
                        >(x@));
                    }
                    return Err(x);
                },
            };
            let ghost rv = sp_expr_view(right);
            expr = Expression::Binary { operator: operator, left: Box::new(expr), right: Box::new(
                right,
            ) };
            proof {
                assert(operator@ == toks[head.current as int]);
                assert(sp_expr_view(expr) == (ExprView::Binary {
                    op: toks[head.current as int],
                    left: Box::new(ev0),
                    right: Box::new(rv),
                }));
                assert(sp_factor_rest(toks, ev0, head.current as int) == sp_factor_rest(
                    toks,
                    sp_expr_view(expr),
                    self.current as int,
                ));
            }
        }
        Ok(expr)
    }

    /// The unary level: prefix `!` or `-`, right-associative.
    fn unary(&mut self) -> (r: exception::Result<Expression>)
        requires
            old(self).wf(),
        ensures
            final(self).wf(),
            final(self).tokens == old(self).tokens,
            r is Ok ==> final(self).current > old(self).current,
            match sp_unary(old(self).toks(), old(self).current as int) {
                Ok((e, j)) => r is Ok && sp_expr_view(r->Ok_0) == e && final(self).current as int
                    == j,
                Err(x) => r is Err && r->Err_0@ == x,
            },
        decreases self.tokens@.len() - self.current, 1int,
    {
        let ghost toks = self.toks();
        let ghost i0 = self.current as int;
        let kinds = vec![TokenEnum::Bang, TokenEnum::Minus];
        proof {
            lemma_kinds_two(kinds@, TokenEnum::Bang, TokenEnum::Minus);
        }
        if self.matching(kinds) {
            let operator = self.previous();
            let right = match self.unary() {
                Ok(e) => e,
                Err(x) => {
                    return Err(x);
                },
            };
            let ghost rv = sp_expr_view(right);
            let result = Expression::Unary { operator: operator, right: Box::new(right) };
            proof {
                assert(operator@ == toks[i0]);
                assert(sp_expr_view(result) == (ExprView::Unary {
                    op: toks[i0],
                    right: Box::new(rv),
                }));
            }
            return Ok(result);
        }
        self.primary()
    }

    /// The primary level: literal keywords, `Number` and `String` tokens,
    /// and parenthesized expressions.
    fn primary(&mut self) -> (r: exception::Result<Expression>)
        requires
            old(self).wf(),
        ensures
            final(self).wf(),
            final(self).tokens == old(self).tokens,
            r is Ok ==> final(self).current > old(self).current,
            match sp_primary(old(self).toks(), old(self).current as int) {
                Ok((e, j)) => r is Ok && sp_expr_view(r->Ok_0) == e && final(self).current as int
                    == j,
                Err(x) => r is Err && r->Err_0@ == x,
            },
            (old(self).toks()[old(self).current as int].kind != TokenEnum::True && old(
                self).toks()[old(self).current as int].kind != TokenEnum::False && old(
                self).toks()[old(self).current as int].kind != TokenEnum::Null && old(
                self).toks()[old(self).current as int].kind != TokenEnum::Number && old(
                self).toks()[old(self).current as int].kind != TokenEnum::String && old(
                self).toks()[old(self).current as int].kind != TokenEnum::LeftParen) ==> final(
                self).current == old(self).current,
        decreases self.tokens@.len() - self.current, 0int,
    {
        let ghost toks = self.toks();
        let ghost i0 = self.current as int;
        match self.peek().token_type {
            TokenEnum::True => {
                self.advance();
                Ok(Expression::Literal { value: crate::token::Literal::Bool(true) })
            },
            TokenEnum::False => {
                self.advance();
                Ok(Expression::Literal { value: crate::token::Literal::Bool(false) })
            },
            TokenEnum::Null => {
                self.advance();
                Ok(Expression::Literal { value: crate::token::Literal::Nil })
            },
            TokenEnum::Number | TokenEnum::String => {
                self.advance();
                Ok(Expression::Literal { value: self.previous().literal })
            },
            TokenEnum::LeftParen => {
                self.advance();
                let expr = match self.expression() {
                    Ok(e) => e,
                    Err(x) => {
                        return Err(x);
                    },
                };
                match self.consume(TokenEnum::RightParen, "Expect ')' after expression.") {
                    Ok(_) => {},
                    Err(x) => {
                        return Err(x);
                    },
                }
                Ok(Expression::Grouping { expression: Box::new(expr) })
            },
            _ => {
                Self::error(self.peek(), "Expect expression.")
            },
        }
    }

    /// Discards the offending token and everything after it up to a
    /// statement boundary — past a `;`, or before a token that begins a
    /// statement, or at `EOF` — so that a future statement grammar could
    /// report several errors in one pass.  The single-expression entry
    /// point never calls it.
    #[allow(dead_code)]
    fn synchronize(&mut self)
        requires
            old(self).wf(),
        ensures
            final(self).wf(),
            final(self).tokens == old(self).tokens,
            final(self).current >= old(self).current,
            old(self).toks()[old(self).current as int].kind != TokenEnum::EOF ==> final(
                self).current > old(self).current,
            final(self).toks()[final(self).current as int].kind == TokenEnum::EOF || (final(
                self).current >= 1 && final(self).toks()[final(self).current as int - 1].kind
                == TokenEnum::SemiColon) || sp_statement_keyword(
                final(self).toks()[final(self).current as int].kind,
            ),
    {
        if self.is_at_end() {
            return ;
        }
        self.advance();
        while !self.is_at_end()
            invariant
                self.wf(),
                self.tokens == old(self).tokens,
                self.current >= 1,
                self.current > old(self).current,
            decreases self.tokens@.len() - self.current,
        {
            if self.previous().token_type == TokenEnum::SemiColon {
                return ;
            }
            match self.peek().token_type {
                TokenEnum::Class
                | TokenEnum::Fun
                | TokenEnum::Var
                | TokenEnum::For
                | TokenEnum::If
                | TokenEnum::While
                | TokenEnum::Print
                | TokenEnum::Return => {
                    return ;
                },
                _ => (),
            }
            self.advance();
        }
    }
}

} // verus!
