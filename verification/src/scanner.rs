//! The lexical scanner: one left-to-right pass that turns source text into
//! an ordered token sequence ending in a single `EOF` token, or fails with
//! the first lexical error.
//!
//! The scan is all-or-nothing: the first error aborts it and no partial
//! token sequence is returned.  Two resolutions are fixed here: a numeric
//! lexeme with a fractional part is rejected at scan time (literal values
//! are 64-bit integers only), and a digit run whose value exceeds the
//! 64-bit range is rejected rather than wrapped.

use vstd::prelude::*;
use vstd::string::{StrSliceExecFns, StringExecFns};
use crate::exception::{self, Exception, ExceptionView};
use crate::numerals::{sp_digit_val, sp_digits_val, sp_is_digit};
use crate::token::{Literal, LiteralView, Token, TokenEnum, TokenView, sp_keyword};

verus! {

/// A letter or underscore: the characters an identifier may begin with.
pub open spec fn sp_is_alpha(c: char) -> bool {
    ('a' <= c && c <= 'z') || ('A' <= c && c <= 'Z') || c == '_'
}

/// A letter, underscore, or digit: the characters an identifier continues
/// with.
pub open spec fn sp_is_alnum(c: char) -> bool {
    sp_is_alpha(c) || sp_is_digit(c)
}

/// The first position at or after `i` holding `c`, or the text length if
/// there is none.
pub open spec fn sp_find_char(src: Seq<char>, i: int, c: char) -> int
    decreases src.len() - i,
{
    if 0 <= i && i < src.len() {
        if src[i] == c {
            i
        } else {
            sp_find_char(src, i + 1, c)
        }
    } else {
        src.len() as int
    }
}

/// The first position at or after `i` where a digit run ends.
pub open spec fn sp_digit_end(src: Seq<char>, i: int) -> int
    decreases src.len() - i,
{
    if 0 <= i && i < src.len() {
        if sp_is_digit(src[i]) {
            sp_digit_end(src, i + 1)
        } else {
            i
        }
    } else {
        src.len() as int
    }
}

/// The first position at or after `i` where an identifier run ends.
pub open spec fn sp_alnum_end(src: Seq<char>, i: int) -> int
    decreases src.len() - i,
{
    if 0 <= i && i < src.len() {
        if sp_is_alnum(src[i]) {
            sp_alnum_end(src, i + 1)
        } else {
            i
        }
    } else {
        src.len() as int
    }
}

/// The first position at or after `i` that starts a block-comment closing
/// sequence, or the text length if there is none.
pub open spec fn sp_find_close(src: Seq<char>, i: int) -> int
    decreases src.len() - i,
{
    if 0 <= i && i < src.len() {
        if src[i] == '*' && i + 1 < src.len() && src[i + 1] == '/' {
            i
        } else {
            sp_find_close(src, i + 1)
        }
    } else {
        src.len() as int
    }
}

/// How many newline characters lie in positions `a .. b`.
pub open spec fn sp_count_nl(src: Seq<char>, a: int, b: int) -> int
    decreases b - a,
{
    if a < b {
        (if 0 <= a && a < src.len() && src[a] == '\n' {
            1int
        } else {
            0int
        }) + sp_count_nl(src, a + 1, b)
    } else {
        0
    }
}

/// Newlines in a range split at any midpoint.
pub proof fn lemma_count_nl_split(src: Seq<char>, a: int, m: int, b: int)
    requires
        a <= m <= b,
    ensures
        sp_count_nl(src, a, b) == sp_count_nl(src, a, m) + sp_count_nl(src, m, b),
    decreases m - a,
{
    if a < m {
        lemma_count_nl_split(src, a + 1, m, b);
    }
}

/// Newline counts are never negative.
pub proof fn lemma_count_nl_nonneg(src: Seq<char>, a: int, b: int)
    ensures
        sp_count_nl(src, a, b) >= 0,
    decreases b - a,
{
    if a < b {
        lemma_count_nl_nonneg(src, a + 1, b);
    }
}

/// The lexical error with the given message: no location context, the
/// line the scanner stood on.
pub open spec fn sp_lex_err(line: int, message: Seq<char>) -> ExceptionView {
    ExceptionView { line: line, where_r: ""@, message: message }
}

/// The token for a lexeme spanning `start .. end` that carries no literal.
pub open spec fn sp_plain_token(
    kind: TokenEnum,
    src: Seq<char>,
    start: int,
    end: int,
    line: int,
) -> TokenView {
    TokenView { kind: kind, lexeme: src.subrange(start, end), literal: LiteralView::Nil, line: line }
}

/// The terminal token every scan ends with.
pub open spec fn sp_eof_token(line: int) -> TokenView {
    TokenView {
        kind: TokenEnum::EOF,
        lexeme: Seq::<char>::empty(),
        literal: LiteralView::Nil,
        line: line,
    }
}

/// One step of the scanner: what scanning the single lexeme that begins at
/// `i` produces.  The result is the emitted token (if the lexeme emits
/// one), the position after the lexeme, and the line after it.
pub type StepResult = core::result::Result<(Option<TokenView>, int, int), ExceptionView>;

/// Prefixes already-emitted tokens onto the outcome of the rest of a scan.
pub open spec fn sp_combine(
    done: Seq<TokenView>,
    rest: core::result::Result<Seq<TokenView>, ExceptionView>,
) -> core::result::Result<Seq<TokenView>, ExceptionView> {
    match rest {
        Ok(ts) => Ok(done + ts),
        Err(e) => Err(e),
    }
}

/// A single-character token at `i`.
pub open spec fn sp_single_step(kind: TokenEnum, src: Seq<char>, i: int, line: int) -> StepResult {
    Ok((Some(sp_plain_token(kind, src, i, i + 1, line)), i + 1, line))
}

/// An operator that extends to two characters when `=` follows.
pub open spec fn sp_two_char_step(
    src: Seq<char>,
    i: int,
    line: int,
    two: TokenEnum,
    one: TokenEnum,
) -> StepResult {
    if i + 1 < src.len() && src[i + 1] == '=' {
        Ok((Some(sp_plain_token(two, src, i, i + 2, line)), i + 2, line))
    } else {
        Ok((Some(sp_plain_token(one, src, i, i + 1, line)), i + 1, line))
    }
}

/// A `/` lexeme: a line comment runs to the end of the line, a block
/// comment to its closing sequence (or to the end of the input when
/// unterminated), neither emitting a token; otherwise a `Slash` token.
pub open spec fn sp_comment_step(src: Seq<char>, i: int, line: int) -> StepResult {
    if i + 1 < src.len() && src[i + 1] == '/' {
        Ok((None, sp_find_char(src, i + 2, '\n'), line))
    } else if i + 1 < src.len() && src[i + 1] == '*' {
        let k = sp_find_close(src, i + 2);
        if k < src.len() {
            Ok((None, k + 2, line + sp_count_nl(src, i + 2, k)))
        } else {
            Ok((None, src.len() as int, line + sp_count_nl(src, i + 2, src.len() as int)))
        }
    } else {
        sp_single_step(TokenEnum::Slash, src, i, line)
    }
}

/// A string literal beginning at the quote at `i`: runs to the closing
/// quote, with embedded newlines legal and counted; reaching the end of
/// the input first is an error.  No escape sequences are processed.
pub open spec fn sp_string_step(src: Seq<char>, i: int, line: int) -> StepResult {
    let k = sp_find_char(src, i + 1, '"');
    if k >= src.len() {
        Err(sp_lex_err(line + sp_count_nl(src, i + 1, src.len() as int), "Unterminated string."@))
    } else {
        let l2 = line + sp_count_nl(src, i + 1, k);
        Ok(
            (
                Some(
                    TokenView {
                        kind: TokenEnum::String,
                        lexeme: src.subrange(i, k + 1),
                        literal: LiteralView::Str(src.subrange(i + 1, k)),
                        line: l2,
                    },
                ),
                k + 1,
                l2,
            ),
        )
    }
}

/// A numeric literal beginning at the digit at `i`: the maximal digit run,
/// rejected when a fractional part follows or when its value exceeds the
/// 64-bit signed range.
pub open spec fn sp_number_step(src: Seq<char>, i: int, line: int) -> StepResult {
    let e = sp_digit_end(src, i + 1);
    if e < src.len() && src[e] == '.' && e + 1 < src.len() && sp_is_digit(src[e + 1]) {
        Err(sp_lex_err(line, "Fractional number literals are not supported."@))
    } else {
        let v = sp_digits_val(src.subrange(i, e));
        if v > i64::MAX {
            Err(sp_lex_err(line, "Number literal too large."@))
        } else {
            Ok(
                (
                    Some(
                        TokenView {
                            kind: TokenEnum::Number,
                            lexeme: src.subrange(i, e),
                            literal: LiteralView::Num(v as i64),
                            line: line,
                        },
                    ),
                    e,
                    line,
                ),
            )
        }
    }
}

/// An identifier beginning at the letter or underscore at `i`: the maximal
/// alphanumeric run, looked up in the keyword table.
pub open spec fn sp_ident_step(src: Seq<char>, i: int, line: int) -> StepResult {
    let e = sp_alnum_end(src, i + 1);
    let lex = src.subrange(i, e);
    let kind = match sp_keyword(lex) {
        Some(k) => k,
        None => TokenEnum::Identifier,
    };
    Ok((Some(sp_plain_token(kind, src, i, e, line)), e, line))
}

/// One step of the scanner at position `i` (which must hold a character):
/// the complete case split over the character that begins the lexeme.
pub open spec fn sp_step(src: Seq<char>, i: int, line: int) -> StepResult {
    let c = src[i];
    if c == '(' {
        sp_single_step(TokenEnum::LeftParen, src, i, line)
    } else if c == ')' {
        sp_single_step(TokenEnum::RightParen, src, i, line)
    } else if c == '{' {
        sp_single_step(TokenEnum::LeftBrace, src, i, line)
    } else if c == '}' {
        sp_single_step(TokenEnum::RightBrace, src, i, line)
    } else if c == ',' {
        sp_single_step(TokenEnum::Comma, src, i, line)
    } else if c == '.' {
        sp_single_step(TokenEnum::Dot, src, i, line)
    } else if c == '-' {
        sp_single_step(TokenEnum::Minus, src, i, line)
    } else if c == '+' {
        sp_single_step(TokenEnum::Plus, src, i, line)
    } else if c == ';' {
        sp_single_step(TokenEnum::SemiColon, src, i, line)
    } else if c == '*' {
        sp_single_step(TokenEnum::Star, src, i, line)
    } else if c == '!' {
        sp_two_char_step(src, i, line, TokenEnum::BangEqual, TokenEnum::Bang)
    } else if c == '=' {
        sp_two_char_step(src, i, line, TokenEnum::EqualEqual, TokenEnum::Equal)
    } else if c == '<' {
        sp_two_char_step(src, i, line, TokenEnum::LessEqual, TokenEnum::Less)
    } else if c == '>' {
        sp_two_char_step(src, i, line, TokenEnum::GreaterEqual, TokenEnum::Greater)
    } else if c == '/' {
        sp_comment_step(src, i, line)
    } else if c == '\n' {
        Ok((None, i + 1, line + 1))
    } else if c == ' ' || c == '\r' || c == '\t' {
        Ok((None, i + 1, line))
    } else if c == '"' {
        sp_string_step(src, i, line)
    } else if sp_is_digit(c) {
        sp_number_step(src, i, line)
    } else if sp_is_alpha(c) {
        sp_ident_step(src, i, line)
    } else {
        Err(sp_lex_err(line, "Unexpected character."@))
    }
}

/// The whole scan from position `i` on line `line`: the token sequence it
/// produces (ending in the `EOF` token) or the first lexical error.
pub open spec fn sp_scan(src: Seq<char>, i: int, line: int) -> core::result::Result<
    Seq<TokenView>,
    ExceptionView,
>
    decreases src.len() - i,
{
    if i >= src.len() {
        Ok(seq![sp_eof_token(line)])
    } else {
        match sp_step(src, i, line) {
            Err(e) => Err(e),
            Ok((t, j, l2)) => {
                if i < j <= src.len() {
                    match sp_scan(src, j, l2) {
                        Err(e) => Err(e),
                        Ok(rest) => match t {
                            Some(tv) => Ok(seq![tv] + rest),
                            None => Ok(rest),
                        },
                    }
                } else {
                    Err(arbitrary())
                }
            },
        }
    }
}

/// Scanning never loses the terminal token: whenever a scan succeeds, its
/// token sequence is non-empty and ends with the `EOF` token.
pub proof fn lemma_scan_ends_eof(src: Seq<char>, i: int, line: int)
    ensures
        sp_scan(src, i, line) is Ok ==> sp_scan(src, i, line)->Ok_0.len() >= 1 && sp_scan(
            src,
            i,
            line,
        )->Ok_0.last().kind == TokenEnum::EOF,
    decreases src.len() - i,
{
    if i < src.len() {
        match sp_step(src, i, line) {
            Err(_) => {},
            Ok((t, j, l2)) => {
                if i < j <= src.len() {
                    lemma_scan_ends_eof(src, j, l2);
                }
            },
        }
    }
}

/// The scanner: a cursor over the source text.  `start` points at the
/// first character of the lexeme being scanned, `current` at the character
/// under consideration, and `line` counts newlines seen so far.
#[derive(Debug)]
pub struct Scanner {
    pub source: String,
    pub tokens: Vec<Token>,
    pub start: usize,
    pub current: usize,
    pub line: u32,
}

impl Scanner {
    /// The scanner's well-formedness: the cursor stays inside the text and
    /// the line counter stays bounded by the characters consumed.
    pub open spec fn inv(&self) -> bool {
        &&& self.source@.len() < u32::MAX as int
        &&& self.current <= self.source@.len()
        &&& self.start <= self.current
        &&& 1 <= self.line as int
        &&& self.line as int <= 1 + self.current as int
    }

    /// A fresh scanner over the given text, at its first character.
    ///
    /// The text must have fewer characters than the line counter can
    /// count, a machine limit.
    pub fn new(source: &str) -> (r: Self)
        requires
            source@.len() < u32::MAX as int,
        ensures
            r.inv(),
            r.source@ == source@,
            r.tokens@.len() == 0,
            r.start == 0,
            r.current == 0,
            r.line == 1,
    {
        Self {
            source: source.to_owned(),
            tokens: Vec::new(),
            start: 0,
            current: 0,
            line: 1,
        }
    }

    /// The number of characters in the source text.
    fn text_len(&self) -> (r: usize)
        ensures
            r == self.source@.len(),
    {
        self.source.as_str().unicode_len()
    }

    /// Whether the cursor has consumed all characters.
    fn is_end(&self) -> (r: bool)
        ensures
            r == (self.current >= self.source@.len()),
    {
        self.current >= self.text_len()
    }

    /// The character at `index`, if the text has one there.
    fn get_char(&self, index: usize) -> (r: Option<char>)
        ensures
            r == (if index < self.source@.len() {
                Some(self.source@[index as int])
            } else {
                None::<char>
            }),
    {
        if index < self.text_len() {
            Some(self.source.as_str().get_char(index))
        } else {
            None
        }
    }

    /// Consumes and returns the character under the cursor.
    fn advance(&mut self) -> (r: Option<char>)
        requires
            old(self).source@.len() < u32::MAX as int,
            old(self).current < old(self).source@.len(),
        ensures
            final(self).current == old(self).current + 1,
            r == Some(old(self).source@[old(self).current as int]),
            final(self).source == old(self).source,
            final(self).tokens == old(self).tokens,
            final(self).start == old(self).start,
            final(self).line == old(self).line,
    {
        self.current = self.current + 1;
        self.get_char(self.current - 1)
    }

    /// Consumes the character under the cursor when it is `expected`.
    fn match_char(&mut self, expected: char) -> (r: bool)
        requires
            old(self).source@.len() < u32::MAX as int,
            old(self).current <= old(self).source@.len(),
        ensures
            final(self).source == old(self).source,
            final(self).tokens == old(self).tokens,
            final(self).start == old(self).start,
            final(self).line == old(self).line,
            (if old(self).current < old(self).source@.len() && old(self).source@[old(
                self,
            ).current as int] == expected {
                r && final(self).current == old(self).current + 1
            } else {
                !r && final(self).current == old(self).current
            }),
    {
        if self.is_end() {
            return false;
        }
        if self.get_char(self.current).unwrap() != expected {
            return false;
        }
        self.current = self.current + 1;
        true
    }

    /// The character under the cursor, or `'\0'` past the end.
    fn peek(&self) -> (r: Option<char>)
        requires
            self.current <= self.source@.len(),
        ensures
            r == Some(
                if self.current < self.source@.len() {
                    self.source@[self.current as int]
                } else {
                    '\0'
                },
            ),
    {
        if self.is_end() {
            return Some('\0');
        }
        self.get_char(self.current)
    }

    /// The character after the cursor, or `'\0'` past the end.
    fn peek_next(&self) -> (r: Option<char>)
        requires
            self.source@.len() < u32::MAX as int,
            self.current <= self.source@.len(),
        ensures
            r == Some(
                if self.current + 1 < self.source@.len() {
                    self.source@[self.current as int + 1]
                } else {
                    '\0'
                },
            ),
    {
        if self.current + 1 >= self.text_len() {
            return Some('\0');
        }
        self.get_char(self.current + 1)
    }

    /// Emits a token for the lexeme `start .. current` with no literal.
    fn add_token(&mut self, token_type: TokenEnum)
        requires
            old(self).start <= old(self).current <= old(self).source@.len(),
        ensures
            final(self).tokens.deep_view() == old(self).tokens.deep_view().push(
                sp_plain_token(
                    token_type,
                    old(self).source@,
                    old(self).start as int,
                    old(self).current as int,
                    old(self).line as int,
                ),
            ),
            final(self).source == old(self).source,
            final(self).start == old(self).start,
            final(self).current == old(self).current,
            final(self).line == old(self).line,
    {
        self.add_token_base(token_type, Literal::Nil)
    }

    /// Emits a token for the lexeme `start .. current` carrying `literal`.
    fn add_token_base(&mut self, token_type: TokenEnum, literal: Literal)
        requires
            old(self).start <= old(self).current <= old(self).source@.len(),
        ensures
            final(self).tokens.deep_view() == old(self).tokens.deep_view().push(
                TokenView {
                    kind: token_type,
                    lexeme: old(self).source@.subrange(
                        old(self).start as int,
                        old(self).current as int,
                    ),
                    literal: literal@,
                    line: old(self).line as int,
                },
            ),
            final(self).source == old(self).source,
            final(self).start == old(self).start,
            final(self).current == old(self).current,
            final(self).line == old(self).line,
    {
        let text = self.source.as_str().substring_char(self.start, self.current);
        let tok = Token::new(token_type, text, literal, self.line);
        let ghost before = self.tokens.deep_view();
        self.tokens.push(tok);
        proof {
            assert(self.tokens.deep_view() =~= before.push(tok@));
        }
    }

    /// A decimal digit.
    fn is_digit(&self, c: char) -> (r: bool)
        ensures
            r == sp_is_digit(c),
    {
        c >= '0' && c <= '9'
    }

    /// A letter or underscore.
    fn is_alpha(&self, c: char) -> (r: bool)
        ensures
            r == sp_is_alpha(c),
    {
        (c >= 'a' && c <= 'z') || (c >= 'A' && c <= 'Z') || c == '_'
    }

    /// A letter, underscore, or digit.
    fn is_alpha_numeric(&self, c: char) -> (r: bool)
        ensures
            r == sp_is_alnum(c),
    {
        self.is_alpha(c) || self.is_digit(c)
    }

    /// A letter.
    #[allow(dead_code)]
    fn is_char(&self, c: char) -> (r: bool)
        ensures
            r == (('a' <= c && c <= 'z') || ('A' <= c && c <= 'Z')),
    {
        (c >= 'a' && c <= 'z') || (c >= 'A' && c <= 'Z')
    }

    /// One of the characters that may begin a comparison operator.
    #[allow(dead_code)]
    fn is_operator(&self, c: char) -> (r: bool)
        ensures
            r == (c == '>' || c == '<' || c == '=' || c == '!'),
    {
        c == '>' || c == '<' || c == '=' || c == '!'
    }

    /// Horizontal whitespace: space, tab, or carriage return.
    #[allow(dead_code)]
    fn is_white_space(&self, c: char) -> (r: bool)
        ensures
            r == (c == ' ' || c == '\t' || c == '\r'),
    {
        c == ' ' || c == '\t' || c == '\r'
    }

    /// The sentinel character the cursor reports past the end.
    #[allow(dead_code)]
    fn is_char_end(&self, c: char) -> (r: bool)
        ensures
            r == (c == '\0'),
    {
        c == '\0'
    }

    /// Scans the rest of a string literal; the opening quote stands at
    /// `start` and has been consumed.
    fn string(&mut self) -> (r: exception::Result<()>)
        requires
            old(self).inv(),
            old(self).current == old(self).start + 1,
            old(self).start < old(self).source@.len(),
        ensures
            final(self).inv(),
            final(self).source == old(self).source,
            final(self).start == old(self).start,
            final(self).current >= old(self).current,
            match sp_string_step(old(self).source@, old(self).start as int, old(self).line as int) {
                Ok((t, j, l2)) => {
                    &&& r is Ok
                    &&& final(self).current as int == j
                    &&& final(self).line as int == l2
                    &&& match t {
                        Some(tv) => final(self).tokens.deep_view() == old(
                            self,
                        ).tokens.deep_view().push(tv),
                        None => final(self).tokens.deep_view() == old(self).tokens.deep_view(),
                    }
                },
                Err(e) => r is Err && r->Err_0@ == e,
            },
    {
        let ghost src = self.source@;
        let ghost a = self.current as int;
        let ghost line0 = self.line as int;
        while self.peek().unwrap() != '"' && !self.is_end()
            invariant
                self.inv(),
                src == self.source@,
                self.source == old(self).source,
                self.start == old(self).start,
                self.tokens == old(self).tokens,
                a <= self.current as int,
                sp_find_char(src, self.current as int, '"') == sp_find_char(src, a, '"'),
                self.line as int == line0 + sp_count_nl(src, a, self.current as int),
            decreases src.len() - self.current,
        {
            let ghost cur = self.current as int;
            if self.peek().unwrap() == '\n' {
                proof {
                    lemma_count_nl_nonneg(src, a, cur);
                }
                self.line = self.line + 1;
            }
            self.advance();
            proof {
                assert(src[cur] != '"');
                assert(sp_find_char(src, cur, '"') == sp_find_char(src, cur + 1, '"'));
                lemma_count_nl_split(src, a, cur, cur + 1);
                assert(sp_count_nl(src, cur + 1, cur + 1) == 0);
                assert(sp_count_nl(src, cur, cur + 1) == (if src[cur] == '\n' {
                    1int
                } else {
                    0int
                }));
            }
        }
        if self.is_end() {
            return Exception::error(self.line, "", "Unterminated string.");
        }
        self.advance();
        let value = self.source.as_str().substring_char(self.start + 1, self.current - 1)
            .to_owned();
        self.add_token_base(TokenEnum::String, Literal::String(value));
        proof {
            let k = sp_find_char(src, a, '"');
            let tv = TokenView {
                kind: TokenEnum::String,
                lexeme: src.subrange(old(self).start as int, k + 1),
                literal: LiteralView::Str(src.subrange(old(self).start as int + 1, k)),
                line: self.line as int,
            };
            assert(self.tokens.deep_view() =~= old(self).tokens.deep_view().push(tv));
        }
        Ok(())
    }

    /// Scans the rest of a numeric literal; its first digit stands at
    /// `start` and has been consumed.
    fn number(&mut self) -> (r: exception::Result<()>)
        requires
            old(self).inv(),
            old(self).current == old(self).start + 1,
            old(self).start < old(self).source@.len(),
            sp_is_digit(old(self).source@[old(self).start as int]),
        ensures
            final(self).inv(),
            final(self).source == old(self).source,
            final(self).start == old(self).start,
            final(self).current >= old(self).current,
            final(self).line == old(self).line,
            match sp_number_step(old(self).source@, old(self).start as int, old(self).line as int) {
                Ok((t, j, l2)) => {
                    &&& r is Ok
                    &&& final(self).current as int == j
                    &&& match t {
                        Some(tv) => final(self).tokens.deep_view() == old(
                            self,
                        ).tokens.deep_view().push(tv),
                        None => final(self).tokens.deep_view() == old(self).tokens.deep_view(),
                    }
                },
                Err(e) => r is Err && r->Err_0@ == e,
            },
    {
        let ghost src = self.source@;
        let ghost s0 = self.start as int;
        let ghost a = self.current as int;
        while self.is_digit(self.peek().unwrap())
            invariant
                self.inv(),
                src == self.source@,
                self.source == old(self).source,
                self.start == old(self).start,
                self.tokens == old(self).tokens,
                self.line == old(self).line,
                a <= self.current as int,
                sp_digit_end(src, self.current as int) == sp_digit_end(src, a),
                forall|m: int| a <= m < self.current as int ==> sp_is_digit(#[trigger] src[m]),
            decreases src.len() - self.current,
        {
            let ghost cur = self.current as int;
            self.advance();
            proof {
                assert(sp_is_digit(src[cur]));
                assert(sp_digit_end(src, cur) == sp_digit_end(src, cur + 1));
            }
        }
        let ghost e = self.current as int;
        proof {
            assert(e == sp_digit_end(src, a));
        }
        if self.peek().unwrap() == '.' && self.is_digit(self.peek_next().unwrap()) {
            return Exception::error(self.line, "", "Fractional number literals are not supported.");
        }
        let mut val: i64 = 0;
        let mut overflow = false;
        let mut k: usize = self.start;
        proof {
            assert(src.subrange(s0, s0) =~= Seq::<char>::empty());
        }
        while k < self.current
            invariant
                self.start <= k <= self.current,
                self.inv(),
                src == self.source@,
                self.source == old(self).source,
                self.start as int == s0,
                self.current as int == e,
                forall|m: int| s0 <= m < e ==> sp_is_digit(#[trigger] src[m]),
                !overflow ==> val as int == sp_digits_val(src.subrange(s0, k as int)) && val >= 0,
                overflow ==> sp_digits_val(src.subrange(s0, k as int)) > i64::MAX,
            decreases self.current - k,
        {
            let c = self.get_char(k).unwrap();
            let d = (c as u32) - ('0' as u32);
            proof {
                assert(src.subrange(s0, k as int + 1).drop_last() =~= src.subrange(s0, k as int));
                assert(src.subrange(s0, k as int + 1).last() == src[k as int]);
                assert(sp_digits_val(src.subrange(s0, k as int + 1)) == sp_digits_val(
                    src.subrange(s0, k as int),
                ) * 10 + sp_digit_val(src[k as int]));
                assert(d as int == sp_digit_val(src[k as int]));
            }
            if !overflow {
                match val.checked_mul(10) {
                    None => {
                        overflow = true;
                    },
                    Some(v10) => {
                        match v10.checked_add(d as i64) {
                            None => {
                                overflow = true;
                            },
                            Some(v2) => {
                                val = v2;
                            },
                        }
                    },
                }
            } else {
                proof {
                    let prev = sp_digits_val(src.subrange(s0, k as int));
                    assert(prev * 10 >= prev);
                }
            }
            k = k + 1;
        }
        if overflow {
            return Exception::error(self.line, "", "Number literal too large.");
        }
        self.add_token_base(TokenEnum::Number, Literal::Number(val));
        proof {
            let tv = TokenView {
                kind: TokenEnum::Number,
                lexeme: src.subrange(s0, e),
                literal: LiteralView::Num(val),
                line: self.line as int,
            };
            assert(self.tokens.deep_view() =~= old(self).tokens.deep_view().push(tv));
        }
        Ok(())
    }

    /// Scans the rest of an identifier; its first character stands at
    /// `start` and has been consumed.  The lexeme is looked up in the
    /// keyword table.
    fn identifier(&mut self)
        requires
            old(self).inv(),
            old(self).current == old(self).start + 1,
            old(self).start < old(self).source@.len(),
        ensures
            final(self).inv(),
            final(self).source == old(self).source,
            final(self).start == old(self).start,
            final(self).current >= old(self).current,
            final(self).line == old(self).line,
            match sp_ident_step(old(self).source@, old(self).start as int, old(self).line as int) {
                Ok((t, j, l2)) => {
                    &&& final(self).current as int == j
                    &&& match t {
                        Some(tv) => final(self).tokens.deep_view() == old(
                            self,
                        ).tokens.deep_view().push(tv),
                        None => final(self).tokens.deep_view() == old(self).tokens.deep_view(),
                    }
                },
                Err(_) => false,
            },
    {
        let ghost src = self.source@;
        let ghost a = self.current as int;
        while self.is_alpha_numeric(self.peek().unwrap())
            invariant
                self.inv(),
                src == self.source@,
                self.source == old(self).source,
                self.start == old(self).start,
                self.tokens == old(self).tokens,
                self.line == old(self).line,
                a <= self.current as int,
                sp_alnum_end(src, self.current as int) == sp_alnum_end(src, a),
            decreases src.len() - self.current,
        {
            let ghost cur = self.current as int;
            self.advance();
            proof {
                assert(sp_is_alnum(src[cur]));
                assert(sp_alnum_end(src, cur) == sp_alnum_end(src, cur + 1));
            }
        }
        let token_type = {
            let text = self.source.as_str().substring_char(self.start, self.current);
            match TokenEnum::from_str(text) {
                Ok(token_type) => token_type,
                Err(()) => TokenEnum::Identifier,
            }
        };
        self.add_token(token_type);
        proof {
            let e = sp_alnum_end(src, a);
            assert(self.tokens.deep_view() =~= old(self).tokens.deep_view().push(
                sp_plain_token(token_type, src, old(self).start as int, e, self.line as int),
            ));
        }
    }

    /// Scans the single lexeme that begins at the cursor, as [`sp_step`]
    /// describes: it emits at most one token, advances the cursor past the
    /// lexeme, and counts the newlines it consumed.
    fn scan_token(&mut self) -> (r: exception::Result<()>)
        requires
            old(self).inv(),
            old(self).current < old(self).source@.len(),
            old(self).start == old(self).current,
        ensures
            final(self).inv(),
            final(self).source == old(self).source,
            final(self).start == old(self).start,
            r is Ok ==> final(self).current > old(self).current,
            match sp_step(old(self).source@, old(self).current as int, old(self).line as int) {
                Ok((t, j, l2)) => {
                    &&& r is Ok
                    &&& final(self).current as int == j
                    &&& final(self).line as int == l2
                    &&& match t {
                        Some(tv) => final(self).tokens.deep_view() == old(
                            self,
                        ).tokens.deep_view().push(tv),
                        None => final(self).tokens.deep_view() == old(self).tokens.deep_view(),
                    }
                },
                Err(e) => r is Err && r->Err_0@ == e,
            },
    {
        let c = self.advance().unwrap();
        match c {
            '(' => {
                self.add_token(TokenEnum::LeftParen);
                Ok(())
            },
            ')' => {
                self.add_token(TokenEnum::RightParen);
                Ok(())
            },
            '{' => {
                self.add_token(TokenEnum::LeftBrace);
                Ok(())
            },
            '}' => {
                self.add_token(TokenEnum::RightBrace);
                Ok(())
            },
            ',' => {
                self.add_token(TokenEnum::Comma);
                Ok(())
            },
            '.' => {
                self.add_token(TokenEnum::Dot);
                Ok(())
            },
            '-' => {
                self.add_token(TokenEnum::Minus);
                Ok(())
            },
            '+' => {
                self.add_token(TokenEnum::Plus);
                Ok(())
            },
            ';' => {
                self.add_token(TokenEnum::SemiColon);
                Ok(())
            },
            '*' => {
                self.add_token(TokenEnum::Star);
                Ok(())
            },
            '!' => {
                let token_type = if self.match_char('=') {
                    TokenEnum::BangEqual
                } else {
                    TokenEnum::Bang
                };
                self.add_token(token_type);
                Ok(())
            },
            '=' => {
                let token_type = if self.match_char('=') {
                    TokenEnum::EqualEqual
                } else {
                    TokenEnum::Equal
                };
                self.add_token(token_type);
                Ok(())
            },
            '<' => {
                let token_type = if self.match_char('=') {
                    TokenEnum::LessEqual
                } else {
                    TokenEnum::Less
                };
                self.add_token(token_type);
                Ok(())
            },
            '>' => {
                let token_type = if self.match_char('=') {
                    TokenEnum::GreaterEqual
                } else {
                    TokenEnum::Greater
                };
                self.add_token(token_type);
                Ok(())
            },
            '/' => {
                self.comments();
                Ok(())
            },
            '\n' => {
                self.line = self.line + 1;
                Ok(())
            },
            ' ' | '\r' | '\t' => Ok(()),
            '"' => self.string(),
            _ => {
                if self.is_digit(c) {
                    self.number()
                } else if self.is_alpha(c) {
                    self.identifier();
                    Ok(())
                } else {
                    Exception::error(self.line, "", "Unexpected character.")
                }
            },
        }
    }

    /// Scans the whole remaining text, appending the terminal `EOF` token.
    /// The scan is all-or-nothing: the first lexical error aborts it.  On
    /// success the returned sequence is non-empty and its last token has
    /// kind `EOF`.
    pub fn scan_tokens(&mut self) -> (r: exception::Result<Vec<Token>>)
        requires
            old(self).inv(),
        ensures
            match sp_scan(old(self).source@, old(self).current as int, old(self).line as int) {
                Ok(toks) => r is Ok && r->Ok_0.deep_view() == old(self).tokens.deep_view() + toks,
                Err(e) => r is Err && r->Err_0@ == e,
            },
            r is Ok ==> r->Ok_0@.len() >= 1 && r->Ok_0@[r->Ok_0@.len() - 1].token_type
                == TokenEnum::EOF,
    {
        let ghost src = self.source@;
        let ghost i0 = self.current as int;
        let ghost l0 = self.line as int;
        let ghost t0 = self.tokens.deep_view();
        while !self.is_end()
            invariant
                self.inv(),
                src == self.source@,
                src == old(self).source@,
                i0 == old(self).current as int,
                l0 == old(self).line as int,
                t0 == old(self).tokens.deep_view(),
                sp_combine(
                    self.tokens.deep_view(),
                    sp_scan(src, self.current as int, self.line as int),
                ) == sp_combine(t0, sp_scan(src, i0, l0)),
            decreases src.len() - self.current,
        {
            self.start = self.current;
            let ghost mid = *self;
            let stepped = self.scan_token();
            match stepped {
                Ok(()) => {
                    proof {
                        let i = mid.current as int;
                        let l = mid.line as int;
                        match sp_step(src, i, l) {
                            Ok((t, j, l2)) => {
                                assert(i < j <= src.len());
                                match sp_scan(src, j, l2) {
                                    Ok(rest) => {
                                        match t {
                                            Some(tv) => {
                                                assert(mid.tokens.deep_view().push(tv) + rest
                                                    =~= mid.tokens.deep_view() + (seq![tv]
                                                    + rest));
                                            },
                                            None => {},
                                        }
                                    },
                                    Err(_) => {},
                                }
                            },
                            Err(_) => {},
                        }
                    }
                },
                Err(e) => {
                    proof {
                        let i = mid.current as int;
                        let l = mid.line as int;
                        match sp_step(src, i, l) {
                            Err(x) => {
                                assert(sp_scan(src, i, l) == Err::<Seq<TokenView>, ExceptionView>(
                                    x,
                                ));
                            },
                            Ok(_) => {},
                        }
                    }
                    return Err(e);
                },
            }
        }
        proof {
            assert(sp_scan(src, self.current as int, self.line as int) == Ok::<
                Seq<TokenView>,
                ExceptionView,
            >(seq![sp_eof_token(self.line as int)]));
        }
        let ghost before_eof = self.tokens.deep_view();
        let eof_tok = Token::new(TokenEnum::EOF, "", Literal::default(), self.line);
        self.tokens.push(eof_tok);
        proof {
            reveal_strlit("");
            assert(""@ =~= Seq::<char>::empty());
            assert(self.tokens.deep_view() =~= before_eof.push(
                sp_eof_token(self.line as int),
            ));
        }
        let out = self.tokens.clone();
        proof {
            assert forall|ix: int| 0 <= ix < self.tokens@.len() implies out@[ix]
                == self.tokens@[ix] by {
                assert(cloned::<Token>(self.tokens[ix], out[ix]));
            }
            assert(out@ =~= self.tokens@);
            assert(out.deep_view() =~= self.tokens.deep_view());
            assert(before_eof.push(sp_eof_token(self.line as int)) =~= before_eof + seq![
                sp_eof_token(self.line as int),
            ]);
        }
        Ok(out)
    }

    /// Handles a `/` lexeme: a line comment runs to the end of the line, a
    /// block comment to its closing sequence (or to the end of the input),
    /// and otherwise a `Slash` token is emitted.
    fn comments(&mut self)
        requires
            old(self).inv(),
            old(self).current == old(self).start + 1,
            old(self).start < old(self).source@.len(),
        ensures
            final(self).inv(),
            final(self).source == old(self).source,
            final(self).start == old(self).start,
            final(self).current >= old(self).current,
            match sp_comment_step(old(self).source@, old(self).start as int, old(self).line as int) {
                Ok((t, j, l2)) => {
                    &&& final(self).current as int == j
                    &&& final(self).line as int == l2
                    &&& match t {
                        Some(tv) => final(self).tokens.deep_view() == old(
                            self,
                        ).tokens.deep_view().push(tv),
                        None => final(self).tokens.deep_view() == old(self).tokens.deep_view(),
                    }
                },
                Err(_) => false,
            },
    {
        let ghost src = self.source@;
        let ghost line0 = self.line as int;
        if self.match_char('/') {
            let ghost a = self.current as int;
            while self.peek().unwrap() != '\n' && !self.is_end()
                invariant
                    self.inv(),
                    src == self.source@,
                    self.source == old(self).source,
                    self.start == old(self).start,
                    self.tokens == old(self).tokens,
                    self.line == old(self).line,
                    a <= self.current as int,
                    sp_find_char(src, self.current as int, '\n') == sp_find_char(src, a, '\n'),
                decreases src.len() - self.current,
            {
                let ghost cur = self.current as int;
                self.advance();
                proof {
                    assert(src[cur] != '\n');
                    assert(sp_find_char(src, cur, '\n') == sp_find_char(src, cur + 1, '\n'));
                }
            }
        } else if self.match_char('*') {
            let ghost a = self.current as int;
            while !self.is_end() && !(self.peek().unwrap() == '*' && self.peek_next().unwrap()
                == '/')
                invariant
                    self.inv(),
                    src == self.source@,
                    self.source == old(self).source,
                    self.start == old(self).start,
                    self.tokens == old(self).tokens,
                    a <= self.current as int,
                    sp_find_close(src, self.current as int) == sp_find_close(src, a),
                    self.line as int == line0 + sp_count_nl(src, a, self.current as int),
                decreases src.len() - self.current,
            {
                let ghost cur = self.current as int;
                if self.peek().unwrap() == '\n' {
                    proof {
                        lemma_count_nl_nonneg(src, a, cur);
                    }
                    self.line = self.line + 1;
                }
                self.advance();
                proof {
                    assert(!(src[cur] == '*' && cur + 1 < src.len() && src[cur + 1] == '/'));
                    assert(sp_find_close(src, cur) == sp_find_close(src, cur + 1));
                    lemma_count_nl_split(src, a, cur, cur + 1);
                    assert(sp_count_nl(src, cur + 1, cur + 1) == 0);
                    assert(sp_count_nl(src, cur, cur + 1) == (if src[cur] == '\n' {
                        1int
                    } else {
                        0int
                    }));
                }
            }
            if !self.is_end() {
                self.advance();
                self.advance();
            }
        } else {
            self.add_token(TokenEnum::Slash);
        }
    }
}

} // verus!
