//! The value types shared by every stage: token kinds, literal values,
//! and tokens.

use vstd::prelude::*;
use vstd::string::StringExecFns;
use crate::numerals::{sp_i64_text, i64_text};

verus! {

/// The kind of a token: single-character punctuation, one- or two-character
/// operators, literal kinds, keywords, and the terminal `EOF` sentinel.
#[derive(Debug, PartialEq, Eq, Structural, Clone, Copy)]
pub enum TokenEnum {
    // Single-character tokens.
    LeftParen,
    RightParen,
    LeftBrace,
    RightBrace,
    Comma,
    Dot,
    Minus,
    Plus,
    SemiColon,
    Slash,
    Star,
    // One or two character tokens.
    Bang,
    BangEqual,
    Equal,
    EqualEqual,
    Greater,
    GreaterEqual,
    Less,
    LessEqual,
    // Literal kinds.
    String,
    Number,
    Identifier,
    // Keywords.
    And,
    Class,
    Else,
    False,
    Fun,
    For,
    If,
    Null,
    Or,
    Print,
    Return,
    Super,
    This,
    True,
    Var,
    While,
    EOF,
}

/// The mathematical value of a [`Literal`].
pub enum LiteralView {
    Str(Seq<char>),
    Num(i64),
    Bool(bool),
    Nil,
}

/// A runtime literal value: text, a 64-bit signed integer, a boolean, or
/// the absence of a value (`Nil`), which is distinct from zero and from
/// empty text.
#[derive(Debug)]
pub enum Literal {
    String(String),
    Number(i64),
    Bool(bool),
    Nil,
}

impl View for Literal {
    type V = LiteralView;

    open spec fn view(&self) -> LiteralView {
        match self {
            Literal::String(s) => LiteralView::Str(s@),
            Literal::Number(n) => LiteralView::Num(*n),
            Literal::Bool(b) => LiteralView::Bool(*b),
            Literal::Nil => LiteralView::Nil,
        }
    }
}

impl DeepView for Literal {
    type V = LiteralView;

    open spec fn deep_view(&self) -> LiteralView {
        self.view()
    }
}

impl Clone for Literal {
    fn clone(&self) -> (r: Self)
        ensures
            r == *self,
    {
        match self {
            Literal::String(s) => Literal::String(s.clone()),
            Literal::Number(n) => Literal::Number(*n),
            Literal::Bool(b) => Literal::Bool(*b),
            Literal::Nil => Literal::Nil,
        }
    }
}

impl PartialEq for Literal {
    /// Structural equality: equal only when the variants match and the
    /// payloads are equal; no coercion between variants.
    fn eq(&self, other: &Self) -> (r: bool) {
        match (self, other) {
            (Literal::String(a), Literal::String(b)) => *a == *b,
            (Literal::Number(a), Literal::Number(b)) => *a == *b,
            (Literal::Bool(a), Literal::Bool(b)) => *a == *b,
            (Literal::Nil, Literal::Nil) => true,
            _ => false,
        }
    }
}

impl vstd::std_specs::cmp::PartialEqSpecImpl for Literal {
    open spec fn obeys_eq_spec() -> bool {
        true
    }

    open spec fn eq_spec(&self, other: &Self) -> bool {
        self@ == other@
    }
}

impl Default for Literal {
    /// The default literal is the absence of a value.
    fn default() -> (r: Self)
        ensures
            r@ == LiteralView::Nil,
    {
        Literal::Nil
    }
}

/// The text form of a literal: absence renders as empty text, booleans and
/// numbers as their natural text form, text verbatim.
pub open spec fn sp_lit_text(v: LiteralView) -> Seq<char> {
    match v {
        LiteralView::Nil => Seq::<char>::empty(),
        LiteralView::Bool(b) => if b {
            "true"@
        } else {
            "false"@
        },
        LiteralView::Num(n) => sp_i64_text(n),
        LiteralView::Str(s) => s,
    }
}

impl Literal {
    /// The text form of this literal.
    pub fn to_string(&self) -> (r: String)
        ensures
            r@ == sp_lit_text(self@),
    {
        match self {
            Literal::Nil => String::new(),
            Literal::Bool(b) => {
                proof {
                    reveal_strlit("true");
                    reveal_strlit("false");
                }
                if *b {
                    String::from_str("true")
                } else {
                    String::from_str("false")
                }
            },
            Literal::Number(n) => i64_text(*n),
            Literal::String(s) => s.clone(),
        }
    }
}

/// The mathematical value of a [`Token`].
pub struct TokenView {
    pub kind: TokenEnum,
    pub lexeme: Seq<char>,
    pub literal: LiteralView,
    pub line: int,
}

/// One scanned token: its kind, the exact source text it was scanned
/// from, the literal value it carries (if any), and the source line it
/// was recorded on (for a multi-line string literal, the line of its
/// closing quote).
#[derive(Debug)]
pub struct Token {
    pub token_type: TokenEnum,
    pub lexeme: String,
    pub literal: Literal,
    pub line: u32,
}

impl View for Token {
    type V = TokenView;

    open spec fn view(&self) -> TokenView {
        TokenView {
            kind: self.token_type,
            lexeme: self.lexeme@,
            literal: self.literal@,
            line: self.line as int,
        }
    }
}

impl DeepView for Token {
    type V = TokenView;

    open spec fn deep_view(&self) -> TokenView {
        self.view()
    }
}

impl Clone for Token {
    fn clone(&self) -> (r: Self)
        ensures
            r == *self,
    {
        Token {
            token_type: self.token_type,
            lexeme: self.lexeme.clone(),
            literal: self.literal.clone(),
            line: self.line,
        }
    }
}

/// The token kind for a keyword lexeme, if the lexeme is a keyword.
pub open spec fn sp_keyword(s: Seq<char>) -> Option<TokenEnum> {
    if s == "and"@ {
        Some(TokenEnum::And)
    } else if s == "class"@ {
        Some(TokenEnum::Class)
    } else if s == "else"@ {
        Some(TokenEnum::Else)
    } else if s == "false"@ {
        Some(TokenEnum::False)
    } else if s == "fun"@ {
        Some(TokenEnum::Fun)
    } else if s == "for"@ {
        Some(TokenEnum::For)
    } else if s == "if"@ {
        Some(TokenEnum::If)
    } else if s == "null"@ {
        Some(TokenEnum::Null)
    } else if s == "or"@ {
        Some(TokenEnum::Or)
    } else if s == "print"@ {
        Some(TokenEnum::Print)
    } else if s == "return"@ {
        Some(TokenEnum::Return)
    } else if s == "super"@ {
        Some(TokenEnum::Super)
    } else if s == "this"@ {
        Some(TokenEnum::This)
    } else if s == "true"@ {
        Some(TokenEnum::True)
    } else if s == "var"@ {
        Some(TokenEnum::Var)
    } else if s == "while"@ {
        Some(TokenEnum::While)
    } else {
        None
    }
}

impl TokenEnum {
    /// Looks a lexeme up, case-sensitively, in the keyword table.
    pub fn from_str(s: &str) -> (r: core::result::Result<TokenEnum, ()>)
        ensures
            match sp_keyword(s@) {
                Some(k) => r == Ok::<TokenEnum, ()>(k),
                None => r is Err,
            },
    {
        let t = String::from_str(s);
        if t == String::from_str("and") {
            Ok(TokenEnum::And)
        } else if t == String::from_str("class") {
            Ok(TokenEnum::Class)
        } else if t == String::from_str("else") {
            Ok(TokenEnum::Else)
        } else if t == String::from_str("false") {
            Ok(TokenEnum::False)
        } else if t == String::from_str("fun") {
            Ok(TokenEnum::Fun)
        } else if t == String::from_str("for") {
            Ok(TokenEnum::For)
        } else if t == String::from_str("if") {
            Ok(TokenEnum::If)
        } else if t == String::from_str("null") {
            Ok(TokenEnum::Null)
        } else if t == String::from_str("or") {
            Ok(TokenEnum::Or)
        } else if t == String::from_str("print") {
            Ok(TokenEnum::Print)
        } else if t == String::from_str("return") {
            Ok(TokenEnum::Return)
        } else if t == String::from_str("super") {
            Ok(TokenEnum::Super)
        } else if t == String::from_str("this") {
            Ok(TokenEnum::This)
        } else if t == String::from_str("true") {
            Ok(TokenEnum::True)
        } else if t == String::from_str("var") {
            Ok(TokenEnum::Var)
        } else if t == String::from_str("while") {
            Ok(TokenEnum::While)
        } else {
            Err(())
        }
    }
}

/// The name of a token kind, as it reads in the source of this library.
pub open spec fn sp_kind_text(k: TokenEnum) -> Seq<char> {
    match k {
        TokenEnum::LeftParen => "LeftParen"@,
        TokenEnum::RightParen => "RightParen"@,
        TokenEnum::LeftBrace => "LeftBrace"@,
        TokenEnum::RightBrace => "RightBrace"@,
        TokenEnum::Comma => "Comma"@,
        TokenEnum::Dot => "Dot"@,
        TokenEnum::Minus => "Minus"@,
        TokenEnum::Plus => "Plus"@,
        TokenEnum::SemiColon => "SemiColon"@,
        TokenEnum::Slash => "Slash"@,
        TokenEnum::Star => "Star"@,
        TokenEnum::Bang => "Bang"@,
        TokenEnum::BangEqual => "BangEqual"@,
        TokenEnum::Equal => "Equal"@,
        TokenEnum::EqualEqual => "EqualEqual"@,
        TokenEnum::Greater => "Greater"@,
        TokenEnum::GreaterEqual => "GreaterEqual"@,
        TokenEnum::Less => "Less"@,
        TokenEnum::LessEqual => "LessEqual"@,
        TokenEnum::String => "String"@,
        TokenEnum::Number => "Number"@,
        TokenEnum::Identifier => "Identifier"@,
        TokenEnum::And => "And"@,
        TokenEnum::Class => "Class"@,
        TokenEnum::Else => "Else"@,
        TokenEnum::False => "False"@,
        TokenEnum::Fun => "Fun"@,
        TokenEnum::For => "For"@,
        TokenEnum::If => "If"@,
        TokenEnum::Null => "Null"@,
        TokenEnum::Or => "Or"@,
        TokenEnum::Print => "Print"@,
        TokenEnum::Return => "Return"@,
        TokenEnum::Super => "Super"@,
        TokenEnum::This => "This"@,
        TokenEnum::True => "True"@,
        TokenEnum::Var => "Var"@,
        TokenEnum::While => "While"@,
        TokenEnum::EOF => "EOF"@,
    }
}

impl TokenEnum {
    /// The name of this token kind.
    pub fn kind_text(&self) -> (r: &'static str)
        ensures
            r@ == sp_kind_text(*self),
    {
        match self {
            TokenEnum::LeftParen => "LeftParen",
            TokenEnum::RightParen => "RightParen",
            TokenEnum::LeftBrace => "LeftBrace",
            TokenEnum::RightBrace => "RightBrace",
            TokenEnum::Comma => "Comma",
            TokenEnum::Dot => "Dot",
            TokenEnum::Minus => "Minus",
            TokenEnum::Plus => "Plus",
            TokenEnum::SemiColon => "SemiColon",
            TokenEnum::Slash => "Slash",
            TokenEnum::Star => "Star",
            TokenEnum::Bang => "Bang",
            TokenEnum::BangEqual => "BangEqual",
            TokenEnum::Equal => "Equal",
            TokenEnum::EqualEqual => "EqualEqual",
            TokenEnum::Greater => "Greater",
            TokenEnum::GreaterEqual => "GreaterEqual",
            TokenEnum::Less => "Less",
            TokenEnum::LessEqual => "LessEqual",
            TokenEnum::String => "String",
            TokenEnum::Number => "Number",
            TokenEnum::Identifier => "Identifier",
            TokenEnum::And => "And",
            TokenEnum::Class => "Class",
            TokenEnum::Else => "Else",
            TokenEnum::False => "False",
            TokenEnum::Fun => "Fun",
            TokenEnum::For => "For",
            TokenEnum::If => "If",
            TokenEnum::Null => "Null",
            TokenEnum::Or => "Or",
            TokenEnum::Print => "Print",
            TokenEnum::Return => "Return",
            TokenEnum::Super => "Super",
            TokenEnum::This => "This",
            TokenEnum::True => "True",
            TokenEnum::Var => "Var",
            TokenEnum::While => "While",
            TokenEnum::EOF => "EOF",
        }
    }
}

/// The bracketed diagnostic form of a literal: the variant name with its
/// payload, absence as `None`, text quoted.  The text payload appears
/// verbatim between the quotes: this language processes no escape
/// sequences, and a scanned payload can never contain a quote.
pub open spec fn sp_lit_debug_text(v: LiteralView) -> Seq<char> {
    match v {
        LiteralView::Nil => "None"@,
        LiteralView::Bool(b) => if b {
            "Bool(true)"@
        } else {
            "Bool(false)"@
        },
        LiteralView::Num(n) => "Number("@ + sp_i64_text(n) + ")"@,
        LiteralView::Str(s) => "String(\""@ + s + "\")"@,
    }
}

impl Literal {
    /// The bracketed diagnostic form of this literal.
    fn debug_text(&self) -> (r: String)
        ensures
            r@ == sp_lit_debug_text(self@),
    {
        match self {
            Literal::Nil => String::from_str("None"),
            Literal::Bool(b) => {
                if *b {
                    String::from_str("Bool(true)")
                } else {
                    String::from_str("Bool(false)")
                }
            },
            Literal::Number(n) => {
                let mut r = String::from_str("Number(");
                let digits = i64_text(*n);
                r.append(digits.as_str());
                r.append(")");
                proof {
                    assert(r@ =~= sp_lit_debug_text(self@));
                }
                r
            },
            Literal::String(s) => {
                let mut r = String::from_str("String(\"");
                r.append(s.as_str());
                r.append("\")");
                proof {
                    assert(r@ =~= sp_lit_debug_text(self@));
                }
                r
            },
        }
    }
}

/// The diagnostic text form of a token: its kind, its lexeme, and the
/// bracketed form of its literal, separated by dashes.
pub open spec fn sp_token_text(t: TokenView) -> Seq<char> {
    sp_kind_text(t.kind) + " - "@ + t.lexeme + " - "@ + sp_lit_debug_text(t.literal)
}

impl Token {
    /// The diagnostic text form of this token.
    pub fn to_string(&self) -> (r: String)
        ensures
            r@ == sp_token_text(self@),
    {
        let mut r = String::from_str(self.token_type.kind_text());
        r.append(" - ");
        r.append(self.lexeme.as_str());
        r.append(" - ");
        let lit = self.literal.debug_text();
        r.append(lit.as_str());
        proof {
            assert(r@ =~= sp_token_text(self@));
        }
        r
    }
}

impl Token {
    pub fn new(token_type: TokenEnum, lexeme: &str, literal: Literal, line: u32) -> (r: Self)
        ensures
            r@ == (TokenView {
                kind: token_type,
                lexeme: lexeme@,
                literal: literal@,
                line: line as int,
            }),
    {
        Self { token_type: token_type, lexeme: lexeme.to_owned(), literal: literal, line: line }
    }
}

} // verus!
