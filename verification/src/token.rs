//! Tokens and token kinds produced by the lexer.

use vstd::prelude::*;
use vstd::string::*;

use crate::diagnostic::Position;
use crate::text::str_eq;

verus! {

/// The kind of a token: operators, delimiters, literals, identifiers,
/// keywords, and the whitespace / invalid / end-of-input markers.
#[derive(Debug, Clone, Copy, PartialEq, Eq, Structural)]
pub enum TokenKind {
    Plus,
    Minus,
    Star,
    Slash,
    Greater,
    GreaterEqual,
    Lesser,
    LesserEqual,
    Bang,
    BangEqual,
    Equal,
    EqualEqual,
    Ampersand,
    AmpersandAmpersand,
    Pipe,
    PipePipe,
    OpenParen,
    CloseParen,
    OpenBrace,
    CloseBrace,
    Comma,
    Number,
    String,
    True,
    False,
    Identifier,
    Print,
    Var,
    If,
    Else,
    While,
    For,
    Whitespace,
    Invalid,
    Eof,
}

/// The text a token kind is shown as inside diagnostics.
pub open spec fn kind_text(kind: TokenKind) -> Seq<char> {
    match kind {
        TokenKind::Plus => "+"@,
        TokenKind::Minus => "-"@,
        TokenKind::Star => "*"@,
        TokenKind::Slash => "/"@,
        TokenKind::Greater => ">"@,
        TokenKind::GreaterEqual => ">="@,
        TokenKind::Lesser => "<"@,
        TokenKind::LesserEqual => "<="@,
        TokenKind::Bang => "!"@,
        TokenKind::BangEqual => "!="@,
        TokenKind::Equal => "="@,
        TokenKind::EqualEqual => "=="@,
        TokenKind::Ampersand => "&"@,
        TokenKind::AmpersandAmpersand => "&&"@,
        TokenKind::Pipe => "|"@,
        TokenKind::PipePipe => "||"@,
        TokenKind::OpenParen => "("@,
        TokenKind::CloseParen => ")"@,
        TokenKind::OpenBrace => "{"@,
        TokenKind::CloseBrace => "}"@,
        TokenKind::Comma => ","@,
        TokenKind::Number => "NUMBER"@,
        TokenKind::String => "STRING"@,
        TokenKind::True => "true"@,
        TokenKind::False => "false"@,
        TokenKind::Identifier => "IDENTIFIER"@,
        TokenKind::Print => "print"@,
        TokenKind::Var => "var"@,
        TokenKind::If => "if"@,
        TokenKind::Else => "else"@,
        TokenKind::While => "while"@,
        TokenKind::For => "for"@,
        TokenKind::Whitespace => "WHITESPACE"@,
        TokenKind::Invalid => "INVALID"@,
        TokenKind::Eof => "EOF"@,
    }
}

/// The keyword kind an identifier lexeme re-classifies to, or `Identifier` if
/// it matches no reserved word.
pub open spec fn spec_lexeme_kind(lexeme: Seq<char>) -> TokenKind {
    if lexeme == "true"@ {
        TokenKind::True
    } else if lexeme == "false"@ {
        TokenKind::False
    } else if lexeme == "print"@ {
        TokenKind::Print
    } else if lexeme == "var"@ {
        TokenKind::Var
    } else if lexeme == "if"@ {
        TokenKind::If
    } else if lexeme == "else"@ {
        TokenKind::Else
    } else if lexeme == "while"@ {
        TokenKind::While
    } else if lexeme == "for"@ {
        TokenKind::For
    } else {
        TokenKind::Identifier
    }
}

impl TokenKind {
    /// The text this kind is shown as inside diagnostics.
    pub fn text(&self) -> (r: &'static str)
        ensures
            r@ == kind_text(*self),
    {
        match self {
            TokenKind::Plus => "+",
            TokenKind::Minus => "-",
            TokenKind::Star => "*",
            TokenKind::Slash => "/",
            TokenKind::Greater => ">",
            TokenKind::GreaterEqual => ">=",
            TokenKind::Lesser => "<",
            TokenKind::LesserEqual => "<=",
            TokenKind::Bang => "!",
            TokenKind::BangEqual => "!=",
            TokenKind::Equal => "=",
            TokenKind::EqualEqual => "==",
            TokenKind::Ampersand => "&",
            TokenKind::AmpersandAmpersand => "&&",
            TokenKind::Pipe => "|",
            TokenKind::PipePipe => "||",
            TokenKind::OpenParen => "(",
            TokenKind::CloseParen => ")",
            TokenKind::OpenBrace => "{",
            TokenKind::CloseBrace => "}",
            TokenKind::Comma => ",",
            TokenKind::Number => "NUMBER",
            TokenKind::String => "STRING",
            TokenKind::True => "true",
            TokenKind::False => "false",
            TokenKind::Identifier => "IDENTIFIER",
            TokenKind::Print => "print",
            TokenKind::Var => "var",
            TokenKind::If => "if",
            TokenKind::Else => "else",
            TokenKind::While => "while",
            TokenKind::For => "for",
            TokenKind::Whitespace => "WHITESPACE",
            TokenKind::Invalid => "INVALID",
            TokenKind::Eof => "EOF",
        }
    }

    /// Re-classifies an identifier lexeme as a keyword kind where it matches a
    /// reserved word.
    pub fn get_lexeme_type(lexeme: &str) -> (kind: TokenKind)
        ensures
            kind == spec_lexeme_kind(lexeme@),
    {
        if str_eq(lexeme, "true") {
            TokenKind::True
        } else if str_eq(lexeme, "false") {
            TokenKind::False
        } else if str_eq(lexeme, "print") {
            TokenKind::Print
        } else if str_eq(lexeme, "var") {
            TokenKind::Var
        } else if str_eq(lexeme, "if") {
            TokenKind::If
        } else if str_eq(lexeme, "else") {
            TokenKind::Else
        } else if str_eq(lexeme, "while") {
            TokenKind::While
        } else if str_eq(lexeme, "for") {
            TokenKind::For
        } else {
            TokenKind::Identifier
        }
    }
}

/// Model of a token: its kind, the characters of its lexeme, and where it
/// stands in the source.
pub struct TokenView {
    pub kind: TokenKind,
    pub lexeme: Seq<char>,
    pub position: Position,
}

/// One lexed token.
#[derive(Debug)]
pub struct Token {
    pub kind: TokenKind,
    pub lexeme: String,
    pub position: Position,
}

impl View for Token {
    type V = TokenView;

    open spec fn view(&self) -> TokenView {
        TokenView { kind: self.kind, lexeme: self.lexeme@, position: self.position }
    }
}

impl Token {
    pub fn new(kind: TokenKind, lexeme: String, position: Position) -> (t: Token)
        ensures
            t@ == (TokenView { kind, lexeme: lexeme@, position }),
    {
        Token { kind, lexeme, position }
    }

    /// An identical copy of this token.
    pub fn duplicate(&self) -> (t: Token)
        ensures
            t@ == self@,
    {
        Token { kind: self.kind, lexeme: self.lexeme.clone(), position: self.position }
    }
}

} // verus!
