//! The lexer: one greedy left-to-right pass over the source characters,
//! producing the token sequence the parser consumes.
//!
//! Whitespace and invalid tokens are filtered out of the returned stream, but
//! an invalid character still registers a diagnostic. The stream always ends
//! with exactly one end-of-input token.

use vstd::prelude::*;
use vstd::string::*;

use crate::diagnostic::msg_unexpected_character;
use crate::diagnostic::DiagnosticBag;
use crate::diagnostic::DiagnosticView;
use crate::diagnostic::Position;
use crate::text::chars_to_string;
use crate::token::spec_lexeme_kind;
use crate::token::Token;
use crate::token::TokenKind;
use crate::token::TokenView;

verus! {

/// An ASCII decimal digit.
pub open spec fn is_digit_char(c: char) -> bool {
    48 <= c as u32 <= 57
}

/// An ASCII letter.
pub open spec fn is_alpha_char(c: char) -> bool {
    (65 <= c as u32 <= 90) || (97 <= c as u32 <= 122)
}

/// An ASCII letter or digit.
pub open spec fn is_alnum_char(c: char) -> bool {
    is_alpha_char(c) || is_digit_char(c)
}

/// An ASCII whitespace character: space, tab, line feed, form feed or
/// carriage return.
pub open spec fn is_space_char(c: char) -> bool {
    c as u32 == 32 || c as u32 == 9 || c as u32 == 10 || c as u32 == 12 || c as u32 == 13
}

/// The character at `i`, or the null character past either end.
pub open spec fn char_at(src: Seq<char>, i: int) -> char {
    if 0 <= i < src.len() {
        src[i]
    } else {
        '\0'
    }
}

/// The end of the run of digits starting at `i`.
pub open spec fn digits_end(src: Seq<char>, i: int) -> int
    decreases src.len() - i,
    when 0 <= i <= src.len()
{
    if i < src.len() && is_digit_char(src[i]) {
        digits_end(src, i + 1)
    } else {
        i
    }
}

/// The end of the run of letters and digits starting at `i`.
pub open spec fn alnum_end(src: Seq<char>, i: int) -> int
    decreases src.len() - i,
    when 0 <= i <= src.len()
{
    if i < src.len() && is_alnum_char(src[i]) {
        alnum_end(src, i + 1)
    } else {
        i
    }
}

/// The end of the run of whitespace starting at `i`.
pub open spec fn space_end(src: Seq<char>, i: int) -> int
    decreases src.len() - i,
    when 0 <= i <= src.len()
{
    if i < src.len() && is_space_char(src[i]) {
        space_end(src, i + 1)
    } else {
        i
    }
}

/// The position of the next double quote at or after `i`, or the end of the
/// source if there is none.
pub open spec fn string_end(src: Seq<char>, i: int) -> int
    decreases src.len() - i,
    when 0 <= i <= src.len()
{
    if i < src.len() && src[i] != '"' {
        string_end(src, i + 1)
    } else {
        i
    }
}

proof fn lemma_digits_end_bounds(src: Seq<char>, i: int)
    requires
        0 <= i <= src.len(),
    ensures
        i <= digits_end(src, i) <= src.len(),
    decreases src.len() - i,
{
    if i < src.len() && is_digit_char(src[i]) {
        lemma_digits_end_bounds(src, i + 1);
    }
}

proof fn lemma_alnum_end_bounds(src: Seq<char>, i: int)
    requires
        0 <= i <= src.len(),
    ensures
        i <= alnum_end(src, i) <= src.len(),
    decreases src.len() - i,
{
    if i < src.len() && is_alnum_char(src[i]) {
        lemma_alnum_end_bounds(src, i + 1);
    }
}

proof fn lemma_space_end_bounds(src: Seq<char>, i: int)
    requires
        0 <= i <= src.len(),
    ensures
        i <= space_end(src, i) <= src.len(),
    decreases src.len() - i,
{
    if i < src.len() && is_space_char(src[i]) {
        lemma_space_end_bounds(src, i + 1);
    }
}

proof fn lemma_string_end_bounds(src: Seq<char>, i: int)
    requires
        0 <= i <= src.len(),
    ensures
        i <= string_end(src, i) <= src.len(),
    decreases src.len() - i,
{
    if i < src.len() && src[i] != '"' {
        lemma_string_end_bounds(src, i + 1);
    }
}

/// One step of the lexer: the token recognized at a position, the position
/// after it, and the diagnostic it raised, if any.
pub struct LexStep {
    pub token: TokenView,
    pub next: int,
    pub diagnostic: Option<DiagnosticView>,
}

/// A step whose token's lexeme is the consumed source slice `[pos, next)`.
pub open spec fn lex_step(kind: TokenKind, src: Seq<char>, pos: int, next: int) -> LexStep {
    LexStep {
        token: TokenView {
            kind,
            lexeme: src.subrange(pos, next),
            position: Position { start: pos as usize, end: next as usize },
        },
        next,
        diagnostic: None,
    }
}

/// The end-of-input token, positioned over the last character.
pub open spec fn eof_token(pos: int) -> TokenView {
    TokenView {
        kind: TokenKind::Eof,
        lexeme: "\0"@,
        position: Position {
            start: if pos > 0 {
                (pos - 1) as usize
            } else {
                0
            },
            end: pos as usize,
        },
    }
}

/// The token recognized at `pos`, by the lexer's greedy rules: two-character
/// operators by one-character lookahead, runs of digits, letters or
/// whitespace collapsed into one token, string literals running unescaped to
/// the closing quote (or the end of input), and any other character an
/// invalid token with a diagnostic.
pub open spec fn spec_next_token(src: Seq<char>, pos: int) -> LexStep {
    if pos >= src.len() {
        LexStep { token: eof_token(pos), next: pos, diagnostic: None }
    } else {
        let c = src[pos];
        if c == '+' {
            lex_step(TokenKind::Plus, src, pos, pos + 1)
        } else if c == '-' {
            lex_step(TokenKind::Minus, src, pos, pos + 1)
        } else if c == '*' {
            lex_step(TokenKind::Star, src, pos, pos + 1)
        } else if c == '/' {
            lex_step(TokenKind::Slash, src, pos, pos + 1)
        } else if c == '(' {
            lex_step(TokenKind::OpenParen, src, pos, pos + 1)
        } else if c == ')' {
            lex_step(TokenKind::CloseParen, src, pos, pos + 1)
        } else if c == '{' {
            lex_step(TokenKind::OpenBrace, src, pos, pos + 1)
        } else if c == '}' {
            lex_step(TokenKind::CloseBrace, src, pos, pos + 1)
        } else if c == ',' {
            lex_step(TokenKind::Comma, src, pos, pos + 1)
        } else if c == '>' {
            if char_at(src, pos + 1) == '=' {
                lex_step(TokenKind::GreaterEqual, src, pos, pos + 2)
            } else {
                lex_step(TokenKind::Greater, src, pos, pos + 1)
            }
        } else if c == '<' {
            if char_at(src, pos + 1) == '=' {
                lex_step(TokenKind::LesserEqual, src, pos, pos + 2)
            } else {
                lex_step(TokenKind::Lesser, src, pos, pos + 1)
            }
        } else if c == '!' {
            if char_at(src, pos + 1) == '=' {
                lex_step(TokenKind::BangEqual, src, pos, pos + 2)
            } else {
                lex_step(TokenKind::Bang, src, pos, pos + 1)
            }
        } else if c == '=' {
            if char_at(src, pos + 1) == '=' {
                lex_step(TokenKind::EqualEqual, src, pos, pos + 2)
            } else {
                lex_step(TokenKind::Equal, src, pos, pos + 1)
            }
        } else if c == '&' {
            if char_at(src, pos + 1) == '&' {
                lex_step(TokenKind::AmpersandAmpersand, src, pos, pos + 2)
            } else {
                lex_step(TokenKind::Ampersand, src, pos, pos + 1)
            }
        } else if c == '|' {
            if char_at(src, pos + 1) == '|' {
                lex_step(TokenKind::PipePipe, src, pos, pos + 2)
            } else {
                lex_step(TokenKind::Pipe, src, pos, pos + 1)
            }
        } else if c == '"' {
            let e = string_end(src, pos + 1);
            let next = if e < src.len() {
                e + 1
            } else {
                e
            };
            LexStep {
                token: TokenView {
                    kind: TokenKind::String,
                    lexeme: src.subrange(pos + 1, e),
                    position: Position { start: pos as usize, end: next as usize },
                },
                next,
                diagnostic: None,
            }
        } else if is_space_char(c) {
            lex_step(TokenKind::Whitespace, src, pos, space_end(src, pos))
        } else if is_digit_char(c) {
            lex_step(TokenKind::Number, src, pos, digits_end(src, pos))
        } else if is_alpha_char(c) {
            let e = alnum_end(src, pos);
            lex_step(spec_lexeme_kind(src.subrange(pos, e)), src, pos, e)
        } else {
            let position = Position { start: pos as usize, end: (pos + 1) as usize };
            LexStep {
                token: TokenView { kind: TokenKind::Invalid, lexeme: src.subrange(pos, pos + 1), position },
                next: pos + 1,
                diagnostic: Some(DiagnosticView { position, message: msg_unexpected_character(c) }),
            }
        }
    }
}

/// The lexer consumes at least one character on every step before the end.
pub proof fn lemma_next_token_bounds(src: Seq<char>, pos: int)
    requires
        0 <= pos < src.len(),
    ensures
        pos < spec_next_token(src, pos).next <= src.len(),
{
    let c = src[pos];
    if c == '"' {
        lemma_string_end_bounds(src, pos + 1);
    } else if is_space_char(c) {
        lemma_space_end_bounds(src, pos + 1);
        assert(space_end(src, pos) == space_end(src, pos + 1));
    } else if is_digit_char(c) {
        lemma_digits_end_bounds(src, pos + 1);
        assert(digits_end(src, pos) == digits_end(src, pos + 1));
    } else if is_alpha_char(c) {
        lemma_alnum_end_bounds(src, pos + 1);
        assert(alnum_end(src, pos) == alnum_end(src, pos + 1));
    }
}

/// Everything lexing the source from a position on produces: the filtered
/// token stream and the diagnostics, in order.
pub struct LexOutput {
    pub tokens: Seq<TokenView>,
    pub diagnostics: Seq<DiagnosticView>,
}

/// The filtered token stream and diagnostics from `pos` to the end of the
/// source: whitespace and invalid tokens are dropped, and the stream ends
/// with exactly one end-of-input token.
pub open spec fn spec_lex_from(src: Seq<char>, pos: int) -> LexOutput
    decreases src.len() - pos,
    when 0 <= pos <= src.len()
    via spec_lex_from_decreases
{
    if pos >= src.len() {
        LexOutput { tokens: seq![eof_token(pos)], diagnostics: Seq::empty() }
    } else {
        let step = spec_next_token(src, pos);
        let rest = spec_lex_from(src, step.next);
        LexOutput {
            tokens: if step.token.kind is Whitespace || step.token.kind is Invalid {
                rest.tokens
            } else {
                seq![step.token] + rest.tokens
            },
            diagnostics: match step.diagnostic {
                Some(d) => seq![d] + rest.diagnostics,
                None => rest.diagnostics,
            },
        }
    }
}

#[via_fn]
proof fn spec_lex_from_decreases(src: Seq<char>, pos: int) {
    if 0 <= pos < src.len() {
        lemma_next_token_bounds(src, pos);
    }
}

/// The models of a token list, in order.
pub open spec fn tokens_view(tokens: Seq<Token>) -> Seq<TokenView> {
    tokens.map_values(|t: Token| t@)
}

/// The single-pass lexer over the source characters.
#[derive(Debug)]
pub struct Lexer {
    source: Vec<char>,
    current: usize,
    pub diagnostic_bag: DiagnosticBag,
}

impl Lexer {
    /// The characters of the source being lexed.
    pub closed spec fn src(&self) -> Seq<char> {
        self.source@
    }

    /// The cursor: how many characters are consumed.
    pub closed spec fn pos(&self) -> int {
        self.current as int
    }

    /// The diagnostics reported so far.
    pub closed spec fn bag(&self) -> Seq<DiagnosticView> {
        self.diagnostic_bag@
    }

    /// The cursor stays within the source, which leaves room to look one
    /// character ahead.
    pub closed spec fn wf(&self) -> bool {
        self.current <= self.source@.len() && self.source@.len() < usize::MAX
    }

    /// A lexer at the start of the source, reporting into `diagnostic_bag`.
    pub fn new(source: &str, diagnostic_bag: DiagnosticBag) -> (r: Lexer)
        requires
            source@.len() < usize::MAX,
        ensures
            r.wf(),
            r.src() == source@,
            r.pos() == 0,
            r.bag() == diagnostic_bag@,
    {
        let n = source.unicode_len();
        let mut chars: Vec<char> = Vec::new();
        let mut i: usize = 0;
        while i < n
            invariant
                n == source@.len(),
                i <= n,
                chars@ == source@.subrange(0, i as int),
            decreases n - i,
        {
            chars.push(source.get_char(i));
            proof {
                assert(chars@ =~= source@.subrange(0, i + 1));
            }
            i = i + 1;
        }
        proof {
            assert(chars@ =~= source@);
        }
        Lexer { source: chars, current: 0, diagnostic_bag }
    }

    /// The character `offset` places past the cursor, or the null character
    /// beyond the end.
    fn peek(&self, offset: usize) -> (c: char)
        requires
            self.wf(),
            offset <= 1,
        ensures
            c == char_at(self.src(), self.pos() + offset),
    {
        let index = offset + self.current;
        if index < self.source.len() {
            self.source[index]
        } else {
            '\0'
        }
    }

    /// Moves the cursor one character forward.
    fn advance(&mut self)
        requires
            old(self).wf(),
            old(self).pos() < old(self).src().len(),
        ensures
            final(self).wf(),
            final(self).src() == old(self).src(),
            final(self).pos() == old(self).pos() + 1,
            final(self).diagnostic_bag == old(self).diagnostic_bag,
    {
        self.current = self.current + 1;
    }

    /// Consumes and returns the character at the cursor.
    fn next_char(&mut self) -> (c: char)
        requires
            old(self).wf(),
            old(self).pos() < old(self).src().len(),
        ensures
            final(self).wf(),
            final(self).src() == old(self).src(),
            final(self).pos() == old(self).pos() + 1,
            final(self).diagnostic_bag == old(self).diagnostic_bag,
            c == old(self).src()[old(self).pos()],
    {
        let c = self.peek(0);
        self.advance();
        c
    }

    /// Recognizes and consumes the next token, reporting a diagnostic when it
    /// is an unexpected character.
    fn next_token(&mut self) -> (t: Token)
        requires
            old(self).wf(),
        ensures
            final(self).wf(),
            final(self).src() == old(self).src(),
            ({
                let step = spec_next_token(old(self).src(), old(self).pos());
                &&& t@ == step.token
                &&& final(self).pos() == step.next
                &&& final(self).bag() == match step.diagnostic {
                    Some(d) => old(self).bag().push(d),
                    None => old(self).bag(),
                }
            }),
    {
        let ghost src = self.src();
        let ghost pos = self.pos();
        let ghost bag0 = self.diagnostic_bag;
        if self.source.len() <= self.current {
            let position = Position::new(
                if self.current > 0 {
                    self.current - 1
                } else {
                    0
                },
                self.current,
            );
            let t = Token::new(TokenKind::Eof, String::from_str("\0"), position);
            return t;
        }
        let c = self.next_char();
        if c == '+' {
            self.single_char_token(TokenKind::Plus)
        } else if c == '-' {
            self.single_char_token(TokenKind::Minus)
        } else if c == '*' {
            self.single_char_token(TokenKind::Star)
        } else if c == '/' {
            self.single_char_token(TokenKind::Slash)
        } else if c == '(' {
            self.single_char_token(TokenKind::OpenParen)
        } else if c == ')' {
            self.single_char_token(TokenKind::CloseParen)
        } else if c == '{' {
            self.single_char_token(TokenKind::OpenBrace)
        } else if c == '}' {
            self.single_char_token(TokenKind::CloseBrace)
        } else if c == ',' {
            self.single_char_token(TokenKind::Comma)
        } else if c == '>' {
            if self.peek(0) == '=' {
                self.advance();
                self.double_char_token(TokenKind::GreaterEqual)
            } else {
                self.single_char_token(TokenKind::Greater)
            }
        } else if c == '<' {
            if self.peek(0) == '=' {
                self.advance();
                self.double_char_token(TokenKind::LesserEqual)
            } else {
                self.single_char_token(TokenKind::Lesser)
            }
        } else if c == '!' {
            if self.peek(0) == '=' {
                self.advance();
                self.double_char_token(TokenKind::BangEqual)
            } else {
                self.single_char_token(TokenKind::Bang)
            }
        } else if c == '=' {
            if self.peek(0) == '=' {
                self.advance();
                self.double_char_token(TokenKind::EqualEqual)
            } else {
                self.single_char_token(TokenKind::Equal)
            }
        } else if c == '&' {
            if self.peek(0) == '&' {
                self.advance();
                self.double_char_token(TokenKind::AmpersandAmpersand)
            } else {
                self.single_char_token(TokenKind::Ampersand)
            }
        } else if c == '|' {
            if self.peek(0) == '|' {
                self.advance();
                self.double_char_token(TokenKind::PipePipe)
            } else {
                self.single_char_token(TokenKind::Pipe)
            }
        } else if c == '"' {
            let start = self.current - 1;
            while self.peek(0) != '"' && self.current < self.source.len()
                invariant
                    self.wf(),
                    self.src() == src,
                    self.diagnostic_bag == bag0,
                    pos < self.pos() <= self.src().len(),
                    string_end(src, pos + 1) == string_end(src, self.pos()),
                    start == pos,
                decreases self.src().len() - self.pos(),
            {
                self.advance();
            }
            proof {
                assert(string_end(src, self.pos()) == self.pos());
            }
            let e = self.current;
            let closed = self.current < self.source.len();
            if closed {
                self.advance();
            }
            let lexeme = chars_to_string(&self.source, start + 1, e);
            let t = Token::new(TokenKind::String, lexeme, Position::new(start, self.current));
            t
        } else if is_space(c) {
            let start = self.current - 1;
            while is_space(self.peek(0)) && self.current < self.source.len()
                invariant
                    self.wf(),
                    self.src() == src,
                    self.diagnostic_bag == bag0,
                    pos < self.pos() <= self.src().len(),
                    space_end(src, pos) == space_end(src, self.pos()),
                    start == pos,
                decreases self.src().len() - self.pos(),
            {
                self.advance();
            }
            proof {
                assert(char_at(src, self.pos()) == '\0' || !is_space_char(char_at(
                    src,
                    self.pos(),
                )) || self.pos() == src.len());
                assert(space_end(src, self.pos()) == self.pos());
            }
            let lexeme = chars_to_string(&self.source, start, self.current);
            let t = Token::new(TokenKind::Whitespace, lexeme, Position::new(start, self.current));
            t
        } else if is_digit(c) {
            let start = self.current - 1;
            while is_digit(self.peek(0)) && self.current < self.source.len()
                invariant
                    self.wf(),
                    self.src() == src,
                    self.diagnostic_bag == bag0,
                    pos < self.pos() <= self.src().len(),
                    digits_end(src, pos) == digits_end(src, self.pos()),
                    start == pos,
                decreases self.src().len() - self.pos(),
            {
                self.advance();
            }
            proof {
                assert(digits_end(src, self.pos()) == self.pos());
            }
            let lexeme = chars_to_string(&self.source, start, self.current);
            let t = Token::new(TokenKind::Number, lexeme, Position::new(start, self.current));
            t
        } else if is_alpha(c) {
            let start = self.current - 1;
            while is_alnum(self.peek(0)) && self.current < self.source.len()
                invariant
                    self.wf(),
                    self.src() == src,
                    self.diagnostic_bag == bag0,
                    pos < self.pos() <= self.src().len(),
                    alnum_end(src, pos) == alnum_end(src, self.pos()),
                    start == pos,
                decreases self.src().len() - self.pos(),
            {
                self.advance();
            }
            proof {
                assert(alnum_end(src, self.pos()) == self.pos());
            }
            let lexeme = chars_to_string(&self.source, start, self.current);
            let kind = TokenKind::get_lexeme_type(lexeme.as_str());
            let t = Token::new(kind, lexeme, Position::new(start, self.current));
            t
        } else {
            let position = Position::new(self.current - 1, self.current);
            self.diagnostic_bag.unexpected_character(position, c);
            let lexeme = chars_to_string(&self.source, self.current - 1, self.current);
            let t = Token::new(TokenKind::Invalid, lexeme, position);
            t
        }
    }

    /// Builds the token for the one consumed character.
    fn single_char_token(&self, kind: TokenKind) -> (t: Token)
        requires
            self.wf(),
            1 <= self.pos(),
        ensures
            t@ == (lex_step(kind, self.src(), self.pos() - 1, self.pos())).token,
    {
        let lexeme = chars_to_string(&self.source, self.current - 1, self.current);
        Token::new(kind, lexeme, Position::new(self.current - 1, self.current))
    }

    /// Builds the token for the two consumed characters.
    fn double_char_token(&self, kind: TokenKind) -> (t: Token)
        requires
            self.wf(),
            2 <= self.pos(),
        ensures
            t@ == (lex_step(kind, self.src(), self.pos() - 2, self.pos())).token,
    {
        let lexeme = chars_to_string(&self.source, self.current - 2, self.current);
        Token::new(kind, lexeme, Position::new(self.current - 2, self.current))
    }

    /// Hands the diagnostics over to the next stage.
    pub fn take_diagnostics(self) -> (bag: DiagnosticBag)
        ensures
            bag@ == self.bag(),
    {
        self.diagnostic_bag
    }

    /// Lexes the rest of the source: the returned stream holds every token
    /// but whitespace and invalid ones and ends with one end-of-input token,
    /// and every unexpected character has reported its diagnostic.
    pub fn lex(&mut self) -> (tokens: Vec<Token>)
        requires
            old(self).wf(),
        ensures
            final(self).wf(),
            tokens_view(tokens@) == spec_lex_from(old(self).src(), old(self).pos()).tokens,
            final(self).bag() == old(self).bag() + spec_lex_from(
                old(self).src(),
                old(self).pos(),
            ).diagnostics,
    {
        let ghost src = self.src();
        let ghost pos0 = self.pos();
        let ghost bag0 = self.diagnostic_bag@;
        let ghost out = spec_lex_from(src, pos0);
        let mut tokens: Vec<Token> = Vec::new();
        loop
            invariant_except_break
                out.tokens == tokens_view(tokens@) + spec_lex_from(src, self.pos()).tokens,
                bag0 + out.diagnostics == self.diagnostic_bag@ + spec_lex_from(
                    src,
                    self.pos(),
                ).diagnostics,
            invariant
                self.wf(),
                self.src() == src,
                0 <= pos0 <= self.pos() <= src.len(),
                out == spec_lex_from(src, pos0),
            ensures
                self.wf(),
                self.src() == src,
                out.tokens == tokens_view(tokens@),
                self.diagnostic_bag@ == bag0 + out.diagnostics,
            decreases src.len() - self.pos() + 1,
        {
            let ghost p = self.pos();
            let ghost bag_before = self.diagnostic_bag@;
            let token = self.next_token();
            proof {
                if p < src.len() {
                    lemma_next_token_bounds(src, p);
                }
            }
            if token.kind == TokenKind::Eof {
                tokens.push(token);
                proof {
                    assert(p == src.len());
                    assert(spec_lex_from(src, p).tokens =~= seq![eof_token(p)]);
                    assert(spec_lex_from(src, p).diagnostics =~= Seq::<DiagnosticView>::empty());
                    assert(tokens_view(tokens@) =~= tokens_view(tokens@.drop_last()) + seq![
                        eof_token(p),
                    ]);
                    assert(out.tokens =~= tokens_view(tokens@));
                    assert(bag0 + out.diagnostics =~= self.diagnostic_bag@);
                    assert(self.diagnostic_bag@ =~= bag0 + out.diagnostics);
                }
                break ;
            } else if token.kind == TokenKind::Whitespace || token.kind == TokenKind::Invalid {
                proof {
                    lemma_lex_unfold(src, p, bag_before, self.diagnostic_bag@);
                    assert(bag0 + out.diagnostics == self.diagnostic_bag@ + spec_lex_from(
                        src,
                        self.pos(),
                    ).diagnostics);
                }
            } else {
                tokens.push(token);
                proof {
                    assert(tokens_view(tokens@) =~= tokens_view(tokens@.drop_last()) + seq![
                        token@,
                    ]);
                    lemma_lex_unfold(src, p, bag_before, self.diagnostic_bag@);
                    assert(out.tokens =~= tokens_view(tokens@) + spec_lex_from(
                        src,
                        self.pos(),
                    ).tokens);
                }
            }
        }
        tokens
    }
}

proof fn lemma_lex_unfold(
    src: Seq<char>,
    p: int,
    bag_before: Seq<DiagnosticView>,
    bag_after: Seq<DiagnosticView>,
)
    requires
        0 <= p < src.len(),
        bag_after == match spec_next_token(src, p).diagnostic {
            Some(d) => bag_before.push(d),
            None => bag_before,
        },
    ensures
        ({
            let step = spec_next_token(src, p);
            let here = spec_lex_from(src, p);
            let rest = spec_lex_from(src, step.next);
            &&& here.tokens == if step.token.kind is Whitespace || step.token.kind is Invalid {
                rest.tokens
            } else {
                seq![step.token] + rest.tokens
            }
            &&& bag_before + here.diagnostics =~= bag_after + rest.diagnostics
        }),
{
    lemma_next_token_bounds(src, p);
    let step = spec_next_token(src, p);
    let here = spec_lex_from(src, p);
    let rest = spec_lex_from(src, step.next);
    assert(here.tokens == if step.token.kind is Whitespace || step.token.kind is Invalid {
        rest.tokens
    } else {
        seq![step.token] + rest.tokens
    });
    assert(here.diagnostics == match step.diagnostic {
        Some(d) => seq![d] + rest.diagnostics,
        None => rest.diagnostics,
    });
    match step.diagnostic {
        Some(d) => {
            assert(here.diagnostics =~= seq![d] + rest.diagnostics);
            assert(bag_before + (seq![d] + rest.diagnostics) =~= bag_before.push(d)
                + rest.diagnostics);
        },
        None => {},
    }
}

/// Every token the lexer recognizes carries a well-formed position, and so
/// does every diagnostic it reports.
pub proof fn lemma_next_token_position_wf(src: Seq<char>, pos: int)
    requires
        0 <= pos <= src.len(),
        src.len() <= usize::MAX,
    ensures
        crate::diagnostic::position_wf(spec_next_token(src, pos).token.position),
        match spec_next_token(src, pos).diagnostic {
            Some(d) => crate::diagnostic::position_wf(d.position),
            None => true,
        },
{
    if pos < src.len() {
        let c = src[pos];
        if c == '"' {
            lemma_string_end_bounds(src, pos + 1);
        } else if is_space_char(c) {
            lemma_space_end_bounds(src, pos + 1);
            assert(space_end(src, pos) == space_end(src, pos + 1));
        } else if is_digit_char(c) {
            lemma_digits_end_bounds(src, pos + 1);
            assert(digits_end(src, pos) == digits_end(src, pos + 1));
        } else if is_alpha_char(c) {
            lemma_alnum_end_bounds(src, pos + 1);
            assert(alnum_end(src, pos) == alnum_end(src, pos + 1));
        }
    }
}

/// Every token the lexer hands to the parser carries a well-formed position,
/// and so does every diagnostic it reports; the parser and the binder only
/// ever propagate these positions.
pub proof fn lemma_lex_from_positions_wf(src: Seq<char>, pos: int)
    requires
        0 <= pos <= src.len(),
        src.len() <= usize::MAX,
    ensures
        forall|i: int|
            0 <= i < spec_lex_from(src, pos).tokens.len() ==> crate::diagnostic::position_wf(
                (#[trigger] spec_lex_from(src, pos).tokens[i]).position,
            ),
        forall|i: int|
            0 <= i < spec_lex_from(src, pos).diagnostics.len() ==> crate::diagnostic::position_wf(
                (#[trigger] spec_lex_from(src, pos).diagnostics[i]).position,
            ),
    decreases src.len() - pos,
{
    if pos >= src.len() {
        assert(spec_lex_from(src, pos).tokens == seq![eof_token(pos)]);
        assert(crate::diagnostic::position_wf(eof_token(pos).position));
    } else {
        lemma_next_token_bounds(src, pos);
        lemma_next_token_position_wf(src, pos);
        let step = spec_next_token(src, pos);
        lemma_lex_from_positions_wf(src, step.next);
        let rest = spec_lex_from(src, step.next);
        let here = spec_lex_from(src, pos);
        assert forall|i: int| 0 <= i < here.tokens.len() implies crate::diagnostic::position_wf(
            (#[trigger] here.tokens[i]).position,
        ) by {
            if step.token.kind is Whitespace || step.token.kind is Invalid {
                assert(here.tokens[i] == rest.tokens[i]);
            } else {
                if i == 0 {
                    assert(here.tokens[0] == step.token);
                } else {
                    assert(here.tokens[i] == rest.tokens[i - 1]);
                }
            }
        }
        assert forall|i: int| 0 <= i < here.diagnostics.len() implies crate::diagnostic::position_wf(
            (#[trigger] here.diagnostics[i]).position,
        ) by {
            match step.diagnostic {
                Some(d) => {
                    if i == 0 {
                        assert(here.diagnostics[0] == d);
                    } else {
                        assert(here.diagnostics[i] == rest.diagnostics[i - 1]);
                    }
                },
                None => {
                    assert(here.diagnostics[i] == rest.diagnostics[i]);
                },
            }
        }
    }
}

/// The lexer emits at most one token per character, plus the end-of-input
/// token.
pub proof fn lemma_lex_from_len(src: Seq<char>, pos: int)
    requires
        0 <= pos <= src.len(),
    ensures
        spec_lex_from(src, pos).tokens.len() <= src.len() - pos + 1,
    decreases src.len() - pos,
{
    if pos < src.len() {
        lemma_next_token_bounds(src, pos);
        lemma_lex_from_len(src, spec_next_token(src, pos).next);
    }
}

/// Whether `c` is an ASCII decimal digit.
fn is_digit(c: char) -> (r: bool)
    ensures
        r == is_digit_char(c),
{
    let n = c as u32;
    48 <= n && n <= 57
}

/// Whether `c` is an ASCII letter.
fn is_alpha(c: char) -> (r: bool)
    ensures
        r == is_alpha_char(c),
{
    let n = c as u32;
    (65 <= n && n <= 90) || (97 <= n && n <= 122)
}

/// Whether `c` is an ASCII letter or digit.
fn is_alnum(c: char) -> (r: bool)
    ensures
        r == is_alnum_char(c),
{
    is_alpha(c) || is_digit(c)
}

/// Whether `c` is an ASCII whitespace character.
fn is_space(c: char) -> (r: bool)
    ensures
        r == is_space_char(c),
{
    let n = c as u32;
    n == 32 || n == 9 || n == 10 || n == 12 || n == 13
}

} // verus!
