//! Positions in the source text and the diagnostics reported against them.
//!
//! The lexer, the parser and the binder accumulate diagnostics in a shared
//! `DiagnosticBag` instead of aborting; each diagnostic carries the half-open
//! character range it refers to and a rendered message.

use vstd::prelude::*;
use vstd::string::*;

use crate::text::push_char;
use crate::token::kind_text;
use crate::token::TokenKind;
use crate::types::type_text;
use crate::types::Type;

verus! {

/// A half-open character range `[start, end)` within the source text.
#[derive(Debug, Clone, Copy, PartialEq, Eq, Structural)]
pub struct Position {
    pub start: usize,
    pub end: usize,
}

/// The line number (1-based) of the character offset `off` in `source`: one
/// more than the number of newline characters strictly before `off`.
pub open spec fn spec_line(source: Seq<char>, off: int) -> int
    decreases off,
{
    if off <= 0 {
        1
    } else {
        spec_line(source, off - 1) + if source[off - 1] == '\n' {
            1int
        } else {
            0int
        }
    }
}

/// The column (0-based in characters) of the character offset `off` in
/// `source`: the number of characters since the last newline before `off`.
pub open spec fn spec_column(source: Seq<char>, off: int) -> int
    decreases off,
{
    if off <= 0 {
        0
    } else if source[off - 1] == '\n' {
        0
    } else {
        spec_column(source, off - 1) + 1
    }
}

/// The invariant of every position: a half-open range never ends before it
/// starts.
pub open spec fn position_wf(p: Position) -> bool {
    p.start <= p.end
}

impl Position {
    pub fn new(start: usize, end: usize) -> (p: Position)
        requires
            start <= end,
        ensures
            p == (Position { start, end }),
    {
        Position { start, end }
    }

    /// Maps the stored start offset back to a 1-based line and a 0-based
    /// column by a linear scan of the source text counting newlines.
    pub fn get_line_and_column(&self, source: &str) -> (r: (usize, usize))
        requires
            source@.len() < usize::MAX,
        ensures
            ({
                let off = if self.start <= source@.len() {
                    self.start as int
                } else {
                    source@.len() as int
                };
                r.0 == spec_line(source@, off) && r.1 == spec_column(source@, off)
            }),
    {
        let len = source.unicode_len();
        let upto = if self.start <= len {
            self.start
        } else {
            len
        };
        let mut line: usize = 1;
        let mut column: usize = 0;
        let mut i: usize = 0;
        while i < upto
            invariant
                i <= upto <= source@.len() < usize::MAX,
                line == spec_line(source@, i as int),
                column == spec_column(source@, i as int),
                line <= i + 1,
                column <= i,
            decreases upto - i,
        {
            if source.get_char(i) == '\n' {
                line = line + 1;
                column = 0;
            } else {
                column = column + 1;
            }
            i = i + 1;
        }
        (line, column)
    }
}

/// Model of a diagnostic: where it points and what it says.
pub struct DiagnosticView {
    pub position: Position,
    pub message: Seq<char>,
}

/// A positioned, human-readable record of a problem found while lexing,
/// parsing or binding.
#[derive(Debug)]
pub struct Diagnostic {
    pub position: Position,
    pub message: String,
}

impl View for Diagnostic {
    type V = DiagnosticView;

    open spec fn view(&self) -> DiagnosticView {
        DiagnosticView { position: self.position, message: self.message@ }
    }
}

impl Diagnostic {
    pub fn new(position: Position, message: String) -> (d: Diagnostic)
        ensures
            d@ == (DiagnosticView { position, message: message@ }),
    {
        Diagnostic { position, message }
    }
}

/// The model of a whole diagnostic bag.
pub open spec fn bag_view(diagnostics: Seq<Diagnostic>) -> Seq<DiagnosticView> {
    diagnostics.map_values(|d: Diagnostic| d@)
}

pub open spec fn msg_unexpected_character(c: char) -> Seq<char> {
    "Unexpected character '"@ + seq![c] + "'"@
}

pub open spec fn msg_unexpected_token(expected: TokenKind, current: TokenKind) -> Seq<char> {
    "Unexpected token '"@ + kind_text(current) + "', expected '"@ + kind_text(expected) + "'"@
}

pub open spec fn msg_invalid_unary_operator(operator: TokenKind, right: Type) -> Seq<char> {
    "Unary operator '"@ + kind_text(operator) + "' is not defined for '"@ + type_text(right) + "'"@
}

pub open spec fn msg_invalid_binary_operator(operator: TokenKind, left: Type, right: Type) -> Seq<
    char,
> {
    "Binary operator '"@ + kind_text(operator) + "' is not defined for '"@ + type_text(left)
        + "' and '"@ + type_text(right) + "'"@
}

pub open spec fn msg_undefined_name(name: Seq<char>) -> Seq<char> {
    "Name '"@ + name + "' is not defined"@
}

pub open spec fn msg_invalid_assignment(name: Seq<char>, expected: Type, given: Type) -> Seq<
    char,
> {
    "Name '"@ + name + "' expects '"@ + type_text(expected) + "', got '"@ + type_text(given) + "'"@
}

pub open spec fn msg_invalid_expression_type(expected: Type, actual: Type) -> Seq<char> {
    "Expected expression of type '"@ + type_text(expected) + "', got '"@ + type_text(actual) + "'"@
}

/// The ordered collection of diagnostics reported so far.
#[derive(Debug)]
pub struct DiagnosticBag {
    pub diagnostics: Vec<Diagnostic>,
}

impl View for DiagnosticBag {
    type V = Seq<DiagnosticView>;

    open spec fn view(&self) -> Seq<DiagnosticView> {
        bag_view(self.diagnostics@)
    }
}

impl DiagnosticBag {
    pub fn new() -> (bag: DiagnosticBag)
        ensures
            bag@ == Seq::<DiagnosticView>::empty(),
    {
        let bag = DiagnosticBag { diagnostics: Vec::new() };
        proof {
            assert(bag@ =~= Seq::<DiagnosticView>::empty());
        }
        bag
    }

    /// Whether no diagnostic has been reported.
    pub fn is_empty(&self) -> (r: bool)
        ensures
            r == (self@.len() == 0),
    {
        self.diagnostics.len() == 0
    }

    fn report(&mut self, position: Position, message: String)
        ensures
            final(self)@ == old(self)@.push(
                DiagnosticView { position, message: message@ },
            ),
    {
        self.diagnostics.push(Diagnostic { position, message });
        proof {
            assert(self@ =~= old(self)@.push(DiagnosticView { position, message: message@ }));
        }
    }

    /// Reports a character no token can start with.
    pub fn unexpected_character(&mut self, position: Position, c: char)
        ensures
            final(self)@ == old(self)@.push(
                DiagnosticView { position, message: msg_unexpected_character(c) },
            ),
    {
        let mut message = String::from_str("Unexpected character '");
        push_char(&mut message, c);
        message.append("'");
        proof {
            assert(message@ =~= msg_unexpected_character(c));
        }
        self.report(position, message);
    }

    /// Reports a token other than the one the grammar expects.
    pub fn unexpected_token(&mut self, position: Position, expected_token: TokenKind, current_token: TokenKind)
        ensures
            final(self)@ == old(self)@.push(
                DiagnosticView {
                    position,
                    message: msg_unexpected_token(expected_token, current_token),
                },
            ),
    {
        let mut message = String::from_str("Unexpected token '");
        message.append(current_token.text());
        message.append("', expected '");
        message.append(expected_token.text());
        message.append("'");
        proof {
            assert(message@ =~= msg_unexpected_token(expected_token, current_token));
        }
        self.report(position, message);
    }

    /// Reports a unary operator applied to an operand type it is not defined
    /// for.
    pub fn invalid_unary_operator(&mut self, position: Position, operator: TokenKind, right_type: Type)
        ensures
            final(self)@ == old(self)@.push(
                DiagnosticView {
                    position,
                    message: msg_invalid_unary_operator(operator, right_type),
                },
            ),
    {
        let mut message = String::from_str("Unary operator '");
        message.append(operator.text());
        message.append("' is not defined for '");
        message.append(right_type.text());
        message.append("'");
        proof {
            assert(message@ =~= msg_invalid_unary_operator(operator, right_type));
        }
        self.report(position, message);
    }

    /// Reports a binary operator applied to operand types it is not defined
    /// for.
    pub fn invalid_binary_operator(
        &mut self,
        position: Position,
        operator: TokenKind,
        left_type: Type,
        right_type: Type,
    )
        ensures
            final(self)@ == old(self)@.push(
                DiagnosticView {
                    position,
                    message: msg_invalid_binary_operator(operator, left_type, right_type),
                },
            ),
    {
        let mut message = String::from_str("Binary operator '");
        message.append(operator.text());
        message.append("' is not defined for '");
        message.append(left_type.text());
        message.append("' and '");
        message.append(right_type.text());
        message.append("'");
        proof {
            assert(message@ =~= msg_invalid_binary_operator(operator, left_type, right_type));
        }
        self.report(position, message);
    }

    /// Reports a reference to a name no enclosing scope declares.
    pub fn undefined_name(&mut self, position: Position, name: String)
        ensures
            final(self)@ == old(self)@.push(
                DiagnosticView { position, message: msg_undefined_name(name@) },
            ),
    {
        let mut message = String::from_str("Name '");
        message.append(name.as_str());
        message.append("' is not defined");
        proof {
            assert(message@ =~= msg_undefined_name(name@));
        }
        self.report(position, message);
    }

    /// Reports an assignment whose right-hand type differs from the declared
    /// type of the name.
    pub fn invalid_assignment(&mut self, position: Position, name: String, expected_type: Type, given_type: Type)
        ensures
            final(self)@ == old(self)@.push(
                DiagnosticView {
                    position,
                    message: msg_invalid_assignment(name@, expected_type, given_type),
                },
            ),
    {
        let mut message = String::from_str("Name '");
        message.append(name.as_str());
        message.append("' expects '");
        message.append(expected_type.text());
        message.append("', got '");
        message.append(given_type.text());
        message.append("'");
        proof {
            assert(message@ =~= msg_invalid_assignment(name@, expected_type, given_type));
        }
        self.report(position, message);
    }

    /// Reports an expression whose type does not fit where it stands, such as
    /// a loop condition that is not boolean.
    pub fn invalid_expression_type(&mut self, position: Position, expected_type: Type, actual_type: Type)
        ensures
            final(self)@ == old(self)@.push(
                DiagnosticView {
                    position,
                    message: msg_invalid_expression_type(expected_type, actual_type),
                },
            ),
    {
        let mut message = String::from_str("Expected expression of type '");
        message.append(expected_type.text());
        message.append("', got '");
        message.append(actual_type.text());
        message.append("'");
        proof {
            assert(message@ =~= msg_invalid_expression_type(expected_type, actual_type));
        }
        self.report(position, message);
    }
}

} // verus!
