use crab::diagnostic::DiagnosticBag;
use crab::diagnostic::Position;
use crab::lexer::Lexer;
use crab::token::Token;
use crab::token::TokenKind;

fn lex(source: &str) -> Vec<Token> {
    let mut lexer = Lexer::new(source, DiagnosticBag::new());
    lexer.lex()
}

fn kinds(tokens: &[Token]) -> Vec<TokenKind> {
    tokens.iter().map(|t| t.kind).collect()
}

#[test]
fn relexing_the_rendering_reproduces_the_kinds() {
    let first = lex("1+2");
    assert_eq!(
        kinds(&first),
        vec![TokenKind::Number, TokenKind::Plus, TokenKind::Number, TokenKind::Eof]
    );
    let rendering: Vec<String> = first
        .iter()
        .filter(|t| t.kind != TokenKind::Eof)
        .map(|t| t.lexeme.clone())
        .collect();
    let second = lex(&rendering.join(" "));
    assert_eq!(kinds(&first), kinds(&second));
}

#[test]
fn two_character_operators_win_over_one() {
    let tokens = lex(">= <= == != && || > < = ! & |");
    assert_eq!(
        kinds(&tokens),
        vec![
            TokenKind::GreaterEqual,
            TokenKind::LesserEqual,
            TokenKind::EqualEqual,
            TokenKind::BangEqual,
            TokenKind::AmpersandAmpersand,
            TokenKind::PipePipe,
            TokenKind::Greater,
            TokenKind::Lesser,
            TokenKind::Equal,
            TokenKind::Bang,
            TokenKind::Ampersand,
            TokenKind::Pipe,
            TokenKind::Eof,
        ]
    );
}

#[test]
fn keywords_are_reclassified() {
    let tokens = lex("var print if else while for true false varx");
    assert_eq!(
        kinds(&tokens),
        vec![
            TokenKind::Var,
            TokenKind::Print,
            TokenKind::If,
            TokenKind::Else,
            TokenKind::While,
            TokenKind::For,
            TokenKind::True,
            TokenKind::False,
            TokenKind::Identifier,
            TokenKind::Eof,
        ]
    );
    assert_eq!(tokens[8].lexeme, "varx");
}

#[test]
fn digit_runs_collapse_into_one_number() {
    let tokens = lex("1234 5");
    assert_eq!(
        kinds(&tokens),
        vec![TokenKind::Number, TokenKind::Number, TokenKind::Eof]
    );
    assert_eq!(tokens[0].lexeme, "1234");
    assert_eq!(tokens[0].position, Position { start: 0, end: 4 });
    assert_eq!(tokens[1].position, Position { start: 5, end: 6 });
}

#[test]
fn string_literal_excludes_the_quotes() {
    let tokens = lex("\"hello world\"");
    assert_eq!(kinds(&tokens), vec![TokenKind::String, TokenKind::Eof]);
    assert_eq!(tokens[0].lexeme, "hello world");
    assert_eq!(tokens[0].position, Position { start: 0, end: 13 });
}

#[test]
fn empty_string_literal() {
    let tokens = lex("\"\"");
    assert_eq!(kinds(&tokens), vec![TokenKind::String, TokenKind::Eof]);
    assert_eq!(tokens[0].lexeme, "");
}

#[test]
fn unterminated_string_runs_to_the_end() {
    let tokens = lex("\"abc");
    assert_eq!(kinds(&tokens), vec![TokenKind::String, TokenKind::Eof]);
    assert_eq!(tokens[0].lexeme, "abc");
}

#[test]
fn whitespace_and_invalid_tokens_are_filtered() {
    let mut lexer = Lexer::new("1 @ 2", DiagnosticBag::new());
    let tokens = lexer.lex();
    assert_eq!(
        kinds(&tokens),
        vec![TokenKind::Number, TokenKind::Number, TokenKind::Eof]
    );
    let bag = lexer.take_diagnostics();
    assert_eq!(bag.diagnostics.len(), 1);
    assert_eq!(bag.diagnostics[0].message, "Unexpected character '@'");
    assert_eq!(bag.diagnostics[0].position, Position { start: 2, end: 3 });
}

#[test]
fn empty_source_lexes_to_eof_alone() {
    let tokens = lex("");
    assert_eq!(kinds(&tokens), vec![TokenKind::Eof]);
}

#[test]
fn line_and_column_from_offset() {
    let position = Position { start: 3, end: 4 };
    assert_eq!(position.get_line_and_column("ab\ncd"), (2, 0));
    let position = Position { start: 1, end: 2 };
    assert_eq!(position.get_line_and_column("ab\ncd"), (1, 1));
}
