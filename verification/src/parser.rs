//! The parser: recursive descent with precedence climbing over the token
//! stream, building the untyped syntax tree.
//!
//! Every parsing function is proved equal to a specification-level parser
//! (`spec_parse_program` and the functions under it), so the tree, the final
//! cursor and the diagnostics are all functions of the token stream alone.
//!
//! On a mismatch the parser reports an "unexpected token" diagnostic,
//! fabricates a placeholder token of the expected kind and moves past the
//! offending token, so parsing always makes progress and always terminates;
//! the tree after a syntax error is best-effort.

use vstd::prelude::*;
use vstd::string::*;

use crate::diagnostic::msg_unexpected_token;
use crate::diagnostic::DiagnosticBag;
use crate::diagnostic::DiagnosticView;
use crate::diagnostic::Position;
use crate::lexer::is_digit_char;
use crate::lexer::tokens_view;
use crate::syntax_tree::AssignmentExpression;
use crate::syntax_tree::BinaryExpression;
use crate::syntax_tree::BlockStatement;
use crate::syntax_tree::Expression;
use crate::syntax_tree::expr_view;
use crate::syntax_tree::ExpressionView;
use crate::syntax_tree::ExpressionStatement;
use crate::syntax_tree::ForStatement;
use crate::syntax_tree::IfStatement;
use crate::syntax_tree::LiteralExpression;
use crate::syntax_tree::NameExpression;
use crate::syntax_tree::ParenthesizedExpression;
use crate::syntax_tree::PrintStatement;
use crate::syntax_tree::stmt_view;
use crate::syntax_tree::stmts_view;
use crate::syntax_tree::Statement;
use crate::syntax_tree::StatementView;
use crate::syntax_tree::UnaryExpression;
use crate::syntax_tree::VarStatement;
use crate::syntax_tree::WhileStatement;
use crate::token::Token;
use crate::token::TokenKind;
use crate::token::TokenView;
use crate::types::Object;

verus! {

/// The token the parser sees at index `i`: past the end it sees a synthetic
/// end-of-input token.
pub open spec fn peek_at(toks: Seq<TokenView>, i: int) -> TokenView {
    if 0 <= i < toks.len() {
        toks[i]
    } else {
        TokenView { kind: TokenKind::Eof, lexeme: "EOF"@, position: Position { start: 0, end: 0 } }
    }
}

/// The numeric value of a decimal digit character, or zero for any other.
pub open spec fn digit_value(c: char) -> i32 {
    if is_digit_char(c) {
        (c as u32 - 48) as i32
    } else {
        0
    }
}

/// The value of a run of decimal digits folded onto `acc`, each step
/// multiplying by ten and adding the digit, wrapping on overflow.
pub open spec fn num_value_rec(digits: Seq<char>, acc: i32) -> i32
    decreases digits.len(),
{
    if digits.len() == 0 {
        acc
    } else {
        num_value_rec(
            digits.drop_first(),
            vstd::wrapping::i32_specs::wrapping_add(
                vstd::wrapping::i32_specs::wrapping_mul(acc, 10),
                digit_value(digits.first()),
            ),
        )
    }
}

/// The numeric value of a number literal's lexeme, wrapping on overflow.
pub open spec fn num_value(digits: Seq<char>) -> i32 {
    num_value_rec(digits, 0)
}

/// Reads the decimal value of a number literal's lexeme, wrapping on
/// overflow; a character that is no digit counts as zero.
pub fn parse_number_lexeme(s: &str) -> (v: i32)
    ensures
        v == num_value(s@),
    decreases s@.len(),
{
    let n = s.unicode_len();
    let mut v: i32 = 0;
    let mut i: usize = 0;
    proof {
        assert(s@.subrange(0, n as int) =~= s@);
    }
    while i < n
        invariant
            n == s@.len(),
            i <= n,
            num_value(s@) == num_value_rec(s@.subrange(i as int, n as int), v),
        decreases n - i,
    {
        let c = s.get_char(i);
        let code = c as u32;
        let d: i32 = if 48 <= code && code <= 57 {
            (code - 48) as i32
        } else {
            0
        };
        proof {
            assert(d == digit_value(s@[i as int]));
            assert(s@.subrange(i as int, n as int).first() == s@[i as int]);
            assert(s@.subrange(i as int, n as int).drop_first() =~= s@.subrange(
                i + 1,
                n as int,
            ));
        }
        v = v.wrapping_mul(10).wrapping_add(d);
        i = i + 1;
    }
    proof {
        assert(s@.subrange(n as int, n as int).len() == 0);
    }
    v
}


/// What consuming one expected token produces: the token (fabricated on a
/// mismatch), the cursor after it, and the diagnostics after it.
pub struct ParsedToken {
    pub token: TokenView,
    pub next: int,
    pub diags: Seq<DiagnosticView>,
}

/// What parsing one expression produces.
pub struct ParsedExpr {
    pub expr: ExpressionView,
    pub next: int,
    pub diags: Seq<DiagnosticView>,
}

/// What parsing one statement produces.
pub struct ParsedStmt {
    pub stmt: StatementView,
    pub next: int,
    pub diags: Seq<DiagnosticView>,
}

/// What parsing a statement list produces.
pub struct ParsedStmts {
    pub stmts: Seq<StatementView>,
    pub next: int,
    pub diags: Seq<DiagnosticView>,
}

/// `n` held to the range `[pos, len]`. The parser's cursor always stays in
/// that range, so these clamps change nothing on any real run; they make the
/// recursion of the parsing specification visibly well founded.
pub open spec fn clamp_at(len: int, pos: int, n: int) -> int {
    if n < pos {
        pos
    } else if n > len {
        len
    } else {
        n
    }
}

/// `n` held to the range `[pos + 1, len]`; meaningful when `pos < len`. The
/// parser consumes at least one token whenever one is there, so this clamp
/// changes nothing on any real run either.
pub open spec fn clamp_after(len: int, pos: int, n: int) -> int {
    if n < pos + 1 {
        pos + 1
    } else if n > len {
        len
    } else {
        n
    }
}

/// Consuming one expected token: on a match the token itself, on a mismatch
/// an "unexpected token" diagnostic and a fabricated placeholder of the
/// expected kind; either way the cursor moves past one token when one is
/// there.
pub open spec fn spec_match_token(
    toks: Seq<TokenView>,
    pos: int,
    kind: TokenKind,
    diags: Seq<DiagnosticView>,
) -> ParsedToken {
    let seen = peek_at(toks, pos);
    let next = if 0 <= pos < toks.len() {
        pos + 1
    } else {
        pos
    };
    if seen.kind == kind {
        ParsedToken { token: seen, next, diags }
    } else {
        ParsedToken {
            token: TokenView { kind, lexeme: "%GENERATED%"@, position: seen.position },
            next,
            diags: diags.push(
                DiagnosticView {
                    position: seen.position,
                    message: msg_unexpected_token(kind, seen.kind),
                },
            ),
        }
    }
}

/// The operators of each binary precedence level, loosest (6) to tightest
/// (1).
pub open spec fn is_level_op(level: int, kind: TokenKind) -> bool {
    if level == 6 {
        kind == TokenKind::PipePipe
    } else if level == 5 {
        kind == TokenKind::AmpersandAmpersand
    } else if level == 4 {
        kind == TokenKind::BangEqual || kind == TokenKind::EqualEqual
    } else if level == 3 {
        kind == TokenKind::Greater || kind == TokenKind::Lesser || kind == TokenKind::GreaterEqual
            || kind == TokenKind::LesserEqual
    } else if level == 2 {
        kind == TokenKind::Plus || kind == TokenKind::Minus
    } else if level == 1 {
        kind == TokenKind::Star || kind == TokenKind::Slash
    } else {
        false
    }
}

/// Parsing a primary expression: a parenthesized expression, a literal, or a
/// name; anything else is diagnosed as a missing identifier.
pub open spec fn spec_parse_primary(
    toks: Seq<TokenView>,
    pos: int,
    diags: Seq<DiagnosticView>,
) -> ParsedExpr
    decreases toks.len() - pos, 1int, 0int,
    when 0 <= pos <= toks.len()
{
    let t = peek_at(toks, pos);
    if t.kind == TokenKind::OpenParen {
        let e = spec_parse_expression(toks, pos + 1, diags);
        let m = spec_match_token(toks, e.next, TokenKind::CloseParen, e.diags);
        ParsedExpr {
            expr: ExpressionView::Parenthesized { expression: Box::new(e.expr) },
            next: m.next,
            diags: m.diags,
        }
    } else if t.kind == TokenKind::True || t.kind == TokenKind::False {
        ParsedExpr {
            expr: ExpressionView::Literal {
                value: crate::types::Value::Boolean(t.kind == TokenKind::True),
                position: t.position,
            },
            next: pos + 1,
            diags,
        }
    } else if t.kind == TokenKind::Number {
        ParsedExpr {
            expr: ExpressionView::Literal {
                value: crate::types::Value::Number(num_value(t.lexeme)),
                position: t.position,
            },
            next: pos + 1,
            diags,
        }
    } else if t.kind == TokenKind::String {
        ParsedExpr {
            expr: ExpressionView::Literal {
                value: crate::types::Value::Str(t.lexeme),
                position: t.position,
            },
            next: pos + 1,
            diags,
        }
    } else {
        let m = spec_match_token(toks, pos, TokenKind::Identifier, diags);
        ParsedExpr {
            expr: ExpressionView::Name { identifier: m.token },
            next: m.next,
            diags: m.diags,
        }
    }
}

/// Parsing a right-recursive chain of prefix operators.
pub open spec fn spec_parse_unary(
    toks: Seq<TokenView>,
    pos: int,
    diags: Seq<DiagnosticView>,
) -> ParsedExpr
    decreases toks.len() - pos, 2int, 0int,
    when 0 <= pos <= toks.len()
{
    let t = peek_at(toks, pos);
    if t.kind == TokenKind::Plus || t.kind == TokenKind::Minus || t.kind == TokenKind::Bang {
        let r = spec_parse_unary(toks, pos + 1, diags);
        ParsedExpr {
            expr: ExpressionView::Unary { operator: t, right: Box::new(r.expr) },
            next: r.next,
            diags: r.diags,
        }
    } else {
        spec_parse_primary(toks, pos, diags)
    }
}

/// Parsing one binary precedence level: the sub-level expression, then a
/// left-associative fold over this level's operators.
pub open spec fn spec_parse_binary(
    level: int,
    toks: Seq<TokenView>,
    pos: int,
    diags: Seq<DiagnosticView>,
) -> ParsedExpr
    decreases toks.len() - pos, 3int, 2 * level + 1,
    when 0 <= pos <= toks.len() && 0 <= level <= 6
{
    if level <= 0 {
        spec_parse_unary(toks, pos, diags)
    } else {
        let l = spec_parse_binary(level - 1, toks, pos, diags);
        spec_parse_binary_rest(level, toks, clamp_at(toks.len() as int, pos, l.next), l.expr, l.diags)
    }
}

/// The left-associative fold of one binary precedence level: while this
/// level's operator follows, consume it, parse a sub-level right operand,
/// and fold it onto the accumulated left tree.
pub open spec fn spec_parse_binary_rest(
    level: int,
    toks: Seq<TokenView>,
    pos: int,
    left: ExpressionView,
    diags: Seq<DiagnosticView>,
) -> ParsedExpr
    decreases toks.len() - pos, 3int, 2 * level,
    when 0 <= pos <= toks.len() && 1 <= level <= 6
{
    let t = peek_at(toks, pos);
    if is_level_op(level, t.kind) {
        let r = spec_parse_binary(level - 1, toks, pos + 1, diags);
        spec_parse_binary_rest(
            level,
            toks,
            clamp_after(toks.len() as int, pos, r.next),
            ExpressionView::Binary {
                left: Box::new(left),
                operator: t,
                right: Box::new(r.expr),
            },
            r.diags,
        )
    } else {
        ParsedExpr { expr: left, next: pos, diags }
    }
}

/// Parsing an assignment: `identifier = ...` only when the two-token
/// lookahead sees an identifier followed by a single equals; the right-hand
/// side parses by the same rule, so chains nest to the right. Anything else
/// is the loosest binary level.
pub open spec fn spec_parse_assignment(
    toks: Seq<TokenView>,
    pos: int,
    diags: Seq<DiagnosticView>,
) -> ParsedExpr
    decreases toks.len() - pos, 4int, 0int,
    when 0 <= pos <= toks.len()
{
    let t = peek_at(toks, pos);
    let after = peek_at(toks, pos + 1);
    if t.kind == TokenKind::Identifier && after.kind == TokenKind::Equal {
        let r = spec_parse_assignment(toks, pos + 2, diags);
        ParsedExpr {
            expr: ExpressionView::Assignment { identifier: t, expression: Box::new(r.expr) },
            next: r.next,
            diags: r.diags,
        }
    } else {
        spec_parse_binary(6, toks, pos, diags)
    }
}

/// Parsing one expression; assignment binds loosest.
pub open spec fn spec_parse_expression(
    toks: Seq<TokenView>,
    pos: int,
    diags: Seq<DiagnosticView>,
) -> ParsedExpr
    decreases toks.len() - pos, 5int, 0int,
    when 0 <= pos <= toks.len()
{
    spec_parse_assignment(toks, pos, diags)
}

/// Parsing `if condition statement`, with an optional `else` clause whose
/// `else if` re-parses as a nested if-statement.
pub open spec fn spec_parse_if(
    toks: Seq<TokenView>,
    pos: int,
    diags: Seq<DiagnosticView>,
) -> ParsedStmt
    decreases toks.len() - pos, 6int, 0int,
    when 0 <= pos < toks.len()
{
    let len = toks.len() as int;
    let m = spec_match_token(toks, pos, TokenKind::If, diags);
    let cond = spec_parse_expression(toks, m.next, m.diags);
    let c1 = clamp_after(len, pos, cond.next);
    let cons = spec_parse_statement(toks, c1, cond.diags);
    let e1 = clamp_after(len, pos, cons.next);
    let k1 = peek_at(toks, e1).kind;
    let k2 = peek_at(toks, e1 + 1).kind;
    if k1 == TokenKind::Else && k2 == TokenKind::If {
        let r = spec_parse_if(toks, e1 + 1, cons.diags);
        ParsedStmt {
            stmt: StatementView::If {
                condition: cond.expr,
                consequence: Box::new(cons.stmt),
                else_clause: Some(Box::new(r.stmt)),
            },
            next: r.next,
            diags: r.diags,
        }
    } else if k1 == TokenKind::Else {
        let r = spec_parse_statement(toks, e1 + 1, cons.diags);
        ParsedStmt {
            stmt: StatementView::If {
                condition: cond.expr,
                consequence: Box::new(cons.stmt),
                else_clause: Some(Box::new(r.stmt)),
            },
            next: r.next,
            diags: r.diags,
        }
    } else {
        ParsedStmt {
            stmt: StatementView::If {
                condition: cond.expr,
                consequence: Box::new(cons.stmt),
                else_clause: None,
            },
            next: e1,
            diags: cons.diags,
        }
    }
}

/// Parsing `{ statement* }`, a nested scope.
pub open spec fn spec_parse_block(
    toks: Seq<TokenView>,
    pos: int,
    diags: Seq<DiagnosticView>,
) -> ParsedStmt
    decreases toks.len() - pos, 6int, 0int,
    when 0 <= pos < toks.len()
{
    let len = toks.len() as int;
    let m = spec_match_token(toks, pos, TokenKind::OpenBrace, diags);
    let inner = spec_parse_statements(toks, clamp_after(len, pos, m.next), m.diags, true);
    let m2 = spec_match_token(toks, inner.next, TokenKind::CloseBrace, inner.diags);
    ParsedStmt {
        stmt: StatementView::Block { statements: inner.stmts },
        next: m2.next,
        diags: m2.diags,
    }
}

/// Parsing `var identifier = expression`, a declaration.
pub open spec fn spec_parse_var(
    toks: Seq<TokenView>,
    pos: int,
    diags: Seq<DiagnosticView>,
) -> ParsedStmt
    decreases toks.len() - pos, 6int, 0int,
    when 0 <= pos < toks.len()
{
    let len = toks.len() as int;
    let m1 = spec_match_token(toks, pos, TokenKind::Var, diags);
    let m2 = spec_match_token(toks, m1.next, TokenKind::Identifier, m1.diags);
    let m3 = spec_match_token(toks, m2.next, TokenKind::Equal, m2.diags);
    let e = spec_parse_expression(toks, clamp_at(len, pos, m3.next), m3.diags);
    ParsedStmt {
        stmt: StatementView::Var { identifier: m2.token, expression: e.expr },
        next: e.next,
        diags: e.diags,
    }
}

/// Parsing `print expression`.
pub open spec fn spec_parse_print(
    toks: Seq<TokenView>,
    pos: int,
    diags: Seq<DiagnosticView>,
) -> ParsedStmt
    decreases toks.len() - pos, 6int, 0int,
    when 0 <= pos < toks.len()
{
    let m = spec_match_token(toks, pos, TokenKind::Print, diags);
    let e = spec_parse_expression(toks, m.next, m.diags);
    ParsedStmt {
        stmt: StatementView::Print { expression: e.expr },
        next: e.next,
        diags: e.diags,
    }
}

/// Parsing `while condition statement`.
pub open spec fn spec_parse_while(
    toks: Seq<TokenView>,
    pos: int,
    diags: Seq<DiagnosticView>,
) -> ParsedStmt
    decreases toks.len() - pos, 6int, 0int,
    when 0 <= pos < toks.len()
{
    let len = toks.len() as int;
    let m = spec_match_token(toks, pos, TokenKind::While, diags);
    let cond = spec_parse_expression(toks, m.next, m.diags);
    let body = spec_parse_statement(toks, clamp_after(len, pos, cond.next), cond.diags);
    ParsedStmt {
        stmt: StatementView::While { condition: cond.expr, body: Box::new(body.stmt) },
        next: body.next,
        diags: body.diags,
    }
}

/// Parsing `for identifier = lower, upper statement`.
pub open spec fn spec_parse_for(
    toks: Seq<TokenView>,
    pos: int,
    diags: Seq<DiagnosticView>,
) -> ParsedStmt
    decreases toks.len() - pos, 6int, 0int,
    when 0 <= pos < toks.len()
{
    let len = toks.len() as int;
    let m1 = spec_match_token(toks, pos, TokenKind::For, diags);
    let m2 = spec_match_token(toks, m1.next, TokenKind::Identifier, m1.diags);
    let m3 = spec_match_token(toks, m2.next, TokenKind::Equal, m2.diags);
    let lower = spec_parse_expression(toks, clamp_at(len, pos, m3.next), m3.diags);
    let c = spec_match_token(toks, lower.next, TokenKind::Comma, lower.diags);
    let upper = spec_parse_expression(toks, clamp_at(len, pos, c.next), c.diags);
    let body = spec_parse_statement(toks, clamp_after(len, pos, upper.next), upper.diags);
    ParsedStmt {
        stmt: StatementView::For {
            identifier: m2.token,
            lower_bound: lower.expr,
            upper_bound: upper.expr,
            body: Box::new(body.stmt),
        },
        next: body.next,
        diags: body.diags,
    }
}

/// Parsing one statement, dispatching on the leading token.
pub open spec fn spec_parse_statement(
    toks: Seq<TokenView>,
    pos: int,
    diags: Seq<DiagnosticView>,
) -> ParsedStmt
    decreases toks.len() - pos, 7int, 0int,
    when 0 <= pos <= toks.len()
{
    let k = peek_at(toks, pos).kind;
    if k == TokenKind::If {
        spec_parse_if(toks, pos, diags)
    } else if k == TokenKind::OpenBrace {
        spec_parse_block(toks, pos, diags)
    } else if k == TokenKind::Var {
        spec_parse_var(toks, pos, diags)
    } else if k == TokenKind::Print {
        spec_parse_print(toks, pos, diags)
    } else if k == TokenKind::While {
        spec_parse_while(toks, pos, diags)
    } else if k == TokenKind::For {
        spec_parse_for(toks, pos, diags)
    } else {
        let e = spec_parse_expression(toks, pos, diags);
        ParsedStmt {
            stmt: StatementView::Expression { expression: e.expr },
            next: e.next,
            diags: e.diags,
        }
    }
}

/// Parsing statements until the end of input — or, inside a block, until a
/// closing brace.
pub open spec fn spec_parse_statements(
    toks: Seq<TokenView>,
    pos: int,
    diags: Seq<DiagnosticView>,
    in_block: bool,
) -> ParsedStmts
    decreases toks.len() - pos, 8int, 0int,
    when 0 <= pos <= toks.len()
{
    let k = peek_at(toks, pos).kind;
    if k == TokenKind::Eof || (in_block && k == TokenKind::CloseBrace) {
        ParsedStmts { stmts: Seq::empty(), next: pos, diags }
    } else {
        let st = spec_parse_statement(toks, pos, diags);
        let rest = spec_parse_statements(
            toks,
            clamp_after(toks.len() as int, pos, st.next),
            st.diags,
            in_block,
        );
        ParsedStmts { stmts: seq![st.stmt] + rest.stmts, next: rest.next, diags: rest.diags }
    }
}

/// Parsing a whole token stream: statements until the end of input, then the
/// end-of-input token itself.
pub open spec fn spec_parse_program(
    toks: Seq<TokenView>,
    pos: int,
    diags: Seq<DiagnosticView>,
) -> ParsedStmts
    decreases toks.len() - pos, 9int, 0int,
    when 0 <= pos <= toks.len()
{
    let body = spec_parse_statements(toks, pos, diags, false);
    let m = spec_match_token(toks, body.next, TokenKind::Eof, body.diags);
    ParsedStmts { stmts: body.stmts, next: m.next, diags: m.diags }
}



/// Statement-list parsing only ever stops on an end-of-input token — or,
/// inside a block, on a closing brace — and never leaves the stream.
pub proof fn lemma_parse_statements_stop(
    toks: Seq<TokenView>,
    pos: int,
    diags: Seq<DiagnosticView>,
    in_block: bool,
)
    requires
        0 <= pos <= toks.len(),
    ensures
        ({
            let r = spec_parse_statements(toks, pos, diags, in_block);
            &&& 0 <= r.next <= toks.len()
            &&& (peek_at(toks, r.next).kind == TokenKind::Eof || (in_block && peek_at(
                toks,
                r.next,
            ).kind == TokenKind::CloseBrace))
        }),
    decreases toks.len() - pos,
{
    let k = peek_at(toks, pos).kind;
    if !(k == TokenKind::Eof || (in_block && k == TokenKind::CloseBrace)) {
        let st = spec_parse_statement(toks, pos, diags);
        lemma_parse_statements_stop(
            toks,
            clamp_after(toks.len() as int, pos, st.next),
            st.diags,
            in_block,
        );
    }
}

/// Parsing a whole stream runs to its terminating end-of-input token and
/// consumes it: nothing before that token is left unparsed.
pub proof fn lemma_parse_program_consumes_all(
    toks: Seq<TokenView>,
    pos: int,
    diags: Seq<DiagnosticView>,
)
    requires
        0 <= pos <= toks.len(),
    ensures
        ({
            let body = spec_parse_statements(toks, pos, diags, false);
            &&& peek_at(toks, body.next).kind == TokenKind::Eof
            &&& spec_parse_program(toks, pos, diags).next == if body.next < toks.len() {
                body.next + 1
            } else {
                body.next
            }
        }),
{
    lemma_parse_statements_stop(toks, pos, diags, false);
}

/// Being a prefix is transitive.
proof fn lemma_prefix_trans(a: Seq<DiagnosticView>, b: Seq<DiagnosticView>, c: Seq<DiagnosticView>)
    requires
        a.is_prefix_of(b),
        b.is_prefix_of(c),
    ensures
        a.is_prefix_of(c),
{
    assert forall|j: int| 0 <= j < a.len() implies c.subrange(0, a.len() as int)[j] == a[j] by {
        assert(a[j] == b.subrange(0, a.len() as int)[j]);
        assert(b.subrange(0, a.len() as int)[j] == b[j]);
        assert(b[j] == c.subrange(0, b.len() as int)[j]);
        assert(c.subrange(0, b.len() as int)[j] == c[j]);
        assert(c.subrange(0, a.len() as int)[j] == c[j]);
    }
    assert(a =~= c.subrange(0, a.len() as int));
}

/// The recursive-descent parser over a token stream.
#[derive(Debug)]
pub struct Parser {
    tokens: Vec<Token>,
    current: usize,
    pub diagnostic_bag: DiagnosticBag,
}

impl Parser {
    /// The models of the tokens being parsed.
    pub closed spec fn toks(&self) -> Seq<TokenView> {
        tokens_view(self.tokens@)
    }

    /// The cursor: how many tokens are consumed.
    pub closed spec fn pos(&self) -> int {
        self.current as int
    }

    /// The diagnostics reported so far.
    pub closed spec fn bag(&self) -> Seq<DiagnosticView> {
        self.diagnostic_bag@
    }

    /// The cursor stays within the stream, which leaves room to look one
    /// token ahead.
    pub closed spec fn wf(&self) -> bool {
        self.current <= self.tokens@.len() && self.tokens@.len() < usize::MAX
    }

    /// A parser at the start of the token stream, reporting into
    /// `diagnostic_bag`.
    pub fn new(tokens: Vec<Token>, diagnostic_bag: DiagnosticBag) -> (r: Parser)
        requires
            tokens@.len() < usize::MAX,
        ensures
            r.wf(),
            r.toks() == tokens_view(tokens@),
            r.pos() == 0,
            r.bag() == diagnostic_bag@,
    {
        Parser { tokens, current: 0, diagnostic_bag }
    }

    /// Hands the diagnostics over to the next stage.
    pub fn take_diagnostics(self) -> (bag: DiagnosticBag)
        ensures
            bag@ == self.bag(),
    {
        self.diagnostic_bag
    }

    /// The token `offset` places past the cursor, or a synthetic end-of-input
    /// token beyond the end.
    fn peek(&self, offset: usize) -> (t: Token)
        requires
            self.wf(),
            offset <= 1,
        ensures
            t@ == peek_at(self.toks(), self.pos() + offset),
    {
        let index = offset + self.current;
        if index < self.tokens.len() {
            self.tokens[index].duplicate()
        } else {
            Token::new(TokenKind::Eof, String::from_str("EOF"), Position::new(0, 0))
        }
    }

    /// Moves the cursor one token forward; at the end of the stream it stays.
    fn advance(&mut self)
        requires
            old(self).wf(),
        ensures
            final(self).wf(),
            final(self).toks() == old(self).toks(),
            final(self).bag() == old(self).bag(),
            final(self).pos() == if old(self).pos() < old(self).toks().len() {
                old(self).pos() + 1
            } else {
                old(self).pos()
            },
    {
        if self.current < self.tokens.len() {
            self.current = self.current + 1;
        }
    }

    /// Consumes and returns the token at the cursor.
    fn next_token(&mut self) -> (t: Token)
        requires
            old(self).wf(),
        ensures
            final(self).wf(),
            final(self).toks() == old(self).toks(),
            final(self).bag() == old(self).bag(),
            t@ == peek_at(old(self).toks(), old(self).pos()),
            final(self).pos() == if old(self).pos() < old(self).toks().len() {
                old(self).pos() + 1
            } else {
                old(self).pos()
            },
    {
        let token = self.peek(0);
        self.advance();
        token
    }

    /// Consumes the expected token, or reports an "unexpected token"
    /// diagnostic, fabricates a placeholder of the expected kind and moves
    /// past the offending token.
    fn match_token(&mut self, kind: TokenKind) -> (t: Token)
        requires
            old(self).wf(),
        ensures
            final(self).wf(),
            final(self).toks() == old(self).toks(),
            final(self).pos() == if old(self).pos() < old(self).toks().len() {
                old(self).pos() + 1
            } else {
                old(self).pos()
            },
            t@.kind == kind,
            ({
                let seen = peek_at(old(self).toks(), old(self).pos());
                if seen.kind == kind {
                    t@ == seen && final(self).bag() == old(self).bag()
                } else {
                    t@.lexeme == "%GENERATED%"@ && t@.position == seen.position
                        && final(self).bag() == old(self).bag().push(
                        DiagnosticView {
                            position: seen.position,
                            message: msg_unexpected_token(kind, seen.kind),
                        },
                    )
                }
            }),
    {
        let token = self.peek(0);
        if kind == token.kind {
            self.next_token()
        } else {
            self.diagnostic_bag.unexpected_token(token.position, kind, token.kind);
            let generated = Token::new(kind, String::from_str("%GENERATED%"), self.peek(0).position);
            self.advance();
            generated
        }
    }

    /// Parses the whole stream into a statement list, consuming the trailing
    /// end-of-input token.
    #[verifier::loop_isolation(false)]
    pub fn parse(&mut self) -> (statements: Vec<Statement>)
        requires
            old(self).wf(),
        ensures
            final(self).wf(),
            final(self).toks() == old(self).toks(),
            old(self).pos() <= final(self).pos() <= final(self).toks().len(),
            old(self).bag().is_prefix_of(final(self).bag()),
            ({
                let r = spec_parse_program(old(self).toks(), old(self).pos(), old(self).bag());
                stmts_view(statements@) == r.stmts && final(self).pos() == r.next && final(self).bag()
                    == r.diags
            }),
    {
        let ghost toks = self.toks();
        let ghost pos0 = self.pos();
        let ghost d0 = self.bag();
        let statements = self.parse_statement_list(false);
        self.match_token(TokenKind::Eof);
        proof {
            let body = spec_parse_statements(toks, pos0, d0, false);
            let m = spec_match_token(toks, body.next, TokenKind::Eof, body.diags);
            assert(self.pos() == m.next && self.bag() == m.diags);
        }
        statements
    }

    /// Parses statements until the end of input — or, inside a block, until
    /// a closing brace.
    #[verifier::loop_isolation(false)]
    fn parse_statement_list(&mut self, in_block: bool) -> (statements: Vec<Statement>)
        requires
            old(self).wf(),
        ensures
            final(self).wf(),
            final(self).toks() == old(self).toks(),
            old(self).pos() <= final(self).pos() <= final(self).toks().len(),
            old(self).bag().is_prefix_of(final(self).bag()),
            ({
                let r = spec_parse_statements(
                    old(self).toks(),
                    old(self).pos(),
                    old(self).bag(),
                    in_block,
                );
                stmts_view(statements@) == r.stmts && final(self).pos() == r.next && final(self).bag()
                    == r.diags
            }),
        decreases self.toks().len() - self.pos(), 13int,
    {
        let ghost toks = self.toks();
        let ghost len = self.toks().len() as int;
        let ghost pos0 = self.pos();
        let ghost d0 = self.bag();
        let ghost target = spec_parse_statements(toks, pos0, d0, in_block);
        let mut statements: Vec<Statement> = Vec::new();
        proof {
            crate::syntax_tree::lemma_stmts_view(statements@);
        }
        while self.peek(0).kind != TokenKind::Eof && !(in_block && self.peek(0).kind
            == TokenKind::CloseBrace)
            invariant
                self.wf(),
                self.toks() == toks,
                len == toks.len(),
                pos0 <= self.pos() <= len,
                d0.is_prefix_of(self.bag()),
                ({
                    let rest = spec_parse_statements(toks, self.pos(), self.bag(), in_block);
                    target.stmts == stmts_view(statements@) + rest.stmts && target.next
                        == rest.next && target.diags == rest.diags
                }),
            decreases self.toks().len() - self.pos(),
        {
            let ghost p = self.pos();
            let ghost dl = self.bag();
            proof {
                assert(peek_at(toks, p).kind != TokenKind::Eof);
                assert(p < len);
            }
            let statement = self.parse_statement();
            let ghost collected = statements@;
            statements.push(statement);
            proof {
                let st = spec_parse_statement(toks, p, dl);
                assert(clamp_after(len, p, st.next) == st.next);
                let rest = spec_parse_statements(toks, st.next, st.diags, in_block);
                assert(spec_parse_statements(toks, p, dl, in_block).stmts == seq![st.stmt]
                    + rest.stmts);
                crate::syntax_tree::lemma_stmts_view(statements@);
                crate::syntax_tree::lemma_stmts_view(collected);
                assert(statements@ == collected.push(statements@.last()));
                assert(stmt_view(statements@.last()) == st.stmt);
                assert(stmts_view(statements@) =~= stmts_view(collected) + seq![st.stmt]) by {
                    assert(stmts_view(statements@).len() == statements@.len());
                    assert forall|j: int| 0 <= j < statements@.len() implies #[trigger] stmts_view(
                        statements@,
                    )[j] == (stmts_view(collected) + seq![st.stmt])[j] by {
                        if j < collected.len() {
                            assert(statements@[j] == collected[j]);
                            assert(stmts_view(statements@)[j] == stmt_view(statements@[j]));
                            assert(stmts_view(collected)[j] == stmt_view(collected[j]));
                        } else {
                            assert(statements@[j] == statements@.last());
                            assert(stmts_view(statements@)[j] == stmt_view(statements@[j]));
                        }
                    }
                }
                assert(target.stmts =~= (stmts_view(collected) + seq![st.stmt]) + rest.stmts);
                assert(target.stmts =~= stmts_view(statements@) + rest.stmts);
            }
        }
        proof {
            let rest = spec_parse_statements(toks, self.pos(), self.bag(), in_block);
            assert(rest.stmts =~= Seq::<StatementView>::empty());
            assert(target.stmts =~= stmts_view(statements@) + Seq::<StatementView>::empty());
            assert(target.stmts =~= stmts_view(statements@));
        }
        statements
    }

    /// Parses one statement, dispatching on the leading token.
    fn parse_statement(&mut self) -> (statement: Statement)
        requires
            old(self).wf(),
        ensures
            final(self).wf(),
            final(self).toks() == old(self).toks(),
            old(self).pos() <= final(self).pos() <= final(self).toks().len(),
            old(self).pos() < old(self).toks().len() ==> final(self).pos() > old(self).pos(),
            old(self).bag().is_prefix_of(final(self).bag()),
            ({
                let r = spec_parse_statement(old(self).toks(), old(self).pos(), old(self).bag());
                statement@ == r.stmt && final(self).pos() == r.next && final(self).bag() == r.diags
            }),
        decreases self.toks().len() - self.pos(), 12int,
    {
        let kind = self.peek(0).kind;
        if kind == TokenKind::If {
            self.parse_if_statement()
        } else if kind == TokenKind::OpenBrace {
            self.parse_block_statement()
        } else if kind == TokenKind::Var {
            self.parse_var_statement()
        } else if kind == TokenKind::Print {
            self.parse_print_statment()
        } else if kind == TokenKind::While {
            self.parse_while_statement()
        } else if kind == TokenKind::For {
            self.parse_for_statement()
        } else {
            Statement::Expression(ExpressionStatement { expression: self.parse_expression() })
        }
    }

    /// Parses `if condition statement`, with an optional `else` clause whose
    /// `else if` re-parses as a nested if-statement.
    #[verifier::rlimit(100)]
    fn parse_if_statement(&mut self) -> (statement: Statement)
        requires
            old(self).wf(),
            peek_at(old(self).toks(), old(self).pos()).kind == TokenKind::If,
        ensures
            final(self).wf(),
            final(self).toks() == old(self).toks(),
            old(self).pos() <= final(self).pos() <= final(self).toks().len(),
            old(self).pos() < old(self).toks().len() ==> final(self).pos() > old(self).pos(),
            old(self).bag().is_prefix_of(final(self).bag()),
            ({
                let r = spec_parse_if(old(self).toks(), old(self).pos(), old(self).bag());
                statement@ == r.stmt && final(self).pos() == r.next && final(self).bag() == r.diags
            }),
        decreases self.toks().len() - self.pos(), 11int,
    {
        let ghost toks = self.toks();
        let ghost len = self.toks().len() as int;
        let ghost pos0 = self.pos();
        let ghost d0 = self.bag();
        self.match_token(TokenKind::If);
        let condition = self.parse_expression();
        proof {
            let m = spec_match_token(toks, pos0, TokenKind::If, d0);
            let cond = spec_parse_expression(toks, m.next, m.diags);
            assert(clamp_after(len, pos0, cond.next) == cond.next);
        }
        let consequence = self.parse_statement();
        proof {
            let m = spec_match_token(toks, pos0, TokenKind::If, d0);
            let cond = spec_parse_expression(toks, m.next, m.diags);
            let cons = spec_parse_statement(toks, cond.next, cond.diags);
            assert(clamp_after(len, pos0, cons.next) == cons.next);
            assert(d0.is_prefix_of(self.bag()));
        }
        let ghost d_mid = self.bag();
        let else_kind = self.peek(0).kind;
        let after_else_kind = self.peek(1).kind;
        let else_clause = if else_kind == TokenKind::Else && after_else_kind == TokenKind::If {
            self.advance();
            Some(self.parse_if_statement())
        } else if else_kind == TokenKind::Else {
            self.advance();
            Some(self.parse_statement())
        } else {
            None
        };
        proof {
            lemma_prefix_trans(d0, d_mid, self.bag());
        }
        Statement::If(IfStatement::new(condition, consequence, else_clause))
    }

    /// Parses `{ statement* }`, a nested scope.
    #[verifier::rlimit(100)]
    fn parse_block_statement(&mut self) -> (statement: Statement)
        requires
            old(self).wf(),
            peek_at(old(self).toks(), old(self).pos()).kind == TokenKind::OpenBrace,
        ensures
            final(self).wf(),
            final(self).toks() == old(self).toks(),
            old(self).pos() <= final(self).pos() <= final(self).toks().len(),
            old(self).pos() < old(self).toks().len() ==> final(self).pos() > old(self).pos(),
            old(self).bag().is_prefix_of(final(self).bag()),
            ({
                let r = spec_parse_block(old(self).toks(), old(self).pos(), old(self).bag());
                statement@ == r.stmt && final(self).pos() == r.next && final(self).bag() == r.diags
            }),
        decreases self.toks().len() - self.pos(), 11int,
    {
        let ghost toks = self.toks();
        let ghost len = self.toks().len() as int;
        let ghost pos0 = self.pos();
        let ghost d0 = self.bag();
        self.match_token(TokenKind::OpenBrace);
        proof {
            let m = spec_match_token(toks, pos0, TokenKind::OpenBrace, d0);
            assert(clamp_after(len, pos0, m.next) == m.next);
        }
        let statements = self.parse_statement_list(true);
        self.match_token(TokenKind::CloseBrace);
        proof {
            let m = spec_match_token(toks, pos0, TokenKind::OpenBrace, d0);
            let inner = spec_parse_statements(toks, m.next, m.diags, true);
            let m2 = spec_match_token(toks, inner.next, TokenKind::CloseBrace, inner.diags);
            assert(self.pos() == m2.next && self.bag() == m2.diags);
        }
        Statement::Block(BlockStatement::new(statements))
    }

    /// Parses `var identifier = expression`, a declaration.
    #[verifier::rlimit(100)]
    fn parse_var_statement(&mut self) -> (statement: Statement)
        requires
            old(self).wf(),
            peek_at(old(self).toks(), old(self).pos()).kind == TokenKind::Var,
        ensures
            final(self).wf(),
            final(self).toks() == old(self).toks(),
            old(self).pos() <= final(self).pos() <= final(self).toks().len(),
            old(self).pos() < old(self).toks().len() ==> final(self).pos() > old(self).pos(),
            old(self).bag().is_prefix_of(final(self).bag()),
            ({
                let r = spec_parse_var(old(self).toks(), old(self).pos(), old(self).bag());
                statement@ == r.stmt && final(self).pos() == r.next && final(self).bag() == r.diags
            }),
        decreases self.toks().len() - self.pos(), 11int,
    {
        let ghost toks = self.toks();
        let ghost len = self.toks().len() as int;
        let ghost pos0 = self.pos();
        let ghost d0 = self.bag();
        self.match_token(TokenKind::Var);
        let identifier = self.match_token(TokenKind::Identifier);
        self.match_token(TokenKind::Equal);
        proof {
            let m1 = spec_match_token(toks, pos0, TokenKind::Var, d0);
            let m2 = spec_match_token(toks, m1.next, TokenKind::Identifier, m1.diags);
            let m3 = spec_match_token(toks, m2.next, TokenKind::Equal, m2.diags);
            assert(identifier@ == m2.token);
            assert(clamp_at(len, pos0, m3.next) == m3.next);
        }
        let expression = self.parse_expression();
        Statement::Var(VarStatement::new(identifier, expression))
    }

    /// Parses `print expression`.
    fn parse_print_statment(&mut self) -> (statement: Statement)
        requires
            old(self).wf(),
            peek_at(old(self).toks(), old(self).pos()).kind == TokenKind::Print,
        ensures
            final(self).wf(),
            final(self).toks() == old(self).toks(),
            old(self).pos() <= final(self).pos() <= final(self).toks().len(),
            old(self).pos() < old(self).toks().len() ==> final(self).pos() > old(self).pos(),
            old(self).bag().is_prefix_of(final(self).bag()),
            ({
                let r = spec_parse_print(old(self).toks(), old(self).pos(), old(self).bag());
                statement@ == r.stmt && final(self).pos() == r.next && final(self).bag() == r.diags
            }),
        decreases self.toks().len() - self.pos(), 11int,
    {
        self.match_token(TokenKind::Print);
        Statement::Print(PrintStatement::new(self.parse_expression()))
    }

    /// Parses `while condition statement`.
    #[verifier::rlimit(100)]
    fn parse_while_statement(&mut self) -> (statement: Statement)
        requires
            old(self).wf(),
            peek_at(old(self).toks(), old(self).pos()).kind == TokenKind::While,
        ensures
            final(self).wf(),
            final(self).toks() == old(self).toks(),
            old(self).pos() <= final(self).pos() <= final(self).toks().len(),
            old(self).pos() < old(self).toks().len() ==> final(self).pos() > old(self).pos(),
            old(self).bag().is_prefix_of(final(self).bag()),
            ({
                let r = spec_parse_while(old(self).toks(), old(self).pos(), old(self).bag());
                statement@ == r.stmt && final(self).pos() == r.next && final(self).bag() == r.diags
            }),
        decreases self.toks().len() - self.pos(), 11int,
    {
        let ghost toks = self.toks();
        let ghost len = self.toks().len() as int;
        let ghost pos0 = self.pos();
        let ghost d0 = self.bag();
        self.match_token(TokenKind::While);
        let condition = self.parse_expression();
        proof {
            let m = spec_match_token(toks, pos0, TokenKind::While, d0);
            let cond = spec_parse_expression(toks, m.next, m.diags);
            assert(clamp_after(len, pos0, cond.next) == cond.next);
        }
        let body = self.parse_statement();
        Statement::While(WhileStatement::new(condition, body))
    }

    /// Parses `for identifier = lower, upper statement`, the upper bound
    /// exclusive.
    #[verifier::rlimit(100)]
    fn parse_for_statement(&mut self) -> (statement: Statement)
        requires
            old(self).wf(),
            peek_at(old(self).toks(), old(self).pos()).kind == TokenKind::For,
        ensures
            final(self).wf(),
            final(self).toks() == old(self).toks(),
            old(self).pos() <= final(self).pos() <= final(self).toks().len(),
            old(self).pos() < old(self).toks().len() ==> final(self).pos() > old(self).pos(),
            old(self).bag().is_prefix_of(final(self).bag()),
            ({
                let r = spec_parse_for(old(self).toks(), old(self).pos(), old(self).bag());
                statement@ == r.stmt && final(self).pos() == r.next && final(self).bag() == r.diags
            }),
        decreases self.toks().len() - self.pos(), 11int,
    {
        let ghost toks = self.toks();
        let ghost len = self.toks().len() as int;
        let ghost pos0 = self.pos();
        let ghost d0 = self.bag();
        self.match_token(TokenKind::For);
        let identifier = self.match_token(TokenKind::Identifier);
        self.match_token(TokenKind::Equal);
        proof {
            let m1 = spec_match_token(toks, pos0, TokenKind::For, d0);
            let m2 = spec_match_token(toks, m1.next, TokenKind::Identifier, m1.diags);
            let m3 = spec_match_token(toks, m2.next, TokenKind::Equal, m2.diags);
            assert(identifier@ == m2.token);
            assert(self.pos() == m3.next && self.bag() == m3.diags);
            assert(clamp_at(len, pos0, m3.next) == m3.next);
        }
        let ghost d_decl = self.bag();
        let ghost p_decl = self.pos();
        let lower_bound = self.parse_expression();
        self.match_token(TokenKind::Comma);
        proof {
            let lower = spec_parse_expression(toks, p_decl, d_decl);
            let c = spec_match_token(toks, lower.next, TokenKind::Comma, lower.diags);
            assert(self.pos() == c.next && self.bag() == c.diags);
            assert(clamp_at(len, pos0, c.next) == c.next);
            lemma_prefix_trans(d0, d_decl, self.bag());
        }
        let ghost d_mid = self.bag();
        let ghost p_mid = self.pos();
        let upper_bound = self.parse_expression();
        proof {
            let upper = spec_parse_expression(toks, p_mid, d_mid);
            assert(self.pos() == upper.next && self.bag() == upper.diags);
            assert(clamp_after(len, pos0, upper.next) == upper.next);
            lemma_prefix_trans(d0, d_mid, self.bag());
        }
        let ghost d_late = self.bag();
        let body = self.parse_statement();
        proof {
            lemma_prefix_trans(d0, d_late, self.bag());
        }
        Statement::For(ForStatement::new(identifier, lower_bound, upper_bound, body))
    }

    /// Parses one expression; assignment binds loosest.
    fn parse_expression(&mut self) -> (expression: Expression)
        requires
            old(self).wf(),
        ensures
            final(self).wf(),
            final(self).toks() == old(self).toks(),
            old(self).pos() <= final(self).pos() <= final(self).toks().len(),
            old(self).pos() < old(self).toks().len() ==> final(self).pos() > old(self).pos(),
            old(self).bag().is_prefix_of(final(self).bag()),
            ({
                let r = spec_parse_expression(old(self).toks(), old(self).pos(), old(self).bag());
                expression@ == r.expr && final(self).pos() == r.next && final(self).bag() == r.diags
            }),
        decreases self.toks().len() - self.pos(), 10int,
    {
        self.parse_assignment_expression()
    }

    /// Parses right-associative assignment: `identifier = ...` only when the
    /// two-token lookahead sees an identifier followed by a single equals.
    fn parse_assignment_expression(&mut self) -> (expression: Expression)
        requires
            old(self).wf(),
        ensures
            final(self).wf(),
            final(self).toks() == old(self).toks(),
            old(self).pos() <= final(self).pos() <= final(self).toks().len(),
            old(self).pos() < old(self).toks().len() ==> final(self).pos() > old(self).pos(),
            old(self).bag().is_prefix_of(final(self).bag()),
            ({
                let r = spec_parse_assignment(old(self).toks(), old(self).pos(), old(self).bag());
                expression@ == r.expr && final(self).pos() == r.next && final(self).bag() == r.diags
            }),
        decreases self.toks().len() - self.pos(), 9int,
    {
        let ghost toks = self.toks();
        let ghost pos0 = self.pos();
        let ghost d0 = self.bag();
        if self.peek(0).kind == TokenKind::Identifier && self.peek(1).kind == TokenKind::Equal {
            let identifier = self.match_token(TokenKind::Identifier);
            self.match_token(TokenKind::Equal);
            proof {
                assert(peek_at(toks, pos0).kind == TokenKind::Identifier);
                assert(peek_at(toks, pos0 + 1).kind == TokenKind::Equal);
                assert(self.pos() == pos0 + 2);
                assert(self.bag() == d0);
                assert(identifier@ == peek_at(toks, pos0));
            }
            let expression = self.parse_assignment_expression();
            Expression::Assignment(AssignmentExpression::new(identifier, expression))
        } else {
            self.parse_or_expression()
        }
    }

    /// Parses a left-associative chain of `||`.
    #[verifier::loop_isolation(false)]
    fn parse_or_expression(&mut self) -> (expression: Expression)
        requires
            old(self).wf(),
        ensures
            final(self).wf(),
            final(self).toks() == old(self).toks(),
            old(self).pos() <= final(self).pos() <= final(self).toks().len(),
            old(self).pos() < old(self).toks().len() ==> final(self).pos() > old(self).pos(),
            old(self).bag().is_prefix_of(final(self).bag()),
            ({
                let r = spec_parse_binary(6, old(self).toks(), old(self).pos(), old(self).bag());
                expression@ == r.expr && final(self).pos() == r.next && final(self).bag() == r.diags
            }),
        decreases self.toks().len() - self.pos(), 8int,
    {
        let ghost toks = self.toks();
        let ghost len = self.toks().len() as int;
        let ghost pos0 = self.pos();
        let ghost d0 = self.bag();
        let ghost target = spec_parse_binary(6, toks, pos0, d0);
        let mut left = self.parse_and_expression();
        proof {
            let l = spec_parse_binary(5, toks, pos0, d0);
            assert(clamp_at(len, pos0, l.next) == l.next);
            assert(target == spec_parse_binary_rest(6, toks, l.next, l.expr, l.diags));
        }
        while self.peek(0).kind == TokenKind::PipePipe
            invariant
                self.wf(),
                self.toks() == toks,
                len == toks.len(),
                pos0 <= self.pos() <= len,
                pos0 < len ==> self.pos() > pos0,
                d0.is_prefix_of(self.bag()),
                target == spec_parse_binary_rest(6, toks, self.pos(), expr_view(left), self.bag()),
            decreases self.toks().len() - self.pos(),
        {
            let ghost p = self.pos();
            let ghost dl = self.bag();
            let ghost lv = expr_view(left);
            let operator = self.next_token();
            proof {
                assert(is_level_op(6, peek_at(toks, p).kind));
                assert(p < len);
            }
            let right = self.parse_and_expression();
            proof {
                let r = spec_parse_binary(5, toks, p + 1, dl);
                assert(clamp_after(len, p, r.next) == r.next);
                assert(spec_parse_binary_rest(6, toks, p, lv, dl) == spec_parse_binary_rest(
                    6,
                    toks,
                    r.next,
                    ExpressionView::Binary {
                        left: Box::new(lv),
                        operator: peek_at(toks, p),
                        right: Box::new(r.expr),
                    },
                    r.diags,
                ));
            }
            left = Expression::Binary(BinaryExpression::new(left, operator, right));
        }
        proof {
            assert(!is_level_op(6, peek_at(toks, self.pos()).kind));
            assert(target == (ParsedExpr {
                expr: expr_view(left),
                next: self.pos(),
                diags: self.bag(),
            }));
        }
        left
    }

    /// Parses a left-associative chain of `&&`.
    #[verifier::loop_isolation(false)]
    fn parse_and_expression(&mut self) -> (expression: Expression)
        requires
            old(self).wf(),
        ensures
            final(self).wf(),
            final(self).toks() == old(self).toks(),
            old(self).pos() <= final(self).pos() <= final(self).toks().len(),
            old(self).pos() < old(self).toks().len() ==> final(self).pos() > old(self).pos(),
            old(self).bag().is_prefix_of(final(self).bag()),
            ({
                let r = spec_parse_binary(5, old(self).toks(), old(self).pos(), old(self).bag());
                expression@ == r.expr && final(self).pos() == r.next && final(self).bag() == r.diags
            }),
        decreases self.toks().len() - self.pos(), 7int,
    {
        let ghost toks = self.toks();
        let ghost len = self.toks().len() as int;
        let ghost pos0 = self.pos();
        let ghost d0 = self.bag();
        let ghost target = spec_parse_binary(5, toks, pos0, d0);
        let mut left = self.parse_equality_expression();
        proof {
            let l = spec_parse_binary(4, toks, pos0, d0);
            assert(clamp_at(len, pos0, l.next) == l.next);
            assert(target == spec_parse_binary_rest(5, toks, l.next, l.expr, l.diags));
        }
        while self.peek(0).kind == TokenKind::AmpersandAmpersand
            invariant
                self.wf(),
                self.toks() == toks,
                len == toks.len(),
                pos0 <= self.pos() <= len,
                pos0 < len ==> self.pos() > pos0,
                d0.is_prefix_of(self.bag()),
                target == spec_parse_binary_rest(5, toks, self.pos(), expr_view(left), self.bag()),
            decreases self.toks().len() - self.pos(),
        {
            let ghost p = self.pos();
            let ghost dl = self.bag();
            let ghost lv = expr_view(left);
            let operator = self.next_token();
            proof {
                assert(is_level_op(5, peek_at(toks, p).kind));
                assert(p < len);
            }
            let right = self.parse_equality_expression();
            proof {
                let r = spec_parse_binary(4, toks, p + 1, dl);
                assert(clamp_after(len, p, r.next) == r.next);
                assert(spec_parse_binary_rest(5, toks, p, lv, dl) == spec_parse_binary_rest(
                    5,
                    toks,
                    r.next,
                    ExpressionView::Binary {
                        left: Box::new(lv),
                        operator: peek_at(toks, p),
                        right: Box::new(r.expr),
                    },
                    r.diags,
                ));
            }
            left = Expression::Binary(BinaryExpression::new(left, operator, right));
        }
        proof {
            assert(!is_level_op(5, peek_at(toks, self.pos()).kind));
            assert(target == (ParsedExpr {
                expr: expr_view(left),
                next: self.pos(),
                diags: self.bag(),
            }));
        }
        left
    }

    /// Parses a left-associative chain of `!=` and `==`.
    #[verifier::loop_isolation(false)]
    fn parse_equality_expression(&mut self) -> (expression: Expression)
        requires
            old(self).wf(),
        ensures
            final(self).wf(),
            final(self).toks() == old(self).toks(),
            old(self).pos() <= final(self).pos() <= final(self).toks().len(),
            old(self).pos() < old(self).toks().len() ==> final(self).pos() > old(self).pos(),
            old(self).bag().is_prefix_of(final(self).bag()),
            ({
                let r = spec_parse_binary(4, old(self).toks(), old(self).pos(), old(self).bag());
                expression@ == r.expr && final(self).pos() == r.next && final(self).bag() == r.diags
            }),
        decreases self.toks().len() - self.pos(), 6int,
    {
        let ghost toks = self.toks();
        let ghost len = self.toks().len() as int;
        let ghost pos0 = self.pos();
        let ghost d0 = self.bag();
        let ghost target = spec_parse_binary(4, toks, pos0, d0);
        let mut left = self.parse_comparison_expression();
        proof {
            let l = spec_parse_binary(3, toks, pos0, d0);
            assert(clamp_at(len, pos0, l.next) == l.next);
            assert(target == spec_parse_binary_rest(4, toks, l.next, l.expr, l.diags));
        }
        while self.peek(0).kind == TokenKind::BangEqual || self.peek(0).kind == TokenKind::EqualEqual
            invariant
                self.wf(),
                self.toks() == toks,
                len == toks.len(),
                pos0 <= self.pos() <= len,
                pos0 < len ==> self.pos() > pos0,
                d0.is_prefix_of(self.bag()),
                target == spec_parse_binary_rest(4, toks, self.pos(), expr_view(left), self.bag()),
            decreases self.toks().len() - self.pos(),
        {
            let ghost p = self.pos();
            let ghost dl = self.bag();
            let ghost lv = expr_view(left);
            let operator = self.next_token();
            proof {
                assert(is_level_op(4, peek_at(toks, p).kind));
                assert(p < len);
            }
            let right = self.parse_comparison_expression();
            proof {
                let r = spec_parse_binary(3, toks, p + 1, dl);
                assert(clamp_after(len, p, r.next) == r.next);
                assert(spec_parse_binary_rest(4, toks, p, lv, dl) == spec_parse_binary_rest(
                    4,
                    toks,
                    r.next,
                    ExpressionView::Binary {
                        left: Box::new(lv),
                        operator: peek_at(toks, p),
                        right: Box::new(r.expr),
                    },
                    r.diags,
                ));
            }
            left = Expression::Binary(BinaryExpression::new(left, operator, right));
        }
        proof {
            assert(!is_level_op(4, peek_at(toks, self.pos()).kind));
            assert(target == (ParsedExpr {
                expr: expr_view(left),
                next: self.pos(),
                diags: self.bag(),
            }));
        }
        left
    }

    /// Parses a left-associative chain of `>`, `<`, `>=` and `<=`.
    #[verifier::loop_isolation(false)]
    fn parse_comparison_expression(&mut self) -> (expression: Expression)
        requires
            old(self).wf(),
        ensures
            final(self).wf(),
            final(self).toks() == old(self).toks(),
            old(self).pos() <= final(self).pos() <= final(self).toks().len(),
            old(self).pos() < old(self).toks().len() ==> final(self).pos() > old(self).pos(),
            old(self).bag().is_prefix_of(final(self).bag()),
            ({
                let r = spec_parse_binary(3, old(self).toks(), old(self).pos(), old(self).bag());
                expression@ == r.expr && final(self).pos() == r.next && final(self).bag() == r.diags
            }),
        decreases self.toks().len() - self.pos(), 5int,
    {
        let ghost toks = self.toks();
        let ghost len = self.toks().len() as int;
        let ghost pos0 = self.pos();
        let ghost d0 = self.bag();
        let ghost target = spec_parse_binary(3, toks, pos0, d0);
        let mut left = self.parse_additive_expression();
        proof {
            let l = spec_parse_binary(2, toks, pos0, d0);
            assert(clamp_at(len, pos0, l.next) == l.next);
            assert(target == spec_parse_binary_rest(3, toks, l.next, l.expr, l.diags));
        }
        while self.peek(0).kind == TokenKind::Greater || self.peek(0).kind == TokenKind::Lesser || self.peek(0).kind == TokenKind::GreaterEqual || self.peek(0).kind == TokenKind::LesserEqual
            invariant
                self.wf(),
                self.toks() == toks,
                len == toks.len(),
                pos0 <= self.pos() <= len,
                pos0 < len ==> self.pos() > pos0,
                d0.is_prefix_of(self.bag()),
                target == spec_parse_binary_rest(3, toks, self.pos(), expr_view(left), self.bag()),
            decreases self.toks().len() - self.pos(),
        {
            let ghost p = self.pos();
            let ghost dl = self.bag();
            let ghost lv = expr_view(left);
            let operator = self.next_token();
            proof {
                assert(is_level_op(3, peek_at(toks, p).kind));
                assert(p < len);
            }
            let right = self.parse_additive_expression();
            proof {
                let r = spec_parse_binary(2, toks, p + 1, dl);
                assert(clamp_after(len, p, r.next) == r.next);
                assert(spec_parse_binary_rest(3, toks, p, lv, dl) == spec_parse_binary_rest(
                    3,
                    toks,
                    r.next,
                    ExpressionView::Binary {
                        left: Box::new(lv),
                        operator: peek_at(toks, p),
                        right: Box::new(r.expr),
                    },
                    r.diags,
                ));
            }
            left = Expression::Binary(BinaryExpression::new(left, operator, right));
        }
        proof {
            assert(!is_level_op(3, peek_at(toks, self.pos()).kind));
            assert(target == (ParsedExpr {
                expr: expr_view(left),
                next: self.pos(),
                diags: self.bag(),
            }));
        }
        left
    }

    /// Parses a left-associative chain of `+` and `-`.
    #[verifier::loop_isolation(false)]
    fn parse_additive_expression(&mut self) -> (expression: Expression)
        requires
            old(self).wf(),
        ensures
            final(self).wf(),
            final(self).toks() == old(self).toks(),
            old(self).pos() <= final(self).pos() <= final(self).toks().len(),
            old(self).pos() < old(self).toks().len() ==> final(self).pos() > old(self).pos(),
            old(self).bag().is_prefix_of(final(self).bag()),
            ({
                let r = spec_parse_binary(2, old(self).toks(), old(self).pos(), old(self).bag());
                expression@ == r.expr && final(self).pos() == r.next && final(self).bag() == r.diags
            }),
        decreases self.toks().len() - self.pos(), 4int,
    {
        let ghost toks = self.toks();
        let ghost len = self.toks().len() as int;
        let ghost pos0 = self.pos();
        let ghost d0 = self.bag();
        let ghost target = spec_parse_binary(2, toks, pos0, d0);
        let mut left = self.parse_multiplicative_expression();
        proof {
            let l = spec_parse_binary(1, toks, pos0, d0);
            assert(clamp_at(len, pos0, l.next) == l.next);
            assert(target == spec_parse_binary_rest(2, toks, l.next, l.expr, l.diags));
        }
        while self.peek(0).kind == TokenKind::Plus || self.peek(0).kind == TokenKind::Minus
            invariant
                self.wf(),
                self.toks() == toks,
                len == toks.len(),
                pos0 <= self.pos() <= len,
                pos0 < len ==> self.pos() > pos0,
                d0.is_prefix_of(self.bag()),
                target == spec_parse_binary_rest(2, toks, self.pos(), expr_view(left), self.bag()),
            decreases self.toks().len() - self.pos(),
        {
            let ghost p = self.pos();
            let ghost dl = self.bag();
            let ghost lv = expr_view(left);
            let operator = self.next_token();
            proof {
                assert(is_level_op(2, peek_at(toks, p).kind));
                assert(p < len);
            }
            let right = self.parse_multiplicative_expression();
            proof {
                let r = spec_parse_binary(1, toks, p + 1, dl);
                assert(clamp_after(len, p, r.next) == r.next);
                assert(spec_parse_binary_rest(2, toks, p, lv, dl) == spec_parse_binary_rest(
                    2,
                    toks,
                    r.next,
                    ExpressionView::Binary {
                        left: Box::new(lv),
                        operator: peek_at(toks, p),
                        right: Box::new(r.expr),
                    },
                    r.diags,
                ));
            }
            left = Expression::Binary(BinaryExpression::new(left, operator, right));
        }
        proof {
            assert(!is_level_op(2, peek_at(toks, self.pos()).kind));
            assert(target == (ParsedExpr {
                expr: expr_view(left),
                next: self.pos(),
                diags: self.bag(),
            }));
        }
        left
    }

    /// Parses a left-associative chain of `*` and `/`.
    #[verifier::loop_isolation(false)]
    fn parse_multiplicative_expression(&mut self) -> (expression: Expression)
        requires
            old(self).wf(),
        ensures
            final(self).wf(),
            final(self).toks() == old(self).toks(),
            old(self).pos() <= final(self).pos() <= final(self).toks().len(),
            old(self).pos() < old(self).toks().len() ==> final(self).pos() > old(self).pos(),
            old(self).bag().is_prefix_of(final(self).bag()),
            ({
                let r = spec_parse_binary(1, old(self).toks(), old(self).pos(), old(self).bag());
                expression@ == r.expr && final(self).pos() == r.next && final(self).bag() == r.diags
            }),
        decreases self.toks().len() - self.pos(), 3int,
    {
        let ghost toks = self.toks();
        let ghost len = self.toks().len() as int;
        let ghost pos0 = self.pos();
        let ghost d0 = self.bag();
        let ghost target = spec_parse_binary(1, toks, pos0, d0);
        let mut left = self.parse_unary_expression();
        proof {
            let l = spec_parse_binary(0, toks, pos0, d0);
            assert(clamp_at(len, pos0, l.next) == l.next);
            assert(target == spec_parse_binary_rest(1, toks, l.next, l.expr, l.diags));
        }
        while self.peek(0).kind == TokenKind::Star || self.peek(0).kind == TokenKind::Slash
            invariant
                self.wf(),
                self.toks() == toks,
                len == toks.len(),
                pos0 <= self.pos() <= len,
                pos0 < len ==> self.pos() > pos0,
                d0.is_prefix_of(self.bag()),
                target == spec_parse_binary_rest(1, toks, self.pos(), expr_view(left), self.bag()),
            decreases self.toks().len() - self.pos(),
        {
            let ghost p = self.pos();
            let ghost dl = self.bag();
            let ghost lv = expr_view(left);
            let operator = self.next_token();
            proof {
                assert(is_level_op(1, peek_at(toks, p).kind));
                assert(p < len);
            }
            let right = self.parse_unary_expression();
            proof {
                let r = spec_parse_binary(0, toks, p + 1, dl);
                assert(clamp_after(len, p, r.next) == r.next);
                assert(spec_parse_binary_rest(1, toks, p, lv, dl) == spec_parse_binary_rest(
                    1,
                    toks,
                    r.next,
                    ExpressionView::Binary {
                        left: Box::new(lv),
                        operator: peek_at(toks, p),
                        right: Box::new(r.expr),
                    },
                    r.diags,
                ));
            }
            left = Expression::Binary(BinaryExpression::new(left, operator, right));
        }
        proof {
            assert(!is_level_op(1, peek_at(toks, self.pos()).kind));
            assert(target == (ParsedExpr {
                expr: expr_view(left),
                next: self.pos(),
                diags: self.bag(),
            }));
        }
        left
    }

    /// Parses a right-recursive chain of prefix `+`, `-` and `!`.
    fn parse_unary_expression(&mut self) -> (expression: Expression)
        requires
            old(self).wf(),
        ensures
            final(self).wf(),
            final(self).toks() == old(self).toks(),
            old(self).pos() <= final(self).pos() <= final(self).toks().len(),
            old(self).pos() < old(self).toks().len() ==> final(self).pos() > old(self).pos(),
            old(self).bag().is_prefix_of(final(self).bag()),
            ({
                let r = spec_parse_unary(old(self).toks(), old(self).pos(), old(self).bag());
                expression@ == r.expr && final(self).pos() == r.next && final(self).bag() == r.diags
            }),
        decreases self.toks().len() - self.pos(), 2int,
    {
        let ghost toks = self.toks();
        let ghost pos0 = self.pos();
        let kind = self.peek(0).kind;
        if kind == TokenKind::Plus || kind == TokenKind::Minus || kind == TokenKind::Bang {
            let operator = self.next_token();
            proof {
                assert(pos0 < toks.len());
                assert(operator@ == peek_at(toks, pos0));
            }
            let right = self.parse_unary_expression();
            Expression::Unary(UnaryExpression::new(operator, right))
        } else {
            self.parse_primary_expression()
        }
    }

    /// Parses a parenthesized expression, a literal, or a name; anything else
    /// is diagnosed as a missing identifier.
    fn parse_primary_expression(&mut self) -> (expression: Expression)
        requires
            old(self).wf(),
        ensures
            final(self).wf(),
            final(self).toks() == old(self).toks(),
            old(self).pos() <= final(self).pos() <= final(self).toks().len(),
            old(self).pos() < old(self).toks().len() ==> final(self).pos() > old(self).pos(),
            old(self).bag().is_prefix_of(final(self).bag()),
            ({
                let r = spec_parse_primary(old(self).toks(), old(self).pos(), old(self).bag());
                expression@ == r.expr && final(self).pos() == r.next && final(self).bag() == r.diags
            }),
        decreases self.toks().len() - self.pos(), 1int,
    {
        let ghost toks = self.toks();
        let ghost pos0 = self.pos();
        let ghost d0 = self.bag();
        let kind = self.peek(0).kind;
        if kind == TokenKind::OpenParen {
            self.next_token();
            let expression = self.parse_expression();
            self.match_token(TokenKind::CloseParen);
            proof {
                let e = spec_parse_expression(toks, pos0 + 1, d0);
                let m = spec_match_token(toks, e.next, TokenKind::CloseParen, e.diags);
                assert(self.pos() == m.next && self.bag() == m.diags);
            }
            Expression::Parenthesized(ParenthesizedExpression::new(expression))
        } else if kind == TokenKind::True || kind == TokenKind::False {
            let token = self.next_token();
            Expression::Literal(
                LiteralExpression::new(
                    Object::Boolean(kind == TokenKind::True),
                    token.position,
                ),
            )
        } else if kind == TokenKind::Number {
            let token = self.next_token();
            let value = parse_number_lexeme(token.lexeme.as_str());
            Expression::Literal(LiteralExpression::new(Object::Number(value), token.position))
        } else if kind == TokenKind::String {
            let token = self.next_token();
            let position = token.position;
            Expression::Literal(LiteralExpression::new(Object::String(token.lexeme), position))
        } else {
            let identifier = self.match_token(TokenKind::Identifier);
            proof {
                let m = spec_match_token(toks, pos0, TokenKind::Identifier, d0);
                assert(identifier@ == m.token);
            }
            Expression::Name(NameExpression::new(identifier))
        }
    }
}

} // verus!
