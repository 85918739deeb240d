//! The untyped syntax tree the parser produces: expressions and statements,
//! each carrying the tokens it was built from, with a recoverable source
//! position on every expression.

use vstd::prelude::*;

use crate::diagnostic::Position;
use crate::token::Token;
use crate::token::TokenView;
use crate::types::Object;
use crate::types::Value;

verus! {

/// Model of an expression node.
pub enum ExpressionView {
    Literal { value: Value, position: Position },
    Name { identifier: TokenView },
    Parenthesized { expression: Box<ExpressionView> },
    Unary { operator: TokenView, right: Box<ExpressionView> },
    Binary { left: Box<ExpressionView>, operator: TokenView, right: Box<ExpressionView> },
    Assignment { identifier: TokenView, expression: Box<ExpressionView> },
}

/// Model of a statement node.
pub enum StatementView {
    Expression { expression: ExpressionView },
    Print { expression: ExpressionView },
    Var { identifier: TokenView, expression: ExpressionView },
    Block { statements: Seq<StatementView> },
    If {
        condition: ExpressionView,
        consequence: Box<StatementView>,
        else_clause: Option<Box<StatementView>>,
    },
    While { condition: ExpressionView, body: Box<StatementView> },
    For {
        identifier: TokenView,
        lower_bound: ExpressionView,
        upper_bound: ExpressionView,
        body: Box<StatementView>,
    },
}

/// The position a whole expression is reported at: a literal's own range, the
/// name or assignment target's token, an operator's token, or the inner
/// expression of a parenthesized one.
pub open spec fn expr_position(e: ExpressionView) -> Position
    decreases e,
{
    match e {
        ExpressionView::Literal { position, .. } => position,
        ExpressionView::Name { identifier } => identifier.position,
        ExpressionView::Parenthesized { expression } => expr_position(*expression),
        ExpressionView::Unary { operator, .. } => operator.position,
        ExpressionView::Binary { operator, .. } => operator.position,
        ExpressionView::Assignment { identifier, .. } => identifier.position,
    }
}

/// An expression of the source program.
#[derive(Debug)]
pub enum Expression {
    Literal(LiteralExpression),
    Name(NameExpression),
    Parenthesized(ParenthesizedExpression),
    Unary(UnaryExpression),
    Binary(BinaryExpression),
    Assignment(AssignmentExpression),
}

/// A literal value written in the source.
#[derive(Debug)]
pub struct LiteralExpression {
    pub value: Object,
    pub position: Position,
}

/// A reference to a declared name.
#[derive(Debug)]
pub struct NameExpression {
    pub identifier: Token,
}

/// An expression wrapped in parentheses.
#[derive(Debug)]
pub struct ParenthesizedExpression {
    pub expression: Box<Expression>,
}

/// A prefix operator applied to an operand.
#[derive(Debug)]
pub struct UnaryExpression {
    pub operator: Token,
    pub right: Box<Expression>,
}

/// An infix operator applied to two operands.
#[derive(Debug)]
pub struct BinaryExpression {
    pub left: Box<Expression>,
    pub operator: Token,
    pub right: Box<Expression>,
}

/// An assignment to an already-declared name; itself an expression.
#[derive(Debug)]
pub struct AssignmentExpression {
    pub identifier: Token,
    pub expression: Box<Expression>,
}

/// Model of an expression.
pub open spec fn expr_view(e: Expression) -> ExpressionView
    decreases e,
{
    match e {
        Expression::Literal(t) => ExpressionView::Literal { value: t.value@, position: t.position },
        Expression::Name(t) => ExpressionView::Name { identifier: t.identifier@ },
        Expression::Parenthesized(t) => ExpressionView::Parenthesized {
            expression: Box::new(expr_view(*t.expression)),
        },
        Expression::Unary(t) => ExpressionView::Unary {
            operator: t.operator@,
            right: Box::new(expr_view(*t.right)),
        },
        Expression::Binary(t) => ExpressionView::Binary {
            left: Box::new(expr_view(*t.left)),
            operator: t.operator@,
            right: Box::new(expr_view(*t.right)),
        },
        Expression::Assignment(t) => ExpressionView::Assignment {
            identifier: t.identifier@,
            expression: Box::new(expr_view(*t.expression)),
        },
    }
}

impl View for Expression {
    type V = ExpressionView;

    open spec fn view(&self) -> ExpressionView {
        expr_view(*self)
    }
}

impl Expression {
    /// The position this expression is reported at.
    pub fn get_position(&self) -> (p: Position)
        ensures
            p == expr_position(self@),
        decreases *self,
    {
        match self {
            Expression::Literal(e) => e.get_position(),
            Expression::Name(e) => e.get_position(),
            Expression::Parenthesized(e) => e.expression.get_position(),
            Expression::Unary(e) => e.get_position(),
            Expression::Binary(e) => e.get_position(),
            Expression::Assignment(e) => e.get_position(),
        }
    }
}

impl LiteralExpression {
    pub fn new(value: Object, position: Position) -> (e: LiteralExpression)
        ensures
            e == (LiteralExpression { value, position }),
    {
        LiteralExpression { value, position }
    }

    pub fn get_position(&self) -> (p: Position)
        ensures
            p == self.position,
    {
        self.position
    }
}

impl NameExpression {
    pub fn new(identifier: Token) -> (e: NameExpression)
        ensures
            e == (NameExpression { identifier }),
    {
        NameExpression { identifier }
    }

    pub fn get_position(&self) -> (p: Position)
        ensures
            p == self.identifier@.position,
    {
        self.identifier.position
    }
}

impl ParenthesizedExpression {
    pub fn new(expression: Expression) -> (e: ParenthesizedExpression)
        ensures
            e.expression == expression,
    {
        ParenthesizedExpression { expression: Box::new(expression) }
    }

    pub fn get_position(&self) -> (p: Position)
        ensures
            p == expr_position(self.expression@),
    {
        self.expression.get_position()
    }
}

impl UnaryExpression {
    pub fn new(operator: Token, right: Expression) -> (e: UnaryExpression)
        ensures
            e.operator == operator,
            e.right == right,
    {
        UnaryExpression { operator, right: Box::new(right) }
    }

    pub fn get_position(&self) -> (p: Position)
        ensures
            p == self.operator@.position,
    {
        self.operator.position
    }
}

impl BinaryExpression {
    pub fn new(left: Expression, operator: Token, right: Expression) -> (e: BinaryExpression)
        ensures
            e.left == left,
            e.operator == operator,
            e.right == right,
    {
        BinaryExpression { left: Box::new(left), operator, right: Box::new(right) }
    }

    pub fn get_position(&self) -> (p: Position)
        ensures
            p == self.operator@.position,
    {
        self.operator.position
    }
}

impl AssignmentExpression {
    pub fn new(identifier: Token, expression: Expression) -> (e: AssignmentExpression)
        ensures
            e.identifier == identifier,
            e.expression == expression,
    {
        AssignmentExpression { identifier, expression: Box::new(expression) }
    }

    pub fn get_position(&self) -> (p: Position)
        ensures
            p == self.identifier@.position,
    {
        self.identifier.position
    }
}

/// A statement of the source program.
#[derive(Debug)]
pub enum Statement {
    Expression(ExpressionStatement),
    Print(PrintStatement),
    Var(VarStatement),
    Block(BlockStatement),
    If(IfStatement),
    While(WhileStatement),
    For(ForStatement),
}

/// An expression evaluated for its value and effects alone.
#[derive(Debug)]
pub struct ExpressionStatement {
    pub expression: Expression,
}

/// Prints the textual form of an expression's value.
#[derive(Debug)]
pub struct PrintStatement {
    pub expression: Expression,
}

/// Declares a name in the current scope, initialized to an expression.
#[derive(Debug)]
pub struct VarStatement {
    pub identifier: Token,
    pub expression: Expression,
}

/// A braced list of statements in a scope of its own.
#[derive(Debug)]
pub struct BlockStatement {
    pub statements: Vec<Statement>,
}

/// A conditional with an optional else clause.
#[derive(Debug)]
pub struct IfStatement {
    pub condition: Expression,
    pub consequence: Box<Statement>,
    pub else_clause: Box<Option<Statement>>,
}

/// A pre-tested loop.
#[derive(Debug)]
pub struct WhileStatement {
    pub condition: Expression,
    pub body: Box<Statement>,
}

/// A counting loop over the half-open range between two bounds.
#[derive(Debug)]
pub struct ForStatement {
    pub identifier: Token,
    pub lower_bound: Expression,
    pub upper_bound: Expression,
    pub body: Box<Statement>,
}

impl ExpressionStatement {
    pub fn new(expression: Expression) -> (s: ExpressionStatement)
        ensures
            s.expression == expression,
    {
        ExpressionStatement { expression }
    }
}

impl PrintStatement {
    pub fn new(expression: Expression) -> (s: PrintStatement)
        ensures
            s.expression == expression,
    {
        PrintStatement { expression }
    }
}

impl VarStatement {
    pub fn new(identifier: Token, expression: Expression) -> (s: VarStatement)
        ensures
            s.identifier == identifier,
            s.expression == expression,
    {
        VarStatement { identifier, expression }
    }
}

impl BlockStatement {
    pub fn new(statements: Vec<Statement>) -> (s: BlockStatement)
        ensures
            s.statements == statements,
    {
        BlockStatement { statements }
    }
}

impl IfStatement {
    pub fn new(condition: Expression, consequence: Statement, else_clause: Option<Statement>) -> (s:
        IfStatement)
        ensures
            s.condition == condition,
            s.consequence == consequence,
            s.else_clause == else_clause,
    {
        IfStatement { condition, consequence: Box::new(consequence), else_clause: Box::new(else_clause) }
    }
}

impl WhileStatement {
    pub fn new(condition: Expression, body: Statement) -> (s: WhileStatement)
        ensures
            s.condition == condition,
            s.body == body,
    {
        WhileStatement { condition, body: Box::new(body) }
    }
}

impl ForStatement {
    pub fn new(
        identifier: Token,
        lower_bound: Expression,
        upper_bound: Expression,
        body: Statement,
    ) -> (s: ForStatement)
        ensures
            s.identifier == identifier,
            s.lower_bound == lower_bound,
            s.upper_bound == upper_bound,
            s.body == body,
    {
        ForStatement { identifier, lower_bound, upper_bound, body: Box::new(body) }
    }
}

/// Model of a statement.
pub open spec fn stmt_view(s: Statement) -> StatementView
    decreases s,
{
    match s {
        Statement::Expression(t) => StatementView::Expression { expression: t.expression@ },
        Statement::Print(t) => StatementView::Print { expression: t.expression@ },
        Statement::Var(t) => StatementView::Var {
            identifier: t.identifier@,
            expression: t.expression@,
        },
        Statement::Block(t) => StatementView::Block { statements: stmts_view(t.statements@) },
        Statement::If(t) => StatementView::If {
            condition: t.condition@,
            consequence: Box::new(stmt_view(*t.consequence)),
            else_clause: match *t.else_clause {
                Some(e) => Some(Box::new(stmt_view(e))),
                None => None,
            },
        },
        Statement::While(t) => StatementView::While {
            condition: t.condition@,
            body: Box::new(stmt_view(*t.body)),
        },
        Statement::For(t) => StatementView::For {
            identifier: t.identifier@,
            lower_bound: t.lower_bound@,
            upper_bound: t.upper_bound@,
            body: Box::new(stmt_view(*t.body)),
        },
    }
}

/// Model of a statement list, in order.
pub open spec fn stmts_view(s: Seq<Statement>) -> Seq<StatementView>
    decreases s,
{
    if s.len() == 0 {
        Seq::empty()
    } else {
        seq![stmt_view(s[0])] + stmts_view(s.drop_first())
    }
}

impl View for Statement {
    type V = StatementView;

    open spec fn view(&self) -> StatementView {
        stmt_view(*self)
    }
}

/// Basic structure lemma: the model of a statement list maps the model of
/// each element in order.
pub proof fn lemma_stmts_view(s: Seq<Statement>)
    ensures
        stmts_view(s).len() == s.len(),
        forall|i: int| 0 <= i < s.len() ==> #[trigger] stmts_view(s)[i] == stmt_view(s[i]),
    decreases s,
{
    if s.len() > 0 {
        lemma_stmts_view(s.drop_first());
        assert forall|i: int| 0 <= i < s.len() implies #[trigger] stmts_view(s)[i] == stmt_view(
            s[i],
        ) by {
            if i > 0 {
                assert(s.drop_first()[i - 1] == s[i]);
                assert(stmts_view(s)[i] == stmts_view(s.drop_first())[i - 1]);
            }
        }
    }
}

} // verus!
