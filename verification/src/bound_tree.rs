//! The typed tree the binder produces: structurally parallel to the syntax
//! tree, but operator nodes carry a resolved operator from a fixed table, and
//! every expression carries its resolved static type and source position.

use vstd::prelude::*;

use crate::diagnostic::Position;
use crate::token::TokenKind;
use crate::types::type_of;
use crate::types::Object;
use crate::types::Type;
use crate::types::Value;

verus! {

/// The operation a resolved binary operator performs.
#[derive(Debug, Clone, Copy, PartialEq, Eq, Structural)]
pub enum BoundBinaryOperationKind {
    Addition,
    Subtraction,
    Multiplication,
    Division,
    Greater,
    Lesser,
    GreaterEqual,
    LesserEqual,
    LogicalAnd,
    LogicalOr,
    NotEqual,
    Equal,
}

/// The operation a resolved unary operator performs.
#[derive(Debug, Clone, Copy, PartialEq, Eq, Structural)]
pub enum BoundUnaryOperationKind {
    Identity,
    Negation,
    LogicalNegation,
}

/// A resolved unary operator: the token it came from, the operation it
/// performs, and the operand and result types it was matched with.
#[derive(Debug, Clone, Copy, PartialEq, Eq, Structural)]
pub struct BoundUnaryOperator {
    pub operator_kind: TokenKind,
    pub operation_kind: BoundUnaryOperationKind,
    pub right_type: Type,
    pub result_type: Type,
}

/// The fixed unary operator table: an exact match on the token kind and the
/// operand type, with no coercion.
pub open spec fn spec_bind_unary(operator_kind: TokenKind, right_type: Type) -> Option<
    BoundUnaryOperator,
> {
    match (operator_kind, right_type) {
        (TokenKind::Plus, Type::Number) => Some(
            BoundUnaryOperator {
                operator_kind: TokenKind::Plus,
                operation_kind: BoundUnaryOperationKind::Identity,
                right_type: Type::Number,
                result_type: Type::Number,
            },
        ),
        (TokenKind::Minus, Type::Number) => Some(
            BoundUnaryOperator {
                operator_kind: TokenKind::Minus,
                operation_kind: BoundUnaryOperationKind::Negation,
                right_type: Type::Number,
                result_type: Type::Number,
            },
        ),
        (TokenKind::Bang, Type::Boolean) => Some(
            BoundUnaryOperator {
                operator_kind: TokenKind::Bang,
                operation_kind: BoundUnaryOperationKind::LogicalNegation,
                right_type: Type::Boolean,
                result_type: Type::Boolean,
            },
        ),
        _ => None,
    }
}

impl BoundUnaryOperator {
    pub fn new(
        operator_kind: TokenKind,
        operation_kind: BoundUnaryOperationKind,
        right_type: Type,
        result_type: Type,
    ) -> (r: BoundUnaryOperator)
        ensures
            r == (BoundUnaryOperator { operator_kind, operation_kind, right_type, result_type }),
    {
        BoundUnaryOperator { operator_kind, operation_kind, right_type, result_type }
    }

    /// Resolves the operator for a token kind against an operand type, by
    /// exact match in the fixed table.
    pub fn bind(operator_kind: TokenKind, right_type: Type) -> (r: Option<BoundUnaryOperator>)
        ensures
            r == spec_bind_unary(operator_kind, right_type),
    {
        match (operator_kind, right_type) {
            (TokenKind::Plus, Type::Number) => Some(
                BoundUnaryOperator::new(
                    TokenKind::Plus,
                    BoundUnaryOperationKind::Identity,
                    Type::Number,
                    Type::Number,
                ),
            ),
            (TokenKind::Minus, Type::Number) => Some(
                BoundUnaryOperator::new(
                    TokenKind::Minus,
                    BoundUnaryOperationKind::Negation,
                    Type::Number,
                    Type::Number,
                ),
            ),
            (TokenKind::Bang, Type::Boolean) => Some(
                BoundUnaryOperator::new(
                    TokenKind::Bang,
                    BoundUnaryOperationKind::LogicalNegation,
                    Type::Boolean,
                    Type::Boolean,
                ),
            ),
            _ => None,
        }
    }
}

/// A resolved binary operator: the token it came from, the operation it
/// performs, and the operand and result types it was matched with.
#[derive(Debug, Clone, Copy, PartialEq, Eq, Structural)]
pub struct BoundBinaryOperator {
    pub operator_kind: TokenKind,
    pub operation_kind: BoundBinaryOperationKind,
    pub left_type: Type,
    pub right_type: Type,
    pub result_type: Type,
}

/// One row of the binary operator table.
pub open spec fn binary_row(
    operator_kind: TokenKind,
    operation_kind: BoundBinaryOperationKind,
    left_type: Type,
    right_type: Type,
    result_type: Type,
) -> Option<BoundBinaryOperator> {
    Some(BoundBinaryOperator { operator_kind, operation_kind, left_type, right_type, result_type })
}

/// The fixed binary operator table: an exact match on the token kind and both
/// operand types, with no coercion. Arithmetic and comparisons take numbers,
/// `+` also concatenates strings, logic takes booleans, and equality compares
/// two numbers or two booleans.
pub open spec fn spec_bind_binary(
    operator_kind: TokenKind,
    left_type: Type,
    right_type: Type,
) -> Option<BoundBinaryOperator> {
    match (operator_kind, left_type, right_type) {
        (TokenKind::Plus, Type::Number, Type::Number) => binary_row(
            operator_kind,
            BoundBinaryOperationKind::Addition,
            left_type,
            right_type,
            Type::Number,
        ),
        (TokenKind::Plus, Type::String, Type::String) => binary_row(
            operator_kind,
            BoundBinaryOperationKind::Addition,
            left_type,
            right_type,
            Type::String,
        ),
        (TokenKind::Minus, Type::Number, Type::Number) => binary_row(
            operator_kind,
            BoundBinaryOperationKind::Subtraction,
            left_type,
            right_type,
            Type::Number,
        ),
        (TokenKind::Star, Type::Number, Type::Number) => binary_row(
            operator_kind,
            BoundBinaryOperationKind::Multiplication,
            left_type,
            right_type,
            Type::Number,
        ),
        (TokenKind::Slash, Type::Number, Type::Number) => binary_row(
            operator_kind,
            BoundBinaryOperationKind::Division,
            left_type,
            right_type,
            Type::Number,
        ),
        (TokenKind::Greater, Type::Number, Type::Number) => binary_row(
            operator_kind,
            BoundBinaryOperationKind::Greater,
            left_type,
            right_type,
            Type::Boolean,
        ),
        (TokenKind::Lesser, Type::Number, Type::Number) => binary_row(
            operator_kind,
            BoundBinaryOperationKind::Lesser,
            left_type,
            right_type,
            Type::Boolean,
        ),
        (TokenKind::GreaterEqual, Type::Number, Type::Number) => binary_row(
            operator_kind,
            BoundBinaryOperationKind::GreaterEqual,
            left_type,
            right_type,
            Type::Boolean,
        ),
        (TokenKind::LesserEqual, Type::Number, Type::Number) => binary_row(
            operator_kind,
            BoundBinaryOperationKind::LesserEqual,
            left_type,
            right_type,
            Type::Boolean,
        ),
        (TokenKind::AmpersandAmpersand, Type::Boolean, Type::Boolean) => binary_row(
            operator_kind,
            BoundBinaryOperationKind::LogicalAnd,
            left_type,
            right_type,
            Type::Boolean,
        ),
        (TokenKind::PipePipe, Type::Boolean, Type::Boolean) => binary_row(
            operator_kind,
            BoundBinaryOperationKind::LogicalOr,
            left_type,
            right_type,
            Type::Boolean,
        ),
        (TokenKind::BangEqual, Type::Number, Type::Number) => binary_row(
            operator_kind,
            BoundBinaryOperationKind::NotEqual,
            left_type,
            right_type,
            Type::Boolean,
        ),
        (TokenKind::EqualEqual, Type::Number, Type::Number) => binary_row(
            operator_kind,
            BoundBinaryOperationKind::Equal,
            left_type,
            right_type,
            Type::Boolean,
        ),
        (TokenKind::BangEqual, Type::Boolean, Type::Boolean) => binary_row(
            operator_kind,
            BoundBinaryOperationKind::NotEqual,
            left_type,
            right_type,
            Type::Boolean,
        ),
        (TokenKind::EqualEqual, Type::Boolean, Type::Boolean) => binary_row(
            operator_kind,
            BoundBinaryOperationKind::Equal,
            left_type,
            right_type,
            Type::Boolean,
        ),
        _ => None,
    }
}

impl BoundBinaryOperator {
    pub fn new(
        operator_kind: TokenKind,
        operation_kind: BoundBinaryOperationKind,
        left_type: Type,
        right_type: Type,
        result_type: Type,
    ) -> (r: BoundBinaryOperator)
        ensures
            r == (BoundBinaryOperator {
                operator_kind,
                operation_kind,
                left_type,
                right_type,
                result_type,
            }),
    {
        BoundBinaryOperator { operator_kind, operation_kind, left_type, right_type, result_type }
    }

    /// Resolves the operator for a token kind against both operand types, by
    /// exact match in the fixed table.
    pub fn bind(operator_kind: TokenKind, left_type: Type, right_type: Type) -> (r: Option<
        BoundBinaryOperator,
    >)
        ensures
            r == spec_bind_binary(operator_kind, left_type, right_type),
    {
        let operation_kind = match (operator_kind, left_type, right_type) {
            (TokenKind::Plus, Type::Number, Type::Number) => Some(
                (BoundBinaryOperationKind::Addition, Type::Number),
            ),
            (TokenKind::Plus, Type::String, Type::String) => Some(
                (BoundBinaryOperationKind::Addition, Type::String),
            ),
            (TokenKind::Minus, Type::Number, Type::Number) => Some(
                (BoundBinaryOperationKind::Subtraction, Type::Number),
            ),
            (TokenKind::Star, Type::Number, Type::Number) => Some(
                (BoundBinaryOperationKind::Multiplication, Type::Number),
            ),
            (TokenKind::Slash, Type::Number, Type::Number) => Some(
                (BoundBinaryOperationKind::Division, Type::Number),
            ),
            (TokenKind::Greater, Type::Number, Type::Number) => Some(
                (BoundBinaryOperationKind::Greater, Type::Boolean),
            ),
            (TokenKind::Lesser, Type::Number, Type::Number) => Some(
                (BoundBinaryOperationKind::Lesser, Type::Boolean),
            ),
            (TokenKind::GreaterEqual, Type::Number, Type::Number) => Some(
                (BoundBinaryOperationKind::GreaterEqual, Type::Boolean),
            ),
            (TokenKind::LesserEqual, Type::Number, Type::Number) => Some(
                (BoundBinaryOperationKind::LesserEqual, Type::Boolean),
            ),
            (TokenKind::AmpersandAmpersand, Type::Boolean, Type::Boolean) => Some(
                (BoundBinaryOperationKind::LogicalAnd, Type::Boolean),
            ),
            (TokenKind::PipePipe, Type::Boolean, Type::Boolean) => Some(
                (BoundBinaryOperationKind::LogicalOr, Type::Boolean),
            ),
            (TokenKind::BangEqual, Type::Number, Type::Number) => Some(
                (BoundBinaryOperationKind::NotEqual, Type::Boolean),
            ),
            (TokenKind::EqualEqual, Type::Number, Type::Number) => Some(
                (BoundBinaryOperationKind::Equal, Type::Boolean),
            ),
            (TokenKind::BangEqual, Type::Boolean, Type::Boolean) => Some(
                (BoundBinaryOperationKind::NotEqual, Type::Boolean),
            ),
            (TokenKind::EqualEqual, Type::Boolean, Type::Boolean) => Some(
                (BoundBinaryOperationKind::Equal, Type::Boolean),
            ),
            _ => None,
        };
        match operation_kind {
            Some((operation, result_type)) => Some(
                BoundBinaryOperator::new(
                    operator_kind,
                    operation,
                    left_type,
                    right_type,
                    result_type,
                ),
            ),
            None => None,
        }
    }
}

/// Model of a bound expression node.
#[allow(inconsistent_fields)]
pub enum BoundExpressionView {
    Literal { value: Value, position: Position },
    Variable { name: Seq<char>, value_type: Type, position: Position },
    Unary { operator: BoundUnaryOperator, right: Box<BoundExpressionView>, position: Position },
    Binary {
        left: Box<BoundExpressionView>,
        operator: BoundBinaryOperator,
        right: Box<BoundExpressionView>,
        position: Position,
    },
    Assignment { name: Seq<char>, expression: Box<BoundExpressionView>, position: Position },
}

/// Model of a bound statement node.
pub enum BoundStatementView {
    Expression { expression: BoundExpressionView },
    Print { expression: BoundExpressionView },
    Var { name: Seq<char>, expression: BoundExpressionView },
    Block { statements: Seq<BoundStatementView> },
    If {
        condition: BoundExpressionView,
        consequence: Box<BoundStatementView>,
        else_clause: Option<Box<BoundStatementView>>,
    },
    While { condition: BoundExpressionView, body: Box<BoundStatementView> },
    For {
        identifier: Seq<char>,
        lower_bound: BoundExpressionView,
        upper_bound: BoundExpressionView,
        body: Box<BoundStatementView>,
    },
}

/// The resolved static type of a bound expression.
pub open spec fn bexpr_type(e: BoundExpressionView) -> Type
    decreases e,
{
    match e {
        BoundExpressionView::Literal { value, .. } => type_of(value),
        BoundExpressionView::Variable { value_type, .. } => value_type,
        BoundExpressionView::Unary { operator, .. } => operator.result_type,
        BoundExpressionView::Binary { operator, .. } => operator.result_type,
        BoundExpressionView::Assignment { expression, .. } => bexpr_type(*expression),
    }
}

/// The source position a bound expression carries.
pub open spec fn bexpr_position(e: BoundExpressionView) -> Position {
    match e {
        BoundExpressionView::Literal { position, .. } => position,
        BoundExpressionView::Variable { position, .. } => position,
        BoundExpressionView::Unary { position, .. } => position,
        BoundExpressionView::Binary { position, .. } => position,
        BoundExpressionView::Assignment { position, .. } => position,
    }
}

/// A bound expression.
#[derive(Debug)]
pub enum BoundExpression {
    Literal(BoundLiteralExpression),
    Variable(BoundVariableExpression),
    Unary(BoundUnaryExpression),
    Binary(BoundBinaryExpression),
    Assignment(BoundAssignmentExpression),
}

/// A literal with its value.
#[derive(Debug)]
pub struct BoundLiteralExpression {
    pub value: Object,
    pub position: Position,
}

/// A reference to a declared variable, with its resolved type.
#[derive(Debug)]
pub struct BoundVariableExpression {
    pub name: String,
    pub value_type: Type,
    pub position: Position,
}

/// A resolved unary operation.
#[derive(Debug)]
pub struct BoundUnaryExpression {
    pub operator: BoundUnaryOperator,
    pub right: Box<BoundExpression>,
    pub position: Position,
}

/// A resolved binary operation.
#[derive(Debug)]
pub struct BoundBinaryExpression {
    pub left: Box<BoundExpression>,
    pub operator: BoundBinaryOperator,
    pub right: Box<BoundExpression>,
    pub position: Position,
}

/// An assignment to a declared variable.
#[derive(Debug)]
pub struct BoundAssignmentExpression {
    pub name: String,
    pub expression: Box<BoundExpression>,
    pub position: Position,
}

/// Model of a bound expression.
pub open spec fn bexpr_view(e: BoundExpression) -> BoundExpressionView
    decreases e,
{
    match e {
        BoundExpression::Literal(t) => BoundExpressionView::Literal {
            value: t.value@,
            position: t.position,
        },
        BoundExpression::Variable(t) => BoundExpressionView::Variable {
            name: t.name@,
            value_type: t.value_type,
            position: t.position,
        },
        BoundExpression::Unary(t) => BoundExpressionView::Unary {
            operator: t.operator,
            right: Box::new(bexpr_view(*t.right)),
            position: t.position,
        },
        BoundExpression::Binary(t) => BoundExpressionView::Binary {
            left: Box::new(bexpr_view(*t.left)),
            operator: t.operator,
            right: Box::new(bexpr_view(*t.right)),
            position: t.position,
        },
        BoundExpression::Assignment(t) => BoundExpressionView::Assignment {
            name: t.name@,
            expression: Box::new(bexpr_view(*t.expression)),
            position: t.position,
        },
    }
}

impl View for BoundExpression {
    type V = BoundExpressionView;

    open spec fn view(&self) -> BoundExpressionView {
        bexpr_view(*self)
    }
}

impl BoundExpression {
    /// The resolved static type of this expression.
    pub fn get_type(&self) -> (t: Type)
        ensures
            t == bexpr_type(self@),
        decreases *self,
    {
        match self {
            BoundExpression::Literal(e) => e.get_type(),
            BoundExpression::Variable(e) => e.get_type(),
            BoundExpression::Unary(e) => e.get_type(),
            BoundExpression::Binary(e) => e.get_type(),
            BoundExpression::Assignment(e) => e.expression.get_type(),
        }
    }

    /// The source position this expression carries.
    pub fn get_position(&self) -> (p: Position)
        ensures
            p == bexpr_position(self@),
    {
        match self {
            BoundExpression::Literal(e) => e.get_position(),
            BoundExpression::Variable(e) => e.get_position(),
            BoundExpression::Unary(e) => e.get_position(),
            BoundExpression::Binary(e) => e.get_position(),
            BoundExpression::Assignment(e) => e.get_position(),
        }
    }
}

impl BoundLiteralExpression {
    pub fn new(value: Object, position: Position) -> (e: BoundLiteralExpression)
        ensures
            e == (BoundLiteralExpression { value, position }),
    {
        BoundLiteralExpression { value, position }
    }

    pub fn get_type(&self) -> (t: Type)
        ensures
            t == type_of(self.value@),
    {
        self.value.get_type()
    }

    pub fn get_position(&self) -> (p: Position)
        ensures
            p == self.position,
    {
        self.position
    }
}

impl BoundVariableExpression {
    pub fn new(name: String, value_type: Type, position: Position) -> (e: BoundVariableExpression)
        ensures
            e == (BoundVariableExpression { name, value_type, position }),
    {
        BoundVariableExpression { name, value_type, position }
    }

    pub fn get_type(&self) -> (t: Type)
        ensures
            t == self.value_type,
    {
        self.value_type
    }

    pub fn get_position(&self) -> (p: Position)
        ensures
            p == self.position,
    {
        self.position
    }
}

impl BoundUnaryExpression {
    pub fn new(operator: BoundUnaryOperator, right: BoundExpression, position: Position) -> (e:
        BoundUnaryExpression)
        ensures
            e.operator == operator,
            e.right == right,
            e.position == position,
    {
        BoundUnaryExpression { operator, right: Box::new(right), position }
    }

    pub fn get_type(&self) -> (t: Type)
        ensures
            t == self.operator.result_type,
    {
        self.operator.result_type
    }

    pub fn get_position(&self) -> (p: Position)
        ensures
            p == self.position,
    {
        self.position
    }
}

impl BoundBinaryExpression {
    pub fn new(
        left: BoundExpression,
        operator: BoundBinaryOperator,
        right: BoundExpression,
        position: Position,
    ) -> (e: BoundBinaryExpression)
        ensures
            e.left == left,
            e.operator == operator,
            e.right == right,
            e.position == position,
    {
        BoundBinaryExpression { left: Box::new(left), operator, right: Box::new(right), position }
    }

    pub fn get_type(&self) -> (t: Type)
        ensures
            t == self.operator.result_type,
    {
        self.operator.result_type
    }

    pub fn get_position(&self) -> (p: Position)
        ensures
            p == self.position,
    {
        self.position
    }
}

impl BoundAssignmentExpression {
    pub fn new(name: String, expression: BoundExpression, position: Position) -> (e:
        BoundAssignmentExpression)
        ensures
            e.name == name,
            e.expression == expression,
            e.position == position,
    {
        BoundAssignmentExpression { name, expression: Box::new(expression), position }
    }

    pub fn get_type(&self) -> (t: Type)
        ensures
            t == bexpr_type(self.expression@),
    {
        self.expression.get_type()
    }

    pub fn get_position(&self) -> (p: Position)
        ensures
            p == self.position,
    {
        self.position
    }
}

/// A bound statement.
#[derive(Debug)]
pub enum BoundStatement {
    Expression(BoundExpressionStatement),
    Print(BoundPrintStatement),
    Var(BoundVarStatement),
    Block(BoundBlockStatement),
    If(BoundIfStatement),
    While(BoundWhileStatement),
    For(BoundForStatement),
}

/// An expression evaluated for its value and effects alone.
#[derive(Debug)]
pub struct BoundExpressionStatement {
    pub expression: BoundExpression,
}

/// Prints the textual form of an expression's value.
#[derive(Debug)]
pub struct BoundPrintStatement {
    pub expression: BoundExpression,
}

/// Declares a name in the current scope, initialized to an expression.
#[derive(Debug)]
pub struct BoundVarStatement {
    pub name: String,
    pub expression: Box<BoundExpression>,
}

/// A list of statements in a scope of its own.
#[derive(Debug)]
pub struct BoundBlockStatement {
    pub statements: Vec<BoundStatement>,
}

/// A conditional with an optional else clause.
#[derive(Debug)]
pub struct BoundIfStatement {
    pub condition: BoundExpression,
    pub consequence: Box<BoundStatement>,
    pub else_clause: Box<Option<BoundStatement>>,
}

/// A pre-tested loop.
#[derive(Debug)]
pub struct BoundWhileStatement {
    pub condition: BoundExpression,
    pub body: Box<BoundStatement>,
}

/// A counting loop over the half-open range between two bounds.
#[derive(Debug)]
pub struct BoundForStatement {
    pub identifier: String,
    pub lower_bound: BoundExpression,
    pub upper_bound: BoundExpression,
    pub body: Box<BoundStatement>,
}

/// Model of a bound statement.
pub open spec fn bstmt_view(s: BoundStatement) -> BoundStatementView
    decreases s,
{
    match s {
        BoundStatement::Expression(t) => BoundStatementView::Expression {
            expression: t.expression@,
        },
        BoundStatement::Print(t) => BoundStatementView::Print { expression: t.expression@ },
        BoundStatement::Var(t) => BoundStatementView::Var {
            name: t.name@,
            expression: bexpr_view(*t.expression),
        },
        BoundStatement::Block(t) => BoundStatementView::Block {
            statements: bstmts_view(t.statements@),
        },
        BoundStatement::If(t) => BoundStatementView::If {
            condition: t.condition@,
            consequence: Box::new(bstmt_view(*t.consequence)),
            else_clause: match *t.else_clause {
                Some(e) => Some(Box::new(bstmt_view(e))),
                None => None,
            },
        },
        BoundStatement::While(t) => BoundStatementView::While {
            condition: t.condition@,
            body: Box::new(bstmt_view(*t.body)),
        },
        BoundStatement::For(t) => BoundStatementView::For {
            identifier: t.identifier@,
            lower_bound: t.lower_bound@,
            upper_bound: t.upper_bound@,
            body: Box::new(bstmt_view(*t.body)),
        },
    }
}

/// Model of a bound statement list, in order.
pub open spec fn bstmts_view(s: Seq<BoundStatement>) -> Seq<BoundStatementView>
    decreases s,
{
    if s.len() == 0 {
        Seq::empty()
    } else {
        seq![bstmt_view(s[0])] + bstmts_view(s.drop_first())
    }
}

impl View for BoundStatement {
    type V = BoundStatementView;

    open spec fn view(&self) -> BoundStatementView {
        bstmt_view(*self)
    }
}

/// Basic structure lemma: the model of a bound statement list maps the model
/// of each element in order.
pub proof fn lemma_bstmts_view(s: Seq<BoundStatement>)
    ensures
        bstmts_view(s).len() == s.len(),
        forall|i: int| 0 <= i < s.len() ==> #[trigger] bstmts_view(s)[i] == bstmt_view(s[i]),
    decreases s,
{
    if s.len() > 0 {
        lemma_bstmts_view(s.drop_first());
        assert forall|i: int| 0 <= i < s.len() implies #[trigger] bstmts_view(s)[i] == bstmt_view(
            s[i],
        ) by {
            if i > 0 {
                assert(s.drop_first()[i - 1] == s[i]);
                assert(bstmts_view(s)[i] == bstmts_view(s.drop_first())[i - 1]);
            }
        }
    }
}

impl BoundExpressionStatement {
    pub fn new(expression: BoundExpression) -> (s: BoundExpressionStatement)
        ensures
            s.expression == expression,
    {
        BoundExpressionStatement { expression }
    }
}

impl BoundPrintStatement {
    pub fn new(expression: BoundExpression) -> (s: BoundPrintStatement)
        ensures
            s.expression == expression,
    {
        BoundPrintStatement { expression }
    }
}

impl BoundVarStatement {
    pub fn new(name: String, expression: BoundExpression) -> (s: BoundVarStatement)
        ensures
            s.name == name,
            s.expression == expression,
    {
        BoundVarStatement { name, expression: Box::new(expression) }
    }
}

impl BoundBlockStatement {
    pub fn new(statements: Vec<BoundStatement>) -> (s: BoundBlockStatement)
        ensures
            s.statements == statements,
    {
        BoundBlockStatement { statements }
    }
}

impl BoundIfStatement {
    pub fn new(
        condition: BoundExpression,
        consequence: BoundStatement,
        else_clause: Option<BoundStatement>,
    ) -> (s: BoundIfStatement)
        ensures
            s.condition == condition,
            s.consequence == consequence,
            s.else_clause == else_clause,
    {
        BoundIfStatement {
            condition,
            consequence: Box::new(consequence),
            else_clause: Box::new(else_clause),
        }
    }
}

impl BoundWhileStatement {
    pub fn new(condition: BoundExpression, body: BoundStatement) -> (s: BoundWhileStatement)
        ensures
            s.condition == condition,
            s.body == body,
    {
        BoundWhileStatement { condition, body: Box::new(body) }
    }
}

impl BoundForStatement {
    pub fn new(
        identifier: String,
        lower_bound: BoundExpression,
        upper_bound: BoundExpression,
        body: BoundStatement,
    ) -> (s: BoundForStatement)
        ensures
            s.identifier == identifier,
            s.lower_bound == lower_bound,
            s.upper_bound == upper_bound,
            s.body == body,
    {
        BoundForStatement { identifier, lower_bound, upper_bound, body: Box::new(body) }
    }
}

} // verus!
