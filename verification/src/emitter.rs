//! An alternate backend over the same bound tree: instead of evaluating it,
//! it prints equivalent source text in a small imperative target language
//! built around `fmt.Println`, one `func main` per program.
//!
//! It exists as evidence that the bound tree is a stable contract other
//! backends can build on; its whole behaviour is the text function below.

use vstd::prelude::*;
use vstd::string::*;

use crate::bound_tree::bexpr_view;
use crate::bound_tree::bstmt_view;
use crate::bound_tree::bstmts_view;
use crate::bound_tree::lemma_bstmts_view;
use crate::bound_tree::BoundBinaryOperationKind;
use crate::bound_tree::BoundExpression;
use crate::bound_tree::BoundExpressionView;
use crate::bound_tree::BoundStatement;
use crate::bound_tree::BoundStatementView;
use crate::bound_tree::BoundUnaryOperationKind;
use crate::types::render_value;

verus! {

/// The symbol a binary operation prints as.
pub open spec fn binary_operation_text(kind: BoundBinaryOperationKind) -> Seq<char> {
    match kind {
        BoundBinaryOperationKind::Addition => "+"@,
        BoundBinaryOperationKind::Subtraction => "-"@,
        BoundBinaryOperationKind::Multiplication => "*"@,
        BoundBinaryOperationKind::Division => "/"@,
        BoundBinaryOperationKind::Greater => ">"@,
        BoundBinaryOperationKind::Lesser => "<"@,
        BoundBinaryOperationKind::GreaterEqual => ">="@,
        BoundBinaryOperationKind::LesserEqual => "<="@,
        BoundBinaryOperationKind::LogicalAnd => "&&"@,
        BoundBinaryOperationKind::LogicalOr => "||"@,
        BoundBinaryOperationKind::NotEqual => "!="@,
        BoundBinaryOperationKind::Equal => "=="@,
    }
}

/// The symbol a unary operation prints as.
pub open spec fn unary_operation_text(kind: BoundUnaryOperationKind) -> Seq<char> {
    match kind {
        BoundUnaryOperationKind::Identity => "+"@,
        BoundUnaryOperationKind::Negation => "-"@,
        BoundUnaryOperationKind::LogicalNegation => "!"@,
    }
}

impl BoundBinaryOperationKind {
    /// The symbol this operation prints as.
    pub fn text(&self) -> (r: &'static str)
        ensures
            r@ == binary_operation_text(*self),
    {
        match self {
            BoundBinaryOperationKind::Addition => "+",
            BoundBinaryOperationKind::Subtraction => "-",
            BoundBinaryOperationKind::Multiplication => "*",
            BoundBinaryOperationKind::Division => "/",
            BoundBinaryOperationKind::Greater => ">",
            BoundBinaryOperationKind::Lesser => "<",
            BoundBinaryOperationKind::GreaterEqual => ">=",
            BoundBinaryOperationKind::LesserEqual => "<=",
            BoundBinaryOperationKind::LogicalAnd => "&&",
            BoundBinaryOperationKind::LogicalOr => "||",
            BoundBinaryOperationKind::NotEqual => "!=",
            BoundBinaryOperationKind::Equal => "==",
        }
    }
}

impl BoundUnaryOperationKind {
    /// The symbol this operation prints as.
    pub fn text(&self) -> (r: &'static str)
        ensures
            r@ == unary_operation_text(*self),
    {
        match self {
            BoundUnaryOperationKind::Identity => "+",
            BoundUnaryOperationKind::Negation => "-",
            BoundUnaryOperationKind::LogicalNegation => "!",
        }
    }
}

/// The text one bound expression compiles to.
pub open spec fn emit_expr(e: BoundExpressionView) -> Seq<char>
    decreases e,
{
    match e {
        BoundExpressionView::Literal { value, .. } => render_value(value),
        BoundExpressionView::Variable { name, .. } => name,
        BoundExpressionView::Unary { operator, right, .. } => unary_operation_text(
            operator.operation_kind,
        ) + emit_expr(*right),
        BoundExpressionView::Binary { left, operator, right, .. } => emit_expr(*left)
            + binary_operation_text(operator.operation_kind) + emit_expr(*right),
        BoundExpressionView::Assignment { name, expression, .. } => name + "="@ + emit_expr(
            *expression,
        ),
    }
}

/// The text one bound statement compiles to.
pub open spec fn emit_stmt(s: BoundStatementView) -> Seq<char>
    decreases s, 1int,
{
    match s {
        BoundStatementView::Expression { expression } => emit_expr(expression) + "\n"@,
        BoundStatementView::Print { expression } => "fmt.Println("@ + emit_expr(expression)
            + ")\n"@,
        BoundStatementView::Var { name, expression } => name + ":="@ + emit_expr(expression)
            + "\n"@,
        BoundStatementView::Block { statements } => "{"@ + emit_stmts(statements) + "}"@,
        BoundStatementView::If { condition, consequence, else_clause } => {
            let head = "if "@ + emit_expr(condition) + " {\n "@ + emit_stmt(*consequence)
                + " }\n"@;
            match else_clause {
                Some(e) => head + "else {\n "@ + emit_stmt(*e) + " }\n"@,
                None => head,
            }
        },
        BoundStatementView::While { condition, body } => "for "@ + emit_expr(condition) + " {\n "@
            + emit_stmt(*body) + " }\n"@,
        BoundStatementView::For { identifier, lower_bound, upper_bound, body } => "for "@
            + identifier + " := "@ + emit_expr(lower_bound) + "; "@ + emit_expr(lower_bound)
            + " < "@ + emit_expr(upper_bound) + "; "@ + identifier + "++ {\n "@ + emit_stmt(*body)
            + " }\n"@,
    }
}

/// The text a bound statement list compiles to, in order.
pub open spec fn emit_stmts(list: Seq<BoundStatementView>) -> Seq<char>
    decreases list, 0int,
{
    if list.len() == 0 {
        Seq::empty()
    } else {
        emit_stmt(list[0]) + emit_stmts(list.drop_first())
    }
}

/// The text a whole bound program compiles to: a `main` around its
/// statements.
pub open spec fn emit_program(list: Seq<BoundStatementView>) -> Seq<char> {
    "package main\nimport (\"fmt\")\nfunc main() {\n"@ + emit_stmts(list) + "}\n"@
}

/// The alternate backend: compiles a bound program to target source text.
#[derive(Debug)]
pub struct Compiler {
    pub bound_statements: Vec<BoundStatement>,
}

impl Compiler {
    /// A backend over the given bound program.
    pub fn new(bound_statements: Vec<BoundStatement>) -> (r: Compiler)
        ensures
            r.bound_statements == bound_statements,
    {
        Compiler { bound_statements }
    }

    /// Compiles the whole program.
    pub fn compile(&self) -> (r: String)
        ensures
            r@ == emit_program(bstmts_view(self.bound_statements@)),
    {
        let mut code = String::from_str("package main\nimport (\"fmt\")\nfunc main() {\n");
        compile_statements(&self.bound_statements, &mut code);
        code.append("}\n");
        proof {
            assert(code@ =~= emit_program(bstmts_view(self.bound_statements@)));
        }
        code
    }
}

/// Appends the text of each statement in order.
#[verifier::loop_isolation(false)]
fn compile_statements(statements: &Vec<BoundStatement>, code: &mut String)
    ensures
        final(code)@ == old(code)@ + emit_stmts(bstmts_view(statements@)),
    decreases *statements, 1int,
{
    let ghost full = bstmts_view(statements@);
    let ghost code0 = code@;
    let mut i: usize = 0;
    proof {
        lemma_bstmts_view(statements@);
        assert(full.skip(0) =~= full);
        assert(code@ =~= code0 + emit_prefix(full, 0));
    }
    while i < statements.len()
        invariant
            i <= statements@.len(),
            full == bstmts_view(statements@),
            code@ == code0 + emit_prefix(full, i as int),
        decreases statements@.len() - i,
    {
        proof {
            assert(decreases_to!(*statements => statements@));
            assert(decreases_to!(statements@ => statements@[i as int]));
            assert(full[i as int] == bstmt_view(statements@[i as int]));
        }
        compile_statement(&statements[i], code);
        proof {
            lemma_emit_prefix_step(full, i as int);
            assert(code@ =~= code0 + emit_prefix(full, i + 1));
        }
        i = i + 1;
    }
    proof {
        lemma_emit_prefix_full(full);
        assert(code@ =~= old(code)@ + emit_stmts(full));
    }
}

/// The text of the first `i` statements.
spec fn emit_prefix(list: Seq<BoundStatementView>, i: int) -> Seq<char> {
    emit_stmts(list.take(i))
}

proof fn lemma_emit_prefix_step(list: Seq<BoundStatementView>, i: int)
    requires
        0 <= i < list.len(),
    ensures
        emit_prefix(list, i + 1) == emit_prefix(list, i) + emit_stmt(list[i]),
    decreases i,
{
    if i == 0 {
        let t1 = list.take(1);
        assert(t1.len() == 1);
        assert(t1[0] == list[0]);
        assert(t1.drop_first() =~= Seq::<BoundStatementView>::empty());
        assert(emit_stmts(t1.drop_first()) == Seq::<char>::empty());
        assert(emit_stmts(t1) == emit_stmt(list[0]) + emit_stmts(t1.drop_first()));
        assert(list.take(0) =~= Seq::<BoundStatementView>::empty());
        assert(emit_stmts(list.take(0)) == Seq::<char>::empty());
        assert(emit_prefix(list, 1) =~= emit_stmt(list[0]));
        assert(emit_prefix(list, 0) + emit_stmt(list[0]) =~= emit_stmt(list[0]));
    } else {
        lemma_emit_prefix_step(list.drop_first(), i - 1);
        assert(list.take(i + 1)[0] == list[0]);
        assert(list.take(i + 1).drop_first() =~= list.drop_first().take(i));
        assert(list.take(i).drop_first() =~= list.drop_first().take(i - 1));
        assert(list.take(i)[0] == list[0]);
        assert(list.drop_first()[i - 1] == list[i]);
        assert(emit_prefix(list, i + 1) =~= emit_stmt(list[0]) + emit_prefix(
            list.drop_first(),
            i,
        ));
        assert(emit_prefix(list, i) =~= emit_stmt(list[0]) + emit_prefix(
            list.drop_first(),
            i - 1,
        ));
        assert(emit_prefix(list, i + 1) =~= emit_prefix(list, i) + emit_stmt(list[i]));
    }
}

proof fn lemma_emit_prefix_full(list: Seq<BoundStatementView>)
    ensures
        emit_prefix(list, list.len() as int) == emit_stmts(list),
{
    assert(list.take(list.len() as int) =~= list);
}

/// Appends the text of one statement.
#[verifier::rlimit(50)]
fn compile_statement(statement: &BoundStatement, code: &mut String)
    ensures
        final(code)@ == old(code)@ + emit_stmt(bstmt_view(*statement)),
    decreases *statement, 0int,
{
    match statement {
        BoundStatement::Expression(t) => {
            compile_expression(&t.expression, code);
            code.append("\n");
            proof {
                assert(code@ =~= old(code)@ + emit_stmt(bstmt_view(*statement)));
            }
        },
        BoundStatement::Print(t) => {
            code.append("fmt.Println(");
            compile_expression(&t.expression, code);
            code.append(")\n");
            proof {
                assert(code@ =~= old(code)@ + emit_stmt(bstmt_view(*statement)));
            }
        },
        BoundStatement::Var(t) => {
            code.append(t.name.as_str());
            code.append(":=");
            compile_expression(&t.expression, code);
            code.append("\n");
            proof {
                assert(code@ =~= old(code)@ + emit_stmt(bstmt_view(*statement)));
            }
        },
        BoundStatement::Block(t) => {
            proof {
                assert(decreases_to!(*statement => *t));
                assert(decreases_to!(*t => t.statements));
            }
            code.append("{");
            compile_statements(&t.statements, code);
            code.append("}");
            proof {
                assert(code@ =~= old(code)@ + emit_stmt(bstmt_view(*statement)));
            }
        },
        BoundStatement::If(t) => {
            proof {
                assert(decreases_to!(*statement => *t));
            }
            code.append("if ");
            compile_expression(&t.condition, code);
            code.append(" {\n ");
            compile_statement(&t.consequence, code);
            code.append(" }\n");
            match &*t.else_clause {
                Some(e) => {
                    code.append("else {\n ");
                    compile_statement(e, code);
                    code.append(" }\n");
                },
                None => {},
            }
            proof {
                assert(code@ =~= old(code)@ + emit_stmt(bstmt_view(*statement)));
            }
        },
        BoundStatement::While(t) => {
            proof {
                assert(decreases_to!(*statement => *t));
            }
            code.append("for ");
            compile_expression(&t.condition, code);
            code.append(" {\n ");
            compile_statement(&t.body, code);
            code.append(" }\n");
            proof {
                assert(code@ =~= old(code)@ + emit_stmt(bstmt_view(*statement)));
            }
        },
        BoundStatement::For(t) => {
            proof {
                assert(decreases_to!(*statement => *t));
            }
            code.append("for ");
            code.append(t.identifier.as_str());
            code.append(" := ");
            compile_expression(&t.lower_bound, code);
            code.append("; ");
            compile_expression(&t.lower_bound, code);
            code.append(" < ");
            compile_expression(&t.upper_bound, code);
            code.append("; ");
            code.append(t.identifier.as_str());
            code.append("++ {\n ");
            compile_statement(&t.body, code);
            code.append(" }\n");
            proof {
                assert(code@ =~= old(code)@ + emit_stmt(bstmt_view(*statement)));
            }
        },
    }
}

/// Appends the text of one expression.
fn compile_expression(expression: &BoundExpression, code: &mut String)
    ensures
        final(code)@ == old(code)@ + emit_expr(bexpr_view(*expression)),
    decreases *expression,
{
    match expression {
        BoundExpression::Literal(e) => {
            let text = e.value.render();
            code.append(text.as_str());
        },
        BoundExpression::Variable(e) => {
            code.append(e.name.as_str());
        },
        BoundExpression::Unary(e) => {
            code.append(e.operator.operation_kind.text());
            compile_expression(&e.right, code);
            proof {
                assert(code@ =~= old(code)@ + emit_expr(bexpr_view(*expression)));
            }
        },
        BoundExpression::Binary(e) => {
            compile_expression(&e.left, code);
            code.append(e.operator.operation_kind.text());
            compile_expression(&e.right, code);
            proof {
                assert(code@ =~= old(code)@ + emit_expr(bexpr_view(*expression)));
            }
        },
        BoundExpression::Assignment(e) => {
            code.append(e.name.as_str());
            code.append("=");
            compile_expression(&e.expression, code);
            proof {
                assert(code@ =~= old(code)@ + emit_expr(bexpr_view(*expression)));
            }
        },
    }
}

} // verus!
