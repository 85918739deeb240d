//! The binder: one left-to-right walk over the syntax tree that resolves
//! names against the typed scope chain, assigns a static type to every
//! expression, validates operators and assignments against the fixed operator
//! table, and emits the parallel bound tree.
//!
//! Binding never halts on an error: each rule that fails reports a diagnostic
//! and substitutes a unit-typed placeholder literal, so the walk always
//! completes and later stages always receive a structurally valid tree.

use vstd::prelude::*;

use crate::bindings::type_env_get;
use crate::bindings::type_env_reset;
use crate::bindings::type_env_set;
use crate::bindings::Bindings;
use crate::bound_tree::bexpr_position;
use crate::bound_tree::bexpr_type;
use crate::bound_tree::bexpr_view;
use crate::bound_tree::bstmt_view;
use crate::bound_tree::bstmts_view;
use crate::bound_tree::lemma_bstmts_view;
use crate::bound_tree::spec_bind_binary;
use crate::bound_tree::spec_bind_unary;
use crate::bound_tree::BoundAssignmentExpression;
use crate::bound_tree::BoundBinaryExpression;
use crate::bound_tree::BoundBinaryOperator;
use crate::bound_tree::BoundBlockStatement;
use crate::bound_tree::BoundExpression;
use crate::bound_tree::BoundExpressionStatement;
use crate::bound_tree::BoundExpressionView;
use crate::bound_tree::BoundForStatement;
use crate::bound_tree::BoundIfStatement;
use crate::bound_tree::BoundLiteralExpression;
use crate::bound_tree::BoundPrintStatement;
use crate::bound_tree::BoundStatement;
use crate::bound_tree::BoundStatementView;
use crate::bound_tree::BoundUnaryExpression;
use crate::bound_tree::BoundUnaryOperator;
use crate::bound_tree::BoundVarStatement;
use crate::bound_tree::BoundVariableExpression;
use crate::bound_tree::BoundWhileStatement;
use crate::diagnostic::msg_invalid_assignment;
use crate::diagnostic::msg_invalid_binary_operator;
use crate::diagnostic::msg_invalid_expression_type;
use crate::diagnostic::msg_undefined_name;
use crate::diagnostic::msg_invalid_unary_operator;
use crate::diagnostic::DiagnosticBag;
use crate::diagnostic::DiagnosticView;
use crate::diagnostic::Position;
use crate::syntax_tree::expr_position;
use crate::syntax_tree::expr_view;
use crate::syntax_tree::stmt_view;
use crate::syntax_tree::stmts_view;
use crate::syntax_tree::lemma_stmts_view;
use crate::syntax_tree::Expression;
use crate::syntax_tree::ExpressionView;
use crate::syntax_tree::Statement;
use crate::syntax_tree::StatementView;
use crate::types::type_of;
use crate::types::Object;
use crate::types::Type;
use crate::types::Value;

verus! {

/// The typed scope chains the binder threads through a walk.
pub type TypeEnv = Seq<Map<Seq<char>, Type>>;

/// What binding one expression produces: the bound node, the scope chain
/// after it, and the full diagnostic list after it.
pub struct BindExprResult {
    pub expr: BoundExpressionView,
    pub env: TypeEnv,
    pub diags: Seq<DiagnosticView>,
}

/// What binding one statement produces.
pub struct BindStmtResult {
    pub stmt: BoundStatementView,
    pub env: TypeEnv,
    pub diags: Seq<DiagnosticView>,
}

/// What binding a statement list produces.
pub struct BindStmtsResult {
    pub stmts: Seq<BoundStatementView>,
    pub env: TypeEnv,
    pub diags: Seq<DiagnosticView>,
}

/// The unit-typed placeholder substituted when binding fails.
pub open spec fn placeholder(position: Position) -> BoundExpressionView {
    BoundExpressionView::Literal { value: Value::Unit, position }
}

/// Binding an expression: names resolve against the chain, operators resolve
/// by exact match in the fixed table, an assignment requires the declared
/// type to equal the right-hand type, and every failure reports a diagnostic
/// and substitutes a unit placeholder.
pub open spec fn spec_bind_expr(e: ExpressionView, env: TypeEnv, diags: Seq<DiagnosticView>) -> BindExprResult
    decreases e,
{
    match e {
        ExpressionView::Literal { value, position } => BindExprResult {
            expr: BoundExpressionView::Literal { value, position },
            env,
            diags,
        },
        ExpressionView::Name { identifier } => {
            match type_env_get(env, identifier.lexeme) {
                Some(t) => BindExprResult {
                    expr: BoundExpressionView::Variable {
                        name: identifier.lexeme,
                        value_type: t,
                        position: identifier.position,
                    },
                    env,
                    diags,
                },
                None => BindExprResult {
                    expr: placeholder(identifier.position),
                    env,
                    diags: diags.push(
                        DiagnosticView {
                            position: identifier.position,
                            message: msg_undefined_name(identifier.lexeme),
                        },
                    ),
                },
            }
        },
        ExpressionView::Parenthesized { expression } => spec_bind_expr(*expression, env, diags),
        ExpressionView::Unary { operator, right } => {
            let r = spec_bind_expr(*right, env, diags);
            match spec_bind_unary(operator.kind, bexpr_type(r.expr)) {
                Some(op) => BindExprResult {
                    expr: BoundExpressionView::Unary {
                        operator: op,
                        right: Box::new(r.expr),
                        position: operator.position,
                    },
                    env: r.env,
                    diags: r.diags,
                },
                None => BindExprResult {
                    expr: placeholder(operator.position),
                    env: r.env,
                    diags: r.diags.push(
                        DiagnosticView {
                            position: operator.position,
                            message: msg_invalid_unary_operator(
                                operator.kind,
                                bexpr_type(r.expr),
                            ),
                        },
                    ),
                },
            }
        },
        ExpressionView::Binary { left, operator, right } => {
            let l = spec_bind_expr(*left, env, diags);
            let r = spec_bind_expr(*right, l.env, l.diags);
            match spec_bind_binary(operator.kind, bexpr_type(l.expr), bexpr_type(r.expr)) {
                Some(op) => BindExprResult {
                    expr: BoundExpressionView::Binary {
                        left: Box::new(l.expr),
                        operator: op,
                        right: Box::new(r.expr),
                        position: operator.position,
                    },
                    env: r.env,
                    diags: r.diags,
                },
                None => BindExprResult {
                    expr: placeholder(operator.position),
                    env: r.env,
                    diags: r.diags.push(
                        DiagnosticView {
                            position: operator.position,
                            message: msg_invalid_binary_operator(
                                operator.kind,
                                bexpr_type(l.expr),
                                bexpr_type(r.expr),
                            ),
                        },
                    ),
                },
            }
        },
        ExpressionView::Assignment { identifier, expression } => {
            let r = spec_bind_expr(*expression, env, diags);
            match type_env_get(r.env, identifier.lexeme) {
                Some(t) => {
                    if t == bexpr_type(r.expr) {
                        BindExprResult {
                            expr: BoundExpressionView::Assignment {
                                name: identifier.lexeme,
                                expression: Box::new(r.expr),
                                position: identifier.position,
                            },
                            env: type_env_reset(r.env, identifier.lexeme, bexpr_type(r.expr)),
                            diags: r.diags,
                        }
                    } else {
                        BindExprResult {
                            expr: placeholder(identifier.position),
                            env: r.env,
                            diags: r.diags.push(
                                DiagnosticView {
                                    position: identifier.position,
                                    message: msg_invalid_assignment(
                                        identifier.lexeme,
                                        t,
                                        bexpr_type(r.expr),
                                    ),
                                },
                            ),
                        }
                    }
                },
                None => BindExprResult {
                    expr: placeholder(identifier.position),
                    env: r.env,
                    diags: r.diags.push(
                        DiagnosticView {
                            position: identifier.position,
                            message: msg_undefined_name(identifier.lexeme),
                        },
                    ),
                },
            }
        },
    }
}

/// Binding a statement: declarations write the initializer's type into the
/// innermost frame, a block binds its body in a fresh frame, a condition that
/// is not boolean (or a loop bound that is not numeric) reports a diagnostic
/// and replaces the whole construct with a no-op unit expression statement.
pub open spec fn spec_bind_stmt(s: StatementView, env: TypeEnv, diags: Seq<DiagnosticView>) -> BindStmtResult
    decreases s,
{
    match s {
        StatementView::Expression { expression } => {
            let r = spec_bind_expr(expression, env, diags);
            BindStmtResult {
                stmt: BoundStatementView::Expression { expression: r.expr },
                env: r.env,
                diags: r.diags,
            }
        },
        StatementView::Print { expression } => {
            let r = spec_bind_expr(expression, env, diags);
            BindStmtResult {
                stmt: BoundStatementView::Print { expression: r.expr },
                env: r.env,
                diags: r.diags,
            }
        },
        StatementView::Var { identifier, expression } => {
            let r = spec_bind_expr(expression, env, diags);
            BindStmtResult {
                stmt: BoundStatementView::Var { name: identifier.lexeme, expression: r.expr },
                env: type_env_set(r.env, identifier.lexeme, bexpr_type(r.expr)),
                diags: r.diags,
            }
        },
        StatementView::Block { statements } => {
            let r = spec_bind_stmts(statements, env.push(Map::empty()), diags);
            BindStmtResult {
                stmt: BoundStatementView::Block { statements: r.stmts },
                env: r.env.drop_last(),
                diags: r.diags,
            }
        },
        StatementView::If { condition, consequence, else_clause } => {
            let rc = spec_bind_expr(condition, env, diags);
            if bexpr_type(rc.expr) == Type::Boolean {
                let rt = spec_bind_stmt(*consequence, rc.env, rc.diags);
                match else_clause {
                    Some(e) => {
                        let re = spec_bind_stmt(*e, rt.env, rt.diags);
                        BindStmtResult {
                            stmt: BoundStatementView::If {
                                condition: rc.expr,
                                consequence: Box::new(rt.stmt),
                                else_clause: Some(Box::new(re.stmt)),
                            },
                            env: re.env,
                            diags: re.diags,
                        }
                    },
                    None => BindStmtResult {
                        stmt: BoundStatementView::If {
                            condition: rc.expr,
                            consequence: Box::new(rt.stmt),
                            else_clause: None,
                        },
                        env: rt.env,
                        diags: rt.diags,
                    },
                }
            } else {
                BindStmtResult {
                    stmt: BoundStatementView::Expression {
                        expression: placeholder(expr_position(condition)),
                    },
                    env: rc.env,
                    diags: rc.diags.push(
                        DiagnosticView {
                            position: bexpr_position(rc.expr),
                            message: msg_invalid_expression_type(
                                Type::Boolean,
                                bexpr_type(rc.expr),
                            ),
                        },
                    ),
                }
            }
        },
        StatementView::While { condition, body } => {
            let rc = spec_bind_expr(condition, env, diags);
            if bexpr_type(rc.expr) == Type::Boolean {
                let rb = spec_bind_stmt(*body, rc.env, rc.diags);
                BindStmtResult {
                    stmt: BoundStatementView::While {
                        condition: rc.expr,
                        body: Box::new(rb.stmt),
                    },
                    env: rb.env,
                    diags: rb.diags,
                }
            } else {
                BindStmtResult {
                    stmt: BoundStatementView::Expression {
                        expression: placeholder(expr_position(condition)),
                    },
                    env: rc.env,
                    diags: rc.diags.push(
                        DiagnosticView {
                            position: bexpr_position(rc.expr),
                            message: msg_invalid_expression_type(
                                Type::Boolean,
                                bexpr_type(rc.expr),
                            ),
                        },
                    ),
                }
            }
        },
        StatementView::For { identifier, lower_bound, upper_bound, body } => {
            let rl = spec_bind_expr(lower_bound, env, diags);
            let ru = spec_bind_expr(upper_bound, rl.env, rl.diags);
            if bexpr_type(rl.expr) == Type::Number && bexpr_type(ru.expr) == Type::Number {
                let rb = spec_bind_stmt(
                    *body,
                    type_env_set(ru.env, identifier.lexeme, Type::Number),
                    ru.diags,
                );
                BindStmtResult {
                    stmt: BoundStatementView::For {
                        identifier: identifier.lexeme,
                        lower_bound: rl.expr,
                        upper_bound: ru.expr,
                        body: Box::new(rb.stmt),
                    },
                    env: rb.env,
                    diags: rb.diags,
                }
            } else {
                let with_lower = if bexpr_type(rl.expr) != Type::Number {
                    ru.diags.push(
                        DiagnosticView {
                            position: bexpr_position(rl.expr),
                            message: msg_invalid_expression_type(
                                Type::Number,
                                bexpr_type(rl.expr),
                            ),
                        },
                    )
                } else {
                    ru.diags
                };
                let with_upper = if bexpr_type(ru.expr) != Type::Number {
                    with_lower.push(
                        DiagnosticView {
                            position: bexpr_position(ru.expr),
                            message: msg_invalid_expression_type(
                                Type::Number,
                                bexpr_type(ru.expr),
                            ),
                        },
                    )
                } else {
                    with_lower
                };
                BindStmtResult {
                    stmt: BoundStatementView::Expression {
                        expression: placeholder(identifier.position),
                    },
                    env: ru.env,
                    diags: with_upper,
                }
            }
        },
    }
}

/// Binding a statement list in order, threading the chain and diagnostics.
pub open spec fn spec_bind_stmts(
    list: Seq<StatementView>,
    env: TypeEnv,
    diags: Seq<DiagnosticView>,
) -> BindStmtsResult
    decreases list,
{
    if list.len() == 0 {
        BindStmtsResult { stmts: Seq::empty(), env, diags }
    } else {
        let first = spec_bind_stmt(list[0], env, diags);
        let rest = spec_bind_stmts(list.drop_first(), first.env, first.diags);
        BindStmtsResult { stmts: seq![first.stmt] + rest.stmts, env: rest.env, diags: rest.diags }
    }
}

/// Binding preserves the number of frames in the chain.
pub proof fn lemma_bind_expr_env_len(e: ExpressionView, env: TypeEnv, diags: Seq<DiagnosticView>)
    ensures
        spec_bind_expr(e, env, diags).env.len() == env.len(),
    decreases e,
{
    match e {
        ExpressionView::Parenthesized { expression } => {
            lemma_bind_expr_env_len(*expression, env, diags);
        },
        ExpressionView::Unary { operator, right } => {
            lemma_bind_expr_env_len(*right, env, diags);
        },
        ExpressionView::Binary { left, operator, right } => {
            lemma_bind_expr_env_len(*left, env, diags);
            let l = spec_bind_expr(*left, env, diags);
            lemma_bind_expr_env_len(*right, l.env, l.diags);
        },
        ExpressionView::Assignment { identifier, expression } => {
            lemma_bind_expr_env_len(*expression, env, diags);
            let r = spec_bind_expr(*expression, env, diags);
            lemma_type_env_reset_len(r.env, identifier.lexeme, bexpr_type(r.expr));
        },
        _ => {},
    }
}

/// Assigning in the chain preserves the number of frames.
pub proof fn lemma_type_env_reset_len(env: TypeEnv, name: Seq<char>, t: Type)
    ensures
        type_env_reset(env, name, t).len() == env.len(),
    decreases env.len(),
{
    if env.len() > 0 && !env.last().contains_key(name) {
        lemma_type_env_reset_len(env.drop_last(), name, t);
    }
}

/// Binding preserves the number of frames in the chain.
#[verifier::rlimit(50)]
pub proof fn lemma_bind_stmt_env_len(s: StatementView, env: TypeEnv, diags: Seq<DiagnosticView>)
    requires
        env.len() >= 1,
    ensures
        spec_bind_stmt(s, env, diags).env.len() == env.len(),
    decreases s,
{
    match s {
        StatementView::Expression { expression } => {
            lemma_bind_expr_env_len(expression, env, diags);
        },
        StatementView::Print { expression } => {
            lemma_bind_expr_env_len(expression, env, diags);
        },
        StatementView::Var { identifier, expression } => {
            lemma_bind_expr_env_len(expression, env, diags);
        },
        StatementView::Block { statements } => {
            lemma_bind_stmts_env_len(statements, env.push(Map::empty()), diags);
        },
        StatementView::If { condition, consequence, else_clause } => {
            lemma_bind_expr_env_len(condition, env, diags);
            let rc = spec_bind_expr(condition, env, diags);
            if bexpr_type(rc.expr) == Type::Boolean {
                lemma_bind_stmt_env_len(*consequence, rc.env, rc.diags);
                let rt = spec_bind_stmt(*consequence, rc.env, rc.diags);
                match else_clause {
                    Some(e) => {
                        lemma_bind_stmt_env_len(*e, rt.env, rt.diags);
                    },
                    None => {},
                }
            }
        },
        StatementView::While { condition, body } => {
            lemma_bind_expr_env_len(condition, env, diags);
            let rc = spec_bind_expr(condition, env, diags);
            if bexpr_type(rc.expr) == Type::Boolean {
                lemma_bind_stmt_env_len(*body, rc.env, rc.diags);
            }
        },
        StatementView::For { identifier, lower_bound, upper_bound, body } => {
            lemma_bind_expr_env_len(lower_bound, env, diags);
            let rl = spec_bind_expr(lower_bound, env, diags);
            lemma_bind_expr_env_len(upper_bound, rl.env, rl.diags);
            let ru = spec_bind_expr(upper_bound, rl.env, rl.diags);
            if bexpr_type(rl.expr) == Type::Number && bexpr_type(ru.expr) == Type::Number {
                lemma_bind_stmt_env_len(
                    *body,
                    type_env_set(ru.env, identifier.lexeme, Type::Number),
                    ru.diags,
                );
            }
        },
    }
}

/// Binding preserves the number of frames in the chain.
pub proof fn lemma_bind_stmts_env_len(
    list: Seq<StatementView>,
    env: TypeEnv,
    diags: Seq<DiagnosticView>,
)
    requires
        env.len() >= 1,
    ensures
        spec_bind_stmts(list, env, diags).env.len() == env.len(),
    decreases list,
{
    if list.len() > 0 {
        lemma_bind_stmt_env_len(list[0], env, diags);
        let first = spec_bind_stmt(list[0], env, diags);
        lemma_bind_stmts_env_len(list.drop_first(), first.env, first.diags);
    }
}

/// Binding a bare reference to an undeclared name reports exactly one
/// "undefined name" diagnostic, substitutes a unit-typed placeholder, and
/// leaves the scope chain untouched, whatever the name and whatever the
/// chain.
pub proof fn lemma_undefined_name_single_diagnostic(
    identifier: crate::token::TokenView,
    env: TypeEnv,
    diags: Seq<DiagnosticView>,
)
    requires
        type_env_get(env, identifier.lexeme) is None,
    ensures
        ({
            let r = spec_bind_expr(ExpressionView::Name { identifier }, env, diags);
            &&& r.diags == diags.push(
                DiagnosticView {
                    position: identifier.position,
                    message: msg_undefined_name(identifier.lexeme),
                },
            )
            &&& r.env == env
            &&& r.expr == placeholder(identifier.position)
        }),
{
}

/// The binder: walks a syntax tree against the typed scope chain, collecting
/// diagnostics and producing the bound tree.
#[derive(Debug)]
pub struct Binder {
    pub bindings: Bindings,
    pub diagnostic_bag: DiagnosticBag,
}

impl Binder {
    /// A binder over the given chain, reporting into `diagnostic_bag`.
    pub fn new(bindings: Bindings, diagnostic_bag: DiagnosticBag) -> (r: Binder)
        ensures
            r.bindings == bindings,
            r.diagnostic_bag == diagnostic_bag,
    {
        Binder { bindings, diagnostic_bag }
    }

    /// Binds a whole program, statement by statement.
    pub fn bind(&mut self, program: &Vec<Statement>) -> (bound: Vec<BoundStatement>)
        requires
            old(self).bindings.wf(),
        ensures
            final(self).bindings.wf(),
            ({
                let r = spec_bind_stmts(
                    stmts_view(program@),
                    old(self).bindings@,
                    old(self).diagnostic_bag@,
                );
                bstmts_view(bound@) == r.stmts && final(self).bindings@ == r.env
                    && final(self).diagnostic_bag@ == r.diags
            }),
    {
        self.bind_statement_list(program)
    }

    /// Binds a statement list in order.
    #[verifier::rlimit(50)]
    #[verifier::loop_isolation(false)]
    fn bind_statement_list(&mut self, statements: &Vec<Statement>) -> (bound: Vec<BoundStatement>)
        requires
            old(self).bindings.wf(),
        ensures
            final(self).bindings.wf(),
            ({
                let r = spec_bind_stmts(
                    stmts_view(statements@),
                    old(self).bindings@,
                    old(self).diagnostic_bag@,
                );
                bstmts_view(bound@) == r.stmts && final(self).bindings@ == r.env
                    && final(self).diagnostic_bag@ == r.diags
            }),
        decreases *statements, 1int,
    {
        let ghost env0 = self.bindings@;
        let ghost diags0 = self.diagnostic_bag@;
        let ghost full = stmts_view(statements@);
        let ghost r = spec_bind_stmts(full, env0, diags0);
        let mut bound: Vec<BoundStatement> = Vec::new();
        let mut i: usize = 0;
        proof {
            lemma_stmts_view(statements@);
            assert(full.skip(0) =~= full);
        }
        while i < statements.len()
            invariant
                self.bindings.wf(),
                i <= statements@.len(),
                bound@.len() == i,
                ({
                    let rest = spec_bind_stmts(
                        full.skip(i as int),
                        self.bindings@,
                        self.diagnostic_bag@,
                    );
                    r.stmts == bstmts_view(bound@) + rest.stmts && r.env == rest.env && r.diags
                        == rest.diags
                }),
            decreases statements@.len() - i,
        {
            let ghost env_b = self.bindings@;
            let ghost diags_b = self.diagnostic_bag@;
            let ghost remaining = full.skip(i as int);
            proof {
                assert(decreases_to!(*statements => statements@));
                assert(decreases_to!(statements@ => statements@[i as int]));
                assert(remaining[0] == full[i as int]);
                assert(full[i as int] == stmt_view(statements@[i as int]));
                assert(remaining.drop_first() =~= full.skip(i + 1));
            }
            let bound_statement = self.bind_statement(&statements[i]);
            let ghost bound_b = bound@;
            bound.push(bound_statement);
            proof {
                let first = spec_bind_stmt(remaining[0], env_b, diags_b);
                let rest = spec_bind_stmts(full.skip(i + 1), first.env, first.diags);
                assert(spec_bind_stmts(remaining, env_b, diags_b).stmts == seq![first.stmt]
                    + rest.stmts);
                assert(bstmt_view(bound@.last()) == first.stmt);
                lemma_bstmts_view(bound@);
                lemma_bstmts_view(bound_b);
                assert(bound@ == bound_b.push(bound@.last()));
                assert(bstmts_view(bound@) =~= bstmts_view(bound_b) + seq![first.stmt]) by {
                    assert(bstmts_view(bound@).len() == bound@.len());
                    assert forall|j: int| 0 <= j < bound@.len() implies #[trigger] bstmts_view(
                        bound@,
                    )[j] == (bstmts_view(bound_b) + seq![first.stmt])[j] by {
                        if j < bound_b.len() {
                            assert(bound@[j] == bound_b[j]);
                            assert(bstmts_view(bound@)[j] == bstmt_view(bound@[j]));
                            assert(bstmts_view(bound_b)[j] == bstmt_view(bound_b[j]));
                        } else {
                            assert(bound@[j] == bound@.last());
                            assert(bstmts_view(bound@)[j] == bstmt_view(bound@[j]));
                        }
                    }
                }
                assert(r.stmts =~= (bstmts_view(bound_b) + seq![first.stmt]) + rest.stmts);
                assert(r.stmts =~= bstmts_view(bound@) + rest.stmts);
            }
            i = i + 1;
        }
        proof {
            assert(full.skip(statements@.len() as int) =~= Seq::<StatementView>::empty());
            assert(r.stmts =~= bstmts_view(bound@) + Seq::<BoundStatementView>::empty());
            assert(r.stmts =~= bstmts_view(bound@));
        }
        bound
    }

    /// Binds one statement.
    #[verifier::rlimit(100)]
    pub fn bind_statement(&mut self, statement: &Statement) -> (bound: BoundStatement)
        requires
            old(self).bindings.wf(),
        ensures
            final(self).bindings.wf(),
            ({
                let r = spec_bind_stmt(
                    stmt_view(*statement),
                    old(self).bindings@,
                    old(self).diagnostic_bag@,
                );
                bstmt_view(bound) == r.stmt && final(self).bindings@ == r.env
                    && final(self).diagnostic_bag@ == r.diags
            }),
        decreases *statement, 0int,
    {
        match statement {
            Statement::Expression(s) => BoundStatement::Expression(
                BoundExpressionStatement::new(self.bind_expression(&s.expression)),
            ),
            Statement::Print(s) => BoundStatement::Print(
                BoundPrintStatement::new(self.bind_expression(&s.expression)),
            ),
            Statement::Var(s) => self.bind_var_statement(s.identifier.lexeme.clone(), &s.expression),
            Statement::Block(s) => {
                proof {
                    assert(decreases_to!(*statement => *s));
                    assert(decreases_to!(*s => s.statements));
                    self.bindings.lemma_wf_depth();
                }
                let ghost env0 = self.bindings@;
                let ghost diags0 = self.diagnostic_bag@;
                self.bindings.extend();
                let ghost inner_full = stmts_view(s.statements@);
                let bound_statements = self.bind_statement_list(&s.statements);
                proof {
                    lemma_bind_stmts_env_len(inner_full, env0.push(Map::empty()), diags0);
                }
                self.bindings.retract();
                BoundStatement::Block(BoundBlockStatement::new(bound_statements))
            },
            Statement::If(s) => {
                proof {
                    assert(decreases_to!(*statement => *s));
                }
                let condition_position = s.condition.get_position();
                let condition = self.bind_expression(&s.condition);
                if condition.get_type() == Type::Boolean {
                    let consequence = self.bind_statement(&s.consequence);
                    let else_clause = match &*s.else_clause {
                        Some(e) => Some(self.bind_statement(e)),
                        None => None,
                    };
                    BoundStatement::If(BoundIfStatement::new(condition, consequence, else_clause))
                } else {
                    let position = condition.get_position();
                    let actual = condition.get_type();
                    self.diagnostic_bag.invalid_expression_type(position, Type::Boolean, actual);
                    BoundStatement::Expression(
                        BoundExpressionStatement::new(
                            BoundExpression::Literal(
                                BoundLiteralExpression::new(Object::Unit, condition_position),
                            ),
                        ),
                    )
                }
            },
            Statement::While(s) => {
                proof {
                    assert(decreases_to!(*statement => *s));
                }
                let condition_position = s.condition.get_position();
                let condition = self.bind_expression(&s.condition);
                if condition.get_type() == Type::Boolean {
                    let body = self.bind_statement(&s.body);
                    BoundStatement::While(BoundWhileStatement::new(condition, body))
                } else {
                    let position = condition.get_position();
                    let actual = condition.get_type();
                    self.diagnostic_bag.invalid_expression_type(position, Type::Boolean, actual);
                    BoundStatement::Expression(
                        BoundExpressionStatement::new(
                            BoundExpression::Literal(
                                BoundLiteralExpression::new(Object::Unit, condition_position),
                            ),
                        ),
                    )
                }
            },
            Statement::For(s) => {
                proof {
                    assert(decreases_to!(*statement => *s));
                }
                let lower_bound = self.bind_expression(&s.lower_bound);
                let upper_bound = self.bind_expression(&s.upper_bound);
                let lower_ok = lower_bound.get_type() == Type::Number;
                let upper_ok = upper_bound.get_type() == Type::Number;
                if lower_ok && upper_ok {
                    self.bindings.set(s.identifier.lexeme.clone(), Type::Number);
                    let body = self.bind_statement(&s.body);
                    BoundStatement::For(
                        BoundForStatement::new(
                            s.identifier.lexeme.clone(),
                            lower_bound,
                            upper_bound,
                            body,
                        ),
                    )
                } else {
                    if !lower_ok {
                        let position = lower_bound.get_position();
                        let actual = lower_bound.get_type();
                        self.diagnostic_bag.invalid_expression_type(
                            position,
                            Type::Number,
                            actual,
                        );
                    }
                    if !upper_ok {
                        let position = upper_bound.get_position();
                        let actual = upper_bound.get_type();
                        self.diagnostic_bag.invalid_expression_type(
                            position,
                            Type::Number,
                            actual,
                        );
                    }
                    BoundStatement::Expression(
                        BoundExpressionStatement::new(
                            BoundExpression::Literal(
                                BoundLiteralExpression::new(Object::Unit, s.identifier.position),
                            ),
                        ),
                    )
                }
            },
        }
    }

    /// Binds a declaration: the initializer's type is written into the
    /// innermost frame, shadowing any outer declaration of the same name.
    fn bind_var_statement(&mut self, name: String, expression: &Expression) -> (bound: BoundStatement)
        requires
            old(self).bindings.wf(),
        ensures
            final(self).bindings.wf(),
            ({
                let r = spec_bind_stmt(
                    StatementView::Var {
                        identifier: crate::token::TokenView {
                            kind: crate::token::TokenKind::Identifier,
                            lexeme: name@,
                            position: Position { start: 0, end: 0 },
                        },
                        expression: expr_view(*expression),
                    },
                    old(self).bindings@,
                    old(self).diagnostic_bag@,
                );
                bstmt_view(bound) == r.stmt && final(self).bindings@ == r.env
                    && final(self).diagnostic_bag@ == r.diags
            }),
        decreases *expression,
    {
        let bound_expression = self.bind_expression(expression);
        let value_type = bound_expression.get_type();
        self.bindings.set(name.clone(), value_type);
        BoundStatement::Var(BoundVarStatement::new(name, bound_expression))
    }

    /// Binds one expression.
    #[verifier::rlimit(50)]
    pub fn bind_expression(&mut self, expression: &Expression) -> (bound: BoundExpression)
        requires
            old(self).bindings.wf(),
        ensures
            final(self).bindings.wf(),
            ({
                let r = spec_bind_expr(
                    expr_view(*expression),
                    old(self).bindings@,
                    old(self).diagnostic_bag@,
                );
                bexpr_view(bound) == r.expr && final(self).bindings@ == r.env
                    && final(self).diagnostic_bag@ == r.diags
            }),
        decreases *expression,
    {
        match expression {
            Expression::Literal(e) => BoundExpression::Literal(
                BoundLiteralExpression::new(e.value.duplicate(), e.position),
            ),
            Expression::Name(e) => {
                let looked_up = self.bindings.get(e.identifier.lexeme.as_str());
                match looked_up {
                    Some(t) => BoundExpression::Variable(
                        BoundVariableExpression::new(
                            e.identifier.lexeme.clone(),
                            t,
                            e.identifier.position,
                        ),
                    ),
                    None => {
                        self.diagnostic_bag.undefined_name(
                            e.identifier.position,
                            e.identifier.lexeme.clone(),
                        );
                        BoundExpression::Literal(
                            BoundLiteralExpression::new(Object::Unit, e.identifier.position),
                        )
                    },
                }
            },
            Expression::Parenthesized(e) => self.bind_expression(&e.expression),
            Expression::Unary(e) => {
                let right = self.bind_expression(&e.right);
                let right_type = right.get_type();
                let resolved = BoundUnaryOperator::bind(e.operator.kind, right_type);
                match resolved {
                    Some(operator) => BoundExpression::Unary(
                        BoundUnaryExpression::new(operator, right, e.operator.position),
                    ),
                    None => {
                        self.diagnostic_bag.invalid_unary_operator(
                            e.operator.position,
                            e.operator.kind,
                            right_type,
                        );
                        BoundExpression::Literal(
                            BoundLiteralExpression::new(Object::Unit, e.operator.position),
                        )
                    },
                }
            },
            Expression::Binary(e) => {
                let left = self.bind_expression(&e.left);
                let right = self.bind_expression(&e.right);
                let left_type = left.get_type();
                let right_type = right.get_type();
                let resolved = BoundBinaryOperator::bind(e.operator.kind, left_type, right_type);
                match resolved {
                    Some(operator) => BoundExpression::Binary(
                        BoundBinaryExpression::new(left, operator, right, e.operator.position),
                    ),
                    None => {
                        self.diagnostic_bag.invalid_binary_operator(
                            e.operator.position,
                            e.operator.kind,
                            left_type,
                            right_type,
                        );
                        BoundExpression::Literal(
                            BoundLiteralExpression::new(Object::Unit, e.operator.position),
                        )
                    },
                }
            },
            Expression::Assignment(e) => {
                let bound_expression = self.bind_expression(&e.expression);
                let bound_type = bound_expression.get_type();
                let looked_up = self.bindings.get(e.identifier.lexeme.as_str());
                match looked_up {
                    Some(t) => {
                        if t == bound_type {
                            self.bindings.reset(e.identifier.lexeme.clone(), bound_type);
                            BoundExpression::Assignment(
                                BoundAssignmentExpression::new(
                                    e.identifier.lexeme.clone(),
                                    bound_expression,
                                    e.identifier.position,
                                ),
                            )
                        } else {
                            self.diagnostic_bag.invalid_assignment(
                                e.identifier.position,
                                e.identifier.lexeme.clone(),
                                t,
                                bound_type,
                            );
                            BoundExpression::Literal(
                                BoundLiteralExpression::new(Object::Unit, e.identifier.position),
                            )
                        }
                    },
                    None => {
                        self.diagnostic_bag.undefined_name(
                            e.identifier.position,
                            e.identifier.lexeme.clone(),
                        );
                        BoundExpression::Literal(
                            BoundLiteralExpression::new(Object::Unit, e.identifier.position),
                        )
                    },
                }
            },
        }
    }
}

} // verus!
