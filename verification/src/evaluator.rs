//! The evaluator: a direct tree walk over the bound program against the
//! runtime scope chain.
//!
//! Printing appends the rendered value to an output list instead of writing
//! anywhere, so the whole evaluation is a function from program and
//! environment to value, environment and output. Division by zero, a value of
//! the wrong tag reaching an operation, and an undefined name at runtime are
//! fatal: they abort evaluation of the current program with a `Fault` rather
//! than a diagnostic. None but division by zero can occur on a program the
//! binder accepted without diagnostics.
//!
//! Loops need not terminate, so the specification is staged by fuel: one unit
//! is spent on each loop iteration, and the contracts state that the returned
//! result is the one the specification gives for some sufficient fuel.

use vstd::prelude::*;
use vstd::wrapping::i32_specs;

use crate::bound_tree::bexpr_view;
use crate::bound_tree::bstmt_view;
use crate::bound_tree::bstmts_view;
use crate::bound_tree::lemma_bstmts_view;
use crate::bound_tree::BoundBinaryOperationKind;
use crate::bound_tree::BoundExpression;
use crate::bound_tree::BoundExpressionView;
use crate::bound_tree::BoundStatement;
use crate::bound_tree::BoundStatementView;
use crate::bound_tree::BoundUnaryOperationKind;
use crate::environment::value_env_get;
use crate::environment::value_env_reset;
use crate::environment::value_env_set;
use crate::environment::Environment;
use crate::types::render_value;
use crate::types::value_eq;
use crate::types::Object;
use crate::types::Value;

verus! {

/// A fatal evaluation fault: it aborts evaluation of the current program.
#[derive(Debug, Clone, Copy, PartialEq, Eq, Structural)]
pub enum Fault {
    /// An integer division whose divisor evaluated to zero.
    DivisionByZero,
    /// A value of the wrong tag reached an operation; unreachable when the
    /// binder reported no diagnostic.
    TypeMismatch,
    /// A name unbound at runtime; unreachable when the binder reported no
    /// diagnostic.
    UndefinedName,
}

/// The runtime scope chains the evaluator threads through a walk.
pub type ValueEnv = Seq<Map<Seq<char>, Value>>;

/// The printed lines so far, in order.
pub type Output = Seq<Seq<char>>;

/// What evaluating an expression produces: its value or a fault, and the
/// chain after the evaluation (assignments may have changed it either way).
pub struct EvalExprResult {
    pub result: Result<Value, Fault>,
    pub env: ValueEnv,
}

/// What evaluating statements with a given amount of fuel produces: a value
/// with the final chain and output, a fault with them, or `Spent` when the
/// fuel ran out before the evaluation finished.
pub enum EvalOutcome {
    Done { value: Value, env: ValueEnv, out: Output },
    Failed { fault: Fault, env: ValueEnv, out: Output },
    Spent,
}

/// What running the evaluator with a loop budget produced: the program's
/// value, a fatal fault, or the news that the budget ran out first.
#[derive(Debug)]
pub enum EvalResult {
    Done(Object),
    Failed(Fault),
    Spent,
}

/// The absolute value, exactly.
pub open spec fn abs_int(a: i32) -> int {
    if a < 0 {
        -(a as int)
    } else {
        a as int
    }
}

/// Truncating 32-bit division, wrapping on the one overflowing case: the
/// magnitudes divide and the signs decide, as the machine division does.
pub open spec fn spec_div_i32(a: i32, b: i32) -> i32
    recommends
        b != 0,
{
    let q = abs_int(a) / abs_int(b);
    if (a < 0) != (b < 0) {
        if q >= 0x8000_0000 {
            i32::MIN
        } else {
            (-q) as i32
        }
    } else {
        if q >= 0x8000_0000 {
            i32::MIN
        } else {
            q as i32
        }
    }
}

/// Negation, wrapping on the one overflowing case.
pub open spec fn spec_neg_i32(a: i32) -> i32 {
    i32_specs::wrapping_sub(0i32, a)
}

/// What a resolved unary operation computes: identity and negation take a
/// number, logical negation takes a boolean; anything else is a fault.
pub open spec fn spec_apply_unary(kind: BoundUnaryOperationKind, v: Value) -> Result<Value, Fault> {
    match kind {
        BoundUnaryOperationKind::Identity => match v {
            Value::Number(n) => Ok(Value::Number(n)),
            _ => Err(Fault::TypeMismatch),
        },
        BoundUnaryOperationKind::Negation => match v {
            Value::Number(n) => Ok(Value::Number(spec_neg_i32(n))),
            _ => Err(Fault::TypeMismatch),
        },
        BoundUnaryOperationKind::LogicalNegation => match v {
            Value::Boolean(b) => Ok(Value::Boolean(!b)),
            _ => Err(Fault::TypeMismatch),
        },
    }
}

/// What a resolved binary operation computes: arithmetic wraps on overflow,
/// `+` concatenates strings, division by zero is a fault, comparisons take
/// numbers, logic takes booleans and does not short-circuit, and equality
/// compares any two values by tag and payload.
pub open spec fn spec_apply_binary(kind: BoundBinaryOperationKind, a: Value, b: Value) -> Result<
    Value,
    Fault,
> {
    match kind {
        BoundBinaryOperationKind::Addition => match (a, b) {
            (Value::Number(x), Value::Number(y)) => Ok(Value::Number(i32_specs::wrapping_add(x, y))),
            (Value::Str(x), Value::Str(y)) => Ok(Value::Str(x + y)),
            _ => Err(Fault::TypeMismatch),
        },
        BoundBinaryOperationKind::Subtraction => match (a, b) {
            (Value::Number(x), Value::Number(y)) => Ok(Value::Number(i32_specs::wrapping_sub(x, y))),
            _ => Err(Fault::TypeMismatch),
        },
        BoundBinaryOperationKind::Multiplication => match (a, b) {
            (Value::Number(x), Value::Number(y)) => Ok(Value::Number(i32_specs::wrapping_mul(x, y))),
            _ => Err(Fault::TypeMismatch),
        },
        BoundBinaryOperationKind::Division => match (a, b) {
            (Value::Number(x), Value::Number(y)) => if y == 0 {
                Err(Fault::DivisionByZero)
            } else {
                Ok(Value::Number(spec_div_i32(x, y)))
            },
            _ => Err(Fault::TypeMismatch),
        },
        BoundBinaryOperationKind::Greater => match (a, b) {
            (Value::Number(x), Value::Number(y)) => Ok(Value::Boolean(x > y)),
            _ => Err(Fault::TypeMismatch),
        },
        BoundBinaryOperationKind::Lesser => match (a, b) {
            (Value::Number(x), Value::Number(y)) => Ok(Value::Boolean(x < y)),
            _ => Err(Fault::TypeMismatch),
        },
        BoundBinaryOperationKind::GreaterEqual => match (a, b) {
            (Value::Number(x), Value::Number(y)) => Ok(Value::Boolean(x >= y)),
            _ => Err(Fault::TypeMismatch),
        },
        BoundBinaryOperationKind::LesserEqual => match (a, b) {
            (Value::Number(x), Value::Number(y)) => Ok(Value::Boolean(x <= y)),
            _ => Err(Fault::TypeMismatch),
        },
        BoundBinaryOperationKind::LogicalAnd => match (a, b) {
            (Value::Boolean(x), Value::Boolean(y)) => Ok(Value::Boolean(x && y)),
            _ => Err(Fault::TypeMismatch),
        },
        BoundBinaryOperationKind::LogicalOr => match (a, b) {
            (Value::Boolean(x), Value::Boolean(y)) => Ok(Value::Boolean(x || y)),
            _ => Err(Fault::TypeMismatch),
        },
        BoundBinaryOperationKind::NotEqual => Ok(Value::Boolean(!value_eq(a, b))),
        BoundBinaryOperationKind::Equal => Ok(Value::Boolean(value_eq(a, b))),
    }
}

/// Evaluating an expression: literals yield their value, variables look up
/// the chain, operands evaluate left to right before the operation applies
/// (so logical operators do not short-circuit), and an assignment evaluates
/// its right side and then overwrites the nearest enclosing declaration,
/// yielding the assigned value.
pub open spec fn spec_eval_expr(e: BoundExpressionView, env: ValueEnv) -> EvalExprResult
    decreases e,
{
    match e {
        BoundExpressionView::Literal { value, .. } => EvalExprResult { result: Ok(value), env },
        BoundExpressionView::Variable { name, .. } => match value_env_get(env, name) {
            Some(v) => EvalExprResult { result: Ok(v), env },
            None => EvalExprResult { result: Err(Fault::UndefinedName), env },
        },
        BoundExpressionView::Unary { operator, right, .. } => {
            let r = spec_eval_expr(*right, env);
            match r.result {
                Ok(v) => EvalExprResult {
                    result: spec_apply_unary(operator.operation_kind, v),
                    env: r.env,
                },
                Err(f) => r,
            }
        },
        BoundExpressionView::Binary { left, operator, right, .. } => {
            let l = spec_eval_expr(*left, env);
            match l.result {
                Ok(lv) => {
                    let r = spec_eval_expr(*right, l.env);
                    match r.result {
                        Ok(rv) => EvalExprResult {
                            result: spec_apply_binary(operator.operation_kind, lv, rv),
                            env: r.env,
                        },
                        Err(f) => r,
                    }
                },
                Err(f) => l,
            }
        },
        BoundExpressionView::Assignment { name, expression, .. } => {
            let r = spec_eval_expr(*expression, env);
            match r.result {
                Ok(v) => EvalExprResult {
                    result: Ok(v),
                    env: value_env_reset(r.env, name, v),
                },
                Err(f) => r,
            }
        },
    }
}

/// Evaluating one statement with the given fuel. Fuel is spent only on loop
/// iterations: a while-loop re-evaluates its condition before each iteration,
/// and a for-loop steps its induction variable by rereading it after each
/// body run, so the body may perturb it.
pub open spec fn spec_eval_stmt(fuel: nat, s: BoundStatementView, env: ValueEnv, out: Output) -> EvalOutcome
    decreases fuel, s, 2int,
{
    match s {
        BoundStatementView::Expression { expression } => {
            let r = spec_eval_expr(expression, env);
            match r.result {
                Ok(v) => EvalOutcome::Done { value: v, env: r.env, out },
                Err(f) => EvalOutcome::Failed { fault: f, env: r.env, out },
            }
        },
        BoundStatementView::Print { expression } => {
            let r = spec_eval_expr(expression, env);
            match r.result {
                Ok(v) => EvalOutcome::Done {
                    value: Value::Unit,
                    env: r.env,
                    out: out.push(render_value(v)),
                },
                Err(f) => EvalOutcome::Failed { fault: f, env: r.env, out },
            }
        },
        BoundStatementView::Var { name, expression } => {
            let r = spec_eval_expr(expression, env);
            match r.result {
                Ok(v) => EvalOutcome::Done {
                    value: v,
                    env: value_env_set(r.env, name, v),
                    out,
                },
                Err(f) => EvalOutcome::Failed { fault: f, env: r.env, out },
            }
        },
        BoundStatementView::Block { statements } => {
            match spec_eval_stmts(fuel, statements, env.push(Map::empty()), out) {
                EvalOutcome::Done { value: _, env: env2, out: out2 } => EvalOutcome::Done {
                    value: Value::Unit,
                    env: env2.drop_last(),
                    out: out2,
                },
                EvalOutcome::Failed { fault, env: env2, out: out2 } => EvalOutcome::Failed {
                    fault,
                    env: env2.drop_last(),
                    out: out2,
                },
                EvalOutcome::Spent => EvalOutcome::Spent,
            }
        },
        BoundStatementView::If { condition, consequence, else_clause } => {
            let r = spec_eval_expr(condition, env);
            match r.result {
                Ok(v) => match v {
                    Value::Boolean(b) => if b {
                        spec_eval_stmt(fuel, *consequence, r.env, out)
                    } else {
                        match else_clause {
                            Some(e) => spec_eval_stmt(fuel, *e, r.env, out),
                            None => EvalOutcome::Done { value: Value::Unit, env: r.env, out },
                        }
                    },
                    _ => EvalOutcome::Failed { fault: Fault::TypeMismatch, env: r.env, out },
                },
                Err(f) => EvalOutcome::Failed { fault: f, env: r.env, out },
            }
        },
        BoundStatementView::While { condition, body } => {
            let r = spec_eval_expr(condition, env);
            match r.result {
                Ok(v) => match v {
                    Value::Boolean(b) => if !b {
                        EvalOutcome::Done { value: Value::Unit, env: r.env, out }
                    } else {
                        match spec_eval_stmt(fuel, *body, r.env, out) {
                            EvalOutcome::Done { value: _, env: env2, out: out2 } => if fuel == 0 {
                                EvalOutcome::Spent
                            } else {
                                spec_eval_stmt((fuel - 1) as nat, s, env2, out2)
                            },
                            other => other,
                        }
                    },
                    _ => EvalOutcome::Failed { fault: Fault::TypeMismatch, env: r.env, out },
                },
                Err(f) => EvalOutcome::Failed { fault: f, env: r.env, out },
            }
        },
        BoundStatementView::For { identifier, lower_bound, upper_bound, body } => {
            let rl = spec_eval_expr(lower_bound, env);
            match rl.result {
                Ok(lv) => {
                    let ru = spec_eval_expr(upper_bound, rl.env);
                    match ru.result {
                        Ok(uv) => match (lv, uv) {
                            (Value::Number(lo), Value::Number(hi)) => spec_eval_for(
                                fuel,
                                identifier,
                                lo,
                                hi,
                                *body,
                                value_env_set(ru.env, identifier, Value::Number(lo)),
                                out,
                            ),
                            _ => EvalOutcome::Failed {
                                fault: Fault::TypeMismatch,
                                env: ru.env,
                                out,
                            },
                        },
                        Err(f) => EvalOutcome::Failed { fault: f, env: ru.env, out },
                    }
                },
                Err(f) => EvalOutcome::Failed { fault: f, env: rl.env, out },
            }
        },
    }
}

/// The iterations of a for-loop: while the induction variable's value stays
/// below the upper bound, run the body, reread the variable, and write back
/// its successor.
pub open spec fn spec_eval_for(
    fuel: nat,
    name: Seq<char>,
    current: i32,
    upper: i32,
    body: BoundStatementView,
    env: ValueEnv,
    out: Output,
) -> EvalOutcome
    decreases fuel, body, 3int,
{
    if current >= upper {
        EvalOutcome::Done { value: Value::Unit, env, out }
    } else {
        match spec_eval_stmt(fuel, body, env, out) {
            EvalOutcome::Done { value: _, env: env2, out: out2 } => match value_env_get(
                env2,
                name,
            ) {
                Some(v) => match v {
                    Value::Number(n) => if fuel == 0 {
                        EvalOutcome::Spent
                    } else {
                        spec_eval_for(
                            (fuel - 1) as nat,
                            name,
                            i32_specs::wrapping_add(n, 1),
                            upper,
                            body,
                            value_env_reset(env2, name, Value::Number(i32_specs::wrapping_add(n, 1))),
                            out2,
                        )
                    },
                    _ => EvalOutcome::Failed { fault: Fault::TypeMismatch, env: env2, out: out2 },
                },
                None => EvalOutcome::Failed { fault: Fault::UndefinedName, env: env2, out: out2 },
            },
            other => other,
        }
    }
}

/// Evaluating a statement list in order; the value of the whole list is the
/// last statement's value, or unit for an empty list.
pub open spec fn spec_eval_stmts(
    fuel: nat,
    list: Seq<BoundStatementView>,
    env: ValueEnv,
    out: Output,
) -> EvalOutcome
    decreases fuel, list, 1int,
{
    if list.len() == 0 {
        EvalOutcome::Done { value: Value::Unit, env, out }
    } else {
        let r = spec_eval_stmt(fuel, list[0], env, out);
        if list.len() == 1 {
            r
        } else {
            match r {
                EvalOutcome::Done { value: _, env: env2, out: out2 } => spec_eval_stmts(
                    fuel,
                    list.drop_first(),
                    env2,
                    out2,
                ),
                other => other,
            }
        }
    }
}

/// More fuel never changes a finished outcome.
pub proof fn lemma_eval_stmt_mono(
    fuel1: nat,
    fuel2: nat,
    s: BoundStatementView,
    env: ValueEnv,
    out: Output,
)
    requires
        fuel1 <= fuel2,
        !(spec_eval_stmt(fuel1, s, env, out) is Spent),
    ensures
        spec_eval_stmt(fuel2, s, env, out) == spec_eval_stmt(fuel1, s, env, out),
    decreases fuel1, s, 2int,
{
    match s {
        BoundStatementView::Block { statements } => {
            lemma_eval_stmts_mono(fuel1, fuel2, statements, env.push(Map::empty()), out);
        },
        BoundStatementView::If { condition, consequence, else_clause } => {
            let r = spec_eval_expr(condition, env);
            match r.result {
                Ok(v) => match v {
                    Value::Boolean(b) => if b {
                        lemma_eval_stmt_mono(fuel1, fuel2, *consequence, r.env, out);
                    } else {
                        match else_clause {
                            Some(e) => {
                                lemma_eval_stmt_mono(fuel1, fuel2, *e, r.env, out);
                            },
                            None => {},
                        }
                    },
                    _ => {},
                },
                Err(f) => {},
            }
        },
        BoundStatementView::While { condition, body } => {
            let r = spec_eval_expr(condition, env);
            match r.result {
                Ok(v) => match v {
                    Value::Boolean(b) => if b {
                        if !(spec_eval_stmt(fuel1, *body, r.env, out) is Spent) {
                            lemma_eval_stmt_mono(fuel1, fuel2, *body, r.env, out);
                            match spec_eval_stmt(fuel1, *body, r.env, out) {
                                EvalOutcome::Done { value: _, env: env2, out: out2 } => {
                                    if fuel1 > 0 {
                                        lemma_eval_stmt_mono(
                                            (fuel1 - 1) as nat,
                                            (fuel2 - 1) as nat,
                                            s,
                                            env2,
                                            out2,
                                        );
                                    }
                                },
                                _ => {},
                            }
                        }
                    },
                    _ => {},
                },
                Err(f) => {},
            }
        },
        BoundStatementView::For { identifier, lower_bound, upper_bound, body } => {
            let rl = spec_eval_expr(lower_bound, env);
            match rl.result {
                Ok(lv) => {
                    let ru = spec_eval_expr(upper_bound, rl.env);
                    match ru.result {
                        Ok(uv) => match (lv, uv) {
                            (Value::Number(lo), Value::Number(hi)) => {
                                lemma_eval_for_mono(
                                    fuel1,
                                    fuel2,
                                    identifier,
                                    lo,
                                    hi,
                                    *body,
                                    value_env_set(ru.env, identifier, Value::Number(lo)),
                                    out,
                                );
                            },
                            _ => {},
                        },
                        Err(f) => {},
                    }
                },
                Err(f) => {},
            }
        },
        _ => {},
    }
}

/// More fuel never changes a finished outcome.
pub proof fn lemma_eval_for_mono(
    fuel1: nat,
    fuel2: nat,
    name: Seq<char>,
    current: i32,
    upper: i32,
    body: BoundStatementView,
    env: ValueEnv,
    out: Output,
)
    requires
        fuel1 <= fuel2,
        !(spec_eval_for(fuel1, name, current, upper, body, env, out) is Spent),
    ensures
        spec_eval_for(fuel2, name, current, upper, body, env, out) == spec_eval_for(
            fuel1,
            name,
            current,
            upper,
            body,
            env,
            out,
        ),
    decreases fuel1, body, 3int,
{
    if current < upper {
        if !(spec_eval_stmt(fuel1, body, env, out) is Spent) {
            lemma_eval_stmt_mono(fuel1, fuel2, body, env, out);
            match spec_eval_stmt(fuel1, body, env, out) {
                EvalOutcome::Done { value: _, env: env2, out: out2 } => {
                    match value_env_get(env2, name) {
                        Some(v) => match v {
                            Value::Number(n) => {
                                if fuel1 > 0 {
                                    lemma_eval_for_mono(
                                        (fuel1 - 1) as nat,
                                        (fuel2 - 1) as nat,
                                        name,
                                        i32_specs::wrapping_add(n, 1),
                                        upper,
                                        body,
                                        value_env_reset(
                                            env2,
                                            name,
                                            Value::Number(i32_specs::wrapping_add(n, 1)),
                                        ),
                                        out2,
                                    );
                                }
                            },
                            _ => {},
                        },
                        None => {},
                    }
                },
                _ => {},
            }
        }
    }
}

/// More fuel never changes a finished outcome.
pub proof fn lemma_eval_stmts_mono(
    fuel1: nat,
    fuel2: nat,
    list: Seq<BoundStatementView>,
    env: ValueEnv,
    out: Output,
)
    requires
        fuel1 <= fuel2,
        !(spec_eval_stmts(fuel1, list, env, out) is Spent),
    ensures
        spec_eval_stmts(fuel2, list, env, out) == spec_eval_stmts(fuel1, list, env, out),
    decreases fuel1, list, 1int,
{
    if list.len() > 0 {
        if !(spec_eval_stmt(fuel1, list[0], env, out) is Spent) {
            lemma_eval_stmt_mono(fuel1, fuel2, list[0], env, out);
            if list.len() > 1 {
                match spec_eval_stmt(fuel1, list[0], env, out) {
                    EvalOutcome::Done { value: _, env: env2, out: out2 } => {
                        lemma_eval_stmts_mono(fuel1, fuel2, list.drop_first(), env2, out2);
                    },
                    _ => {},
                }
            }
        }
    }
}


/// Assigning in the chain preserves the number of frames.
pub proof fn lemma_value_env_reset_len(env: ValueEnv, name: Seq<char>, v: Value)
    ensures
        value_env_reset(env, name, v).len() == env.len(),
    decreases env.len(),
{
    if env.len() > 0 && !env.last().contains_key(name) {
        lemma_value_env_reset_len(env.drop_last(), name, v);
    }
}

/// Evaluating an expression preserves the number of frames.
pub proof fn lemma_eval_expr_env_len(e: BoundExpressionView, env: ValueEnv)
    ensures
        spec_eval_expr(e, env).env.len() == env.len(),
    decreases e,
{
    match e {
        BoundExpressionView::Unary { operator, right, .. } => {
            lemma_eval_expr_env_len(*right, env);
        },
        BoundExpressionView::Binary { left, operator, right, .. } => {
            lemma_eval_expr_env_len(*left, env);
            let l = spec_eval_expr(*left, env);
            match l.result {
                Ok(lv) => {
                    lemma_eval_expr_env_len(*right, l.env);
                },
                Err(f) => {},
            }
        },
        BoundExpressionView::Assignment { name, expression, .. } => {
            lemma_eval_expr_env_len(*expression, env);
            let r = spec_eval_expr(*expression, env);
            match r.result {
                Ok(v) => {
                    lemma_value_env_reset_len(r.env, name, v);
                },
                Err(f) => {},
            }
        },
        _ => {},
    }
}

/// A finished evaluation preserves the number of frames.
pub proof fn lemma_eval_stmt_env_len(fuel: nat, s: BoundStatementView, env: ValueEnv, out: Output)
    requires
        env.len() >= 1,
    ensures
        match spec_eval_stmt(fuel, s, env, out) {
            EvalOutcome::Done { env: env2, .. } => env2.len() == env.len(),
            EvalOutcome::Failed { env: env2, .. } => env2.len() == env.len(),
            EvalOutcome::Spent => true,
        },
    decreases fuel, s, 2int,
{
    match s {
        BoundStatementView::Expression { expression } => {
            lemma_eval_expr_env_len(expression, env);
        },
        BoundStatementView::Print { expression } => {
            lemma_eval_expr_env_len(expression, env);
        },
        BoundStatementView::Var { name, expression } => {
            lemma_eval_expr_env_len(expression, env);
        },
        BoundStatementView::Block { statements } => {
            lemma_eval_stmts_env_len(fuel, statements, env.push(Map::empty()), out);
        },
        BoundStatementView::If { condition, consequence, else_clause } => {
            lemma_eval_expr_env_len(condition, env);
            let r = spec_eval_expr(condition, env);
            match r.result {
                Ok(v) => match v {
                    Value::Boolean(b) => if b {
                        lemma_eval_stmt_env_len(fuel, *consequence, r.env, out);
                    } else {
                        match else_clause {
                            Some(e) => {
                                lemma_eval_stmt_env_len(fuel, *e, r.env, out);
                            },
                            None => {},
                        }
                    },
                    _ => {},
                },
                Err(f) => {},
            }
        },
        BoundStatementView::While { condition, body } => {
            lemma_eval_expr_env_len(condition, env);
            let r = spec_eval_expr(condition, env);
            match r.result {
                Ok(v) => match v {
                    Value::Boolean(b) => if b {
                        lemma_eval_stmt_env_len(fuel, *body, r.env, out);
                        match spec_eval_stmt(fuel, *body, r.env, out) {
                            EvalOutcome::Done { value: _, env: env2, out: out2 } => {
                                if fuel > 0 {
                                    lemma_eval_stmt_env_len((fuel - 1) as nat, s, env2, out2);
                                }
                            },
                            _ => {},
                        }
                    },
                    _ => {},
                },
                Err(f) => {},
            }
        },
        BoundStatementView::For { identifier, lower_bound, upper_bound, body } => {
            lemma_eval_expr_env_len(lower_bound, env);
            let rl = spec_eval_expr(lower_bound, env);
            match rl.result {
                Ok(lv) => {
                    lemma_eval_expr_env_len(upper_bound, rl.env);
                    let ru = spec_eval_expr(upper_bound, rl.env);
                    match ru.result {
                        Ok(uv) => match (lv, uv) {
                            (Value::Number(lo), Value::Number(hi)) => {
                                lemma_eval_for_env_len(
                                    fuel,
                                    identifier,
                                    lo,
                                    hi,
                                    *body,
                                    value_env_set(ru.env, identifier, Value::Number(lo)),
                                    out,
                                );
                            },
                            _ => {},
                        },
                        Err(f) => {},
                    }
                },
                Err(f) => {},
            }
        },
    }
}

/// A finished evaluation preserves the number of frames.
pub proof fn lemma_eval_for_env_len(
    fuel: nat,
    name: Seq<char>,
    current: i32,
    upper: i32,
    body: BoundStatementView,
    env: ValueEnv,
    out: Output,
)
    requires
        env.len() >= 1,
    ensures
        match spec_eval_for(fuel, name, current, upper, body, env, out) {
            EvalOutcome::Done { env: env2, .. } => env2.len() == env.len(),
            EvalOutcome::Failed { env: env2, .. } => env2.len() == env.len(),
            EvalOutcome::Spent => true,
        },
    decreases fuel, body, 3int,
{
    if current < upper {
        lemma_eval_stmt_env_len(fuel, body, env, out);
        match spec_eval_stmt(fuel, body, env, out) {
            EvalOutcome::Done { value: _, env: env2, out: out2 } => {
                match value_env_get(env2, name) {
                    Some(v) => match v {
                        Value::Number(n) => {
                            if fuel > 0 {
                                lemma_value_env_reset_len(
                                    env2,
                                    name,
                                    Value::Number(i32_specs::wrapping_add(n, 1)),
                                );
                                lemma_eval_for_env_len(
                                    (fuel - 1) as nat,
                                    name,
                                    i32_specs::wrapping_add(n, 1),
                                    upper,
                                    body,
                                    value_env_reset(
                                        env2,
                                        name,
                                        Value::Number(i32_specs::wrapping_add(n, 1)),
                                    ),
                                    out2,
                                );
                            }
                        },
                        _ => {},
                    },
                    None => {},
                }
            },
            _ => {},
        }
    }
}

/// A finished evaluation preserves the number of frames.
pub proof fn lemma_eval_stmts_env_len(
    fuel: nat,
    list: Seq<BoundStatementView>,
    env: ValueEnv,
    out: Output,
)
    requires
        env.len() >= 1,
    ensures
        match spec_eval_stmts(fuel, list, env, out) {
            EvalOutcome::Done { env: env2, .. } => env2.len() == env.len(),
            EvalOutcome::Failed { env: env2, .. } => env2.len() == env.len(),
            EvalOutcome::Spent => true,
        },
    decreases fuel, list, 1int,
{
    if list.len() > 0 {
        lemma_eval_stmt_env_len(fuel, list[0], env, out);
        if list.len() > 1 {
            match spec_eval_stmt(fuel, list[0], env, out) {
                EvalOutcome::Done { value: _, env: env2, out: out2 } => {
                    lemma_eval_stmts_env_len(fuel, list.drop_first(), env2, out2);
                },
                _ => {},
            }
        }
    }
}


/// Applies a resolved unary operation to a value.
fn apply_unary(kind: BoundUnaryOperationKind, v: Object) -> (r: Result<Object, Fault>)
    ensures
        match r {
            Ok(o) => spec_apply_unary(kind, v@) == Ok::<Value, Fault>(o@),
            Err(f) => spec_apply_unary(kind, v@) == Err::<Value, Fault>(f),
        },
{
    match kind {
        BoundUnaryOperationKind::Identity => match v {
            Object::Number(n) => Ok(Object::Number(n)),
            _ => Err(Fault::TypeMismatch),
        },
        BoundUnaryOperationKind::Negation => match v {
            Object::Number(n) => {
                let zero: i32 = 0;
                Ok(Object::Number(zero.wrapping_sub(n)))
            },
            _ => Err(Fault::TypeMismatch),
        },
        BoundUnaryOperationKind::LogicalNegation => match v {
            Object::Boolean(b) => Ok(Object::Boolean(!b)),
            _ => Err(Fault::TypeMismatch),
        },
    }
}

/// Truncating division, wrapping on the one overflowing case.
fn div_i32(x: i32, y: i32) -> (r: i32)
    requires
        y != 0,
    ensures
        r == spec_div_i32(x, y),
{
    let ua: u32 = if x < 0 {
        (-(x as i64)) as u32
    } else {
        x as u32
    };
    let ub: u32 = if y < 0 {
        (-(y as i64)) as u32
    } else {
        y as u32
    };
    let q: u32 = ua / ub;
    proof {
        assert(ua as int == abs_int(x));
        assert(ub as int == abs_int(y));
        assert(q as int == abs_int(x) / abs_int(y));
    }
    if (x < 0) != (y < 0) {
        if q >= 0x8000_0000u32 {
            i32::MIN
        } else {
            -(q as i32)
        }
    } else {
        if q >= 0x8000_0000u32 {
            i32::MIN
        } else {
            q as i32
        }
    }
}

/// Applies a resolved binary operation to two values.
fn apply_binary(kind: BoundBinaryOperationKind, a: Object, b: Object) -> (r: Result<Object, Fault>)
    ensures
        match r {
            Ok(o) => spec_apply_binary(kind, a@, b@) == Ok::<Value, Fault>(o@),
            Err(f) => spec_apply_binary(kind, a@, b@) == Err::<Value, Fault>(f),
        },
{
    match kind {
        BoundBinaryOperationKind::Addition => match (a, b) {
            (Object::Number(x), Object::Number(y)) => Ok(Object::Number(x.wrapping_add(y))),
            (Object::String(x), Object::String(y)) => Ok(Object::String(x.concat(y.as_str()))),
            _ => Err(Fault::TypeMismatch),
        },
        BoundBinaryOperationKind::Subtraction => match (a, b) {
            (Object::Number(x), Object::Number(y)) => Ok(Object::Number(x.wrapping_sub(y))),
            _ => Err(Fault::TypeMismatch),
        },
        BoundBinaryOperationKind::Multiplication => match (a, b) {
            (Object::Number(x), Object::Number(y)) => Ok(Object::Number(x.wrapping_mul(y))),
            _ => Err(Fault::TypeMismatch),
        },
        BoundBinaryOperationKind::Division => match (a, b) {
            (Object::Number(x), Object::Number(y)) => {
                if y == 0 {
                    Err(Fault::DivisionByZero)
                } else {
                    Ok(Object::Number(div_i32(x, y)))
                }
            },
            _ => Err(Fault::TypeMismatch),
        },
        BoundBinaryOperationKind::Greater => match (a, b) {
            (Object::Number(x), Object::Number(y)) => Ok(Object::Boolean(x > y)),
            _ => Err(Fault::TypeMismatch),
        },
        BoundBinaryOperationKind::Lesser => match (a, b) {
            (Object::Number(x), Object::Number(y)) => Ok(Object::Boolean(x < y)),
            _ => Err(Fault::TypeMismatch),
        },
        BoundBinaryOperationKind::GreaterEqual => match (a, b) {
            (Object::Number(x), Object::Number(y)) => Ok(Object::Boolean(x >= y)),
            _ => Err(Fault::TypeMismatch),
        },
        BoundBinaryOperationKind::LesserEqual => match (a, b) {
            (Object::Number(x), Object::Number(y)) => Ok(Object::Boolean(x <= y)),
            _ => Err(Fault::TypeMismatch),
        },
        BoundBinaryOperationKind::LogicalAnd => match (a, b) {
            (Object::Boolean(x), Object::Boolean(y)) => Ok(Object::Boolean(x && y)),
            _ => Err(Fault::TypeMismatch),
        },
        BoundBinaryOperationKind::LogicalOr => match (a, b) {
            (Object::Boolean(x), Object::Boolean(y)) => Ok(Object::Boolean(x || y)),
            _ => Err(Fault::TypeMismatch),
        },
        BoundBinaryOperationKind::NotEqual => {
            let eq = a.equals(&b);
            Ok(Object::Boolean(!eq))
        },
        BoundBinaryOperationKind::Equal => {
            let eq = a.equals(&b);
            Ok(Object::Boolean(eq))
        },
    }
}

/// Logical operators do not short-circuit: evaluating `&&` or `||` always
/// evaluates the right operand too, so the scope chain after the whole
/// expression is the chain after evaluating first the left and then the
/// right operand — even when the left operand's value alone already
/// determines the result — and the result combines both operand values.
pub proof fn lemma_logical_operators_not_short_circuiting(
    left: BoundExpressionView,
    operator: crate::bound_tree::BoundBinaryOperator,
    right: BoundExpressionView,
    position: crate::diagnostic::Position,
    env: ValueEnv,
)
    requires
        operator.operation_kind is LogicalAnd || operator.operation_kind is LogicalOr,
        spec_eval_expr(left, env).result is Ok,
        spec_eval_expr(right, spec_eval_expr(left, env).env).result is Ok,
    ensures
        ({
            let l = spec_eval_expr(left, env);
            let r = spec_eval_expr(right, l.env);
            let whole = spec_eval_expr(
                BoundExpressionView::Binary {
                    left: Box::new(left),
                    operator,
                    right: Box::new(right),
                    position,
                },
                env,
            );
            &&& whole.env == r.env
            &&& whole.result == spec_apply_binary(
                operator.operation_kind,
                l.result->Ok_0,
                r.result->Ok_0,
            )
        }),
{
}

/// The models of the printed lines, in order.
pub open spec fn out_view(output: Seq<String>) -> Output {
    output.map_values(|s: String| s@)
}


/// The tree-walking evaluator: the runtime scope chain it mutates and the
/// lines it has printed.
#[derive(Debug)]
pub struct Evaluator {
    pub bindings: Environment,
    pub output: Vec<String>,
}

impl Evaluator {
    /// An evaluator over the given chain with nothing printed yet.
    pub fn new(bindings: Environment) -> (r: Evaluator)
        ensures
            r.bindings == bindings,
            r.output@ == Seq::<String>::empty(),
    {
        Evaluator { bindings, output: Vec::new() }
    }

    /// Evaluates a whole program in order with the given loop budget,
    /// yielding exactly what the specification yields for that budget: the
    /// last statement's value, the first fault, or `Spent` when the budget
    /// ran out. The budget never changes a finished outcome, only whether
    /// one is reached.
    pub fn evaluate(&mut self, program: &Vec<BoundStatement>, fuel: u64) -> (r: EvalResult)
        requires
            old(self).bindings.wf(),
        ensures
            final(self).bindings.wf(),
            ({
                let oc = spec_eval_stmts(
                    fuel as nat,
                    bstmts_view(program@),
                    old(self).bindings@,
                    out_view(old(self).output@),
                );
                match r {
                    EvalResult::Done(o) => oc == (EvalOutcome::Done {
                        value: o@,
                        env: final(self).bindings@,
                        out: out_view(final(self).output@),
                    }),
                    EvalResult::Failed(f) => oc == (EvalOutcome::Failed {
                        fault: f,
                        env: final(self).bindings@,
                        out: out_view(final(self).output@),
                    }),
                    EvalResult::Spent => oc is Spent,
                }
            }),
    {
        self.evaluate_statement_list(program, fuel)
    }

    /// Evaluates a statement list in order, yielding the last statement's
    /// value, the first fault, or `Spent`.
    #[verifier::rlimit(100)]
    #[verifier::loop_isolation(false)]
    fn evaluate_statement_list(&mut self, statements: &Vec<BoundStatement>, fuel: u64) -> (r:
        EvalResult)
        requires
            old(self).bindings.wf(),
        ensures
            final(self).bindings.wf(),
            ({
                let oc = spec_eval_stmts(
                    fuel as nat,
                    bstmts_view(statements@),
                    old(self).bindings@,
                    out_view(old(self).output@),
                );
                match r {
                    EvalResult::Done(o) => oc == (EvalOutcome::Done {
                        value: o@,
                        env: final(self).bindings@,
                        out: out_view(final(self).output@),
                    }),
                    EvalResult::Failed(f) => oc == (EvalOutcome::Failed {
                        fault: f,
                        env: final(self).bindings@,
                        out: out_view(final(self).output@),
                    }),
                    EvalResult::Spent => oc is Spent,
                }
            }),
        decreases fuel, *statements, 1int,
    {
        let ghost full = bstmts_view(statements@);
        let ghost env0 = self.bindings@;
        let ghost out0 = out_view(self.output@);
        let mut last: Object = Object::Unit;
        let mut i: usize = 0;
        proof {
            lemma_bstmts_view(statements@);
            assert(full.skip(0) =~= full);
        }
        while i < statements.len()
            invariant
                self.bindings.wf(),
                i <= statements@.len(),
                i < statements@.len() ==> spec_eval_stmts(fuel as nat, full, env0, out0)
                    == spec_eval_stmts(
                    fuel as nat,
                    full.skip(i as int),
                    self.bindings@,
                    out_view(self.output@),
                ),
                i == statements@.len() ==> spec_eval_stmts(fuel as nat, full, env0, out0)
                    == (EvalOutcome::Done {
                    value: last@,
                    env: self.bindings@,
                    out: out_view(self.output@),
                }),
            decreases statements@.len() - i,
        {
            let ghost remaining = full.skip(i as int);
            proof {
                assert(decreases_to!(*statements => statements@));
                assert(decreases_to!(statements@ => statements@[i as int]));
                assert(remaining[0] == full[i as int]);
                assert(full[i as int] == bstmt_view(statements@[i as int]));
                assert(remaining.drop_first() =~= full.skip(i + 1));
            }
            let outcome = self.evaluate_statement(&statements[i], fuel);
            match outcome {
                EvalResult::Done(o) => {
                    last = o;
                    i = i + 1;
                },
                EvalResult::Failed(f) => {
                    return EvalResult::Failed(f);
                },
                EvalResult::Spent => {
                    return EvalResult::Spent;
                },
            }
        }
        proof {
            if statements@.len() == 0 {
                assert(spec_eval_stmts(fuel as nat, full, env0, out0) == (EvalOutcome::Done {
                    value: Value::Unit,
                    env: env0,
                    out: out0,
                }));
            }
        }
        EvalResult::Done(last)
    }

    /// Evaluates one statement: each loop iteration costs one unit of the
    /// budget.
    #[verifier::rlimit(100)]
    #[verifier::loop_isolation(false)]
    pub fn evaluate_statement(&mut self, statement: &BoundStatement, fuel: u64) -> (r: EvalResult)
        requires
            old(self).bindings.wf(),
        ensures
            final(self).bindings.wf(),
            ({
                let oc = spec_eval_stmt(
                    fuel as nat,
                    bstmt_view(*statement),
                    old(self).bindings@,
                    out_view(old(self).output@),
                );
                match r {
                    EvalResult::Done(o) => oc == (EvalOutcome::Done {
                        value: o@,
                        env: final(self).bindings@,
                        out: out_view(final(self).output@),
                    }),
                    EvalResult::Failed(f) => oc == (EvalOutcome::Failed {
                        fault: f,
                        env: final(self).bindings@,
                        out: out_view(final(self).output@),
                    }),
                    EvalResult::Spent => oc is Spent,
                }
            }),
        decreases fuel, *statement, 0int,
    {
        let ghost start_env = self.bindings@;
        let ghost start_out = out_view(self.output@);
        match statement {
            BoundStatement::Expression(t) => {
                match self.evaluate_expression(&t.expression) {
                    Ok(o) => EvalResult::Done(o),
                    Err(f) => EvalResult::Failed(f),
                }
            },
            BoundStatement::Print(t) => {
                match self.evaluate_expression(&t.expression) {
                    Ok(o) => {
                        let text = o.render();
                        let ghost out_before = out_view(self.output@);
                        self.output.push(text);
                        proof {
                            assert(out_view(self.output@) =~= out_before.push(render_value(o@)));
                        }
                        EvalResult::Done(Object::Unit)
                    },
                    Err(f) => EvalResult::Failed(f),
                }
            },
            BoundStatement::Var(t) => {
                match self.evaluate_expression(&t.expression) {
                    Ok(o) => {
                        self.bindings.set(t.name.clone(), o.duplicate());
                        EvalResult::Done(o)
                    },
                    Err(f) => EvalResult::Failed(f),
                }
            },
            BoundStatement::Block(t) => {
                proof {
                    self.bindings.lemma_wf_depth();
                    assert(decreases_to!(*statement => *t));
                    assert(decreases_to!(*t => t.statements));
                }
                self.bindings.extend();
                let r = self.evaluate_statement_list(&t.statements, fuel);
                match r {
                    EvalResult::Done(_) => {
                        proof {
                            lemma_eval_stmts_env_len(
                                fuel as nat,
                                bstmts_view(t.statements@),
                                start_env.push(Map::empty()),
                                start_out,
                            );
                        }
                        self.bindings.retract();
                        EvalResult::Done(Object::Unit)
                    },
                    EvalResult::Failed(f) => {
                        proof {
                            lemma_eval_stmts_env_len(
                                fuel as nat,
                                bstmts_view(t.statements@),
                                start_env.push(Map::empty()),
                                start_out,
                            );
                        }
                        self.bindings.retract();
                        EvalResult::Failed(f)
                    },
                    EvalResult::Spent => EvalResult::Spent,
                }
            },
            BoundStatement::If(t) => {
                proof {
                    assert(decreases_to!(*statement => *t));
                }
                match self.evaluate_expression(&t.condition) {
                    Ok(o) => {
                        match o {
                            Object::Boolean(b) => {
                                if b {
                                    self.evaluate_statement(&t.consequence, fuel)
                                } else {
                                    match &*t.else_clause {
                                        Some(e) => self.evaluate_statement(e, fuel),
                                        None => EvalResult::Done(Object::Unit),
                                    }
                                }
                            },
                            _ => EvalResult::Failed(Fault::TypeMismatch),
                        }
                    },
                    Err(f) => EvalResult::Failed(f),
                }
            },
            BoundStatement::While(t) => {
                let ghost w = bstmt_view(*statement);
                proof {
                    assert(decreases_to!(*statement => *t));
                    assert(decreases_to!(*t => *t.body));
                }
                let mut remaining: u64 = fuel;
                loop
                    invariant
                        self.bindings.wf(),
                        remaining <= fuel,
                        spec_eval_stmt(fuel as nat, w, start_env, start_out) == spec_eval_stmt(
                            remaining as nat,
                            w,
                            self.bindings@,
                            out_view(self.output@),
                        ),
                    decreases remaining,
                {
                    let ghost env_p = self.bindings@;
                    let ghost out_p = out_view(self.output@);
                    match self.evaluate_expression(&t.condition) {
                        Ok(o) => {
                            match o {
                                Object::Boolean(b) => {
                                    if !b {
                                        return EvalResult::Done(Object::Unit);
                                    }
                                    let rb = self.evaluate_statement(&t.body, remaining);
                                    match rb {
                                        EvalResult::Done(_) => {
                                            if remaining == 0 {
                                                return EvalResult::Spent;
                                            }
                                            remaining = remaining - 1;
                                        },
                                        EvalResult::Failed(f) => {
                                            return EvalResult::Failed(f);
                                        },
                                        EvalResult::Spent => {
                                            return EvalResult::Spent;
                                        },
                                    }
                                },
                                _ => {
                                    return EvalResult::Failed(Fault::TypeMismatch);
                                },
                            }
                        },
                        Err(f) => {
                            return EvalResult::Failed(f);
                        },
                    }
                }
            },
            BoundStatement::For(t) => {
                let ghost w = bstmt_view(*statement);
                proof {
                    assert(decreases_to!(*statement => *t));
                    assert(decreases_to!(*t => *t.body));
                }
                let lower = match self.evaluate_expression(&t.lower_bound) {
                    Ok(o) => o,
                    Err(f) => {
                        return EvalResult::Failed(f);
                    },
                };
                let upper = match self.evaluate_expression(&t.upper_bound) {
                    Ok(o) => o,
                    Err(f) => {
                        return EvalResult::Failed(f);
                    },
                };
                let (lo, hi) = match (lower, upper) {
                    (Object::Number(lo), Object::Number(hi)) => (lo, hi),
                    _ => {
                        return EvalResult::Failed(Fault::TypeMismatch);
                    },
                };
                self.bindings.set(t.identifier.clone(), Object::Number(lo));
                let ghost name = t.identifier@;
                let ghost body_v = bstmt_view(*t.body);
                let mut current: i32 = lo;
                let mut remaining: u64 = fuel;
                loop
                    invariant
                        self.bindings.wf(),
                        remaining <= fuel,
                        spec_eval_stmt(fuel as nat, w, start_env, start_out) == spec_eval_for(
                            remaining as nat,
                            name,
                            current,
                            hi,
                            body_v,
                            self.bindings@,
                            out_view(self.output@),
                        ),
                    decreases remaining,
                {
                    let ghost env_p = self.bindings@;
                    let ghost out_p = out_view(self.output@);
                    if !(current < hi) {
                        return EvalResult::Done(Object::Unit);
                    }
                    let rb = self.evaluate_statement(&t.body, remaining);
                    match rb {
                        EvalResult::Done(_) => {},
                        EvalResult::Failed(f) => {
                            return EvalResult::Failed(f);
                        },
                        EvalResult::Spent => {
                            return EvalResult::Spent;
                        },
                    }
                    let read_back = self.bindings.get(t.identifier.as_str());
                    match read_back {
                        Some(Object::Number(n)) => {
                            if remaining == 0 {
                                return EvalResult::Spent;
                            }
                            let next = n.wrapping_add(1);
                            self.bindings.reset(t.identifier.clone(), Object::Number(next));
                            current = next;
                            remaining = remaining - 1;
                        },
                        Some(_) => {
                            return EvalResult::Failed(Fault::TypeMismatch);
                        },
                        None => {
                            return EvalResult::Failed(Fault::UndefinedName);
                        },
                    }
                }
            },
        }
    }

    /// Evaluates one expression, exactly as the specification computes it.
    #[verifier::rlimit(100)]
    pub fn evaluate_expression(&mut self, expression: &BoundExpression) -> (r: Result<
        Object,
        Fault,
    >)
        requires
            old(self).bindings.wf(),
        ensures
            final(self).bindings.wf(),
            final(self).output == old(self).output,
            ({
                let s = spec_eval_expr(bexpr_view(*expression), old(self).bindings@);
                final(self).bindings@ == s.env && match r {
                    Ok(o) => s.result == Ok::<Value, Fault>(o@),
                    Err(f) => s.result == Err::<Value, Fault>(f),
                }
            }),
        decreases *expression,
    {
        match expression {
            BoundExpression::Literal(e) => Ok(e.value.duplicate()),
            BoundExpression::Variable(e) => {
                match self.bindings.get(e.name.as_str()) {
                    Some(o) => Ok(o),
                    None => Err(Fault::UndefinedName),
                }
            },
            BoundExpression::Unary(e) => {
                match self.evaluate_expression(&e.right) {
                    Ok(o) => apply_unary(e.operator.operation_kind, o),
                    Err(f) => Err(f),
                }
            },
            BoundExpression::Binary(e) => {
                match self.evaluate_expression(&e.left) {
                    Ok(l) => match self.evaluate_expression(&e.right) {
                        Ok(rr) => apply_binary(e.operator.operation_kind, l, rr),
                        Err(f) => Err(f),
                    },
                    Err(f) => Err(f),
                }
            },
            BoundExpression::Assignment(e) => {
                match self.evaluate_expression(&e.expression) {
                    Ok(o) => {
                        self.bindings.reset(e.name.clone(), o.duplicate());
                        Ok(o)
                    },
                    Err(f) => Err(f),
                }
            },
        }
    }
}


/// Evaluates a bound program in the given environment with the given loop
/// budget, handing back the result together with the environment and the
/// printed lines as they stand afterwards.
pub fn evaluate(program: &Vec<BoundStatement>, bindings: Environment, fuel: u64) -> (r: (
    EvalResult,
    Environment,
    Vec<String>,
))
    requires
        bindings.wf(),
    ensures
        r.1.wf(),
        ({
            let oc = spec_eval_stmts(fuel as nat, bstmts_view(program@), bindings@, Seq::empty());
            match r.0 {
                EvalResult::Done(o) => oc == (EvalOutcome::Done {
                    value: o@,
                    env: r.1@,
                    out: out_view(r.2@),
                }),
                EvalResult::Failed(f) => oc == (EvalOutcome::Failed {
                    fault: f,
                    env: r.1@,
                    out: out_view(r.2@),
                }),
                EvalResult::Spent => oc is Spent,
            }
        }),
{
    let mut evaluator = Evaluator::new(bindings);
    proof {
        assert(out_view(evaluator.output@) =~= Seq::<Seq<char>>::empty());
    }
    let result = evaluator.evaluate(program, fuel);
    (result, evaluator.bindings, evaluator.output)
}

} // verus!
