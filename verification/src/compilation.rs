//! The front-to-back pipeline: lex, parse and bind in one call, and a
//! convenience that also evaluates the result when it compiled cleanly.

use vstd::prelude::*;

use crate::binder::spec_bind_stmts;
use crate::binder::Binder;
use crate::binder::TypeEnv;
use crate::bindings::Bindings;
use crate::bound_tree::bstmts_view;
use crate::bound_tree::BoundStatement;
use crate::bound_tree::BoundStatementView;
use crate::diagnostic::DiagnosticBag;
use crate::diagnostic::DiagnosticView;
use crate::environment::Environment;
use crate::evaluator::out_view;
use crate::evaluator::spec_eval_stmts;
use crate::evaluator::EvalOutcome;
use crate::evaluator::EvalResult;
use crate::evaluator::Evaluator;
use crate::evaluator::ValueEnv;
use crate::lexer::lemma_lex_from_len;
use crate::parser::spec_parse_program;
use crate::lexer::spec_lex_from;
use crate::lexer::Lexer;
use crate::parser::Parser;
use crate::syntax_tree::stmts_view;
use crate::syntax_tree::Statement;
use crate::syntax_tree::StatementView;
use crate::types::Object;

verus! {

/// How the pipeline's stages fit together: the lexer turns the source into
/// tokens and diagnostics, the parser turns those tokens into the program
/// and extends the diagnostics, and the binder, run over that program and
/// the given chain, produces the bound program, the final chain, and the
/// final diagnostics. Every step is a function of the source text alone.
pub open spec fn compile_stages(
    source: Seq<char>,
    env0: TypeEnv,
    unbound: Seq<StatementView>,
    bound: Seq<BoundStatementView>,
    env_after: TypeEnv,
    diags_after: Seq<DiagnosticView>,
) -> bool {
    let lexed = spec_lex_from(source, 0);
    let parsed = spec_parse_program(lexed.tokens, 0, lexed.diagnostics);
    let b = spec_bind_stmts(parsed.stmts, env0, parsed.diags);
    unbound == parsed.stmts && bound == b.stmts && env_after == b.env && diags_after == b.diags
}

/// The product of lexing and parsing one source text.
#[derive(Debug)]
pub struct SyntaxTree {
    pub root: Vec<Statement>,
    pub diagnostic_bag: DiagnosticBag,
}

impl SyntaxTree {
    /// Lexes and parses the source: the returned root is exactly the parse
    /// of the lexed tokens, and the bag holds the lexer's diagnostics
    /// followed by the parser's.
    pub fn new(source: &str) -> (r: SyntaxTree)
        requires
            source@.len() + 1 < usize::MAX,
        ensures
            ({
                let lexed = spec_lex_from(source@, 0);
                let parsed = spec_parse_program(lexed.tokens, 0, lexed.diagnostics);
                stmts_view(r.root@) == parsed.stmts && r.diagnostic_bag@ == parsed.diags
            }),
    {
        let bag = DiagnosticBag::new();
        let mut lexer = Lexer::new(source, bag);
        let tokens = lexer.lex();
        proof {
            lemma_lex_from_len(source@, 0);
            assert(Seq::<DiagnosticView>::empty() + spec_lex_from(source@, 0).diagnostics
                =~= spec_lex_from(source@, 0).diagnostics);
        }
        let mut parser = Parser::new(tokens, lexer.take_diagnostics());
        let root = parser.parse();
        SyntaxTree { root, diagnostic_bag: parser.take_diagnostics() }
    }
}

/// The product of compiling one source text against a typed scope chain.
#[derive(Debug)]
pub struct Compilation {
    pub diagnostic_bag: DiagnosticBag,
    pub bindings: Bindings,
    pub unbound_program: Vec<Statement>,
    pub bound_program: Vec<BoundStatement>,
}

impl Compilation {
    /// Runs the whole front end: lexes and parses the source, then binds the
    /// parsed program against the given chain, accumulating the three
    /// stages' diagnostics in order. Everything returned is a function of
    /// the source text and the chain alone.
    pub fn compile(source: &str, bindings: Bindings) -> (r: Compilation)
        requires
            bindings.wf(),
            source@.len() + 1 < usize::MAX,
        ensures
            r.bindings.wf(),
            compile_stages(
                source@,
                bindings@,
                stmts_view(r.unbound_program@),
                bstmts_view(r.bound_program@),
                r.bindings@,
                r.diagnostic_bag@,
            ),
    {
        let bag = DiagnosticBag::new();
        let mut lexer = Lexer::new(source, bag);
        let tokens = lexer.lex();
        proof {
            lemma_lex_from_len(source@, 0);
            assert(Seq::<DiagnosticView>::empty() + spec_lex_from(source@, 0).diagnostics
                =~= spec_lex_from(source@, 0).diagnostics);
        }
        let mut parser = Parser::new(tokens, lexer.take_diagnostics());
        let unbound_program = parser.parse();
        let parser_bag = parser.take_diagnostics();
        let mut binder = Binder::new(bindings, parser_bag);
        let bound_program = binder.bind(&unbound_program);
        Compilation {
            diagnostic_bag: binder.diagnostic_bag,
            bindings: binder.bindings,
            unbound_program,
            bound_program,
        }
    }

    /// Compiles the source against fresh chains and, when no diagnostic was
    /// reported, evaluates it with the given loop budget; with diagnostics
    /// the value is unit and nothing prints.
    pub fn evaluate(source: &str, fuel: u64) -> (r: EvaluationResult)
        requires
            source@.len() + 1 < usize::MAX,
        ensures
            ({
                let lexed = spec_lex_from(source@, 0);
                let parsed = spec_parse_program(lexed.tokens, 0, lexed.diagnostics);
                let b = spec_bind_stmts(parsed.stmts, seq![Map::empty()], parsed.diags);
                &&& r.diagnostics@ == b.diags
                &&& r.diagnostics@.len() == 0 ==> {
                    let oc = spec_eval_stmts(fuel as nat, b.stmts, seq![Map::empty()], Seq::empty());
                    match r.value {
                        EvalResult::Done(o) => exists|env2: ValueEnv|
                            oc == (EvalOutcome::Done {
                                value: o@,
                                env: env2,
                                out: out_view(r.output@),
                            }),
                        EvalResult::Failed(f) => exists|env2: ValueEnv|
                            oc == (EvalOutcome::Failed {
                                fault: f,
                                env: env2,
                                out: out_view(r.output@),
                            }),
                        EvalResult::Spent => oc is Spent,
                    }
                }
                &&& r.diagnostics@.len() > 0 ==> r.output@ == Seq::<String>::empty() && (
                r.value matches EvalResult::Done(o) && o@ == crate::types::Value::Unit)
            }),
    {
        let compilation = Compilation::compile(source, Bindings::new());
        let ghost bound = bstmts_view(compilation.bound_program@);
        if compilation.diagnostic_bag.is_empty() {
            let mut evaluator = Evaluator::new(Environment::new());
            proof {
                assert(evaluator.bindings@ =~= seq![Map::<Seq<char>, crate::types::Value>::empty()]);
                assert(out_view(evaluator.output@) =~= Seq::<Seq<char>>::empty());
            }
            let value = evaluator.evaluate(&compilation.bound_program, fuel);
            let ghost env_final = evaluator.bindings@;
            let r = EvaluationResult {
                diagnostics: compilation.diagnostic_bag,
                value,
                output: evaluator.output,
            };
            proof {
                let oc = spec_eval_stmts(fuel as nat, bound, seq![Map::empty()], Seq::empty());
                match &r.value {
                    EvalResult::Done(o) => {
                        assert(oc == (EvalOutcome::Done {
                            value: o@,
                            env: env_final,
                            out: out_view(r.output@),
                        }));
                    },
                    EvalResult::Failed(f) => {
                        assert(oc == (EvalOutcome::Failed {
                            fault: *f,
                            env: env_final,
                            out: out_view(r.output@),
                        }));
                    },
                    EvalResult::Spent => {},
                }
            }
            r
        } else {
            EvaluationResult {
                diagnostics: compilation.diagnostic_bag,
                value: EvalResult::Done(Object::Unit),
                output: Vec::new(),
            }
        }
    }
}

/// What compiling and evaluating one source text produced: the diagnostics,
/// the value (unit when diagnostics prevented evaluation), and the printed
/// lines.
#[derive(Debug)]
pub struct EvaluationResult {
    pub diagnostics: DiagnosticBag,
    pub value: EvalResult,
    pub output: Vec<String>,
}

} // verus!
