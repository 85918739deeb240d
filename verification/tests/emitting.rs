use crab::bindings::Bindings;
use crab::compilation::Compilation;
use crab::emitter::Compiler;

fn emit(source: &str) -> String {
    let compilation = Compilation::compile(source, Bindings::new());
    assert!(compilation.diagnostic_bag.diagnostics.is_empty());
    let compiler = Compiler::new(compilation.bound_program);
    compiler.compile()
}

#[test]
fn a_program_compiles_to_target_source() {
    assert_eq!(
        emit("var x = 1 print x + 2"),
        "package main\nimport (\"fmt\")\nfunc main() {\nx:=1\nfmt.Println(x+2)\n}\n"
    );
}

#[test]
fn loops_compile_to_target_for_loops() {
    assert_eq!(
        emit("var i = 0 while i < 3 { i = i + 1 }"),
        "package main\nimport (\"fmt\")\nfunc main() {\ni:=0\nfor i<3 {\n {i=i+1\n} }\n}\n"
    );
    assert_eq!(
        emit("for i = 0, 3 print i"),
        "package main\nimport (\"fmt\")\nfunc main() {\nfor i := 0; 0 < 3; i++ {\n fmt.Println(i)\n }\n}\n"
    );
}

#[test]
fn branches_compile_with_else_clauses() {
    assert_eq!(
        emit("if true print 1 else print 2"),
        "package main\nimport (\"fmt\")\nfunc main() {\nif true {\n fmt.Println(1)\n }\nelse {\n fmt.Println(2)\n }\n}\n"
    );
}
