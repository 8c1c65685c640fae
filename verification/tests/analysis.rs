use minilang::analyzer::Analyzer;
use minilang::common::ast::Span;
use minilang::parser::Parser;
use minilang::tokenizer::Tokenizer;

fn analyze(source: &str) -> Result<(), String> {
    let tokens = Tokenizer::new(source.to_string()).tokenize().unwrap();
    let program = Parser::new(tokens).parse().unwrap();
    let result = Analyzer::new(&program).analyze();
    result.map_err(|error| error.to_text())
}

fn rejected(source: &str, message: &str) {
    let tokens = Tokenizer::new(source.to_string()).tokenize().unwrap();
    let program = Parser::new(tokens).parse().unwrap();
    let error = Analyzer::new(&program).analyze().unwrap_err();
    assert_eq!(error.message, message, "for {:?}", source);
}

#[test]
fn a_mismatched_declaration_is_rejected() {
    assert_eq!(
        analyze("var x: string = 1 + 4;"),
        Err(
            "SemanticError: variable x declared with type string but assigned with type int (at 1:23)"
                .to_string()
        )
    );
    rejected("var x: int = true;", "variable x declared with type int but assigned with type bool");
    rejected("var x: bool = 1;", "variable x declared with type bool but assigned with type int");
    rejected(
        "var x: void = \"s\";",
        "variable x declared with type void but assigned with type string",
    );
}

#[test]
fn a_duplicate_declaration_is_rejected() {
    assert_eq!(
        analyze("var x: int = 1; var x: int = 2;"),
        Err("SemanticError: duplicate declaration of x (at 1:32)".to_string())
    );
    rejected("var x: int = 1; var y: int = 2; var x: bool = true;", "duplicate declaration of x");
    rejected("func f(a: int): void { var a: int = 1; }", "duplicate declaration of a");
    rejected("if (true) { var x: int = 1; var x: int = 2; }", "duplicate declaration of x");
    rejected("var print: int = 1;", "duplicate declaration of print");
}

#[test]
fn a_declaration_in_a_block_may_shadow() {
    assert_eq!(analyze("var x: int = 1; if (true) { var x: string = \"s\"; }"), Ok(()));
    assert_eq!(analyze("var x: int = 1; while (false) { var x: bool = true; }"), Ok(()));
    assert_eq!(analyze("var x: int = 1; func f(x: bool): void { }"), Ok(()));
    assert_eq!(
        analyze("var x: int = 1; if (true) { var x: string = \"s\"; x = \"t\"; } x = 2;"),
        Ok(())
    );
    rejected(
        "var x: int = 1; if (true) { var x: string = \"s\"; } x = \"t\";",
        "Type mismatch: expected int, got string",
    );
}

#[test]
fn a_declaration_in_a_block_ends_with_the_block() {
    rejected("if (true) { var x: int = 1; } x = 2;", "use of undeclared identifier x");
    rejected("while (false) { var x: int = 1; } println(x);", "use of undefined variable x");
    rejected(
        "if (true) { var x: int = 1; } else { x = 2; }",
        "use of undeclared identifier x",
    );
    rejected("func f(a: int): void { } println(a);", "use of undefined variable a");
}

#[test]
fn names_must_be_declared() {
    assert_eq!(
        analyze("if(a == b) {}"),
        Err("SemanticError: use of undefined variable a (at 1:7)".to_string())
    );
    rejected("x = 1;", "use of undeclared identifier x");
    rejected("f();", "use of undefined function f");
    rejected("var x: int = y;", "use of undefined variable y");
}

#[test]
fn a_variable_is_declared_before_its_initializer_is_analyzed() {
    assert_eq!(analyze("var x: int = x;"), Ok(()));
    assert_eq!(analyze("var x: int = 1; if (true) { var x: bool = x; }"), Ok(()));
}

#[test]
fn operands_must_have_one_type() {
    rejected("var x: int = 1 + true;", "type mismatch: expected int, got bool");
    rejected("var x: string = \"s\" + 4;", "type mismatch: expected string, got int");
    rejected("var x: bool = true == 4;", "type mismatch: expected bool, got int");
    assert_eq!(analyze("var x: bool = 1 == 2;"), Ok(()));
    assert_eq!(analyze("var x: bool = \"a\" != \"b\";"), Ok(()));
    assert_eq!(analyze("var x: bool = 1 <= 2;"), Ok(()));
    assert_eq!(analyze("var x: string = \"a\" + \"b\";"), Ok(()));
    assert_eq!(analyze("var x: int = 7 % 2 * 3 / 4 - 5;"), Ok(()));
}

#[test]
fn conditions_must_be_truth_values() {
    assert_eq!(
        analyze("while (4) { }"),
        Err("SemanticError: loop condition must resolve to bool, got int (at 1:9)".to_string())
    );
    rejected("if (\"s\") { }", "if statement condition must resolve to bool, got string");
    rejected(
        "if (true) { } else if (1) { }",
        "if statement condition must resolve to bool, got int",
    );
    rejected("if (print(1)) { }", "if statement condition must resolve to bool, got void");
}

#[test]
fn calls_must_match_the_signature() {
    let declared = "func name(n: int, s: string): int { return n; } ";
    assert_eq!(analyze(&format!("{}name(1, \"a\");", declared)), Ok(()));
    rejected(&format!("{}name(1);", declared), "function name expects 2 arguments, got 1");
    rejected(&format!("{}name();", declared), "function name expects 2 arguments, got 0");
    rejected(
        &format!("{}name(1, \"a\", 3);", declared),
        "function name expects 2 arguments, got 3",
    );
    rejected(&format!("{}name(\"a\", 1);", declared), "type mismatch: expected int, got string");
    rejected(&format!("{}name(1, 2);", declared), "type mismatch: expected string, got int");
    rejected(&format!("{}name(true, 2);", declared), "type mismatch: expected int, got bool");
    rejected(&format!("{}name(x, 2);", declared), "use of undefined variable x");
    rejected(&format!("{}var b: bool = name(1, \"a\");", declared),
        "variable b declared with type bool but assigned with type int");
    rejected("var v: int = 1; v();", "v is not a function");
}

#[test]
fn the_output_operations_take_one_value_of_any_type() {
    assert_eq!(analyze("print(1); print(\"s\"); print(true); println(1 + 2);"), Ok(()));
    assert_eq!(analyze("println(print(1));"), Ok(()));
    rejected("print();", "function print expects 1 arguments, got 0");
    rejected("println(1, 2);", "function println expects 1 arguments, got 2");
    rejected("print(x);", "use of undefined variable x");
    rejected("var x: int = print(1);", "variable x declared with type int but assigned with type void");
}

#[test]
fn a_function_may_call_itself_and_what_was_declared_before_it() {
    assert_eq!(
        analyze("func f(n: int): int { if (n <= 1) { return 1; } return n * f(n - 1); }"),
        Ok(())
    );
    assert_eq!(
        analyze("func a(): int { return 1; } func b(): int { return a(); }"),
        Ok(())
    );
    rejected(
        "func b(): int { return a(); } func a(): int { return 1; }",
        "use of undefined function a",
    );
}

#[test]
fn a_return_must_stand_in_a_function_and_match_its_type() {
    assert_eq!(
        analyze("return 1;"),
        Err("SemanticError: return statement outside of function (at 1:10)".to_string())
    );
    rejected("if (true) { return; }", "return statement outside of function");
    rejected(
        "func name(n: int): int { return \"string\"; }",
        "return type mismatch: expected int, got string",
    );
    rejected("func name(n: int): void { return 1; }", "return type mismatch: expected void, got int");
    rejected("func name(n: int): int { return; }", "return type mismatch: expected int, got void");
    rejected(
        "func name(n: int): void { if (n > 1) { while (true) { return n; } } }",
        "return type mismatch: expected void, got int",
    );
    assert_eq!(analyze("func name(n: int): void { return; }"), Ok(()));
    assert_eq!(analyze("func name(n: int): void { }"), Ok(()));
    assert_eq!(analyze("func name(n: int): void { if (n > 1) { return; } }"), Ok(()));
}

#[test]
fn a_void_function_may_return_a_void_value() {
    assert_eq!(analyze("func f(): void { return print(1); }"), Ok(()));
}

#[test]
fn a_function_with_a_type_must_return_among_its_statements() {
    assert_eq!(
        analyze("func name(n: int): int {\n}"),
        Err("SemanticError: function name must return a value (at 2:2)".to_string())
    );
    rejected("func f(): bool { print(1); }", "function f must return a value");
    // Only the statements of the body itself count, not those of its blocks.
    rejected(
        "func f(n: int): int { if (n > 0) { return 1; } else { return 2; } }",
        "function f must return a value",
    );
    assert_eq!(
        analyze("func f(n: int): int { if (n > 0) { return 1; } return 2; }"),
        Ok(())
    );
    assert_eq!(analyze("func f(n: int): int { return 2; print(n); }"), Ok(()));
}

#[test]
fn a_violation_anywhere_is_found() {
    rejected(
        "func outer(): void { if (true) { while (true) { func inner(): int { } } } }",
        "function inner must return a value",
    );
    rejected(
        "var a: int = 1; if (a == 1) { } else if (a == 2) { } else { var b: int = true; }",
        "variable b declared with type int but assigned with type bool",
    );
}

#[test]
fn the_first_violation_is_reported() {
    assert_eq!(
        analyze("var a: int = true;\nvar b: int = false;"),
        Err(
            "SemanticError: variable a declared with type int but assigned with type bool (at 2:3)"
                .to_string()
        )
    );
    rejected("f(x, y);", "use of undefined function f");
    rejected("print(x + y);", "use of undefined variable x");
}

#[test]
fn positions_of_violations() {
    let tokens = Tokenizer::new("var a: int = 1;\na = b + 1;".to_string()).tokenize().unwrap();
    let program = Parser::new(tokens).parse().unwrap();
    let error = Analyzer::new(&program).analyze().unwrap_err();
    assert_eq!(error.message, "use of undefined variable b");
    assert_eq!(error.span, Span { line: 2, column: 7 });
}

#[test]
fn analyze_body_reports_a_return() {
    let tokens = Tokenizer::new("func f(): int { return 1; }".to_string()).tokenize().unwrap();
    let program = Parser::new(tokens).parse().unwrap();
    let mut analyzer = Analyzer::new(&program);
    assert_eq!(analyzer.analyze_body(&program.body), Ok(false));
    let tokens = Tokenizer::new("var x: int = 1; x = 2;".to_string()).tokenize().unwrap();
    let program = Parser::new(tokens).parse().unwrap();
    let mut analyzer = Analyzer::new(&program);
    assert_eq!(analyzer.analyze_body(&program.body), Ok(false));
    assert!(analyzer.analyze_body(&program.body).is_err());
}
