use minilang::analyzer::Analyzer;
use minilang::common::ast::Span;
use minilang::interpreter::semantics::Limits;
use minilang::interpreter::{Interpreter, RuntimeError};
use minilang::parser::Parser;
use minilang::tokenizer::Tokenizer;

/// Runs a program without analyzing it first.
fn run_unchecked(source: &str) -> (String, Result<(), RuntimeError>) {
    let tokens = Tokenizer::new(source.to_string()).tokenize().unwrap();
    let program = Parser::new(tokens).parse().unwrap();
    let mut interpreter = Interpreter::new(&program);
    let result = interpreter.execute();
    (interpreter.output().clone(), result)
}

/// Analyzes a program, runs it, and gives what it wrote.
fn output_of(source: &str) -> String {
    let tokens = Tokenizer::new(source.to_string()).tokenize().unwrap();
    let program = Parser::new(tokens).parse().unwrap();
    Analyzer::new(&program).analyze().unwrap();
    let mut interpreter = Interpreter::new(&program);
    interpreter.execute().unwrap();
    interpreter.output().clone()
}

fn failure_of(source: &str) -> RuntimeError {
    run_unchecked(source).1.unwrap_err()
}

#[test]
fn arithmetic() {
    assert_eq!(output_of("println(7 + 5); println(7 - 5); println(7 * 5);"), "12\n2\n35\n");
    assert_eq!(output_of("println(7 / 2); println(7 % 2);"), "3\n1\n");
    assert_eq!(output_of("println((0 - 7) / 2); println((0 - 7) % 2);"), "-3\n-1\n");
    assert_eq!(output_of("println(7 / (0 - 2)); println(7 % (0 - 2));"), "-3\n1\n");
    assert_eq!(output_of("println((0 - 7) / (0 - 2)); println((0 - 7) % (0 - 2));"), "3\n-1\n");
    assert_eq!(output_of("println(0 / 5); println(0 % 5);"), "0\n0\n");
    assert_eq!(output_of("println(2147483647 + 0);"), "2147483647\n");
    assert_eq!(output_of("println(0 - 2147483647 - 1);"), "-2147483648\n");
    assert_eq!(output_of("println((0 - 2147483647 - 1) % (0 - 1));"), "0\n");
    assert_eq!(output_of("println(5 % (0 - 1));"), "0\n");
}

#[test]
fn arithmetic_that_leaves_the_integers_fails() {
    let error = failure_of("println(2147483647 + 1);");
    assert_eq!(error.message, "integer overflow");
    assert_eq!(error.span, Span { line: 1, column: 23 });
    assert_eq!(failure_of("println(0 - 2147483647 - 2);").message, "integer overflow");
    assert_eq!(failure_of("println(65536 * 65536);").message, "integer overflow");
    assert_eq!(failure_of("println((0 - 2147483647 - 1) / (0 - 1));").message, "integer overflow");
    let error = failure_of("println(1 / 0);");
    assert_eq!(error.message, "division by zero");
    assert_eq!(error.to_text(), "RuntimeError: division by zero (at 1:14)");
    assert_eq!(failure_of("println(1 % 0);").message, "division by zero");
    assert_eq!(failure_of("println(0 / 0);").message, "division by zero");
}

#[test]
fn comparisons() {
    assert_eq!(
        output_of("print(1 < 2); print(2 < 1); print(1 <= 1); print(2 <= 1);"),
        "truefalsetruefalse"
    );
    assert_eq!(
        output_of("print(1 > 2); print(2 > 1); print(1 >= 1); print(0 >= 1);"),
        "falsetruetruefalse"
    );
    assert_eq!(output_of("print(1 == 1); print(1 != 1); print(1 == 2); print(1 != 2);"),
        "truefalsefalsetrue");
    assert_eq!(
        output_of("print(\"a\" == \"a\"); print(\"a\" == \"b\"); print(true != false);"),
        "truefalsetrue"
    );
}

#[test]
fn equality_compares_values_of_any_type() {
    let (output, result) = run_unchecked("print(1 == true); print(\"1\" != 1); print(1 == 1);");
    assert_eq!(result, Ok(()));
    assert_eq!(output, "falsetruetrue");
}

#[test]
fn arithmetic_and_ordering_take_numbers() {
    let error = failure_of("print(1 + true);");
    assert_eq!(error.message, "not a number: true");
    assert_eq!(error.span, Span { line: 1, column: 15 });
    let error = failure_of("print(\"s\" < 2);");
    assert_eq!(error.message, "not a number: s");
    assert_eq!(error.span, Span { line: 1, column: 11 });
    let error = failure_of("print(true * false);");
    assert_eq!(error.message, "not a number: true");
}

#[test]
fn both_operands_are_evaluated_left_first() {
    let program = "func l(): int { print(\"l\"); return 1; } func r(): int { print(\"r\"); return 2; }
        println(l() + r()); println(r() == l());";
    assert_eq!(output_of(program), "lr3\nrlfalse\n");
}

#[test]
fn arguments_are_evaluated_left_to_right_in_the_callers_scope() {
    let program = "func show(a: int, b: int): void { print(a); print(b); }
        func next(n: int): int { print(\"n\"); return n + 1; }
        var x: int = 1;
        show(next(x), next(next(x)));";
    assert_eq!(output_of(program), "nnn23");
}

#[test]
fn variables_are_declared_and_assigned() {
    assert_eq!(output_of("var x: int = 1; println(x); x = x + 1; println(x);"), "1\n2\n");
    assert_eq!(
        output_of("var x: int = 1; if (true) { x = 5; } println(x);"),
        "5\n"
    );
    assert_eq!(
        output_of("var s: string = \"a\"; var t: string = s; s = \"b\"; print(s); print(t);"),
        "ba"
    );
}

#[test]
fn a_variable_has_no_value_while_its_initializer_runs() {
    let error = failure_of("var x: int = x;");
    assert_eq!(error.message, "use of unassigned variable x");
    let error = failure_of("var x: int = 1; if (true) { var x: int = x + 1; }");
    assert_eq!(error.message, "use of unassigned variable x");
}

#[test]
fn names_must_be_bound() {
    assert_eq!(failure_of("print(x);").message, "use of undefined variable x");
    assert_eq!(failure_of("x = 1;").message, "cannot assign undeclared variable x");
    assert_eq!(failure_of("f(1);").message, "use of undefined function f");
    assert_eq!(failure_of("func f(): void { } f = 1;").message, "cannot assign to function f");
    assert_eq!(failure_of("func f(): void { } print(f);").message, "f is not a variable");
    assert_eq!(failure_of("var v: int = 1; v();").message, "v is not a function");
    assert_eq!(
        failure_of("if (true) { var x: int = 1; } print(x);").message,
        "use of undefined variable x"
    );
}

#[test]
fn calls_must_bring_as_many_arguments_as_parameters() {
    let error = failure_of("func f(a: int): void { } f(1, 2);");
    assert_eq!(error.message, "function f expects 1 arguments, got 2");
    assert_eq!(failure_of("func f(a: int): void { } f();").message,
        "function f expects 1 arguments, got 0");
    assert_eq!(failure_of("print();").message, "function print expects 1 arguments, got 0");
    assert_eq!(failure_of("println(1, 2);").message, "function println expects 1 arguments, got 2");
}

#[test]
fn a_call_has_the_value_that_its_body_returns() {
    assert_eq!(output_of("func f(): int { return 7; print(\"never\"); } println(f());"), "7\n");
    assert_eq!(output_of("func f(): void { print(\"a\"); return; print(\"b\"); } f();"), "a");
    assert_eq!(output_of("func f(): void { } println(f());"), "void\n");
    let program = "func sign(n: int): string {
            if (n < 0) { return \"minus\"; } else if (n == 0) { return \"zero\"; }
            return \"plus\";
        }
        print(sign(0 - 3)); print(sign(0)); print(sign(3));";
    assert_eq!(output_of(program), "minuszeroplus");
}

#[test]
fn a_return_ends_the_loops_around_it() {
    let program = "func first_multiple(of: int, above: int): int {
            var n: int = above;
            while (true) {
                var k: int = 0;
                while (k < 3) {
                    if (n % of == 0) { return n; }
                    k = k + 1;
                    n = n + 1;
                }
            }
            return 0;
        }
        println(first_multiple(7, 30));";
    assert_eq!(output_of(program), "35\n");
}

#[test]
fn a_return_outside_a_function_ends_the_program() {
    let (output, result) = run_unchecked("print(1); if (true) { return; } print(2);");
    assert_eq!(result, Ok(()));
    assert_eq!(output, "1");
}

#[test]
fn loops_run_while_their_condition_holds() {
    assert_eq!(
        output_of("var i: int = 0; while (i < 5) { print(i); i = i + 1; } println(i);"),
        "012345\n"
    );
    assert_eq!(output_of("while (false) { print(1); } print(2);"), "2");
    let program = "var i: int = 0; var total: int = 0;
        while (i < 1000) { i = i + 1; total = total + i; }
        println(total);";
    assert_eq!(output_of(program), "500500\n");
}

#[test]
fn a_loop_may_go_around_only_so_often() {
    let tokens = Tokenizer::new("var i: int = 0; while (true) { i = i + 1; print(i); }".to_string())
        .tokenize()
        .unwrap();
    let program = Parser::new(tokens).parse().unwrap();
    let limits = Limits { max_depth: 8, max_iterations: 3 };
    let mut interpreter = Interpreter::with_limits(&program, limits);
    let error = interpreter.execute().unwrap_err();
    assert_eq!(error.message, "iteration limit exceeded");
    assert_eq!(error.span, Span { line: 1, column: 28 });
    assert_eq!(interpreter.output(), "123");
    let tokens = Tokenizer::new("var i: int = 0; while (i < 3) { i = i + 1; print(i); }".to_string())
        .tokenize()
        .unwrap();
    let program = Parser::new(tokens).parse().unwrap();
    let mut interpreter = Interpreter::with_limits(&program, limits);
    assert_eq!(interpreter.execute(), Ok(()));
    assert_eq!(interpreter.output(), "123");
}

#[test]
fn calls_may_nest_only_so_deeply() {
    let source = "func down(n: int): int { if (n == 0) { return 0; } return 1 + down(n - 1); }
        println(down(3)); println(down(4));";
    let tokens = Tokenizer::new(source.to_string()).tokenize().unwrap();
    let program = Parser::new(tokens).parse().unwrap();
    let limits = Limits { max_depth: 4, max_iterations: 10 };
    let mut interpreter = Interpreter::with_limits(&program, limits);
    let error = interpreter.execute().unwrap_err();
    assert_eq!(error.message, "call depth exceeded");
    assert_eq!(interpreter.output(), "3\n");
    let endless = "func f(): void { f(); } f();";
    assert_eq!(failure_of(endless).message, "call depth exceeded");
    let deep = "func down(n: int): int { if (n == 0) { return 0; } return 1 + down(n - 1); }
        println(down(100));";
    assert_eq!(output_of(deep), "100\n");
}

#[test]
fn conditions_must_be_truth_values_when_run() {
    let error = failure_of("if (1) { print(1); }");
    assert_eq!(error.message, "condition is not a bool: 1");
    assert_eq!(error.span, Span { line: 1, column: 6 });
    assert_eq!(failure_of("while (\"yes\") { }").message, "condition is not a bool: yes");
    assert_eq!(failure_of("if (print(1)) { }").message, "condition is not a bool: void");
}

#[test]
fn what_was_written_before_a_failure_stays_written() {
    let (output, result) = run_unchecked("print(\"a\"); print(1 / 0); print(\"b\");");
    assert_eq!(output, "a");
    assert_eq!(result.unwrap_err().message, "division by zero");
}

#[test]
fn a_declared_function_goes_before_an_output_operation() {
    assert_eq!(
        output_of("func print(n: int): void { println(n + 1); } print(1);"),
        "2\n"
    );
}

#[test]
fn functions_declared_in_blocks_end_with_them() {
    let program = "func outer(): int {
            func inner(): int { return 41; }
            return inner() + 1;
        }
        println(outer());";
    assert_eq!(output_of(program), "42\n");
    assert_eq!(
        failure_of("func outer(): void { func inner(): void { } } outer(); inner();").message,
        "use of undefined function inner"
    );
}

#[test]
fn a_callee_and_its_caller_keep_their_own_variables() {
    let program = "func is_prime(n: int): bool {
            var i: int = 2;
            while (i < n) { if (n % i == 0) { return false; } i = i + 1; }
            return n > 1;
        }
        var i: int = 10;
        while (i < 14) { if (is_prime(i)) { println(i); } i = i + 1; }";
    assert_eq!(output_of(program), "11\n13\n");
}

#[test]
fn running_again_writes_again() {
    let tokens = Tokenizer::new("print(\"x\");".to_string()).tokenize().unwrap();
    let program = Parser::new(tokens).parse().unwrap();
    let mut interpreter = Interpreter::new(&program);
    assert_eq!(interpreter.output(), "");
    assert_eq!(interpreter.execute(), Ok(()));
    assert_eq!(interpreter.execute(), Ok(()));
    assert_eq!(interpreter.output(), "xx");
}
