use minilang::analyzer::Analyzer;
use minilang::interpreter::Interpreter;
use minilang::parser::Parser;
use minilang::tokenizer::Tokenizer;

#[test]
// A complex example that tests most of the features of the language:
// multiple functions, loops, if statements, variable declarations,
// arithmetic, variable re-assignments, and recursion.
//
// Not perfect, but it covert 90% of edge cases without having 10000 tests.
fn complex_full() {
    let input = r#"func is_prime(n: int): bool {if (n <= 1) {return false;}
        var i: int = 2;while (i < n) {if (n % i == 0) {return false;}i = i + 1;
        }return true;}func factorial(o: int): int {if (o <= 1) {return 1;}
        return o * factorial(o - 1);}func complex(limit: int): void 
        {var i: int = 1;while (i <= limit) {if (i % 2 == 0) {println("Even");}
        else {println("Odd");}if (is_prime(i)) {println("Prime number:");
        println(i);} var fact: int = factorial(i);println("Factorial:");
        println(fact);i = i + 1;}}complex(5);"#;
    let mut tokenizer = Tokenizer::new(input.to_string());
    let tokens = tokenizer.tokenize().unwrap();
    let mut parser = Parser::new(tokens);
    let ast = parser.parse().unwrap();
    let mut analyzer = Analyzer::new(&ast);
    analyzer.analyze().unwrap();
    let mut interpreter = Interpreter::new(&ast);
    interpreter.execute().unwrap();
}

#[test]
fn builtin_print() {
    let input = r#"println("Hello, World!");"#;
    let mut tokenizer = Tokenizer::new(input.to_string());
    let tokens = tokenizer.tokenize().unwrap();
    let mut parser = Parser::new(tokens);
    let ast = parser.parse().unwrap();
    let mut analyzer = Analyzer::new(&ast);
    analyzer.analyze().unwrap();
    let mut interpreter = Interpreter::new(&ast);
    interpreter.execute().unwrap();
}

fn run(source: &str) -> Result<String, String> {
    let mut tokenizer = Tokenizer::new(source.to_string());
    let tokens = tokenizer.tokenize().map_err(|e| e.to_text())?;
    let mut parser = Parser::new(tokens);
    let ast = parser.parse().map_err(|e| e.to_text())?;
    let mut analyzer = Analyzer::new(&ast);
    analyzer.analyze().map_err(|e| e.to_text())?;
    let mut interpreter = Interpreter::new(&ast);
    match interpreter.execute() {
        Ok(()) => Ok(interpreter.output().clone()),
        Err(e) => Err(format!("{}|{}", interpreter.output(), e.to_text())),
    }
}

#[test]
fn complex_full_output() {
    let input = r#"func is_prime(n: int): bool {if (n <= 1) {return false;}
        var i: int = 2;while (i < n) {if (n % i == 0) {return false;}i = i + 1;
        }return true;}func factorial(o: int): int {if (o <= 1) {return 1;}
        return o * factorial(o - 1);}func complex(limit: int): void 
        {var i: int = 1;while (i <= limit) {if (i % 2 == 0) {println("Even");}
        else {println("Odd");}if (is_prime(i)) {println("Prime number:");
        println(i);} var fact: int = factorial(i);println("Factorial:");
        println(fact);i = i + 1;}}complex(5);"#;
    let expected = "Odd\nFactorial:\n1\n\
                    Even\nPrime number:\n2\nFactorial:\n2\n\
                    Odd\nPrime number:\n3\nFactorial:\n6\n\
                    Even\nFactorial:\n24\n\
                    Odd\nPrime number:\n5\nFactorial:\n120\n";
    assert_eq!(run(input), Ok(expected.to_string()));
}

#[test]
fn builtin_print_output() {
    assert_eq!(run(r#"println("Hello, World!");"#), Ok("Hello, World!\n".to_string()));
    assert_eq!(run(r#"print("a"); print(1); print(true);"#), Ok("a1true".to_string()));
}

#[test]
fn precedence_of_arithmetic() {
    assert_eq!(run("println(1 + 2 * 3);"), Ok("7\n".to_string()));
    assert_eq!(run("println((1 + 2) * 3);"), Ok("9\n".to_string()));
    assert_eq!(run("println(10 - 4 - 3);"), Ok("3\n".to_string()));
    assert_eq!(run("println(100 / 10 / 5);"), Ok("2\n".to_string()));
    assert_eq!(run("println(2 * 3 % 4);"), Ok("2\n".to_string()));
    assert_eq!(run("println(1 + 2 * 3 - 8 / 4 % 3);"), Ok("5\n".to_string()));
    assert_eq!(run("println(1 + 2 < 2 * 2);"), Ok("true\n".to_string()));
}

#[test]
fn shadowing_in_blocks() {
    let input = r#"var x: int = 1;
        if (true) { var x: int = 2; println(x); x = 3; println(x); }
        println(x);
        var n: int = 0;
        while (n < 2) { var x: string = "inner"; println(x); n = n + 1; }
        println(x);"#;
    assert_eq!(run(input), Ok("2\n3\n1\ninner\ninner\n1\n".to_string()));
}

#[test]
fn recursion_factorial() {
    let input = r#"func f(n: int): int { if (n <= 1) { return 1; } return n * f(n - 1); }
        println(f(5));"#;
    assert_eq!(run(input), Ok("120\n".to_string()));
}

#[test]
fn if_chain_runs_one_branch() {
    let input = r#"if (1 > 2) { print("A"); } else if (2 > 1) { print("B"); } else { print("C"); }"#;
    assert_eq!(run(input), Ok("B".to_string()));
    let input = r#"if (1 > 2) { print("A"); } else if (2 > 3) { print("B"); } else { print("C"); }"#;
    assert_eq!(run(input), Ok("C".to_string()));
    let input = r#"if (2 > 1) { print("A"); } else if (2 > 1) { print("B"); } else { print("C"); }"#;
    assert_eq!(run(input), Ok("A".to_string()));
}
