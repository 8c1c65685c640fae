use minilang::analyzer::Analyzer;
use minilang::common::ast::Program;
use minilang::interpreter::Interpreter;
use minilang::parser::Parser;
use minilang::printer::print_program;
use minilang::tokenizer::Tokenizer;

fn parse(source: &str) -> Program {
    let tokens = Tokenizer::new(source.to_string()).tokenize().unwrap();
    Parser::new(tokens).parse().unwrap()
}

fn output_of(program: &Program) -> String {
    Analyzer::new(program).analyze().unwrap();
    let mut interpreter = Interpreter::new(program);
    interpreter.execute().unwrap();
    interpreter.output().clone()
}

#[test]
fn the_text_of_a_program_is_its_tokens_with_spaces() {
    assert_eq!(print_program(&parse("")), "");
    assert_eq!(print_program(&parse("f();")), "f ( ) ; ");
    assert_eq!(print_program(&parse("x=1;")), "x = 1 ; ");
    assert_eq!(
        print_program(&parse("var s:string=\"a b\";")),
        "var s : string = \"a b\" ; "
    );
    assert_eq!(print_program(&parse("return;")), "return ; ");
    assert_eq!(print_program(&parse("return true;")), "return true ; ");
    assert_eq!(print_program(&parse("f(1,x,g(2));")), "f ( 1 , x , g ( 2 ) ) ; ");
}

#[test]
fn operators_are_printed_with_their_operands_in_parentheses() {
    assert_eq!(
        print_program(&parse("println(1 + 2 * 3);")),
        "println ( ( 1 + ( 2 * 3 ) ) ) ; "
    );
    assert_eq!(
        print_program(&parse("println((1 + 2) * 3);")),
        "println ( ( ( 1 + 2 ) * 3 ) ) ; "
    );
    assert_eq!(
        print_program(&parse("x = 1 - 2 - 3 <= 4 % 5;")),
        "x = ( ( ( 1 - 2 ) - 3 ) <= ( 4 % 5 ) ) ; "
    );
    assert_eq!(
        print_program(&parse("x = a == b; y = a != b; z = a > b; w = a >= b; v = a < b / c;")),
        "x = ( a == b ) ; y = ( a != b ) ; z = ( a > b ) ; w = ( a >= b ) ; v = ( a < ( b / c ) ) ; "
    );
}

#[test]
fn blocks_and_chains_are_printed() {
    assert_eq!(
        print_program(&parse("while (a) { b(); }")),
        "while ( a ) { b ( ) ; } "
    );
    assert_eq!(
        print_program(&parse("if (a) { } else if (b) { c(); } else { d(); }")),
        "if ( a ) { } else if ( b ) { c ( ) ; } else if ( true ) { d ( ) ; } "
    );
    assert_eq!(
        print_program(&parse("func f(a: int, b: bool): void { return; } func g(): int { return 1; }")),
        "func f ( a : int , b : bool ) : void { return ; } func g ( ) : int { return 1 ; } "
    );
}

#[test]
fn printing_and_reading_again_changes_nothing() {
    let sources = [
        "",
        "println(1 + 2 * 3 - 8 / 4 % 3);",
        "var x: int = 1; if (true) { var x: int = 2; println(x); x = 3; } println(x);",
        "func f(n: int): int { if (n <= 1) { return 1; } return n * f(n - 1); } println(f(5));",
        "if (1 > 2) { print(\"A\"); } else if (2 > 1) { print(\"B\"); } else { print(\"C\"); }",
        "func is_prime(n: int): bool {if (n <= 1) {return false;}
        var i: int = 2;while (i < n) {if (n % i == 0) {return false;}i = i + 1;
        }return true;}func factorial(o: int): int {if (o <= 1) {return 1;}
        return o * factorial(o - 1);}func complex(limit: int): void
        {var i: int = 1;while (i <= limit) {if (i % 2 == 0) {println(\"Even\");}
        else {println(\"Odd\");}if (is_prime(i)) {println(\"Prime number:\");
        println(i);} var fact: int = factorial(i);println(\"Factorial:\");
        println(fact);i = i + 1;}}complex(5);",
    ];
    for source in sources {
        let program = parse(source);
        let text = print_program(&program);
        let again = parse(&text);
        assert_eq!(print_program(&again), text);
        assert_eq!(output_of(&again), output_of(&program));
    }
}

#[test]
fn two_texts_of_one_tree_are_read_as_the_same_tree_but_for_positions() {
    let compact = parse("x=(1+2)*3;f(x);");
    let printed = parse(&print_program(&compact));
    assert_eq!(compact.body.len(), printed.body.len());
    assert_ne!(compact.body, printed.body);
    assert_eq!(print_program(&compact), print_program(&printed));
}
