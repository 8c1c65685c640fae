use minilang::common::ast::{
    report_text, Expression, LiteralExpression, LiteralValue, Span, Spannable, Type, WithSpan,
};
use minilang::common::scope::ScopeTable;
use minilang::common::text::{decimal_string, push_decimal, push_decimal_nat, text_is};
use minilang::common::token::{BinaryOperator, Token, UnaryOperator};
use minilang::parser::Parser;
use minilang::tokenizer::Tokenizer;

#[test]
fn decimal_text_of_integers() {
    assert_eq!(decimal_string(0), "0");
    assert_eq!(decimal_string(7), "7");
    assert_eq!(decimal_string(10), "10");
    assert_eq!(decimal_string(-1), "-1");
    assert_eq!(decimal_string(120), "120");
    assert_eq!(decimal_string(2147483647), "2147483647");
    assert_eq!(decimal_string(-2147483648), "-2147483648");
    assert_eq!(decimal_string(i64::MAX), "9223372036854775807");
    assert_eq!(decimal_string(i64::MIN), "-9223372036854775808");
    let mut text = "n=".to_string();
    push_decimal(&mut text, -42);
    push_decimal_nat(&mut text, 1000);
    assert_eq!(text, "n=-421000");
}

#[test]
fn text_comparison() {
    assert!(text_is(&"var".to_string(), "var"));
    assert!(!text_is(&"var".to_string(), "va"));
    assert!(!text_is(&"".to_string(), "var"));
    assert!(text_is(&"".to_string(), ""));
}

#[test]
fn type_names() {
    assert_eq!(Type::from_name(&"int".to_string()), Ok(Type::Int));
    assert_eq!(Type::from_name(&"bool".to_string()), Ok(Type::Bool));
    assert_eq!(Type::from_name(&"string".to_string()), Ok(Type::String));
    assert_eq!(Type::from_name(&"void".to_string()), Ok(Type::Void));
    assert_eq!(Type::from_name(&"Int".to_string()), Err("Unknown type: Int".to_string()));
    assert_eq!(Type::from_name(&"".to_string()), Err("Unknown type: ".to_string()));
    assert_eq!(Type::Int.get_name(), "int");
    assert_eq!(Type::Bool.get_name(), "bool");
    assert_eq!(Type::String.get_name(), "string");
    assert_eq!(Type::Void.get_name(), "void");
}

#[test]
fn operator_precedence_levels() {
    assert_eq!(BinaryOperator::Multiply.get_precedence(), 10);
    assert_eq!(BinaryOperator::Divide.get_precedence(), 10);
    assert_eq!(BinaryOperator::Modulo.get_precedence(), 10);
    assert_eq!(BinaryOperator::Add.get_precedence(), 9);
    assert_eq!(BinaryOperator::Subtract.get_precedence(), 9);
    assert_eq!(BinaryOperator::Equal.get_precedence(), 1);
    assert_eq!(BinaryOperator::NotEqual.get_precedence(), 1);
    assert_eq!(BinaryOperator::LessThan.get_precedence(), 1);
    assert_eq!(BinaryOperator::LessThanOrEqual.get_precedence(), 1);
    assert_eq!(BinaryOperator::GreaterThan.get_precedence(), 1);
    assert_eq!(BinaryOperator::GreaterThanOrEqual.get_precedence(), 1);
    assert_eq!(BinaryOperator::LessThanOrEqual.get_symbol(), "<=");
    assert_eq!(BinaryOperator::Modulo.get_symbol(), "%");
}

#[test]
fn tokens_and_their_operators() {
    assert_eq!(
        Token::BinaryOperator(BinaryOperator::Add).get_binary_operator(),
        Some(BinaryOperator::Add)
    );
    assert_eq!(Token::Comma.get_binary_operator(), None);
    assert_eq!(Token::UnaryOperator(UnaryOperator::Not).get_binary_operator(), None);
    let located = Token::Identifier("x".to_string()).with_location(3, 4);
    assert_eq!(located.token, Token::Identifier("x".to_string()));
    assert_eq!(located.line, 3);
    assert_eq!(located.column, 4);
}

#[test]
fn tokens_in_diagnostics() {
    assert_eq!(Token::Identifier("x".to_string()).describe(), "identifier 'x'");
    assert_eq!(Token::NumericLiteral(12).describe(), "number 12");
    assert_eq!(Token::StringLiteral("hi".to_string()).describe(), "string \"hi\"");
    assert_eq!(Token::BooleanLiteral(true).describe(), "boolean true");
    assert_eq!(Token::BooleanLiteral(false).describe(), "boolean false");
    assert_eq!(Token::BinaryOperator(BinaryOperator::NotEqual).describe(), "operator '!='");
    assert_eq!(Token::UnaryOperator(UnaryOperator::Not).describe(), "operator '!'");
    assert_eq!(Token::Comma.describe(), "','");
    assert_eq!(Token::Colon.describe(), "':'");
    assert_eq!(Token::Assign.describe(), "'='");
    assert_eq!(Token::LeftParen.describe(), "'('");
    assert_eq!(Token::RightParen.describe(), "')'");
    assert_eq!(Token::LeftBrace.describe(), "'{'");
    assert_eq!(Token::RightBrace.describe(), "'}'");
    assert_eq!(Token::Semicolon.describe(), "';'");
    assert_eq!(Token::EOF.describe(), "end of input");
}

#[test]
fn tokens_compared_and_copied() {
    let name = Token::Identifier("x".to_string());
    assert!(name.same_as(&Token::Identifier("x".to_string())));
    assert!(!name.same_as(&Token::Identifier("y".to_string())));
    assert!(!name.same_as(&Token::StringLiteral("x".to_string())));
    assert!(Token::EOF.same_as(&Token::EOF));
    assert!(!Token::LeftParen.same_as(&Token::RightParen));
    assert_eq!(name.duplicate(), name);
    assert_eq!(Token::NumericLiteral(3).duplicate(), Token::NumericLiteral(3));
}

#[test]
fn nodes_and_positions() {
    let span = Span { line: 2, column: 9 };
    let node = Expression::Literal(LiteralExpression { value: LiteralValue::Number(1) });
    let spanned = node.spanned(span);
    assert_eq!(spanned.span, span);
    assert_eq!(
        spanned.as_ref(),
        &Expression::Literal(LiteralExpression { value: LiteralValue::Number(1) })
    );
    assert_eq!(
        Token::Comma.spanned(span),
        WithSpan { node: Token::Comma, span: Span { line: 2, column: 9 } }
    );
}

#[test]
fn values() {
    assert_eq!(LiteralValue::Number(-5).to_text(), "-5");
    assert_eq!(LiteralValue::Bool(true).to_text(), "true");
    assert_eq!(LiteralValue::Bool(false).to_text(), "false");
    assert_eq!(LiteralValue::String("a b".to_string()).to_text(), "a b");
    assert_eq!(LiteralValue::Void.to_text(), "void");
    assert_eq!(LiteralValue::Number(1).get_type(), Type::Int);
    assert_eq!(LiteralValue::Bool(true).get_type(), Type::Bool);
    assert_eq!(LiteralValue::String("".to_string()).get_type(), Type::String);
    assert_eq!(LiteralValue::Void.get_type(), Type::Void);
    assert!(LiteralValue::Number(1).same_as(&LiteralValue::Number(1)));
    assert!(!LiteralValue::Number(1).same_as(&LiteralValue::Number(2)));
    assert!(!LiteralValue::Number(1).same_as(&LiteralValue::Bool(true)));
    assert!(LiteralValue::String("a".to_string()).same_as(&LiteralValue::String("a".to_string())));
    assert!(LiteralValue::Void.same_as(&LiteralValue::Void));
    let text = LiteralValue::String("copy".to_string());
    assert_eq!(text.clone(), text);
}

#[test]
fn diagnostics_for_users() {
    assert_eq!(
        report_text("SyntaxError", &"oops".to_string(), Span { line: 12, column: 3 }),
        "SyntaxError: oops (at 12:3)"
    );
}

#[test]
fn scopes_shadow_and_restore() {
    let mut table: ScopeTable<LiteralValue> = ScopeTable::new();
    let x = "x".to_string();
    let y = "y".to_string();
    assert!(table.lookup(&x).is_none());
    table.add(x.clone(), LiteralValue::Number(0));
    assert!(table.lookup(&x).is_none());
    table.enter_scope();
    table.add(x.clone(), LiteralValue::Number(1));
    table.add(y.clone(), LiteralValue::Number(10));
    assert_eq!(table.lookup(&x), Some(&LiteralValue::Number(1)));
    assert!(table.declares(&x));
    table.enter_scope();
    assert_eq!(table.lookup(&x), Some(&LiteralValue::Number(1)));
    assert!(!table.declares(&x));
    table.add(x.clone(), LiteralValue::Number(2));
    assert!(table.declares(&x));
    assert_eq!(table.lookup(&x), Some(&LiteralValue::Number(2)));
    table.assign(x.clone(), LiteralValue::Number(3));
    assert_eq!(table.lookup(&x), Some(&LiteralValue::Number(3)));
    table.assign(y.clone(), LiteralValue::Number(11));
    assert_eq!(table.lookup(&y), Some(&LiteralValue::Number(11)));
    table.assign("z".to_string(), LiteralValue::Number(9));
    assert!(table.lookup(&"z".to_string()).is_none());
    table.exit_scope();
    assert_eq!(table.lookup(&x), Some(&LiteralValue::Number(1)));
    assert_eq!(table.lookup(&y), Some(&LiteralValue::Number(11)));
    table.add(x.clone(), LiteralValue::Number(4));
    assert_eq!(table.lookup(&x), Some(&LiteralValue::Number(4)));
    table.exit_scope();
    assert!(table.lookup(&x).is_none());
    table.exit_scope();
    assert!(table.lookup(&y).is_none());
}

#[test]
fn a_copy_of_a_tree_is_the_same_tree() {
    let source = "func f(n: int, s: string): int {
            if (n <= 1) { return 1; } else if (n == 2) { print(s); } else { return; }
            while (n > 0) { n = n - 1; var t: bool = f(n, \"x\") == 2 * (n + 1); }
            return n * f(n - 1, s);
        }
        f(5, \"five\");";
    let tokens = Tokenizer::new(source.to_string()).tokenize().unwrap();
    let program = Parser::new(tokens).parse().unwrap();
    let copy = program.clone();
    assert_eq!(copy.body, program.body);
    assert_eq!(copy.body[0].clone(), program.body[0]);
    assert_eq!(copy.body[1].node.clone(), program.body[1].node);
}

#[test]
fn positions_for_users() {
    assert_eq!(Span { line: 1, column: 1 }.to_text(), "1:1");
    assert_eq!(Span { line: 120, column: 7 }.to_text(), "120:7");
}

#[test]
fn type_names_through_from_str() {
    assert_eq!("int".parse::<Type>(), Ok(Type::Int));
    assert_eq!("void".parse::<Type>(), Ok(Type::Void));
    assert_eq!("nothing".parse::<Type>(), Err("Unknown type: nothing".to_string()));
}
