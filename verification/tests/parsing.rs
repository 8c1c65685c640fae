use minilang::common::ast::{
    BinaryExpression, Expression, FunctionCall, IfStatement, LiteralExpression, LiteralValue,
    ReturnStatement, Span, Spannable, SpannedExpression, Statement, VariableRef,
};
use minilang::common::token::{BinaryOperator, Token};
use minilang::parser::{Parser, SyntaxError};
use minilang::tokenizer::Tokenizer;

fn parser_for(source: &str) -> Parser {
    Parser::new(Tokenizer::new(source.to_string()).tokenize().unwrap())
}

fn failure_of(source: &str) -> SyntaxError {
    parser_for(source).parse().unwrap_err()
}

fn number(n: i32, line: usize, column: usize) -> SpannedExpression {
    Expression::Literal(LiteralExpression { value: LiteralValue::Number(n) })
        .spanned(Span { line, column })
}

fn binary(
    left: SpannedExpression,
    operator: BinaryOperator,
    right: SpannedExpression,
    line: usize,
    column: usize,
) -> SpannedExpression {
    Expression::Binary(Box::new(BinaryExpression { left, operator, right }))
        .spanned(Span { line, column })
}

fn returned_expression(source: &str) -> SpannedExpression {
    let mut program = parser_for(source).parse().unwrap();
    assert_eq!(program.body.len(), 1);
    match program.body.remove(0).node {
        Statement::Return(ReturnStatement { value: Some(value) }) => value,
        other => panic!("not a return with a value: {:?}", other),
    }
}

#[test]
fn multiplication_binds_more_tightly_than_addition() {
    // return 1 + 2 * 3;
    // columns:   8 10 12 14 16 17
    assert_eq!(
        returned_expression("return 1 + 2 * 3;"),
        binary(
            number(1, 1, 10),
            BinaryOperator::Add,
            binary(number(2, 1, 14), BinaryOperator::Multiply, number(3, 1, 17), 1, 17),
            1,
            17
        )
    );
    assert_eq!(
        returned_expression("return 1 * 2 + 3;"),
        binary(
            binary(number(1, 1, 10), BinaryOperator::Multiply, number(2, 1, 14), 1, 14),
            BinaryOperator::Add,
            number(3, 1, 17),
            1,
            17
        )
    );
}

#[test]
fn operators_of_one_level_group_to_the_left() {
    assert_eq!(
        returned_expression("return 1 - 2 - 3;"),
        binary(
            binary(number(1, 1, 10), BinaryOperator::Subtract, number(2, 1, 14), 1, 14),
            BinaryOperator::Subtract,
            number(3, 1, 17),
            1,
            17
        )
    );
    assert_eq!(
        returned_expression("return 8 / 4 % 3;"),
        binary(
            binary(number(8, 1, 10), BinaryOperator::Divide, number(4, 1, 14), 1, 14),
            BinaryOperator::Modulo,
            number(3, 1, 17),
            1,
            17
        )
    );
    assert_eq!(
        returned_expression("return 1 < 2 == 3;"),
        binary(
            binary(number(1, 1, 10), BinaryOperator::LessThan, number(2, 1, 15), 1, 15),
            BinaryOperator::Equal,
            number(3, 1, 18),
            1,
            18
        )
    );
}

#[test]
fn parentheses_group() {
    assert_eq!(
        returned_expression("return (1 + 2) * 3;"),
        binary(
            binary(number(1, 1, 11), BinaryOperator::Add, number(2, 1, 14), 1, 14),
            BinaryOperator::Multiply,
            number(3, 1, 19),
            1,
            19
        )
    );
    assert_eq!(returned_expression("return ((7));"), number(7, 1, 11));
}

#[test]
fn comparisons_bind_least_tightly() {
    assert_eq!(
        returned_expression("return 1 + 2 < 3 * 4;"),
        binary(
            binary(number(1, 1, 10), BinaryOperator::Add, number(2, 1, 14), 1, 14),
            BinaryOperator::LessThan,
            binary(number(3, 1, 18), BinaryOperator::Multiply, number(4, 1, 21), 1, 21),
            1,
            21
        )
    );
}

#[test]
fn calls_and_variables_in_expressions() {
    assert_eq!(
        returned_expression("return f(x, 1) + y;"),
        binary(
            Expression::FunctionCall(Box::new(FunctionCall {
                callee: "f".to_string(),
                args: vec![
                    Expression::VariableRef(Box::new(VariableRef { name: "x".to_string() }))
                        .spanned(Span { line: 1, column: 11 }),
                    number(1, 1, 14),
                ],
            }))
            .spanned(Span { line: 1, column: 16 }),
            BinaryOperator::Add,
            Expression::VariableRef(Box::new(VariableRef { name: "y".to_string() }))
                .spanned(Span { line: 1, column: 19 }),
            1,
            19
        )
    );
    assert_eq!(
        returned_expression("return f();"),
        Expression::FunctionCall(Box::new(FunctionCall { callee: "f".to_string(), args: vec![] }))
            .spanned(Span { line: 1, column: 11 })
    );
}

#[test]
fn a_bare_return_has_no_value() {
    let program = parser_for("return;").parse().unwrap();
    assert_eq!(
        program.body,
        vec![Statement::Return(ReturnStatement { value: None }).spanned(Span { line: 1, column: 8 })]
    );
}

#[test]
fn a_plain_else_is_a_conditional_on_true() {
    let program = parser_for("if (a) { } else { b(); }").parse().unwrap();
    // if(2) ((4) a(5) )(6) {(8) }(10) else(15) {(17) b(19) ((20) )(21) ;(22) }(24) EOF(25)
    let expected = vec![Statement::If(IfStatement {
        condition: Expression::VariableRef(Box::new(VariableRef { name: "a".to_string() }))
            .spanned(Span { line: 1, column: 6 }),
        then_body: vec![],
        else_body: Some(Box::new(
            Statement::If(IfStatement {
                condition: Expression::Literal(LiteralExpression {
                    value: LiteralValue::Bool(true),
                })
                .spanned(Span { line: 1, column: 19 }),
                then_body: vec![Statement::Expr(Expression::FunctionCall(Box::new(
                    FunctionCall { callee: "b".to_string(), args: vec![] },
                )))
                .spanned(Span { line: 1, column: 24 })],
                else_body: None,
            })
            .spanned(Span { line: 1, column: 25 }),
        )),
    })
    .spanned(Span { line: 1, column: 25 })];
    assert_eq!(program.body, expected);
}

#[test]
fn an_else_if_chain_nests() {
    let program = parser_for("if (a) { } else if (b) { } else if (c) { }").parse().unwrap();
    let Statement::If(first) = &program.body[0].node else { panic!("not a conditional") };
    let Statement::If(second) = &first.else_body.as_ref().unwrap().node else {
        panic!("not a conditional")
    };
    let Statement::If(third) = &second.else_body.as_ref().unwrap().node else {
        panic!("not a conditional")
    };
    assert!(third.else_body.is_none());
    assert_eq!(
        third.condition.node,
        Expression::VariableRef(Box::new(VariableRef { name: "c".to_string() }))
    );
}

#[test]
fn a_block_ends_at_its_brace_or_at_the_end_marker() {
    let mut parser = parser_for("a(); } b();");
    let first = parser.parse_body().unwrap();
    assert_eq!(first.len(), 1);
    let second = parser.parse_body().unwrap();
    assert_eq!(second.len(), 1);
    let third = parser.parse_body().unwrap();
    assert_eq!(third.len(), 0);
    let program = parser_for("while (true) { a();").parse().unwrap();
    assert_eq!(program.body.len(), 1);
}

#[test]
fn a_program_ends_at_the_end_marker_only() {
    let error = failure_of("a(); } b();");
    assert_eq!(error.message, "expected identifier as first token in statement, got '}'");
    assert_eq!(error.span, Span { line: 1, column: 6 });
    let error = failure_of("}");
    assert_eq!(error.message, "expected identifier as first token in statement, got '}'");
    let error = failure_of("if (a) { } }");
    assert_eq!(error.message, "expected identifier as first token in statement, got '}'");
    assert_eq!(parser_for("if (a) { }").parse().unwrap().body.len(), 1);
}

#[test]
fn tokens_without_an_end_marker() {
    assert_eq!(Parser::new(vec![]).parse().unwrap().body, vec![]);
    let tokens = vec![
        Token::Identifier("f".to_string()).spanned(Span { line: 1, column: 1 }),
        Token::LeftParen.spanned(Span { line: 1, column: 2 }),
        Token::RightParen.spanned(Span { line: 1, column: 3 }),
        Token::Semicolon.spanned(Span { line: 1, column: 4 }),
    ];
    let program = Parser::new(tokens).parse().unwrap();
    assert_eq!(
        program.body,
        vec![Statement::Expr(Expression::FunctionCall(Box::new(FunctionCall {
            callee: "f".to_string(),
            args: vec![],
        })))
        .spanned(Span { line: 1, column: 4 })]
    );
    let tokens = vec![
        Token::Identifier("f".to_string()).spanned(Span { line: 1, column: 1 }),
        Token::LeftParen.spanned(Span { line: 1, column: 2 }),
    ];
    let error = Parser::new(tokens).parse().unwrap_err();
    assert_eq!(error.message, "Invalid symbol for primary expression");
    assert_eq!(error.span, Span { line: 1, column: 2 });
}

#[test]
fn a_missing_token_is_named() {
    let error = failure_of(r#"print("Hello", "World!";"#);
    assert_eq!(error.message, "Expected ')', got ';'");
    assert_eq!(error.span, Span { line: 1, column: 24 });
    assert_eq!(error.to_text(), "SyntaxError: Expected ')', got ';' (at 1:24)");
    let error = failure_of("x = 1");
    assert_eq!(error.message, "Expected ';', got end of input");
    assert_eq!(error.span, Span { line: 1, column: 6 });
    let error = failure_of("var x int = 1;");
    assert_eq!(error.message, "Expected ':', got identifier 'int'");
    assert_eq!(error.span, Span { line: 1, column: 9 });
    let error = failure_of("if a { }");
    assert_eq!(error.message, "Expected '(', got identifier 'a'");
    let error = failure_of("while (a) b();");
    assert_eq!(error.message, "Expected '{', got identifier 'b'");
    let error = failure_of("if (a) { } else b();");
    assert_eq!(error.message, "Expected '{', got identifier 'b'");
    let error = failure_of("func f() int { }");
    assert_eq!(error.message, "Expected ':', got identifier 'int'");
}

#[test]
fn what_cannot_begin_an_expression() {
    let error = failure_of("x = ;");
    assert_eq!(error.message, "Invalid symbol for primary expression");
    assert_eq!(error.span, Span { line: 1, column: 5 });
    let error = failure_of("x = 1 + ;");
    assert_eq!(error.message, "Invalid symbol for primary expression");
    assert_eq!(error.span, Span { line: 1, column: 9 });
    let error = failure_of("x = -1;");
    assert_eq!(error.message, "Invalid symbol for primary expression");
    assert_eq!(error.span, Span { line: 1, column: 5 });
    let error = failure_of("f(1,);");
    assert_eq!(error.message, "Invalid symbol for primary expression");
    assert_eq!(error.span, Span { line: 1, column: 5 });
}

#[test]
fn what_cannot_begin_a_statement() {
    let error = failure_of("1 + 2;");
    assert_eq!(error.message, "expected identifier as first token in statement, got number 1");
    assert_eq!(error.span, Span { line: 1, column: 1 });
    let error = failure_of("{ }");
    assert_eq!(error.message, "expected identifier as first token in statement, got '{'");
    let error = failure_of("x;");
    assert_eq!(
        error.message,
        "Expected assignment or function call after identifier, got identifier 'x'"
    );
    assert_eq!(error.span, Span { line: 1, column: 1 });
    let error = failure_of("x + 1;");
    assert_eq!(
        error.message,
        "Expected assignment or function call after identifier, got identifier 'x'"
    );
}

#[test]
fn names_and_types_in_declarations() {
    let error = failure_of("var 1: int = 1;");
    assert_eq!(error.message, "expected identifier, got number 1");
    assert_eq!(error.span, Span { line: 1, column: 5 });
    let error = failure_of("var x: 1 = 1;");
    assert_eq!(error.message, "expected type identifier, got number 1");
    assert_eq!(error.span, Span { line: 1, column: 8 });
    let error = failure_of("var x: float = 1;");
    assert_eq!(error.message, "Unknown type: float");
    assert_eq!(error.span, Span { line: 1, column: 12 });
    let error = failure_of("func (a: int): int { }");
    assert_eq!(error.message, "expected identifier, got '('");
    let error = failure_of("func f(1: int): int { }");
    assert_eq!(error.message, "expected identifier, got number 1");
    let error = failure_of("func f(a: 2): int { }");
    assert_eq!(error.message, "expected type identifier, got number 2");
    let error = failure_of("func f(a: number): int { }");
    assert_eq!(error.message, "Unknown type: number");
    let error = failure_of("func f(a: int): 3 { }");
    assert_eq!(error.message, "expected return type identifier, got number 3");
    let error = failure_of("func f(a: int): nothing { }");
    assert_eq!(error.message, "Unknown type: nothing");
    let error = failure_of("func f(a: int b: int): int { }");
    assert_eq!(error.message, "Expected ')', got identifier 'b'");
}

#[test]
fn parsing_stops_at_the_first_failure() {
    let mut parser = parser_for("a(); b(; c();");
    assert!(parser.parse().is_err());
    // The parser stands at the offending token; what follows can be read on.
    let error = parser.parse().unwrap_err();
    assert_eq!(
        error.message,
        "expected identifier as first token in statement, got ';'"
    );
}
