//! The grammar: the syntax tree of a token sequence as a function of the
//! tokens, written as a recursive descent with precedence climbing.
//!
//! Every function takes the whole token sequence and the index of the next
//! token, and gives either what it recognised together with the index after
//! it, or the failure and the index at which it arose.
use crate::common::ast::{
    ExprView, FunctionView, IfView, ParamView, Span, StmtView, Type, ValueView, WithSpan,
};
use crate::common::token::TokenView;
use vstd::prelude::*;

verus! {

/// A positioned token sequence.
pub type Tokens = Seq<WithSpan<TokenView>>;

/// A syntax error: the message and the index of the offending token.
pub struct Failure {
    pub message: Seq<char>,
    pub at: int,
}

/// What a production gives: the recognised value and the index of the next
/// token, or the failure.
pub type Parsed<T> = Result<(T, int), Failure>;

/// The token at `pos`. Past the end of the sequence stands the end marker.
pub open spec fn token_at(ts: Tokens, pos: int) -> TokenView {
    if 0 <= pos < ts.len() {
        ts[pos].node
    } else {
        TokenView::EOF
    }
}

/// The source position of the token at `pos`. Past the end it is that of
/// the last token.
pub open spec fn span_at(ts: Tokens, pos: int) -> Span {
    if 0 <= pos < ts.len() {
        ts[pos].span
    } else if ts.len() > 0 {
        ts[ts.len() - 1].span
    } else {
        Span { line: 1, column: 1 }
    }
}

/// The complaint about a token other than the one that must stand there.
pub open spec fn expected_message(expected: TokenView, got: TokenView) -> Seq<char> {
    "Expected "@ + expected.describe() + ", got "@ + got.describe()
}

/// The complaint about a token that begins no expression.
pub open spec fn invalid_primary_message() -> Seq<char> {
    "Invalid symbol for primary expression"@
}

/// The complaint about a token that stands where a name must.
pub open spec fn expected_identifier_message(got: TokenView) -> Seq<char> {
    "expected identifier, got "@ + got.describe()
}

/// The complaint about a token that stands where a type name must.
pub open spec fn expected_type_message(got: TokenView) -> Seq<char> {
    "expected type identifier, got "@ + got.describe()
}

/// The complaint about a token that stands where a return type must.
pub open spec fn expected_return_type_message(got: TokenView) -> Seq<char> {
    "expected return type identifier, got "@ + got.describe()
}

/// The complaint about a token that begins no statement.
pub open spec fn statement_start_message(got: TokenView) -> Seq<char> {
    "expected identifier as first token in statement, got "@ + got.describe()
}

/// The complaint about a name that begins neither an assignment nor a
/// call.
pub open spec fn after_identifier_message(got: TokenView) -> Seq<char> {
    "Expected assignment or function call after identifier, got "@ + got.describe()
}

/// The message of the guard of [`checked`].
pub open spec fn no_progress_message() -> Seq<char> {
    "no progress"@
}

/// A result that has consumed at least one token and has stayed within the
/// sequence passes unchanged. The grammar's recursion is well founded
/// through this guard; `law_progress` shows that it lets every result of
/// a production through.
pub open spec fn checked<T>(ts: Tokens, pos: int, r: Parsed<T>) -> Parsed<T> {
    match r {
        Ok((value, next)) => if pos < next <= ts.len() {
            r
        } else {
            Err(Failure { message: no_progress_message(), at: pos })
        },
        Err(_) => r,
    }
}

/// Requires the token at `pos` to be `expected`, and steps over it.
pub open spec fn expect(ts: Tokens, pos: int, expected: TokenView) -> Result<int, Failure> {
    if token_at(ts, pos) == expected {
        Ok(pos + 1)
    } else {
        Err(Failure { message: expected_message(expected, token_at(ts, pos)), at: pos })
    }
}

/// The literal expression of the token at `pos`.
pub open spec fn literal_at(ts: Tokens, pos: int, value: ValueView) -> Parsed<WithSpan<ExprView>> {
    Ok((WithSpan { node: ExprView::Literal(value), span: span_at(ts, pos + 1) }, pos + 1))
}

/// A primary expression: a literal, a variable, a call, or an expression in
/// parentheses. A node's position is that of the token that follows it.
pub open spec fn parse_primary(ts: Tokens, pos: int) -> Parsed<WithSpan<ExprView>>
    decreases ts.len() - pos, 0int,
{
    match token_at(ts, pos) {
        TokenView::StringLiteral(text) => literal_at(ts, pos, ValueView::String(text)),
        TokenView::NumericLiteral(n) => literal_at(ts, pos, ValueView::Number(n)),
        TokenView::BooleanLiteral(b) => literal_at(ts, pos, ValueView::Bool(b)),
        TokenView::Identifier(name) => {
            if token_at(ts, pos + 1) == TokenView::LeftParen {
                match parse_arguments(ts, pos + 2) {
                    Ok((args, after_args)) => match expect(ts, after_args, TokenView::RightParen) {
                        Ok(next) => Ok(
                            (
                                WithSpan {
                                    node: ExprView::Call { callee: name, args },
                                    span: span_at(ts, next),
                                },
                                next,
                            ),
                        ),
                        Err(failure) => Err(failure),
                    },
                    Err(failure) => Err(failure),
                }
            } else {
                Ok((WithSpan { node: ExprView::Variable(name), span: span_at(ts, pos + 1) }, pos + 1))
            }
        },
        TokenView::LeftParen => match parse_expression(ts, pos + 1, 0) {
            Ok((inner, after_inner)) => match expect(ts, after_inner, TokenView::RightParen) {
                Ok(next) => Ok((inner, next)),
                Err(failure) => Err(failure),
            },
            Err(failure) => Err(failure),
        },
        _ => Err(Failure { message: invalid_primary_message(), at: pos }),
    }
}

/// The arguments of a call, from just after its opening parenthesis up to,
/// and not including, its closing one.
pub open spec fn parse_arguments(ts: Tokens, pos: int) -> Parsed<Seq<WithSpan<ExprView>>>
    decreases ts.len() - pos, 2int,
{
    if token_at(ts, pos) == TokenView::RightParen {
        Ok((Seq::empty(), pos))
    } else {
        match checked(ts, pos, parse_expression(ts, pos, 0)) {
            Ok((first, next)) => parse_more_arguments(ts, next, seq![first]),
            Err(failure) => Err(failure),
        }
    }
}

/// The arguments that follow the first, each after a comma.
pub open spec fn parse_more_arguments(
    ts: Tokens,
    pos: int,
    read: Seq<WithSpan<ExprView>>,
) -> Parsed<Seq<WithSpan<ExprView>>>
    decreases ts.len() - pos, 0int,
{
    if token_at(ts, pos) == TokenView::Comma {
        match checked(ts, pos, parse_expression(ts, pos + 1, 0)) {
            Ok((argument, next)) => parse_more_arguments(ts, next, read.push(argument)),
            Err(failure) => Err(failure),
        }
    } else {
        Ok((read, pos))
    }
}

/// An expression whose operators all bind at least as tightly as
/// `min_prec`: a primary expression, then operators and right operands for
/// as long as the next operator binds tightly enough.
pub open spec fn parse_expression(ts: Tokens, pos: int, min_prec: int) -> Parsed<WithSpan<ExprView>>
    decreases ts.len() - pos, 1int,
{
    match checked(ts, pos, parse_primary(ts, pos)) {
        Ok((left, next)) => parse_binary_rest(ts, next, min_prec, left),
        Err(failure) => Err(failure),
    }
}

/// Continues an expression whose left operand has been read. An operator
/// of precedence `p` takes as its right operand an expression whose
/// operators bind more tightly than `p`, so operators of one precedence
/// group to the left.
pub open spec fn parse_binary_rest(
    ts: Tokens,
    pos: int,
    min_prec: int,
    left: WithSpan<ExprView>,
) -> Parsed<WithSpan<ExprView>>
    decreases ts.len() - pos, 0int,
{
    match token_at(ts, pos).binary_operator() {
        Some(operator) => {
            if operator.precedence() < min_prec {
                Ok((left, pos))
            } else {
                match checked(ts, pos, parse_expression(ts, pos + 1, operator.precedence() + 1)) {
                    Ok((right, next)) => parse_binary_rest(
                        ts,
                        next,
                        min_prec,
                        WithSpan {
                            node: ExprView::Binary {
                                left: Box::new(left),
                                operator,
                                right: Box::new(right),
                            },
                            span: span_at(ts, next),
                        },
                    ),
                    Err(failure) => Err(failure),
                }
            }
        },
        None => Ok((left, pos)),
    }
}

/// The name that the token at `pos` holds if it is an identifier.
pub open spec fn identifier_at(ts: Tokens, pos: int) -> Option<Seq<char>> {
    match token_at(ts, pos) {
        TokenView::Identifier(name) => Some(name),
        _ => None,
    }
}

/// Whether the token at `pos` is the given word.
pub open spec fn word_at(ts: Tokens, pos: int, word: Seq<char>) -> bool {
    token_at(ts, pos) == TokenView::Identifier(word)
}

/// A type name at `pos`; `missing` is the complaint if no identifier
/// stands there.
pub open spec fn parse_type(ts: Tokens, pos: int, missing: Seq<char>) -> Parsed<Type> {
    match identifier_at(ts, pos) {
        Some(name) => match Type::named(name) {
            Some(type_) => Ok((type_, pos + 1)),
            None => Err(Failure { message: Type::unknown_message(name), at: pos }),
        },
        None => Err(Failure { message: missing, at: pos }),
    }
}

/// A name at `pos`.
pub open spec fn parse_name(ts: Tokens, pos: int) -> Parsed<Seq<char>> {
    match identifier_at(ts, pos) {
        Some(name) => Ok((name, pos + 1)),
        None => Err(Failure { message: expected_identifier_message(token_at(ts, pos)), at: pos }),
    }
}

/// A parameter: `name : type`.
pub open spec fn parse_parameter(ts: Tokens, pos: int) -> Parsed<ParamView> {
    match parse_name(ts, pos) {
        Ok((name, after_name)) => match expect(ts, after_name, TokenView::Colon) {
            Ok(after_colon) => match parse_type(
                ts,
                after_colon,
                expected_type_message(token_at(ts, after_colon)),
            ) {
                Ok((type_, next)) => Ok((ParamView { name, type_ }, next)),
                Err(failure) => Err(failure),
            },
            Err(failure) => Err(failure),
        },
        Err(failure) => Err(failure),
    }
}

/// The parameters of a function, from just after the opening parenthesis
/// up to, and not including, the closing one.
pub open spec fn parse_parameters(ts: Tokens, pos: int) -> Parsed<Seq<ParamView>> {
    if token_at(ts, pos) == TokenView::RightParen {
        Ok((Seq::empty(), pos))
    } else {
        match parse_parameter(ts, pos) {
            Ok((first, next)) => parse_more_parameters(ts, next, seq![first]),
            Err(failure) => Err(failure),
        }
    }
}

/// The parameters that follow the first, each after a comma.
pub open spec fn parse_more_parameters(ts: Tokens, pos: int, read: Seq<ParamView>) -> Parsed<
    Seq<ParamView>,
>
    decreases ts.len() - pos,
{
    if token_at(ts, pos) == TokenView::Comma {
        match parse_parameter(ts, pos + 1) {
            Ok((parameter, next)) => parse_more_parameters(ts, next, read.push(parameter)),
            Err(failure) => Err(failure),
        }
    } else {
        Ok((read, pos))
    }
}

/// The rest of `var name : type = expression ;` after the word `var`.
pub open spec fn parse_variable_declaration(ts: Tokens, pos: int) -> Parsed<WithSpan<StmtView>>
    decreases ts.len() - pos, 0int,
{
    match parse_name(ts, pos) {
        Ok((name, after_name)) => match expect(ts, after_name, TokenView::Colon) {
            Ok(after_colon) => match parse_type(
                ts,
                after_colon,
                expected_type_message(token_at(ts, after_colon)),
            ) {
                Ok((type_, after_type)) => match expect(ts, after_type, TokenView::Assign) {
                    Ok(after_assign) => match parse_expression(ts, after_assign, 0) {
                        Ok((value, after_value)) => match expect(
                            ts,
                            after_value,
                            TokenView::Semicolon,
                        ) {
                            Ok(next) => Ok(
                                (
                                    WithSpan {
                                        node: StmtView::VarDecl { name, type_, value },
                                        span: span_at(ts, next),
                                    },
                                    next,
                                ),
                            ),
                            Err(failure) => Err(failure),
                        },
                        Err(failure) => Err(failure),
                    },
                    Err(failure) => Err(failure),
                },
                Err(failure) => Err(failure),
            },
            Err(failure) => Err(failure),
        },
        Err(failure) => Err(failure),
    }
}

/// An assignment: `name = expression ;`.
pub open spec fn parse_variable_assignment(ts: Tokens, pos: int) -> Parsed<WithSpan<StmtView>>
    decreases ts.len() - pos, 0int,
{
    match parse_name(ts, pos) {
        Ok((name, after_name)) => match expect(ts, after_name, TokenView::Assign) {
            Ok(after_assign) => match parse_expression(ts, after_assign, 0) {
                Ok((value, after_value)) => match expect(ts, after_value, TokenView::Semicolon) {
                    Ok(next) => Ok(
                        (
                            WithSpan {
                                node: StmtView::VarAssignment { name, value },
                                span: span_at(ts, next),
                            },
                            next,
                        ),
                    ),
                    Err(failure) => Err(failure),
                },
                Err(failure) => Err(failure),
            },
            Err(failure) => Err(failure),
        },
        Err(failure) => Err(failure),
    }
}

/// A call used as a statement: `name ( arguments ) ;`.
pub open spec fn parse_function_call(ts: Tokens, pos: int) -> Parsed<WithSpan<StmtView>>
    decreases ts.len() - pos, 0int,
{
    match parse_name(ts, pos) {
        Ok((callee, after_name)) => match expect(ts, after_name, TokenView::LeftParen) {
            Ok(after_paren) => match parse_arguments(ts, after_paren) {
                Ok((args, after_args)) => match expect(ts, after_args, TokenView::RightParen) {
                    Ok(after_close) => match expect(ts, after_close, TokenView::Semicolon) {
                        Ok(next) => Ok(
                            (
                                WithSpan {
                                    node: StmtView::Expr(ExprView::Call { callee, args }),
                                    span: span_at(ts, next),
                                },
                                next,
                            ),
                        ),
                        Err(failure) => Err(failure),
                    },
                    Err(failure) => Err(failure),
                },
                Err(failure) => Err(failure),
            },
            Err(failure) => Err(failure),
        },
        Err(failure) => Err(failure),
    }
}

/// The rest of a `return` statement after the word `return`: a semicolon,
/// or an expression and a semicolon.
pub open spec fn parse_return(ts: Tokens, pos: int) -> Parsed<WithSpan<StmtView>>
    decreases ts.len() - pos, 0int,
{
    if token_at(ts, pos) == TokenView::Semicolon {
        Ok((WithSpan { node: StmtView::Return { value: None }, span: span_at(ts, pos + 1) }, pos + 1))
    } else {
        match parse_expression(ts, pos, 0) {
            Ok((value, after_value)) => match expect(ts, after_value, TokenView::Semicolon) {
                Ok(next) => Ok(
                    (
                        WithSpan {
                            node: StmtView::Return { value: Some(value) },
                            span: span_at(ts, next),
                        },
                        next,
                    ),
                ),
                Err(failure) => Err(failure),
            },
            Err(failure) => Err(failure),
        }
    }
}

/// A condition in parentheses and the opening brace of the block that it
/// governs: `( expression ) {`.
pub open spec fn parse_condition(ts: Tokens, pos: int) -> Parsed<WithSpan<ExprView>>
    decreases ts.len() - pos, 0int,
{
    match expect(ts, pos, TokenView::LeftParen) {
        Ok(after_paren) => match parse_expression(ts, after_paren, 0) {
            Ok((condition, after_condition)) => match expect(
                ts,
                after_condition,
                TokenView::RightParen,
            ) {
                Ok(after_close) => match expect(ts, after_close, TokenView::LeftBrace) {
                    Ok(next) => Ok((condition, next)),
                    Err(failure) => Err(failure),
                },
                Err(failure) => Err(failure),
            },
            Err(failure) => Err(failure),
        },
        Err(failure) => Err(failure),
    }
}

/// The rest of a `while` statement after the word `while`.
pub open spec fn parse_loop(ts: Tokens, pos: int) -> Parsed<WithSpan<StmtView>>
    decreases ts.len() - pos, 1int,
{
    match checked(ts, pos, parse_condition(ts, pos)) {
        Ok((condition, after_brace)) => match parse_body(ts, after_brace) {
            Ok((body, next)) => Ok(
                (WithSpan { node: StmtView::Loop { condition, body }, span: span_at(ts, next) }, next),
            ),
            Err(failure) => Err(failure),
        },
        Err(failure) => Err(failure),
    }
}

/// What follows the first block of a conditional: nothing, `else if` and
/// another conditional, or `else` and a block. A plain `else` block is
/// held as a conditional on the literal `true`.
pub open spec fn parse_else(ts: Tokens, pos: int) -> Parsed<Option<Box<WithSpan<StmtView>>>>
    decreases ts.len() - pos, 0int,
{
    if word_at(ts, pos, "else"@) {
        if word_at(ts, pos + 1, "if"@) {
            match parse_if(ts, pos + 2) {
                Ok((next_if, next)) => Ok(
                    (
                        Some(Box::new(WithSpan { node: StmtView::If(next_if), span: span_at(ts, next) })),
                        next,
                    ),
                ),
                Err(failure) => Err(failure),
            }
        } else {
            match expect(ts, pos + 1, TokenView::LeftBrace) {
                Ok(after_brace) => match parse_body(ts, after_brace) {
                    Ok((body, next)) => Ok(
                        (
                            Some(
                                Box::new(
                                    WithSpan {
                                        node: StmtView::If(
                                            IfView {
                                                condition: WithSpan {
                                                    node: ExprView::Literal(ValueView::Bool(true)),
                                                    span: span_at(ts, after_brace),
                                                },
                                                then_body: body,
                                                else_body: None,
                                            },
                                        ),
                                        span: span_at(ts, next),
                                    },
                                ),
                            ),
                            next,
                        ),
                    ),
                    Err(failure) => Err(failure),
                },
                Err(failure) => Err(failure),
            }
        }
    } else {
        Ok((None, pos))
    }
}

/// The rest of an `if` statement after the word `if`.
pub open spec fn parse_if(ts: Tokens, pos: int) -> Parsed<IfView>
    decreases ts.len() - pos, 1int,
{
    match checked(ts, pos, parse_condition(ts, pos)) {
        Ok((condition, after_brace)) => match checked(ts, pos, parse_body(ts, after_brace)) {
            Ok((then_body, after_body)) => match parse_else(ts, after_body) {
                Ok((else_body, next)) => Ok((IfView { condition, then_body, else_body }, next)),
                Err(failure) => Err(failure),
            },
            Err(failure) => Err(failure),
        },
        Err(failure) => Err(failure),
    }
}

/// The head of a function declaration after the word `func`, through the
/// opening brace of its body: `name ( parameters ) : type {`.
pub open spec fn parse_signature(ts: Tokens, pos: int) -> Parsed<(Seq<char>, Seq<ParamView>, Type)> {
    match parse_name(ts, pos) {
        Ok((name, after_name)) => match expect(ts, after_name, TokenView::LeftParen) {
            Ok(after_paren) => match parse_parameters(ts, after_paren) {
                Ok((params, after_params)) => match expect(ts, after_params, TokenView::RightParen) {
                    Ok(after_close) => match expect(ts, after_close, TokenView::Colon) {
                        Ok(after_colon) => match parse_type(
                            ts,
                            after_colon,
                            expected_return_type_message(token_at(ts, after_colon)),
                        ) {
                            Ok((type_, after_type)) => match expect(
                                ts,
                                after_type,
                                TokenView::LeftBrace,
                            ) {
                                Ok(next) => Ok(((name, params, type_), next)),
                                Err(failure) => Err(failure),
                            },
                            Err(failure) => Err(failure),
                        },
                        Err(failure) => Err(failure),
                    },
                    Err(failure) => Err(failure),
                },
                Err(failure) => Err(failure),
            },
            Err(failure) => Err(failure),
        },
        Err(failure) => Err(failure),
    }
}

/// The rest of a function declaration after the word `func`.
pub open spec fn parse_function(ts: Tokens, pos: int) -> Parsed<WithSpan<StmtView>>
    decreases ts.len() - pos, 0int,
{
    match checked(ts, pos, parse_signature(ts, pos)) {
        Ok(((name, params, type_), after_brace)) => match parse_body(ts, after_brace) {
            Ok((body, next)) => Ok(
                (
                    WithSpan {
                        node: StmtView::Function(FunctionView { name, params, type_, body }),
                        span: span_at(ts, next),
                    },
                    next,
                ),
            ),
            Err(failure) => Err(failure),
        },
        Err(failure) => Err(failure),
    }
}

/// A statement. The words `var`, `if`, `return`, `while` and `func` begin
/// their statements; any other name begins a call if a parenthesis follows
/// it and an assignment if an equals sign does.
pub open spec fn parse_statement(ts: Tokens, pos: int) -> Parsed<WithSpan<StmtView>>
    decreases ts.len() - pos, 2int,
{
    match token_at(ts, pos) {
        TokenView::Identifier(name) => {
            if name == "var"@ {
                parse_variable_declaration(ts, pos + 1)
            } else if name == "if"@ {
                match parse_if(ts, pos + 1) {
                    Ok((conditional, next)) => Ok(
                        (WithSpan { node: StmtView::If(conditional), span: span_at(ts, next) }, next),
                    ),
                    Err(failure) => Err(failure),
                }
            } else if name == "return"@ {
                parse_return(ts, pos + 1)
            } else if name == "while"@ {
                parse_loop(ts, pos + 1)
            } else if name == "func"@ {
                parse_function(ts, pos + 1)
            } else {
                match token_at(ts, pos + 1) {
                    TokenView::LeftParen => parse_function_call(ts, pos),
                    TokenView::Assign => parse_variable_assignment(ts, pos),
                    _ => Err(
                        Failure { message: after_identifier_message(token_at(ts, pos)), at: pos },
                    ),
                }
            }
        },
        _ => Err(Failure { message: statement_start_message(token_at(ts, pos)), at: pos }),
    }
}

/// A block: statements up to a closing brace, which belongs to the block,
/// or up to the end marker.
pub open spec fn parse_body(ts: Tokens, pos: int) -> Parsed<Seq<WithSpan<StmtView>>>
    decreases ts.len() - pos, 4int,
{
    parse_body_rest(ts, pos, Seq::empty())
}

/// Continues a block whose first statements have been read.
pub open spec fn parse_body_rest(
    ts: Tokens,
    pos: int,
    read: Seq<WithSpan<StmtView>>,
) -> Parsed<Seq<WithSpan<StmtView>>>
    decreases ts.len() - pos, 3int,
{
    if token_at(ts, pos) == TokenView::EOF {
        Ok((read, pos))
    } else if token_at(ts, pos) == TokenView::RightBrace {
        Ok((read, pos + 1))
    } else {
        match checked(ts, pos, parse_statement(ts, pos)) {
            Ok((statement, next)) => parse_body_rest(ts, next, read.push(statement)),
            Err(failure) => Err(failure),
        }
    }
}

/// Continues a program whose first statements have been read: statements
/// up to the end marker. At this level a closing brace closes nothing, and
/// begins no statement.
pub open spec fn parse_statements(
    ts: Tokens,
    pos: int,
    read: Seq<WithSpan<StmtView>>,
) -> Parsed<Seq<WithSpan<StmtView>>>
    decreases ts.len() - pos,
{
    if token_at(ts, pos) == TokenView::EOF {
        Ok((read, pos))
    } else {
        match checked(ts, pos, parse_statement(ts, pos)) {
            Ok((statement, next)) => parse_statements(ts, next, read.push(statement)),
            Err(failure) => Err(failure),
        }
    }
}

/// The syntax tree of the tokens from `pos` on, read as a program.
pub open spec fn parse_program_from(ts: Tokens, pos: int) -> Parsed<Seq<WithSpan<StmtView>>> {
    parse_statements(ts, pos, Seq::empty())
}

/// The syntax tree of a whole token sequence.
pub open spec fn parse_program(ts: Tokens) -> Parsed<Seq<WithSpan<StmtView>>> {
    parse_program_from(ts, 0)
}

} // verus!
