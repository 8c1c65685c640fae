//! The parser: from positioned tokens to the syntax tree.
pub mod grammar;
pub mod precedence;
pub mod printing;
pub mod progress;

use crate::common::ast::{
    BinaryExpression, Diagnostic, Expression, ExprView, FunctionCall, FunctionDecl, IfStatement,
    LiteralExpression, LiteralValue, LoopStatement, Parameter, ParamView, Program,
    ReturnStatement, Span, SpannedExpression, SpannedStatement, Statement, StmtView, Type,
    VariableAssignment, VariableDecl, VariableRef, WithSpan, exprs_view,
    lemma_exprs_view_empty, lemma_exprs_view_push, lemma_stmts_view_empty,
    lemma_stmts_view_push, params_view, report, report_text, stmts_view,
};
use crate::common::text::text_is;
use crate::common::token::{SpannedToken, Token, TokenView, tokens_view};
use crate::parser::grammar::{Failure, Parsed, Tokens, span_at, token_at};
use crate::parser::progress::{
    lemma_body, lemma_condition, lemma_expression, lemma_primary, lemma_signature,
    lemma_statement,
};
use vstd::prelude::*;

verus! {

/// A failure to parse: the message and the position of the offending token.
#[derive(Debug)]
pub struct SyntaxError {
    pub message: String,
    pub span: Span,
}

impl View for SyntaxError {
    type V = Diagnostic;

    open spec fn view(&self) -> Diagnostic {
        Diagnostic { message: self.message@, span: self.span }
    }
}

impl SyntaxError {
    /// An error with the given message about the given position.
    pub fn new(message: String, span: Span) -> (r: Self)
        ensures
            r.message == message,
            r.span == span,
    {
        Self { message, span }
    }

    /// The error as it is shown to a user.
    pub fn to_text(&self) -> (r: String)
        ensures
            r@ == report("SyntaxError"@, self@),
    {
        report_text("SyntaxError", &self.message, self.span)
    }
}

/// The diagnostic that a grammar failure is reported as.
pub open spec fn diagnostic(ts: Tokens, failure: Failure) -> Diagnostic {
    Diagnostic { message: failure.message, span: span_at(ts, failure.at) }
}

/// Whether what a parsing step gave, and where it left the parser, is what
/// the grammar says.
pub open spec fn agrees<V>(ts: Tokens, spec: Parsed<V>, got: Result<V, Diagnostic>, end: int) -> bool {
    match spec {
        Ok((value, next)) => got == Ok::<V, Diagnostic>(value) && end == next,
        Err(failure) => got == Err::<V, Diagnostic>(diagnostic(ts, failure)) && end == failure.at,
    }
}

/// The mathematical content of a step's result.
pub open spec fn viewed<T: View>(r: Result<T, SyntaxError>) -> Result<T::V, Diagnostic> {
    match r {
        Ok(value) => Ok(value@),
        Err(error) => Err(error@),
    }
}

/// The mathematical content of the result of parsing arguments.
pub open spec fn viewed_arguments(r: Result<Vec<SpannedExpression>, SyntaxError>) -> Result<
    Seq<WithSpan<ExprView>>,
    Diagnostic,
> {
    match r {
        Ok(value) => Ok(exprs_view(value)),
        Err(error) => Err(error@),
    }
}

/// The mathematical content of the result of parsing parameters.
pub open spec fn viewed_parameters(r: Result<Vec<Parameter>, SyntaxError>) -> Result<
    Seq<ParamView>,
    Diagnostic,
> {
    match r {
        Ok(value) => Ok(params_view(value@)),
        Err(error) => Err(error@),
    }
}

/// The mathematical content of the result of parsing a block.
pub open spec fn viewed_body(r: Result<Vec<SpannedStatement>, SyntaxError>) -> Result<
    Seq<WithSpan<StmtView>>,
    Diagnostic,
> {
    match r {
        Ok(value) => Ok(stmts_view(value)),
        Err(error) => Err(error@),
    }
}

/// The mathematical content of the result of parsing a program.
pub open spec fn viewed_program(r: Result<Program, SyntaxError>) -> Result<
    Seq<WithSpan<StmtView>>,
    Diagnostic,
> {
    match r {
        Ok(value) => Ok(value@),
        Err(error) => Err(error@),
    }
}

/// The mathematical content of the result of parsing an `else` part.
pub open spec fn viewed_else(r: Result<Option<Box<SpannedStatement>>, SyntaxError>) -> Result<
    Option<Box<WithSpan<StmtView>>>,
    Diagnostic,
> {
    match r {
        Ok(Some(next)) => Ok(Some(Box::new((*next)@))),
        Ok(None) => Ok(None),
        Err(error) => Err(error@),
    }
}

/// The mathematical content of the result of parsing a function's head.
pub open spec fn viewed_signature(r: Result<(String, Vec<Parameter>, Type), SyntaxError>) -> Result<
    (Seq<char>, Seq<ParamView>, Type),
    Diagnostic,
> {
    match r {
        Ok((name, params, type_)) => Ok((name@, params_view(params@), type_)),
        Err(error) => Err(error@),
    }
}

/// The mathematical content of the result of parsing a type name.
pub open spec fn viewed_type(r: Result<Type, SyntaxError>) -> Result<Type, Diagnostic> {
    match r {
        Ok(value) => Ok(value),
        Err(error) => Err(error@),
    }
}

/// The mathematical content of the result of parsing a name.
pub open spec fn viewed_name(r: Result<String, SyntaxError>) -> Result<Seq<char>, Diagnostic> {
    match r {
        Ok(value) => Ok(value@),
        Err(error) => Err(error@),
    }
}

/// A parser over one token sequence. It reads the tokens once, front to
/// back.
pub struct Parser {
    tokens: Vec<SpannedToken>,
    position: usize,
    end_marker: Token,
}

impl Parser {
    /// The tokens that the parser reads.
    pub closed spec fn tokens(&self) -> Tokens {
        tokens_view(self.tokens@)
    }

    /// The index of the next token.
    pub closed spec fn position(&self) -> int {
        self.position as int
    }

    /// How many tokens are left to read.
    pub closed spec fn remaining(&self) -> int {
        self.tokens().len() - self.position()
    }

    /// The parser's invariant: it stands within its tokens.
    pub closed spec fn wf(&self) -> bool {
        &&& self.position <= self.tokens.len()
        &&& self.end_marker == Token::EOF
    }

    /// A parser that stands before the first of the tokens.
    pub fn new(tokens: Vec<SpannedToken>) -> (r: Self)
        ensures
            r.wf(),
            r.tokens() == tokens_view(tokens@),
            r.position() == 0,
    {
        Self { tokens, position: 0, end_marker: Token::EOF }
    }

    /// Parses the rest of the tokens as a program: statements up to the
    /// end marker.
    pub fn parse(&mut self) -> (r: Result<Program, SyntaxError>)
        requires
            old(self).wf(),
        ensures
            final(self).wf(),
            final(self).tokens() == old(self).tokens(),
            agrees(
                old(self).tokens(),
                grammar::parse_program_from(old(self).tokens(), old(self).position()),
                viewed_program(r),
                final(self).position(),
            ),
    {
        let ghost ts = self.tokens();
        let ghost start = self.position();
        let mut statements: Vec<SpannedStatement> = Vec::new();
        proof {
            lemma_stmts_view_empty(statements);
        }
        loop
            invariant
                self.wf(),
                ts == self.tokens(),
                ts == old(self).tokens(),
                start == old(self).position(),
                grammar::parse_program_from(ts, start) == grammar::parse_statements(
                    ts,
                    self.position(),
                    stmts_view(statements),
                ),
            decreases self.remaining(),
        {
            match self.curr() {
                Token::EOF => {
                    return Ok(Program { body: statements });
                },
                _ => {},
            }
            proof {
                lemma_statement(ts, self.position());
            }
            let ghost before = statements;
            match self.parse_statement() {
                Ok(statement) => {
                    let ghost added = statement;
                    statements.push(statement);
                    proof {
                        lemma_stmts_view_push(before, statements, added);
                    }
                },
                Err(error) => {
                    return Err(error);
                },
            }
        }
    }

    /// Parses a block: statements up to a closing brace, which it reads
    /// too, or up to the end marker.
    pub fn parse_body(&mut self) -> (r: Result<Vec<SpannedStatement>, SyntaxError>)
        requires
            old(self).wf(),
        ensures
            final(self).wf(),
            final(self).tokens() == old(self).tokens(),
            agrees(
                old(self).tokens(),
                grammar::parse_body(old(self).tokens(), old(self).position()),
                viewed_body(r),
                final(self).position(),
            ),
        decreases old(self).remaining(), 4int,
    {
        let ghost ts = self.tokens();
        let ghost start = self.position();
        let mut statements: Vec<SpannedStatement> = Vec::new();
        proof {
            lemma_stmts_view_empty(statements);
        }
        loop
            invariant
                self.wf(),
                ts == self.tokens(),
                ts == old(self).tokens(),
                start == old(self).position(),
                start <= self.position(),
                grammar::parse_body(ts, start) == grammar::parse_body_rest(
                    ts,
                    self.position(),
                    stmts_view(statements),
                ),
            decreases self.remaining(),
        {
            match self.curr() {
                Token::EOF => {
                    return Ok(statements);
                },
                Token::RightBrace => {
                    self.advance();
                    return Ok(statements);
                },
                _ => {},
            }
            proof {
                lemma_statement(ts, self.position());
            }
            let ghost before = statements;
            match self.parse_statement() {
                Ok(statement) => {
                    let ghost added = statement;
                    statements.push(statement);
                    proof {
                        lemma_stmts_view_push(before, statements, added);
                    }
                },
                Err(error) => {
                    return Err(error);
                },
            }
        }
    }

    /// Parses an expression whose operators bind at least as tightly as
    /// `min_prec`, by precedence climbing.
    fn parse_expression(&mut self, min_prec: u8) -> (r: Result<SpannedExpression, SyntaxError>)
        requires
            old(self).wf(),
        ensures
            final(self).wf(),
            final(self).tokens() == old(self).tokens(),
            agrees(
                old(self).tokens(),
                grammar::parse_expression(old(self).tokens(), old(self).position(), min_prec as int),
                viewed(r),
                final(self).position(),
            ),
        decreases old(self).remaining(), 1int,
    {
        let ghost ts = self.tokens();
        let ghost start = self.position();
        proof {
            lemma_primary(ts, start);
        }
        let mut left = self.parse_primary()?;
        loop
            invariant
                self.wf(),
                ts == self.tokens(),
                ts == old(self).tokens(),
                start == old(self).position(),
                start < self.position(),
                grammar::parse_expression(ts, start, min_prec as int) == grammar::parse_binary_rest(
                    ts,
                    self.position(),
                    min_prec as int,
                    left@,
                ),
            decreases self.remaining(),
        {
            let operator = match self.curr().get_binary_operator() {
                Some(operator) => operator,
                None => {
                    return Ok(left);
                },
            };
            let precedence = operator.get_precedence();
            if precedence < min_prec {
                return Ok(left);
            }
            proof {
                lemma_expression(ts, self.position() + 1, precedence + 1);
            }
            self.advance();
            let right = self.parse_expression(precedence + 1)?;
            left =
            WithSpan {
                node: Expression::Binary(Box::new(BinaryExpression { left, operator, right })),
                span: self.curr_span(),
            };
        }
    }

    /// Parses a literal, a variable, a call, or an expression in
    /// parentheses.
    fn parse_primary(&mut self) -> (r: Result<SpannedExpression, SyntaxError>)
        requires
            old(self).wf(),
        ensures
            final(self).wf(),
            final(self).tokens() == old(self).tokens(),
            agrees(
                old(self).tokens(),
                grammar::parse_primary(old(self).tokens(), old(self).position()),
                viewed(r),
                final(self).position(),
            ),
        decreases old(self).remaining(), 0int,
    {
        let ghost ts = self.tokens();
        match self.curr().duplicate() {
            Token::StringLiteral(value) => {
                self.advance();
                Ok(
                    WithSpan {
                        node: Expression::Literal(
                            LiteralExpression { value: LiteralValue::String(value) },
                        ),
                        span: self.curr_span(),
                    },
                )
            },
            Token::NumericLiteral(value) => {
                self.advance();
                Ok(
                    WithSpan {
                        node: Expression::Literal(
                            LiteralExpression { value: LiteralValue::Number(value) },
                        ),
                        span: self.curr_span(),
                    },
                )
            },
            Token::BooleanLiteral(value) => {
                self.advance();
                Ok(
                    WithSpan {
                        node: Expression::Literal(
                            LiteralExpression { value: LiteralValue::Bool(value) },
                        ),
                        span: self.curr_span(),
                    },
                )
            },
            Token::Identifier(name) => {
                self.advance();
                match self.curr() {
                    Token::LeftParen => {
                        self.advance();
                        let args = self.parse_arguments()?;
                        self.expect(Token::RightParen)?;
                        Ok(
                            WithSpan {
                                node: Expression::FunctionCall(
                                    Box::new(FunctionCall { callee: name, args }),
                                ),
                                span: self.curr_span(),
                            },
                        )
                    },
                    _ => Ok(
                        WithSpan {
                            node: Expression::VariableRef(Box::new(VariableRef { name })),
                            span: self.curr_span(),
                        },
                    ),
                }
            },
            Token::LeftParen => {
                self.advance();
                let inner = self.parse_expression(0)?;
                self.expect(Token::RightParen)?;
                Ok(inner)
            },
            _ => Err(
                SyntaxError::new(
                    String::from_str("Invalid symbol for primary expression"),
                    self.curr_span(),
                ),
            ),
        }
    }

    /// Parses the arguments of a call, up to its closing parenthesis.
    fn parse_arguments(&mut self) -> (r: Result<Vec<SpannedExpression>, SyntaxError>)
        requires
            old(self).wf(),
        ensures
            final(self).wf(),
            final(self).tokens() == old(self).tokens(),
            agrees(
                old(self).tokens(),
                grammar::parse_arguments(old(self).tokens(), old(self).position()),
                viewed_arguments(r),
                final(self).position(),
            ),
        decreases old(self).remaining(), 2int,
    {
        let ghost ts = self.tokens();
        let ghost start = self.position();
        let mut args: Vec<SpannedExpression> = Vec::new();
        proof {
            lemma_exprs_view_empty(args);
        }
        match self.curr() {
            Token::RightParen => {
                return Ok(args);
            },
            _ => {},
        }
        proof {
            lemma_expression(ts, start, 0);
        }
        let ghost none = args;
        match self.parse_expression(0) {
            Ok(first) => {
                let ghost added = first;
                args.push(first);
                proof {
                    lemma_exprs_view_push(none, args, added);
                    assert(Seq::<WithSpan<ExprView>>::empty().push(added@) =~= seq![added@]);
                }
            },
            Err(error) => {
                return Err(error);
            },
        }
        loop
            invariant
                self.wf(),
                ts == self.tokens(),
                ts == old(self).tokens(),
                start == old(self).position(),
                start < self.position(),
                grammar::parse_arguments(ts, start) == grammar::parse_more_arguments(
                    ts,
                    self.position(),
                    exprs_view(args),
                ),
            decreases self.remaining(),
        {
            match self.curr() {
                Token::Comma => {},
                _ => {
                    return Ok(args);
                },
            }
            proof {
                lemma_expression(ts, self.position() + 1, 0);
            }
            self.advance();
            let ghost before = args;
            match self.parse_expression(0) {
                Ok(argument) => {
                    let ghost added = argument;
                    args.push(argument);
                    proof {
                        lemma_exprs_view_push(before, args, added);
                    }
                },
                Err(error) => {
                    return Err(error);
                },
            }
        }
    }

    /// Reads a name.
    fn parse_name(&mut self) -> (r: Result<String, SyntaxError>)
        requires
            old(self).wf(),
        ensures
            final(self).wf(),
            final(self).tokens() == old(self).tokens(),
            agrees(
                old(self).tokens(),
                grammar::parse_name(old(self).tokens(), old(self).position()),
                viewed_name(r),
                final(self).position(),
            ),
    {
        match self.curr() {
            Token::Identifier(name) => {
                let name = name.clone();
                self.advance();
                Ok(name)
            },
            other => {
                let mut message = String::from_str("expected identifier, got ");
                message.append(other.describe().as_str());
                Err(SyntaxError::new(message, self.curr_span()))
            },
        }
    }

    /// Reads a type name. `missing` is the complaint made if no name
    /// stands there; the token found is added to it.
    fn parse_type(&mut self, missing: &str) -> (r: Result<Type, SyntaxError>)
        requires
            old(self).wf(),
        ensures
            final(self).wf(),
            final(self).tokens() == old(self).tokens(),
            agrees(
                old(self).tokens(),
                grammar::parse_type(
                    old(self).tokens(),
                    old(self).position(),
                    missing@ + token_at(old(self).tokens(), old(self).position()).describe(),
                ),
                viewed_type(r),
                final(self).position(),
            ),
    {
        match self.curr() {
            Token::Identifier(name) => match Type::from_name(name) {
                Ok(type_) => {
                    self.advance();
                    Ok(type_)
                },
                Err(message) => Err(SyntaxError::new(message, self.curr_span())),
            },
            other => {
                let mut message = String::from_str(missing);
                message.append(other.describe().as_str());
                Err(SyntaxError::new(message, self.curr_span()))
            },
        }
    }

    fn parse_variable_assignemnt(&mut self) -> (r: Result<SpannedStatement, SyntaxError>)
        requires
            old(self).wf(),
        ensures
            final(self).wf(),
            final(self).tokens() == old(self).tokens(),
            agrees(
                old(self).tokens(),
                grammar::parse_variable_assignment(old(self).tokens(), old(self).position()),
                viewed(r),
                final(self).position(),
            ),
        decreases old(self).remaining(), 0int,
    {
        let name = self.parse_name()?;
        self.expect(Token::Assign)?;
        let value = self.parse_expression(0)?;
        self.expect(Token::Semicolon)?;
        Ok(
            WithSpan {
                node: Statement::VarAssignment(VariableAssignment { name, value }),
                span: self.curr_span(),
            },
        )
    }

    fn parse_variable_declaration(&mut self) -> (r: Result<SpannedStatement, SyntaxError>)
        requires
            old(self).wf(),
        ensures
            final(self).wf(),
            final(self).tokens() == old(self).tokens(),
            agrees(
                old(self).tokens(),
                grammar::parse_variable_declaration(old(self).tokens(), old(self).position()),
                viewed(r),
                final(self).position(),
            ),
        decreases old(self).remaining(), 0int,
    {
        let name = self.parse_name()?;
        self.expect(Token::Colon)?;
        let type_ = self.parse_type("expected type identifier, got ")?;
        self.expect(Token::Assign)?;
        let value = self.parse_expression(0)?;
        self.expect(Token::Semicolon)?;
        Ok(
            WithSpan {
                node: Statement::VarDecl(VariableDecl { name, value, type_ }),
                span: self.curr_span(),
            },
        )
    }

    /// Reads a condition in parentheses and the opening brace after it.
    fn parse_condition(&mut self) -> (r: Result<SpannedExpression, SyntaxError>)
        requires
            old(self).wf(),
        ensures
            final(self).wf(),
            final(self).tokens() == old(self).tokens(),
            agrees(
                old(self).tokens(),
                grammar::parse_condition(old(self).tokens(), old(self).position()),
                viewed(r),
                final(self).position(),
            ),
        decreases old(self).remaining(), 0int,
    {
        self.expect(Token::LeftParen)?;
        let condition = self.parse_expression(0)?;
        self.expect(Token::RightParen)?;
        self.expect(Token::LeftBrace)?;
        Ok(condition)
    }

    /// Parses what follows the first block of a conditional.
    fn parse_else(&mut self) -> (r: Result<Option<Box<SpannedStatement>>, SyntaxError>)
        requires
            old(self).wf(),
        ensures
            final(self).wf(),
            final(self).tokens() == old(self).tokens(),
            agrees(
                old(self).tokens(),
                grammar::parse_else(old(self).tokens(), old(self).position()),
                viewed_else(r),
                final(self).position(),
            ),
        decreases old(self).remaining(), 0int,
    {
        if !self.at_word("else") {
            return Ok(None);
        }
        self.advance();
        if self.at_word("if") {
            self.advance();
            let next_if = self.parse_if()?;
            Ok(Some(Box::new(WithSpan { node: Statement::If(next_if), span: self.curr_span() })))
        } else {
            self.expect(Token::LeftBrace)?;
            let condition = WithSpan {
                node: Expression::Literal(LiteralExpression { value: LiteralValue::Bool(true) }),
                span: self.curr_span(),
            };
            let then_body = self.parse_body()?;
            Ok(
                Some(
                    Box::new(
                        WithSpan {
                            node: Statement::If(
                                IfStatement { condition, then_body, else_body: None },
                            ),
                            span: self.curr_span(),
                        },
                    ),
                ),
            )
        }
    }

    /// Parses a conditional after the word `if`, with the chain of `else`
    /// parts that follows it.
    fn parse_if(&mut self) -> (r: Result<IfStatement, SyntaxError>)
        requires
            old(self).wf(),
        ensures
            final(self).wf(),
            final(self).tokens() == old(self).tokens(),
            agrees(
                old(self).tokens(),
                grammar::parse_if(old(self).tokens(), old(self).position()),
                viewed(r),
                final(self).position(),
            ),
        decreases old(self).remaining(), 1int,
    {
        let ghost ts = self.tokens();
        proof {
            lemma_condition(ts, self.position());
        }
        let condition = self.parse_condition()?;
        proof {
            lemma_body(ts, self.position());
        }
        let then_body = self.parse_body()?;
        let else_body = self.parse_else()?;
        Ok(IfStatement { condition, then_body, else_body })
    }

    fn parse_loop(&mut self) -> (r: Result<SpannedStatement, SyntaxError>)
        requires
            old(self).wf(),
        ensures
            final(self).wf(),
            final(self).tokens() == old(self).tokens(),
            agrees(
                old(self).tokens(),
                grammar::parse_loop(old(self).tokens(), old(self).position()),
                viewed(r),
                final(self).position(),
            ),
        decreases old(self).remaining(), 1int,
    {
        let ghost ts = self.tokens();
        proof {
            lemma_condition(ts, self.position());
        }
        let condition = self.parse_condition()?;
        let body = self.parse_body()?;
        Ok(
            WithSpan {
                node: Statement::Loop(LoopStatement { condition, body }),
                span: self.curr_span(),
            },
        )
    }

    /// Parses the parameters of a function, up to the closing parenthesis.
    fn parse_parameters(&mut self) -> (r: Result<Vec<Parameter>, SyntaxError>)
        requires
            old(self).wf(),
        ensures
            final(self).wf(),
            final(self).tokens() == old(self).tokens(),
            agrees(
                old(self).tokens(),
                grammar::parse_parameters(old(self).tokens(), old(self).position()),
                viewed_parameters(r),
                final(self).position(),
            ),
    {
        let ghost ts = self.tokens();
        let ghost start = self.position();
        let mut params: Vec<Parameter> = Vec::new();
        assert(params_view(params@) =~= Seq::empty());
        match self.curr() {
            Token::RightParen => {
                return Ok(params);
            },
            _ => {},
        }
        match self.parse_parameter() {
            Ok(first) => {
                params.push(first);
                assert(params_view(params@) =~= seq![first@]);
            },
            Err(error) => {
                return Err(error);
            },
        }
        loop
            invariant
                self.wf(),
                ts == self.tokens(),
                ts == old(self).tokens(),
                start == old(self).position(),
                grammar::parse_parameters(ts, start) == grammar::parse_more_parameters(
                    ts,
                    self.position(),
                    params_view(params@),
                ),
            decreases self.remaining(),
        {
            match self.curr() {
                Token::Comma => {},
                _ => {
                    return Ok(params);
                },
            }
            self.advance();
            let ghost before = params_view(params@);
            match self.parse_parameter() {
                Ok(parameter) => {
                    params.push(parameter);
                    assert(params_view(params@) =~= before.push(parameter@));
                },
                Err(error) => {
                    return Err(error);
                },
            }
        }
    }

    /// Reads the head of a function declaration, through the opening brace
    /// of its body.
    fn parse_signature(&mut self) -> (r: Result<(String, Vec<Parameter>, Type), SyntaxError>)
        requires
            old(self).wf(),
        ensures
            final(self).wf(),
            final(self).tokens() == old(self).tokens(),
            agrees(
                old(self).tokens(),
                grammar::parse_signature(old(self).tokens(), old(self).position()),
                viewed_signature(r),
                final(self).position(),
            ),
    {
        let name = self.parse_name()?;
        self.expect(Token::LeftParen)?;
        let params = self.parse_parameters()?;
        self.expect(Token::RightParen)?;
        self.expect(Token::Colon)?;
        let type_ = self.parse_type("expected return type identifier, got ")?;
        self.expect(Token::LeftBrace)?;
        Ok((name, params, type_))
    }

    fn parse_function(&mut self) -> (r: Result<SpannedStatement, SyntaxError>)
        requires
            old(self).wf(),
        ensures
            final(self).wf(),
            final(self).tokens() == old(self).tokens(),
            agrees(
                old(self).tokens(),
                grammar::parse_function(old(self).tokens(), old(self).position()),
                viewed(r),
                final(self).position(),
            ),
        decreases old(self).remaining(), 0int,
    {
        let ghost ts = self.tokens();
        proof {
            lemma_signature(ts, self.position());
        }
        let (name, params, type_) = self.parse_signature()?;
        let body = self.parse_body()?;
        Ok(
            WithSpan {
                node: Statement::Function(FunctionDecl { name, params, type_, body }),
                span: self.curr_span(),
            },
        )
    }

    fn parse_function_call(&mut self) -> (r: Result<SpannedStatement, SyntaxError>)
        requires
            old(self).wf(),
        ensures
            final(self).wf(),
            final(self).tokens() == old(self).tokens(),
            agrees(
                old(self).tokens(),
                grammar::parse_function_call(old(self).tokens(), old(self).position()),
                viewed(r),
                final(self).position(),
            ),
        decreases old(self).remaining(), 0int,
    {
        let callee = self.parse_name()?;
        self.expect(Token::LeftParen)?;
        let args = self.parse_arguments()?;
        self.expect(Token::RightParen)?;
        self.expect(Token::Semicolon)?;
        Ok(
            WithSpan {
                node: Statement::Expr(
                    Expression::FunctionCall(Box::new(FunctionCall { callee, args })),
                ),
                span: self.curr_span(),
            },
        )
    }

    fn parse_return(&mut self) -> (r: Result<SpannedStatement, SyntaxError>)
        requires
            old(self).wf(),
        ensures
            final(self).wf(),
            final(self).tokens() == old(self).tokens(),
            agrees(
                old(self).tokens(),
                grammar::parse_return(old(self).tokens(), old(self).position()),
                viewed(r),
                final(self).position(),
            ),
        decreases old(self).remaining(), 0int,
    {
        match self.curr() {
            Token::Semicolon => {
                self.advance();
                return Ok(
                    WithSpan {
                        node: Statement::Return(ReturnStatement { value: None }),
                        span: self.curr_span(),
                    },
                );
            },
            _ => {},
        }
        let value = self.parse_expression(0)?;
        self.expect(Token::Semicolon)?;
        Ok(
            WithSpan {
                node: Statement::Return(ReturnStatement { value: Some(value) }),
                span: self.curr_span(),
            },
        )
    }

    /// Reads a parameter: a name, a colon, a type.
    fn parse_parameter(&mut self) -> (r: Result<Parameter, SyntaxError>)
        requires
            old(self).wf(),
        ensures
            final(self).wf(),
            final(self).tokens() == old(self).tokens(),
            agrees(
                old(self).tokens(),
                grammar::parse_parameter(old(self).tokens(), old(self).position()),
                viewed(r),
                final(self).position(),
            ),
    {
        let name = self.parse_name()?;
        self.expect(Token::Colon)?;
        let type_ = self.parse_type("expected type identifier, got ")?;
        Ok(Parameter { name, type_ })
    }

    /// Parses one statement.
    fn parse_statement(&mut self) -> (r: Result<SpannedStatement, SyntaxError>)
        requires
            old(self).wf(),
        ensures
            final(self).wf(),
            final(self).tokens() == old(self).tokens(),
            agrees(
                old(self).tokens(),
                grammar::parse_statement(old(self).tokens(), old(self).position()),
                viewed(r),
                final(self).position(),
            ),
        decreases old(self).remaining(), 2int,
    {
        let name = match self.curr() {
            Token::Identifier(name) => name.clone(),
            other => {
                let mut message = String::from_str(
                    "expected identifier as first token in statement, got ",
                );
                message.append(other.describe().as_str());
                return Err(SyntaxError::new(message, self.curr_span()));
            },
        };
        if text_is(&name, "var") {
            self.advance();
            self.parse_variable_declaration()
        } else if text_is(&name, "if") {
            self.advance();
            match self.parse_if() {
                Ok(conditional) => Ok(
                    WithSpan { node: Statement::If(conditional), span: self.curr_span() },
                ),
                Err(error) => Err(error),
            }
        } else if text_is(&name, "return") {
            self.advance();
            self.parse_return()
        } else if text_is(&name, "while") {
            self.advance();
            self.parse_loop()
        } else if text_is(&name, "func") {
            self.advance();
            self.parse_function()
        } else {
            match self.peek() {
                Token::LeftParen => self.parse_function_call(),
                Token::Assign => self.parse_variable_assignemnt(),
                _ => {
                    let mut message = String::from_str(
                        "Expected assignment or function call after identifier, got ",
                    );
                    message.append(self.curr().describe().as_str());
                    Err(SyntaxError::new(message, self.curr_span()))
                },
            }
        }
    }

    /// Requires the next token to be `expected`, and reads it.
    fn expect(&mut self, expected: Token) -> (r: Result<(), SyntaxError>)
        requires
            old(self).wf(),
            expected != Token::EOF,
        ensures
            final(self).wf(),
            final(self).tokens() == old(self).tokens(),
            match grammar::expect(old(self).tokens(), old(self).position(), expected@) {
                Ok(next) => r is Ok && final(self).position() == next,
                Err(failure) => r is Err && r->Err_0@ == diagnostic(old(self).tokens(), failure)
                    && final(self).position() == failure.at,
            },
    {
        let token = self.curr();
        if !token.same_as(&expected) {
            let mut message = String::from_str("Expected ");
            message.append(expected.describe().as_str());
            message.append(", got ");
            message.append(token.describe().as_str());
            return Err(SyntaxError { message, span: self.curr_span() });
        }
        self.advance();
        Ok(())
    }

    /// Whether the next token is the given word.
    fn at_word(&self, word: &str) -> (r: bool)
        requires
            self.wf(),
        ensures
            r == grammar::word_at(self.tokens(), self.position(), word@),
    {
        match self.curr() {
            Token::Identifier(name) => text_is(name, word),
            _ => false,
        }
    }

    /// The next token; past the end of the tokens, the end marker.
    fn curr(&self) -> (r: &Token)
        requires
            self.wf(),
        ensures
            r@ == token_at(self.tokens(), self.position()),
            r@ != TokenView::EOF ==> self.position() < self.tokens().len(),
    {
        if self.position < self.tokens.len() {
            &self.tokens[self.position].node
        } else {
            &self.end_marker
        }
    }

    /// The position of the next token; past the end of the tokens, that of
    /// the last token.
    fn curr_span(&self) -> (r: Span)
        requires
            self.wf(),
        ensures
            r == span_at(self.tokens(), self.position()),
    {
        if self.position < self.tokens.len() {
            self.tokens[self.position].span
        } else if self.tokens.len() > 0 {
            self.tokens[self.tokens.len() - 1].span
        } else {
            Span { line: 1, column: 1 }
        }
    }

    /// The token after the next one.
    fn peek(&self) -> (r: &Token)
        requires
            self.wf(),
        ensures
            r@ == token_at(self.tokens(), self.position() + 1),
    {
        if self.position < self.tokens.len() && self.position + 1 < self.tokens.len() {
            &self.tokens[self.position + 1].node
        } else {
            &self.end_marker
        }
    }

    /// Steps over the next token.
    fn advance(&mut self)
        requires
            old(self).wf(),
            old(self).position() < old(self).tokens().len(),
        ensures
            final(self).wf(),
            final(self).tokens() == old(self).tokens(),
            final(self).position() == old(self).position() + 1,
    {
        self.position += 1;
    }
}

} // verus!
