//! The semantic analyzer: scoping and type rules over the syntax tree.
pub mod laws;
pub mod rules;

use crate::analyzer::rules::{
    Scopes, SignatureView, SymbolView, args_check, bind_params, check_body, check_body_from,
    check_guarded, check_if, check_program, check_statement, expr_type,
};
use crate::common::ast::{
    Diagnostic, Expression, IfStatement, Parameter, Program, Span, SpannedExpression,
    SpannedStatement, Statement, Type, WithSpan, exprs_view, lemma_exprs_view_index,
    lemma_exprs_view_len, lemma_stmts_view_index, params_view, report, report_text, stmts_view,
};
use crate::common::scope::ScopeTable;
use crate::common::text::push_decimal_nat;
use vstd::prelude::*;

verus! {

/// A violation of the language's rules: the message and the position of
/// the offending statement or expression.
#[derive(Debug, PartialEq)]
pub struct SemanticError {
    pub message: String,
    pub span: Span,
}

impl View for SemanticError {
    type V = Diagnostic;

    open spec fn view(&self) -> Diagnostic {
        Diagnostic { message: self.message@, span: self.span }
    }
}

impl SemanticError {
    /// An error with the given message about the given position.
    pub fn new(message: String, span: Span) -> (r: Self)
        ensures
            r.message == message,
            r.span == span,
    {
        Self { message, span }
    }

    /// The error as it is shown to a user.
    pub fn to_text(&self) -> (r: String)
        ensures
            r@ == report("SemanticError"@, self@),
    {
        report_text("SemanticError", &self.message, self.span)
    }
}

/// How a symbol can be called.
#[derive(Clone, Copy)]
enum Signature<'a> {
    Variable,
    Output,
    Function(&'a Vec<Parameter>),
}

/// A name's meaning.
#[derive(Clone, Copy)]
struct Symbol<'a> {
    type_: Type,
    signature: Signature<'a>,
}

impl<'a> View for Symbol<'a> {
    type V = SymbolView;

    closed spec fn view(&self) -> SymbolView {
        SymbolView {
            type_: self.type_,
            signature: match self.signature {
                Signature::Variable => SignatureView::Variable,
                Signature::Output => SignatureView::Output,
                Signature::Function(params) => SignatureView::Function(params_view(params@)),
            },
        }
    }
}

/// The stack of symbol tables, one for each open scope.
type SymbolTable<'a> = ScopeTable<Symbol<'a>>;

/// What a step of the analysis gave, as the rules state it.
pub open spec fn viewed(r: Result<bool, SemanticError>) -> Result<bool, Diagnostic> {
    match r {
        Ok(returned) => Ok(returned),
        Err(error) => Err(error@),
    }
}

/// What the typing of an expression gave, as the rules state it.
pub open spec fn viewed_type(r: Result<Type, SemanticError>) -> Result<Type, Diagnostic> {
    match r {
        Ok(type_) => Ok(type_),
        Err(error) => Err(error@),
    }
}

/// An analyzer for one program.
pub struct Analyzer<'a> {
    symbol_table: SymbolTable<'a>,
    program_ast: &'a Program,
}

fn type_pair_message(head: &str, expected: Type, middle: &str, got: Type) -> (r: String)
    ensures
        r@ == head@ + expected.name() + middle@ + got.name(),
{
    let mut message = String::from_str(head);
    message.append(expected.get_name());
    message.append(middle);
    message.append(got.get_name());
    message
}

fn prefixed(head: &str, name: &String) -> (r: String)
    ensures
        r@ == head@ + name@,
{
    let mut message = String::from_str(head);
    message.append(name.as_str());
    message
}

fn name_message(head: &str, name: &String, tail: &str) -> (r: String)
    ensures
        r@ == head@ + name@ + tail@,
{
    let mut message = String::from_str(head);
    message.append(name.as_str());
    message.append(tail);
    message
}

fn arity_error(name: &String, expected: usize, got: usize, span: Span) -> (r: SemanticError)
    ensures
        r@ == (Diagnostic {
            message: rules::arity_message(name@, expected as nat, got as nat),
            span,
        }),
{
    let mut message = String::from_str("function ");
    message.append(name.as_str());
    message.append(" expects ");
    push_decimal_nat(&mut message, expected as u64);
    message.append(" arguments, got ");
    push_decimal_nat(&mut message, got as u64);
    SemanticError::new(message, span)
}

impl<'a> Analyzer<'a> {
    /// The stack of scopes as the analysis has left it.
    pub closed spec fn scopes(&self) -> Scopes {
        self.symbol_table@
    }

    /// The program that the analyzer was made for.
    pub closed spec fn program(&self) -> Program {
        *self.program_ast
    }

    /// The analyzer's invariant: the global scope is open.
    pub open spec fn wf(&self) -> bool {
        self.scopes().len() > 0
    }

    /// An analyzer for the program, with the global scope open and nothing
    /// declared.
    pub fn new(program_ast: &'a Program) -> (r: Self)
        ensures
            r.wf(),
            r.scopes() == seq![Map::<Seq<char>, SymbolView>::empty()],
            r.program() == *program_ast,
    {
        let mut symbol_table = SymbolTable::new();
        symbol_table.enter_scope();
        assert(symbol_table@ =~= seq![Map::<Seq<char>, SymbolView>::empty()]);
        Self { symbol_table, program_ast }
    }

    /// Analyzes the program: `Ok` if it keeps every rule, else the first
    /// violation in source order.
    pub fn analyze(&mut self) -> (r: Result<(), SemanticError>)
        requires
            old(self).wf(),
        ensures
            final(self).program() == old(self).program(),
            final(self).scopes() == check_program(old(self).scopes(), old(self).program()@).scopes,
            match check_program(old(self).scopes(), old(self).program()@).result {
                Ok(_) => r is Ok && final(self).wf(),
                Err(violation) => r is Err && r->Err_0@ == violation,
            },
    {
        self.symbol_table.add(
            String::from_str("print"),
            Symbol { type_: Type::Void, signature: Signature::Output },
        );
        self.symbol_table.add(
            String::from_str("println"),
            Symbol { type_: Type::Void, signature: Signature::Output },
        );
        let program: &'a Program = self.program_ast;
        match self.analyze_body(&program.body) {
            Ok(_) => Ok(()),
            Err(error) => Err(error),
        }
    }

    /// Analyzes a block of statements in the current scope. The result
    /// says whether a `return` stands among the statements.
    pub fn analyze_body(&mut self, body: &'a Vec<SpannedStatement>) -> (r: Result<
        bool,
        SemanticError,
    >)
        requires
            old(self).wf(),
        ensures
            final(self).program() == old(self).program(),
            final(self).scopes() == check_body(old(self).scopes(), stmts_view(*body)).scopes,
            viewed(r) == check_body(old(self).scopes(), stmts_view(*body)).result,
            r is Ok ==> final(self).scopes().len() == old(self).scopes().len(),
        decreases body, 1int,
    {
        let ghost view = stmts_view(*body);
        let mut returned = false;
        let mut i: usize = 0;
        while i < body.len()
            invariant
                0 <= i <= body.len(),
                view == stmts_view(*body),
                view.len() == body@.len(),
                self.wf(),
                self.program() == old(self).program(),
                self.scopes().len() == old(self).scopes().len(),
                check_body(old(self).scopes(), view) == check_body_from(
                    self.scopes(),
                    view,
                    i as int,
                    returned,
                ),
            decreases body.len() - i,
        {
            proof {
                lemma_stmts_view_index(*body, i as int);
            }
            match self.analyze_statement(&body[i]) {
                Ok(was_return) => {
                    if was_return {
                        returned = true;
                    }
                },
                Err(error) => {
                    return Err(error);
                },
            }
            i = i + 1;
        }
        Ok(returned)
    }

    /// Analyzes a condition and the block that it governs.
    fn analyze_guarded(
        &mut self,
        condition: &SpannedExpression,
        body: &'a Vec<SpannedStatement>,
        in_loop: bool,
    ) -> (r: Result<bool, SemanticError>)
        requires
            old(self).wf(),
        ensures
            final(self).program() == old(self).program(),
            ({
                let spec = check_guarded(
                    old(self).scopes(),
                    condition@,
                    stmts_view(*body),
                    if in_loop {
                        |t: Type| rules::loop_condition_message(t)
                    } else {
                        |t: Type| rules::if_condition_message(t)
                    },
                );
                final(self).scopes() == spec.scopes && viewed(r) == spec.result
            }),
            r is Ok ==> final(self).scopes().len() == old(self).scopes().len(),
        decreases body, 2int,
    {
        self.symbol_table.enter_scope();
        let condition_type = self.analyze_expression(condition)?;
        if condition_type != Type::Bool {
            let mut message = if in_loop {
                String::from_str("loop condition must resolve to bool, got ")
            } else {
                String::from_str("if statement condition must resolve to bool, got ")
            };
            message.append(condition_type.get_name());
            return Err(SemanticError::new(message, condition.span));
        }
        self.analyze_body(body)?;
        self.symbol_table.exit_scope();
        Ok(false)
    }

    /// Analyzes a conditional and the chain of `else` parts after it.
    fn analyze_if(&mut self, conditional: &'a IfStatement) -> (r: Result<bool, SemanticError>)
        requires
            old(self).wf(),
        ensures
            final(self).program() == old(self).program(),
            final(self).scopes() == check_if(old(self).scopes(), conditional@).scopes,
            viewed(r) == check_if(old(self).scopes(), conditional@).result,
            r is Ok ==> final(self).scopes().len() == old(self).scopes().len(),
        decreases conditional, 0int,
    {
        self.analyze_guarded(&conditional.condition, &conditional.then_body, false)?;
        match &conditional.else_body {
            None => Ok(false),
            Some(next) => {
                self.symbol_table.enter_scope();
                self.analyze_statement(next)?;
                self.symbol_table.exit_scope();
                Ok(false)
            },
        }
    }

    /// Analyzes one statement. The result says whether it is a `return`.
    fn analyze_statement(&mut self, statement: &'a SpannedStatement) -> (r: Result<
        bool,
        SemanticError,
    >)
        requires
            old(self).wf(),
        ensures
            final(self).program() == old(self).program(),
            final(self).scopes() == check_statement(old(self).scopes(), statement@).scopes,
            viewed(r) == check_statement(old(self).scopes(), statement@).result,
            r is Ok ==> final(self).scopes().len() == old(self).scopes().len(),
        decreases statement, 0int,
    {
        match &statement.node {
            Statement::VarDecl(declaration) => {
                if self.symbol_table.declares(&declaration.name) {
                    return Err(
                        SemanticError::new(
                            prefixed("duplicate declaration of ", &declaration.name),
                            statement.span,
                        ),
                    );
                }
                self.symbol_table.add(
                    declaration.name.clone(),
                    Symbol { type_: declaration.type_, signature: Signature::Variable },
                );
                let value_type = self.analyze_expression(&declaration.value)?;
                if value_type != declaration.type_ {
                    let mut message = name_message(
                        "variable ",
                        &declaration.name,
                        " declared with type ",
                    );
                    message.append(declaration.type_.get_name());
                    message.append(" but assigned with type ");
                    message.append(value_type.get_name());
                    return Err(SemanticError::new(message, statement.span));
                }
                Ok(false)
            },
            Statement::VarAssignment(assignment) => {
                let value_type = self.analyze_expression(&assignment.value)?;
                let Some(symbol) = self.symbol_table.lookup(&assignment.name) else {
                    return Err(
                        SemanticError::new(
                            prefixed("use of undeclared identifier ", &assignment.name),
                            statement.span,
                        ),
                    );
                };
                if symbol.type_ != value_type {
                    return Err(
                        SemanticError::new(
                            type_pair_message(
                                "Type mismatch: expected ",
                                symbol.type_,
                                ", got ",
                                value_type,
                            ),
                            statement.span,
                        ),
                    );
                }
                Ok(false)
            },
            Statement::If(conditional) => self.analyze_if(conditional),
            Statement::Loop(repeated) => self.analyze_guarded(
                &repeated.condition,
                &repeated.body,
                true,
            ),
            Statement::Function(function) => {
                self.symbol_table.add(
                    function.name.clone(),
                    Symbol { type_: function.type_, signature: Signature::Function(&function.params) },
                );
                self.symbol_table.enter_scope();
                let ghost entered = self.scopes();
                let mut i: usize = 0;
                while i < function.params.len()
                    invariant
                        0 <= i <= function.params.len(),
                        self.wf(),
                        self.program() == old(self).program(),
                        self.scopes().len() == old(self).scopes().len() + 1,
                        bind_params(entered, params_view(function.params@), 0) == bind_params(
                            self.scopes(),
                            params_view(function.params@),
                            i as int,
                        ),
                    decreases function.params.len() - i,
                {
                    self.symbol_table.add(
                        function.params[i].name.clone(),
                        Symbol { type_: function.params[i].type_, signature: Signature::Variable },
                    );
                    i = i + 1;
                }
                self.symbol_table.add(
                    String::from_str("return"),
                    Symbol { type_: function.type_, signature: Signature::Variable },
                );
                let returned = self.analyze_body(&function.body)?;
                if function.type_ != Type::Void && !returned {
                    return Err(
                        SemanticError::new(
                            name_message("function ", &function.name, " must return a value"),
                            statement.span,
                        ),
                    );
                }
                self.symbol_table.exit_scope();
                Ok(false)
            },
            Statement::Return(returning) => {
                let return_name = String::from_str("return");
                let Some(expected) = self.symbol_table.lookup(&return_name) else {
                    return Err(
                        SemanticError::new(
                            String::from_str("return statement outside of function"),
                            statement.span,
                        ),
                    );
                };
                let value_type = match &returning.value {
                    Some(value) => match self.analyze_expression(value) {
                        Ok(value_type) => value_type,
                        Err(error) => {
                            return Err(error);
                        },
                    },
                    None => Type::Void,
                };
                if value_type != expected.type_ {
                    return Err(
                        SemanticError::new(
                            type_pair_message(
                                "return type mismatch: expected ",
                                expected.type_,
                                ", got ",
                                value_type,
                            ),
                            statement.span,
                        ),
                    );
                }
                Ok(true)
            },
            Statement::Expr(expression) => {
                match self.analyze_node(expression, statement.span) {
                    Ok(_) => Ok(false),
                    Err(error) => Err(error),
                }
            },
        }
    }

    /// The type of an expression, or the first violation in it.
    fn analyze_expression(&self, expression: &SpannedExpression) -> (r: Result<
        Type,
        SemanticError,
    >)
        requires
            self.wf(),
        ensures
            viewed_type(r) == expr_type(self.scopes(), expression@),
        decreases expression, 1int,
    {
        self.analyze_node(&expression.node, expression.span)
    }

    /// The type of an expression that stands at `span`.
    fn analyze_node(&self, expression: &Expression, span: Span) -> (r: Result<Type, SemanticError>)
        requires
            self.wf(),
        ensures
            viewed_type(r) == expr_type(self.scopes(), WithSpan { node: expression@, span }),
        decreases expression, 0int,
    {
        match expression {
            Expression::Literal(literal) => Ok(literal.value.get_type()),
            Expression::VariableRef(reference) => {
                match self.symbol_table.lookup(&reference.name) {
                    Some(symbol) => Ok(symbol.type_),
                    None => Err(
                        SemanticError::new(
                            prefixed("use of undefined variable ", &reference.name),
                            span,
                        ),
                    ),
                }
            },
            Expression::FunctionCall(call) => {
                let Some(symbol) = self.symbol_table.lookup(&call.callee) else {
                    return Err(
                        SemanticError::new(
                            prefixed("use of undefined function ", &call.callee),
                            span,
                        ),
                    );
                };
                let ghost goal = expr_type(self.scopes(), WithSpan { node: expression@, span });
                proof {
                    lemma_exprs_view_len(call.args);
                    if call.args@.len() > 0 {
                        lemma_exprs_view_index(call.args, 0);
                    }
                }
                match symbol.signature {
                    Signature::Variable => Err(
                        SemanticError::new(
                            {
                                let mut message = call.callee.clone();
                                message.append(" is not a function");
                                message
                            },
                            span,
                        ),
                    ),
                    Signature::Output => {
                        if call.args.len() != 1 {
                            return Err(arity_error(&call.callee, 1, call.args.len(), span));
                        }
                        match self.analyze_expression(&call.args[0]) {
                            Ok(_) => Ok(symbol.type_),
                            Err(error) => Err(error),
                        }
                    },
                    Signature::Function(params) => {
                        if call.args.len() != params.len() {
                            return Err(
                                arity_error(&call.callee, params.len(), call.args.len(), span),
                            );
                        }
                        let ghost args = exprs_view(call.args);
                        let mut i: usize = 0;
                        while i < params.len()
                            invariant
                                0 <= i <= params.len(),
                                params.len() == call.args.len(),
                                self.wf(),
                                args == exprs_view(call.args),
                                args.len() == call.args@.len(),
                                *expression == Expression::FunctionCall(*call),
                                goal == expr_type(
                                    self.scopes(),
                                    WithSpan { node: expression@, span },
                                ),
                                goal == match args_check(
                                    self.scopes(),
                                    args,
                                    params_view(params@),
                                    i as int,
                                    span,
                                ) {
                                    Ok(()) => Ok::<Type, Diagnostic>(symbol.type_),
                                    Err(violation) => Err(violation),
                                },
                            decreases params.len() - i,
                        {
                            proof {
                                lemma_exprs_view_index(call.args, i as int);
                            }
                            let argument_type = self.analyze_expression(&call.args[i])?;
                            if argument_type != params[i].type_ {
                                return Err(
                                    SemanticError::new(
                                        type_pair_message(
                                            "type mismatch: expected ",
                                            params[i].type_,
                                            ", got ",
                                            argument_type,
                                        ),
                                        span,
                                    ),
                                );
                            }
                            i = i + 1;
                        }
                        Ok(symbol.type_)
                    },
                }
            },
            Expression::Binary(binary) => {
                let left_type = self.analyze_expression(&binary.left)?;
                let right_type = self.analyze_expression(&binary.right)?;
                if left_type != right_type {
                    return Err(
                        SemanticError::new(
                            type_pair_message(
                                "type mismatch: expected ",
                                left_type,
                                ", got ",
                                right_type,
                            ),
                            span,
                        ),
                    );
                }
                if binary.operator.get_precedence() == 1 {
                    Ok(Type::Bool)
                } else {
                    Ok(left_type)
                }
            },
        }
    }
}

} // verus!
