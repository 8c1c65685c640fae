//! The rules of well-formedness: what the analyzer accepts, and the first
//! complaint that it makes, as functions of the syntax tree.
//!
//! The analysis walks the tree once, top to bottom, with a stack of symbol
//! tables. It stops at the first violation; the stack is then left as it
//! stood at that moment.
use crate::common::ast::{Diagnostic, ExprView, IfView, ParamView, Span, StmtView, Type, WithSpan};
use crate::common::scope::{declare, declared_here, enter, exit, lookup};
use crate::common::text::decimal;
use vstd::prelude::*;

verus! {

/// How a symbol can be called.
pub enum SignatureView {
    /// A variable: it cannot be called.
    Variable,
    /// An output operation: it takes one argument of any type.
    Output,
    /// A declared function: it takes arguments of its parameters' types.
    Function(Seq<ParamView>),
}

/// A name's meaning: its type, and for something callable its parameters.
pub struct SymbolView {
    pub type_: Type,
    pub signature: SignatureView,
}

/// The stack of scopes, the innermost last.
pub type Scopes = crate::common::scope::Scopes<SymbolView>;

/// The state after a statement has been analyzed, and what the analysis
/// found: whether the statement was a `return`, or the first violation.
pub struct Analysis {
    pub scopes: Scopes,
    pub result: Result<bool, Diagnostic>,
}

/// The meaning of a variable of the given type.
pub open spec fn variable(type_: Type) -> SymbolView {
    SymbolView { type_, signature: SignatureView::Variable }
}

/// The meaning of an output operation.
pub open spec fn output_operation() -> SymbolView {
    SymbolView { type_: Type::Void, signature: SignatureView::Output }
}

/// The meaning of a function of the given type and parameters.
pub open spec fn function(type_: Type, params: Seq<ParamView>) -> SymbolView {
    SymbolView { type_, signature: SignatureView::Function(params) }
}

/// The name under which a function's return type is bound in its body.
pub open spec fn return_name() -> Seq<char> {
    "return"@
}

/// The global scope with the output operations `print` and `println`.
pub open spec fn with_built_ins(scopes: Scopes) -> Scopes {
    declare(declare(scopes, "print"@, output_operation()), "println"@, output_operation())
}

/// The complaint about a variable that is not declared.
pub open spec fn undefined_variable_message(name: Seq<char>) -> Seq<char> {
    "use of undefined variable "@ + name
}

/// The complaint about a callee that is not declared.
pub open spec fn undefined_function_message(name: Seq<char>) -> Seq<char> {
    "use of undefined function "@ + name
}

/// The complaint about a callee that is a variable.
pub open spec fn not_a_function_message(name: Seq<char>) -> Seq<char> {
    name + " is not a function"@
}

/// The complaint about a call with the wrong number of arguments.
pub open spec fn arity_message(name: Seq<char>, expected: nat, got: nat) -> Seq<char> {
    "function "@ + name + " expects "@ + decimal(expected as int) + " arguments, got "@ + decimal(
        got as int,
    )
}

/// The complaint about an operand or argument of the wrong type.
pub open spec fn mismatch_message(expected: Type, got: Type) -> Seq<char> {
    "type mismatch: expected "@ + expected.name() + ", got "@ + got.name()
}

/// The complaint about an assigned value of the wrong type.
pub open spec fn assignment_mismatch_message(expected: Type, got: Type) -> Seq<char> {
    "Type mismatch: expected "@ + expected.name() + ", got "@ + got.name()
}

/// The complaint about a name declared twice in one scope.
pub open spec fn duplicate_message(name: Seq<char>) -> Seq<char> {
    "duplicate declaration of "@ + name
}

/// The complaint about an initializer of the wrong type.
pub open spec fn declaration_mismatch_message(name: Seq<char>, declared: Type, got: Type) -> Seq<
    char,
> {
    "variable "@ + name + " declared with type "@ + declared.name() + " but assigned with type "@
        + got.name()
}

/// The complaint about an assignment to a name that is not declared.
pub open spec fn undeclared_message(name: Seq<char>) -> Seq<char> {
    "use of undeclared identifier "@ + name
}

/// The complaint about the condition of an `if` that is no `bool`.
pub open spec fn if_condition_message(got: Type) -> Seq<char> {
    "if statement condition must resolve to bool, got "@ + got.name()
}

/// The complaint about the condition of a loop that is no `bool`.
pub open spec fn loop_condition_message(got: Type) -> Seq<char> {
    "loop condition must resolve to bool, got "@ + got.name()
}

/// The complaint about a function that must return a value and does not.
pub open spec fn missing_return_message(name: Seq<char>) -> Seq<char> {
    "function "@ + name + " must return a value"@
}

/// The complaint about a `return` that stands in no function.
pub open spec fn return_outside_message() -> Seq<char> {
    "return statement outside of function"@
}

/// The complaint about a returned value of the wrong type.
pub open spec fn return_mismatch_message(expected: Type, got: Type) -> Seq<char> {
    "return type mismatch: expected "@ + expected.name() + ", got "@ + got.name()
}

/// A violation with the given message at the given position.
pub open spec fn complaint<T>(message: Seq<char>, span: Span) -> Result<T, Diagnostic> {
    Err(Diagnostic { message, span })
}

/// The type of an expression, or the first violation in it.
///
/// A literal has the type of its value and a variable that of its symbol.
/// A call has its callee's type if the callee is callable, the argument
/// count is the parameter count, and each argument, left to right, has its
/// parameter's type. The operands of an operator must have one type; a
/// comparison is a `bool`, any other operation has the operands' type.
pub open spec fn expr_type(scopes: Scopes, e: WithSpan<ExprView>) -> Result<Type, Diagnostic>
    decreases e, 0int,
{
    match e.node {
        ExprView::Literal(value) => Ok(value.type_of()),
        ExprView::Variable(name) => match lookup(scopes, name) {
            Some(symbol) => Ok(symbol.type_),
            None => complaint(undefined_variable_message(name), e.span),
        },
        ExprView::Call { callee, args } => match lookup(scopes, callee) {
            None => complaint(undefined_function_message(callee), e.span),
            Some(symbol) => match symbol.signature {
                SignatureView::Variable => complaint(not_a_function_message(callee), e.span),
                SignatureView::Output => if args.len() != 1 {
                    complaint(arity_message(callee, 1, args.len()), e.span)
                } else {
                    match expr_type(scopes, args[0]) {
                        Ok(_) => Ok(symbol.type_),
                        Err(violation) => Err(violation),
                    }
                },
                SignatureView::Function(params) => if args.len() != params.len() {
                    complaint(arity_message(callee, params.len(), args.len()), e.span)
                } else {
                    match args_check(scopes, args, params, 0, e.span) {
                        Ok(()) => Ok(symbol.type_),
                        Err(violation) => Err(violation),
                    }
                },
            },
        },
        ExprView::Binary { left, operator, right } => match expr_type(scopes, *left) {
            Ok(left_type) => match expr_type(scopes, *right) {
                Ok(right_type) => if left_type != right_type {
                    complaint(mismatch_message(left_type, right_type), e.span)
                } else if operator.is_comparison() {
                    Ok(Type::Bool)
                } else {
                    Ok(left_type)
                },
                Err(violation) => Err(violation),
            },
            Err(violation) => Err(violation),
        },
    }
}

/// Checks the arguments from the `i`-th on against their parameters.
pub open spec fn args_check(
    scopes: Scopes,
    args: Seq<WithSpan<ExprView>>,
    params: Seq<ParamView>,
    i: int,
    call: Span,
) -> Result<(), Diagnostic>
    decreases args, args.len() - i,
{
    if 0 <= i < args.len() && i < params.len() {
        match expr_type(scopes, args[i]) {
            Ok(type_) => if type_ != params[i].type_ {
                complaint(mismatch_message(params[i].type_, type_), call)
            } else {
                args_check(scopes, args, params, i + 1, call)
            },
            Err(violation) => Err(violation),
        }
    } else {
        Ok(())
    }
}

/// Declares the parameters from the `i`-th on as variables.
pub open spec fn bind_params(scopes: Scopes, params: Seq<ParamView>, i: int) -> Scopes
    decreases params.len() - i,
{
    if 0 <= i < params.len() {
        bind_params(declare(scopes, params[i].name, variable(params[i].type_)), params, i + 1)
    } else {
        scopes
    }
}

/// The analysis that stopped at a violation.
pub open spec fn failed(scopes: Scopes, violation: Diagnostic) -> Analysis {
    Analysis { scopes, result: Err(violation) }
}

/// The analysis that found no violation.
pub open spec fn passed(scopes: Scopes, returned: bool) -> Analysis {
    Analysis { scopes, result: Ok(returned) }
}

/// Analyzes a condition and the block that it governs, in a fresh scope
/// that is left again after the block. `message` makes the complaint about
/// a condition that is no `bool`.
pub open spec fn check_guarded(
    scopes: Scopes,
    condition: WithSpan<ExprView>,
    body: Seq<WithSpan<StmtView>>,
    message: spec_fn(Type) -> Seq<char>,
) -> Analysis
    decreases body, body.len() + 1,
{
    let inner = enter(scopes);
    match expr_type(inner, condition) {
        Err(violation) => failed(inner, violation),
        Ok(type_) => if type_ != Type::Bool {
            failed(inner, Diagnostic { message: message(type_), span: condition.span })
        } else {
            let block = check_body_from(inner, body, 0, false);
            match block.result {
                Err(_) => block,
                Ok(_) => passed(exit(block.scopes), false),
            }
        },
    }
}

/// Analyzes a statement.
///
/// - A declaration's name must be new in the innermost scope; it is
///   declared, and then its initializer must have the declared type.
/// - An assignment's value is analyzed, the name must be declared, and
///   the value must have the name's type.
/// - The condition of an `if` or a loop must be a `bool`; each block is
///   analyzed in its own scope.
/// - A function is declared in the enclosing scope before its body is
///   analyzed, so that it can call itself. The body has a scope of its
///   own, with the parameters and the return type. A function that is not
///   `void` must hold a `return` among the statements of its body.
/// - A `return` must stand in a function, and its value, `void` if it has
///   none, must have the function's type.
pub open spec fn check_statement(scopes: Scopes, s: WithSpan<StmtView>) -> Analysis
    decreases s, 0int,
{
    match s.node {
        StmtView::VarDecl { name, type_, value } => {
            if declared_here(scopes, name) {
                failed(scopes, Diagnostic { message: duplicate_message(name), span: s.span })
            } else {
                let declared = declare(scopes, name, variable(type_));
                match expr_type(declared, value) {
                    Err(violation) => failed(declared, violation),
                    Ok(value_type) => if value_type != type_ {
                        failed(
                            declared,
                            Diagnostic {
                                message: declaration_mismatch_message(name, type_, value_type),
                                span: s.span,
                            },
                        )
                    } else {
                        passed(declared, false)
                    },
                }
            }
        },
        StmtView::VarAssignment { name, value } => match expr_type(scopes, value) {
            Err(violation) => failed(scopes, violation),
            Ok(value_type) => match lookup(scopes, name) {
                None => failed(
                    scopes,
                    Diagnostic { message: undeclared_message(name), span: s.span },
                ),
                Some(symbol) => if symbol.type_ != value_type {
                    failed(
                        scopes,
                        Diagnostic {
                            message: assignment_mismatch_message(symbol.type_, value_type),
                            span: s.span,
                        },
                    )
                } else {
                    passed(scopes, false)
                },
            },
        },
        StmtView::If(conditional) => check_if(scopes, conditional),
        StmtView::Loop { condition, body } => check_guarded(
            scopes,
            condition,
            body,
            |t: Type| loop_condition_message(t),
        ),
        StmtView::Function(f) => {
            let outer = declare(scopes, f.name, function(f.type_, f.params));
            let inner = declare(
                bind_params(enter(outer), f.params, 0),
                return_name(),
                variable(f.type_),
            );
            let block = check_body_from(inner, f.body, 0, false);
            match block.result {
                Err(_) => block,
                Ok(returned) => if f.type_ != Type::Void && !returned {
                    failed(
                        block.scopes,
                        Diagnostic { message: missing_return_message(f.name), span: s.span },
                    )
                } else {
                    passed(exit(block.scopes), false)
                },
            }
        },
        StmtView::Return { value } => match lookup(scopes, return_name()) {
            None => failed(
                scopes,
                Diagnostic { message: return_outside_message(), span: s.span },
            ),
            Some(expected) => {
                let found = match value {
                    Some(value) => expr_type(scopes, value),
                    None => Ok(Type::Void),
                };
                match found {
                    Err(violation) => failed(scopes, violation),
                    Ok(value_type) => if value_type != expected.type_ {
                        failed(
                            scopes,
                            Diagnostic {
                                message: return_mismatch_message(expected.type_, value_type),
                                span: s.span,
                            },
                        )
                    } else {
                        passed(scopes, true)
                    },
                }
            },
        },
        StmtView::Expr(e) => match expr_type(scopes, WithSpan { node: e, span: s.span }) {
            Err(violation) => failed(scopes, violation),
            Ok(_) => passed(scopes, false),
        },
    }
}

/// Analyzes a conditional: its first block under its condition, then, in
/// a scope of its own, what stands after `else`.
pub open spec fn check_if(scopes: Scopes, conditional: IfView) -> Analysis
    decreases conditional, 0int,
{
    let first = check_guarded(
        scopes,
        conditional.condition,
        conditional.then_body,
        |t: Type| if_condition_message(t),
    );
    match first.result {
        Err(_) => first,
        Ok(_) => match conditional.else_body {
            None => first,
            Some(next) => {
                let rest = check_statement(enter(first.scopes), *next);
                match rest.result {
                    Err(_) => rest,
                    Ok(_) => passed(exit(rest.scopes), false),
                }
            },
        },
    }
}

/// Analyzes the statements of a block from the `i`-th on. `returned` says
/// whether a `return` stood among the statements before.
pub open spec fn check_body_from(
    scopes: Scopes,
    body: Seq<WithSpan<StmtView>>,
    i: int,
    returned: bool,
) -> Analysis
    decreases body, body.len() - i,
{
    if 0 <= i < body.len() {
        let first = check_statement(scopes, body[i]);
        match first.result {
            Err(_) => first,
            Ok(was_return) => check_body_from(first.scopes, body, i + 1, returned || was_return),
        }
    } else {
        passed(scopes, returned)
    }
}

/// Analyzes a block of statements. The result says whether a `return`
/// stands among them.
pub open spec fn check_body(scopes: Scopes, body: Seq<WithSpan<StmtView>>) -> Analysis {
    check_body_from(scopes, body, 0, false)
}

/// Analyzes a program: its statements, in the given scopes extended by the
/// output operations.
pub open spec fn check_program(scopes: Scopes, program: Seq<WithSpan<StmtView>>) -> Analysis {
    check_body(with_built_ins(scopes), program)
}

} // verus!
