//! What running a program means: the output that it writes and the way it
//! ends, as functions of the syntax tree.
//!
//! The machine is a stack of scopes and the text written so far. Every
//! function takes the machine and gives the machine after the step
//! together with the step's result; a failure ends the whole run, and the
//! machine is then what the run had made of it. A block's scope is closed
//! however the block ends. The body of a function runs in a fresh scope on
//! top of the scopes of its caller.
//!
//! Two limits make every run finite: `depth` bounds how deeply calls may
//! nest, and each execution of a loop may go around at most
//! `max_iterations` times.
use crate::common::ast::{
    Diagnostic, ExprView, FunctionView, IfView, ParamView, Span, StmtView, ValueView, WithSpan,
};
use crate::common::scope::{Scopes, assign, declare, enter, exit, lookup};
use crate::common::text::decimal;
use crate::common::token::BinaryOperator;
use vstd::prelude::*;

verus! {

/// What a name is bound to while a program runs.
pub enum BindingView {
    /// A variable and its value; `None` while its initializer is being
    /// evaluated.
    Variable(Option<ValueView>),
    /// A declared function.
    Function(FunctionView),
}

/// The state of a run: the open scopes and the text written so far.
pub struct Machine {
    pub scopes: Scopes<BindingView>,
    pub output: Seq<char>,
}

/// The bounds that keep a run finite.
#[derive(Clone, Copy, Debug, PartialEq, Eq, Structural)]
pub struct Limits {
    /// How deeply calls may nest.
    pub max_depth: usize,
    /// How often one execution of a loop may go around.
    pub max_iterations: usize,
}

/// How a statement ends: it falls through to the next statement, or it
/// returns a value from the function that it stands in.
pub enum Flow {
    Normal,
    Return(ValueView),
}

/// The machine after a step, and what the step gave.
pub struct Outcome<T> {
    pub machine: Machine,
    pub result: Result<T, Diagnostic>,
}

/// A step that succeeded.
pub open spec fn done<T>(machine: Machine, value: T) -> Outcome<T> {
    Outcome { machine, result: Ok(value) }
}

/// A step that failed with the given message at the given position.
pub open spec fn failure<T>(machine: Machine, message: Seq<char>, span: Span) -> Outcome<T> {
    Outcome { machine, result: Err(Diagnostic { message, span }) }
}

/// The complaint about a variable that is not bound.
pub open spec fn undefined_variable_message(name: Seq<char>) -> Seq<char> {
    "use of undefined variable "@ + name
}

/// The complaint about a variable that is used in its own initializer.
pub open spec fn unassigned_variable_message(name: Seq<char>) -> Seq<char> {
    "use of unassigned variable "@ + name
}

/// The complaint about a function used as a variable.
pub open spec fn not_a_variable_message(name: Seq<char>) -> Seq<char> {
    name + " is not a variable"@
}

/// The complaint about a callee that is not bound.
pub open spec fn undefined_function_message(name: Seq<char>) -> Seq<char> {
    "use of undefined function "@ + name
}

/// The complaint about a variable used as a callee.
pub open spec fn not_a_function_message(name: Seq<char>) -> Seq<char> {
    name + " is not a function"@
}

/// The complaint about a call with the wrong number of arguments.
pub open spec fn arity_message(name: Seq<char>, expected: nat, got: nat) -> Seq<char> {
    "function "@ + name + " expects "@ + decimal(expected as int) + " arguments, got "@ + decimal(
        got as int,
    )
}

/// The complaint about an operand that is no number.
pub open spec fn not_a_number_message(value: ValueView) -> Seq<char> {
    "not a number: "@ + value.text()
}

/// The complaint about a condition that is no `bool`.
pub open spec fn not_a_bool_message(value: ValueView) -> Seq<char> {
    "condition is not a bool: "@ + value.text()
}

/// The complaint about a division or a remainder by zero.
pub open spec fn division_by_zero_message() -> Seq<char> {
    "division by zero"@
}

/// The complaint about arithmetic whose result is no 32-bit integer.
pub open spec fn overflow_message() -> Seq<char> {
    "integer overflow"@
}

/// The complaint about an assignment to a name that is not bound.
pub open spec fn undeclared_assignment_message(name: Seq<char>) -> Seq<char> {
    "cannot assign undeclared variable "@ + name
}

/// The complaint about an assignment to a function.
pub open spec fn function_assignment_message(name: Seq<char>) -> Seq<char> {
    "cannot assign to function "@ + name
}

/// The complaint about calls nested more deeply than the limit.
pub open spec fn depth_message() -> Seq<char> {
    "call depth exceeded"@
}

/// The complaint about a loop that goes around more often than the limit.
pub open spec fn iterations_message() -> Seq<char> {
    "iteration limit exceeded"@
}

/// The quotient of two integers rounded towards zero.
pub open spec fn truncated_quotient(a: int, b: int) -> int
    recommends
        b != 0,
{
    if a >= 0 && b > 0 {
        a / b
    } else if a < 0 && b < 0 {
        (-a) / (-b)
    } else if a < 0 {
        -((-a) / b)
    } else {
        -(a / (-b))
    }
}

/// The remainder that goes with [`truncated_quotient`]; it has the sign of
/// the dividend.
pub open spec fn truncated_remainder(a: int, b: int) -> int
    recommends
        b != 0,
{
    let divisor = if b < 0 {
        -b
    } else {
        b
    };
    if a >= 0 {
        a % divisor
    } else {
        -((-a) % divisor)
    }
}

/// The exact result of an arithmetic operator; `None` for a division by
/// zero.
pub open spec fn arithmetic(operator: BinaryOperator, a: int, b: int) -> Option<int> {
    match operator {
        BinaryOperator::Add => Some(a + b),
        BinaryOperator::Subtract => Some(a - b),
        BinaryOperator::Multiply => Some(a * b),
        BinaryOperator::Divide => if b == 0 {
            None
        } else {
            Some(truncated_quotient(a, b))
        },
        _ => if b == 0 {
            None
        } else {
            Some(truncated_remainder(a, b))
        },
    }
}

/// The result of an ordering operator.
pub open spec fn ordering(operator: BinaryOperator, a: int, b: int) -> bool {
    match operator {
        BinaryOperator::GreaterThan => a > b,
        BinaryOperator::LessThan => a < b,
        BinaryOperator::GreaterThanOrEqual => a >= b,
        _ => a <= b,
    }
}

/// Applies an operator to two values. Equality holds between values of the
/// same variant and content. Every other operator takes two numbers;
/// arithmetic whose result is no 32-bit integer fails.
pub open spec fn apply(
    operator: BinaryOperator,
    left: WithSpan<ValueView>,
    right: WithSpan<ValueView>,
    whole: Span,
) -> Result<ValueView, Diagnostic> {
    if operator == BinaryOperator::Equal {
        Ok(ValueView::Bool(left.node == right.node))
    } else if operator == BinaryOperator::NotEqual {
        Ok(ValueView::Bool(left.node != right.node))
    } else {
        match (left.node, right.node) {
            (ValueView::Number(a), ValueView::Number(b)) => {
                if operator.is_comparison() {
                    Ok(ValueView::Bool(ordering(operator, a as int, b as int)))
                } else {
                    match arithmetic(operator, a as int, b as int) {
                        None => Err(
                            Diagnostic { message: division_by_zero_message(), span: whole },
                        ),
                        Some(exact) => if i32::MIN <= exact <= i32::MAX {
                            Ok(ValueView::Number(exact as i32))
                        } else {
                            Err(Diagnostic { message: overflow_message(), span: whole })
                        },
                    }
                }
            },
            (ValueView::Number(_), _) => Err(
                Diagnostic { message: not_a_number_message(right.node), span: right.span },
            ),
            _ => Err(Diagnostic { message: not_a_number_message(left.node), span: left.span }),
        }
    }
}

/// Whether the name is one of the output operations.
pub open spec fn is_output_operation(name: Seq<char>) -> bool {
    name == "print"@ || name == "println"@
}

/// The text that an output operation writes for a value: the value's
/// text, and for `println` a line feed after it.
pub open spec fn written(name: Seq<char>, value: ValueView) -> Seq<char> {
    if name == "println"@ {
        value.text() + "\n"@
    } else {
        value.text()
    }
}

/// What a name is bound to in the given scopes.
pub open spec fn lookup_binding(scopes: Scopes<BindingView>, name: Seq<char>) -> Option<BindingView> {
    lookup(scopes, name)
}

/// Binds the parameters from the `i`-th on to their values.
pub open spec fn bind(
    scopes: Scopes<BindingView>,
    params: Seq<ParamView>,
    values: Seq<ValueView>,
    i: int,
) -> Scopes<BindingView>
    decreases params.len() - i,
{
    if 0 <= i < params.len() && i < values.len() {
        bind(
            declare(scopes, params[i].name, BindingView::Variable(Some(values[i]))),
            params,
            values,
            i + 1,
        )
    } else {
        scopes
    }
}

/// The machine with other scopes and the same output.
pub open spec fn with_scopes(machine: Machine, scopes: Scopes<BindingView>) -> Machine {
    Machine { scopes, output: machine.output }
}

/// Opens a scope.
pub open spec fn entered(machine: Machine) -> Machine {
    with_scopes(machine, enter(machine.scopes))
}

/// Closes the innermost scope.
pub open spec fn exited(machine: Machine) -> Machine {
    with_scopes(machine, exit(machine.scopes))
}

/// Closes the scope of a block that has ended, however it ended.
pub open spec fn leave<T>(outcome: Outcome<T>) -> Outcome<T> {
    Outcome { machine: exited(outcome.machine), result: outcome.result }
}

/// The value of an expression.
///
/// A literal is its value. A variable is the value of the innermost
/// binding of its name. An operator's operands are evaluated left before
/// right, both of them, before the operator is applied. A call evaluates
/// its arguments left to right in the caller's scopes; a declared function
/// then runs its body in a fresh scope that binds the parameters, and the
/// call's value is the value that the body returns, or `void` if it
/// returns none; an output operation writes its argument's text.
pub open spec fn eval(limits: Limits, depth: nat, machine: Machine, e: WithSpan<ExprView>) -> Outcome<
    ValueView,
>
    decreases depth, 0int, e, 0int,
{
    match e.node {
        ExprView::Literal(value) => done(machine, value),
        ExprView::Variable(name) => match lookup(machine.scopes, name) {
            Some(BindingView::Variable(Some(value))) => done(machine, value),
            Some(BindingView::Variable(None)) => failure(
                machine,
                unassigned_variable_message(name),
                e.span,
            ),
            Some(BindingView::Function(_)) => failure(machine, not_a_variable_message(name), e.span),
            None => failure(machine, undefined_variable_message(name), e.span),
        },
        ExprView::Binary { left, operator, right } => {
            let first = eval(limits, depth, machine, *left);
            match first.result {
                Err(error) => Outcome { machine: first.machine, result: Err(error) },
                Ok(left_value) => {
                    let second = eval(limits, depth, first.machine, *right);
                    match second.result {
                        Err(error) => Outcome { machine: second.machine, result: Err(error) },
                        Ok(right_value) => Outcome {
                            machine: second.machine,
                            result: apply(
                                operator,
                                WithSpan { node: left_value, span: left.span },
                                WithSpan { node: right_value, span: right.span },
                                e.span,
                            ),
                        },
                    }
                },
            }
        },
        ExprView::Call { callee, args } => {
            let target = lookup(machine.scopes, callee);
            let evaluated = eval_args(limits, depth, machine, args, 0, Seq::empty());
            match evaluated.result {
                Err(error) => Outcome { machine: evaluated.machine, result: Err(error) },
                Ok(values) => match target {
                    Some(BindingView::Function(f)) => {
                        if values.len() != f.params.len() {
                            failure(
                                evaluated.machine,
                                arity_message(callee, f.params.len(), values.len()),
                                e.span,
                            )
                        } else if depth == 0 {
                            failure(evaluated.machine, depth_message(), e.span)
                        } else {
                            call(limits, (depth - 1) as nat, evaluated.machine, f, values)
                        }
                    },
                    Some(BindingView::Variable(_)) => failure(
                        evaluated.machine,
                        not_a_function_message(callee),
                        e.span,
                    ),
                    None => if is_output_operation(callee) {
                        if values.len() != 1 {
                            failure(
                                evaluated.machine,
                                arity_message(callee, 1, values.len()),
                                e.span,
                            )
                        } else {
                            done(
                                Machine {
                                    scopes: evaluated.machine.scopes,
                                    output: evaluated.machine.output + written(callee, values[0]),
                                },
                                ValueView::Void,
                            )
                        }
                    } else {
                        failure(evaluated.machine, undefined_function_message(callee), e.span)
                    },
                },
            }
        },
    }
}

/// The values of the arguments from the `i`-th on, after those already
/// evaluated.
pub open spec fn eval_args(
    limits: Limits,
    depth: nat,
    machine: Machine,
    args: Seq<WithSpan<ExprView>>,
    i: int,
    values: Seq<ValueView>,
) -> Outcome<Seq<ValueView>>
    decreases depth, 0int, args, args.len() - i,
{
    if 0 <= i < args.len() {
        let first = eval(limits, depth, machine, args[i]);
        match first.result {
            Err(error) => Outcome { machine: first.machine, result: Err(error) },
            Ok(value) => eval_args(limits, depth, first.machine, args, i + 1, values.push(value)),
        }
    } else {
        done(machine, values)
    }
}

/// Runs a function's body on argument values.
pub open spec fn call(
    limits: Limits,
    depth: nat,
    machine: Machine,
    f: FunctionView,
    values: Seq<ValueView>,
) -> Outcome<ValueView>
    decreases depth, 1int, f, 0int,
{
    let inside = with_scopes(machine, bind(enter(machine.scopes), f.params, values, 0));
    let body = leave(run_from(limits, depth, inside, f.body, 0));
    match body.result {
        Err(error) => Outcome { machine: body.machine, result: Err(error) },
        Ok(Flow::Return(value)) => done(body.machine, value),
        Ok(Flow::Normal) => done(body.machine, ValueView::Void),
    }
}

/// Runs a statement.
///
/// - A function declaration binds the function's name.
/// - A variable declaration binds the name, without a value, evaluates
///   the initializer, and binds the name to the value.
/// - An assignment evaluates the value and rebinds the innermost binding
///   of the name, which must be a variable.
/// - A `return` ends the statements around it, up to the call that they
///   run for, with its value, `void` if it has none.
pub open spec fn run_statement(
    limits: Limits,
    depth: nat,
    machine: Machine,
    s: WithSpan<StmtView>,
) -> Outcome<Flow>
    decreases depth, 1int, s, 0int,
{
    match s.node {
        StmtView::Function(f) => done(
            with_scopes(machine, declare(machine.scopes, f.name, BindingView::Function(f))),
            Flow::Normal,
        ),
        StmtView::VarDecl { name, type_, value } => {
            let declared = with_scopes(
                machine,
                declare(machine.scopes, name, BindingView::Variable(None)),
            );
            let initial = eval(limits, depth, declared, value);
            match initial.result {
                Err(error) => Outcome { machine: initial.machine, result: Err(error) },
                Ok(initial_value) => done(
                    with_scopes(
                        initial.machine,
                        declare(
                            initial.machine.scopes,
                            name,
                            BindingView::Variable(Some(initial_value)),
                        ),
                    ),
                    Flow::Normal,
                ),
            }
        },
        StmtView::VarAssignment { name, value } => {
            let assigned = eval(limits, depth, machine, value);
            match assigned.result {
                Err(error) => Outcome { machine: assigned.machine, result: Err(error) },
                Ok(new_value) => match lookup(assigned.machine.scopes, name) {
                    Some(BindingView::Variable(_)) => done(
                        with_scopes(
                            assigned.machine,
                            assign(
                                assigned.machine.scopes,
                                name,
                                BindingView::Variable(Some(new_value)),
                            ),
                        ),
                        Flow::Normal,
                    ),
                    Some(BindingView::Function(_)) => failure(
                        assigned.machine,
                        function_assignment_message(name),
                        s.span,
                    ),
                    None => failure(assigned.machine, undeclared_assignment_message(name), s.span),
                },
            }
        },
        StmtView::If(conditional) => run_if(limits, depth, machine, conditional),
        StmtView::Loop { condition, body } => run_loop(
            limits,
            depth,
            machine,
            s.node,
            limits.max_iterations as nat,
        ),
        StmtView::Return { value } => match value {
            None => done(machine, Flow::Return(ValueView::Void)),
            Some(value) => {
                let returned = eval(limits, depth, machine, value);
                match returned.result {
                    Err(error) => Outcome { machine: returned.machine, result: Err(error) },
                    Ok(value) => done(returned.machine, Flow::Return(value)),
                }
            },
        },
        StmtView::Expr(e) => {
            let evaluated = eval(limits, depth, machine, WithSpan { node: e, span: s.span });
            match evaluated.result {
                Err(error) => Outcome { machine: evaluated.machine, result: Err(error) },
                Ok(_) => done(evaluated.machine, Flow::Normal),
            }
        },
    }
}

/// Runs a conditional: the condition is evaluated in a fresh scope; if it
/// is `true` the first block runs in that scope; if it is `false` the
/// scope is closed and what stands after `else`, if anything, runs.
pub open spec fn run_if(limits: Limits, depth: nat, machine: Machine, conditional: IfView) -> Outcome<
    Flow,
>
    decreases depth, 1int, conditional, 0int,
{
    let tested = eval(limits, depth, entered(machine), conditional.condition);
    match tested.result {
        Err(error) => leave(Outcome { machine: tested.machine, result: Err(error) }),
        Ok(ValueView::Bool(true)) => leave(
            run_from(limits, depth, tested.machine, conditional.then_body, 0),
        ),
        Ok(ValueView::Bool(false)) => match conditional.else_body {
            None => done(exited(tested.machine), Flow::Normal),
            Some(next) => run_statement(limits, depth, exited(tested.machine), *next),
        },
        Ok(other) => leave(
            failure(tested.machine, not_a_bool_message(other), conditional.condition.span),
        ),
    }
}

/// Runs a loop that may still go around `iterations` times: the condition
/// is evaluated in a fresh scope; if it is `false` the loop ends; if it is
/// `true` the body runs in that scope, the scope is closed, and, unless
/// the body has returned, the loop goes around again.
pub open spec fn run_loop(
    limits: Limits,
    depth: nat,
    machine: Machine,
    node: StmtView,
    iterations: nat,
) -> Outcome<Flow>
    decreases depth, 1int, node, iterations,
{
    match node {
        StmtView::Loop { condition, body } => {
            let tested = eval(limits, depth, entered(machine), condition);
            match tested.result {
                Err(error) => leave(Outcome { machine: tested.machine, result: Err(error) }),
                Ok(ValueView::Bool(false)) => done(exited(tested.machine), Flow::Normal),
                Ok(ValueView::Bool(true)) => {
                    if iterations == 0 {
                        leave(failure(tested.machine, iterations_message(), condition.span))
                    } else {
                        let round = leave(run_from(limits, depth, tested.machine, body, 0));
                        match round.result {
                            Ok(Flow::Normal) => run_loop(
                                limits,
                                depth,
                                round.machine,
                                node,
                                (iterations - 1) as nat,
                            ),
                            _ => round,
                        }
                    }
                },
                Ok(other) => leave(
                    failure(tested.machine, not_a_bool_message(other), condition.span),
                ),
            }
        },
        _ => done(machine, Flow::Normal),
    }
}

/// Runs the statements of a block from the `i`-th on, until one of them
/// returns or fails.
pub open spec fn run_from(
    limits: Limits,
    depth: nat,
    machine: Machine,
    body: Seq<WithSpan<StmtView>>,
    i: int,
) -> Outcome<Flow>
    decreases depth, 1int, body, body.len() - i,
{
    if 0 <= i < body.len() {
        let first = run_statement(limits, depth, machine, body[i]);
        match first.result {
            Ok(Flow::Normal) => run_from(limits, depth, first.machine, body, i + 1),
            _ => first,
        }
    } else {
        done(machine, Flow::Normal)
    }
}

/// Runs a program: its statements, in a fresh scope of the machine. A
/// `return` that stands in no function ends the program.
pub open spec fn run_program(limits: Limits, machine: Machine, program: Seq<WithSpan<StmtView>>) -> Outcome<
    Flow,
> {
    leave(run_from(limits, limits.max_depth as nat, entered(machine), program, 0))
}

} // verus!
