//! The interpreter: runs a syntax tree.
pub mod laws;
pub mod semantics;

use crate::common::ast::{
    Diagnostic, Expression, FunctionDecl, IfStatement, LiteralValue, LoopStatement, Program,
    Span, SpannedExpression, SpannedStatement, Statement, ValueView, WithSpan, exprs_view,
    lemma_exprs_view_index, lemma_exprs_view_len, lemma_stmts_view_index, params_view, report,
    report_text, stmts_view,
};
use crate::common::scope::ScopeTable;
use crate::common::text::{push_decimal_nat, text_is};
use crate::common::token::BinaryOperator;
use crate::interpreter::semantics::{
    BindingView, Flow, Limits, Machine, apply, bind, call, eval, eval_args, run_from, run_if,
    run_loop, run_program, run_statement,
};
use vstd::prelude::*;

verus! {

/// A failure while a program runs: the message and the position of the
/// statement or expression that failed.
#[derive(Debug, PartialEq)]
pub struct RuntimeError {
    pub message: String,
    pub span: Span,
}

impl View for RuntimeError {
    type V = Diagnostic;

    open spec fn view(&self) -> Diagnostic {
        Diagnostic { message: self.message@, span: self.span }
    }
}

impl RuntimeError {
    /// An error with the given message about the given position.
    pub fn new(message: String, span: Span) -> (r: Self)
        ensures
            r.message == message,
            r.span == span,
    {
        Self { message, span }
    }

    /// The error as it is shown to a user.
    pub fn to_text(&self) -> (r: String)
        ensures
            r@ == report("RuntimeError"@, self@),
    {
        report_text("RuntimeError", &self.message, self.span)
    }
}

/// What a name is bound to while a program runs.
enum Binding<'a> {
    Variable(Option<LiteralValue>),
    Function(&'a FunctionDecl),
}

impl<'a> View for Binding<'a> {
    type V = BindingView;

    closed spec fn view(&self) -> BindingView {
        match *self {
            Binding::Variable(Some(value)) => BindingView::Variable(Some(value@)),
            Binding::Variable(None) => BindingView::Variable(None),
            Binding::Function(f) => BindingView::Function(f@),
        }
    }
}

/// The stack of scopes of a run.
type ScopeStack<'a> = ScopeTable<Binding<'a>>;

/// What a callee's name resolves to.
enum Target<'a> {
    Function(&'a FunctionDecl),
    Variable,
    Missing,
}

/// Whether a target is what a binding resolves to.
spec fn resolves<'a>(target: Target<'a>, binding: Option<BindingView>) -> bool {
    match target {
        Target::Function(f) => binding == Some(BindingView::Function(f@)),
        Target::Variable => binding is Some && binding->Some_0 is Variable,
        Target::Missing => binding is None,
    }
}

/// How a statement ended.
enum Signal {
    Normal,
    Return(LiteralValue),
}

impl View for Signal {
    type V = Flow;

    closed spec fn view(&self) -> Flow {
        match *self {
            Signal::Normal => Flow::Normal,
            Signal::Return(value) => Flow::Return(value@),
        }
    }
}

/// The mathematical content of an evaluation's result.
pub open spec fn viewed_value(r: Result<LiteralValue, RuntimeError>) -> Result<
    ValueView,
    Diagnostic,
> {
    match r {
        Ok(value) => Ok(value@),
        Err(error) => Err(error@),
    }
}

spec fn viewed_signal(r: Result<Signal, RuntimeError>) -> Result<Flow, Diagnostic> {
    match r {
        Ok(signal) => Ok(signal@),
        Err(error) => Err(error@),
    }
}

/// The views of a vector of values, element by element.
pub open spec fn values_view(values: Seq<LiteralValue>) -> Seq<ValueView> {
    values.map_values(|v: LiteralValue| v@)
}

/// The limits that an interpreter has unless it is given others.
pub open spec fn default_limits() -> Limits {
    Limits { max_depth: 128, max_iterations: 1000000 }
}

fn prefixed(head: &str, name: &String) -> (r: String)
    ensures
        r@ == head@ + name@,
{
    let mut message = String::from_str(head);
    message.append(name.as_str());
    message
}

fn suffixed(name: &String, tail: &str) -> (r: String)
    ensures
        r@ == name@ + tail@,
{
    let mut message = name.clone();
    message.append(tail);
    message
}

fn arity_error(name: &String, expected: usize, got: usize, span: Span) -> (r: RuntimeError)
    ensures
        r@ == (Diagnostic {
            message: semantics::arity_message(name@, expected as nat, got as nat),
            span,
        }),
{
    let mut message = String::from_str("function ");
    message.append(name.as_str());
    message.append(" expects ");
    push_decimal_nat(&mut message, expected as u64);
    message.append(" arguments, got ");
    push_decimal_nat(&mut message, got as u64);
    RuntimeError::new(message, span)
}

/// Applies an arithmetic operator to two numbers.
fn apply_arithmetic(operator: BinaryOperator, a: i32, b: i32, whole: Span) -> (r: Result<
    LiteralValue,
    RuntimeError,
>)
    requires
        !operator.is_comparison(),
    ensures
        viewed_value(r) == apply(
            operator,
            WithSpan { node: ValueView::Number(a), span: whole },
            WithSpan { node: ValueView::Number(b), span: whole },
            whole,
        ),
{
    let exact = match operator {
        BinaryOperator::Add => a.checked_add(b),
        BinaryOperator::Subtract => a.checked_sub(b),
        BinaryOperator::Multiply => a.checked_mul(b),
        BinaryOperator::Divide => {
            if b == 0 {
                return Err(RuntimeError::new(String::from_str("division by zero"), whole));
            }
            a.checked_div(b)
        },
        _ => {
            if b == 0 {
                return Err(RuntimeError::new(String::from_str("division by zero"), whole));
            }
            if b == -1 {
                Some(0)
            } else {
                a.checked_rem(b)
            }
        },
    };
    match exact {
        Some(n) => Ok(LiteralValue::Number(n)),
        None => Err(RuntimeError::new(String::from_str("integer overflow"), whole)),
    }
}

/// Applies an operator to two values.
fn apply_operator(
    operator: BinaryOperator,
    left: &LiteralValue,
    left_span: Span,
    right: &LiteralValue,
    right_span: Span,
    whole: Span,
) -> (r: Result<LiteralValue, RuntimeError>)
    ensures
        viewed_value(r) == apply(
            operator,
            WithSpan { node: left@, span: left_span },
            WithSpan { node: right@, span: right_span },
            whole,
        ),
{
    match operator {
        BinaryOperator::Equal => {
            return Ok(LiteralValue::Bool(left.same_as(right)));
        },
        BinaryOperator::NotEqual => {
            return Ok(LiteralValue::Bool(!left.same_as(right)));
        },
        _ => {},
    }
    let a = match left {
        LiteralValue::Number(a) => *a,
        _ => {
            return Err(
                RuntimeError::new(prefixed("not a number: ", &left.to_text()), left_span),
            );
        },
    };
    let b = match right {
        LiteralValue::Number(b) => *b,
        _ => {
            return Err(
                RuntimeError::new(prefixed("not a number: ", &right.to_text()), right_span),
            );
        },
    };
    match operator {
        BinaryOperator::GreaterThan => Ok(LiteralValue::Bool(a > b)),
        BinaryOperator::LessThan => Ok(LiteralValue::Bool(a < b)),
        BinaryOperator::GreaterThanOrEqual => Ok(LiteralValue::Bool(a >= b)),
        BinaryOperator::LessThanOrEqual => Ok(LiteralValue::Bool(a <= b)),
        _ => apply_arithmetic(operator, a, b, whole),
    }
}

/// An interpreter for one program. It keeps the scopes and the output of
/// what it has run.
pub struct Interpreter<'a> {
    scope_stack: ScopeStack<'a>,
    output: String,
    limits: Limits,
    program_ast: &'a Program,
}

impl<'a> Interpreter<'a> {
    /// The state of the run: the open scopes and the text written.
    pub closed spec fn machine(&self) -> Machine {
        Machine { scopes: self.scope_stack@, output: self.output@ }
    }

    /// The bounds on the run.
    pub closed spec fn limits(&self) -> Limits {
        self.limits
    }

    /// The program that the interpreter was made for.
    pub closed spec fn program(&self) -> Program {
        *self.program_ast
    }

    /// Whether only the machine has changed.
    spec fn same_setup(&self, other: &Self) -> bool {
        self.limits == other.limits && self.program_ast == other.program_ast
    }

    /// An interpreter with the default limits, no scope open and nothing
    /// written.
    pub fn new(program_ast: &'a Program) -> (r: Self)
        ensures
            r.machine() == (Machine { scopes: Seq::empty(), output: Seq::empty() }),
            r.limits() == default_limits(),
            r.program() == *program_ast,
    {
        Self {
            scope_stack: ScopeStack::new(),
            output: String::new(),
            limits: Limits { max_depth: 128, max_iterations: 1000000 },
            program_ast,
        }
    }

    /// An interpreter with the given limits.
    pub fn with_limits(program_ast: &'a Program, limits: Limits) -> (r: Self)
        ensures
            r.machine() == (Machine { scopes: Seq::empty(), output: Seq::empty() }),
            r.limits() == limits,
            r.program() == *program_ast,
    {
        Self { scope_stack: ScopeStack::new(), output: String::new(), limits, program_ast }
    }

    /// The text that the program has written.
    pub fn output(&self) -> (r: &String)
        ensures
            r@ == self.machine().output,
    {
        &self.output
    }

    /// Runs the program: `Ok` if it ran to its end, else the failure that
    /// ended it. What it wrote is added to the output.
    pub fn execute(&mut self) -> (r: Result<(), RuntimeError>)
        ensures
            final(self).limits() == old(self).limits(),
            final(self).program() == old(self).program(),
            final(self).machine() == run_program(
                old(self).limits(),
                old(self).machine(),
                old(self).program()@,
            ).machine,
            match run_program(old(self).limits(), old(self).machine(), old(self).program()@).result {
                Ok(_) => r is Ok,
                Err(error) => r is Err && r->Err_0@ == error,
            },
    {
        self.scope_stack.enter_scope();
        let program: &'a Program = self.program_ast;
        let depth = self.limits.max_depth;
        let result = self.execute_statements(depth, &program.body);
        self.scope_stack.exit_scope();
        match result {
            Ok(_) => Ok(()),
            Err(error) => Err(error),
        }
    }

    /// What the callee's name resolves to.
    fn resolve(&self, callee: &String) -> (r: Target<'a>)
        ensures
            resolves(r, semantics::lookup_binding(self.machine().scopes, callee@)),
    {
        match self.scope_stack.lookup(callee) {
            Some(Binding::Function(f)) => Target::Function(*f),
            Some(Binding::Variable(_)) => Target::Variable,
            None => Target::Missing,
        }
    }

    /// Evaluates an expression.
    fn evaluate_expression(&mut self, depth: usize, expression: &'a SpannedExpression) -> (r: Result<
        LiteralValue,
        RuntimeError,
    >)
        ensures
            final(self).same_setup(old(self)),
            final(self).machine() == eval(
                old(self).limits,
                depth as nat,
                old(self).machine(),
                expression@,
            ).machine,
            viewed_value(r) == eval(
                old(self).limits,
                depth as nat,
                old(self).machine(),
                expression@,
            ).result,
        decreases depth, 0int, expression, 1int,
    {
        self.evaluate_node(depth, &expression.node, expression.span)
    }

    /// Evaluates an expression that stands at `span`.
    fn evaluate_node(&mut self, depth: usize, expression: &'a Expression, span: Span) -> (r: Result<
        LiteralValue,
        RuntimeError,
    >)
        ensures
            final(self).same_setup(old(self)),
            final(self).machine() == eval(
                old(self).limits,
                depth as nat,
                old(self).machine(),
                WithSpan { node: expression@, span },
            ).machine,
            viewed_value(r) == eval(
                old(self).limits,
                depth as nat,
                old(self).machine(),
                WithSpan { node: expression@, span },
            ).result,
        decreases depth, 0int, expression, 0int,
    {
        match expression {
            Expression::Literal(literal) => Ok(literal.value.clone()),
            Expression::VariableRef(reference) => {
                match self.scope_stack.lookup(&reference.name) {
                    Some(Binding::Variable(Some(value))) => Ok(value.clone()),
                    Some(Binding::Variable(None)) => Err(
                        RuntimeError::new(
                            prefixed("use of unassigned variable ", &reference.name),
                            span,
                        ),
                    ),
                    Some(Binding::Function(_)) => Err(
                        RuntimeError::new(suffixed(&reference.name, " is not a variable"), span),
                    ),
                    None => Err(
                        RuntimeError::new(
                            prefixed("use of undefined variable ", &reference.name),
                            span,
                        ),
                    ),
                }
            },
            Expression::Binary(binary) => {
                let left = self.evaluate_expression(depth, &binary.left)?;
                let right = self.evaluate_expression(depth, &binary.right)?;
                apply_operator(
                    binary.operator,
                    &left,
                    binary.left.span,
                    &right,
                    binary.right.span,
                    span,
                )
            },
            Expression::FunctionCall(function_call) => {
                let target = self.resolve(&function_call.callee);
                let ghost start = self.machine();
                let ghost args = exprs_view(function_call.args);
                let mut values: Vec<LiteralValue> = Vec::new();
                let mut i: usize = 0;
                proof {
                    lemma_exprs_view_len(function_call.args);
                    assert(values_view(values@) =~= Seq::empty());
                }
                while i < function_call.args.len()
                    invariant
                        0 <= i <= function_call.args.len(),
                        self.same_setup(old(self)),
                        args == exprs_view(function_call.args),
                        args.len() == function_call.args@.len(),
                        *expression == Expression::FunctionCall(*function_call),
                        start == old(self).machine(),
                        resolves(
                            target,
                            semantics::lookup_binding(start.scopes, function_call.callee@),
                        ),
                        eval_args(self.limits, depth as nat, start, args, 0, Seq::empty())
                            == eval_args(
                            self.limits,
                            depth as nat,
                            self.machine(),
                            args,
                            i as int,
                            values_view(values@),
                        ),
                    decreases function_call.args.len() - i,
                {
                    proof {
                        lemma_exprs_view_index(function_call.args, i as int);
                    }
                    let ghost before = values_view(values@);
                    match self.evaluate_expression(depth, &function_call.args[i]) {
                        Ok(value) => {
                            let ghost added = value@;
                            values.push(value);
                            assert(values_view(values@) =~= before.push(added));
                        },
                        Err(error) => {
                            return Err(error);
                        },
                    }
                    i = i + 1;
                }
                match target {
                    Target::Function(f) => {
                        if values.len() != f.params.len() {
                            return Err(
                                arity_error(
                                    &function_call.callee,
                                    f.params.len(),
                                    values.len(),
                                    span,
                                ),
                            );
                        }
                        if depth == 0 {
                            return Err(
                                RuntimeError::new(String::from_str("call depth exceeded"), span),
                            );
                        }
                        self.execute_function(depth - 1, f, &values)
                    },
                    Target::Variable => Err(
                        RuntimeError::new(
                            suffixed(&function_call.callee, " is not a function"),
                            span,
                        ),
                    ),
                    Target::Missing => {
                        let line = text_is(&function_call.callee, "println");
                        if !line && !text_is(&function_call.callee, "print") {
                            return Err(
                                RuntimeError::new(
                                    prefixed("use of undefined function ", &function_call.callee),
                                    span,
                                ),
                            );
                        }
                        if values.len() != 1 {
                            return Err(arity_error(&function_call.callee, 1, values.len(), span));
                        }
                        let ghost before = self.output@;
                        self.output.append(values[0].to_text().as_str());
                        if line {
                            self.output.append("\n");
                        }
                        assert(self.output@ =~= before + semantics::written(
                            function_call.callee@,
                            values_view(values@)[0],
                        ));
                        Ok(LiteralValue::Void)
                    },
                }
            },
        }
    }

    /// Runs a function's body on argument values.
    fn execute_function(
        &mut self,
        depth: usize,
        function: &'a FunctionDecl,
        arg_vals: &Vec<LiteralValue>,
    ) -> (r: Result<LiteralValue, RuntimeError>)
        requires
            arg_vals@.len() == function.params@.len(),
        ensures
            final(self).same_setup(old(self)),
            final(self).machine() == call(
                old(self).limits,
                depth as nat,
                old(self).machine(),
                function@,
                values_view(arg_vals@),
            ).machine,
            viewed_value(r) == call(
                old(self).limits,
                depth as nat,
                old(self).machine(),
                function@,
                values_view(arg_vals@),
            ).result,
        decreases depth, 1int, function, 0int,
    {
        self.scope_stack.enter_scope();
        let ghost opened = self.scope_stack@;
        let ghost params = params_view(function.params@);
        let ghost values = values_view(arg_vals@);
        let mut i: usize = 0;
        while i < function.params.len()
            invariant
                0 <= i <= function.params.len(),
                arg_vals@.len() == function.params@.len(),
                self.same_setup(old(self)),
                self.output == old(self).output,
                params == params_view(function.params@),
                values == values_view(arg_vals@),
                bind(opened, params, values, 0) == bind(self.scope_stack@, params, values, i as int),
            decreases function.params.len() - i,
        {
            self.scope_stack.add(
                function.params[i].name.clone(),
                Binding::Variable(Some(arg_vals[i].clone())),
            );
            i = i + 1;
        }
        let result = self.execute_statements(depth, &function.body);
        self.scope_stack.exit_scope();
        match result {
            Ok(Signal::Return(value)) => Ok(value),
            Ok(Signal::Normal) => Ok(LiteralValue::Void),
            Err(error) => Err(error),
        }
    }

    /// Runs a loop, around and around within the iteration limit.
    fn execute_loop(&mut self, depth: usize, statement: &'a Statement, repeated: &'a LoopStatement) -> (r:
        Result<Signal, RuntimeError>)
        requires
            *statement == Statement::Loop(*repeated),
        ensures
            final(self).same_setup(old(self)),
            final(self).machine() == run_loop(
                old(self).limits,
                depth as nat,
                old(self).machine(),
                statement@,
                old(self).limits.max_iterations as nat,
            ).machine,
            viewed_signal(r) == run_loop(
                old(self).limits,
                depth as nat,
                old(self).machine(),
                statement@,
                old(self).limits.max_iterations as nat,
            ).result,
        decreases depth, 1int, repeated, 0int,
    {
        let ghost start = self.machine();
        let mut remaining = self.limits.max_iterations;
        loop
            invariant
                *statement == Statement::Loop(*repeated),
                self.same_setup(old(self)),
                run_loop(
                    self.limits,
                    depth as nat,
                    start,
                    statement@,
                    self.limits.max_iterations as nat,
                ) == run_loop(
                    self.limits,
                    depth as nat,
                    self.machine(),
                    statement@,
                    remaining as nat,
                ),
                start == old(self).machine(),
            decreases remaining,
        {
            self.scope_stack.enter_scope();
            let tested = self.evaluate_expression(depth, &repeated.condition);
            match tested {
                Err(error) => {
                    self.scope_stack.exit_scope();
                    return Err(error);
                },
                Ok(LiteralValue::Bool(false)) => {
                    self.scope_stack.exit_scope();
                    return Ok(Signal::Normal);
                },
                Ok(LiteralValue::Bool(true)) => {
                    if remaining == 0 {
                        self.scope_stack.exit_scope();
                        return Err(
                            RuntimeError::new(
                                String::from_str("iteration limit exceeded"),
                                repeated.condition.span,
                            ),
                        );
                    }
                    let round = self.execute_statements(depth, &repeated.body);
                    self.scope_stack.exit_scope();
                    match round {
                        Ok(Signal::Normal) => {
                            remaining = remaining - 1;
                        },
                        other => {
                            return other;
                        },
                    }
                },
                Ok(other) => {
                    self.scope_stack.exit_scope();
                    return Err(
                        RuntimeError::new(
                            prefixed("condition is not a bool: ", &other.to_text()),
                            repeated.condition.span,
                        ),
                    );
                },
            }
        }
    }

    /// Runs a conditional and, where its condition is false, what stands
    /// after `else`.
    fn execute_if(&mut self, depth: usize, conditional: &'a IfStatement) -> (r: Result<
        Signal,
        RuntimeError,
    >)
        ensures
            final(self).same_setup(old(self)),
            final(self).machine() == run_if(
                old(self).limits,
                depth as nat,
                old(self).machine(),
                conditional@,
            ).machine,
            viewed_signal(r) == run_if(
                old(self).limits,
                depth as nat,
                old(self).machine(),
                conditional@,
            ).result,
        decreases depth, 1int, conditional, 0int,
    {
        self.scope_stack.enter_scope();
        let tested = self.evaluate_expression(depth, &conditional.condition);
        match tested {
            Err(error) => {
                self.scope_stack.exit_scope();
                Err(error)
            },
            Ok(LiteralValue::Bool(true)) => {
                let result = self.execute_statements(depth, &conditional.then_body);
                self.scope_stack.exit_scope();
                result
            },
            Ok(LiteralValue::Bool(false)) => {
                self.scope_stack.exit_scope();
                match &conditional.else_body {
                    None => Ok(Signal::Normal),
                    Some(next) => self.execute_statement(depth, next),
                }
            },
            Ok(other) => {
                self.scope_stack.exit_scope();
                Err(
                    RuntimeError::new(
                        prefixed("condition is not a bool: ", &other.to_text()),
                        conditional.condition.span,
                    ),
                )
            },
        }
    }

    /// Runs one statement.
    fn execute_statement(&mut self, depth: usize, statement: &'a SpannedStatement) -> (r: Result<
        Signal,
        RuntimeError,
    >)
        ensures
            final(self).same_setup(old(self)),
            final(self).machine() == run_statement(
                old(self).limits,
                depth as nat,
                old(self).machine(),
                statement@,
            ).machine,
            viewed_signal(r) == run_statement(
                old(self).limits,
                depth as nat,
                old(self).machine(),
                statement@,
            ).result,
        decreases depth, 1int, statement, 0int,
    {
        match &statement.node {
            Statement::Function(function) => {
                self.scope_stack.add(function.name.clone(), Binding::Function(function));
                Ok(Signal::Normal)
            },
            Statement::VarDecl(declaration) => {
                self.scope_stack.add(declaration.name.clone(), Binding::Variable(None));
                match self.evaluate_expression(depth, &declaration.value) {
                    Ok(value) => {
                        self.scope_stack.add(
                            declaration.name.clone(),
                            Binding::Variable(Some(value)),
                        );
                        Ok(Signal::Normal)
                    },
                    Err(error) => Err(error),
                }
            },
            Statement::VarAssignment(assignment) => {
                let value = self.evaluate_expression(depth, &assignment.value)?;
                match self.resolve(&assignment.name) {
                    Target::Variable => {
                        self.scope_stack.assign(
                            assignment.name.clone(),
                            Binding::Variable(Some(value)),
                        );
                        Ok(Signal::Normal)
                    },
                    Target::Function(_) => Err(
                        RuntimeError::new(
                            prefixed("cannot assign to function ", &assignment.name),
                            statement.span,
                        ),
                    ),
                    Target::Missing => Err(
                        RuntimeError::new(
                            prefixed("cannot assign undeclared variable ", &assignment.name),
                            statement.span,
                        ),
                    ),
                }
            },
            Statement::If(conditional) => self.execute_if(depth, conditional),
            Statement::Loop(repeated) => self.execute_loop(depth, &statement.node, repeated),
            Statement::Return(returning) => match &returning.value {
                None => Ok(Signal::Return(LiteralValue::Void)),
                Some(value) => match self.evaluate_expression(depth, value) {
                    Ok(value) => Ok(Signal::Return(value)),
                    Err(error) => Err(error),
                },
            },
            Statement::Expr(expression) => {
                match self.evaluate_node(depth, expression, statement.span) {
                    Ok(_) => Ok(Signal::Normal),
                    Err(error) => Err(error),
                }
            },
        }
    }

    /// Runs the statements of a block, until one of them returns or fails.
    fn execute_statements(&mut self, depth: usize, body: &'a Vec<SpannedStatement>) -> (r: Result<
        Signal,
        RuntimeError,
    >)
        ensures
            final(self).same_setup(old(self)),
            final(self).machine() == run_from(
                old(self).limits,
                depth as nat,
                old(self).machine(),
                stmts_view(*body),
                0,
            ).machine,
            viewed_signal(r) == run_from(
                old(self).limits,
                depth as nat,
                old(self).machine(),
                stmts_view(*body),
                0,
            ).result,
        decreases depth, 1int, body, 1int,
    {
        let ghost start = self.machine();
        let ghost view = stmts_view(*body);
        let mut i: usize = 0;
        while i < body.len()
            invariant
                0 <= i <= body.len(),
                view == stmts_view(*body),
                view.len() == body@.len(),
                self.same_setup(old(self)),
                start == old(self).machine(),
                run_from(self.limits, depth as nat, start, view, 0) == run_from(
                    self.limits,
                    depth as nat,
                    self.machine(),
                    view,
                    i as int,
                ),
            decreases body.len() - i,
        {
            proof {
                lemma_stmts_view_index(*body, i as int);
            }
            match self.execute_statement(depth, &body[i]) {
                Ok(Signal::Normal) => {},
                other => {
                    return other;
                },
            }
            i = i + 1;
        }
        Ok(Signal::Normal)
    }
}

} // verus!
