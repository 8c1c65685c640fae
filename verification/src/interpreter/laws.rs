//! What the semantics imply, for every program and every state.
use crate::common::ast::{
    ExprView, FunctionView, IfView, ParamView, Span, StmtView, ValueView, WithSpan,
};
use crate::common::scope::{Frame, Scopes, assign, declare, enter, exit, lookup};
use crate::common::token::BinaryOperator;
use crate::interpreter::semantics::{
    BindingView, Flow, Limits, Machine, Outcome, apply, bind, call, entered, eval, eval_args,
    exited, leave, run_from, run_if, run_loop, run_statement, with_scopes,
};
use vstd::prelude::*;

verus! {

/// What a scope binds a name to, if it binds it.
pub open spec fn bound_in(frame: Frame<BindingView>, name: Seq<char>) -> Option<BindingView> {
    if frame.contains_key(name) {
        Some(frame[name])
    } else {
        None
    }
}

/// Whether the scope at `level` holds the name, and so shields the
/// scopes below it from assignments to the name.
pub open spec fn shield_up(scopes: Scopes<BindingView>, level: int, name: Seq<char>) -> bool {
    0 <= level < scopes.len() && scopes[level].contains_key(name)
}

/// What every step keeps: between `before` and `after` the scopes are as
/// many as they were; and if the scope at `level` held the name before, it
/// holds it after, and every scope below binds the name as it did.
pub open spec fn shielded(
    before: Scopes<BindingView>,
    after: Scopes<BindingView>,
    level: int,
    name: Seq<char>,
) -> bool {
    &&& after.len() == before.len()
    &&& shield_up(before, level, name) ==> {
        &&& after[level].contains_key(name)
        &&& forall|j: int|
            0 <= j < level ==> bound_in(#[trigger] after[j], name) == bound_in(before[j], name)
    }
}

proof fn lemma_shield_then(
    first: Scopes<BindingView>,
    second: Scopes<BindingView>,
    third: Scopes<BindingView>,
    level: int,
    name: Seq<char>,
)
    requires
        shielded(first, second, level, name),
        shielded(second, third, level, name),
    ensures
        shielded(first, third, level, name),
{
    if shield_up(first, level, name) {
        assert(shield_up(second, level, name));
        assert forall|j: int| 0 <= j < level implies bound_in(#[trigger] third[j], name)
            == bound_in(first[j], name) by {
            assert(bound_in(second[j], name) == bound_in(first[j], name));
        }
    }
}

proof fn lemma_declare_shields(
    scopes: Scopes<BindingView>,
    declared: Seq<char>,
    binding: BindingView,
    level: int,
    name: Seq<char>,
)
    ensures
        shielded(scopes, declare(scopes, declared, binding), level, name),
{
}

/// Assigning keeps the number of scopes.
proof fn lemma_assign_len(scopes: Scopes<BindingView>, assigned: Seq<char>, binding: BindingView)
    ensures
        assign(scopes, assigned, binding).len() == scopes.len(),
    decreases scopes.len(),
{
    if scopes.len() > 0 && !scopes.last().contains_key(assigned) {
        lemma_assign_len(scopes.drop_last(), assigned, binding);
    }
}

/// Assigning to one name leaves every scope's binding of another name as
/// it was.
proof fn lemma_assign_other(
    scopes: Scopes<BindingView>,
    assigned: Seq<char>,
    binding: BindingView,
    name: Seq<char>,
)
    requires
        assigned != name,
    ensures
        assign(scopes, assigned, binding).len() == scopes.len(),
        forall|j: int|
            0 <= j < scopes.len() ==> bound_in(
                #[trigger] assign(scopes, assigned, binding)[j],
                name,
            ) == bound_in(scopes[j], name),
    decreases scopes.len(),
{
    if scopes.len() > 0 && !scopes.last().contains_key(assigned) {
        lemma_assign_other(scopes.drop_last(), assigned, binding, name);
        let inner = assign(scopes.drop_last(), assigned, binding);
        let result = inner.push(scopes.last());
        assert forall|j: int| 0 <= j < scopes.len() implies bound_in(#[trigger] result[j], name)
            == bound_in(scopes[j], name) by {
            if j < scopes.len() - 1 {
                assert(result[j] == inner[j]);
                assert(scopes.drop_last()[j] == scopes[j]);
            }
        }
    }
}

proof fn lemma_assign_shields(
    scopes: Scopes<BindingView>,
    assigned: Seq<char>,
    binding: BindingView,
    level: int,
    name: Seq<char>,
)
    ensures
        shielded(scopes, assign(scopes, assigned, binding), level, name),
    decreases scopes.len(),
{
    lemma_assign_len(scopes, assigned, binding);
    if shield_up(scopes, level, name) {
        if scopes.last().contains_key(assigned) {
        } else {
            let inner = assign(scopes.drop_last(), assigned, binding);
            let result = inner.push(scopes.last());
            lemma_assign_len(scopes.drop_last(), assigned, binding);
            if level < scopes.len() - 1 {
                assert(scopes.drop_last()[level] == scopes[level]);
                lemma_assign_shields(scopes.drop_last(), assigned, binding, level, name);
                assert forall|j: int| 0 <= j < level implies bound_in(#[trigger] result[j], name)
                    == bound_in(scopes[j], name) by {
                    assert(result[j] == inner[j]);
                    assert(scopes.drop_last()[j] == scopes[j]);
                }
                assert(result[level] == inner[level]);
            } else {
                assert(assigned != name);
                lemma_assign_other(scopes.drop_last(), assigned, binding, name);
                assert forall|j: int| 0 <= j < level implies bound_in(#[trigger] result[j], name)
                    == bound_in(scopes[j], name) by {
                    assert(result[j] == inner[j]);
                    assert(scopes.drop_last()[j] == scopes[j]);
                }
            }
        }
    }
}

proof fn lemma_bind_shields(
    scopes: Scopes<BindingView>,
    params: Seq<ParamView>,
    values: Seq<ValueView>,
    i: int,
    level: int,
    name: Seq<char>,
)
    ensures
        shielded(scopes, bind(scopes, params, values, i), level, name),
    decreases params.len() - i,
{
    if 0 <= i < params.len() && i < values.len() {
        let next = declare(scopes, params[i].name, BindingView::Variable(Some(values[i])));
        lemma_declare_shields(
            scopes,
            params[i].name,
            BindingView::Variable(Some(values[i])),
            level,
            name,
        );
        lemma_bind_shields(next, params, values, i + 1, level, name);
        lemma_shield_then(scopes, next, bind(next, params, values, i + 1), level, name);
    }
}

/// What happens in a scope that is opened and closed again stays under
/// the shield.
proof fn lemma_block_shields(
    scopes: Scopes<BindingView>,
    inside: Scopes<BindingView>,
    level: int,
    name: Seq<char>,
)
    requires
        shielded(enter(scopes), inside, level, name),
    ensures
        shielded(scopes, exit(inside), level, name),
{
    if shield_up(scopes, level, name) {
        assert(enter(scopes)[level] == scopes[level]);
        assert(shield_up(enter(scopes), level, name));
        assert forall|j: int| 0 <= j < level implies bound_in(#[trigger] exit(inside)[j], name)
            == bound_in(scopes[j], name) by {
            assert(exit(inside)[j] == inside[j]);
            assert(enter(scopes)[j] == scopes[j]);
        }
        assert(exit(inside)[level] == inside[level]);
    }
}

proof fn lemma_eval_shields(
    limits: Limits,
    depth: nat,
    machine: Machine,
    e: WithSpan<ExprView>,
    level: int,
    name: Seq<char>,
)
    ensures
        shielded(machine.scopes, eval(limits, depth, machine, e).machine.scopes, level, name),
    decreases depth, 0int, e, 0int,
{
    match e.node {
        ExprView::Binary { left, operator, right } => {
            lemma_eval_shields(limits, depth, machine, *left, level, name);
            let first = eval(limits, depth, machine, *left);
            if first.result is Ok {
                lemma_eval_shields(limits, depth, first.machine, *right, level, name);
                lemma_shield_then(
                    machine.scopes,
                    first.machine.scopes,
                    eval(limits, depth, first.machine, *right).machine.scopes,
                    level,
                    name,
                );
            }
        },
        ExprView::Call { callee, args } => {
            lemma_eval_args_shields(limits, depth, machine, args, 0, Seq::empty(), level, name);
            let evaluated = eval_args(limits, depth, machine, args, 0, Seq::empty());
            match evaluated.result {
                Ok(values) => match lookup(machine.scopes, callee) {
                    Some(BindingView::Function(f)) => {
                        if values.len() == f.params.len() && depth != 0 {
                            lemma_call_shields(
                                limits,
                                (depth - 1) as nat,
                                evaluated.machine,
                                f,
                                values,
                                level,
                                name,
                            );
                            lemma_shield_then(
                                machine.scopes,
                                evaluated.machine.scopes,
                                call(
                                    limits,
                                    (depth - 1) as nat,
                                    evaluated.machine,
                                    f,
                                    values,
                                ).machine.scopes,
                                level,
                                name,
                            );
                        }
                    },
                    _ => {},
                },
                Err(_) => {},
            }
        },
        _ => {},
    }
}

proof fn lemma_eval_args_shields(
    limits: Limits,
    depth: nat,
    machine: Machine,
    args: Seq<WithSpan<ExprView>>,
    i: int,
    values: Seq<ValueView>,
    level: int,
    name: Seq<char>,
)
    ensures
        shielded(
            machine.scopes,
            eval_args(limits, depth, machine, args, i, values).machine.scopes,
            level,
            name,
        ),
    decreases depth, 0int, args, args.len() - i,
{
    if 0 <= i < args.len() {
        lemma_eval_shields(limits, depth, machine, args[i], level, name);
        let first = eval(limits, depth, machine, args[i]);
        match first.result {
            Ok(value) => {
                lemma_eval_args_shields(
                    limits,
                    depth,
                    first.machine,
                    args,
                    i + 1,
                    values.push(value),
                    level,
                    name,
                );
                lemma_shield_then(
                    machine.scopes,
                    first.machine.scopes,
                    eval_args(
                        limits,
                        depth,
                        first.machine,
                        args,
                        i + 1,
                        values.push(value),
                    ).machine.scopes,
                    level,
                    name,
                );
            },
            Err(_) => {},
        }
    }
}

proof fn lemma_call_shields(
    limits: Limits,
    depth: nat,
    machine: Machine,
    f: FunctionView,
    values: Seq<ValueView>,
    level: int,
    name: Seq<char>,
)
    ensures
        shielded(machine.scopes, call(limits, depth, machine, f, values).machine.scopes, level, name),
    decreases depth, 1int, f, 0int,
{
    let opened = enter(machine.scopes);
    lemma_bind_shields(opened, f.params, values, 0, level, name);
    let inside = with_scopes(machine, bind(opened, f.params, values, 0));
    lemma_from_shields(limits, depth, inside, f.body, 0, level, name);
    let body = run_from(limits, depth, inside, f.body, 0);
    lemma_shield_then(opened, inside.scopes, body.machine.scopes, level, name);
    lemma_block_shields(machine.scopes, body.machine.scopes, level, name);
}

proof fn lemma_statement_shields(
    limits: Limits,
    depth: nat,
    machine: Machine,
    s: WithSpan<StmtView>,
    level: int,
    name: Seq<char>,
)
    ensures
        shielded(
            machine.scopes,
            run_statement(limits, depth, machine, s).machine.scopes,
            level,
            name,
        ),
    decreases depth, 1int, s, 0int,
{
    match s.node {
        StmtView::Function(f) => {
            lemma_declare_shields(machine.scopes, f.name, BindingView::Function(f), level, name);
        },
        StmtView::VarDecl { name: declared, type_, value } => {
            let first = declare(machine.scopes, declared, BindingView::Variable(None));
            lemma_declare_shields(
                machine.scopes,
                declared,
                BindingView::Variable(None),
                level,
                name,
            );
            lemma_eval_shields(limits, depth, with_scopes(machine, first), value, level, name);
            let initial = eval(limits, depth, with_scopes(machine, first), value);
            lemma_shield_then(machine.scopes, first, initial.machine.scopes, level, name);
            match initial.result {
                Ok(initial_value) => {
                    lemma_declare_shields(
                        initial.machine.scopes,
                        declared,
                        BindingView::Variable(Some(initial_value)),
                        level,
                        name,
                    );
                    lemma_shield_then(
                        machine.scopes,
                        initial.machine.scopes,
                        declare(
                            initial.machine.scopes,
                            declared,
                            BindingView::Variable(Some(initial_value)),
                        ),
                        level,
                        name,
                    );
                },
                Err(_) => {},
            }
        },
        StmtView::VarAssignment { name: assigned, value } => {
            lemma_eval_shields(limits, depth, machine, value, level, name);
            let evaluated = eval(limits, depth, machine, value);
            match evaluated.result {
                Ok(new_value) => {
                    lemma_assign_shields(
                        evaluated.machine.scopes,
                        assigned,
                        BindingView::Variable(Some(new_value)),
                        level,
                        name,
                    );
                    lemma_shield_then(
                        machine.scopes,
                        evaluated.machine.scopes,
                        assign(
                            evaluated.machine.scopes,
                            assigned,
                            BindingView::Variable(Some(new_value)),
                        ),
                        level,
                        name,
                    );
                },
                Err(_) => {},
            }
        },
        StmtView::If(conditional) => {
            lemma_if_shields(limits, depth, machine, conditional, level, name);
        },
        StmtView::Loop { condition, body } => {
            lemma_loop_shields(
                limits,
                depth,
                machine,
                s.node,
                limits.max_iterations as nat,
                level,
                name,
            );
        },
        StmtView::Return { value } => {
            match value {
                Some(value) => {
                    lemma_eval_shields(limits, depth, machine, value, level, name);
                },
                None => {},
            }
        },
        StmtView::Expr(e) => {
            lemma_eval_shields(
                limits,
                depth,
                machine,
                WithSpan { node: e, span: s.span },
                level,
                name,
            );
        },
    }
}

proof fn lemma_if_shields(
    limits: Limits,
    depth: nat,
    machine: Machine,
    conditional: IfView,
    level: int,
    name: Seq<char>,
)
    ensures
        shielded(
            machine.scopes,
            run_if(limits, depth, machine, conditional).machine.scopes,
            level,
            name,
        ),
    decreases depth, 1int, conditional, 0int,
{
    let opened = entered(machine);
    lemma_eval_shields(limits, depth, opened, conditional.condition, level, name);
    let tested = eval(limits, depth, opened, conditional.condition);
    lemma_block_shields(machine.scopes, tested.machine.scopes, level, name);
    match tested.result {
        Ok(ValueView::Bool(true)) => {
            lemma_from_shields(limits, depth, tested.machine, conditional.then_body, 0, level, name);
            let block = run_from(limits, depth, tested.machine, conditional.then_body, 0);
            lemma_shield_then(
                opened.scopes,
                tested.machine.scopes,
                block.machine.scopes,
                level,
                name,
            );
            lemma_block_shields(machine.scopes, block.machine.scopes, level, name);
        },
        Ok(ValueView::Bool(false)) => {
            match conditional.else_body {
                Some(next) => {
                    lemma_statement_shields(
                        limits,
                        depth,
                        exited(tested.machine),
                        *next,
                        level,
                        name,
                    );
                    lemma_shield_then(
                        machine.scopes,
                        exited(tested.machine).scopes,
                        run_statement(
                            limits,
                            depth,
                            exited(tested.machine),
                            *next,
                        ).machine.scopes,
                        level,
                        name,
                    );
                },
                None => {},
            }
        },
        _ => {},
    }
}

proof fn lemma_loop_shields(
    limits: Limits,
    depth: nat,
    machine: Machine,
    node: StmtView,
    iterations: nat,
    level: int,
    name: Seq<char>,
)
    ensures
        shielded(
            machine.scopes,
            run_loop(limits, depth, machine, node, iterations).machine.scopes,
            level,
            name,
        ),
    decreases depth, 1int, node, iterations,
{
    match node {
        StmtView::Loop { condition, body } => {
            let opened = entered(machine);
            lemma_eval_shields(limits, depth, opened, condition, level, name);
            let tested = eval(limits, depth, opened, condition);
            lemma_block_shields(machine.scopes, tested.machine.scopes, level, name);
            match tested.result {
                Ok(ValueView::Bool(true)) => {
                    if iterations != 0 {
                        lemma_from_shields(limits, depth, tested.machine, body, 0, level, name);
                        let block = run_from(limits, depth, tested.machine, body, 0);
                        lemma_shield_then(
                            opened.scopes,
                            tested.machine.scopes,
                            block.machine.scopes,
                            level,
                            name,
                        );
                        lemma_block_shields(machine.scopes, block.machine.scopes, level, name);
                        let round = leave(block);
                        match round.result {
                            Ok(Flow::Normal) => {
                                lemma_loop_shields(
                                    limits,
                                    depth,
                                    round.machine,
                                    node,
                                    (iterations - 1) as nat,
                                    level,
                                    name,
                                );
                                lemma_shield_then(
                                    machine.scopes,
                                    round.machine.scopes,
                                    run_loop(
                                        limits,
                                        depth,
                                        round.machine,
                                        node,
                                        (iterations - 1) as nat,
                                    ).machine.scopes,
                                    level,
                                    name,
                                );
                            },
                            _ => {},
                        }
                    }
                },
                _ => {},
            }
        },
        _ => {},
    }
}

proof fn lemma_from_shields(
    limits: Limits,
    depth: nat,
    machine: Machine,
    body: Seq<WithSpan<StmtView>>,
    i: int,
    level: int,
    name: Seq<char>,
)
    ensures
        shielded(
            machine.scopes,
            run_from(limits, depth, machine, body, i).machine.scopes,
            level,
            name,
        ),
    decreases depth, 1int, body, body.len() - i,
{
    if 0 <= i < body.len() {
        lemma_statement_shields(limits, depth, machine, body[i], level, name);
        let first = run_statement(limits, depth, machine, body[i]);
        match first.result {
            Ok(Flow::Normal) => {
                lemma_from_shields(limits, depth, first.machine, body, i + 1, level, name);
                lemma_shield_then(
                    machine.scopes,
                    first.machine.scopes,
                    run_from(limits, depth, first.machine, body, i + 1).machine.scopes,
                    level,
                    name,
                );
            },
            _ => {},
        }
    }
}

/// The value of an operator between two operands is the operator applied
/// to the values of the operands, the left one evaluated before the right
/// one: evaluation follows the tree that the parser has built, and so the
/// precedence and the grouping of the operators.
pub proof fn law_operator_value(
    limits: Limits,
    depth: nat,
    machine: Machine,
    left: WithSpan<ExprView>,
    operator: BinaryOperator,
    right: WithSpan<ExprView>,
    span: Span,
)
    ensures
        ({
            let whole = WithSpan {
                node: ExprView::Binary { left: Box::new(left), operator, right: Box::new(right) },
                span,
            };
            let first = eval(limits, depth, machine, left);
            let second = eval(limits, depth, first.machine, right);
            first.result is Ok && second.result is Ok ==> eval(limits, depth, machine, whole)
                == (Outcome {
                machine: second.machine,
                result: apply(
                    operator,
                    WithSpan { node: first.result->Ok_0, span: left.span },
                    WithSpan { node: second.result->Ok_0, span: right.span },
                    span,
                ),
            })
        }),
{
}

/// Every statement leaves as many scopes open as it found: a block's
/// scope is closed however the block ends, also when it returns or fails.
pub proof fn law_scopes_balanced(limits: Limits, depth: nat, machine: Machine, s: WithSpan<StmtView>)
    ensures
        run_statement(limits, depth, machine, s).machine.scopes.len() == machine.scopes.len(),
{
    lemma_statement_shields(limits, depth, machine, s, 0, Seq::empty());
}

/// Scopes that are as many and bind a name alike, scope by scope, resolve
/// the name alike.
proof fn lemma_lookup_alike(
    first: Scopes<BindingView>,
    second: Scopes<BindingView>,
    name: Seq<char>,
)
    requires
        first.len() == second.len(),
        forall|j: int| 0 <= j < first.len() ==> bound_in(#[trigger] first[j], name) == bound_in(second[j], name),
    ensures
        lookup(first, name) == lookup(second, name),
    decreases first.len(),
{
    if first.len() > 0 {
        assert(bound_in(first[first.len() - 1], name) == bound_in(second[first.len() - 1], name));
        assert forall|j: int| 0 <= j < first.drop_last().len() implies bound_in(
            #[trigger] first.drop_last()[j],
            name,
        ) == bound_in(second.drop_last()[j], name) by {
            assert(bound_in(first[j], name) == bound_in(second[j], name));
        }
        lemma_lookup_alike(first.drop_last(), second.drop_last(), name);
    }
}

/// From a declaration of a name on, nothing that a block does changes what
/// the name is bound to outside the block.
///
/// Let the `i`-th statement of a block declare a variable, and let the
/// block run from that statement on, to its end or until it returns or
/// fails. Then every scope but the innermost, which is the block's own,
/// binds the variable's name as it did before: assignments to the name,
/// in the block, in blocks within it and in functions called from it,
/// reach the inner variable.
pub proof fn law_declaration_shields_outer(
    limits: Limits,
    depth: nat,
    machine: Machine,
    body: Seq<WithSpan<StmtView>>,
    i: int,
)
    requires
        0 <= i < body.len(),
        body[i].node is VarDecl,
        machine.scopes.len() > 0,
    ensures
        ({
            let name = body[i].node->VarDecl_name;
            let after = run_from(limits, depth, machine, body, i).machine.scopes;
            &&& after.len() == machine.scopes.len()
            &&& forall|j: int|
                0 <= j < machine.scopes.len() - 1 ==> bound_in(#[trigger] after[j], name)
                    == bound_in(machine.scopes[j], name)
        }),
{
    let name = body[i].node->VarDecl_name;
    let value = body[i].node->VarDecl_value;
    let level = machine.scopes.len() - 1;
    let declared = declare(machine.scopes, name, BindingView::Variable(None));
    assert(shield_up(declared, level, name));
    lemma_eval_shields(limits, depth, with_scopes(machine, declared), value, level, name);
    let initial = eval(limits, depth, with_scopes(machine, declared), value);
    let first = run_statement(limits, depth, machine, body[i]);
    match initial.result {
        Ok(initial_value) => {
            lemma_declare_shields(
                initial.machine.scopes,
                name,
                BindingView::Variable(Some(initial_value)),
                level,
                name,
            );
            lemma_shield_then(declared, initial.machine.scopes, first.machine.scopes, level, name);
            lemma_from_shields(limits, depth, first.machine, body, i + 1, level, name);
            let after = run_from(limits, depth, first.machine, body, i + 1).machine.scopes;
            lemma_shield_then(declared, first.machine.scopes, after, level, name);
            assert forall|j: int| 0 <= j < level implies bound_in(#[trigger] after[j], name)
                == bound_in(machine.scopes[j], name) by {
                assert(declared[j] == machine.scopes[j]);
            }
        },
        Err(_) => {
            assert forall|j: int| 0 <= j < level implies bound_in(
                #[trigger] first.machine.scopes[j],
                name,
            ) == bound_in(machine.scopes[j], name) by {
                assert(declared[j] == machine.scopes[j]);
            }
        },
    }
}

/// A variable declared at the head of a block shadows the same name
/// outside the block, and only while the block runs.
///
/// Let a block, as an `if` or a loop runs it, begin with the declaration
/// of a variable. Inside the block, once the declaration has been run, the
/// name resolves to the inner variable. When the block has ended, however
/// it ended, the name resolves as it did before the block was entered: to
/// the outer variable and the value that it had.
pub proof fn law_block_shadowing(
    limits: Limits,
    depth: nat,
    machine: Machine,
    body: Seq<WithSpan<StmtView>>,
)
    requires
        body.len() > 0,
        body[0].node is VarDecl,
    ensures
        ({
            let name = body[0].node->VarDecl_name;
            let declared = run_statement(limits, depth, entered(machine), body[0]);
            let block = leave(run_from(limits, depth, entered(machine), body, 0));
            &&& declared.result is Ok ==> lookup(declared.machine.scopes, name) is Some && lookup(
                declared.machine.scopes,
                name,
            )->Some_0 is Variable && lookup(declared.machine.scopes, name)->Some_0->Variable_0
                is Some
            &&& block.machine.scopes.len() == machine.scopes.len()
            &&& lookup(block.machine.scopes, name) == lookup(machine.scopes, name)
        }),
{
    let name = body[0].node->VarDecl_name;
    let opened = entered(machine);
    law_declaration_shields_outer(limits, depth, opened, body, 0);
    let inside = run_from(limits, depth, opened, body, 0).machine.scopes;
    let after = exit(inside);
    assert forall|j: int| 0 <= j < after.len() implies bound_in(#[trigger] after[j], name)
        == bound_in(machine.scopes[j], name) by {
        assert(after[j] == inside[j]);
        assert(opened.scopes[j] == machine.scopes[j]);
    }
    lemma_lookup_alike(after, machine.scopes, name);
    let value = body[0].node->VarDecl_value;
    let first = declare(opened.scopes, name, BindingView::Variable(None));
    lemma_eval_shields(limits, depth, with_scopes(opened, first), value, 0, name);
}

} // verus!
