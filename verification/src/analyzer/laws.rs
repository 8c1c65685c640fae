//! What the rules imply, for every program.
use crate::analyzer::rules::{
    Scopes, SymbolView, bind_params, check_body, check_body_from, check_guarded, check_if,
    check_program, check_statement, expr_type, function, return_name, variable, with_built_ins,
};
use crate::common::ast::{Diagnostic, ExprView, IfView, ParamView, StmtView, Type, WithSpan};
use crate::common::scope::{declare, declared_here, enter, exit, lookup};
use vstd::prelude::*;

verus! {

/// The declaration that a statement makes in the scope that it stands in:
/// the name and its meaning.
pub open spec fn declaration(s: StmtView) -> Option<(Seq<char>, SymbolView)> {
    match s {
        StmtView::VarDecl { name, type_, value } => Some((name, variable(type_))),
        StmtView::Function(f) => Some((f.name, function(f.type_, f.params))),
        _ => None,
    }
}

/// The scopes after a statement that was accepted: the scopes before it,
/// with the statement's own declaration.
pub open spec fn after(scopes: Scopes, s: StmtView) -> Scopes {
    match declaration(s) {
        Some((name, symbol)) => declare(scopes, name, symbol),
        None => scopes,
    }
}

/// Whether `later` has as many scopes as `earlier`, the same ones but for
/// the innermost, and in the innermost at least the names of `earlier`.
pub open spec fn extends(earlier: Scopes, later: Scopes) -> bool {
    &&& later.len() == earlier.len()
    &&& later.len() > 0
    &&& later.drop_last() == earlier.drop_last()
    &&& forall|name: Seq<char>| #[trigger]
        earlier.last().contains_key(name) ==> later.last().contains_key(name)
}

proof fn lemma_declare_extends(scopes: Scopes, name: Seq<char>, symbol: SymbolView)
    requires
        scopes.len() > 0,
    ensures
        extends(scopes, declare(scopes, name, symbol)),
        declare(scopes, name, symbol).last() == scopes.last().insert(name, symbol),
{
    assert(declare(scopes, name, symbol).drop_last() =~= scopes.drop_last());
}

proof fn lemma_bind_params_extends(scopes: Scopes, params: Seq<ParamView>, i: int)
    requires
        scopes.len() > 0,
    ensures
        extends(scopes, bind_params(scopes, params, i)),
    decreases params.len() - i,
{
    if 0 <= i < params.len() {
        let next = declare(scopes, params[i].name, variable(params[i].type_));
        lemma_declare_extends(scopes, params[i].name, variable(params[i].type_));
        lemma_bind_params_extends(next, params, i + 1);
    }
}

proof fn lemma_exit_enter(scopes: Scopes, inner: Scopes)
    requires
        extends(enter(scopes), inner),
    ensures
        exit(inner) == scopes,
{
    assert(enter(scopes).drop_last() =~= scopes);
}

/// A condition and its block, once accepted, leave the scopes as they
/// were.
proof fn lemma_guarded_restores(
    scopes: Scopes,
    condition: WithSpan<ExprView>,
    body: Seq<WithSpan<StmtView>>,
    message: spec_fn(Type) -> Seq<char>,
)
    requires
        scopes.len() > 0,
    ensures
        check_guarded(scopes, condition, body, message).result is Ok ==> check_guarded(
            scopes,
            condition,
            body,
            message,
        ).scopes == scopes,
    decreases body, body.len() + 1,
{
    let inner = enter(scopes);
    match expr_type(inner, condition) {
        Ok(type_) => {
            if type_ == Type::Bool {
                lemma_body_extends(inner, body, 0, false);
                let block = check_body_from(inner, body, 0, false);
                if block.result is Ok {
                    lemma_exit_enter(scopes, block.scopes);
                }
            }
        },
        Err(_) => {},
    }
}

/// An accepted statement leaves the scopes as they were, but for its own
/// declaration.
pub proof fn lemma_statement_declares(scopes: Scopes, s: WithSpan<StmtView>)
    requires
        scopes.len() > 0,
    ensures
        check_statement(scopes, s).result is Ok ==> check_statement(scopes, s).scopes == after(
            scopes,
            s.node,
        ),
    decreases s, 0int,
{
    match s.node {
        StmtView::If(conditional) => {
            lemma_if_restores(scopes, conditional);
        },
        StmtView::Loop { condition, body } => {
            lemma_guarded_restores(
                scopes,
                condition,
                body,
                |t: Type| crate::analyzer::rules::loop_condition_message(t),
            );
        },
        StmtView::Function(f) => {
            let outer = declare(scopes, f.name, function(f.type_, f.params));
            lemma_declare_extends(scopes, f.name, function(f.type_, f.params));
            let bound = bind_params(enter(outer), f.params, 0);
            lemma_bind_params_extends(enter(outer), f.params, 0);
            let inner = declare(bound, return_name(), variable(f.type_));
            lemma_declare_extends(bound, return_name(), variable(f.type_));
            lemma_body_extends(inner, f.body, 0, false);
            let block = check_body_from(inner, f.body, 0, false);
            if block.result is Ok {
                assert(extends(enter(outer), block.scopes));
                lemma_exit_enter(outer, block.scopes);
            }
        },
        _ => {},
    }
}

proof fn lemma_if_restores(scopes: Scopes, conditional: IfView)
    requires
        scopes.len() > 0,
    ensures
        check_if(scopes, conditional).result is Ok ==> check_if(scopes, conditional).scopes
            == scopes,
    decreases conditional, 0int,
{
    lemma_guarded_restores(
        scopes,
        conditional.condition,
        conditional.then_body,
        |t: Type| crate::analyzer::rules::if_condition_message(t),
    );
    let first = check_guarded(
        scopes,
        conditional.condition,
        conditional.then_body,
        |t: Type| crate::analyzer::rules::if_condition_message(t),
    );
    if first.result is Ok {
        match conditional.else_body {
            Some(next) => {
                lemma_statement_declares(enter(scopes), *next);
                let rest = check_statement(enter(scopes), *next);
                if rest.result is Ok {
                    match declaration(next.node) {
                        Some((name, symbol)) => {
                            lemma_declare_extends(enter(scopes), name, symbol);
                        },
                        None => {},
                    }
                    assert(enter(scopes).drop_last() =~= scopes);
                    assert(extends(enter(scopes), rest.scopes));
                    lemma_exit_enter(scopes, rest.scopes);
                }
            },
            None => {},
        }
    }
}

/// An accepted block leaves the scopes as they were, but for the
/// declarations that it added to the innermost.
pub proof fn lemma_body_extends(
    scopes: Scopes,
    body: Seq<WithSpan<StmtView>>,
    i: int,
    returned: bool,
)
    requires
        scopes.len() > 0,
    ensures
        check_body_from(scopes, body, i, returned).result is Ok ==> extends(
            scopes,
            check_body_from(scopes, body, i, returned).scopes,
        ),
    decreases body, body.len() - i,
{
    if 0 <= i < body.len() {
        lemma_statement_declares(scopes, body[i]);
        let first = check_statement(scopes, body[i]);
        match first.result {
            Ok(was_return) => {
                match declaration(body[i].node) {
                    Some((name, symbol)) => {
                        lemma_declare_extends(scopes, name, symbol);
                    },
                    None => {},
                }
                lemma_body_extends(first.scopes, body, i + 1, returned || was_return);
            },
            Err(_) => {},
        }
    }
}

/// Whether one of the statements from the `i`-th on is a `return`.
pub open spec fn returns_from(body: Seq<WithSpan<StmtView>>, i: int) -> bool {
    exists|j: int| i <= j < body.len() && j >= 0 && (#[trigger] body[j]).node is Return
}

/// Only a `return` is reported as one.
proof fn lemma_only_return_reports(scopes: Scopes, s: WithSpan<StmtView>)
    ensures
        check_statement(scopes, s).result == Ok::<bool, Diagnostic>(true) ==> s.node is Return,
{
    match s.node {
        StmtView::If(conditional) => {
            let message = |t: Type| crate::analyzer::rules::if_condition_message(t);
            let first = check_guarded(
                scopes,
                conditional.condition,
                conditional.then_body,
                message,
            );
            assert(first.result != Ok::<bool, Diagnostic>(true));
            assert(check_if(scopes, conditional).result != Ok::<bool, Diagnostic>(true));
        },
        StmtView::Loop { condition, body } => {
            let message = |t: Type| crate::analyzer::rules::loop_condition_message(t);
            assert(check_guarded(scopes, condition, body, message).result != Ok::<
                bool,
                Diagnostic,
            >(true));
        },
        _ => {},
    }
}

/// A block reports a `return` only if one stands among its statements.
proof fn lemma_reported_return(
    scopes: Scopes,
    body: Seq<WithSpan<StmtView>>,
    i: int,
    returned: bool,
)
    ensures
        check_body_from(scopes, body, i, returned).result == Ok::<bool, Diagnostic>(true)
            ==> returned || returns_from(body, i),
    decreases body, body.len() - i,
{
    if 0 <= i < body.len() {
        let first = check_statement(scopes, body[i]);
        match first.result {
            Ok(was_return) => {
                lemma_reported_return(first.scopes, body, i + 1, returned || was_return);
                if was_return {
                    lemma_only_return_reports(scopes, body[i]);
                    assert(body[i].node is Return);
                }
                if returns_from(body, i + 1) {
                    let j = choose|j: int|
                        i + 1 <= j < body.len() && j >= 0 && (#[trigger] body[j]).node is Return;
                    assert(i <= j < body.len() && body[j].node is Return);
                }
            },
            Err(_) => {},
        }
    }
}

/// A function that is not `void` and has no `return` among the statements
/// of its body is rejected, wherever it is declared.
pub proof fn law_missing_return(scopes: Scopes, s: WithSpan<StmtView>)
    requires
        s.node is Function,
        s.node->Function_0.type_ != Type::Void,
        !returns_from(s.node->Function_0.body, 0),
    ensures
        check_statement(scopes, s).result is Err,
{
    let f = s.node->Function_0;
    let outer = declare(scopes, f.name, function(f.type_, f.params));
    let inner = declare(bind_params(enter(outer), f.params, 0), return_name(), variable(f.type_));
    lemma_reported_return(inner, f.body, 0, false);
}

/// Whether the expression has a type other than `void` wherever it has a
/// type.
pub open spec fn never_void(e: WithSpan<ExprView>) -> bool {
    forall|scopes: Scopes| #[trigger] expr_type(scopes, e) != Ok::<Type, Diagnostic>(Type::Void)
}

/// Whether the statement declares the name under which a function's
/// return type is bound.
pub open spec fn redeclares_return(s: StmtView) -> bool {
    match declaration(s) {
        Some((name, _)) => name == return_name(),
        None => false,
    }
}

/// Whether the statement is, or holds in its blocks, a `return` with a
/// value that is never `void`, reached without passing a declaration of
/// the name `return` and without entering another function.
pub open spec fn returns_value(s: WithSpan<StmtView>) -> bool
    decreases s, 0int,
{
    match s.node {
        StmtView::Return { value } => value is Some && never_void(value->Some_0),
        StmtView::If(conditional) => if_returns_value(conditional),
        StmtView::Loop { condition, body } => body_returns_value(body, 0),
        _ => false,
    }
}

/// Whether one of the blocks of the conditional returns a value as
/// [`returns_value`] says.
pub open spec fn if_returns_value(conditional: IfView) -> bool
    decreases conditional, 0int,
{
    body_returns_value(conditional.then_body, 0) || match conditional.else_body {
        Some(next) => returns_value(*next),
        None => false,
    }
}

/// Whether one of the statements from the `i`-th on returns a value as
/// [`returns_value`] says, with no declaration of the name `return` among
/// the statements from the `i`-th up to it.
pub open spec fn body_returns_value(body: Seq<WithSpan<StmtView>>, i: int) -> bool
    decreases body, body.len() - i,
{
    if 0 <= i < body.len() {
        returns_value(body[i]) || (!redeclares_return(body[i].node) && body_returns_value(
            body,
            i + 1,
        ))
    } else {
        false
    }
}

/// Whether `return` stands for the return type `void`.
pub open spec fn in_void_function(scopes: Scopes) -> bool {
    lookup(scopes, return_name()) is Some && lookup(scopes, return_name())->Some_0.type_
        == Type::Void
}

proof fn lemma_enter_keeps_void(scopes: Scopes)
    requires
        in_void_function(scopes),
    ensures
        in_void_function(enter(scopes)),
        enter(scopes).len() > 0,
{
    assert(enter(scopes).drop_last() =~= scopes);
}

proof fn lemma_declare_keeps_void(scopes: Scopes, name: Seq<char>, symbol: SymbolView)
    requires
        in_void_function(scopes),
        name != return_name(),
    ensures
        in_void_function(declare(scopes, name, symbol)),
{
    if scopes.len() > 0 {
        assert(declare(scopes, name, symbol).drop_last() =~= scopes.drop_last());
    }
}

proof fn lemma_guarded_rejects_value(
    scopes: Scopes,
    condition: WithSpan<ExprView>,
    body: Seq<WithSpan<StmtView>>,
    message: spec_fn(Type) -> Seq<char>,
)
    requires
        in_void_function(scopes),
        body_returns_value(body, 0),
    ensures
        check_guarded(scopes, condition, body, message).result is Err,
    decreases body, body.len() + 1,
{
    lemma_enter_keeps_void(scopes);
    lemma_body_rejects_value(enter(scopes), body, 0, false);
}

/// In a function of type `void`, a statement that returns a value is
/// rejected.
proof fn lemma_statement_rejects_value(scopes: Scopes, s: WithSpan<StmtView>)
    requires
        in_void_function(scopes),
        returns_value(s),
    ensures
        check_statement(scopes, s).result is Err,
    decreases s, 0int,
{
    match s.node {
        StmtView::Return { value } => {
            assert(expr_type(scopes, value->Some_0) != Ok::<Type, Diagnostic>(Type::Void));
        },
        StmtView::If(conditional) => {
            lemma_if_rejects_value(scopes, conditional);
        },
        StmtView::Loop { condition, body } => {
            lemma_guarded_rejects_value(
                scopes,
                condition,
                body,
                |t: Type| crate::analyzer::rules::loop_condition_message(t),
            );
        },
        _ => {},
    }
}

proof fn lemma_if_rejects_value(scopes: Scopes, conditional: IfView)
    requires
        in_void_function(scopes),
        if_returns_value(conditional),
    ensures
        check_if(scopes, conditional).result is Err,
    decreases conditional, 0int,
{
    let message = |t: Type| crate::analyzer::rules::if_condition_message(t);
    if body_returns_value(conditional.then_body, 0) {
        lemma_guarded_rejects_value(
            scopes,
            conditional.condition,
            conditional.then_body,
            message,
        );
    } else {
        let first = check_guarded(scopes, conditional.condition, conditional.then_body, message);
        if first.result is Ok {
            assert(scopes.len() > 0);
            lemma_guarded_restores(
                scopes,
                conditional.condition,
                conditional.then_body,
                message,
            );
            lemma_enter_keeps_void(scopes);
            lemma_statement_rejects_value(enter(scopes), *conditional.else_body->Some_0);
        }
    }
}

proof fn lemma_body_rejects_value(
    scopes: Scopes,
    body: Seq<WithSpan<StmtView>>,
    i: int,
    returned: bool,
)
    requires
        in_void_function(scopes),
        scopes.len() > 0,
        body_returns_value(body, i),
    ensures
        check_body_from(scopes, body, i, returned).result is Err,
    decreases body, body.len() - i,
{
    if 0 <= i < body.len() {
        if returns_value(body[i]) {
            lemma_statement_rejects_value(scopes, body[i]);
        } else {
            let first = check_statement(scopes, body[i]);
            match first.result {
                Ok(was_return) => {
                    lemma_statement_declares(scopes, body[i]);
                    match declaration(body[i].node) {
                        Some((name, symbol)) => {
                            lemma_declare_keeps_void(scopes, name, symbol);
                            lemma_declare_extends(scopes, name, symbol);
                        },
                        None => {},
                    }
                    lemma_body_rejects_value(first.scopes, body, i + 1, returned || was_return);
                },
                Err(_) => {},
            }
        }
    }
}

/// A function of type `void` whose body returns a value is rejected,
/// wherever it is declared. The value must be one that is never `void`,
/// and no declaration of the name `return` may stand between the head of
/// the function and the `return`: see [`returns_value`].
pub proof fn law_void_function_returns_value(scopes: Scopes, s: WithSpan<StmtView>)
    requires
        scopes.len() > 0,
        s.node is Function,
        s.node->Function_0.type_ == Type::Void,
        body_returns_value(s.node->Function_0.body, 0),
    ensures
        check_statement(scopes, s).result is Err,
{
    let f = s.node->Function_0;
    let outer = declare(scopes, f.name, function(f.type_, f.params));
    let bound = bind_params(enter(outer), f.params, 0);
    lemma_bind_params_extends(enter(outer), f.params, 0);
    let inner = declare(bound, return_name(), variable(f.type_));
    lemma_declare_extends(bound, return_name(), variable(f.type_));
    assert(inner.last().contains_key(return_name()));
    lemma_body_rejects_value(inner, f.body, 0, false);
}

/// A block that declares one variable name twice among its statements is
/// rejected.
pub proof fn law_duplicate_declaration(
    scopes: Scopes,
    body: Seq<WithSpan<StmtView>>,
    first: int,
    second: int,
)
    requires
        scopes.len() > 0,
        0 <= first < second < body.len(),
        body[first].node is VarDecl,
        body[second].node is VarDecl,
        body[first].node->VarDecl_name == body[second].node->VarDecl_name,
    ensures
        check_body(scopes, body).result is Err,
{
    lemma_duplicate_from(scopes, body, first, second, 0, false);
}

proof fn lemma_duplicate_from(
    scopes: Scopes,
    body: Seq<WithSpan<StmtView>>,
    first: int,
    second: int,
    i: int,
    returned: bool,
)
    requires
        scopes.len() > 0,
        0 <= first < second < body.len(),
        body[first].node is VarDecl,
        body[second].node is VarDecl,
        body[first].node->VarDecl_name == body[second].node->VarDecl_name,
        0 <= i <= second,
        i > first ==> declared_here(scopes, body[first].node->VarDecl_name),
    ensures
        check_body_from(scopes, body, i, returned).result is Err,
    decreases body.len() - i,
{
    let name = body[first].node->VarDecl_name;
    let step = check_statement(scopes, body[i]);
    if i < second {
        match step.result {
            Ok(was_return) => {
                lemma_statement_declares(scopes, body[i]);
                match declaration(body[i].node) {
                    Some((declared, symbol)) => {
                        lemma_declare_extends(scopes, declared, symbol);
                    },
                    None => {},
                }
                lemma_duplicate_from(
                    step.scopes,
                    body,
                    first,
                    second,
                    i + 1,
                    returned || was_return,
                );
            },
            Err(_) => {},
        }
    }
}

/// Whether `target` is the statement `s` or stands in one of its blocks.
pub open spec fn holds(s: WithSpan<StmtView>, target: WithSpan<StmtView>) -> bool
    decreases s, 0int,
{
    s == target || match s.node {
        StmtView::If(conditional) => if_holds(conditional, target),
        StmtView::Loop { condition, body } => body_holds(body, 0, target),
        StmtView::Function(f) => body_holds(f.body, 0, target),
        _ => false,
    }
}

/// Whether `target` stands in one of the blocks of the conditional.
pub open spec fn if_holds(conditional: IfView, target: WithSpan<StmtView>) -> bool
    decreases conditional, 0int,
{
    body_holds(conditional.then_body, 0, target) || match conditional.else_body {
        Some(next) => holds(*next, target),
        None => false,
    }
}

/// Whether `target` stands in the block, at or after its `i`-th statement.
pub open spec fn body_holds(body: Seq<WithSpan<StmtView>>, i: int, target: WithSpan<StmtView>) -> bool
    decreases body, body.len() - i,
{
    if 0 <= i < body.len() {
        holds(body[i], target) || body_holds(body, i + 1, target)
    } else {
        false
    }
}

/// Whether the statement is rejected wherever it stands.
pub open spec fn always_rejected(target: WithSpan<StmtView>) -> bool {
    forall|scopes: Scopes|
        scopes.len() > 0 ==> (#[trigger] check_statement(scopes, target)).result is Err
}

proof fn lemma_guarded_rejects(
    scopes: Scopes,
    condition: WithSpan<ExprView>,
    body: Seq<WithSpan<StmtView>>,
    message: spec_fn(Type) -> Seq<char>,
    target: WithSpan<StmtView>,
)
    requires
        scopes.len() > 0,
        always_rejected(target),
        body_holds(body, 0, target),
    ensures
        check_guarded(scopes, condition, body, message).result is Err,
    decreases body, body.len() + 1,
{
    lemma_body_rejects(enter(scopes), body, 0, false, target);
}

proof fn lemma_statement_rejects(scopes: Scopes, s: WithSpan<StmtView>, target: WithSpan<StmtView>)
    requires
        scopes.len() > 0,
        always_rejected(target),
        holds(s, target),
    ensures
        check_statement(scopes, s).result is Err,
    decreases s, 0int,
{
    if s != target {
        match s.node {
            StmtView::If(conditional) => {
                lemma_if_rejects(scopes, conditional, target);
            },
            StmtView::Loop { condition, body } => {
                lemma_guarded_rejects(
                    scopes,
                    condition,
                    body,
                    |t: Type| crate::analyzer::rules::loop_condition_message(t),
                    target,
                );
            },
            StmtView::Function(f) => {
                let outer = declare(scopes, f.name, function(f.type_, f.params));
                lemma_declare_extends(scopes, f.name, function(f.type_, f.params));
                let bound = bind_params(enter(outer), f.params, 0);
                lemma_bind_params_extends(enter(outer), f.params, 0);
                let inner = declare(bound, return_name(), variable(f.type_));
                lemma_declare_extends(bound, return_name(), variable(f.type_));
                lemma_body_rejects(inner, f.body, 0, false, target);
            },
            _ => {},
        }
    }
}

proof fn lemma_if_rejects(scopes: Scopes, conditional: IfView, target: WithSpan<StmtView>)
    requires
        scopes.len() > 0,
        always_rejected(target),
        if_holds(conditional, target),
    ensures
        check_if(scopes, conditional).result is Err,
    decreases conditional, 0int,
{
    let message = |t: Type| crate::analyzer::rules::if_condition_message(t);
    if body_holds(conditional.then_body, 0, target) {
        lemma_guarded_rejects(
            scopes,
            conditional.condition,
            conditional.then_body,
            message,
            target,
        );
    } else {
        let first = check_guarded(scopes, conditional.condition, conditional.then_body, message);
        if first.result is Ok {
            lemma_guarded_restores(
                scopes,
                conditional.condition,
                conditional.then_body,
                message,
            );
            lemma_statement_rejects(enter(scopes), *conditional.else_body->Some_0, target);
        }
    }
}

proof fn lemma_body_rejects(
    scopes: Scopes,
    body: Seq<WithSpan<StmtView>>,
    i: int,
    returned: bool,
    target: WithSpan<StmtView>,
)
    requires
        scopes.len() > 0,
        always_rejected(target),
        body_holds(body, i, target),
    ensures
        check_body_from(scopes, body, i, returned).result is Err,
    decreases body, body.len() - i,
{
    if 0 <= i < body.len() {
        if holds(body[i], target) {
            lemma_statement_rejects(scopes, body[i], target);
        } else {
            let first = check_statement(scopes, body[i]);
            match first.result {
                Ok(was_return) => {
                    lemma_statement_declares(scopes, body[i]);
                    match declaration(body[i].node) {
                        Some((name, symbol)) => {
                            lemma_declare_extends(scopes, name, symbol);
                        },
                        None => {},
                    }
                    lemma_body_rejects(first.scopes, body, i + 1, returned || was_return, target);
                },
                Err(_) => {},
            }
        }
    }
}

/// The analysis finds every violation: a program that holds, anywhere in
/// it, a statement that is rejected wherever it stands, is rejected.
pub proof fn law_rejection_reaches_the_program(
    scopes: Scopes,
    program: Seq<WithSpan<StmtView>>,
    target: WithSpan<StmtView>,
)
    requires
        scopes.len() > 0,
        always_rejected(target),
        body_holds(program, 0, target),
    ensures
        check_program(scopes, program).result is Err,
{
    lemma_declare_extends(scopes, "print"@, crate::analyzer::rules::output_operation());
    lemma_declare_extends(
        declare(scopes, "print"@, crate::analyzer::rules::output_operation()),
        "println"@,
        crate::analyzer::rules::output_operation(),
    );
    lemma_body_rejects(with_built_ins(scopes), program, 0, false, target);
}

/// A program that holds a function that is not `void` and has no `return`
/// among the statements of its body is rejected.
pub proof fn law_program_with_missing_return(
    scopes: Scopes,
    program: Seq<WithSpan<StmtView>>,
    declared: WithSpan<StmtView>,
)
    requires
        scopes.len() > 0,
        body_holds(program, 0, declared),
        declared.node is Function,
        declared.node->Function_0.type_ != Type::Void,
        !returns_from(declared.node->Function_0.body, 0),
    ensures
        check_program(scopes, program).result is Err,
{
    assert forall|any: Scopes| any.len() > 0 implies (#[trigger] check_statement(
        any,
        declared,
    )).result is Err by {
        law_missing_return(any, declared);
    }
    law_rejection_reaches_the_program(scopes, program, declared);
}

/// A program that holds a function of type `void` whose body returns a
/// value, as [`law_void_function_returns_value`] says, is rejected.
pub proof fn law_program_with_void_function_returning_value(
    scopes: Scopes,
    program: Seq<WithSpan<StmtView>>,
    declared: WithSpan<StmtView>,
)
    requires
        scopes.len() > 0,
        body_holds(program, 0, declared),
        declared.node is Function,
        declared.node->Function_0.type_ == Type::Void,
        body_returns_value(declared.node->Function_0.body, 0),
    ensures
        check_program(scopes, program).result is Err,
{
    assert forall|any: Scopes| any.len() > 0 implies (#[trigger] check_statement(
        any,
        declared,
    )).result is Err by {
        law_void_function_returns_value(any, declared);
    }
    law_rejection_reaches_the_program(scopes, program, declared);
}

} // verus!
