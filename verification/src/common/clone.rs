//! Copies of syntax trees: each copy has the view of what it was made from.
use crate::common::ast::{
    BinaryExpression, Expression, FunctionCall, FunctionDecl, IfStatement, LiteralExpression,
    LoopStatement, Parameter, Program, ReturnStatement, SpannedExpression, SpannedStatement,
    Statement, VariableAssignment, VariableDecl, VariableRef, WithSpan, exprs_view, stmts_view,
};
use vstd::prelude::*;

verus! {

impl<T: Clone> Clone for WithSpan<T> {
    fn clone(&self) -> (r: Self)
        ensures
            r.span == self.span,
    {
        WithSpan { node: self.node.clone(), span: self.span }
    }
}

/// A copy of a positioned expression.
fn copy_expression(e: &SpannedExpression) -> (r: SpannedExpression)
    ensures
        r@ == e@,
    decreases e, 1int,
{
    WithSpan { node: e.node.clone(), span: e.span }
}

/// A copy of a vector of positioned expressions.
fn copy_expressions(v: &Vec<SpannedExpression>) -> (r: Vec<SpannedExpression>)
    ensures
        exprs_view(r) == exprs_view(*v),
    decreases v, 0int,
{
    let mut r: Vec<SpannedExpression> = Vec::new();
    let mut i: usize = 0;
    while i < v.len()
        invariant
            0 <= i <= v.len(),
            r@.len() == i,
            forall|j: int| 0 <= j < i ==> (#[trigger] r@[j])@ == v@[j]@,
        decreases v.len() - i,
    {
        r.push(copy_expression(&v[i]));
        i = i + 1;
    }
    assert(exprs_view(r) =~= exprs_view(*v));
    r
}

impl Clone for Expression {
    fn clone(&self) -> (r: Self)
        ensures
            r@ == self@,
        decreases self, 0int,
    {
        match self {
            Expression::Binary(binary) => Expression::Binary(
                Box::new(
                    BinaryExpression {
                        left: copy_expression(&binary.left),
                        right: copy_expression(&binary.right),
                        operator: binary.operator,
                    },
                ),
            ),
            Expression::Literal(literal) => Expression::Literal(
                LiteralExpression { value: literal.value.clone() },
            ),
            Expression::FunctionCall(call) => Expression::FunctionCall(
                Box::new(
                    FunctionCall { callee: call.callee.clone(), args: copy_expressions(&call.args) },
                ),
            ),
            Expression::VariableRef(reference) => Expression::VariableRef(
                Box::new(VariableRef { name: reference.name.clone() }),
            ),
        }
    }
}

impl Clone for BinaryExpression {
    fn clone(&self) -> (r: Self)
        ensures
            r.left@ == self.left@,
            r.right@ == self.right@,
            r.operator == self.operator,
    {
        BinaryExpression {
            left: copy_expression(&self.left),
            right: copy_expression(&self.right),
            operator: self.operator,
        }
    }
}

impl Clone for LiteralExpression {
    fn clone(&self) -> (r: Self)
        ensures
            r == *self,
    {
        LiteralExpression { value: self.value.clone() }
    }
}

impl Clone for FunctionCall {
    fn clone(&self) -> (r: Self)
        ensures
            r.callee == self.callee,
            exprs_view(r.args) == exprs_view(self.args),
    {
        FunctionCall { callee: self.callee.clone(), args: copy_expressions(&self.args) }
    }
}

impl Clone for VariableRef {
    fn clone(&self) -> (r: Self)
        ensures
            r == *self,
    {
        VariableRef { name: self.name.clone() }
    }
}

impl Clone for Parameter {
    fn clone(&self) -> (r: Self)
        ensures
            r == *self,
    {
        Parameter { name: self.name.clone(), type_: self.type_ }
    }
}

/// A copy of a parameter list.
fn copy_parameters(v: &Vec<Parameter>) -> (r: Vec<Parameter>)
    ensures
        r@ == v@,
{
    let mut r: Vec<Parameter> = Vec::new();
    let mut i: usize = 0;
    while i < v.len()
        invariant
            0 <= i <= v.len(),
            r@ == v@.take(i as int),
        decreases v.len() - i,
    {
        r.push(v[i].clone());
        assert(v@.take(i + 1) =~= v@.take(i as int).push(v@[i as int]));
        i = i + 1;
    }
    assert(v@.take(v.len() as int) =~= v@);
    r
}

/// A copy of a positioned statement.
fn copy_statement(s: &SpannedStatement) -> (r: SpannedStatement)
    ensures
        r@ == s@,
    decreases s, 1int,
{
    WithSpan { node: s.node.clone(), span: s.span }
}

/// A copy of a block.
fn copy_statements(v: &Vec<SpannedStatement>) -> (r: Vec<SpannedStatement>)
    ensures
        stmts_view(r) == stmts_view(*v),
    decreases v, 0int,
{
    let mut r: Vec<SpannedStatement> = Vec::new();
    let mut i: usize = 0;
    while i < v.len()
        invariant
            0 <= i <= v.len(),
            r@.len() == i,
            forall|j: int| 0 <= j < i ==> (#[trigger] r@[j])@ == v@[j]@,
        decreases v.len() - i,
    {
        r.push(copy_statement(&v[i]));
        i = i + 1;
    }
    assert(stmts_view(r) =~= stmts_view(*v));
    r
}

/// A copy of a conditional.
fn copy_if(conditional: &IfStatement) -> (r: IfStatement)
    ensures
        r@ == conditional@,
    decreases conditional, 0int,
{
    IfStatement {
        condition: copy_expression(&conditional.condition),
        then_body: copy_statements(&conditional.then_body),
        else_body: match &conditional.else_body {
            Some(next) => Some(Box::new(copy_statement(next))),
            None => None,
        },
    }
}

impl Clone for Statement {
    fn clone(&self) -> (r: Self)
        ensures
            r@ == self@,
        decreases self, 0int,
    {
        match self {
            Statement::Function(f) => Statement::Function(
                FunctionDecl {
                    name: f.name.clone(),
                    params: copy_parameters(&f.params),
                    type_: f.type_,
                    body: copy_statements(&f.body),
                },
            ),
            Statement::VarAssignment(assignment) => Statement::VarAssignment(
                VariableAssignment {
                    name: assignment.name.clone(),
                    value: copy_expression(&assignment.value),
                },
            ),
            Statement::VarDecl(declaration) => Statement::VarDecl(
                VariableDecl {
                    name: declaration.name.clone(),
                    value: copy_expression(&declaration.value),
                    type_: declaration.type_,
                },
            ),
            Statement::If(conditional) => Statement::If(copy_if(conditional)),
            Statement::Loop(repeated) => Statement::Loop(
                LoopStatement {
                    condition: copy_expression(&repeated.condition),
                    body: copy_statements(&repeated.body),
                },
            ),
            Statement::Return(returning) => Statement::Return(
                ReturnStatement {
                    value: match &returning.value {
                        Some(value) => Some(copy_expression(value)),
                        None => None,
                    },
                },
            ),
            Statement::Expr(expression) => Statement::Expr(expression.clone()),
        }
    }
}

impl Clone for VariableAssignment {
    fn clone(&self) -> (r: Self)
        ensures
            r.name == self.name,
            r.value@ == self.value@,
    {
        VariableAssignment { name: self.name.clone(), value: copy_expression(&self.value) }
    }
}

impl Clone for VariableDecl {
    fn clone(&self) -> (r: Self)
        ensures
            r.name == self.name,
            r.value@ == self.value@,
            r.type_ == self.type_,
    {
        VariableDecl {
            name: self.name.clone(),
            value: copy_expression(&self.value),
            type_: self.type_,
        }
    }
}

impl Clone for FunctionDecl {
    fn clone(&self) -> (r: Self)
        ensures
            r@ == self@,
    {
        FunctionDecl {
            name: self.name.clone(),
            params: copy_parameters(&self.params),
            type_: self.type_,
            body: copy_statements(&self.body),
        }
    }
}

impl Clone for IfStatement {
    fn clone(&self) -> (r: Self)
        ensures
            r@ == self@,
    {
        copy_if(self)
    }
}

impl Clone for LoopStatement {
    fn clone(&self) -> (r: Self)
        ensures
            r.condition@ == self.condition@,
            stmts_view(r.body) == stmts_view(self.body),
    {
        LoopStatement {
            condition: copy_expression(&self.condition),
            body: copy_statements(&self.body),
        }
    }
}

impl Clone for ReturnStatement {
    fn clone(&self) -> (r: Self)
        ensures
            match self.value {
                Some(value) => r.value is Some && r.value->Some_0@ == value@,
                None => r.value is None,
            },
    {
        ReturnStatement {
            value: match &self.value {
                Some(value) => Some(copy_expression(value)),
                None => None,
            },
        }
    }
}

impl Clone for Program {
    fn clone(&self) -> (r: Self)
        ensures
            r@ == self@,
    {
        Program { body: copy_statements(&self.body) }
    }
}

} // verus!
