//! The syntax tree that the parser builds and the later stages walk, and
//! its mathematical view.
use crate::common::text::{decimal, decimal_string, push_decimal_nat, text_is};
use crate::common::token::BinaryOperator;
use vstd::prelude::*;

verus! {

/// A whole source file: its top-level statements in source order.
#[derive(Debug)]
pub struct Program {
    pub body: Vec<SpannedStatement>,
}

/// A position in the source text; lines and columns count from 1.
#[derive(Debug, Clone, Copy, PartialEq, Eq, Structural)]
pub struct Span {
    pub line: usize,
    pub column: usize,
}

impl Span {
    /// The position as it is shown to a user: line, colon, column.
    pub open spec fn text(self) -> Seq<char> {
        decimal(self.line as int) + ":"@ + decimal(self.column as int)
    }

    /// The position as it is shown to a user.
    pub fn to_text(&self) -> (r: String)
        ensures
            r@ == self.text(),
    {
        let mut r = String::new();
        push_decimal_nat(&mut r, self.line as u64);
        r.append(":");
        push_decimal_nat(&mut r, self.column as u64);
        assert(r@ =~= self.text());
        r
    }
}

/// What a stage reports when it fails: a readable message and the source
/// position that it speaks of.
pub struct Diagnostic {
    pub message: Seq<char>,
    pub span: Span,
}

/// A diagnostic as it is shown to a user: the kind of failure, the message,
/// and the position as line and column.
pub open spec fn report(kind: Seq<char>, diagnostic: Diagnostic) -> Seq<char> {
    kind + ": "@ + diagnostic.message + " (at "@ + decimal(diagnostic.span.line as int) + ":"@
        + decimal(diagnostic.span.column as int) + ")"@
}

/// Renders a diagnostic for a user.
pub fn report_text(kind: &str, message: &String, span: Span) -> (r: String)
    ensures
        r@ == report(kind@, Diagnostic { message: message@, span }),
{
    let mut r = String::from_str(kind);
    r.append(": ");
    r.append(message.as_str());
    r.append(" (at ");
    push_decimal_nat(&mut r, span.line as u64);
    r.append(":");
    push_decimal_nat(&mut r, span.column as u64);
    r.append(")");
    r
}

/// A node together with its source position.
#[derive(Debug, PartialEq)]
pub struct WithSpan<T> {
    pub node: T,
    pub span: Span,
}

/// Nodes that can be given a source position.
pub trait Spannable: Sized {
    fn spanned(self, span: Span) -> (r: WithSpan<Self>)
        ensures
            r.node == self,
            r.span == span,
    {
        WithSpan { node: self, span }
    }
}

impl<T> WithSpan<T> {
    /// The node, without its position.
    pub fn as_ref(&self) -> (r: &T)
        ensures
            *r == self.node,
    {
        &self.node
    }
}

impl<T: View> View for WithSpan<T> {
    type V = WithSpan<T::V>;

    open spec fn view(&self) -> WithSpan<T::V> {
        WithSpan { node: self.node@, span: self.span }
    }
}

/// A statement with its source position.
pub type SpannedStatement = WithSpan<Statement>;

/// An expression with its source position.
pub type SpannedExpression = WithSpan<Expression>;

impl Spannable for Statement {

}

impl Spannable for Expression {

}

/// The types of the language.
#[derive(Debug, PartialEq, Eq, Clone, Copy, Structural)]
pub enum Type {
    Void,
    Bool,
    Int,
    String,
}

impl Type {
    /// The type that a type name denotes, if it denotes one.
    pub open spec fn named(name: Seq<char>) -> Option<Type> {
        if name == "int"@ {
            Some(Type::Int)
        } else if name == "bool"@ {
            Some(Type::Bool)
        } else if name == "string"@ {
            Some(Type::String)
        } else if name == "void"@ {
            Some(Type::Void)
        } else {
            None
        }
    }

    /// The type's name in source text.
    pub open spec fn name(self) -> Seq<char> {
        match self {
            Type::Void => "void"@,
            Type::Bool => "bool"@,
            Type::Int => "int"@,
            Type::String => "string"@,
        }
    }

    /// The complaint about a name that denotes no type.
    pub open spec fn unknown_message(name: Seq<char>) -> Seq<char> {
        "Unknown type: "@ + name
    }

    /// Reads a type name; an unknown name gives the complaint about it.
    pub fn from_name(name: &String) -> (r: Result<Type, String>)
        ensures
            match Type::named(name@) {
                Some(t) => r == Ok::<Type, String>(t),
                None => r is Err && r->Err_0@ == Type::unknown_message(name@),
            },
    {
        if text_is(name, "int") {
            Ok(Type::Int)
        } else if text_is(name, "bool") {
            Ok(Type::Bool)
        } else if text_is(name, "string") {
            Ok(Type::String)
        } else if text_is(name, "void") {
            Ok(Type::Void)
        } else {
            let mut message = String::from_str("Unknown type: ");
            message.append(name.as_str());
            Err(message)
        }
    }

    /// The type's name in source text.
    pub fn get_name(&self) -> (r: &'static str)
        ensures
            r@ == self.name(),
    {
        match self {
            Type::Void => "void",
            Type::Bool => "bool",
            Type::Int => "int",
            Type::String => "string",
        }
    }
}

impl core::str::FromStr for Type {
    type Err = String;

    fn from_str(s: &str) -> (r: Result<Self, String>)
        ensures
            match Type::named(s@) {
                Some(t) => r == Ok::<Type, String>(t),
                None => r is Err && r->Err_0@ == Type::unknown_message(s@),
            },
    {
        Type::from_name(&s.to_owned())
    }
}

/// An expression.
#[derive(Debug, PartialEq)]
pub enum Expression {
    Binary(Box<BinaryExpression>),
    Literal(LiteralExpression),
    FunctionCall(Box<FunctionCall>),
    VariableRef(Box<VariableRef>),
}

/// A statement.
#[derive(Debug, PartialEq)]
pub enum Statement {
    Function(FunctionDecl),
    VarAssignment(VariableAssignment),
    VarDecl(VariableDecl),
    If(IfStatement),
    Loop(LoopStatement),
    Return(ReturnStatement),
    /// An expression evaluated for its effect, such as a call.
    Expr(Expression),
}

/// An assignment: `name = value;`.
#[derive(Debug, PartialEq)]
pub struct VariableAssignment {
    pub name: String,
    pub value: SpannedExpression,
}

/// A variable declaration: `var name: type = value;`.
#[derive(Debug, PartialEq)]
pub struct VariableDecl {
    pub name: String,
    pub value: SpannedExpression,
    pub type_: Type,
}

/// A function declaration: `func name(params): type { body }`.
#[derive(Debug, PartialEq)]
pub struct FunctionDecl {
    pub name: String,
    pub params: Vec<Parameter>,
    pub type_: Type,
    pub body: Vec<SpannedStatement>,
}

/// A parameter of a function: its name and its type.
#[derive(Debug, PartialEq)]
pub struct Parameter {
    pub name: String,
    pub type_: Type,
}

/// A call: `callee(args)`.
#[derive(Debug, PartialEq)]
pub struct FunctionCall {
    pub callee: String,
    pub args: Vec<SpannedExpression>,
}

/// A use of a variable.
#[derive(Debug, PartialEq)]
pub struct VariableRef {
    pub name: String,
}

/// An operator between two operands.
#[derive(Debug, PartialEq)]
pub struct BinaryExpression {
    pub left: SpannedExpression,
    pub right: SpannedExpression,
    pub operator: BinaryOperator,
}

/// A literal value.
#[derive(Debug, PartialEq)]
pub struct LiteralExpression {
    pub value: LiteralValue,
}

/// A value: the payload of a literal, and what expressions evaluate to.
#[derive(Debug, PartialEq)]
pub enum LiteralValue {
    Void,
    String(String),
    Number(i32),
    Bool(bool),
}

/// A conditional. The `else` part, when present, is itself an `If`
/// statement: the next link of an `else if` chain, or, for a plain `else`,
/// an `If` whose condition is the literal `true`.
#[derive(Debug, PartialEq)]
pub struct IfStatement {
    pub condition: SpannedExpression,
    pub then_body: Vec<SpannedStatement>,
    pub else_body: Option<Box<SpannedStatement>>,
}

/// A loop: `while (condition) { body }`.
#[derive(Debug, PartialEq)]
pub struct LoopStatement {
    pub condition: SpannedExpression,
    pub body: Vec<SpannedStatement>,
}

/// A `return`, with or without a value.
#[derive(Debug, PartialEq)]
pub struct ReturnStatement {
    pub value: Option<SpannedExpression>,
}

/// The mathematical content of a [`LiteralValue`].
pub enum ValueView {
    Void,
    String(Seq<char>),
    Number(i32),
    Bool(bool),
}

impl ValueView {
    /// The type that the value belongs to.
    pub open spec fn type_of(self) -> Type {
        match self {
            ValueView::Void => Type::Void,
            ValueView::String(_) => Type::String,
            ValueView::Number(_) => Type::Int,
            ValueView::Bool(_) => Type::Bool,
        }
    }

    /// The value as the output operations render it.
    pub open spec fn text(self) -> Seq<char> {
        match self {
            ValueView::Void => "void"@,
            ValueView::String(text) => text,
            ValueView::Number(n) => decimal(n as int),
            ValueView::Bool(b) => if b {
                "true"@
            } else {
                "false"@
            },
        }
    }
}

impl View for LiteralValue {
    type V = ValueView;

    open spec fn view(&self) -> ValueView {
        match *self {
            LiteralValue::Void => ValueView::Void,
            LiteralValue::String(text) => ValueView::String(text@),
            LiteralValue::Number(n) => ValueView::Number(n),
            LiteralValue::Bool(b) => ValueView::Bool(b),
        }
    }
}

impl Clone for LiteralValue {
    fn clone(&self) -> (r: Self)
        ensures
            r == *self,
    {
        match self {
            LiteralValue::Void => LiteralValue::Void,
            LiteralValue::String(text) => LiteralValue::String(text.clone()),
            LiteralValue::Number(n) => LiteralValue::Number(*n),
            LiteralValue::Bool(b) => LiteralValue::Bool(*b),
        }
    }
}

impl LiteralValue {
    /// The type that the value belongs to.
    pub fn get_type(&self) -> (r: Type)
        ensures
            r == self@.type_of(),
    {
        match self {
            LiteralValue::Void => Type::Void,
            LiteralValue::String(_) => Type::String,
            LiteralValue::Number(_) => Type::Int,
            LiteralValue::Bool(_) => Type::Bool,
        }
    }

    /// Whether two values are the same: same variant, same content.
    pub fn same_as(&self, other: &LiteralValue) -> (r: bool)
        ensures
            r == (self@ == other@),
    {
        match (self, other) {
            (LiteralValue::Void, LiteralValue::Void) => true,
            (LiteralValue::String(a), LiteralValue::String(b)) => *a == *b,
            (LiteralValue::Number(a), LiteralValue::Number(b)) => *a == *b,
            (LiteralValue::Bool(a), LiteralValue::Bool(b)) => *a == *b,
            _ => false,
        }
    }

    /// The value as the output operations render it.
    pub fn to_text(&self) -> (r: String)
        ensures
            r@ == self@.text(),
    {
        match self {
            LiteralValue::Void => String::from_str("void"),
            LiteralValue::String(text) => text.clone(),
            LiteralValue::Number(n) => decimal_string(*n as i64),
            LiteralValue::Bool(b) => if *b {
                String::from_str("true")
            } else {
                String::from_str("false")
            },
        }
    }
}

/// The mathematical content of an [`Expression`].
pub enum ExprView {
    Literal(ValueView),
    Variable(Seq<char>),
    Call { callee: Seq<char>, args: Seq<WithSpan<ExprView>> },
    Binary { left: Box<WithSpan<ExprView>>, operator: BinaryOperator, right: Box<WithSpan<ExprView>> },
}

/// The mathematical content of a [`Parameter`].
pub struct ParamView {
    pub name: Seq<char>,
    pub type_: Type,
}

/// The mathematical content of a [`FunctionDecl`].
pub struct FunctionView {
    pub name: Seq<char>,
    pub params: Seq<ParamView>,
    pub type_: Type,
    pub body: Seq<WithSpan<StmtView>>,
}

/// The mathematical content of an [`IfStatement`].
pub struct IfView {
    pub condition: WithSpan<ExprView>,
    pub then_body: Seq<WithSpan<StmtView>>,
    pub else_body: Option<Box<WithSpan<StmtView>>>,
}

/// The mathematical content of a [`Statement`].
#[allow(inconsistent_fields)]
pub enum StmtView {
    Function(FunctionView),
    VarAssignment { name: Seq<char>, value: WithSpan<ExprView> },
    VarDecl { name: Seq<char>, type_: Type, value: WithSpan<ExprView> },
    If(IfView),
    Loop { condition: WithSpan<ExprView>, body: Seq<WithSpan<StmtView>> },
    Return { value: Option<WithSpan<ExprView>> },
    Expr(ExprView),
}

impl View for Parameter {
    type V = ParamView;

    open spec fn view(&self) -> ParamView {
        ParamView { name: self.name@, type_: self.type_ }
    }
}

/// The views of a parameter list, element by element.
pub open spec fn params_view(params: Seq<Parameter>) -> Seq<ParamView> {
    params.map_values(|p: Parameter| p@)
}

/// The view of an expression: names and text become character sequences,
/// argument vectors become sequences of views.
pub open spec fn expr_view(e: Expression) -> ExprView
    decreases e,
{
    match e {
        Expression::Literal(literal) => ExprView::Literal(literal.value@),
        Expression::VariableRef(reference) => ExprView::Variable(reference.name@),
        Expression::FunctionCall(call) => ExprView::Call {
            callee: call.callee@,
            args: exprs_view(call.args),
        },
        Expression::Binary(binary) => ExprView::Binary {
            left: Box::new(WithSpan { node: expr_view(binary.left.node), span: binary.left.span }),
            operator: binary.operator,
            right: Box::new(
                WithSpan { node: expr_view(binary.right.node), span: binary.right.span },
            ),
        },
    }
}

/// The views of a vector of positioned expressions, element by element.
pub open spec fn exprs_view(v: Vec<SpannedExpression>) -> Seq<WithSpan<ExprView>>
    decreases v,
{
    Seq::new(
        v@.len(),
        |i: int|
            if 0 <= i < v@.len() {
                WithSpan { node: expr_view(v@[i].node), span: v@[i].span }
            } else {
                arbitrary()
            },
    )
}

/// The view of a statement.
pub open spec fn stmt_view(s: Statement) -> StmtView
    decreases s,
{
    match s {
        Statement::Function(f) => StmtView::Function(function_view(f)),
        Statement::VarAssignment(a) => StmtView::VarAssignment { name: a.name@, value: a.value@ },
        Statement::VarDecl(d) => StmtView::VarDecl { name: d.name@, type_: d.type_, value: d.value@ },
        Statement::If(i) => StmtView::If(if_view(i)),
        Statement::Loop(l) => StmtView::Loop { condition: l.condition@, body: stmts_view(l.body) },
        Statement::Return(r) => StmtView::Return {
            value: match r.value {
                Some(value) => Some(value@),
                None => None,
            },
        },
        Statement::Expr(e) => StmtView::Expr(e@),
    }
}

/// The view of a function declaration.
pub open spec fn function_view(f: FunctionDecl) -> FunctionView
    decreases f,
{
    FunctionView {
        name: f.name@,
        params: params_view(f.params@),
        type_: f.type_,
        body: stmts_view(f.body),
    }
}

/// The view of a conditional.
pub open spec fn if_view(i: IfStatement) -> IfView
    decreases i,
{
    IfView {
        condition: i.condition@,
        then_body: stmts_view(i.then_body),
        else_body: match i.else_body {
            Some(next) => Some(Box::new(WithSpan { node: stmt_view(next.node), span: next.span })),
            None => None,
        },
    }
}

/// The views of a vector of positioned statements, element by element.
pub open spec fn stmts_view(v: Vec<SpannedStatement>) -> Seq<WithSpan<StmtView>>
    decreases v,
{
    Seq::new(
        v@.len(),
        |i: int|
            if 0 <= i < v@.len() {
                WithSpan { node: stmt_view(v@[i].node), span: v@[i].span }
            } else {
                arbitrary()
            },
    )
}

/// An empty vector of expressions has the empty sequence as its view.
pub proof fn lemma_exprs_view_empty(v: Vec<SpannedExpression>)
    requires
        v@.len() == 0,
    ensures
        exprs_view(v) == Seq::<WithSpan<ExprView>>::empty(),
{
    assert(exprs_view(v) =~= Seq::<WithSpan<ExprView>>::empty());
}

/// Pushing an expression onto a vector pushes its view onto the view.
pub proof fn lemma_exprs_view_push(
    before: Vec<SpannedExpression>,
    after: Vec<SpannedExpression>,
    added: SpannedExpression,
)
    requires
        after@ == before@.push(added),
    ensures
        exprs_view(after) == exprs_view(before).push(added@),
{
    assert(exprs_view(after) =~= exprs_view(before).push(added@));
}

/// The view of a vector of expressions is as long as the vector.
pub proof fn lemma_exprs_view_len(v: Vec<SpannedExpression>)
    ensures
        exprs_view(v).len() == v@.len(),
{
}

/// The view of a vector of expressions holds the views of its elements.
pub proof fn lemma_exprs_view_index(v: Vec<SpannedExpression>, i: int)
    requires
        0 <= i < v@.len(),
    ensures
        exprs_view(v).len() == v@.len(),
        exprs_view(v)[i] == v@[i]@,
{
}

/// An empty vector of statements has the empty sequence as its view.
pub proof fn lemma_stmts_view_empty(v: Vec<SpannedStatement>)
    requires
        v@.len() == 0,
    ensures
        stmts_view(v) == Seq::<WithSpan<StmtView>>::empty(),
{
    assert(stmts_view(v) =~= Seq::<WithSpan<StmtView>>::empty());
}

/// Pushing a statement onto a vector pushes its view onto the view.
pub proof fn lemma_stmts_view_push(
    before: Vec<SpannedStatement>,
    after: Vec<SpannedStatement>,
    added: SpannedStatement,
)
    requires
        after@ == before@.push(added),
    ensures
        stmts_view(after) == stmts_view(before).push(added@),
{
    assert(stmts_view(after) =~= stmts_view(before).push(added@));
}

/// The view of a vector of statements holds the views of its elements.
pub proof fn lemma_stmts_view_index(v: Vec<SpannedStatement>, i: int)
    requires
        0 <= i < v@.len(),
    ensures
        stmts_view(v).len() == v@.len(),
        stmts_view(v)[i] == v@[i]@,
{
}

impl View for Expression {
    type V = ExprView;

    open spec fn view(&self) -> ExprView {
        expr_view(*self)
    }
}

impl View for Statement {
    type V = StmtView;

    open spec fn view(&self) -> StmtView {
        stmt_view(*self)
    }
}

impl View for FunctionDecl {
    type V = FunctionView;

    open spec fn view(&self) -> FunctionView {
        function_view(*self)
    }
}

impl View for IfStatement {
    type V = IfView;

    open spec fn view(&self) -> IfView {
        if_view(*self)
    }
}

impl View for Program {
    type V = Seq<WithSpan<StmtView>>;

    open spec fn view(&self) -> Seq<WithSpan<StmtView>> {
        stmts_view(self.body)
    }
}

} // verus!
