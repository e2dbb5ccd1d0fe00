//! The syntax tree shared by the parser and the evaluator, together with the
//! mathematical view of every node.

use vstd::prelude::*;

verus! {

/// The integer type of the language.
pub type Integer = i32;

/// A name bound by a declaration or a parameter list.
#[derive(Debug, PartialEq, Eq, Hash)]
pub struct Identifier(pub String);

impl View for Identifier {
    type V = Seq<char>;

    open spec fn view(&self) -> Seq<char> {
        self.0@
    }
}

impl Clone for Identifier {
    fn clone(&self) -> (r: Self)
        ensures
            r@ == self@,
    {
        Identifier(self.0.clone())
    }
}

/// A floating-point number, kept in its decimal notation. The library carries
/// such numbers around without ever computing with them.
#[derive(Debug, PartialEq, Eq, Hash)]
pub struct Float(pub String);

impl View for Float {
    type V = Seq<char>;

    open spec fn view(&self) -> Seq<char> {
        self.0@
    }
}

impl Clone for Float {
    fn clone(&self) -> (r: Self)
        ensures
            r@ == self@,
    {
        Float(self.0.clone())
    }
}

#[derive(Debug, Clone, Copy, PartialEq, Eq, Structural)]
pub enum UnaryOperation {
    Neg,
    Not,
}

#[derive(Debug, Clone, Copy, PartialEq, Eq, Structural)]
pub enum BinaryOperation {
    Add,
    Sub,
    Mul,
    Div,
    Mod,
    Eq,
    NoEq,
    Lt,
    LtEq,
    Gt,
    GtEq,
    Index,
    And,
    Or,
}

#[derive(Debug, PartialEq)]
pub enum Expression {
    // Keyword literals
    True,
    False,
    Null,
    // Literals
    Identifier(Identifier),
    Integer(Integer),
    Float(Float),
    String(String),
    Array(Vec<Expression>),
    Mapping(Vec<(Expression, Expression)>),
    // Functions and what is done with them
    Function(Vec<Identifier>, Vec<Statement>),
    Call(Box<Expression>, Vec<Expression>),
    Member(Box<Expression>, Identifier),
    // Operators
    UnaryOperation(Box<Expression>, UnaryOperation),
    BinaryOperation(Box<(Expression, Expression)>, BinaryOperation),
}

/// The expressions that may stand on the left of an assignment.
#[derive(Debug, PartialEq)]
pub enum Lvalue {
    Identifier(Identifier),
    Member(Box<Expression>, Identifier),
    Index(Box<(Expression, Expression)>),
}

#[derive(Debug, PartialEq)]
pub enum Statement {
    Declaration { name: Identifier, initializer: Expression },
    Assignment { lvalue: Lvalue, value: Expression },
    UnusedExpression(Expression),
    Return(Expression),
    Break,
    Continue,
    Loop { body: Vec<Statement> },
    For { loop_var: Identifier, iterator: Expression, body: Vec<Statement> },
    While { condition: Expression, body: Vec<Statement> },
    /// An `else` without a condition is a last branch whose condition is `True`.
    If { branches: Vec<(Expression, Vec<Statement>)> },
    Block { body: Vec<Statement> },
}

/// A parsed program.
#[derive(Debug, PartialEq)]
pub struct Ast(pub Vec<Statement>);

pub enum ExpressionView {
    True,
    False,
    Null,
    Identifier(Seq<char>),
    Integer(int),
    Float(Seq<char>),
    String(Seq<char>),
    Array(Seq<ExpressionView>),
    Mapping(Seq<(ExpressionView, ExpressionView)>),
    Function(Seq<Seq<char>>, Seq<StatementView>),
    Call(Box<ExpressionView>, Seq<ExpressionView>),
    Member(Box<ExpressionView>, Seq<char>),
    UnaryOperation(Box<ExpressionView>, UnaryOperation),
    BinaryOperation(Box<ExpressionView>, Box<ExpressionView>, BinaryOperation),
}

pub enum LvalueView {
    Identifier(Seq<char>),
    Member(Box<ExpressionView>, Seq<char>),
    Index(Box<ExpressionView>, Box<ExpressionView>),
}

pub enum StatementView {
    Declaration { name: Seq<char>, initializer: ExpressionView },
    Assignment { lvalue: LvalueView, value: ExpressionView },
    UnusedExpression(ExpressionView),
    Return(ExpressionView),
    Break,
    Continue,
    Loop { body: Seq<StatementView> },
    For { loop_var: Seq<char>, iterator: ExpressionView, body: Seq<StatementView> },
    While { condition: ExpressionView, body: Seq<StatementView> },
    If { branches: Seq<(ExpressionView, Seq<StatementView>)> },
    Block { body: Seq<StatementView> },
}

pub open spec fn identifiers_view(names: Seq<Identifier>) -> Seq<Seq<char>> {
    Seq::new(names.len(), |i: int| names[i]@)
}

pub open spec fn expression_view(e: Expression) -> ExpressionView
    decreases e,
{
    match e {
        Expression::True => ExpressionView::True,
        Expression::False => ExpressionView::False,
        Expression::Null => ExpressionView::Null,
        Expression::Identifier(name) => ExpressionView::Identifier(name@),
        Expression::Integer(n) => ExpressionView::Integer(n as int),
        Expression::Float(f) => ExpressionView::Float(f@),
        Expression::String(s) => ExpressionView::String(s@),
        Expression::Array(items) => ExpressionView::Array(expressions_view(items@)),
        Expression::Mapping(entries) => ExpressionView::Mapping(entries_view(entries@)),
        Expression::Function(parameters, body) => ExpressionView::Function(
            identifiers_view(parameters@),
            statements_view(body@),
        ),
        Expression::Call(callee, arguments) => ExpressionView::Call(
            Box::new(expression_view(*callee)),
            expressions_view(arguments@),
        ),
        Expression::Member(object, field) => ExpressionView::Member(
            Box::new(expression_view(*object)),
            field@,
        ),
        Expression::UnaryOperation(operand, operation) => ExpressionView::UnaryOperation(
            Box::new(expression_view(*operand)),
            operation,
        ),
        Expression::BinaryOperation(operands, operation) => ExpressionView::BinaryOperation(
            Box::new(expression_view(operands.0)),
            Box::new(expression_view(operands.1)),
            operation,
        ),
    }
}

pub open spec fn expressions_view(es: Seq<Expression>) -> Seq<ExpressionView>
    decreases es,
{
    Seq::new(
        es.len(),
        |i: int|
            if 0 <= i < es.len() {
                expression_view(es[i])
            } else {
                ExpressionView::Null
            },
    )
}

pub open spec fn entries_view(entries: Seq<(Expression, Expression)>) -> Seq<
    (ExpressionView, ExpressionView),
>
    decreases entries,
{
    Seq::new(
        entries.len(),
        |i: int|
            if 0 <= i < entries.len() {
                (expression_view(entries[i].0), expression_view(entries[i].1))
            } else {
                (ExpressionView::Null, ExpressionView::Null)
            },
    )
}

pub open spec fn lvalue_view(l: Lvalue) -> LvalueView
    decreases l,
{
    match l {
        Lvalue::Identifier(name) => LvalueView::Identifier(name@),
        Lvalue::Member(object, field) => LvalueView::Member(
            Box::new(expression_view(*object)),
            field@,
        ),
        Lvalue::Index(operands) => LvalueView::Index(
            Box::new(expression_view(operands.0)),
            Box::new(expression_view(operands.1)),
        ),
    }
}

pub open spec fn statement_view(s: Statement) -> StatementView
    decreases s,
{
    match s {
        Statement::Declaration { name, initializer } => StatementView::Declaration {
            name: name@,
            initializer: expression_view(initializer),
        },
        Statement::Assignment { lvalue, value } => StatementView::Assignment {
            lvalue: lvalue_view(lvalue),
            value: expression_view(value),
        },
        Statement::UnusedExpression(e) => StatementView::UnusedExpression(expression_view(e)),
        Statement::Return(e) => StatementView::Return(expression_view(e)),
        Statement::Break => StatementView::Break,
        Statement::Continue => StatementView::Continue,
        Statement::Loop { body } => StatementView::Loop { body: statements_view(body@) },
        Statement::For { loop_var, iterator, body } => StatementView::For {
            loop_var: loop_var@,
            iterator: expression_view(iterator),
            body: statements_view(body@),
        },
        Statement::While { condition, body } => StatementView::While {
            condition: expression_view(condition),
            body: statements_view(body@),
        },
        Statement::If { branches } => StatementView::If { branches: branches_view(branches@) },
        Statement::Block { body } => StatementView::Block { body: statements_view(body@) },
    }
}

pub open spec fn statements_view(ss: Seq<Statement>) -> Seq<StatementView>
    decreases ss,
{
    Seq::new(
        ss.len(),
        |i: int|
            if 0 <= i < ss.len() {
                statement_view(ss[i])
            } else {
                StatementView::Break
            },
    )
}

pub open spec fn branches_view(branches: Seq<(Expression, Vec<Statement>)>) -> Seq<
    (ExpressionView, Seq<StatementView>),
>
    decreases branches,
{
    Seq::new(
        branches.len(),
        |i: int|
            if 0 <= i < branches.len() {
                (expression_view(branches[i].0), statements_view(branches[i].1@))
            } else {
                (ExpressionView::Null, Seq::empty())
            },
    )
}

impl View for Expression {
    type V = ExpressionView;

    open spec fn view(&self) -> ExpressionView {
        expression_view(*self)
    }
}

impl View for Lvalue {
    type V = LvalueView;

    open spec fn view(&self) -> LvalueView {
        lvalue_view(*self)
    }
}

impl View for Statement {
    type V = StatementView;

    open spec fn view(&self) -> StatementView {
        statement_view(*self)
    }
}

impl View for Ast {
    type V = Seq<StatementView>;

    open spec fn view(&self) -> Seq<StatementView> {
        statements_view(self.0@)
    }
}

/// Copies a parameter list.
pub fn clone_identifiers(names: &Vec<Identifier>) -> (r: Vec<Identifier>)
    ensures
        identifiers_view(r@) == identifiers_view(names@),
{
    let mut out: Vec<Identifier> = Vec::new();
    let mut i: usize = 0;
    while i < names.len()
        invariant
            i <= names.len(),
            out.len() == i,
            forall|j: int| 0 <= j < i ==> out@[j]@ == names@[j]@,
        decreases names.len() - i,
    {
        out.push(names[i].clone());
        i += 1;
    }
    assert(identifiers_view(out@) =~= identifiers_view(names@));
    out
}

/// Copies an expression, node by node.
pub fn clone_expression(e: &Expression) -> (r: Expression)
    ensures
        r@ == e@,
    decreases *e,
{
    match e {
        Expression::True => Expression::True,
        Expression::False => Expression::False,
        Expression::Null => Expression::Null,
        Expression::Identifier(name) => Expression::Identifier(name.clone()),
        Expression::Integer(n) => Expression::Integer(*n),
        Expression::Float(f) => Expression::Float(f.clone()),
        Expression::String(s) => Expression::String(s.clone()),
        Expression::Array(items) => Expression::Array(clone_expressions(items)),
        Expression::Mapping(entries) => Expression::Mapping(clone_entries(entries)),
        Expression::Function(parameters, body) => Expression::Function(
            clone_identifiers(parameters),
            clone_statements(body),
        ),
        Expression::Call(callee, arguments) => Expression::Call(
            Box::new(clone_expression(callee)),
            clone_expressions(arguments),
        ),
        Expression::Member(object, field) => Expression::Member(
            Box::new(clone_expression(object)),
            field.clone(),
        ),
        Expression::UnaryOperation(operand, operation) => Expression::UnaryOperation(
            Box::new(clone_expression(operand)),
            *operation,
        ),
        Expression::BinaryOperation(operands, operation) => Expression::BinaryOperation(
            Box::new((clone_expression(&operands.0), clone_expression(&operands.1))),
            *operation,
        ),
    }
}

pub fn clone_expressions(es: &Vec<Expression>) -> (r: Vec<Expression>)
    ensures
        expressions_view(r@) == expressions_view(es@),
    decreases *es,
{
    let mut out: Vec<Expression> = Vec::new();
    let mut i: usize = 0;
    while i < es.len()
        invariant
            i <= es.len(),
            out.len() == i,
            forall|j: int| 0 <= j < i ==> out@[j]@ == es@[j]@,
        decreases es.len() - i,
    {
        out.push(clone_expression(&es[i]));
        i += 1;
    }
    assert(expressions_view(out@) =~= expressions_view(es@));
    out
}

pub fn clone_entries(entries: &Vec<(Expression, Expression)>) -> (r: Vec<(Expression, Expression)>)
    ensures
        entries_view(r@) == entries_view(entries@),
    decreases *entries,
{
    let mut out: Vec<(Expression, Expression)> = Vec::new();
    let mut i: usize = 0;
    while i < entries.len()
        invariant
            i <= entries.len(),
            out.len() == i,
            forall|j: int|
                0 <= j < i ==> out@[j].0@ == entries@[j].0@ && out@[j].1@ == entries@[j].1@,
        decreases entries.len() - i,
    {
        let key = clone_expression(&entries[i].0);
        let value = clone_expression(&entries[i].1);
        out.push((key, value));
        i += 1;
    }
    assert(entries_view(out@) =~= entries_view(entries@));
    out
}

pub fn clone_lvalue(l: &Lvalue) -> (r: Lvalue)
    ensures
        r@ == l@,
    decreases *l,
{
    match l {
        Lvalue::Identifier(name) => Lvalue::Identifier(name.clone()),
        Lvalue::Member(object, field) => Lvalue::Member(
            Box::new(clone_expression(object)),
            field.clone(),
        ),
        Lvalue::Index(operands) => Lvalue::Index(
            Box::new((clone_expression(&operands.0), clone_expression(&operands.1))),
        ),
    }
}

/// Copies a statement, node by node.
pub fn clone_statement(s: &Statement) -> (r: Statement)
    ensures
        r@ == s@,
    decreases *s,
{
    match s {
        Statement::Declaration { name, initializer } => Statement::Declaration {
            name: name.clone(),
            initializer: clone_expression(initializer),
        },
        Statement::Assignment { lvalue, value } => Statement::Assignment {
            lvalue: clone_lvalue(lvalue),
            value: clone_expression(value),
        },
        Statement::UnusedExpression(e) => Statement::UnusedExpression(clone_expression(e)),
        Statement::Return(e) => Statement::Return(clone_expression(e)),
        Statement::Break => Statement::Break,
        Statement::Continue => Statement::Continue,
        Statement::Loop { body } => Statement::Loop { body: clone_statements(body) },
        Statement::For { loop_var, iterator, body } => Statement::For {
            loop_var: loop_var.clone(),
            iterator: clone_expression(iterator),
            body: clone_statements(body),
        },
        Statement::While { condition, body } => Statement::While {
            condition: clone_expression(condition),
            body: clone_statements(body),
        },
        Statement::If { branches } => Statement::If { branches: clone_branches(branches) },
        Statement::Block { body } => Statement::Block { body: clone_statements(body) },
    }
}

pub fn clone_statements(ss: &Vec<Statement>) -> (r: Vec<Statement>)
    ensures
        statements_view(r@) == statements_view(ss@),
    decreases *ss,
{
    let mut out: Vec<Statement> = Vec::new();
    let mut i: usize = 0;
    while i < ss.len()
        invariant
            i <= ss.len(),
            out.len() == i,
            forall|j: int| 0 <= j < i ==> out@[j]@ == ss@[j]@,
        decreases ss.len() - i,
    {
        out.push(clone_statement(&ss[i]));
        i += 1;
    }
    assert(statements_view(out@) =~= statements_view(ss@));
    out
}

pub fn clone_branches(branches: &Vec<(Expression, Vec<Statement>)>) -> (r: Vec<
    (Expression, Vec<Statement>),
>)
    ensures
        branches_view(r@) == branches_view(branches@),
    decreases *branches,
{
    let mut out: Vec<(Expression, Vec<Statement>)> = Vec::new();
    let mut i: usize = 0;
    while i < branches.len()
        invariant
            i <= branches.len(),
            out.len() == i,
            forall|j: int|
                0 <= j < i ==> out@[j].0@ == branches@[j].0@ && statements_view(out@[j].1@)
                    == statements_view(branches@[j].1@),
        decreases branches.len() - i,
    {
        let condition = clone_expression(&branches[i].0);
        let body = clone_statements(&branches[i].1);
        out.push((condition, body));
        i += 1;
    }
    assert(branches_view(out@) =~= branches_view(branches@));
    out
}

impl Clone for Expression {
    fn clone(&self) -> (r: Self)
        ensures
            r@ == self@,
    {
        clone_expression(self)
    }
}

impl Clone for Lvalue {
    fn clone(&self) -> (r: Self)
        ensures
            r@ == self@,
    {
        clone_lvalue(self)
    }
}

impl Clone for Statement {
    fn clone(&self) -> (r: Self)
        ensures
            r@ == self@,
    {
        clone_statement(self)
    }
}

impl Clone for Ast {
    fn clone(&self) -> (r: Self)
        ensures
            r@ == self@,
    {
        Ast(clone_statements(&self.0))
    }
}

} // verus!
