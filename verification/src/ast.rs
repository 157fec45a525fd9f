//! The parse tree of an expression, as the parser hands it over.
//!
//! The tree is plain data: names, literal text as written, operators, and the
//! source position of each node. Nothing in it has been interpreted yet.

use crate::integer::IntegerType;
use crate::span::{Identifier, IdentifierView, Span, SpanView};
use vstd::prelude::*;

verus! {

/// A binary operator token.
#[derive(Clone, Copy, Debug, PartialEq, Eq, Structural)]
pub enum BinaryOperation {
    Or,
    And,
    Eq,
    Ne,
    Ge,
    Gt,
    Le,
    Lt,
    Add,
    Sub,
    Mul,
    Div,
    Pow,
}

/// A literal, with its text as written.
#[derive(Debug, PartialEq, Eq)]
pub enum AstValue {
    /// A number followed by the keyword of an integer type.
    Integer(String, IntegerType),
    /// The number of a field element.
    Field(String),
    /// The text of a group element.
    Group(String),
    /// `true` or `false`.
    Boolean(String),
    /// A number whose type is still to be found.
    Implicit(String),
}

/// An [`AstValue`] as a mathematical value.
pub enum AstValueView {
    Integer(Seq<char>, IntegerType),
    Field(Seq<char>),
    Group(Seq<char>),
    Boolean(Seq<char>),
    Implicit(Seq<char>),
}

impl View for AstValue {
    type V = AstValueView;

    open spec fn view(&self) -> AstValueView {
        match self {
            AstValue::Integer(number, integer_type) => AstValueView::Integer(
                number@,
                *integer_type,
            ),
            AstValue::Field(number) => AstValueView::Field(number@),
            AstValue::Group(text) => AstValueView::Group(text@),
            AstValue::Boolean(text) => AstValueView::Boolean(text@),
            AstValue::Implicit(number) => AstValueView::Implicit(number@),
        }
    }
}

/// An expression of the parse tree.
#[derive(Debug, PartialEq, Eq)]
pub enum AstExpression {
    Value(AstValue),
    Identifier(Identifier),
    /// `!e`
    Not(Box<AstExpression>),
    /// `l op r`
    Binary(BinaryOperation, Box<AstExpression>, Box<AstExpression>, Span),
    /// `if c ? t : e`
    Ternary(Box<AstExpression>, Box<AstExpression>, Box<AstExpression>, Span),
    /// `[a, ...b, c]`
    ArrayInline(Vec<AstSpreadOrExpression>, Span),
    /// `[e; count]`
    ArrayInitializer(Box<AstSpreadOrExpression>, AstValue, Span),
    /// `Name { member: e, .. }`
    CircuitInline(Identifier, Vec<AstCircuitField>, Span),
    /// A name followed by accesses, as in `a(x)[y].z`.
    Postfix(Identifier, Vec<AstAccess>, Span),
}

/// An element of an inline array: an expression, or the spread of one.
#[derive(Debug, PartialEq, Eq)]
pub enum AstSpreadOrExpression {
    Spread(AstExpression),
    Expression(AstExpression),
}

/// What stands between the brackets of an array access.
#[derive(Debug, PartialEq, Eq)]
pub enum AstRangeOrExpression {
    Range(Option<AstExpression>, Option<AstExpression>),
    Expression(AstExpression),
}

/// One member of an inline circuit: its name and the expression that gives its value.
#[derive(Debug, PartialEq, Eq)]
pub struct AstCircuitField {
    pub identifier: Identifier,
    pub expression: AstExpression,
}

/// One access of a postfix expression.
#[derive(Debug, PartialEq, Eq)]
pub enum AstAccess {
    /// `[index]` or `[from..to]`
    Array(AstRangeOrExpression, Span),
    /// `(arguments)`
    Call(Vec<AstExpression>, Span),
    /// `.member`
    Object(Identifier, Span),
    /// `::member`
    StaticObject(Identifier, Span),
}

/// One access of an assignee.
#[derive(Debug, PartialEq, Eq)]
pub enum AstAssigneeAccess {
    /// `[index]` or `[from..to]`
    Array(AstRangeOrExpression, Span),
    /// `.member`
    Member(Identifier, Span),
}

/// The left side of an assignment: a name followed by accesses.
#[derive(Debug, PartialEq, Eq)]
pub struct AstAssignee {
    pub identifier: Identifier,
    pub accesses: Vec<AstAssigneeAccess>,
    pub span: Span,
}

/// An [`AstExpression`] as a mathematical value.
pub enum AstExpressionView {
    Value(AstValueView),
    Identifier(IdentifierView),
    Not(Box<AstExpressionView>),
    Binary(BinaryOperation, Box<AstExpressionView>, Box<AstExpressionView>, SpanView),
    Ternary(Box<AstExpressionView>, Box<AstExpressionView>, Box<AstExpressionView>, SpanView),
    ArrayInline(Seq<AstSpreadOrExpressionView>, SpanView),
    ArrayInitializer(Box<AstSpreadOrExpressionView>, AstValueView, SpanView),
    CircuitInline(IdentifierView, Seq<AstCircuitFieldView>, SpanView),
    Postfix(IdentifierView, Seq<AstAccessView>, SpanView),
}

/// An [`AstSpreadOrExpression`] as a mathematical value.
pub enum AstSpreadOrExpressionView {
    Spread(AstExpressionView),
    Expression(AstExpressionView),
}

/// An [`AstRangeOrExpression`] as a mathematical value.
pub enum AstRangeOrExpressionView {
    Range(Option<AstExpressionView>, Option<AstExpressionView>),
    Expression(AstExpressionView),
}

/// An [`AstCircuitField`] as a mathematical value.
pub struct AstCircuitFieldView {
    pub identifier: IdentifierView,
    pub expression: AstExpressionView,
}

/// An [`AstAccess`] as a mathematical value.
pub enum AstAccessView {
    Array(AstRangeOrExpressionView, SpanView),
    Call(Seq<AstExpressionView>, SpanView),
    Object(IdentifierView, SpanView),
    StaticObject(IdentifierView, SpanView),
}

/// An [`AstAssigneeAccess`] as a mathematical value.
pub enum AstAssigneeAccessView {
    Array(AstRangeOrExpressionView, SpanView),
    Member(IdentifierView, SpanView),
}

/// An [`AstAssignee`] as a mathematical value.
pub struct AstAssigneeView {
    pub identifier: IdentifierView,
    pub accesses: Seq<AstAssigneeAccessView>,
    pub span: SpanView,
}

/// The mathematical value of an expression of the parse tree.
pub open spec fn ast_expression_view(e: AstExpression) -> AstExpressionView
    decreases e,
{
    match e {
        AstExpression::Value(value) => AstExpressionView::Value(value@),
        AstExpression::Identifier(identifier) => AstExpressionView::Identifier(identifier@),
        AstExpression::Not(inner) => AstExpressionView::Not(
            Box::new(ast_expression_view(*inner)),
        ),
        AstExpression::Binary(operation, left, right, span) => AstExpressionView::Binary(
            operation,
            Box::new(ast_expression_view(*left)),
            Box::new(ast_expression_view(*right)),
            span@,
        ),
        AstExpression::Ternary(first, second, third, span) => AstExpressionView::Ternary(
            Box::new(ast_expression_view(*first)),
            Box::new(ast_expression_view(*second)),
            Box::new(ast_expression_view(*third)),
            span@,
        ),
        AstExpression::ArrayInline(items, span) => AstExpressionView::ArrayInline(
            ast_spreads_view(items@),
            span@,
        ),
        AstExpression::ArrayInitializer(item, count, span) => AstExpressionView::ArrayInitializer(
            Box::new(ast_spread_view(*item)),
            count@,
            span@,
        ),
        AstExpression::CircuitInline(identifier, members, span) => AstExpressionView::CircuitInline(
            identifier@,
            ast_fields_view(members@),
            span@,
        ),
        AstExpression::Postfix(identifier, accesses, span) => AstExpressionView::Postfix(
            identifier@,
            ast_accesses_view(accesses@),
            span@,
        ),
    }
}

/// The mathematical value of an element of an inline array.
pub open spec fn ast_spread_view(s: AstSpreadOrExpression) -> AstSpreadOrExpressionView
    decreases s,
{
    match s {
        AstSpreadOrExpression::Spread(e) => AstSpreadOrExpressionView::Spread(
            ast_expression_view(e),
        ),
        AstSpreadOrExpression::Expression(e) => AstSpreadOrExpressionView::Expression(
            ast_expression_view(e),
        ),
    }
}

/// The mathematical value of an optional bound of a range.
pub open spec fn ast_optional_view(e: Option<AstExpression>) -> Option<AstExpressionView>
    decreases e,
{
    match e {
        Some(e) => Some(ast_expression_view(e)),
        None => None,
    }
}

/// The mathematical value of what stands between the brackets of an array access.
pub open spec fn ast_range_view(r: AstRangeOrExpression) -> AstRangeOrExpressionView
    decreases r,
{
    match r {
        AstRangeOrExpression::Range(from, to) => AstRangeOrExpressionView::Range(
            ast_optional_view(from),
            ast_optional_view(to),
        ),
        AstRangeOrExpression::Expression(e) => AstRangeOrExpressionView::Expression(
            ast_expression_view(e),
        ),
    }
}

/// The mathematical value of a member of an inline circuit.
pub open spec fn ast_field_view(f: AstCircuitField) -> AstCircuitFieldView
    decreases f,
{
    AstCircuitFieldView {
        identifier: f.identifier@,
        expression: ast_expression_view(f.expression),
    }
}

/// The mathematical value of an access.
pub open spec fn ast_access_view(a: AstAccess) -> AstAccessView
    decreases a,
{
    match a {
        AstAccess::Array(index, span) => AstAccessView::Array(ast_range_view(index), span@),
        AstAccess::Call(arguments, span) => AstAccessView::Call(
            ast_expressions_view(arguments@),
            span@,
        ),
        AstAccess::Object(member, span) => AstAccessView::Object(member@, span@),
        AstAccess::StaticObject(member, span) => AstAccessView::StaticObject(member@, span@),
    }
}

/// The views of a run of expressions, in order.
pub open spec fn ast_expressions_view(s: Seq<AstExpression>) -> Seq<AstExpressionView>
    decreases s,
{
    Seq::new(
        s.len(),
        |i: int|
            if 0 <= i < s.len() {
                ast_expression_view(s[i])
            } else {
                arbitrary()
            },
    )
}

/// The views of the elements of an inline array, in order.
pub open spec fn ast_spreads_view(s: Seq<AstSpreadOrExpression>) -> Seq<AstSpreadOrExpressionView>
    decreases s,
{
    Seq::new(
        s.len(),
        |i: int|
            if 0 <= i < s.len() {
                ast_spread_view(s[i])
            } else {
                arbitrary()
            },
    )
}

/// The views of the members of an inline circuit, in order.
pub open spec fn ast_fields_view(s: Seq<AstCircuitField>) -> Seq<AstCircuitFieldView>
    decreases s,
{
    Seq::new(
        s.len(),
        |i: int|
            if 0 <= i < s.len() {
                ast_field_view(s[i])
            } else {
                arbitrary()
            },
    )
}

/// The views of the accesses of a postfix expression, in order.
pub open spec fn ast_accesses_view(s: Seq<AstAccess>) -> Seq<AstAccessView>
    decreases s,
{
    Seq::new(
        s.len(),
        |i: int|
            if 0 <= i < s.len() {
                ast_access_view(s[i])
            } else {
                arbitrary()
            },
    )
}

/// The views of the accesses of an assignee, in order.
pub open spec fn ast_assignee_accesses_view(s: Seq<AstAssigneeAccess>) -> Seq<
    AstAssigneeAccessView,
> {
    Seq::new(s.len(), |i: int| s[i]@)
}

impl View for AstExpression {
    type V = AstExpressionView;

    open spec fn view(&self) -> AstExpressionView {
        ast_expression_view(*self)
    }
}

impl View for AstSpreadOrExpression {
    type V = AstSpreadOrExpressionView;

    open spec fn view(&self) -> AstSpreadOrExpressionView {
        ast_spread_view(*self)
    }
}

impl View for AstRangeOrExpression {
    type V = AstRangeOrExpressionView;

    open spec fn view(&self) -> AstRangeOrExpressionView {
        ast_range_view(*self)
    }
}

impl View for AstCircuitField {
    type V = AstCircuitFieldView;

    open spec fn view(&self) -> AstCircuitFieldView {
        ast_field_view(*self)
    }
}

impl View for AstAccess {
    type V = AstAccessView;

    open spec fn view(&self) -> AstAccessView {
        ast_access_view(*self)
    }
}

impl View for AstAssigneeAccess {
    type V = AstAssigneeAccessView;

    open spec fn view(&self) -> AstAssigneeAccessView {
        match self {
            AstAssigneeAccess::Array(index, span) => AstAssigneeAccessView::Array(index@, span@),
            AstAssigneeAccess::Member(member, span) => AstAssigneeAccessView::Member(
                member@,
                span@,
            ),
        }
    }
}

impl View for AstAssignee {
    type V = AstAssigneeView;

    open spec fn view(&self) -> AstAssigneeView {
        AstAssigneeView {
            identifier: self.identifier@,
            accesses: ast_assignee_accesses_view(self.accesses@),
            span: self.span@,
        }
    }
}

} // verus!
