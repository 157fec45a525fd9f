//! The typed expression tree that the compiler evaluates.
//!
//! A tree owns its operands from the top down. Every node that was read from
//! source text keeps the position it was read from.

use crate::integer::Integer;
use crate::span::{Identifier, IdentifierView, Span, SpanView};
use vstd::prelude::*;

verus! {

/// Expression that evaluates to a value
#[derive(Debug, PartialEq, Eq)]
pub enum Expression {
    // Identifier
    Identifier(Identifier),
    // Values
    Integer(Integer),
    Field(String),
    Group(String),
    Boolean(bool),
    Implicit(String),
    // Number operations
    Add(Box<Expression>, Box<Expression>, Span),
    Sub(Box<Expression>, Box<Expression>, Span),
    Mul(Box<Expression>, Box<Expression>, Span),
    Div(Box<Expression>, Box<Expression>, Span),
    Pow(Box<Expression>, Box<Expression>, Span),
    // Boolean operations
    Not(Box<Expression>),
    Or(Box<Expression>, Box<Expression>, Span),
    And(Box<Expression>, Box<Expression>, Span),
    Eq(Box<Expression>, Box<Expression>, Span),
    Ge(Box<Expression>, Box<Expression>, Span),
    Gt(Box<Expression>, Box<Expression>, Span),
    Le(Box<Expression>, Box<Expression>, Span),
    Lt(Box<Expression>, Box<Expression>, Span),
    // Conditionals
    IfElse(Box<Expression>, Box<Expression>, Box<Expression>, Span),
    // Arrays
    Array(Vec<Box<SpreadOrExpression>>, Span),
    /// (array name, range)
    ArrayAccess(Box<Expression>, Box<RangeOrExpression>, Span),
    // Circuits
    Circuit(Identifier, Vec<CircuitFieldDefinition>, Span),
    /// (declared circuit name, circuit member name)
    CircuitMemberAccess(Box<Expression>, Identifier, Span),
    /// (defined circuit name, circuit static member name)
    CircuitStaticFunctionAccess(Box<Expression>, Identifier, Span),
    // Functions
    FunctionCall(Box<Expression>, Vec<Expression>, Span),
}

/// An element of an array expression: an expression, or the spread of one.
#[derive(Debug, PartialEq, Eq)]
pub enum SpreadOrExpression {
    Spread(Expression),
    Expression(Expression),
}

/// The index of an array access: one position, or a range of positions.
#[derive(Debug, PartialEq, Eq)]
pub enum RangeOrExpression {
    Range(Option<Expression>, Option<Expression>),
    Expression(Expression),
}

/// One member of a circuit expression: its name and the expression that gives its value.
#[derive(Debug, PartialEq, Eq)]
pub struct CircuitFieldDefinition {
    pub identifier: Identifier,
    pub expression: Expression,
}

/// The binary operations of the tree.
#[derive(Clone, Copy, Debug, PartialEq, Eq, Structural)]
pub enum Operator {
    Add,
    Sub,
    Mul,
    Div,
    Pow,
    Or,
    And,
    Eq,
    Ge,
    Gt,
    Le,
    Lt,
}

/// An [`Expression`] as a mathematical value. The binary nodes are one case,
/// told apart by their operator.
pub enum ExpressionView {
    Identifier(IdentifierView),
    Integer(Integer),
    Field(Seq<char>),
    Group(Seq<char>),
    Boolean(bool),
    Implicit(Seq<char>),
    Binary(Operator, Box<ExpressionView>, Box<ExpressionView>, SpanView),
    Not(Box<ExpressionView>),
    IfElse(Box<ExpressionView>, Box<ExpressionView>, Box<ExpressionView>, SpanView),
    Array(Seq<SpreadOrExpressionView>, SpanView),
    ArrayAccess(Box<ExpressionView>, Box<RangeOrExpressionView>, SpanView),
    Circuit(IdentifierView, Seq<CircuitFieldDefinitionView>, SpanView),
    CircuitMemberAccess(Box<ExpressionView>, IdentifierView, SpanView),
    CircuitStaticFunctionAccess(Box<ExpressionView>, IdentifierView, SpanView),
    FunctionCall(Box<ExpressionView>, Seq<ExpressionView>, SpanView),
}

/// A [`SpreadOrExpression`] as a mathematical value.
pub enum SpreadOrExpressionView {
    Spread(ExpressionView),
    Expression(ExpressionView),
}

/// A [`RangeOrExpression`] as a mathematical value.
pub enum RangeOrExpressionView {
    Range(Option<ExpressionView>, Option<ExpressionView>),
    Expression(ExpressionView),
}

/// A [`CircuitFieldDefinition`] as a mathematical value.
pub struct CircuitFieldDefinitionView {
    pub identifier: IdentifierView,
    pub expression: ExpressionView,
}

/// The binary node with operator `operator`.
pub open spec fn binary_view(
    operator: Operator,
    left: ExpressionView,
    right: ExpressionView,
    span: SpanView,
) -> ExpressionView {
    ExpressionView::Binary(operator, Box::new(left), Box::new(right), span)
}

/// The mathematical value of an expression.
pub open spec fn expression_view(e: Expression) -> ExpressionView
    decreases e,
{
    match e {
        Expression::Identifier(identifier) => ExpressionView::Identifier(identifier@),
        Expression::Integer(integer) => ExpressionView::Integer(integer),
        Expression::Field(field) => ExpressionView::Field(field@),
        Expression::Group(group) => ExpressionView::Group(group@),
        Expression::Boolean(value) => ExpressionView::Boolean(value),
        Expression::Implicit(number) => ExpressionView::Implicit(number@),
        Expression::Add(l, r, span) => binary_view(
            Operator::Add,
            expression_view(*l),
            expression_view(*r),
            span@,
        ),
        Expression::Sub(l, r, span) => binary_view(
            Operator::Sub,
            expression_view(*l),
            expression_view(*r),
            span@,
        ),
        Expression::Mul(l, r, span) => binary_view(
            Operator::Mul,
            expression_view(*l),
            expression_view(*r),
            span@,
        ),
        Expression::Div(l, r, span) => binary_view(
            Operator::Div,
            expression_view(*l),
            expression_view(*r),
            span@,
        ),
        Expression::Pow(l, r, span) => binary_view(
            Operator::Pow,
            expression_view(*l),
            expression_view(*r),
            span@,
        ),
        Expression::Not(inner) => ExpressionView::Not(Box::new(expression_view(*inner))),
        Expression::Or(l, r, span) => binary_view(
            Operator::Or,
            expression_view(*l),
            expression_view(*r),
            span@,
        ),
        Expression::And(l, r, span) => binary_view(
            Operator::And,
            expression_view(*l),
            expression_view(*r),
            span@,
        ),
        Expression::Eq(l, r, span) => binary_view(
            Operator::Eq,
            expression_view(*l),
            expression_view(*r),
            span@,
        ),
        Expression::Ge(l, r, span) => binary_view(
            Operator::Ge,
            expression_view(*l),
            expression_view(*r),
            span@,
        ),
        Expression::Gt(l, r, span) => binary_view(
            Operator::Gt,
            expression_view(*l),
            expression_view(*r),
            span@,
        ),
        Expression::Le(l, r, span) => binary_view(
            Operator::Le,
            expression_view(*l),
            expression_view(*r),
            span@,
        ),
        Expression::Lt(l, r, span) => binary_view(
            Operator::Lt,
            expression_view(*l),
            expression_view(*r),
            span@,
        ),
        Expression::IfElse(first, second, third, span) => ExpressionView::IfElse(
            Box::new(expression_view(*first)),
            Box::new(expression_view(*second)),
            Box::new(expression_view(*third)),
            span@,
        ),
        Expression::Array(items, span) => ExpressionView::Array(
            spreads_view(items@),
            span@,
        ),
        Expression::ArrayAccess(array, index, span) => ExpressionView::ArrayAccess(
            Box::new(expression_view(*array)),
            Box::new(range_view(*index)),
            span@,
        ),
        Expression::Circuit(name, members, span) => ExpressionView::Circuit(
            name@,
            fields_view(members@),
            span@,
        ),
        Expression::CircuitMemberAccess(circuit, member, span) => {
            ExpressionView::CircuitMemberAccess(
                Box::new(expression_view(*circuit)),
                member@,
                span@,
            )
        },
        Expression::CircuitStaticFunctionAccess(circuit, member, span) => {
            ExpressionView::CircuitStaticFunctionAccess(
                Box::new(expression_view(*circuit)),
                member@,
                span@,
            )
        },
        Expression::FunctionCall(function, arguments, span) => ExpressionView::FunctionCall(
            Box::new(expression_view(*function)),
            expressions_view(arguments@),
            span@,
        ),
    }
}

/// The mathematical value of an element of an array expression.
pub open spec fn spread_view(s: SpreadOrExpression) -> SpreadOrExpressionView
    decreases s,
{
    match s {
        SpreadOrExpression::Spread(e) => SpreadOrExpressionView::Spread(expression_view(e)),
        SpreadOrExpression::Expression(e) => SpreadOrExpressionView::Expression(
            expression_view(e),
        ),
    }
}

/// The mathematical value of an optional bound of a range.
pub open spec fn optional_view(e: Option<Expression>) -> Option<ExpressionView>
    decreases e,
{
    match e {
        Some(e) => Some(expression_view(e)),
        None => None,
    }
}

/// The mathematical value of the index of an array access.
pub open spec fn range_view(r: RangeOrExpression) -> RangeOrExpressionView
    decreases r,
{
    match r {
        RangeOrExpression::Range(from, to) => RangeOrExpressionView::Range(
            optional_view(from),
            optional_view(to),
        ),
        RangeOrExpression::Expression(e) => RangeOrExpressionView::Expression(expression_view(e)),
    }
}

/// The mathematical value of a member of a circuit expression.
pub open spec fn field_view(f: CircuitFieldDefinition) -> CircuitFieldDefinitionView
    decreases f,
{
    CircuitFieldDefinitionView {
        identifier: f.identifier@,
        expression: expression_view(f.expression),
    }
}

/// The views of a run of expressions, in order.
pub open spec fn expressions_view(s: Seq<Expression>) -> Seq<ExpressionView>
    decreases s,
{
    Seq::new(
        s.len(),
        |i: int|
            if 0 <= i < s.len() {
                expression_view(s[i])
            } else {
                arbitrary()
            },
    )
}

/// The views of the elements of an array expression, in order.
pub open spec fn spreads_view(s: Seq<Box<SpreadOrExpression>>) -> Seq<SpreadOrExpressionView>
    decreases s,
{
    Seq::new(
        s.len(),
        |i: int|
            if 0 <= i < s.len() {
                spread_view(*s[i])
            } else {
                arbitrary()
            },
    )
}

/// The views of the members of a circuit expression, in order.
pub open spec fn fields_view(s: Seq<CircuitFieldDefinition>) -> Seq<CircuitFieldDefinitionView>
    decreases s,
{
    Seq::new(
        s.len(),
        |i: int|
            if 0 <= i < s.len() {
                field_view(s[i])
            } else {
                arbitrary()
            },
    )
}

impl View for Expression {
    type V = ExpressionView;

    open spec fn view(&self) -> ExpressionView {
        expression_view(*self)
    }
}

impl View for SpreadOrExpression {
    type V = SpreadOrExpressionView;

    open spec fn view(&self) -> SpreadOrExpressionView {
        spread_view(*self)
    }
}

impl View for RangeOrExpression {
    type V = RangeOrExpressionView;

    open spec fn view(&self) -> RangeOrExpressionView {
        range_view(*self)
    }
}

impl View for CircuitFieldDefinition {
    type V = CircuitFieldDefinitionView;

    open spec fn view(&self) -> CircuitFieldDefinitionView {
        field_view(*self)
    }
}

/// A copy of `e` that owns all of its nodes.
pub fn clone_expression(e: &Expression) -> (copy: Expression)
    ensures
        copy@ == e@,
    decreases e,
{
    match e {
        Expression::Identifier(identifier) => Expression::Identifier(identifier.clone()),
        Expression::Integer(integer) => Expression::Integer(*integer),
        Expression::Field(field) => Expression::Field(field.clone()),
        Expression::Group(group) => Expression::Group(group.clone()),
        Expression::Boolean(value) => Expression::Boolean(*value),
        Expression::Implicit(number) => Expression::Implicit(number.clone()),
        Expression::Add(l, r, span) => Expression::Add(
            Box::new(clone_expression(l)),
            Box::new(clone_expression(r)),
            span.clone(),
        ),
        Expression::Sub(l, r, span) => Expression::Sub(
            Box::new(clone_expression(l)),
            Box::new(clone_expression(r)),
            span.clone(),
        ),
        Expression::Mul(l, r, span) => Expression::Mul(
            Box::new(clone_expression(l)),
            Box::new(clone_expression(r)),
            span.clone(),
        ),
        Expression::Div(l, r, span) => Expression::Div(
            Box::new(clone_expression(l)),
            Box::new(clone_expression(r)),
            span.clone(),
        ),
        Expression::Pow(l, r, span) => Expression::Pow(
            Box::new(clone_expression(l)),
            Box::new(clone_expression(r)),
            span.clone(),
        ),
        Expression::Or(l, r, span) => Expression::Or(
            Box::new(clone_expression(l)),
            Box::new(clone_expression(r)),
            span.clone(),
        ),
        Expression::And(l, r, span) => Expression::And(
            Box::new(clone_expression(l)),
            Box::new(clone_expression(r)),
            span.clone(),
        ),
        Expression::Eq(l, r, span) => Expression::Eq(
            Box::new(clone_expression(l)),
            Box::new(clone_expression(r)),
            span.clone(),
        ),
        Expression::Ge(l, r, span) => Expression::Ge(
            Box::new(clone_expression(l)),
            Box::new(clone_expression(r)),
            span.clone(),
        ),
        Expression::Gt(l, r, span) => Expression::Gt(
            Box::new(clone_expression(l)),
            Box::new(clone_expression(r)),
            span.clone(),
        ),
        Expression::Le(l, r, span) => Expression::Le(
            Box::new(clone_expression(l)),
            Box::new(clone_expression(r)),
            span.clone(),
        ),
        Expression::Lt(l, r, span) => Expression::Lt(
            Box::new(clone_expression(l)),
            Box::new(clone_expression(r)),
            span.clone(),
        ),
        Expression::Not(inner) => Expression::Not(Box::new(clone_expression(inner))),
        Expression::IfElse(first, second, third, span) => Expression::IfElse(
            Box::new(clone_expression(first)),
            Box::new(clone_expression(second)),
            Box::new(clone_expression(third)),
            span.clone(),
        ),
        Expression::Array(items, span) => {
            let mut copies: Vec<Box<SpreadOrExpression>> = Vec::new();
            let mut i: usize = 0;
            while i < items.len()
                invariant
                    i <= items.len(),
                    copies.len() == i,
                    decreases_to!(e => items),
                    forall|j: int| 0 <= j < i ==> (#[trigger] copies@[j])@ == items@[j]@,
                decreases items.len() - i,
            {
                copies.push(Box::new(clone_spread(&items[i])));
                i = i + 1;
            }
            assert(spreads_view(copies@) =~= spreads_view(items@));
            Expression::Array(copies, span.clone())
        },
        Expression::ArrayAccess(array, index, span) => Expression::ArrayAccess(
            Box::new(clone_expression(array)),
            Box::new(clone_range(index)),
            span.clone(),
        ),
        Expression::Circuit(name, members, span) => {
            let mut copies: Vec<CircuitFieldDefinition> = Vec::new();
            let mut i: usize = 0;
            while i < members.len()
                invariant
                    i <= members.len(),
                    copies.len() == i,
                    decreases_to!(e => members),
                    forall|j: int| 0 <= j < i ==> (#[trigger] copies@[j])@ == members@[j]@,
                decreases members.len() - i,
            {
                copies.push(clone_field(&members[i]));
                i = i + 1;
            }
            assert(fields_view(copies@) =~= fields_view(members@));
            Expression::Circuit(name.clone(), copies, span.clone())
        },
        Expression::CircuitMemberAccess(circuit, member, span) => Expression::CircuitMemberAccess(
            Box::new(clone_expression(circuit)),
            member.clone(),
            span.clone(),
        ),
        Expression::CircuitStaticFunctionAccess(circuit, member, span) => {
            Expression::CircuitStaticFunctionAccess(
                Box::new(clone_expression(circuit)),
                member.clone(),
                span.clone(),
            )
        },
        Expression::FunctionCall(function, arguments, span) => {
            let mut copies: Vec<Expression> = Vec::new();
            let mut i: usize = 0;
            while i < arguments.len()
                invariant
                    i <= arguments.len(),
                    copies.len() == i,
                    decreases_to!(e => arguments),
                    forall|j: int| 0 <= j < i ==> (#[trigger] copies@[j])@ == arguments@[j]@,
                decreases arguments.len() - i,
            {
                copies.push(clone_expression(&arguments[i]));
                i = i + 1;
            }
            assert(expressions_view(copies@) =~= expressions_view(arguments@));
            Expression::FunctionCall(Box::new(clone_expression(function)), copies, span.clone())
        },
    }
}

/// A copy of `s` that owns all of its nodes.
pub fn clone_spread(s: &SpreadOrExpression) -> (copy: SpreadOrExpression)
    ensures
        copy@ == s@,
    decreases s,
{
    match s {
        SpreadOrExpression::Spread(e) => SpreadOrExpression::Spread(clone_expression(e)),
        SpreadOrExpression::Expression(e) => SpreadOrExpression::Expression(clone_expression(e)),
    }
}

/// A copy of `r` that owns all of its nodes.
pub fn clone_range(r: &RangeOrExpression) -> (copy: RangeOrExpression)
    ensures
        copy@ == r@,
    decreases r,
{
    match r {
        RangeOrExpression::Range(from, to) => {
            let from_copy = match from {
                Some(e) => Some(clone_expression(e)),
                None => None,
            };
            let to_copy = match to {
                Some(e) => Some(clone_expression(e)),
                None => None,
            };
            RangeOrExpression::Range(from_copy, to_copy)
        },
        RangeOrExpression::Expression(e) => RangeOrExpression::Expression(clone_expression(e)),
    }
}

/// A copy of `f` that owns all of its nodes.
pub fn clone_field(f: &CircuitFieldDefinition) -> (copy: CircuitFieldDefinition)
    ensures
        copy@ == f@,
    decreases f,
{
    CircuitFieldDefinition {
        identifier: f.identifier.clone(),
        expression: clone_expression(&f.expression),
    }
}

impl Expression {
    /// Whether the node is a binary node.
    pub fn is_binary(&self) -> (binary: bool)
        ensures
            binary == (self@ is Binary),
    {
        self.as_binary().is_some()
    }

    /// Whether the node is a negation.
    pub fn is_not(&self) -> (negation: bool)
        ensures
            negation == (self@ is Not),
    {
        match self {
            Expression::Not(_) => true,
            _ => false,
        }
    }

    /// The operator, the operands and the source position of a binary node;
    /// nothing for any other node.
    pub fn as_binary(&self) -> (parts: Option<(Operator, &Expression, &Expression, &Span)>)
        ensures
            match parts {
                Some((operator, left, right, span)) => {
                    &&& self@ == binary_view(operator, left@, right@, span@)
                    &&& decreases_to!(self => left)
                    &&& decreases_to!(self => right)
                },
                None => !(self@ is Binary),
            },
    {
        match self {
            Expression::Add(left, right, span) => Some((Operator::Add, &**left, &**right, span)),
            Expression::Sub(left, right, span) => Some((Operator::Sub, &**left, &**right, span)),
            Expression::Mul(left, right, span) => Some((Operator::Mul, &**left, &**right, span)),
            Expression::Div(left, right, span) => Some((Operator::Div, &**left, &**right, span)),
            Expression::Pow(left, right, span) => Some((Operator::Pow, &**left, &**right, span)),
            Expression::Or(left, right, span) => Some((Operator::Or, &**left, &**right, span)),
            Expression::And(left, right, span) => Some((Operator::And, &**left, &**right, span)),
            Expression::Eq(left, right, span) => Some((Operator::Eq, &**left, &**right, span)),
            Expression::Ge(left, right, span) => Some((Operator::Ge, &**left, &**right, span)),
            Expression::Gt(left, right, span) => Some((Operator::Gt, &**left, &**right, span)),
            Expression::Le(left, right, span) => Some((Operator::Le, &**left, &**right, span)),
            Expression::Lt(left, right, span) => Some((Operator::Lt, &**left, &**right, span)),
            _ => None,
        }
    }
}

impl Clone for Expression {
    fn clone(&self) -> (copy: Self)
        ensures
            copy@ == self@,
    {
        clone_expression(self)
    }
}

impl Clone for SpreadOrExpression {
    fn clone(&self) -> (copy: Self)
        ensures
            copy@ == self@,
    {
        clone_spread(self)
    }
}

impl Clone for RangeOrExpression {
    fn clone(&self) -> (copy: Self)
        ensures
            copy@ == self@,
    {
        clone_range(self)
    }
}

impl Clone for CircuitFieldDefinition {
    fn clone(&self) -> (copy: Self)
        ensures
            copy@ == self@,
    {
        clone_field(self)
    }
}

} // verus!
