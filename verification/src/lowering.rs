//! Lowering: from the parse tree of an expression to the typed expression tree.
//!
//! Lowering emits no constraints. It reads literal text (integers, booleans,
//! the count of an array initializer), folds a chain of accesses into nested
//! nodes, expands `[e; n]` into `n` copies of `e`, and keeps every source
//! position. Operands are lowered from left to right, and the first failure
//! is the one reported.

use crate::ast::{
    AstAccess, AstAccessView, AstAssignee, AstAssigneeAccess, AstAssigneeAccessView,
    AstAssigneeView, AstCircuitField, AstCircuitFieldView, AstExpression, AstExpressionView,
    AstRangeOrExpression, AstRangeOrExpressionView, AstSpreadOrExpression,
    AstSpreadOrExpressionView, AstValue, AstValueView, BinaryOperation, ast_accesses_view,
    ast_assignee_accesses_view, ast_expressions_view, ast_fields_view, ast_optional_view,
    ast_spreads_view,
};
use crate::decimal::{bounded_literal, parse_unsigned};
use crate::expression::{
    CircuitFieldDefinition, CircuitFieldDefinitionView, Expression, ExpressionView, Operator,
    RangeOrExpression, RangeOrExpressionView, SpreadOrExpression, SpreadOrExpressionView,
    binary_view, clone_spread, expressions_view, fields_view, optional_view, spreads_view,
};
use crate::integer::{Integer, IntegerType};
use crate::span::{Identifier, IdentifierView, Span, SpanView};
use vstd::prelude::*;
use vstd::string::StringExecFns;

verus! {

/// Why a parse tree cannot be lowered.
#[derive(Clone, Copy, Debug, PartialEq, Eq, Structural)]
pub enum ExpressionError {
    /// The count of an array initializer is no integer.
    ArraySizeNotInteger,
    /// The count of an array initializer cannot be read as a size.
    ArraySizeUnreadable,
    /// The text of a boolean literal is neither `true` nor `false`.
    InvalidBoolean,
    /// The number of an integer literal is no number of its type.
    InvalidInteger,
}

/// The operator that a token lowers to. Unequal has no operator of its own:
/// it is the negation of equal.
pub open spec fn operator_of(operation: BinaryOperation) -> Operator {
    match operation {
        BinaryOperation::Or => Operator::Or,
        BinaryOperation::And => Operator::And,
        BinaryOperation::Eq => Operator::Eq,
        BinaryOperation::Ne => Operator::Eq,
        BinaryOperation::Ge => Operator::Ge,
        BinaryOperation::Gt => Operator::Gt,
        BinaryOperation::Le => Operator::Le,
        BinaryOperation::Lt => Operator::Lt,
        BinaryOperation::Add => Operator::Add,
        BinaryOperation::Sub => Operator::Sub,
        BinaryOperation::Mul => Operator::Mul,
        BinaryOperation::Div => Operator::Div,
        BinaryOperation::Pow => Operator::Pow,
    }
}

/// The node for `left operation right`, both operands lowered already.
pub open spec fn lower_binary(
    operation: BinaryOperation,
    left: ExpressionView,
    right: ExpressionView,
    span: SpanView,
) -> ExpressionView {
    if operation == BinaryOperation::Ne {
        ExpressionView::Not(Box::new(binary_view(Operator::Eq, left, right, span)))
    } else {
        binary_view(operator_of(operation), left, right, span)
    }
}

/// The truth value that the text of a boolean literal denotes.
pub open spec fn lower_boolean(text: Seq<char>) -> Result<bool, ExpressionError> {
    if text == "true"@ {
        Ok(true)
    } else if text == "false"@ {
        Ok(false)
    } else {
        Err(ExpressionError::InvalidBoolean)
    }
}

/// The integer that a number denotes in the given type.
pub open spec fn lower_integer(number: Seq<char>, integer_type: IntegerType) -> Result<
    Integer,
    ExpressionError,
> {
    match bounded_literal(number, integer_type.max_value()) {
        Some(n) => Ok(Integer::of(integer_type, n)),
        None => Err(ExpressionError::InvalidInteger),
    }
}

/// The expression that a literal lowers to.
pub open spec fn lower_value(value: AstValueView) -> Result<ExpressionView, ExpressionError> {
    match value {
        AstValueView::Integer(number, integer_type) => match lower_integer(number, integer_type) {
            Ok(integer) => Ok(ExpressionView::Integer(integer)),
            Err(e) => Err(e),
        },
        AstValueView::Field(number) => Ok(ExpressionView::Field(number)),
        AstValueView::Group(text) => Ok(ExpressionView::Group(text)),
        AstValueView::Boolean(text) => match lower_boolean(text) {
            Ok(value) => Ok(ExpressionView::Boolean(value)),
            Err(e) => Err(e),
        },
        AstValueView::Implicit(number) => Ok(ExpressionView::Implicit(number)),
    }
}

/// The number of elements that the count of an array initializer asks for.
/// The count is an integer literal, whose type plays no part, or a number
/// without a type; it has to fit the machine's size type.
pub open spec fn array_count(count: AstValueView) -> Result<nat, ExpressionError> {
    match count {
        AstValueView::Integer(number, _) => match bounded_literal(number, usize::MAX as nat) {
            Some(n) => Ok(n),
            None => Err(ExpressionError::ArraySizeUnreadable),
        },
        AstValueView::Implicit(number) => match bounded_literal(number, usize::MAX as nat) {
            Some(n) => Ok(n),
            None => Err(ExpressionError::ArraySizeUnreadable),
        },
        _ => Err(ExpressionError::ArraySizeNotInteger),
    }
}

/// The expression tree that a parse tree lowers to, or the first failure met.
pub open spec fn lower(e: AstExpressionView) -> Result<ExpressionView, ExpressionError>
    decreases e,
{
    match e {
        AstExpressionView::Value(value) => lower_value(value),
        AstExpressionView::Identifier(identifier) => Ok(ExpressionView::Identifier(identifier)),
        AstExpressionView::Not(inner) => match lower(*inner) {
            Ok(inner) => Ok(ExpressionView::Not(Box::new(inner))),
            Err(e) => Err(e),
        },
        AstExpressionView::Binary(operation, left, right, span) => match lower(*left) {
            Ok(left) => match lower(*right) {
                Ok(right) => Ok(lower_binary(operation, left, right, span)),
                Err(e) => Err(e),
            },
            Err(e) => Err(e),
        },
        AstExpressionView::Ternary(first, second, third, span) => match lower(*first) {
            Ok(first) => match lower(*second) {
                Ok(second) => match lower(*third) {
                    Ok(third) => Ok(
                        ExpressionView::IfElse(
                            Box::new(first),
                            Box::new(second),
                            Box::new(third),
                            span,
                        ),
                    ),
                    Err(e) => Err(e),
                },
                Err(e) => Err(e),
            },
            Err(e) => Err(e),
        },
        AstExpressionView::ArrayInline(items, span) => match lower_spreads(items) {
            Ok(items) => Ok(ExpressionView::Array(items, span)),
            Err(e) => Err(e),
        },
        AstExpressionView::ArrayInitializer(item, count, span) => match array_count(count) {
            Ok(n) => match lower_spread(*item) {
                Ok(item) => Ok(ExpressionView::Array(Seq::new(n, |i: int| item), span)),
                Err(e) => Err(e),
            },
            Err(e) => Err(e),
        },
        AstExpressionView::CircuitInline(name, members, span) => match lower_fields(members) {
            Ok(members) => Ok(ExpressionView::Circuit(name, members, span)),
            Err(e) => Err(e),
        },
        AstExpressionView::Postfix(name, accesses, span) => lower_accesses(name, accesses),
    }
}

/// The element of an array expression that an element of the parse tree lowers to.
pub open spec fn lower_spread(s: AstSpreadOrExpressionView) -> Result<
    SpreadOrExpressionView,
    ExpressionError,
>
    decreases s,
{
    match s {
        AstSpreadOrExpressionView::Spread(e) => match lower(e) {
            Ok(e) => Ok(SpreadOrExpressionView::Spread(e)),
            Err(e) => Err(e),
        },
        AstSpreadOrExpressionView::Expression(e) => match lower(e) {
            Ok(e) => Ok(SpreadOrExpressionView::Expression(e)),
            Err(e) => Err(e),
        },
    }
}

/// An optional bound of a range, lowered where there is one.
///
/// Proofs see the definition after `reveal(lower_optional)`.
#[verifier::opaque]
pub open spec fn lower_optional(e: Option<AstExpressionView>) -> Result<
    Option<ExpressionView>,
    ExpressionError,
>
    decreases e,
{
    match e {
        Some(e) => match lower(e) {
            Ok(e) => Ok(Some(e)),
            Err(e) => Err(e),
        },
        None => Ok(None),
    }
}

/// The index of an array access: the lower bound is lowered before the upper one.
pub open spec fn lower_range(r: AstRangeOrExpressionView) -> Result<
    RangeOrExpressionView,
    ExpressionError,
>
    decreases r,
{
    match r {
        AstRangeOrExpressionView::Range(from, to) => match lower_optional(from) {
            Ok(from) => match lower_optional(to) {
                Ok(to) => Ok(RangeOrExpressionView::Range(from, to)),
                Err(e) => Err(e),
            },
            Err(e) => Err(e),
        },
        AstRangeOrExpressionView::Expression(e) => match lower(e) {
            Ok(e) => Ok(RangeOrExpressionView::Expression(e)),
            Err(e) => Err(e),
        },
    }
}

/// The member of a circuit expression that a member of the parse tree lowers to.
///
/// Proofs see the definition after `reveal(lower_field)`.
#[verifier::opaque]
pub open spec fn lower_field(f: AstCircuitFieldView) -> Result<
    CircuitFieldDefinitionView,
    ExpressionError,
>
    decreases f,
{
    match lower(f.expression) {
        Ok(expression) => Ok(
            CircuitFieldDefinitionView { identifier: f.identifier, expression: expression },
        ),
        Err(e) => Err(e),
    }
}

/// A run of expressions, lowered in order.
pub open spec fn lower_expressions(s: Seq<AstExpressionView>) -> Result<
    Seq<ExpressionView>,
    ExpressionError,
>
    decreases s,
{
    if s.len() == 0 {
        Ok(Seq::empty())
    } else {
        match lower_expressions(s.drop_last()) {
            Ok(front) => match lower(s.last()) {
                Ok(last) => Ok(front.push(last)),
                Err(e) => Err(e),
            },
            Err(e) => Err(e),
        }
    }
}

/// The elements of an inline array, lowered in order.
pub open spec fn lower_spreads(s: Seq<AstSpreadOrExpressionView>) -> Result<
    Seq<SpreadOrExpressionView>,
    ExpressionError,
>
    decreases s,
{
    if s.len() == 0 {
        Ok(Seq::empty())
    } else {
        match lower_spreads(s.drop_last()) {
            Ok(front) => match lower_spread(s.last()) {
                Ok(last) => Ok(front.push(last)),
                Err(e) => Err(e),
            },
            Err(e) => Err(e),
        }
    }
}

/// The members of an inline circuit, lowered in order.
pub open spec fn lower_fields(s: Seq<AstCircuitFieldView>) -> Result<
    Seq<CircuitFieldDefinitionView>,
    ExpressionError,
>
    decreases s,
{
    if s.len() == 0 {
        Ok(Seq::empty())
    } else {
        match lower_fields(s.drop_last()) {
            Ok(front) => match lower_field(s.last()) {
                Ok(last) => Ok(front.push(last)),
                Err(e) => Err(e),
            },
            Err(e) => Err(e),
        }
    }
}

/// One access, applied to the expression lowered so far.
pub open spec fn lower_access(inner: ExpressionView, access: AstAccessView) -> Result<
    ExpressionView,
    ExpressionError,
>
    decreases access,
{
    match access {
        AstAccessView::Array(index, span) => match lower_range(index) {
            Ok(index) => Ok(ExpressionView::ArrayAccess(Box::new(inner), Box::new(index), span)),
            Err(e) => Err(e),
        },
        AstAccessView::Call(arguments, span) => match lower_expressions(arguments) {
            Ok(arguments) => Ok(ExpressionView::FunctionCall(Box::new(inner), arguments, span)),
            Err(e) => Err(e),
        },
        AstAccessView::Object(member, span) => Ok(
            ExpressionView::CircuitMemberAccess(Box::new(inner), member, span),
        ),
        AstAccessView::StaticObject(member, span) => Ok(
            ExpressionView::CircuitStaticFunctionAccess(Box::new(inner), member, span),
        ),
    }
}

/// A name followed by accesses. The accesses apply in the order in which they
/// are written: the first wraps the name, and the last is the outermost node.
pub open spec fn lower_accesses(name: IdentifierView, accesses: Seq<AstAccessView>) -> Result<
    ExpressionView,
    ExpressionError,
>
    decreases accesses,
{
    if accesses.len() == 0 {
        Ok(ExpressionView::Identifier(name))
    } else {
        match lower_accesses(name, accesses.drop_last()) {
            Ok(inner) => lower_access(inner, accesses.last()),
            Err(e) => Err(e),
        }
    }
}

/// One access of an assignee, applied to the expression lowered so far.
pub open spec fn lower_assignee_access(
    inner: ExpressionView,
    access: AstAssigneeAccessView,
) -> Result<ExpressionView, ExpressionError> {
    match access {
        AstAssigneeAccessView::Array(index, span) => match lower_range(index) {
            Ok(index) => Ok(ExpressionView::ArrayAccess(Box::new(inner), Box::new(index), span)),
            Err(e) => Err(e),
        },
        AstAssigneeAccessView::Member(member, span) => Ok(
            ExpressionView::CircuitMemberAccess(Box::new(inner), member, span),
        ),
    }
}

/// The name of an assignee followed by its accesses, applied in the order in
/// which they are written.
pub open spec fn lower_assignee_accesses(
    name: IdentifierView,
    accesses: Seq<AstAssigneeAccessView>,
) -> Result<ExpressionView, ExpressionError>
    decreases accesses.len(),
{
    if accesses.len() == 0 {
        Ok(ExpressionView::Identifier(name))
    } else {
        match lower_assignee_accesses(name, accesses.drop_last()) {
            Ok(inner) => lower_assignee_access(inner, accesses.last()),
            Err(e) => Err(e),
        }
    }
}

/// The expression that the left side of an assignment lowers to.
pub open spec fn lower_assignee(assignee: AstAssigneeView) -> Result<
    ExpressionView,
    ExpressionError,
> {
    lower_assignee_accesses(assignee.identifier, assignee.accesses)
}

/// The outcome of lowering, with the tree it holds taken by its view.
pub open spec fn view_result<T: View>(r: Result<T, ExpressionError>) -> Result<
    T::V,
    ExpressionError,
> {
    match r {
        Ok(t) => Ok(t@),
        Err(e) => Err(e),
    }
}

/// Where a front part of a run of expressions fails to lower, the whole fails
/// in the same way.
proof fn lemma_expressions_error_persists(s: Seq<AstExpressionView>, k: int)
    requires
        0 <= k <= s.len(),
        lower_expressions(s.take(k)) is Err,
    ensures
        lower_expressions(s) == lower_expressions(s.take(k)),
    decreases s.len() - k,
{
    if k == s.len() {
        assert(s.take(k) =~= s);
    } else {
        assert(s.drop_last().take(k) =~= s.take(k));
        lemma_expressions_error_persists(s.drop_last(), k);
    }
}

/// Where a front part of the elements of an inline array fails to lower, the whole fails
/// in the same way.
proof fn lemma_spreads_error_persists(s: Seq<AstSpreadOrExpressionView>, k: int)
    requires
        0 <= k <= s.len(),
        lower_spreads(s.take(k)) is Err,
    ensures
        lower_spreads(s) == lower_spreads(s.take(k)),
    decreases s.len() - k,
{
    if k == s.len() {
        assert(s.take(k) =~= s);
    } else {
        assert(s.drop_last().take(k) =~= s.take(k));
        lemma_spreads_error_persists(s.drop_last(), k);
    }
}

/// Where a front part of the members of an inline circuit fails to lower, the whole fails
/// in the same way.
proof fn lemma_fields_error_persists(s: Seq<AstCircuitFieldView>, k: int)
    requires
        0 <= k <= s.len(),
        lower_fields(s.take(k)) is Err,
    ensures
        lower_fields(s) == lower_fields(s.take(k)),
    decreases s.len() - k,
{
    if k == s.len() {
        assert(s.take(k) =~= s);
    } else {
        assert(s.drop_last().take(k) =~= s.take(k));
        lemma_fields_error_persists(s.drop_last(), k);
    }
}

/// Where a front part of a chain of accesses fails to lower, the whole fails
/// in the same way.
proof fn lemma_accesses_error_persists(name: IdentifierView, s: Seq<AstAccessView>, k: int)
    requires
        0 <= k <= s.len(),
        lower_accesses(name, s.take(k)) is Err,
    ensures
        lower_accesses(name, s) == lower_accesses(name, s.take(k)),
    decreases s.len() - k,
{
    if k == s.len() {
        assert(s.take(k) =~= s);
    } else {
        assert(s.drop_last().take(k) =~= s.take(k));
        lemma_accesses_error_persists(name, s.drop_last(), k);
    }
}

/// Where a front part of the accesses of an assignee fails to lower, the whole fails
/// in the same way.
proof fn lemma_assignee_accesses_error_persists(
    name: IdentifierView,
    s: Seq<AstAssigneeAccessView>,
    k: int,
)
    requires
        0 <= k <= s.len(),
        lower_assignee_accesses(name, s.take(k)) is Err,
    ensures
        lower_assignee_accesses(name, s) == lower_assignee_accesses(name, s.take(k)),
    decreases s.len() - k,
{
    if k == s.len() {
        assert(s.take(k) =~= s);
    } else {
        assert(s.drop_last().take(k) =~= s.take(k));
        lemma_assignee_accesses_error_persists(name, s.drop_last(), k);
    }
}

/// Lowering a run of expressions succeeds exactly when every one of them
/// lowers, and then gives the lowered ones in the same order. Where it fails,
/// it fails as the first one that does not lower.
#[verifier::spinoff_prover]
pub proof fn lemma_expressions_elementwise(s: Seq<AstExpressionView>)
    ensures
        match lower_expressions(s) {
            Ok(lowered) => {
                &&& lowered.len() == s.len()
                &&& forall|i: int|
                    0 <= i < s.len() ==> lower(#[trigger] s[i]) == Ok::<
                        ExpressionView,
                        ExpressionError,
                    >(lowered[i])
            },
            Err(e) => exists|i: int|
                {
                    &&& 0 <= i < s.len()
                    &&& lower(#[trigger] s[i]) == Err::<ExpressionView, ExpressionError>(e)
                    &&& forall|j: int| 0 <= j < i ==> lower(#[trigger] s[j]) is Ok
                },
        },
    decreases s.len(),
{
    if s.len() > 0 {
        let front = s.drop_last();
        lemma_expressions_elementwise(front);
        match lower_expressions(front) {
            Ok(lowered_front) => {
                assert forall|j: int| 0 <= j < front.len() implies lower(#[trigger] s[j]) is Ok by {
                    assert(s[j] == front[j]);
                }
                match lower(s.last()) {
                    Ok(last) => {
                        let lowered = lowered_front.push(last);
                        assert forall|i: int| 0 <= i < s.len() implies lower(#[trigger] s[i])
                            == Ok::<ExpressionView, ExpressionError>(lowered[i]) by {
                            if i < front.len() {
                                assert(s[i] == front[i]);
                            }
                        }
                    },
                    Err(e) => {
                        let i = s.len() - 1;
                        assert(lower(s[i]) == Err::<ExpressionView, ExpressionError>(e));
                    },
                }
            },
            Err(e) => {
                let i = choose|i: int|
                    {
                        &&& 0 <= i < front.len()
                        &&& lower(#[trigger] front[i]) == Err::<ExpressionView, ExpressionError>(e)
                        &&& forall|j: int| 0 <= j < i ==> lower(#[trigger] front[j]) is Ok
                    };
                assert(s[i] == front[i]);
                assert forall|j: int| 0 <= j < i implies lower(#[trigger] s[j]) is Ok by {
                    assert(s[j] == front[j]);
                }
            },
        }
    }
}

/// Lowering the elements of an inline array succeeds exactly when every one of
/// them lowers, and then gives the lowered ones in the same order. Where it
/// fails, it fails as the first one that does not lower.
#[verifier::spinoff_prover]
pub proof fn lemma_spreads_elementwise(s: Seq<AstSpreadOrExpressionView>)
    ensures
        match lower_spreads(s) {
            Ok(lowered) => {
                &&& lowered.len() == s.len()
                &&& forall|i: int|
                    0 <= i < s.len() ==> lower_spread(#[trigger] s[i]) == Ok::<
                        SpreadOrExpressionView,
                        ExpressionError,
                    >(lowered[i])
            },
            Err(e) => exists|i: int|
                {
                    &&& 0 <= i < s.len()
                    &&& lower_spread(#[trigger] s[i]) == Err::<
                        SpreadOrExpressionView,
                        ExpressionError,
                    >(e)
                    &&& forall|j: int| 0 <= j < i ==> lower_spread(#[trigger] s[j]) is Ok
                },
        },
    decreases s.len(),
{
    if s.len() > 0 {
        let front = s.drop_last();
        lemma_spreads_elementwise(front);
        match lower_spreads(front) {
            Ok(lowered_front) => {
                assert forall|j: int| 0 <= j < front.len() implies lower_spread(
                    #[trigger] s[j],
                ) is Ok by {
                    assert(s[j] == front[j]);
                }
                match lower_spread(s.last()) {
                    Ok(last) => {
                        let lowered = lowered_front.push(last);
                        assert forall|i: int| 0 <= i < s.len() implies lower_spread(#[trigger] s[i])
                            == Ok::<SpreadOrExpressionView, ExpressionError>(lowered[i]) by {
                            if i < front.len() {
                                assert(s[i] == front[i]);
                            }
                        }
                    },
                    Err(e) => {
                        let i = s.len() - 1;
                        assert(lower_spread(s[i]) == Err::<
                            SpreadOrExpressionView,
                            ExpressionError,
                        >(e));
                    },
                }
            },
            Err(e) => {
                let i = choose|i: int|
                    {
                        &&& 0 <= i < front.len()
                        &&& lower_spread(#[trigger] front[i]) == Err::<
                            SpreadOrExpressionView,
                            ExpressionError,
                        >(e)
                        &&& forall|j: int| 0 <= j < i ==> lower_spread(#[trigger] front[j]) is Ok
                    };
                assert(s[i] == front[i]);
                assert forall|j: int| 0 <= j < i implies lower_spread(#[trigger] s[j]) is Ok by {
                    assert(s[j] == front[j]);
                }
            },
        }
    }
}

/// Lowering the members of an inline circuit succeeds exactly when every one of
/// them lowers, and then gives the lowered ones in the same order. Where it
/// fails, it fails as the first one that does not lower.
#[verifier::spinoff_prover]
pub proof fn lemma_fields_elementwise(s: Seq<AstCircuitFieldView>)
    ensures
        match lower_fields(s) {
            Ok(lowered) => {
                &&& lowered.len() == s.len()
                &&& forall|i: int|
                    0 <= i < s.len() ==> lower_field(#[trigger] s[i]) == Ok::<
                        CircuitFieldDefinitionView,
                        ExpressionError,
                    >(lowered[i])
            },
            Err(e) => exists|i: int|
                {
                    &&& 0 <= i < s.len()
                    &&& lower_field(#[trigger] s[i]) == Err::<
                        CircuitFieldDefinitionView,
                        ExpressionError,
                    >(e)
                    &&& forall|j: int| 0 <= j < i ==> lower_field(#[trigger] s[j]) is Ok
                },
        },
    decreases s.len(),
{
    if s.len() > 0 {
        let front = s.drop_last();
        lemma_fields_elementwise(front);
        match lower_fields(front) {
            Ok(lowered_front) => {
                assert forall|j: int| 0 <= j < front.len() implies lower_field(
                    #[trigger] s[j],
                ) is Ok by {
                    assert(s[j] == front[j]);
                }
                match lower_field(s.last()) {
                    Ok(last) => {
                        let lowered = lowered_front.push(last);
                        assert forall|i: int| 0 <= i < s.len() implies lower_field(#[trigger] s[i])
                            == Ok::<CircuitFieldDefinitionView, ExpressionError>(lowered[i]) by {
                            if i < front.len() {
                                assert(s[i] == front[i]);
                            }
                        }
                    },
                    Err(e) => {
                        let i = s.len() - 1;
                        assert(lower_field(s[i]) == Err::<
                            CircuitFieldDefinitionView,
                            ExpressionError,
                        >(e));
                    },
                }
            },
            Err(e) => {
                let i = choose|i: int|
                    {
                        &&& 0 <= i < front.len()
                        &&& lower_field(#[trigger] front[i]) == Err::<
                            CircuitFieldDefinitionView,
                            ExpressionError,
                        >(e)
                        &&& forall|j: int| 0 <= j < i ==> lower_field(#[trigger] front[j]) is Ok
                    };
                assert(s[i] == front[i]);
                assert forall|j: int| 0 <= j < i implies lower_field(#[trigger] s[j]) is Ok by {
                    assert(s[j] == front[j]);
                }
            },
        }
    }
}

/// An array initializer lowers to an array of as many elements as its count
/// says, each of them the lowered initializer, at the initializer's position.
pub proof fn lemma_array_initializer_repeats(
    item: AstSpreadOrExpressionView,
    count: AstValueView,
    span: SpanView,
)
    requires
        lower(AstExpressionView::ArrayInitializer(Box::new(item), count, span)) is Ok,
    ensures
        array_count(count) is Ok,
        lower_spread(item) is Ok,
        lower(
            AstExpressionView::ArrayInitializer(Box::new(item), count, span),
        )->Ok_0 matches ExpressionView::Array(items, at) && {
            &&& at == span
            &&& items.len() == array_count(count)->Ok_0
            &&& forall|i: int| 0 <= i < items.len() ==> items[i] == lower_spread(item)->Ok_0
        },
{
}

/// The accesses of a postfix expression apply in the order in which they are
/// written: the node of the last access is the outermost, and it wraps what
/// the name and the accesses before it lower to.
pub proof fn lemma_last_access_is_outermost(name: IdentifierView, accesses: Seq<AstAccessView>)
    requires
        accesses.len() > 0,
        lower_accesses(name, accesses) is Ok,
    ensures
        lower_accesses(name, accesses.drop_last()) is Ok,
        lower_accesses(name, accesses) == lower_access(
            lower_accesses(name, accesses.drop_last())->Ok_0,
            accesses.last(),
        ),
        match accesses.last() {
            AstAccessView::Array(_, span) => lower_accesses(
                name,
                accesses,
            )->Ok_0 matches ExpressionView::ArrayAccess(inner, _, at) && *inner == lower_accesses(
                name,
                accesses.drop_last(),
            )->Ok_0 && at == span,
            AstAccessView::Call(_, span) => lower_accesses(
                name,
                accesses,
            )->Ok_0 matches ExpressionView::FunctionCall(inner, _, at) && *inner == lower_accesses(
                name,
                accesses.drop_last(),
            )->Ok_0 && at == span,
            AstAccessView::Object(member, span) => lower_accesses(name, accesses)->Ok_0
                == ExpressionView::CircuitMemberAccess(
                Box::new(lower_accesses(name, accesses.drop_last())->Ok_0),
                member,
                span,
            ),
            AstAccessView::StaticObject(member, span) => lower_accesses(name, accesses)->Ok_0
                == ExpressionView::CircuitStaticFunctionAccess(
                Box::new(lower_accesses(name, accesses.drop_last())->Ok_0),
                member,
                span,
            ),
        },
{
}

/// A conditional lowers exactly when its condition and both of its branches
/// lower: neither branch is passed over, whatever the condition is.
pub proof fn lemma_conditional_lowers_every_operand(
    first: AstExpressionView,
    second: AstExpressionView,
    third: AstExpressionView,
    span: SpanView,
)
    ensures
        lower(
            AstExpressionView::Ternary(Box::new(first), Box::new(second), Box::new(third), span),
        ) is Ok <==> lower(first) is Ok && lower(second) is Ok && lower(third) is Ok,
        lower(
            AstExpressionView::Ternary(Box::new(first), Box::new(second), Box::new(third), span),
        ) is Ok ==> lower(
            AstExpressionView::Ternary(Box::new(first), Box::new(second), Box::new(third), span),
        )->Ok_0 == ExpressionView::IfElse(
            Box::new(lower(first)->Ok_0),
            Box::new(lower(second)->Ok_0),
            Box::new(lower(third)->Ok_0),
            span,
        ),
{
}

/// Unequal has no node of its own: whatever the operands, it lowers to the
/// negation of their comparison for equality. Every other operator lowers to
/// one binary node.
pub proof fn lemma_unequal_is_not_equal(
    operation: BinaryOperation,
    left: ExpressionView,
    right: ExpressionView,
    span: SpanView,
)
    ensures
        operation == BinaryOperation::Ne ==> lower_binary(operation, left, right, span)
            == ExpressionView::Not(
            Box::new(lower_binary(BinaryOperation::Eq, left, right, span)),
        ),
        operation != BinaryOperation::Ne ==> lower_binary(operation, left, right, span) is Binary,
{
}

/// Whether `text` reads as `literal`.
fn text_is(text: &String, literal: &str) -> (same: bool)
    ensures
        same == (text@ == literal@),
{
    let other = String::from_str(literal);
    *text == other
}

impl Integer {
    /// The integer of type `integer_type` that `number` denotes.
    pub fn from_literal(number: &str, integer_type: IntegerType) -> (integer: Result<
        Integer,
        ExpressionError,
    >)
        ensures
            integer == lower_integer(number@, integer_type),
    {
        match integer_type {
            IntegerType::U8 => match parse_unsigned(number, 0xff) {
                Some(n) => Ok(Integer::U8(n as u8)),
                None => Err(ExpressionError::InvalidInteger),
            },
            IntegerType::U16 => match parse_unsigned(number, 0xffff) {
                Some(n) => Ok(Integer::U16(n as u16)),
                None => Err(ExpressionError::InvalidInteger),
            },
            IntegerType::U32 => match parse_unsigned(number, 0xffff_ffff) {
                Some(n) => Ok(Integer::U32(n as u32)),
                None => Err(ExpressionError::InvalidInteger),
            },
            IntegerType::U64 => match parse_unsigned(number, 0xffff_ffff_ffff_ffff) {
                Some(n) => Ok(Integer::U64(n as u64)),
                None => Err(ExpressionError::InvalidInteger),
            },
            IntegerType::U128 => match parse_unsigned(number, u128::MAX) {
                Some(n) => Ok(Integer::U128(n)),
                None => Err(ExpressionError::InvalidInteger),
            },
        }
    }
}

impl Expression {
    /// The number of elements that the count of an array initializer asks for.
    pub fn get_count(count: &AstValue) -> (size: Result<usize, ExpressionError>)
        ensures
            match array_count(count@) {
                Ok(n) => size == Ok::<usize, ExpressionError>(n as usize),
                Err(e) => size == Err::<usize, ExpressionError>(e),
            },
    {
        match count {
            AstValue::Integer(number, _) => match parse_unsigned(
                number.as_str(),
                usize::MAX as u128,
            ) {
                Some(n) => Ok(n as usize),
                None => Err(ExpressionError::ArraySizeUnreadable),
            },
            AstValue::Implicit(number) => match parse_unsigned(
                number.as_str(),
                usize::MAX as u128,
            ) {
                Some(n) => Ok(n as usize),
                None => Err(ExpressionError::ArraySizeUnreadable),
            },
            _ => Err(ExpressionError::ArraySizeNotInteger),
        }
    }

    /// Lowers a literal.
    pub fn from_value(value: &AstValue) -> (lowered: Result<Expression, ExpressionError>)
        ensures
            view_result(lowered) == lower_value(value@),
    {
        match value {
            AstValue::Integer(number, integer_type) => match Integer::from_literal(
                number.as_str(),
                *integer_type,
            ) {
                Ok(integer) => Ok(Expression::Integer(integer)),
                Err(e) => Err(e),
            },
            AstValue::Field(number) => Ok(Expression::Field(number.clone())),
            AstValue::Group(text) => Ok(Expression::Group(text.clone())),
            AstValue::Boolean(text) => {
                if text_is(text, "true") {
                    Ok(Expression::Boolean(true))
                } else if text_is(text, "false") {
                    Ok(Expression::Boolean(false))
                } else {
                    Err(ExpressionError::InvalidBoolean)
                }
            },
            AstValue::Implicit(number) => Ok(Expression::Implicit(number.clone())),
        }
    }

    /// The node for `left operation right`. Unequal becomes the negation of equal.
    pub fn from_binary(
        operation: BinaryOperation,
        left: Expression,
        right: Expression,
        span: Span,
    ) -> (node: Expression)
        ensures
            node@ == lower_binary(operation, left@, right@, span@),
    {
        match operation {
            BinaryOperation::Or => Expression::Or(Box::new(left), Box::new(right), span),
            BinaryOperation::And => Expression::And(Box::new(left), Box::new(right), span),
            BinaryOperation::Eq => Expression::Eq(Box::new(left), Box::new(right), span),
            BinaryOperation::Ne => {
                let equal = Expression::Eq(Box::new(left), Box::new(right), span);
                assert(equal@ == binary_view(Operator::Eq, left@, right@, span@));
                Expression::Not(Box::new(equal))
            },
            BinaryOperation::Ge => Expression::Ge(Box::new(left), Box::new(right), span),
            BinaryOperation::Gt => Expression::Gt(Box::new(left), Box::new(right), span),
            BinaryOperation::Le => Expression::Le(Box::new(left), Box::new(right), span),
            BinaryOperation::Lt => Expression::Lt(Box::new(left), Box::new(right), span),
            BinaryOperation::Add => Expression::Add(Box::new(left), Box::new(right), span),
            BinaryOperation::Sub => Expression::Sub(Box::new(left), Box::new(right), span),
            BinaryOperation::Mul => Expression::Mul(Box::new(left), Box::new(right), span),
            BinaryOperation::Div => Expression::Div(Box::new(left), Box::new(right), span),
            BinaryOperation::Pow => Expression::Pow(Box::new(left), Box::new(right), span),
        }
    }

    /// The array that `[item; count]` stands for: `count` copies of `item`,
    /// each of which owns its nodes.
    pub fn from_array_initializer(item: SpreadOrExpression, count: usize, span: Span) -> (array:
        Expression)
        ensures
            array@ == ExpressionView::Array(Seq::new(count as nat, |i: int| item@), span@),
    {
        let mut items: Vec<Box<SpreadOrExpression>> = Vec::new();
        let mut i: usize = 0;
        while i < count
            invariant
                i <= count,
                items.len() == i,
                forall|j: int| 0 <= j < i ==> (#[trigger] items@[j])@ == item@,
            decreases count - i,
        {
            items.push(Box::new(clone_spread(&item)));
            i = i + 1;
        }
        assert(spreads_view(items@) =~= Seq::new(count as nat, |i: int| item@));
        Expression::Array(items, span)
    }

    /// The node for `array[index]`.
    pub fn array_access(array: Expression, index: RangeOrExpression, span: Span) -> (node:
        Expression)
        ensures
            node@ == ExpressionView::ArrayAccess(Box::new(array@), Box::new(index@), span@),
    {
        Expression::ArrayAccess(Box::new(array), Box::new(index), span)
    }

    /// The node for `function(arguments)`.
    pub fn function_call(function: Expression, arguments: Vec<Expression>, span: Span) -> (node:
        Expression)
        ensures
            node@ == ExpressionView::FunctionCall(
                Box::new(function@),
                expressions_view(arguments@),
                span@,
            ),
    {
        Expression::FunctionCall(Box::new(function), arguments, span)
    }

    /// The node for `circuit.member`.
    pub fn member_access(circuit: Expression, member: Identifier, span: Span) -> (node: Expression)
        ensures
            node@ == ExpressionView::CircuitMemberAccess(Box::new(circuit@), member@, span@),
    {
        Expression::CircuitMemberAccess(Box::new(circuit), member, span)
    }

    /// The node for `circuit::member`.
    pub fn static_access(circuit: Expression, member: Identifier, span: Span) -> (node: Expression)
        ensures
            node@ == ExpressionView::CircuitStaticFunctionAccess(
                Box::new(circuit@),
                member@,
                span@,
            ),
    {
        Expression::CircuitStaticFunctionAccess(Box::new(circuit), member, span)
    }

    /// Lowers an expression of the parse tree.
    pub fn from_ast(e: &AstExpression) -> (lowered: Result<Expression, ExpressionError>)
        ensures
            view_result(lowered) == lower(e@),
        decreases e,
    {
        match e {
            AstExpression::Value(value) => Expression::from_value(value),
            AstExpression::Identifier(identifier) => Ok(Expression::Identifier(identifier.clone())),
            AstExpression::Not(inner) => match Expression::from_ast(inner) {
                Ok(inner) => Ok(Expression::Not(Box::new(inner))),
                Err(e) => Err(e),
            },
            AstExpression::Binary(operation, left, right, span) => {
                match Expression::from_ast(left) {
                    Ok(left) => match Expression::from_ast(right) {
                        Ok(right) => Ok(
                            Expression::from_binary(*operation, left, right, span.clone()),
                        ),
                        Err(e) => Err(e),
                    },
                    Err(e) => Err(e),
                }
            },
            AstExpression::Ternary(first, second, third, span) => {
                match Expression::from_ast(first) {
                    Ok(first) => match Expression::from_ast(second) {
                        Ok(second) => match Expression::from_ast(third) {
                            Ok(third) => Ok(
                                Expression::IfElse(
                                    Box::new(first),
                                    Box::new(second),
                                    Box::new(third),
                                    span.clone(),
                                ),
                            ),
                            Err(e) => Err(e),
                        },
                        Err(e) => Err(e),
                    },
                    Err(e) => Err(e),
                }
            },
            AstExpression::ArrayInline(items, span) => match lower_spread_list(items) {
                Ok(items) => Ok(Expression::Array(items, span.clone())),
                Err(e) => Err(e),
            },
            AstExpression::ArrayInitializer(item, count, span) => {
                match Expression::get_count(count) {
                    Ok(count) => match SpreadOrExpression::from_ast(item) {
                        Ok(item) => Ok(
                            Expression::from_array_initializer(item, count, span.clone()),
                        ),
                        Err(e) => Err(e),
                    },
                    Err(e) => Err(e),
                }
            },
            AstExpression::CircuitInline(name, members, span) => match lower_field_list(members) {
                Ok(members) => Ok(Expression::Circuit(name.clone(), members, span.clone())),
                Err(e) => Err(e),
            },
            AstExpression::Postfix(name, accesses, _span) => Expression::from_postfix(
                name,
                accesses,
            ),
        }
    }

    /// The expression tree of a parse tree that is known to lower.
    pub fn from(expression: AstExpression) -> (lowered: Expression)
        requires
            lower(expression@) is Ok,
        ensures
            lowered@ == lower(expression@)->Ok_0,
    {
        match Expression::from_ast(&expression) {
            Ok(lowered) => lowered,
            Err(_) => {
                // Not reached: the tree lowers.
                proof {
                    assert(false);
                }
                Expression::Boolean(false)
            },
        }
    }

    /// Applies one access to the expression lowered so far.
    pub fn from_access(inner: Expression, access: &AstAccess) -> (lowered: Result<
        Expression,
        ExpressionError,
    >)
        ensures
            view_result(lowered) == lower_access(inner@, access@),
        decreases access,
    {
        match access {
            AstAccess::Array(index, span) => match RangeOrExpression::from_ast(index) {
                Ok(index) => Ok(Expression::array_access(inner, index, span.clone())),
                Err(e) => Err(e),
            },
            AstAccess::Call(arguments, span) => match lower_expression_list(arguments) {
                Ok(arguments) => Ok(Expression::function_call(inner, arguments, span.clone())),
                Err(e) => Err(e),
            },
            AstAccess::Object(member, span) => Ok(
                Expression::member_access(inner, member.clone(), span.clone()),
            ),
            AstAccess::StaticObject(member, span) => Ok(
                Expression::static_access(inner, member.clone(), span.clone()),
            ),
        }
    }

    /// Lowers a name followed by accesses: starting from the name, each access
    /// in turn wraps what has been built so far.
    pub fn from_postfix(name: &Identifier, accesses: &Vec<AstAccess>) -> (lowered: Result<
        Expression,
        ExpressionError,
    >)
        ensures
            view_result(lowered) == lower_accesses(name@, ast_accesses_view(accesses@)),
        decreases accesses,
    {
        let ghost all = ast_accesses_view(accesses@);
        let mut current = Expression::Identifier(name.clone());
        let mut i: usize = 0;
        assert(all.take(0) =~= Seq::empty());
        while i < accesses.len()
            invariant
                i <= accesses.len(),
                all == ast_accesses_view(accesses@),
                lower_accesses(name@, all.take(i as int)) == Ok::<_, ExpressionError>(current@),
            decreases accesses.len() - i,
        {
            assert(all.take(i + 1).drop_last() =~= all.take(i as int));
            assert(all.take(i + 1).last() == accesses@[i as int]@);
            match Expression::from_access(current, &accesses[i]) {
                Ok(next) => {
                    current = next;
                },
                Err(e) => {
                    proof {
                        lemma_accesses_error_persists(name@, all, i + 1);
                    }
                    return Err(e);
                },
            }
            i = i + 1;
        }
        assert(all.take(i as int) =~= all);
        Ok(current)
    }

    /// Applies one access of an assignee to the expression lowered so far.
    pub fn from_assignee_access(inner: Expression, access: &AstAssigneeAccess) -> (lowered: Result<
        Expression,
        ExpressionError,
    >)
        ensures
            view_result(lowered) == lower_assignee_access(inner@, access@),
    {
        match access {
            AstAssigneeAccess::Array(index, span) => match RangeOrExpression::from_ast(index) {
                Ok(index) => Ok(Expression::array_access(inner, index, span.clone())),
                Err(e) => Err(e),
            },
            AstAssigneeAccess::Member(member, span) => Ok(
                Expression::member_access(inner, member.clone(), span.clone()),
            ),
        }
    }

    /// Lowers the left side of an assignment, for the statements that assign
    /// through an operator.
    pub fn from_assignee(assignee: &AstAssignee) -> (lowered: Result<Expression, ExpressionError>)
        ensures
            view_result(lowered) == lower_assignee(assignee@),
    {
        let ghost name = assignee.identifier@;
        let ghost all = ast_assignee_accesses_view(assignee.accesses@);
        let mut current = Expression::Identifier(assignee.identifier.clone());
        let mut i: usize = 0;
        assert(all.take(0) =~= Seq::empty());
        while i < assignee.accesses.len()
            invariant
                i <= assignee.accesses.len(),
                name == assignee.identifier@,
                all == ast_assignee_accesses_view(assignee.accesses@),
                lower_assignee_accesses(name, all.take(i as int)) == Ok::<_, ExpressionError>(
                    current@,
                ),
            decreases assignee.accesses.len() - i,
        {
            assert(all.take(i + 1).drop_last() =~= all.take(i as int));
            assert(all.take(i + 1).last() == assignee.accesses@[i as int]@);
            match Expression::from_assignee_access(current, &assignee.accesses[i]) {
                Ok(next) => {
                    current = next;
                },
                Err(e) => {
                    proof {
                        lemma_assignee_accesses_error_persists(name, all, i + 1);
                    }
                    return Err(e);
                },
            }
            i = i + 1;
        }
        assert(all.take(i as int) =~= all);
        Ok(current)
    }
}

impl SpreadOrExpression {
    /// Lowers an element of an inline array.
    pub fn from_ast(s: &AstSpreadOrExpression) -> (lowered: Result<
        SpreadOrExpression,
        ExpressionError,
    >)
        ensures
            view_result(lowered) == lower_spread(s@),
        decreases s,
    {
        match s {
            AstSpreadOrExpression::Spread(e) => match Expression::from_ast(e) {
                Ok(e) => Ok(SpreadOrExpression::Spread(e)),
                Err(e) => Err(e),
            },
            AstSpreadOrExpression::Expression(e) => match Expression::from_ast(e) {
                Ok(e) => Ok(SpreadOrExpression::Expression(e)),
                Err(e) => Err(e),
            },
        }
    }
}

impl RangeOrExpression {
    /// The range from `from` to `to`, where either may be left open.
    pub fn range(from: Option<Expression>, to: Option<Expression>) -> (range: RangeOrExpression)
        ensures
            range@ == RangeOrExpressionView::Range(optional_view(from), optional_view(to)),
    {
        RangeOrExpression::Range(from, to)
    }

    /// Lowers what stands between the brackets of an array access.
    #[verifier::spinoff_prover]
    pub fn from_ast(r: &AstRangeOrExpression) -> (lowered: Result<
        RangeOrExpression,
        ExpressionError,
    >)
        ensures
            view_result(lowered) == lower_range(r@),
        decreases r,
    {
        match r {
            AstRangeOrExpression::Range(from, to) => {
                // The bounds are lowered one after the other; what each of
                // them lowers to is known from `lower_bound` alone.
                assert(r@ == AstRangeOrExpressionView::Range(
                    ast_optional_view(*from),
                    ast_optional_view(*to),
                ));
                match lower_bound(from) {
                    Ok(from) => match lower_bound(to) {
                        Ok(to) => Ok(RangeOrExpression::range(from, to)),
                        Err(e) => Err(e),
                    },
                    Err(e) => Err(e),
                }
            },
            AstRangeOrExpression::Expression(e) => {
                assert(r@ == AstRangeOrExpressionView::Expression(e@));
                match Expression::from_ast(e) {
                    Ok(e) => Ok(RangeOrExpression::Expression(e)),
                    Err(e) => Err(e),
                }
            },
        }
    }
}

/// Lowers a bound of a range, where there is one.
#[verifier::spinoff_prover]
pub fn lower_bound(bound: &Option<AstExpression>) -> (lowered: Result<
    Option<Expression>,
    ExpressionError,
>)
    ensures
        match lower_optional(ast_optional_view(*bound)) {
            Ok(view) => lowered is Ok && optional_view(lowered->Ok_0) == view,
            Err(e) => lowered is Err && lowered->Err_0 == e,
        },
    decreases bound,
{
    reveal(lower_optional);
    match bound {
        Some(e) => {
            assert(ast_optional_view(*bound) == Some(e@));
            match Expression::from_ast(e) {
                Ok(lowered) => {
                    assert(lower(e@) == Ok::<ExpressionView, ExpressionError>(lowered@));
                    assert(optional_view(Some(lowered)) == Some(lowered@));
                    Ok(Some(lowered))
                },
                Err(error) => {
                    assert(lower(e@) == Err::<ExpressionView, ExpressionError>(error));
                    Err(error)
                },
            }
        },
        None => {
            assert(ast_optional_view(*bound) == None::<AstExpressionView>);
            assert(optional_view(None) == None::<ExpressionView>);
            Ok(None)
        },
    }
}

impl CircuitFieldDefinition {
    /// Lowers one member of an inline circuit.
    pub fn from_ast(f: &AstCircuitField) -> (lowered: Result<
        CircuitFieldDefinition,
        ExpressionError,
    >)
        ensures
            view_result(lowered) == lower_field(f@),
        decreases f,
    {
        reveal(lower_field);
        match Expression::from_ast(&f.expression) {
            Ok(expression) => Ok(
                CircuitFieldDefinition { identifier: f.identifier.clone(), expression },
            ),
            Err(e) => Err(e),
        }
    }
}

/// Lowers a run of expressions in order, and stops at the first that fails.
pub fn lower_expression_list(items: &Vec<AstExpression>) -> (lowered: Result<
    Vec<Expression>,
    ExpressionError,
>)
    ensures
        match lower_expressions(ast_expressions_view(items@)) {
            Ok(views) => lowered is Ok && expressions_view(lowered->Ok_0@) == views,
            Err(e) => lowered is Err && lowered->Err_0 == e,
        },
    decreases items,
{
    let ghost all = ast_expressions_view(items@);
    let mut out: Vec<Expression> = Vec::new();
    let mut i: usize = 0;
    assert(all.take(0) =~= Seq::empty());
    assert(expressions_view(out@) =~= Seq::empty());
    while i < items.len()
        invariant
            i <= items.len(),
            all == ast_expressions_view(items@),
            lower_expressions(all.take(i as int)) == Ok::<_, ExpressionError>(
                expressions_view(out@),
            ),
        decreases items.len() - i,
    {
        let ghost before = expressions_view(out@);
        assert(all.take(i + 1).drop_last() =~= all.take(i as int));
        assert(all.take(i + 1).last() == items@[i as int]@);
        match Expression::from_ast(&items[i]) {
            Ok(item) => {
                out.push(item);
                assert(expressions_view(out@) =~= before.push(item@));
            },
            Err(e) => {
                proof {
                    lemma_expressions_error_persists(all, i + 1);
                }
                return Err(e);
            },
        }
        i = i + 1;
    }
    assert(all.take(i as int) =~= all);
    Ok(out)
}

/// Lowers the elements of an inline array in order, and stops at the first that fails.
pub fn lower_spread_list(items: &Vec<AstSpreadOrExpression>) -> (lowered: Result<
    Vec<Box<SpreadOrExpression>>,
    ExpressionError,
>)
    ensures
        match lower_spreads(ast_spreads_view(items@)) {
            Ok(views) => lowered is Ok && spreads_view(lowered->Ok_0@) == views,
            Err(e) => lowered is Err && lowered->Err_0 == e,
        },
    decreases items,
{
    let ghost all = ast_spreads_view(items@);
    let mut out: Vec<Box<SpreadOrExpression>> = Vec::new();
    let mut i: usize = 0;
    assert(all.take(0) =~= Seq::empty());
    assert(spreads_view(out@) =~= Seq::empty());
    while i < items.len()
        invariant
            i <= items.len(),
            all == ast_spreads_view(items@),
            lower_spreads(all.take(i as int)) == Ok::<_, ExpressionError>(spreads_view(out@)),
        decreases items.len() - i,
    {
        let ghost before = spreads_view(out@);
        assert(all.take(i + 1).drop_last() =~= all.take(i as int));
        assert(all.take(i + 1).last() == items@[i as int]@);
        match SpreadOrExpression::from_ast(&items[i]) {
            Ok(item) => {
                out.push(Box::new(item));
                assert(spreads_view(out@) =~= before.push(item@));
            },
            Err(e) => {
                proof {
                    lemma_spreads_error_persists(all, i + 1);
                }
                return Err(e);
            },
        }
        i = i + 1;
    }
    assert(all.take(i as int) =~= all);
    Ok(out)
}

/// Lowers the members of an inline circuit in order, and stops at the first that fails.
pub fn lower_field_list(items: &Vec<AstCircuitField>) -> (lowered: Result<
    Vec<CircuitFieldDefinition>,
    ExpressionError,
>)
    ensures
        match lower_fields(ast_fields_view(items@)) {
            Ok(views) => lowered is Ok && fields_view(lowered->Ok_0@) == views,
            Err(e) => lowered is Err && lowered->Err_0 == e,
        },
    decreases items,
{
    let ghost all = ast_fields_view(items@);
    let mut out: Vec<CircuitFieldDefinition> = Vec::new();
    let mut i: usize = 0;
    assert(all.take(0) =~= Seq::empty());
    assert(fields_view(out@) =~= Seq::empty());
    while i < items.len()
        invariant
            i <= items.len(),
            all == ast_fields_view(items@),
            lower_fields(all.take(i as int)) == Ok::<_, ExpressionError>(fields_view(out@)),
        decreases items.len() - i,
    {
        reveal(lower_field);
        let ghost before = fields_view(out@);
        assert(all.take(i + 1).drop_last() =~= all.take(i as int));
        assert(all.take(i + 1).last() == items@[i as int]@);
        match CircuitFieldDefinition::from_ast(&items[i]) {
            Ok(item) => {
                out.push(item);
                assert(fields_view(out@) =~= before.push(item@));
            },
            Err(e) => {
                proof {
                    lemma_fields_error_persists(all, i + 1);
                }
                return Err(e);
            },
        }
        i = i + 1;
    }
    assert(all.take(i as int) =~= all);
    Ok(out)
}

} // verus!
