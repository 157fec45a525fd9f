//! How lowering and the text of an expression fit together: literals are
//! written as they were read, and lowering keeps the texts of names and
//! literals calm, so that the text of what was lowered tells its grouping.

use crate::ast::{
    AstAccessView, AstCircuitFieldView, AstExpressionView, AstRangeOrExpressionView,
    AstSpreadOrExpressionView, AstValueView,
};
use crate::decimal::{decimal_digits, lemma_decimal_round_trip, unsigned_literal};
use crate::display::{display, display_boolean, display_integer};
use crate::expression::{ExpressionView, SpreadOrExpressionView, binary_view};
use crate::grouping::{
    calm, well_formed, well_formed_expressions, well_formed_field, well_formed_fields,
    well_formed_optional, well_formed_range, well_formed_spread, well_formed_spreads,
};
use crate::integer::Integer;
use crate::lowering::{
    ExpressionError, array_count, lower, lower_access, lower_accesses, lower_boolean,
    lower_expressions, lower_field, lower_fields, lower_integer, lower_optional, lower_range,
    lower_spread, lower_spreads, lower_value, operator_of,
};
use crate::span::IdentifierView;
use vstd::prelude::*;

verus! {

/// The number that is written out for an integer literal, read again in the
/// literal's type, is the literal.
pub proof fn lemma_integer_text_lowers_back(integer: Integer)
    ensures
        lower_integer(decimal_digits(integer.number()), integer.get_type()) == Ok::<
            Integer,
            ExpressionError,
        >(integer),
        display_integer(integer) == decimal_digits(integer.number()) + integer.get_type().keyword(),
{
    lemma_decimal_round_trip(integer.number());
}

/// The text that is written out for a truth value, read again, is the truth value.
pub proof fn lemma_boolean_text_lowers_back(value: bool)
    ensures
        lower_boolean(display_boolean(value)) == Ok::<bool, ExpressionError>(value),
{
    reveal_strlit("true");
    reveal_strlit("false");
    assert("true"@.len() != "false"@.len());
}

/// A literal that lowers is written out as it was written in the source:
/// letter for letter, but for the number of an integer literal, which is
/// written without a plus sign and without leading zeros, followed by the
/// keyword of its type.
pub proof fn lemma_literal_text_survives(value: AstValueView)
    requires
        lower_value(value) is Ok,
    ensures
        match value {
            AstValueView::Integer(number, integer_type) => {
                &&& unsigned_literal(number) is Some
                &&& display(lower_value(value)->Ok_0) == decimal_digits(
                    unsigned_literal(number)->Some_0,
                ) + integer_type.keyword()
            },
            AstValueView::Field(text) => display(lower_value(value)->Ok_0) == text,
            AstValueView::Group(text) => display(lower_value(value)->Ok_0) == text,
            AstValueView::Boolean(text) => display(lower_value(value)->Ok_0) == text,
            AstValueView::Implicit(text) => display(lower_value(value)->Ok_0) == text,
        },
{
    match value {
        AstValueView::Integer(number, integer_type) => {
            let n = unsigned_literal(number)->Some_0;
            let integer = Integer::of(integer_type, n);
            assert(lower_value(value)->Ok_0 == ExpressionView::Integer(integer));
            assert(integer.number() == n);
            assert(integer.get_type() == integer_type);
        },
        _ => {},
    }
}

/// Whether the texts of a literal of the parse tree are calm.
pub open spec fn ast_value_well_formed(value: AstValueView) -> bool {
    match value {
        AstValueView::Integer(_, _) => true,
        AstValueView::Field(text) => calm(text),
        AstValueView::Group(text) => calm(text),
        AstValueView::Boolean(_) => true,
        AstValueView::Implicit(text) => calm(text),
    }
}

/// Whether the names and the literals of a parse tree are calm texts.
pub open spec fn ast_well_formed(e: AstExpressionView) -> bool
    decreases e,
{
    match e {
        AstExpressionView::Value(value) => ast_value_well_formed(value),
        AstExpressionView::Identifier(identifier) => calm(identifier.name),
        AstExpressionView::Not(inner) => ast_well_formed(*inner),
        AstExpressionView::Binary(_, left, right, _) => ast_well_formed(*left) && ast_well_formed(
            *right,
        ),
        AstExpressionView::Ternary(first, second, third, _) => ast_well_formed(*first)
            && ast_well_formed(*second) && ast_well_formed(*third),
        AstExpressionView::ArrayInline(items, _) => ast_well_formed_spreads(items),
        AstExpressionView::ArrayInitializer(item, _, _) => ast_well_formed_spread(*item),
        AstExpressionView::CircuitInline(name, members, _) => calm(name.name)
            && ast_well_formed_fields(members),
        AstExpressionView::Postfix(name, accesses, _) => calm(name.name)
            && ast_well_formed_accesses(accesses),
    }
}

/// Whether an element of an inline array is well formed.
pub open spec fn ast_well_formed_spread(s: AstSpreadOrExpressionView) -> bool
    decreases s,
{
    match s {
        AstSpreadOrExpressionView::Spread(e) => ast_well_formed(e),
        AstSpreadOrExpressionView::Expression(e) => ast_well_formed(e),
    }
}

/// Whether a bound of a range is well formed, where there is one.
pub open spec fn ast_well_formed_optional(e: Option<AstExpressionView>) -> bool
    decreases e,
{
    match e {
        Some(e) => ast_well_formed(e),
        None => true,
    }
}

/// Whether what stands between the brackets of an array access is well formed.
pub open spec fn ast_well_formed_range(r: AstRangeOrExpressionView) -> bool
    decreases r,
{
    match r {
        AstRangeOrExpressionView::Range(from, to) => ast_well_formed_optional(from)
            && ast_well_formed_optional(to),
        AstRangeOrExpressionView::Expression(e) => ast_well_formed(e),
    }
}

/// Whether a member of an inline circuit is well formed.
pub open spec fn ast_well_formed_field(f: AstCircuitFieldView) -> bool
    decreases f,
{
    calm(f.identifier.name) && ast_well_formed(f.expression)
}

/// Whether an access is well formed.
pub open spec fn ast_well_formed_access(a: AstAccessView) -> bool
    decreases a,
{
    match a {
        AstAccessView::Array(index, _) => ast_well_formed_range(index),
        AstAccessView::Call(arguments, _) => ast_well_formed_expressions(arguments),
        AstAccessView::Object(member, _) => calm(member.name),
        AstAccessView::StaticObject(member, _) => calm(member.name),
    }
}

/// Whether every expression of a run is well formed.
pub open spec fn ast_well_formed_expressions(s: Seq<AstExpressionView>) -> bool
    decreases s,
{
    if s.len() == 0 {
        true
    } else {
        ast_well_formed_expressions(s.drop_last()) && ast_well_formed(s.last())
    }
}

/// Whether every element of an inline array is well formed.
pub open spec fn ast_well_formed_spreads(s: Seq<AstSpreadOrExpressionView>) -> bool
    decreases s,
{
    if s.len() == 0 {
        true
    } else {
        ast_well_formed_spreads(s.drop_last()) && ast_well_formed_spread(s.last())
    }
}

/// Whether every member of an inline circuit is well formed.
pub open spec fn ast_well_formed_fields(s: Seq<AstCircuitFieldView>) -> bool
    decreases s,
{
    if s.len() == 0 {
        true
    } else {
        ast_well_formed_fields(s.drop_last()) && ast_well_formed_field(s.last())
    }
}

/// Whether every access of a chain is well formed.
pub open spec fn ast_well_formed_accesses(s: Seq<AstAccessView>) -> bool
    decreases s,
{
    if s.len() == 0 {
        true
    } else {
        ast_well_formed_accesses(s.drop_last()) && ast_well_formed_access(s.last())
    }
}

/// As many copies of a well-formed element as one likes are well formed.
proof fn lemma_copies_are_well_formed(n: nat, item: SpreadOrExpressionView)
    requires
        well_formed_spread(item),
    ensures
        well_formed_spreads(Seq::new(n, |i: int| item)),
    decreases n,
{
    if n > 0 {
        lemma_copies_are_well_formed((n - 1) as nat, item);
        assert(Seq::new(n, |i: int| item).drop_last() =~= Seq::new((n - 1) as nat, |i: int| item));
    }
}

/// Lowering keeps the texts calm: a well-formed parse tree that lowers gives
/// a well-formed expression, the text of which therefore tells how its
/// operands are grouped.
#[verifier::spinoff_prover]
pub proof fn lemma_lowering_keeps_well_formed(e: AstExpressionView)
    requires
        ast_well_formed(e),
        lower(e) is Ok,
    ensures
        well_formed(lower(e)->Ok_0),
    decreases e,
{
    reveal(lower_optional);
    reveal(lower_field);
    match e {
        AstExpressionView::Value(_) => {},
        AstExpressionView::Identifier(_) => {},
        AstExpressionView::Not(inner) => {
            lemma_lowering_keeps_well_formed(*inner);
        },
        AstExpressionView::Binary(operation, left, right, span) => {
            lemma_lowering_keeps_well_formed(*left);
            lemma_lowering_keeps_well_formed(*right);
            // Unequal lowers to two nodes, one in the other.
            assert(well_formed(
                binary_view(operator_of(operation), lower(*left)->Ok_0, lower(*right)->Ok_0, span),
            ));
        },
        AstExpressionView::Ternary(first, second, third, _) => {
            lemma_lowering_keeps_well_formed(*first);
            lemma_lowering_keeps_well_formed(*second);
            lemma_lowering_keeps_well_formed(*third);
        },
        AstExpressionView::ArrayInline(items, _) => {
            lemma_lowered_spreads_are_well_formed(items);
        },
        AstExpressionView::ArrayInitializer(item, count, _) => {
            lemma_lowered_spread_is_well_formed(*item);
            lemma_copies_are_well_formed(array_count(count)->Ok_0, lower_spread(*item)->Ok_0);
        },
        AstExpressionView::CircuitInline(_, members, _) => {
            lemma_lowered_fields_are_well_formed(members);
        },
        AstExpressionView::Postfix(name, accesses, _) => {
            lemma_lowered_accesses_are_well_formed(name, accesses);
        },
    }
}

/// A well-formed element of an inline array lowers to a well-formed one.
#[verifier::spinoff_prover]
pub proof fn lemma_lowered_spread_is_well_formed(s: AstSpreadOrExpressionView)
    requires
        ast_well_formed_spread(s),
        lower_spread(s) is Ok,
    ensures
        well_formed_spread(lower_spread(s)->Ok_0),
    decreases s,
{
    reveal(lower_optional);
    reveal(lower_field);
    match s {
        AstSpreadOrExpressionView::Spread(e) => {
            lemma_lowering_keeps_well_formed(e);
        },
        AstSpreadOrExpressionView::Expression(e) => {
            lemma_lowering_keeps_well_formed(e);
        },
    }
}

/// A well-formed bound of a range lowers to a well-formed one.
#[verifier::spinoff_prover]
pub proof fn lemma_lowered_optional_is_well_formed(e: Option<AstExpressionView>)
    requires
        ast_well_formed_optional(e),
        lower_optional(e) is Ok,
    ensures
        well_formed_optional(lower_optional(e)->Ok_0),
    decreases e,
{
    reveal(lower_optional);
    reveal(lower_field);
    match e {
        Some(e) => {
            lemma_lowering_keeps_well_formed(e);
        },
        None => {},
    }
}

/// A well-formed index of an array access lowers to a well-formed one.
#[verifier::spinoff_prover]
pub proof fn lemma_lowered_range_is_well_formed(r: AstRangeOrExpressionView)
    requires
        ast_well_formed_range(r),
        lower_range(r) is Ok,
    ensures
        well_formed_range(lower_range(r)->Ok_0),
    decreases r,
{
    reveal(lower_optional);
    reveal(lower_field);
    match r {
        AstRangeOrExpressionView::Range(from, to) => {
            lemma_lowered_optional_is_well_formed(from);
            lemma_lowered_optional_is_well_formed(to);
        },
        AstRangeOrExpressionView::Expression(e) => {
            lemma_lowering_keeps_well_formed(e);
        },
    }
}

/// A well-formed member of an inline circuit lowers to a well-formed one.
#[verifier::spinoff_prover]
pub proof fn lemma_lowered_field_is_well_formed(f: AstCircuitFieldView)
    requires
        ast_well_formed_field(f),
        lower_field(f) is Ok,
    ensures
        well_formed_field(lower_field(f)->Ok_0),
    decreases f,
{
    reveal(lower_optional);
    reveal(lower_field);
    lemma_lowering_keeps_well_formed(f.expression);
}

/// A well-formed access, applied to a well-formed expression, gives a
/// well-formed expression.
#[verifier::spinoff_prover]
pub proof fn lemma_lowered_access_is_well_formed(inner: ExpressionView, a: AstAccessView)
    requires
        well_formed(inner),
        ast_well_formed_access(a),
        lower_access(inner, a) is Ok,
    ensures
        well_formed(lower_access(inner, a)->Ok_0),
    decreases a,
{
    reveal(lower_optional);
    reveal(lower_field);
    match a {
        AstAccessView::Array(index, _) => {
            lemma_lowered_range_is_well_formed(index);
        },
        AstAccessView::Call(arguments, _) => {
            lemma_lowered_expressions_are_well_formed(arguments);
        },
        AstAccessView::Object(_, _) => {},
        AstAccessView::StaticObject(_, _) => {},
    }
}

/// A well-formed name followed by well-formed accesses lowers to a
/// well-formed expression.
#[verifier::spinoff_prover]
pub proof fn lemma_lowered_accesses_are_well_formed(
    name: IdentifierView,
    accesses: Seq<AstAccessView>,
)
    requires
        calm(name.name),
        ast_well_formed_accesses(accesses),
        lower_accesses(name, accesses) is Ok,
    ensures
        well_formed(lower_accesses(name, accesses)->Ok_0),
    decreases accesses,
{
    reveal(lower_optional);
    reveal(lower_field);
    if accesses.len() > 0 {
        lemma_lowered_accesses_are_well_formed(name, accesses.drop_last());
        lemma_lowered_access_is_well_formed(
            lower_accesses(name, accesses.drop_last())->Ok_0,
            accesses.last(),
        );
    }
}

/// Well-formed expressions that lower give well-formed expressions.
#[verifier::spinoff_prover]
pub proof fn lemma_lowered_expressions_are_well_formed(s: Seq<AstExpressionView>)
    requires
        ast_well_formed_expressions(s),
        lower_expressions(s) is Ok,
    ensures
        well_formed_expressions(lower_expressions(s)->Ok_0),
    decreases s,
{
    reveal(lower_optional);
    reveal(lower_field);
    if s.len() > 0 {
        lemma_lowered_expressions_are_well_formed(s.drop_last());
        lemma_lowering_keeps_well_formed(s.last());
        let front = lower_expressions(s.drop_last())->Ok_0;
        let whole = lower_expressions(s)->Ok_0;
        assert(whole.drop_last() =~= front);
    }
}

/// Well-formed elements of an inline array that lower give well-formed elements.
#[verifier::spinoff_prover]
pub proof fn lemma_lowered_spreads_are_well_formed(s: Seq<AstSpreadOrExpressionView>)
    requires
        ast_well_formed_spreads(s),
        lower_spreads(s) is Ok,
    ensures
        well_formed_spreads(lower_spreads(s)->Ok_0),
    decreases s,
{
    reveal(lower_optional);
    reveal(lower_field);
    if s.len() > 0 {
        lemma_lowered_spreads_are_well_formed(s.drop_last());
        lemma_lowered_spread_is_well_formed(s.last());
        let front = lower_spreads(s.drop_last())->Ok_0;
        let whole = lower_spreads(s)->Ok_0;
        assert(whole.drop_last() =~= front);
    }
}

/// Well-formed members of an inline circuit that lower give well-formed members.
#[verifier::spinoff_prover]
pub proof fn lemma_lowered_fields_are_well_formed(s: Seq<AstCircuitFieldView>)
    requires
        ast_well_formed_fields(s),
        lower_fields(s) is Ok,
    ensures
        well_formed_fields(lower_fields(s)->Ok_0),
    decreases s,
{
    reveal(lower_optional);
    reveal(lower_field);
    if s.len() > 0 {
        lemma_lowered_fields_are_well_formed(s.drop_last());
        lemma_lowered_field_is_well_formed(s.last());
        let front = lower_fields(s.drop_last())->Ok_0;
        let whole = lower_fields(s)->Ok_0;
        assert(whole.drop_last() =~= front);
    }
}

} // verus!
