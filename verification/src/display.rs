//! The text of an expression: every node written out by its keyword or
//! operator, with nothing left to precedence. Parentheses stand only where
//! the grouping would else be lost: around a binary node that is an operand
//! of a binary node or of a negation, and around a binary node or a negation
//! that something is accessed on.

use crate::decimal::{append_decimal, decimal_digits};
use crate::expression::{
    CircuitFieldDefinition, CircuitFieldDefinitionView, Expression, ExpressionView, Operator,
    RangeOrExpression, RangeOrExpressionView, SpreadOrExpression, SpreadOrExpressionView,
    expressions_view, fields_view, spreads_view,
};
use crate::integer::Integer;
use vstd::prelude::*;
use vstd::string::StringExecFns;

verus! {

/// The text of a binary operator, with the space on either side of it.
pub open spec fn operator_symbol(operator: Operator) -> Seq<char> {
    match operator {
        Operator::Add => " + "@,
        Operator::Sub => " - "@,
        Operator::Mul => " * "@,
        Operator::Div => " / "@,
        Operator::Pow => " ** "@,
        Operator::Or => " || "@,
        Operator::And => " && "@,
        Operator::Eq => " == "@,
        Operator::Ge => " >= "@,
        Operator::Gt => " > "@,
        Operator::Le => " <= "@,
        Operator::Lt => " < "@,
    }
}

/// The text of an integer literal: its number, then the keyword of its type.
pub open spec fn display_integer(integer: Integer) -> Seq<char> {
    decimal_digits(integer.number()) + integer.get_type().keyword()
}

/// The text of a truth value.
pub open spec fn display_boolean(value: bool) -> Seq<char> {
    if value {
        "true"@
    } else {
        "false"@
    }
}

/// A text, in parentheses where they are asked for.
pub open spec fn grouped(parentheses: bool, text: Seq<char>) -> Seq<char> {
    if parentheses {
        "("@ + text + ")"@
    } else {
        text
    }
}

/// The text of an operand of a binary node or of a negation: in parentheses
/// where the operand is a binary node.
pub open spec fn display_operand(operand: ExpressionView, text: Seq<char>) -> Seq<char> {
    grouped(operand is Binary, text)
}

/// The text of what something is accessed on: in parentheses where it is a
/// binary node or a negation, which would else read as an operand that is
/// accessed.
pub open spec fn display_accessed(accessed: ExpressionView, text: Seq<char>) -> Seq<char> {
    grouped(accessed is Binary || accessed is Not, text)
}

/// The text of an expression. Source positions play no part in it.
///
/// A binary node is written as `left operator right`, a negation as `!`
/// before its operand, a conditional between `if` and `fi`.
pub open spec fn display(e: ExpressionView) -> Seq<char>
    decreases e,
{
    match e {
        ExpressionView::Identifier(identifier) => identifier.name,
        ExpressionView::Integer(integer) => display_integer(integer),
        ExpressionView::Field(field) => field,
        ExpressionView::Group(group) => group,
        ExpressionView::Boolean(value) => display_boolean(value),
        ExpressionView::Implicit(number) => number,
        ExpressionView::Binary(operator, left, right, _) => display_operand(
            *left,
            display(*left),
        ) + operator_symbol(operator) + display_operand(*right, display(*right)),
        ExpressionView::Not(inner) => "!"@ + display_operand(*inner, display(*inner)),
        ExpressionView::IfElse(first, second, third, _) => "if "@ + display(*first) + " then "@
            + display(*second) + " else "@ + display(*third) + " fi"@,
        ExpressionView::Array(items, _) => "["@ + display_spreads(items) + "]"@,
        ExpressionView::ArrayAccess(array, index, _) => display_accessed(*array, display(*array))
            + "["@ + display_range(*index) + "]"@,
        ExpressionView::Circuit(name, members, _) => name.name + " {"@ + display_fields(members)
            + "}"@,
        ExpressionView::CircuitMemberAccess(circuit, member, _) => display_accessed(
            *circuit,
            display(*circuit),
        ) + "."@ + member.name,
        ExpressionView::CircuitStaticFunctionAccess(circuit, member, _) => display_accessed(
            *circuit,
            display(*circuit),
        ) + "::"@ + member.name,
        ExpressionView::FunctionCall(function, arguments, _) => display_accessed(
            *function,
            display(*function),
        ) + "("@ + display_expressions(arguments) + ")"@,
    }
}

/// The text of an element of an array: a spread is marked by three dots.
pub open spec fn display_spread(s: SpreadOrExpressionView) -> Seq<char>
    decreases s,
{
    match s {
        SpreadOrExpressionView::Spread(e) => "..."@ + display(e),
        SpreadOrExpressionView::Expression(e) => display(e),
    }
}

/// The text of a bound of a range: nothing where there is none.
pub open spec fn display_optional(e: Option<ExpressionView>) -> Seq<char>
    decreases e,
{
    match e {
        Some(e) => display(e),
        None => Seq::empty(),
    }
}

/// The text of the index of an array access: a range has two dots between its bounds.
pub open spec fn display_range(r: RangeOrExpressionView) -> Seq<char>
    decreases r,
{
    match r {
        RangeOrExpressionView::Range(from, to) => display_optional(from) + ".."@
            + display_optional(to),
        RangeOrExpressionView::Expression(e) => display(e),
    }
}

/// The text of a member of a circuit: its name, a colon, and its expression.
pub open spec fn display_field(f: CircuitFieldDefinitionView) -> Seq<char>
    decreases f,
{
    f.identifier.name + ": "@ + display(f.expression)
}

/// The texts of a run of expressions, with a comma and a space between two of them.
pub open spec fn display_expressions(s: Seq<ExpressionView>) -> Seq<char>
    decreases s,
{
    if s.len() == 0 {
        Seq::empty()
    } else if s.len() == 1 {
        display(s.last())
    } else {
        display_expressions(s.drop_last()) + ", "@ + display(s.last())
    }
}

/// The texts of the elements of an array, with a comma and a space between two of them.
pub open spec fn display_spreads(s: Seq<SpreadOrExpressionView>) -> Seq<char>
    decreases s,
{
    if s.len() == 0 {
        Seq::empty()
    } else if s.len() == 1 {
        display_spread(s.last())
    } else {
        display_spreads(s.drop_last()) + ", "@ + display_spread(s.last())
    }
}

/// The texts of the members of a circuit, with a comma and a space between two of them.
pub open spec fn display_fields(s: Seq<CircuitFieldDefinitionView>) -> Seq<char>
    decreases s,
{
    if s.len() == 0 {
        Seq::empty()
    } else if s.len() == 1 {
        display_field(s.last())
    } else {
        display_fields(s.drop_last()) + ", "@ + display_field(s.last())
    }
}

impl Operator {
    /// The text of the operator, with the space on either side of it.
    pub fn symbol(self) -> (text: &'static str)
        ensures
            text@ == operator_symbol(self),
    {
        match self {
            Operator::Add => " + ",
            Operator::Sub => " - ",
            Operator::Mul => " * ",
            Operator::Div => " / ",
            Operator::Pow => " ** ",
            Operator::Or => " || ",
            Operator::And => " && ",
            Operator::Eq => " == ",
            Operator::Ge => " >= ",
            Operator::Gt => " > ",
            Operator::Le => " <= ",
            Operator::Lt => " < ",
        }
    }
}

/// Writes the text of `e` at the end of `out` as that of an operand: in
/// parentheses where `e` is a binary node.
pub fn append_operand(out: &mut String, e: &Expression)
    ensures
        final(out)@ == old(out)@ + display_operand(e@, display(e@)),
    decreases e, 2nat,
{
    if e.is_binary() {
        out.append("(");
        append_expression(out, e);
        out.append(")");
        assert(out@ =~= old(out)@ + ("("@ + display(e@) + ")"@));
    } else {
        append_expression(out, e);
    }
}

/// Writes the text of `e` at the end of `out` as that of something that is
/// accessed: in parentheses where `e` is a binary node or a negation.
pub fn append_accessed(out: &mut String, e: &Expression)
    ensures
        final(out)@ == old(out)@ + display_accessed(e@, display(e@)),
    decreases e, 2nat,
{
    if e.is_binary() || e.is_not() {
        out.append("(");
        append_expression(out, e);
        out.append(")");
        assert(out@ =~= old(out)@ + ("("@ + display(e@) + ")"@));
    } else {
        append_expression(out, e);
    }
}

/// Writes the text of `e` at the end of `out`.
pub fn append_expression(out: &mut String, e: &Expression)
    ensures
        final(out)@ == old(out)@ + display(e@),
    decreases e, 1nat,
{
    if let Some((operator, left, right, _span)) = e.as_binary() {
        append_operand(out, left);
        out.append(operator.symbol());
        append_operand(out, right);
        assert(out@ =~= old(out)@ + (display_operand(left@, display(left@)) + operator_symbol(
            operator,
        ) + display_operand(right@, display(right@))));
        return ;
    }
    match e {
        Expression::Identifier(identifier) => {
            out.append(identifier.name.as_str());
        },
        Expression::Integer(integer) => {
            append_decimal(out, integer.value());
            out.append(integer.get_type().name());
            assert(out@ =~= old(out)@ + display_integer(*integer));
        },
        Expression::Field(field) => {
            out.append(field.as_str());
        },
        Expression::Group(group) => {
            out.append(group.as_str());
        },
        Expression::Boolean(value) => {
            if *value {
                out.append("true");
            } else {
                out.append("false");
            }
        },
        Expression::Implicit(number) => {
            out.append(number.as_str());
        },
        Expression::Not(inner) => {
            out.append("!");
            append_operand(out, inner);
            assert(out@ =~= old(out)@ + ("!"@ + display_operand(inner@, display(inner@))));
        },
        Expression::IfElse(_, _, _, _) => {
            append_compound(out, e);
        },
        Expression::Array(_, _) => {
            append_compound(out, e);
        },
        Expression::Circuit(_, _, _) => {
            append_compound(out, e);
        },
        Expression::ArrayAccess(_, _, _) => {
            append_access(out, e);
        },
        Expression::CircuitMemberAccess(_, _, _) => {
            append_access(out, e);
        },
        Expression::CircuitStaticFunctionAccess(_, _, _) => {
            append_access(out, e);
        },
        Expression::FunctionCall(_, _, _) => {
            append_access(out, e);
        },
        _ => {
            assert(e@ is Binary);
        },
    }
}

/// Writes the text of a conditional, an array or a circuit at the end of `out`.
fn append_compound(out: &mut String, e: &Expression)
    requires
        e@ is IfElse || e@ is Array || e@ is Circuit,
    ensures
        final(out)@ == old(out)@ + display(e@),
    decreases e, 0nat,
{
    match e {
        Expression::IfElse(first, second, third, _span) => {
            out.append("if ");
            append_expression(out, first);
            out.append(" then ");
            append_expression(out, second);
            out.append(" else ");
            append_expression(out, third);
            out.append(" fi");
            assert(out@ =~= old(out)@ + ("if "@ + display(first@) + " then "@ + display(second@)
                + " else "@ + display(third@) + " fi"@));
        },
        Expression::Array(items, _span) => {
            out.append("[");
            append_spreads(out, items);
            out.append("]");
            assert(out@ =~= old(out)@ + ("["@ + display_spreads(spreads_view(items@)) + "]"@));
        },
        Expression::Circuit(name, members, _span) => {
            out.append(name.name.as_str());
            out.append(" {");
            append_fields(out, members);
            out.append("}");
            assert(out@ =~= old(out)@ + (name@.name + " {"@ + display_fields(
                fields_view(members@),
            ) + "}"@));
        },
        _ => {},
    }
}

/// Writes the text of an access or of a call at the end of `out`.
fn append_access(out: &mut String, e: &Expression)
    requires
        e@ is ArrayAccess || e@ is CircuitMemberAccess || e@ is CircuitStaticFunctionAccess
            || e@ is FunctionCall,
    ensures
        final(out)@ == old(out)@ + display(e@),
    decreases e, 0nat,
{
    match e {
        Expression::ArrayAccess(array, index, _span) => {
            append_accessed(out, array);
            out.append("[");
            append_range(out, index);
            out.append("]");
            assert(out@ =~= old(out)@ + (display_accessed(array@, display(array@)) + "["@
                + display_range(index@) + "]"@));
        },
        Expression::CircuitMemberAccess(circuit, member, _span) => {
            append_accessed(out, circuit);
            out.append(".");
            out.append(member.name.as_str());
            assert(out@ =~= old(out)@ + (display_accessed(circuit@, display(circuit@)) + "."@
                + member@.name));
        },
        Expression::CircuitStaticFunctionAccess(circuit, member, _span) => {
            append_accessed(out, circuit);
            out.append("::");
            out.append(member.name.as_str());
            assert(out@ =~= old(out)@ + (display_accessed(circuit@, display(circuit@)) + "::"@
                + member@.name));
        },
        Expression::FunctionCall(function, arguments, _span) => {
            append_accessed(out, function);
            out.append("(");
            append_expressions(out, arguments);
            out.append(")");
            assert(out@ =~= old(out)@ + (display_accessed(function@, display(function@)) + "("@
                + display_expressions(expressions_view(arguments@)) + ")"@));
        },
        _ => {},
    }
}

/// Writes the text of an element of an array at the end of `out`.
pub fn append_spread(out: &mut String, s: &SpreadOrExpression)
    ensures
        final(out)@ == old(out)@ + display_spread(s@),
    decreases s,
{
    match s {
        SpreadOrExpression::Spread(e) => {
            out.append("...");
            append_expression(out, e);
            assert(out@ =~= old(out)@ + ("..."@ + display(e@)));
        },
        SpreadOrExpression::Expression(e) => {
            append_expression(out, e);
        },
    }
}

/// Writes the text of the index of an array access at the end of `out`.
pub fn append_range(out: &mut String, r: &RangeOrExpression)
    ensures
        final(out)@ == old(out)@ + display_range(r@),
    decreases r,
{
    match r {
        RangeOrExpression::Range(from, to) => {
            match from {
                Some(e) => {
                    append_expression(out, e);
                },
                None => {
                    assert(out@ =~= old(out)@ + Seq::<char>::empty());
                },
            }
            let ghost middle = out@;
            out.append("..");
            match to {
                Some(e) => {
                    append_expression(out, e);
                },
                None => {
                    assert(out@ =~= middle + ".."@ + Seq::<char>::empty());
                },
            }
            assert(out@ =~= old(out)@ + display_range(r@));
        },
        RangeOrExpression::Expression(e) => {
            append_expression(out, e);
        },
    }
}

/// Writes the text of a member of a circuit at the end of `out`.
pub fn append_field(out: &mut String, f: &CircuitFieldDefinition)
    ensures
        final(out)@ == old(out)@ + display_field(f@),
    decreases f,
{
    out.append(f.identifier.name.as_str());
    out.append(": ");
    append_expression(out, &f.expression);
    assert(out@ =~= old(out)@ + (f@.identifier.name + ": "@ + display(f@.expression)));
}

/// Writes a run of expressions at the end of `out`, with a comma and a space
/// between two of them.
pub fn append_expressions(out: &mut String, items: &Vec<Expression>)
    ensures
        final(out)@ == old(out)@ + display_expressions(expressions_view(items@)),
    decreases items,
{
    let ghost all = expressions_view(items@);
    let mut i: usize = 0;
    assert(all.take(0) =~= Seq::empty());
    assert(out@ =~= old(out)@ + display_expressions(all.take(0)));
    while i < items.len()
        invariant
            i <= items.len(),
            all == expressions_view(items@),
            out@ == old(out)@ + display_expressions(all.take(i as int)),
        decreases items.len() - i,
    {
        let ghost shown = display_expressions(all.take(i as int));
        assert(all.take(i + 1).drop_last() =~= all.take(i as int));
        assert(all.take(i + 1).last() == items@[i as int]@);
        if i > 0 {
            out.append(", ");
        }
        append_expression(out, &items[i]);
        proof {
            let item = display(items@[i as int]@);
            if i > 0 {
                assert(out@ =~= old(out)@ + (shown + ", "@ + item));
            } else {
                assert(shown =~= Seq::empty());
                assert(out@ =~= old(out)@ + item);
            }
        }
        i = i + 1;
    }
    assert(all.take(i as int) =~= all);
}

/// Writes the elements of an array at the end of `out`, with a comma and a
/// space between two of them.
pub fn append_spreads(out: &mut String, items: &Vec<Box<SpreadOrExpression>>)
    ensures
        final(out)@ == old(out)@ + display_spreads(spreads_view(items@)),
    decreases items,
{
    let ghost all = spreads_view(items@);
    let mut i: usize = 0;
    assert(all.take(0) =~= Seq::empty());
    assert(out@ =~= old(out)@ + display_spreads(all.take(0)));
    while i < items.len()
        invariant
            i <= items.len(),
            all == spreads_view(items@),
            out@ == old(out)@ + display_spreads(all.take(i as int)),
        decreases items.len() - i,
    {
        let ghost shown = display_spreads(all.take(i as int));
        assert(all.take(i + 1).drop_last() =~= all.take(i as int));
        assert(all.take(i + 1).last() == items@[i as int]@);
        if i > 0 {
            out.append(", ");
        }
        append_spread(out, &items[i]);
        proof {
            let item = display_spread(items@[i as int]@);
            if i > 0 {
                assert(out@ =~= old(out)@ + (shown + ", "@ + item));
            } else {
                assert(shown =~= Seq::empty());
                assert(out@ =~= old(out)@ + item);
            }
        }
        i = i + 1;
    }
    assert(all.take(i as int) =~= all);
}

/// Writes the members of a circuit at the end of `out`, with a comma and a
/// space between two of them.
pub fn append_fields(out: &mut String, items: &Vec<CircuitFieldDefinition>)
    ensures
        final(out)@ == old(out)@ + display_fields(fields_view(items@)),
    decreases items,
{
    let ghost all = fields_view(items@);
    let mut i: usize = 0;
    assert(all.take(0) =~= Seq::empty());
    assert(out@ =~= old(out)@ + display_fields(all.take(0)));
    while i < items.len()
        invariant
            i <= items.len(),
            all == fields_view(items@),
            out@ == old(out)@ + display_fields(all.take(i as int)),
        decreases items.len() - i,
    {
        let ghost shown = display_fields(all.take(i as int));
        assert(all.take(i + 1).drop_last() =~= all.take(i as int));
        assert(all.take(i + 1).last() == items@[i as int]@);
        if i > 0 {
            out.append(", ");
        }
        append_field(out, &items[i]);
        proof {
            let item = display_field(items@[i as int]@);
            if i > 0 {
                assert(out@ =~= old(out)@ + (shown + ", "@ + item));
            } else {
                assert(shown =~= Seq::empty());
                assert(out@ =~= old(out)@ + item);
            }
        }
        i = i + 1;
    }
    assert(all.take(i as int) =~= all);
}

impl Expression {
    /// The text of the expression.
    pub fn to_string(&self) -> (text: String)
        ensures
            text@ == display(self@),
    {
        let mut text = String::new();
        append_expression(&mut text, self);
        assert(text@ =~= display(self@));
        text
    }
}

impl SpreadOrExpression {
    /// The text of the element.
    pub fn to_string(&self) -> (text: String)
        ensures
            text@ == display_spread(self@),
    {
        let mut text = String::new();
        append_spread(&mut text, self);
        assert(text@ =~= display_spread(self@));
        text
    }
}

impl RangeOrExpression {
    /// The text of the index.
    pub fn to_string(&self) -> (text: String)
        ensures
            text@ == display_range(self@),
    {
        let mut text = String::new();
        append_range(&mut text, self);
        assert(text@ =~= display_range(self@));
        text
    }
}

} // verus!
