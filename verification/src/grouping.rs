//! Why the text of an expression tells how its operands are grouped.
//!
//! An operand of a binary node is written in parentheses where it is itself
//! a binary node, so the operator of a node is the first one, read from the
//! left, that stands outside every bracket of what is written before it. For
//! that to be so the texts of names and literals may not themselves look like
//! operators: they are asked to be calm. A conditional is closed by its own
//! keyword and gets no parentheses; what is proved here of the text of a
//! binary node is proved for left operands that hold no conditional outside
//! brackets.

use crate::decimal::{decimal_digits, is_digit, lemma_decimal_round_trip};
use crate::display::{
    display, display_accessed, display_expressions, display_field, display_fields,
    display_operand, display_optional, display_range, display_spread, display_spreads,
    operator_symbol,
};
use crate::expression::{
    CircuitFieldDefinitionView, ExpressionView, Operator, RangeOrExpressionView,
    SpreadOrExpressionView, binary_view,
};
use crate::span::SpanView;
use vstd::prelude::*;

verus! {

/// Whether `c` is a character that an operator is written with.
pub open spec fn is_operator_char(c: char) -> bool {
    c == '+' || c == '-' || c == '*' || c == '/' || c == '|' || c == '&' || c == '=' || c == '>'
        || c == '<'
}

/// What a character adds to the number of open brackets, of whichever kind.
pub open spec fn step(c: char) -> int {
    if c == '(' || c == '[' || c == '{' {
        1
    } else if c == ')' || c == ']' || c == '}' {
        -1
    } else {
        0
    }
}

/// The number of brackets that `s` opens and does not close.
pub open spec fn depth(s: Seq<char>) -> int
    decreases s.len(),
{
    if s.len() == 0 {
        0
    } else {
        depth(s.drop_last()) + step(s.last())
    }
}

/// Whether every bracket of `s` is closed, and none is closed before it is opened.
#[verifier::opaque]
pub open spec fn balanced(s: Seq<char>) -> bool {
    &&& depth(s) == 0
    &&& forall|j: int| 0 <= j <= s.len() ==> depth(#[trigger] s.take(j)) >= 0
}

/// Whether an operator may begin at position `i` of `s`: a space there, and
/// a character of an operator after it.
pub open spec fn operator_at(s: Seq<char>, i: int) -> bool {
    0 <= i && i + 1 < s.len() && s[i] == ' ' && is_operator_char(s[i + 1])
}

/// Whether `s` is balanced and does not begin with a character of an operator.
pub open spec fn tidy(s: Seq<char>) -> bool {
    &&& balanced(s)
    &&& s.len() > 0 ==> !is_operator_char(s[0])
}

/// Whether `s` can stand as an operand: it is tidy, and no operator begins in
/// it outside its brackets.
#[verifier::opaque]
pub open spec fn calm(s: Seq<char>) -> bool {
    &&& tidy(s)
    &&& forall|i: int| #[trigger] operator_at(s, i) ==> depth(s.take(i)) != 0
}

/// The depth of two texts, one after the other, is the sum of their depths.
pub proof fn lemma_depth_concat(u: Seq<char>, v: Seq<char>)
    ensures
        depth(u + v) == depth(u) + depth(v),
    decreases v.len(),
{
    if v.len() == 0 {
        assert(u + v =~= u);
    } else {
        assert((u + v).drop_last() =~= u + v.drop_last());
        lemma_depth_concat(u, v.drop_last());
    }
}

/// A text without brackets has depth zero.
proof fn lemma_depth_without_brackets(s: Seq<char>)
    requires
        forall|i: int| 0 <= i < s.len() ==> step(s[i]) == 0,
    ensures
        depth(s) == 0,
    decreases s.len(),
{
    if s.len() > 0 {
        lemma_depth_without_brackets(s.drop_last());
    }
}

/// A text without brackets is balanced.
pub proof fn lemma_plain_text_is_balanced(s: Seq<char>)
    requires
        forall|i: int| 0 <= i < s.len() ==> step(s[i]) == 0,
    ensures
        balanced(s),
{
    reveal(balanced);
    lemma_depth_without_brackets(s);
    assert forall|j: int| 0 <= j <= s.len() implies depth(#[trigger] s.take(j)) >= 0 by {
        lemma_depth_without_brackets(s.take(j));
    }
}

/// A text without brackets is calm if it does not begin with a character of
/// an operator and no space in it is followed by one.
pub proof fn lemma_plain_text_is_calm(s: Seq<char>)
    requires
        forall|i: int| 0 <= i < s.len() ==> step(s[i]) == 0,
        s.len() > 0 ==> !is_operator_char(s[0]),
        forall|i: int| !operator_at(s, i),
    ensures
        calm(s),
{
    reveal(calm);
    lemma_plain_text_is_balanced(s);
}

/// A calm text is tidy.
pub proof fn lemma_calm_is_tidy(s: Seq<char>)
    requires
        calm(s),
    ensures
        tidy(s),
{
    reveal(calm);
}

/// Two balanced texts, one after the other, are balanced.
pub proof fn lemma_balanced_concat(u: Seq<char>, v: Seq<char>)
    requires
        balanced(u),
        balanced(v),
    ensures
        balanced(u + v),
{
    reveal(balanced);
    lemma_depth_concat(u, v);
    assert forall|j: int| 0 <= j <= (u + v).len() implies depth(#[trigger] (u + v).take(j))
        >= 0 by {
        if j <= u.len() {
            assert((u + v).take(j) =~= u.take(j));
        } else {
            assert((u + v).take(j) =~= u + v.take(j - u.len()));
            lemma_depth_concat(u, v.take(j - u.len()));
        }
    }
}

/// Two tidy texts, one after the other, are tidy.
pub proof fn lemma_tidy_concat(u: Seq<char>, v: Seq<char>)
    requires
        tidy(u),
        tidy(v),
    ensures
        tidy(u + v),
{
    lemma_balanced_concat(u, v);
}

/// Three tidy texts in a row are tidy.
pub proof fn lemma_tidy_concat3(u: Seq<char>, v: Seq<char>, w: Seq<char>)
    requires
        tidy(u),
        tidy(v),
        tidy(w),
    ensures
        tidy(u + v + w),
{
    lemma_tidy_concat(u, v);
    lemma_tidy_concat(u + v, w);
}

/// Two calm texts, one after the other, are calm.
pub proof fn lemma_calm_concat(u: Seq<char>, v: Seq<char>)
    requires
        calm(u),
        calm(v),
    ensures
        calm(u + v),
{
    reveal(calm);
    reveal(balanced);
    lemma_balanced_concat(u, v);
    assert forall|i: int| #[trigger] operator_at(u + v, i) implies depth((u + v).take(i))
        != 0 by {
        if i + 1 < u.len() {
            assert(operator_at(u, i));
            assert((u + v).take(i) =~= u.take(i));
        } else if i + 1 == u.len() {
            assert((u + v)[i + 1] == v[0]);
        } else {
            let k = i - u.len();
            assert(operator_at(v, k));
            assert((u + v).take(i) =~= u + v.take(k));
            lemma_depth_concat(u, v.take(k));
        }
    }
}

/// Three calm texts in a row are calm.
pub proof fn lemma_calm_concat3(u: Seq<char>, v: Seq<char>, w: Seq<char>)
    requires
        calm(u),
        calm(v),
        calm(w),
    ensures
        calm(u + v + w),
{
    lemma_calm_concat(u, v);
    lemma_calm_concat(u + v, w);
}

/// A balanced text between an opening bracket and a closing one is calm,
/// whatever stands in it.
pub proof fn lemma_bracketed_is_calm(opening: char, s: Seq<char>, closing: char)
    requires
        step(opening) == 1,
        step(closing) == -1,
        balanced(s),
    ensures
        calm(seq![opening] + s + seq![closing]),
{
    reveal(calm);
    reveal(balanced);
    let open = seq![opening];
    let close = seq![closing];
    let w = open + s + close;
    assert(open.drop_last() =~= Seq::<char>::empty());
    assert(close.drop_last() =~= Seq::<char>::empty());
    assert(depth(Seq::<char>::empty()) == 0);
    assert(depth(open) == 1);
    assert(depth(close) == -1);
    lemma_depth_concat(open, s);
    lemma_depth_concat(open + s, close);
    assert forall|j: int| 0 <= j <= w.len() implies depth(#[trigger] w.take(j)) >= 0 by {
        if j == 0 {
            assert(w.take(j) =~= Seq::<char>::empty());
        } else if j <= s.len() + 1 {
            assert(w.take(j) =~= open + s.take(j - 1));
            lemma_depth_concat(open, s.take(j - 1));
        } else {
            assert(w.take(j) =~= w);
        }
    }
    assert forall|i: int| #[trigger] operator_at(w, i) implies depth(w.take(i)) != 0 by {
        if i == 0 {
            assert(w[0] == opening);
        } else {
            assert(w.take(i) =~= open + s.take(i - 1));
            lemma_depth_concat(open, s.take(i - 1));
        }
    }
}

/// A balanced text in parentheses is calm.
pub proof fn lemma_parenthesized_is_calm(s: Seq<char>)
    requires
        balanced(s),
    ensures
        calm("("@ + s + ")"@),
{
    reveal_strlit("(");
    reveal_strlit(")");
    lemma_bracketed_is_calm('(', s, ')');
    assert("("@ =~= seq!['(']);
    assert(")"@ =~= seq![')']);
}

/// A balanced text in square brackets is calm.
pub proof fn lemma_in_square_brackets_is_calm(s: Seq<char>)
    requires
        balanced(s),
    ensures
        calm("["@ + s + "]"@),
{
    reveal_strlit("[");
    reveal_strlit("]");
    lemma_bracketed_is_calm('[', s, ']');
    assert("["@ =~= seq!['[']);
    assert("]"@ =~= seq![']']);
}

/// A balanced text in braces, after a space, is calm.
pub proof fn lemma_in_braces_is_calm(s: Seq<char>)
    requires
        balanced(s),
    ensures
        calm(" {"@ + s + "}"@),
{
    reveal_strlit(" {");
    reveal_strlit("}");
    lemma_bracketed_is_calm('{', s, '}');
    lemma_plain_text_is_calm(seq![' ']);
    lemma_calm_concat(seq![' '], seq!['{'] + s + seq!['}']);
    assert(" {"@ + s + "}"@ =~= seq![' '] + (seq!['{'] + s + seq!['}']));
}

/// The pieces that expressions are written with, other than operators and
/// brackets, are calm.
pub proof fn lemma_keywords_are_calm()
    ensures
        calm(Seq::<char>::empty()),
        calm("true"@),
        calm("false"@),
        calm("!"@),
        calm("if "@),
        calm(" then "@),
        calm(" else "@),
        calm(" fi"@),
        calm("..."@),
        calm(".."@),
        calm("."@),
        calm("::"@),
        calm(", "@),
        calm(": "@),
        calm("u8"@),
        calm("u16"@),
        calm("u32"@),
        calm("u64"@),
        calm("u128"@),
{
    reveal_strlit("true");
    reveal_strlit("false");
    reveal_strlit("!");
    reveal_strlit("if ");
    reveal_strlit(" then ");
    reveal_strlit(" else ");
    reveal_strlit(" fi");
    reveal_strlit("...");
    reveal_strlit("..");
    reveal_strlit(".");
    reveal_strlit("::");
    reveal_strlit(", ");
    reveal_strlit(": ");
    reveal_strlit("u8");
    reveal_strlit("u16");
    reveal_strlit("u32");
    reveal_strlit("u64");
    reveal_strlit("u128");
    lemma_plain_text_is_calm(Seq::<char>::empty());
    lemma_plain_text_is_calm("true"@);
    lemma_plain_text_is_calm("false"@);
    lemma_plain_text_is_calm("!"@);
    lemma_plain_text_is_calm("if "@);
    lemma_plain_text_is_calm(" then "@);
    lemma_plain_text_is_calm(" else "@);
    lemma_plain_text_is_calm(" fi"@);
    lemma_plain_text_is_calm("..."@);
    lemma_plain_text_is_calm(".."@);
    lemma_plain_text_is_calm("."@);
    lemma_plain_text_is_calm("::"@);
    lemma_plain_text_is_calm(", "@);
    lemma_plain_text_is_calm(": "@);
    lemma_plain_text_is_calm("u8"@);
    lemma_plain_text_is_calm("u16"@);
    lemma_plain_text_is_calm("u32"@);
    lemma_plain_text_is_calm("u64"@);
    lemma_plain_text_is_calm("u128"@);
}

/// The decimal notation of a number is calm.
pub proof fn lemma_digits_are_calm(n: nat)
    ensures
        calm(decimal_digits(n)),
{
    lemma_decimal_round_trip(n);
    let s = decimal_digits(n);
    assert forall|i: int| 0 <= i < s.len() implies step(s[i]) == 0 && s[i] != ' '
        && !is_operator_char(s[i]) by {
        assert(is_digit(s[i]));
    }
    lemma_plain_text_is_calm(s);
}

/// What is known of the text of every operator: it has no bracket, it
/// begins with a space, and the two characters after the space tell the
/// operator.
pub proof fn lemma_operator_symbol_shape(operator: Operator)
    ensures
        tidy(operator_symbol(operator)),
        operator_symbol(operator).len() >= 3,
        operator_symbol(operator)[0] == ' ',
        is_operator_char(operator_symbol(operator)[1]),
        operator_symbol(operator)[1] == match operator {
            Operator::Add => '+',
            Operator::Sub => '-',
            Operator::Mul => '*',
            Operator::Div => '/',
            Operator::Pow => '*',
            Operator::Or => '|',
            Operator::And => '&',
            Operator::Eq => '=',
            Operator::Ge => '>',
            Operator::Gt => '>',
            Operator::Le => '<',
            Operator::Lt => '<',
        },
        operator_symbol(operator)[2] == match operator {
            Operator::Add => ' ',
            Operator::Sub => ' ',
            Operator::Mul => ' ',
            Operator::Div => ' ',
            Operator::Pow => '*',
            Operator::Or => '|',
            Operator::And => '&',
            Operator::Eq => '=',
            Operator::Ge => '=',
            Operator::Gt => ' ',
            Operator::Le => '=',
            Operator::Lt => ' ',
        },
{
    reveal_strlit(" + ");
    reveal_strlit(" - ");
    reveal_strlit(" * ");
    reveal_strlit(" / ");
    reveal_strlit(" ** ");
    reveal_strlit(" || ");
    reveal_strlit(" && ");
    reveal_strlit(" == ");
    reveal_strlit(" >= ");
    reveal_strlit(" > ");
    reveal_strlit(" <= ");
    reveal_strlit(" < ");
    lemma_plain_text_is_balanced(operator_symbol(operator));
}

/// A text made of a calm operand, an operator and another operand is made so
/// in one way only: the operator is the first that begins outside the
/// parentheses of what stands before it.
pub proof fn lemma_operands_are_told_apart(
    left: Seq<char>,
    operator: Operator,
    right: Seq<char>,
    other_left: Seq<char>,
    other_operator: Operator,
    other_right: Seq<char>,
)
    requires
        calm(left),
        calm(other_left),
        left + operator_symbol(operator) + right == other_left + operator_symbol(other_operator)
            + other_right,
    ensures
        left == other_left,
        operator == other_operator,
        right == other_right,
{
    reveal(calm);
    reveal(balanced);
    let s1 = operator_symbol(operator);
    let s2 = operator_symbol(other_operator);
    let x1 = left + s1 + right;
    let x2 = other_left + s2 + other_right;
    lemma_operator_symbol_shape(operator);
    lemma_operator_symbol_shape(other_operator);
    assert(left.len() == other_left.len()) by {
        if left.len() < other_left.len() {
            let p = left.len() as int;
            assert(x1[p] == s1[0] && x1[p + 1] == s1[1]);
            assert(x1.take(p) =~= left);
            assert(x2.take(p) =~= other_left.take(p));
            if p + 1 < other_left.len() {
                assert(x2[p] == other_left[p] && x2[p + 1] == other_left[p + 1]);
                assert(operator_at(other_left, p));
            } else {
                assert(x2[p + 1] == s2[0]);
            }
        }
        if other_left.len() < left.len() {
            let p = other_left.len() as int;
            assert(x2[p] == s2[0] && x2[p + 1] == s2[1]);
            assert(x2.take(p) =~= other_left);
            assert(x1.take(p) =~= left.take(p));
            if p + 1 < left.len() {
                assert(x1[p] == left[p] && x1[p + 1] == left[p + 1]);
                assert(operator_at(left, p));
            } else {
                assert(x1[p + 1] == s1[0]);
            }
        }
    }
    let n = left.len() as int;
    assert(left =~= x1.take(n));
    assert(other_left =~= x2.take(n));
    assert(x1[n + 1] == s1[1] && x2[n + 1] == s2[1]);
    assert(x1[n + 2] == s1[2] && x2[n + 2] == s2[2]);
    assert(operator == other_operator);
    assert(right =~= x1.subrange(n + s1.len(), x1.len() as int));
    assert(other_right =~= x2.subrange(n + s2.len(), x2.len() as int));
}

/// Whether the names and the literals of an expression are calm texts, so
/// that none of them can be taken for an operator or for a parenthesis of
/// the expression.
pub open spec fn well_formed(e: ExpressionView) -> bool
    decreases e,
{
    match e {
        ExpressionView::Identifier(identifier) => calm(identifier.name),
        ExpressionView::Integer(_) => true,
        ExpressionView::Field(text) => calm(text),
        ExpressionView::Group(text) => calm(text),
        ExpressionView::Boolean(_) => true,
        ExpressionView::Implicit(text) => calm(text),
        ExpressionView::Binary(_, left, right, _) => well_formed(*left) && well_formed(*right),
        ExpressionView::Not(inner) => well_formed(*inner),
        ExpressionView::IfElse(first, second, third, _) => well_formed(*first) && well_formed(
            *second,
        ) && well_formed(*third),
        ExpressionView::Array(items, _) => well_formed_spreads(items),
        ExpressionView::ArrayAccess(array, index, _) => well_formed(*array) && well_formed_range(
            *index,
        ),
        ExpressionView::Circuit(name, members, _) => calm(name.name) && well_formed_fields(
            members,
        ),
        ExpressionView::CircuitMemberAccess(circuit, member, _) => well_formed(*circuit) && calm(
            member.name,
        ),
        ExpressionView::CircuitStaticFunctionAccess(circuit, member, _) => well_formed(*circuit)
            && calm(member.name),
        ExpressionView::FunctionCall(function, arguments, _) => well_formed(*function)
            && well_formed_expressions(arguments),
    }
}

/// Whether an element of an array is well formed.
pub open spec fn well_formed_spread(s: SpreadOrExpressionView) -> bool
    decreases s,
{
    match s {
        SpreadOrExpressionView::Spread(e) => well_formed(e),
        SpreadOrExpressionView::Expression(e) => well_formed(e),
    }
}

/// Whether a bound of a range is well formed, where there is one.
pub open spec fn well_formed_optional(e: Option<ExpressionView>) -> bool
    decreases e,
{
    match e {
        Some(e) => well_formed(e),
        None => true,
    }
}

/// Whether the index of an array access is well formed.
pub open spec fn well_formed_range(r: RangeOrExpressionView) -> bool
    decreases r,
{
    match r {
        RangeOrExpressionView::Range(from, to) => well_formed_optional(from)
            && well_formed_optional(to),
        RangeOrExpressionView::Expression(e) => well_formed(e),
    }
}

/// Whether a member of a circuit is well formed.
pub open spec fn well_formed_field(f: CircuitFieldDefinitionView) -> bool
    decreases f,
{
    calm(f.identifier.name) && well_formed(f.expression)
}

/// Whether every expression of a run is well formed.
pub open spec fn well_formed_expressions(s: Seq<ExpressionView>) -> bool
    decreases s,
{
    if s.len() == 0 {
        true
    } else {
        well_formed_expressions(s.drop_last()) && well_formed(s.last())
    }
}

/// Whether every element of an array is well formed.
pub open spec fn well_formed_spreads(s: Seq<SpreadOrExpressionView>) -> bool
    decreases s,
{
    if s.len() == 0 {
        true
    } else {
        well_formed_spreads(s.drop_last()) && well_formed_spread(s.last())
    }
}

/// Whether every member of a circuit is well formed.
pub open spec fn well_formed_fields(s: Seq<CircuitFieldDefinitionView>) -> bool
    decreases s,
{
    if s.len() == 0 {
        true
    } else {
        well_formed_fields(s.drop_last()) && well_formed_field(s.last())
    }
}

/// Whether the text of an expression holds a conditional outside every
/// bracket: the expression is a conditional, or the negation of such an
/// expression, or something is accessed on such an expression.
pub open spec fn holds_open_conditional(e: ExpressionView) -> bool
    decreases e,
{
    match e {
        ExpressionView::IfElse(_, _, _, _) => true,
        ExpressionView::Not(inner) => holds_open_conditional(*inner),
        ExpressionView::ArrayAccess(array, _, _) => !(*array is Not) && holds_open_conditional(
            *array,
        ),
        ExpressionView::CircuitMemberAccess(circuit, _, _) => !(*circuit is Not)
            && holds_open_conditional(*circuit),
        ExpressionView::CircuitStaticFunctionAccess(circuit, _, _) => !(*circuit is Not)
            && holds_open_conditional(*circuit),
        ExpressionView::FunctionCall(function, _, _) => !(*function is Not)
            && holds_open_conditional(*function),
        _ => false,
    }
}

/// The text of a well-formed expression is tidy. It is calm as well, so that
/// every operator in it stands between brackets, unless the expression is a
/// binary node or holds a conditional outside brackets.
pub proof fn lemma_display_is_tidy(e: ExpressionView)
    requires
        well_formed(e),
    ensures
        tidy(display(e)),
        !(e is Binary) && !holds_open_conditional(e) ==> calm(display(e)),
    decreases e, 0nat,
{
    lemma_keywords_are_calm();
    lemma_calm_is_tidy("!"@);
    lemma_calm_is_tidy("if "@);
    lemma_calm_is_tidy(" then "@);
    lemma_calm_is_tidy(" else "@);
    lemma_calm_is_tidy(" fi"@);
    lemma_calm_is_tidy("."@);
    lemma_calm_is_tidy("::"@);
    match e {
        ExpressionView::Identifier(identifier) => {
            lemma_calm_is_tidy(identifier.name);
        },
        ExpressionView::Integer(integer) => {
            lemma_digits_are_calm(integer.number());
            lemma_calm_concat(decimal_digits(integer.number()), integer.get_type().keyword());
            lemma_calm_is_tidy(display(e));
        },
        ExpressionView::Field(text) => {
            lemma_calm_is_tidy(text);
        },
        ExpressionView::Group(text) => {
            lemma_calm_is_tidy(text);
        },
        ExpressionView::Boolean(_) => {
            lemma_calm_is_tidy(display(e));
        },
        ExpressionView::Implicit(text) => {
            lemma_calm_is_tidy(text);
        },
        ExpressionView::Binary(operator, left, right, _) => {
            lemma_operand_is_tidy(*left);
            lemma_operand_is_tidy(*right);
            lemma_operator_symbol_shape(operator);
            lemma_tidy_concat3(
                display_operand(*left, display(*left)),
                operator_symbol(operator),
                display_operand(*right, display(*right)),
            );
        },
        ExpressionView::Not(inner) => {
            let operand = display_operand(*inner, display(*inner));
            lemma_operand_is_tidy(*inner);
            lemma_tidy_concat("!"@, operand);
            if !holds_open_conditional(*inner) {
                lemma_calm_concat("!"@, operand);
            }
        },
        ExpressionView::IfElse(first, second, third, _) => {
            lemma_display_is_tidy(*first);
            lemma_display_is_tidy(*second);
            lemma_display_is_tidy(*third);
            let a = "if "@ + display(*first) + " then "@;
            lemma_tidy_concat3("if "@, display(*first), " then "@);
            let b = a + display(*second) + " else "@;
            lemma_tidy_concat3(a, display(*second), " else "@);
            lemma_tidy_concat3(b, display(*third), " fi"@);
        },
        ExpressionView::Array(items, _) => {
            lemma_display_spreads_is_tidy(items);
            lemma_in_square_brackets_is_calm(display_spreads(items));
            lemma_calm_is_tidy(display(e));
        },
        ExpressionView::ArrayAccess(array, index, _) => {
            let accessed = display_accessed(*array, display(*array));
            let brackets = "["@ + display_range(*index) + "]"@;
            lemma_accessed_is_tidy(*array);
            lemma_display_range_is_tidy(*index);
            lemma_in_square_brackets_is_calm(display_range(*index));
            lemma_calm_is_tidy(brackets);
            lemma_tidy_concat(accessed, brackets);
            assert(display(e) =~= accessed + brackets);
            if !holds_open_conditional(e) {
                lemma_calm_concat(accessed, brackets);
            }
        },
        ExpressionView::Circuit(name, members, _) => {
            let braces = " {"@ + display_fields(members) + "}"@;
            lemma_display_fields_is_tidy(members);
            lemma_in_braces_is_calm(display_fields(members));
            lemma_calm_concat(name.name, braces);
            assert(display(e) =~= name.name + braces);
            lemma_calm_is_tidy(display(e));
        },
        ExpressionView::CircuitMemberAccess(circuit, member, _) => {
            let accessed = display_accessed(*circuit, display(*circuit));
            lemma_accessed_is_tidy(*circuit);
            lemma_calm_is_tidy(member.name);
            lemma_tidy_concat3(accessed, "."@, member.name);
            if !holds_open_conditional(e) {
                lemma_calm_concat3(accessed, "."@, member.name);
            }
        },
        ExpressionView::CircuitStaticFunctionAccess(circuit, member, _) => {
            let accessed = display_accessed(*circuit, display(*circuit));
            lemma_accessed_is_tidy(*circuit);
            lemma_calm_is_tidy(member.name);
            lemma_tidy_concat3(accessed, "::"@, member.name);
            if !holds_open_conditional(e) {
                lemma_calm_concat3(accessed, "::"@, member.name);
            }
        },
        ExpressionView::FunctionCall(function, arguments, _) => {
            let accessed = display_accessed(*function, display(*function));
            let brackets = "("@ + display_expressions(arguments) + ")"@;
            lemma_accessed_is_tidy(*function);
            lemma_display_expressions_is_tidy(arguments);
            lemma_parenthesized_is_calm(display_expressions(arguments));
            lemma_calm_is_tidy(brackets);
            lemma_tidy_concat(accessed, brackets);
            assert(display(e) =~= accessed + brackets);
            if !holds_open_conditional(e) {
                lemma_calm_concat(accessed, brackets);
            }
        },
    }
}

/// The text of an operand is tidy; it is calm unless the operand holds a
/// conditional outside brackets.
pub proof fn lemma_operand_is_tidy(e: ExpressionView)
    requires
        well_formed(e),
    ensures
        tidy(display_operand(e, display(e))),
        !holds_open_conditional(e) ==> calm(display_operand(e, display(e))),
    decreases e, 1nat,
{
    lemma_display_is_tidy(e);
    if e is Binary {
        lemma_parenthesized_is_calm(display(e));
        lemma_calm_is_tidy("("@ + display(e) + ")"@);
    }
}

/// The text of what something is accessed on is tidy; it is calm where it is
/// in parentheses, and where it holds no conditional outside brackets.
pub proof fn lemma_accessed_is_tidy(e: ExpressionView)
    requires
        well_formed(e),
    ensures
        tidy(display_accessed(e, display(e))),
        e is Not || !holds_open_conditional(e) ==> calm(display_accessed(e, display(e))),
    decreases e, 1nat,
{
    lemma_display_is_tidy(e);
    if e is Binary || e is Not {
        lemma_parenthesized_is_calm(display(e));
        lemma_calm_is_tidy("("@ + display(e) + ")"@);
    }
}

/// The text of an element of an array is tidy.
pub proof fn lemma_display_spread_is_tidy(s: SpreadOrExpressionView)
    requires
        well_formed_spread(s),
    ensures
        tidy(display_spread(s)),
    decreases s,
{
    lemma_keywords_are_calm();
    lemma_calm_is_tidy("..."@);
    match s {
        SpreadOrExpressionView::Spread(e) => {
            lemma_display_is_tidy(e);
            lemma_tidy_concat("..."@, display(e));
        },
        SpreadOrExpressionView::Expression(e) => {
            lemma_display_is_tidy(e);
        },
    }
}

/// The text of a bound of a range is tidy.
pub proof fn lemma_display_optional_is_tidy(e: Option<ExpressionView>)
    requires
        well_formed_optional(e),
    ensures
        tidy(display_optional(e)),
    decreases e,
{
    lemma_keywords_are_calm();
    lemma_calm_is_tidy(Seq::<char>::empty());
    match e {
        Some(e) => {
            lemma_display_is_tidy(e);
        },
        None => {},
    }
}

/// The text of the index of an array access is tidy.
pub proof fn lemma_display_range_is_tidy(r: RangeOrExpressionView)
    requires
        well_formed_range(r),
    ensures
        tidy(display_range(r)),
    decreases r,
{
    lemma_keywords_are_calm();
    lemma_calm_is_tidy(".."@);
    match r {
        RangeOrExpressionView::Range(from, to) => {
            lemma_display_optional_is_tidy(from);
            lemma_display_optional_is_tidy(to);
            lemma_tidy_concat3(display_optional(from), ".."@, display_optional(to));
        },
        RangeOrExpressionView::Expression(e) => {
            lemma_display_is_tidy(e);
        },
    }
}

/// The text of a member of a circuit is tidy.
pub proof fn lemma_display_field_is_tidy(f: CircuitFieldDefinitionView)
    requires
        well_formed_field(f),
    ensures
        tidy(display_field(f)),
    decreases f,
{
    lemma_keywords_are_calm();
    lemma_calm_is_tidy(": "@);
    lemma_calm_is_tidy(f.identifier.name);
    lemma_display_is_tidy(f.expression);
    lemma_tidy_concat3(f.identifier.name, ": "@, display(f.expression));
}

/// The text of a run of well-formed expressions is tidy.
pub proof fn lemma_display_expressions_is_tidy(s: Seq<ExpressionView>)
    requires
        well_formed_expressions(s),
    ensures
        tidy(display_expressions(s)),
    decreases s,
{
    lemma_keywords_are_calm();
    lemma_calm_is_tidy(Seq::<char>::empty());
    lemma_calm_is_tidy(", "@);
    if s.len() == 0 {
    } else if s.len() == 1 {
        lemma_display_is_tidy(s.last());
    } else {
        lemma_display_expressions_is_tidy(s.drop_last());
        lemma_display_is_tidy(s.last());
        lemma_tidy_concat3(display_expressions(s.drop_last()), ", "@, display(s.last()));
    }
}

/// The text of the elements of an array is tidy.
pub proof fn lemma_display_spreads_is_tidy(s: Seq<SpreadOrExpressionView>)
    requires
        well_formed_spreads(s),
    ensures
        tidy(display_spreads(s)),
    decreases s,
{
    lemma_keywords_are_calm();
    lemma_calm_is_tidy(Seq::<char>::empty());
    lemma_calm_is_tidy(", "@);
    if s.len() == 0 {
    } else if s.len() == 1 {
        lemma_display_spread_is_tidy(s.last());
    } else {
        lemma_display_spreads_is_tidy(s.drop_last());
        lemma_display_spread_is_tidy(s.last());
        lemma_tidy_concat3(display_spreads(s.drop_last()), ", "@, display_spread(s.last()));
    }
}

/// The text of the members of a circuit is tidy.
pub proof fn lemma_display_fields_is_tidy(s: Seq<CircuitFieldDefinitionView>)
    requires
        well_formed_fields(s),
    ensures
        tidy(display_fields(s)),
    decreases s,
{
    lemma_keywords_are_calm();
    lemma_calm_is_tidy(Seq::<char>::empty());
    lemma_calm_is_tidy(", "@);
    if s.len() == 0 {
    } else if s.len() == 1 {
        lemma_display_field_is_tidy(s.last());
    } else {
        lemma_display_fields_is_tidy(s.drop_last());
        lemma_display_field_is_tidy(s.last());
        lemma_tidy_concat3(display_fields(s.drop_last()), ", "@, display_field(s.last()));
    }
}

/// The text of a binary node tells its operator and its operands: two binary
/// nodes that are written alike have the same operator, and their left
/// operands are written alike, and so are their right operands. The left
/// operands have to be well formed, and neither may hold a conditional
/// outside brackets.
pub proof fn lemma_binary_text_tells_operator_and_operands(
    operator: Operator,
    left: ExpressionView,
    right: ExpressionView,
    span: SpanView,
    other_operator: Operator,
    other_left: ExpressionView,
    other_right: ExpressionView,
    other_span: SpanView,
)
    requires
        well_formed(left),
        well_formed(other_left),
        !holds_open_conditional(left),
        !holds_open_conditional(other_left),
        display(binary_view(operator, left, right, span)) == display(
            binary_view(other_operator, other_left, other_right, other_span),
        ),
    ensures
        operator == other_operator,
        display_operand(left, display(left)) == display_operand(other_left, display(other_left)),
        display_operand(right, display(right)) == display_operand(
            other_right,
            display(other_right),
        ),
{
    lemma_operand_is_tidy(left);
    lemma_operand_is_tidy(other_left);
    lemma_operands_are_told_apart(
        display_operand(left, display(left)),
        operator,
        display_operand(right, display(right)),
        display_operand(other_left, display(other_left)),
        other_operator,
        display_operand(other_right, display(other_right)),
    );
}

/// The text of a binary node is never calm: its operator stands outside the
/// brackets of its operands. So it is never the text of a name, of a literal,
/// of an array, of a circuit, or of anything else that is calm.
pub proof fn lemma_binary_text_is_not_calm(
    operator: Operator,
    left: ExpressionView,
    right: ExpressionView,
    span: SpanView,
)
    requires
        well_formed(left),
    ensures
        !calm(display(binary_view(operator, left, right, span))),
{
    reveal(calm);
    reveal(balanced);
    lemma_operand_is_tidy(left);
    lemma_operator_symbol_shape(operator);
    let l = display_operand(left, display(left));
    let symbol = operator_symbol(operator);
    let r = display_operand(right, display(right));
    let text = l + symbol + r;
    let p = l.len() as int;
    assert(text[p] == symbol[0] && text[p + 1] == symbol[1]);
    assert(operator_at(text, p));
    assert(text.take(p) =~= l);
}

/// A negation is never written as a binary node is, as long as what is
/// negated holds no conditional outside brackets.
pub proof fn lemma_negation_is_told_from_binary(
    inner: ExpressionView,
    operator: Operator,
    left: ExpressionView,
    right: ExpressionView,
    span: SpanView,
)
    requires
        well_formed(inner),
        well_formed(left),
        !holds_open_conditional(inner),
    ensures
        display(ExpressionView::Not(Box::new(inner))) != display(
            binary_view(operator, left, right, span),
        ),
{
    lemma_display_is_tidy(ExpressionView::Not(Box::new(inner)));
    lemma_binary_text_is_not_calm(operator, left, right, span);
}

} // verus!
