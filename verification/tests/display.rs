use leo_synthesis::expression::{
    CircuitFieldDefinition, Expression, Operator, RangeOrExpression, SpreadOrExpression,
};
use leo_synthesis::integer::Integer;
use leo_synthesis::span::{Identifier, Span};

fn at() -> Span {
    Span { text: " let a = 1;".to_string(), line: 1, start: 1, end: 2 }
}

fn var(text: &str) -> Expression {
    Expression::Identifier(Identifier { name: text.to_string(), span: at() })
}

fn id(text: &str) -> Identifier {
    Identifier { name: text.to_string(), span: at() }
}

fn boxed(text: &str) -> Box<Expression> {
    Box::new(var(text))
}

#[test]
fn leaves_show_their_text() {
    assert_eq!(var("total").to_string(), "total");
    assert_eq!(Expression::Field("7".to_string()).to_string(), "7");
    assert_eq!(Expression::Group("(0, 1)".to_string()).to_string(), "(0, 1)");
    assert_eq!(Expression::Implicit("12".to_string()).to_string(), "12");
    assert_eq!(Expression::Boolean(true).to_string(), "true");
    assert_eq!(Expression::Boolean(false).to_string(), "false");
}

#[test]
fn integers_show_number_and_type() {
    assert_eq!(Expression::Integer(Integer::U8(0)).to_string(), "0u8");
    assert_eq!(Expression::Integer(Integer::U16(65535)).to_string(), "65535u16");
    assert_eq!(Expression::Integer(Integer::U32(5)).to_string(), "5u32");
    assert_eq!(Expression::Integer(Integer::U64(1000)).to_string(), "1000u64");
    assert_eq!(
        Expression::Integer(Integer::U128(u128::MAX)).to_string(),
        "340282366920938463463374607431768211455u128"
    );
}

#[test]
fn binary_nodes_show_their_operator() {
    assert_eq!(Expression::Add(boxed("a"), boxed("b"), at()).to_string(), "a + b");
    assert_eq!(Expression::Sub(boxed("a"), boxed("b"), at()).to_string(), "a - b");
    assert_eq!(Expression::Mul(boxed("a"), boxed("b"), at()).to_string(), "a * b");
    assert_eq!(Expression::Div(boxed("a"), boxed("b"), at()).to_string(), "a / b");
    assert_eq!(Expression::Pow(boxed("a"), boxed("b"), at()).to_string(), "a ** b");
    assert_eq!(Expression::Or(boxed("a"), boxed("b"), at()).to_string(), "a || b");
    assert_eq!(Expression::And(boxed("a"), boxed("b"), at()).to_string(), "a && b");
    assert_eq!(Expression::Eq(boxed("a"), boxed("b"), at()).to_string(), "a == b");
    assert_eq!(Expression::Ge(boxed("a"), boxed("b"), at()).to_string(), "a >= b");
    assert_eq!(Expression::Gt(boxed("a"), boxed("b"), at()).to_string(), "a > b");
    assert_eq!(Expression::Le(boxed("a"), boxed("b"), at()).to_string(), "a <= b");
    assert_eq!(Expression::Lt(boxed("a"), boxed("b"), at()).to_string(), "a < b");
}

#[test]
fn operator_symbols() {
    assert_eq!(Operator::Add.symbol(), " + ");
    assert_eq!(Operator::Pow.symbol(), " ** ");
    assert_eq!(Operator::Le.symbol(), " <= ");
}

#[test]
fn binary_parts() {
    let node = Expression::Mul(boxed("a"), boxed("b"), at());
    match node.as_binary() {
        Some((operator, left, right, span)) => {
            assert_eq!(operator, Operator::Mul);
            assert_eq!(*left, var("a"));
            assert_eq!(*right, var("b"));
            assert_eq!(*span, at());
        }
        None => panic!("a product is a binary node"),
    }
    assert!(Expression::Not(boxed("a")).as_binary().is_none());
    assert!(var("a").as_binary().is_none());
}

#[test]
fn not_and_nesting() {
    assert_eq!(Expression::Not(boxed("a")).to_string(), "!a");
    let nested = Expression::Not(Box::new(Expression::Eq(
        Box::new(Expression::Add(boxed("a"), boxed("b"), at())),
        boxed("c"),
        at(),
    )));
    assert_eq!(nested.to_string(), "!((a + b) == c)");
}

#[test]
fn conditional_is_written_with_keywords() {
    let e = Expression::IfElse(
        Box::new(Expression::Boolean(true)),
        Box::new(Expression::Implicit("5".to_string())),
        Box::new(Expression::Implicit("10".to_string())),
        at(),
    );
    assert_eq!(e.to_string(), "if true then 5 else 10 fi");
}

#[test]
fn arrays_and_spreads() {
    let empty = Expression::Array(vec![], at());
    assert_eq!(empty.to_string(), "[]");
    let one = Expression::Array(vec![Box::new(SpreadOrExpression::Expression(var("a")))], at());
    assert_eq!(one.to_string(), "[a]");
    let three = Expression::Array(
        vec![
            Box::new(SpreadOrExpression::Expression(var("a"))),
            Box::new(SpreadOrExpression::Spread(var("rest"))),
            Box::new(SpreadOrExpression::Expression(Expression::Integer(Integer::U8(3)))),
        ],
        at(),
    );
    assert_eq!(three.to_string(), "[a, ...rest, 3u8]");
    assert_eq!(SpreadOrExpression::Spread(var("xs")).to_string(), "...xs");
    assert_eq!(SpreadOrExpression::Expression(var("x")).to_string(), "x");
}

#[test]
fn array_access_by_index_and_range() {
    let by_index = Expression::ArrayAccess(
        boxed("a"),
        Box::new(RangeOrExpression::Expression(Expression::Implicit("2".to_string()))),
        at(),
    );
    assert_eq!(by_index.to_string(), "a[2]");
    let both = RangeOrExpression::Range(
        Some(Expression::Implicit("1".to_string())),
        Some(Expression::Implicit("4".to_string())),
    );
    assert_eq!(both.to_string(), "1..4");
    assert_eq!(RangeOrExpression::Range(None, Some(var("n"))).to_string(), "..n");
    assert_eq!(RangeOrExpression::Range(Some(var("n")), None).to_string(), "n..");
    assert_eq!(RangeOrExpression::Range(None, None).to_string(), "..");
    let by_range = Expression::ArrayAccess(boxed("a"), Box::new(both), at());
    assert_eq!(by_range.to_string(), "a[1..4]");
}

#[test]
fn circuits_and_members() {
    let empty = Expression::Circuit(id("Unit"), vec![], at());
    assert_eq!(empty.to_string(), "Unit {}");
    let point = Expression::Circuit(
        id("Point"),
        vec![
            CircuitFieldDefinition {
                identifier: id("x"),
                expression: Expression::Implicit("1".to_string()),
            },
            CircuitFieldDefinition { identifier: id("y"), expression: var("b") },
        ],
        at(),
    );
    assert_eq!(point.to_string(), "Point {x: 1, y: b}");
    assert_eq!(Expression::CircuitMemberAccess(boxed("p"), id("x"), at()).to_string(), "p.x");
    assert_eq!(
        Expression::CircuitStaticFunctionAccess(boxed("Point"), id("new"), at()).to_string(),
        "Point::new"
    );
}

#[test]
fn function_calls() {
    assert_eq!(Expression::FunctionCall(boxed("f"), vec![], at()).to_string(), "f()");
    assert_eq!(Expression::FunctionCall(boxed("f"), vec![var("a")], at()).to_string(), "f(a)");
    let call = Expression::FunctionCall(
        boxed("f"),
        vec![var("a"), Expression::Boolean(false), Expression::Integer(Integer::U16(7))],
        at(),
    );
    assert_eq!(call.to_string(), "f(a, false, 7u16)");
}

#[test]
fn source_positions_do_not_show() {
    let here = Span { text: " x".to_string(), line: 1, start: 1, end: 2 };
    let there = Span { text: " y".to_string(), line: 9, start: 4, end: 8 };
    let a = Expression::Add(boxed("a"), boxed("b"), here);
    let b = Expression::Add(boxed("a"), boxed("b"), there);
    assert_eq!(a.to_string(), b.to_string());
}

#[test]
fn chained_accesses_show_in_written_order() {
    let e = Expression::CircuitMemberAccess(
        Box::new(Expression::ArrayAccess(
            Box::new(Expression::FunctionCall(
                boxed("a"),
                vec![Expression::Implicit("1".to_string())],
                at(),
            )),
            Box::new(RangeOrExpression::Expression(Expression::Implicit("2".to_string()))),
            at(),
        )),
        id("b"),
        at(),
    );
    assert_eq!(e.to_string(), "a(1)[2].b");
}

#[test]
fn the_text_tells_how_operands_are_grouped() {
    let product_of_sum =
        Expression::Mul(Box::new(Expression::Add(boxed("a"), boxed("b"), at())), boxed("c"), at());
    let sum_with_product =
        Expression::Add(boxed("a"), Box::new(Expression::Mul(boxed("b"), boxed("c"), at())), at());
    assert_eq!(product_of_sum.to_string(), "(a + b) * c");
    assert_eq!(sum_with_product.to_string(), "a + (b * c)");
    let right =
        Expression::Sub(boxed("a"), Box::new(Expression::Sub(boxed("b"), boxed("c"), at())), at());
    let left =
        Expression::Sub(Box::new(Expression::Sub(boxed("a"), boxed("b"), at())), boxed("c"), at());
    assert_eq!(right.to_string(), "a - (b - c)");
    assert_eq!(left.to_string(), "(a - b) - c");
}

#[test]
fn a_negation_is_told_from_a_negated_operand() {
    let one = Expression::Implicit("1".to_string());
    let not_equal = Expression::Not(Box::new(Expression::Eq(boxed("a"), Box::new(one.clone()), at())));
    let equal_to_not =
        Expression::Eq(Box::new(Expression::Not(boxed("a"))), Box::new(one), at());
    assert_eq!(not_equal.to_string(), "!(a == 1)");
    assert_eq!(equal_to_not.to_string(), "!a == 1");
    assert_eq!(Expression::Not(Box::new(Expression::Not(boxed("a")))).to_string(), "!!a");
}

#[test]
fn a_negation_that_is_accessed_stands_in_parentheses() {
    let negation = || Box::new(Expression::Not(boxed("a")));
    assert_eq!(Expression::CircuitMemberAccess(negation(), id("b"), at()).to_string(), "(!a).b");
    assert_eq!(
        Expression::Not(Box::new(Expression::CircuitMemberAccess(boxed("a"), id("b"), at())))
            .to_string(),
        "!a.b"
    );
    assert_eq!(
        Expression::CircuitStaticFunctionAccess(negation(), id("b"), at()).to_string(),
        "(!a)::b"
    );
    assert_eq!(Expression::FunctionCall(negation(), vec![var("x")], at()).to_string(), "(!a)(x)");
    let index = Box::new(RangeOrExpression::Expression(Expression::Implicit("0".to_string())));
    assert_eq!(Expression::ArrayAccess(negation(), index, at()).to_string(), "(!a)[0]");
    let sum = Box::new(Expression::Add(boxed("a"), boxed("b"), at()));
    assert_eq!(Expression::CircuitMemberAccess(sum, id("x"), at()).to_string(), "(a + b).x");
}

#[test]
fn what_stands_between_keywords_or_brackets_gets_no_parentheses() {
    let sum = || Expression::Add(boxed("a"), boxed("b"), at());
    let conditional = Expression::IfElse(
        Box::new(Expression::Lt(boxed("a"), boxed("b"), at())),
        Box::new(sum()),
        boxed("c"),
        at(),
    );
    assert_eq!(conditional.to_string(), "if a < b then a + b else c fi");
    let array = Expression::Array(
        vec![
            Box::new(SpreadOrExpression::Expression(sum())),
            Box::new(SpreadOrExpression::Spread(sum())),
        ],
        at(),
    );
    assert_eq!(array.to_string(), "[a + b, ...a + b]");
    let call = Expression::FunctionCall(boxed("f"), vec![sum(), var("c")], at());
    assert_eq!(call.to_string(), "f(a + b, c)");
    let range = RangeOrExpression::Range(Some(sum()), Some(var("n")));
    assert_eq!(range.to_string(), "a + b..n");
}

#[test]
fn a_binary_operand_of_a_negation_or_of_an_access_stands_in_parentheses() {
    let sum = || Box::new(Expression::Add(boxed("a"), boxed("b"), at()));
    assert_eq!(Expression::Not(sum()).to_string(), "!(a + b)");
    assert_eq!(Expression::Add(Box::new(Expression::Not(boxed("a"))), boxed("b"), at()).to_string(), "!a + b");
    assert_eq!(Expression::FunctionCall(sum(), vec![], at()).to_string(), "(a + b)()");
    let index = Box::new(RangeOrExpression::Expression(Expression::Implicit("0".to_string())));
    assert_eq!(Expression::ArrayAccess(sum(), index, at()).to_string(), "(a + b)[0]");
    assert_eq!(
        Expression::CircuitStaticFunctionAccess(sum(), id("x"), at()).to_string(),
        "(a + b)::x"
    );
}

#[test]
fn a_conditional_as_operand_is_closed_by_its_keyword() {
    let conditional = || {
        Box::new(Expression::IfElse(
            Box::new(Expression::Lt(boxed("a"), boxed("b"), at())),
            boxed("a"),
            boxed("b"),
            at(),
        ))
    };
    let product = Expression::Mul(conditional(), boxed("c"), at());
    assert_eq!(product.to_string(), "if a < b then a else b fi * c");
    let nested = Expression::Pow(
        Box::new(Expression::Mul(boxed("a"), boxed("b"), at())),
        Box::new(Expression::Add(boxed("c"), conditional(), at())),
        at(),
    );
    assert_eq!(nested.to_string(), "(a * b) ** (c + if a < b then a else b fi)");
    assert_eq!(Expression::Not(conditional()).to_string(), "!if a < b then a else b fi");
}
