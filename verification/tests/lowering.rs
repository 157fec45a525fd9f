use leo_synthesis::ast::{
    AstAccess, AstAssignee, AstAssigneeAccess, AstCircuitField, AstExpression,
    AstRangeOrExpression, AstSpreadOrExpression, AstValue, BinaryOperation,
};
use leo_synthesis::expression::{
    CircuitFieldDefinition, Expression, RangeOrExpression, SpreadOrExpression,
};
use leo_synthesis::integer::{Integer, IntegerType};
use leo_synthesis::lowering::{
    lower_bound, lower_expression_list, lower_field_list, lower_spread_list, ExpressionError,
};
use leo_synthesis::span::{Identifier, Span};

fn span(line: usize, start: usize, end: usize) -> Span {
    Span { text: format!(" line {}", line), line, start, end }
}

fn name(text: &str) -> Identifier {
    Identifier { name: text.to_string(), span: span(1, 1, 1 + text.len()) }
}

fn implicit(text: &str) -> AstExpression {
    AstExpression::Value(AstValue::Implicit(text.to_string()))
}

fn lowered_implicit(text: &str) -> Expression {
    Expression::Implicit(text.to_string())
}

fn variable(text: &str) -> AstExpression {
    AstExpression::Identifier(name(text))
}

#[test]
fn identifier_keeps_name_and_position() {
    let lowered = Expression::from_ast(&variable("total"));
    assert_eq!(lowered, Ok(Expression::Identifier(name("total"))));
}

#[test]
fn literals_lower_to_their_values() {
    let integer = AstValue::Integer("42".to_string(), IntegerType::U32);
    assert_eq!(Expression::from_value(&integer), Ok(Expression::Integer(Integer::U32(42))));
    let field = AstValue::Field("7".to_string());
    assert_eq!(Expression::from_value(&field), Ok(Expression::Field("7".to_string())));
    let group = AstValue::Group("(0, 1)".to_string());
    assert_eq!(Expression::from_value(&group), Ok(Expression::Group("(0, 1)".to_string())));
    let yes = AstValue::Boolean("true".to_string());
    assert_eq!(Expression::from_value(&yes), Ok(Expression::Boolean(true)));
    let no = AstValue::Boolean("false".to_string());
    assert_eq!(Expression::from_value(&no), Ok(Expression::Boolean(false)));
    let number = AstValue::Implicit("12".to_string());
    assert_eq!(Expression::from_value(&number), Ok(Expression::Implicit("12".to_string())));
}

#[test]
fn integer_literal_of_every_width() {
    assert_eq!(Integer::from_literal("255", IntegerType::U8), Ok(Integer::U8(255)));
    assert_eq!(Integer::from_literal("65535", IntegerType::U16), Ok(Integer::U16(65535)));
    assert_eq!(Integer::from_literal("4294967295", IntegerType::U32), Ok(Integer::U32(u32::MAX)));
    assert_eq!(
        Integer::from_literal("18446744073709551615", IntegerType::U64),
        Ok(Integer::U64(u64::MAX))
    );
    assert_eq!(
        Integer::from_literal("340282366920938463463374607431768211455", IntegerType::U128),
        Ok(Integer::U128(u128::MAX))
    );
}

#[test]
fn integer_literal_that_does_not_fit_is_refused() {
    assert_eq!(Integer::from_literal("256", IntegerType::U8), Err(ExpressionError::InvalidInteger));
    assert_eq!(
        Integer::from_literal("65536", IntegerType::U16),
        Err(ExpressionError::InvalidInteger)
    );
    assert_eq!(
        Integer::from_literal("340282366920938463463374607431768211456", IntegerType::U128),
        Err(ExpressionError::InvalidInteger)
    );
    assert_eq!(Integer::from_literal("", IntegerType::U8), Err(ExpressionError::InvalidInteger));
    assert_eq!(Integer::from_literal("1x", IntegerType::U8), Err(ExpressionError::InvalidInteger));
    let literal = AstValue::Integer("300".to_string(), IntegerType::U8);
    assert_eq!(Expression::from_value(&literal), Err(ExpressionError::InvalidInteger));
}

#[test]
fn boolean_literal_with_other_text_is_refused() {
    let value = AstValue::Boolean("True".to_string());
    assert_eq!(Expression::from_value(&value), Err(ExpressionError::InvalidBoolean));
    let empty = AstValue::Boolean(String::new());
    assert_eq!(Expression::from_value(&empty), Err(ExpressionError::InvalidBoolean));
}

#[test]
fn not_wraps_the_lowered_operand() {
    let tree = AstExpression::Not(Box::new(variable("flag")));
    assert_eq!(
        Expression::from_ast(&tree),
        Ok(Expression::Not(Box::new(Expression::Identifier(name("flag")))))
    );
}

#[test]
fn every_binary_operator_has_its_node() {
    let at = span(3, 1, 6);
    let l = || Box::new(lowered_implicit("1"));
    let r = || Box::new(lowered_implicit("2"));
    let cases: Vec<(BinaryOperation, Expression)> = vec![
        (BinaryOperation::Or, Expression::Or(l(), r(), at.clone())),
        (BinaryOperation::And, Expression::And(l(), r(), at.clone())),
        (BinaryOperation::Eq, Expression::Eq(l(), r(), at.clone())),
        (BinaryOperation::Ge, Expression::Ge(l(), r(), at.clone())),
        (BinaryOperation::Gt, Expression::Gt(l(), r(), at.clone())),
        (BinaryOperation::Le, Expression::Le(l(), r(), at.clone())),
        (BinaryOperation::Lt, Expression::Lt(l(), r(), at.clone())),
        (BinaryOperation::Add, Expression::Add(l(), r(), at.clone())),
        (BinaryOperation::Sub, Expression::Sub(l(), r(), at.clone())),
        (BinaryOperation::Mul, Expression::Mul(l(), r(), at.clone())),
        (BinaryOperation::Div, Expression::Div(l(), r(), at.clone())),
        (BinaryOperation::Pow, Expression::Pow(l(), r(), at.clone())),
    ];
    for (operation, expected) in cases {
        let tree = AstExpression::Binary(
            operation,
            Box::new(implicit("1")),
            Box::new(implicit("2")),
            at.clone(),
        );
        assert_eq!(Expression::from_ast(&tree), Ok(expected));
    }
}

#[test]
fn unequal_is_the_negation_of_equal() {
    let at = span(2, 4, 10);
    let tree = AstExpression::Binary(
        BinaryOperation::Ne,
        Box::new(variable("a")),
        Box::new(variable("b")),
        at.clone(),
    );
    let expected = Expression::Not(Box::new(Expression::Eq(
        Box::new(Expression::Identifier(name("a"))),
        Box::new(Expression::Identifier(name("b"))),
        at,
    )));
    assert_eq!(Expression::from_ast(&tree), Ok(expected));
    let node = Expression::from_binary(
        BinaryOperation::Ne,
        lowered_implicit("1"),
        lowered_implicit("2"),
        span(1, 1, 2),
    );
    assert!(matches!(node, Expression::Not(_)));
}

#[test]
fn ternary_lowers_all_three_operands() {
    let at = span(5, 1, 20);
    let tree = AstExpression::Ternary(
        Box::new(AstExpression::Value(AstValue::Boolean("true".to_string()))),
        Box::new(implicit("5")),
        Box::new(implicit("10")),
        at.clone(),
    );
    let expected = Expression::IfElse(
        Box::new(Expression::Boolean(true)),
        Box::new(lowered_implicit("5")),
        Box::new(lowered_implicit("10")),
        at,
    );
    assert_eq!(Expression::from_ast(&tree), Ok(expected));
}

#[test]
fn inline_array_keeps_order_and_spreads() {
    let at = span(1, 1, 12);
    let tree = AstExpression::ArrayInline(
        vec![
            AstSpreadOrExpression::Expression(implicit("1")),
            AstSpreadOrExpression::Spread(variable("rest")),
            AstSpreadOrExpression::Expression(implicit("3")),
        ],
        at.clone(),
    );
    let expected = Expression::Array(
        vec![
            Box::new(SpreadOrExpression::Expression(lowered_implicit("1"))),
            Box::new(SpreadOrExpression::Spread(Expression::Identifier(name("rest")))),
            Box::new(SpreadOrExpression::Expression(lowered_implicit("3"))),
        ],
        at,
    );
    assert_eq!(Expression::from_ast(&tree), Ok(expected));
}

#[test]
fn empty_inline_array() {
    let at = span(1, 1, 3);
    let tree = AstExpression::ArrayInline(vec![], at.clone());
    assert_eq!(Expression::from_ast(&tree), Ok(Expression::Array(vec![], at)));
}

#[test]
fn array_initializer_expands_to_four_equal_elements() {
    let at = span(7, 2, 9);
    let element = AstExpression::Binary(
        BinaryOperation::Add,
        Box::new(variable("e")),
        Box::new(implicit("1")),
        span(7, 3, 8),
    );
    let tree = AstExpression::ArrayInitializer(
        Box::new(AstSpreadOrExpression::Expression(element)),
        AstValue::Implicit("4".to_string()),
        at.clone(),
    );
    let lowered_element = SpreadOrExpression::Expression(Expression::Add(
        Box::new(Expression::Identifier(name("e"))),
        Box::new(lowered_implicit("1")),
        span(7, 3, 8),
    ));
    match Expression::from_ast(&tree) {
        Ok(Expression::Array(items, position)) => {
            assert_eq!(position, at);
            assert_eq!(items.len(), 4);
            for item in items.iter() {
                assert_eq!(**item, lowered_element);
            }
        }
        other => panic!("unexpected result {:?}", other),
    }
}

#[test]
fn array_initializer_elements_are_owned_apart() {
    let tree = AstExpression::ArrayInitializer(
        Box::new(AstSpreadOrExpression::Expression(variable("e"))),
        AstValue::Integer("3".to_string(), IntegerType::U8),
        span(1, 1, 8),
    );
    match Expression::from_ast(&tree) {
        Ok(Expression::Array(mut items, _)) => {
            assert_eq!(items.len(), 3);
            *items[0] = SpreadOrExpression::Expression(lowered_implicit("0"));
            let untouched = SpreadOrExpression::Expression(Expression::Identifier(name("e")));
            assert_eq!(*items[1], untouched);
            assert_eq!(*items[2], untouched);
        }
        other => panic!("unexpected result {:?}", other),
    }
}

#[test]
fn array_initializer_of_no_elements() {
    let item = SpreadOrExpression::Expression(lowered_implicit("9"));
    let array = Expression::from_array_initializer(item, 0, span(1, 1, 2));
    assert_eq!(array, Expression::Array(vec![], span(1, 1, 2)));
}

#[test]
fn count_is_read_from_a_number_with_or_without_type() {
    assert_eq!(Expression::get_count(&AstValue::Implicit("4".to_string())), Ok(4));
    assert_eq!(
        Expression::get_count(&AstValue::Integer("12".to_string(), IntegerType::U32)),
        Ok(12)
    );
    assert_eq!(
        Expression::get_count(&AstValue::Integer("300".to_string(), IntegerType::U8)),
        Ok(300)
    );
    assert_eq!(Expression::get_count(&AstValue::Implicit("0".to_string())), Ok(0));
    assert_eq!(Expression::get_count(&AstValue::Implicit("+7".to_string())), Ok(7));
}

#[test]
fn count_that_is_no_integer_is_refused() {
    assert_eq!(
        Expression::get_count(&AstValue::Boolean("true".to_string())),
        Err(ExpressionError::ArraySizeNotInteger)
    );
    assert_eq!(
        Expression::get_count(&AstValue::Field("3".to_string())),
        Err(ExpressionError::ArraySizeNotInteger)
    );
    assert_eq!(
        Expression::get_count(&AstValue::Group("3".to_string())),
        Err(ExpressionError::ArraySizeNotInteger)
    );
}

#[test]
fn count_that_cannot_be_read_is_refused() {
    assert_eq!(
        Expression::get_count(&AstValue::Implicit("n".to_string())),
        Err(ExpressionError::ArraySizeUnreadable)
    );
    assert_eq!(
        Expression::get_count(&AstValue::Implicit(String::new())),
        Err(ExpressionError::ArraySizeUnreadable)
    );
    assert_eq!(
        Expression::get_count(&AstValue::Implicit(
            "340282366920938463463374607431768211456".to_string()
        )),
        Err(ExpressionError::ArraySizeUnreadable)
    );
    let tree = AstExpression::ArrayInitializer(
        Box::new(AstSpreadOrExpression::Expression(variable("e"))),
        AstValue::Implicit("-1".to_string()),
        span(1, 1, 8),
    );
    assert_eq!(Expression::from_ast(&tree), Err(ExpressionError::ArraySizeUnreadable));
}

#[test]
fn count_is_read_before_the_element() {
    let tree = AstExpression::ArrayInitializer(
        Box::new(AstSpreadOrExpression::Expression(AstExpression::Value(AstValue::Boolean(
            "maybe".to_string(),
        )))),
        AstValue::Boolean("true".to_string()),
        span(1, 1, 8),
    );
    assert_eq!(Expression::from_ast(&tree), Err(ExpressionError::ArraySizeNotInteger));
    let tree = AstExpression::ArrayInitializer(
        Box::new(AstSpreadOrExpression::Expression(AstExpression::Value(AstValue::Boolean(
            "maybe".to_string(),
        )))),
        AstValue::Implicit("0".to_string()),
        span(1, 1, 8),
    );
    assert_eq!(Expression::from_ast(&tree), Err(ExpressionError::InvalidBoolean));
}

#[test]
fn circuit_keeps_members_in_written_order() {
    let at = span(4, 1, 30);
    let tree = AstExpression::CircuitInline(
        name("Point"),
        vec![
            AstCircuitField { identifier: name("y"), expression: implicit("2") },
            AstCircuitField { identifier: name("x"), expression: implicit("1") },
        ],
        at.clone(),
    );
    let expected = Expression::Circuit(
        name("Point"),
        vec![
            CircuitFieldDefinition { identifier: name("y"), expression: lowered_implicit("2") },
            CircuitFieldDefinition { identifier: name("x"), expression: lowered_implicit("1") },
        ],
        at,
    );
    assert_eq!(Expression::from_ast(&tree), Ok(expected));
}

#[test]
fn postfix_accesses_apply_in_written_order() {
    // a(1)[2].b
    let call = span(1, 2, 5);
    let index = span(1, 5, 8);
    let member = span(1, 8, 10);
    let tree = AstExpression::Postfix(
        name("a"),
        vec![
            AstAccess::Call(vec![implicit("1")], call.clone()),
            AstAccess::Array(AstRangeOrExpression::Expression(implicit("2")), index.clone()),
            AstAccess::Object(name("b"), member.clone()),
        ],
        span(1, 1, 10),
    );
    let expected = Expression::CircuitMemberAccess(
        Box::new(Expression::ArrayAccess(
            Box::new(Expression::FunctionCall(
                Box::new(Expression::Identifier(name("a"))),
                vec![lowered_implicit("1")],
                call,
            )),
            Box::new(RangeOrExpression::Expression(lowered_implicit("2"))),
            index,
        )),
        name("b"),
        member,
    );
    assert_eq!(Expression::from_ast(&tree), Ok(expected));
}

#[test]
fn postfix_without_accesses_is_the_name() {
    let tree = AstExpression::Postfix(name("a"), vec![], span(1, 1, 2));
    assert_eq!(Expression::from_ast(&tree), Ok(Expression::Identifier(name("a"))));
    assert_eq!(Expression::from_postfix(&name("a"), &vec![]), Ok(Expression::Identifier(name("a"))));
}

#[test]
fn static_access_and_range_access() {
    let tree = AstExpression::Postfix(
        name("Circ"),
        vec![
            AstAccess::StaticObject(name("make"), span(1, 5, 11)),
            AstAccess::Array(
                AstRangeOrExpression::Range(Some(implicit("1")), None),
                span(1, 11, 16),
            ),
        ],
        span(1, 1, 16),
    );
    let expected = Expression::ArrayAccess(
        Box::new(Expression::CircuitStaticFunctionAccess(
            Box::new(Expression::Identifier(name("Circ"))),
            name("make"),
            span(1, 5, 11),
        )),
        Box::new(RangeOrExpression::Range(Some(lowered_implicit("1")), None)),
        span(1, 11, 16),
    );
    assert_eq!(Expression::from_ast(&tree), Ok(expected));
}

#[test]
fn single_access_wraps_what_was_built() {
    let inner = Expression::Identifier(name("f"));
    let access = AstAccess::Call(vec![implicit("1"), implicit("2")], span(1, 2, 8));
    assert_eq!(
        Expression::from_access(inner, &access),
        Ok(Expression::FunctionCall(
            Box::new(Expression::Identifier(name("f"))),
            vec![lowered_implicit("1"), lowered_implicit("2")],
            span(1, 2, 8),
        ))
    );
}

#[test]
fn assignee_lowers_like_a_chain_of_accesses() {
    let assignee = AstAssignee {
        identifier: name("p"),
        accesses: vec![
            AstAssigneeAccess::Member(name("xs"), span(1, 2, 5)),
            AstAssigneeAccess::Array(AstRangeOrExpression::Expression(implicit("0")), span(1, 5, 8)),
        ],
        span: span(1, 1, 8),
    };
    let expected = Expression::ArrayAccess(
        Box::new(Expression::CircuitMemberAccess(
            Box::new(Expression::Identifier(name("p"))),
            name("xs"),
            span(1, 2, 5),
        )),
        Box::new(RangeOrExpression::Expression(lowered_implicit("0"))),
        span(1, 5, 8),
    );
    assert_eq!(Expression::from_assignee(&assignee), Ok(expected));
    let bare = AstAssignee { identifier: name("p"), accesses: vec![], span: span(1, 1, 2) };
    assert_eq!(Expression::from_assignee(&bare), Ok(Expression::Identifier(name("p"))));
}

#[test]
fn the_first_failure_is_reported() {
    let bad_boolean = || AstExpression::Value(AstValue::Boolean("maybe".to_string()));
    let bad_integer = || AstExpression::Value(AstValue::Integer("999".to_string(), IntegerType::U8));
    let tree = AstExpression::Binary(
        BinaryOperation::Add,
        Box::new(bad_integer()),
        Box::new(bad_boolean()),
        span(1, 1, 9),
    );
    assert_eq!(Expression::from_ast(&tree), Err(ExpressionError::InvalidInteger));
    let tree = AstExpression::Postfix(
        name("f"),
        vec![
            AstAccess::Call(vec![implicit("1"), bad_boolean(), bad_integer()], span(1, 2, 9)),
            AstAccess::Array(AstRangeOrExpression::Expression(bad_integer()), span(1, 9, 12)),
        ],
        span(1, 1, 12),
    );
    assert_eq!(Expression::from_ast(&tree), Err(ExpressionError::InvalidBoolean));
    let tree = AstExpression::ArrayInline(
        vec![
            AstSpreadOrExpression::Expression(implicit("1")),
            AstSpreadOrExpression::Spread(bad_integer()),
            AstSpreadOrExpression::Expression(bad_boolean()),
        ],
        span(1, 1, 9),
    );
    assert_eq!(Expression::from_ast(&tree), Err(ExpressionError::InvalidInteger));
    let range = AstRangeOrExpression::Range(Some(bad_boolean()), Some(bad_integer()));
    assert_eq!(RangeOrExpression::from_ast(&range), Err(ExpressionError::InvalidBoolean));
}

#[test]
fn parts_lower_on_their_own() {
    let spread = AstSpreadOrExpression::Spread(variable("xs"));
    assert_eq!(
        SpreadOrExpression::from_ast(&spread),
        Ok(SpreadOrExpression::Spread(Expression::Identifier(name("xs"))))
    );
    let range = AstRangeOrExpression::Range(None, Some(implicit("3")));
    assert_eq!(
        RangeOrExpression::from_ast(&range),
        Ok(RangeOrExpression::Range(None, Some(lowered_implicit("3"))))
    );
    let field = AstCircuitField { identifier: name("x"), expression: implicit("1") };
    assert_eq!(
        CircuitFieldDefinition::from_ast(&field),
        Ok(CircuitFieldDefinition { identifier: name("x"), expression: lowered_implicit("1") })
    );
}

#[test]
fn clone_gives_an_equal_tree() {
    let tree = Expression::FunctionCall(
        Box::new(Expression::Identifier(name("f"))),
        vec![
            Expression::Array(
                vec![Box::new(SpreadOrExpression::Spread(Expression::Identifier(name("xs"))))],
                span(1, 3, 10),
            ),
            Expression::Circuit(
                name("P"),
                vec![CircuitFieldDefinition {
                    identifier: name("x"),
                    expression: Expression::Integer(Integer::U8(1)),
                }],
                span(1, 12, 20),
            ),
            Expression::ArrayAccess(
                Box::new(Expression::Identifier(name("a"))),
                Box::new(RangeOrExpression::Range(None, Some(lowered_implicit("2")))),
                span(1, 22, 28),
            ),
        ],
        span(1, 1, 29),
    );
    assert_eq!(tree.clone(), tree);
}

#[test]
fn nodes_built_from_lowered_parts() {
    let at = span(2, 1, 5);
    assert_eq!(
        Expression::array_access(
            Expression::Identifier(name("a")),
            RangeOrExpression::range(None, Some(lowered_implicit("3"))),
            at.clone(),
        ),
        Expression::ArrayAccess(
            Box::new(Expression::Identifier(name("a"))),
            Box::new(RangeOrExpression::Range(None, Some(lowered_implicit("3")))),
            at.clone(),
        )
    );
    assert_eq!(
        Expression::function_call(
            Expression::Identifier(name("f")),
            vec![lowered_implicit("1")],
            at.clone(),
        ),
        Expression::FunctionCall(
            Box::new(Expression::Identifier(name("f"))),
            vec![lowered_implicit("1")],
            at.clone(),
        )
    );
    assert_eq!(
        Expression::member_access(Expression::Identifier(name("p")), name("x"), at.clone()),
        Expression::CircuitMemberAccess(
            Box::new(Expression::Identifier(name("p"))),
            name("x"),
            at.clone(),
        )
    );
    assert_eq!(
        Expression::static_access(Expression::Identifier(name("P")), name("new"), at.clone()),
        Expression::CircuitStaticFunctionAccess(
            Box::new(Expression::Identifier(name("P"))),
            name("new"),
            at,
        )
    );
}

#[test]
fn bounds_of_a_range() {
    assert_eq!(lower_bound(&None), Ok(None));
    assert_eq!(lower_bound(&Some(implicit("2"))), Ok(Some(lowered_implicit("2"))));
    let bad = AstExpression::Value(AstValue::Boolean("no".to_string()));
    assert_eq!(lower_bound(&Some(bad)), Err(ExpressionError::InvalidBoolean));
}

#[test]
fn lists_lower_in_order() {
    assert_eq!(
        lower_expression_list(&vec![implicit("1"), variable("b")]),
        Ok(vec![lowered_implicit("1"), Expression::Identifier(name("b"))])
    );
    assert_eq!(lower_expression_list(&vec![]), Ok(vec![]));
    assert_eq!(
        lower_spread_list(&vec![AstSpreadOrExpression::Spread(variable("xs"))]),
        Ok(vec![Box::new(SpreadOrExpression::Spread(Expression::Identifier(name("xs"))))])
    );
    assert_eq!(
        lower_field_list(&vec![AstCircuitField { identifier: name("x"), expression: implicit("1") }]),
        Ok(vec![CircuitFieldDefinition {
            identifier: name("x"),
            expression: lowered_implicit("1"),
        }])
    );
}

#[test]
fn a_tree_that_lowers_gives_its_expression() {
    let tree = AstExpression::Binary(
        BinaryOperation::Mul,
        Box::new(variable("a")),
        Box::new(implicit("2")),
        span(1, 1, 6),
    );
    assert_eq!(
        Expression::from(tree),
        Expression::Mul(
            Box::new(Expression::Identifier(name("a"))),
            Box::new(lowered_implicit("2")),
            span(1, 1, 6),
        )
    );
}

#[test]
fn a_conditional_with_a_bad_branch_does_not_lower() {
    let bad = || AstExpression::Value(AstValue::Boolean("maybe".to_string()));
    let yes = || AstExpression::Value(AstValue::Boolean("true".to_string()));
    let no = || AstExpression::Value(AstValue::Boolean("false".to_string()));
    let not_taken = AstExpression::Ternary(
        Box::new(yes()),
        Box::new(implicit("5")),
        Box::new(bad()),
        span(1, 1, 9),
    );
    assert_eq!(Expression::from_ast(&not_taken), Err(ExpressionError::InvalidBoolean));
    let taken = AstExpression::Ternary(
        Box::new(no()),
        Box::new(bad()),
        Box::new(implicit("10")),
        span(1, 1, 9),
    );
    assert_eq!(Expression::from_ast(&taken), Err(ExpressionError::InvalidBoolean));
}
