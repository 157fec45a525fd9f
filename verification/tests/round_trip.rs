use leo_synthesis::ast::{
    AstAccess, AstCircuitField, AstExpression, AstRangeOrExpression, AstSpreadOrExpression,
    AstValue, BinaryOperation,
};
use leo_synthesis::constraints::{AllocatedInteger, IntegerOperation};
use leo_synthesis::expression::Expression;
use leo_synthesis::integer::IntegerType;
use leo_synthesis::span::{Identifier, Span};

fn at() -> Span {
    Span { text: " return a".to_string(), line: 3, start: 8, end: 9 }
}

fn name(text: &str) -> Identifier {
    Identifier { name: text.to_string(), span: at() }
}

fn number(text: &str) -> AstExpression {
    AstExpression::Value(AstValue::Implicit(text.to_string()))
}

fn shown(tree: &AstExpression) -> String {
    match Expression::from_ast(tree) {
        Ok(lowered) => lowered.to_string(),
        Err(error) => panic!("does not lower: {:?}", error),
    }
}

#[test]
fn literals_are_written_as_they_were_read() {
    assert_eq!(shown(&AstExpression::Value(AstValue::Boolean("true".to_string()))), "true");
    assert_eq!(shown(&AstExpression::Value(AstValue::Boolean("false".to_string()))), "false");
    assert_eq!(shown(&AstExpression::Value(AstValue::Field("12".to_string()))), "12");
    assert_eq!(shown(&AstExpression::Value(AstValue::Group("(1, _)".to_string()))), "(1, _)");
    assert_eq!(shown(&number("0042")), "0042");
    let integer = AstValue::Integer("42".to_string(), IntegerType::U64);
    assert_eq!(shown(&AstExpression::Value(integer)), "42u64");
}

#[test]
fn integer_numbers_are_written_plainly() {
    let padded = AstValue::Integer("007".to_string(), IntegerType::U8);
    assert_eq!(shown(&AstExpression::Value(padded)), "7u8");
    let signed = AstValue::Integer("+65535".to_string(), IntegerType::U16);
    assert_eq!(shown(&AstExpression::Value(signed)), "65535u16");
    let zero = AstValue::Integer("000".to_string(), IntegerType::U128);
    assert_eq!(shown(&AstExpression::Value(zero)), "0u128");
}

#[test]
fn a_written_integer_reads_back_as_the_same_literal() {
    let first = Expression::from_value(&AstValue::Integer("+0255".to_string(), IntegerType::U8));
    let text = match &first {
        Ok(lowered) => lowered.to_string(),
        Err(error) => panic!("does not lower: {:?}", error),
    };
    assert_eq!(text, "255u8");
    let again = Expression::from_value(&AstValue::Integer("255".to_string(), IntegerType::U8));
    assert_eq!(first, again);
}

#[test]
fn a_chain_of_accesses_is_written_in_its_order() {
    let tree = AstExpression::Postfix(
        name("a"),
        vec![
            AstAccess::Call(vec![number("1")], at()),
            AstAccess::Array(AstRangeOrExpression::Expression(number("2")), at()),
            AstAccess::Object(name("b"), at()),
        ],
        at(),
    );
    assert_eq!(shown(&tree), "a(1)[2].b");
}

#[test]
fn unequal_is_written_as_a_negated_comparison() {
    let tree = AstExpression::Binary(
        BinaryOperation::Ne,
        Box::new(AstExpression::Identifier(name("a"))),
        Box::new(number("1")),
        at(),
    );
    assert_eq!(shown(&tree), "!(a == 1)");
}

#[test]
fn an_array_initializer_is_written_element_by_element() {
    let tree = AstExpression::ArrayInitializer(
        Box::new(AstSpreadOrExpression::Expression(AstExpression::Identifier(name("e")))),
        AstValue::Implicit("4".to_string()),
        at(),
    );
    assert_eq!(shown(&tree), "[e, e, e, e]");
    let none = AstExpression::ArrayInitializer(
        Box::new(AstSpreadOrExpression::Spread(AstExpression::Identifier(name("e")))),
        AstValue::Implicit("0".to_string()),
        at(),
    );
    assert_eq!(shown(&none), "[]");
}

#[test]
fn a_conditional_over_a_circuit_is_written_with_keywords() {
    let circuit = AstExpression::CircuitInline(
        name("P"),
        vec![AstCircuitField { identifier: name("x"), expression: number("5") }],
        at(),
    );
    let tree = AstExpression::Ternary(
        Box::new(AstExpression::Value(AstValue::Boolean("true".to_string()))),
        Box::new(circuit),
        Box::new(number("10")),
        at(),
    );
    assert_eq!(shown(&tree), "if true then P {x: 5} else 10 fi");
}

#[test]
fn different_operations_or_witnesses_have_different_labels() {
    let operations = [
        IntegerOperation::Add,
        IntegerOperation::Sub,
        IntegerOperation::Mul,
        IntegerOperation::Div,
        IntegerOperation::Pow,
        IntegerOperation::Eq,
    ];
    let witnesses = [None, Some(1u32), Some(11), Some(111), Some(2)];
    let mut labels: Vec<String> = Vec::new();
    for operation in operations {
        for left in witnesses {
            for right in witnesses {
                let label = AllocatedInteger::enforce(
                    operation,
                    AllocatedInteger::U32(left),
                    AllocatedInteger::U32(right),
                );
                match label {
                    Ok(text) => {
                        assert!(!labels.contains(&text), "label {} twice", text);
                        labels.push(text);
                    }
                    Err(error) => panic!("no label: {:?}", error),
                }
            }
        }
    }
    assert_eq!(labels.len(), 150);
}

#[test]
fn operands_of_any_width_with_the_same_witnesses_have_the_same_label() {
    let narrow =
        AllocatedInteger::enforce_add(AllocatedInteger::U8(Some(3)), AllocatedInteger::U8(Some(4)));
    let wide = AllocatedInteger::enforce_add(
        AllocatedInteger::U128(Some(3)),
        AllocatedInteger::U128(Some(4)),
    );
    assert_eq!(narrow, wide);
    assert_eq!(narrow, Ok("enforce 3 + 4".to_string()));
}

#[test]
fn a_product_of_a_sum_is_written_with_its_grouping() {
    let sum = AstExpression::Binary(
        BinaryOperation::Add,
        Box::new(AstExpression::Identifier(name("a"))),
        Box::new(AstExpression::Identifier(name("b"))),
        at(),
    );
    let tree = AstExpression::Binary(
        BinaryOperation::Mul,
        Box::new(sum),
        Box::new(AstExpression::Identifier(name("c"))),
        at(),
    );
    assert_eq!(shown(&tree), "(a + b) * c");
}
