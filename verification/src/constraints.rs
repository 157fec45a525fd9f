//! The unsigned-integer gadgets, one contract for all five widths.
//!
//! The constraint system itself is not here: it belongs to the proof backend.
//! This module decides what the backend is asked to do. For an input it says
//! under which name and visibility to allocate which witness. For an
//! operation it checks the operands and gives the label of the namespace that
//! the constraints go into. What the backend answers is turned into the
//! library's own values and errors.

use crate::decimal::{append_decimal, decimal_digits, is_digit, lemma_decimal_round_trip};
use crate::display::operator_symbol;
use crate::expression::Operator;
use crate::grouping::{
    calm, lemma_bracketed_is_calm, lemma_digits_are_calm, lemma_operands_are_told_apart,
    lemma_plain_text_is_balanced,
};
use crate::integer::IntegerType;
use vstd::arithmetic::div_mod::lemma_small_mod;
use vstd::prelude::*;
use vstd::string::StringExecFns;

verus! {

/// What stands in a label for a witness that has no value assigned.
pub const UNASSIGNED: &'static str = "[unassigned]";

/// One formal input of a circuit: its name, its declared type, and whether it
/// is a private witness or a public input.
#[derive(Debug, PartialEq, Eq)]
pub struct InputModel {
    pub name: String,
    pub integer_type: IntegerType,
    pub private: bool,
}

/// How an input enters the constraint system.
#[derive(Clone, Copy, Debug, PartialEq, Eq, Structural)]
pub enum Visibility {
    /// As a witness that the proof hides.
    Private,
    /// As an input that the proof reveals.
    Public,
}

/// An integer in the constraint system, as far as plain values tell: its
/// width, and its witness where one is assigned.
#[derive(Clone, Copy, Debug, PartialEq, Eq, Structural)]
pub enum AllocatedInteger {
    U8(Option<u8>),
    U16(Option<u16>),
    U32(Option<u32>),
    U64(Option<u64>),
    U128(Option<u128>),
}

/// The request to allocate one input.
#[derive(Debug, PartialEq, Eq)]
pub struct Allocation {
    /// The namespace to allocate under: the input's name.
    pub name: String,
    pub visibility: Visibility,
    /// The integer to allocate, with the witness to assign to it.
    pub integer: AllocatedInteger,
}

/// The operations on two integers that are enforced in the constraint
/// system: the five of arithmetic, and equality.
#[derive(Clone, Copy, Debug, PartialEq, Eq, Structural)]
pub enum IntegerOperation {
    Add,
    Sub,
    Mul,
    Div,
    Pow,
    Eq,
}

/// How the backend can fail, as far as this library tells the failures apart.
#[derive(Clone, Copy, Debug, PartialEq, Eq, Structural)]
pub enum SynthesisError {
    /// A value was asked for and none is assigned.
    AssignmentMissing,
    /// A division by zero.
    DivisionByZero,
    /// The constraint system cannot be satisfied.
    Unsatisfiable,
    /// Any other failure of the backend.
    Other,
}

/// Why an operation on integers fails.
#[derive(Clone, Copy, Debug, PartialEq, Eq, Structural)]
pub enum IntegerError {
    /// A value was needed to synthesize a constraint, and none is assigned.
    MissingWitness,
    /// The divisor is zero.
    DivisionByZero,
    /// The constraint system rejected an enforced relation.
    SynthesisRejected,
    /// The two operands are not of the same width.
    WidthMismatch,
}

/// The number `value` cut down to the bits of `integer_type`.
pub open spec fn truncated(integer_type: IntegerType, value: nat) -> nat {
    value % (integer_type.max_value() + 1)
}

/// The integer of type `integer_type` with the witness `value`, which fits the type.
pub open spec fn allocated(integer_type: IntegerType, value: Option<nat>) -> AllocatedInteger {
    match integer_type {
        IntegerType::U8 => AllocatedInteger::U8(
            match value {
                Some(v) => Some(v as u8),
                None => None,
            },
        ),
        IntegerType::U16 => AllocatedInteger::U16(
            match value {
                Some(v) => Some(v as u16),
                None => None,
            },
        ),
        IntegerType::U32 => AllocatedInteger::U32(
            match value {
                Some(v) => Some(v as u32),
                None => None,
            },
        ),
        IntegerType::U64 => AllocatedInteger::U64(
            match value {
                Some(v) => Some(v as u64),
                None => None,
            },
        ),
        IntegerType::U128 => AllocatedInteger::U128(
            match value {
                Some(v) => Some(v as u128),
                None => None,
            },
        ),
    }
}

/// The text that stands for a witness in a label: its decimal notation, or
/// the placeholder where no value is assigned.
pub open spec fn witness_text(value: Option<nat>) -> Seq<char> {
    match value {
        Some(v) => decimal_digits(v),
        None => UNASSIGNED@,
    }
}

/// The label of the namespace of an operation. It is made of the operation
/// and of the operands' witnesses, and of nothing else.
pub open spec fn operation_label(
    operation: IntegerOperation,
    left: Option<nat>,
    right: Option<nat>,
) -> Seq<char> {
    "enforce "@ + witness_text(left) + operator_symbol(operation.operator()) + witness_text(right)
}

/// What an operation on two integers comes to before the backend
/// is asked: the operands have to be of one width, and a divisor may not be
/// known to be zero.
pub open spec fn checked_operation(
    operation: IntegerOperation,
    left: AllocatedInteger,
    right: AllocatedInteger,
) -> Result<Seq<char>, IntegerError> {
    if left.get_type() != right.get_type() {
        Err(IntegerError::WidthMismatch)
    } else if operation == IntegerOperation::Div && right.witness() == Some(0nat) {
        Err(IntegerError::DivisionByZero)
    } else {
        Ok(operation_label(operation, left.witness(), right.witness()))
    }
}

impl IntegerOperation {
    /// The operator of the expression tree that stands for the operation.
    #[verifier::when_used_as_spec(spec_operator)]
    pub fn operator(self) -> (operator: Operator)
        ensures
            operator == self.spec_operator(),
    {
        match self {
            IntegerOperation::Add => Operator::Add,
            IntegerOperation::Sub => Operator::Sub,
            IntegerOperation::Mul => Operator::Mul,
            IntegerOperation::Div => Operator::Div,
            IntegerOperation::Pow => Operator::Pow,
            IntegerOperation::Eq => Operator::Eq,
        }
    }

    /// The operator of the expression tree that stands for the operation.
    pub open spec fn spec_operator(self) -> Operator {
        match self {
            IntegerOperation::Add => Operator::Add,
            IntegerOperation::Sub => Operator::Sub,
            IntegerOperation::Mul => Operator::Mul,
            IntegerOperation::Div => Operator::Div,
            IntegerOperation::Pow => Operator::Pow,
            IntegerOperation::Eq => Operator::Eq,
        }
    }
}

impl IntegerError {
    /// Whether the failure came up while constraints were synthesized, as
    /// opposed to a malformed program.
    pub open spec fn is_synthesis_error(self) -> bool {
        self != IntegerError::WidthMismatch
    }

    /// The library's error for a failure of the backend.
    pub fn from_synthesis(error: SynthesisError) -> (converted: IntegerError)
        ensures
            converted == match error {
                SynthesisError::AssignmentMissing => IntegerError::MissingWitness,
                SynthesisError::DivisionByZero => IntegerError::DivisionByZero,
                SynthesisError::Unsatisfiable => IntegerError::SynthesisRejected,
                SynthesisError::Other => IntegerError::SynthesisRejected,
            },
            converted.is_synthesis_error(),
    {
        match error {
            SynthesisError::AssignmentMissing => IntegerError::MissingWitness,
            SynthesisError::DivisionByZero => IntegerError::DivisionByZero,
            SynthesisError::Unsatisfiable => IntegerError::SynthesisRejected,
            SynthesisError::Other => IntegerError::SynthesisRejected,
        }
    }
}

impl AllocatedInteger {
    /// The width of the integer.
    pub open spec fn spec_get_type(self) -> IntegerType {
        match self {
            AllocatedInteger::U8(_) => IntegerType::U8,
            AllocatedInteger::U16(_) => IntegerType::U16,
            AllocatedInteger::U32(_) => IntegerType::U32,
            AllocatedInteger::U64(_) => IntegerType::U64,
            AllocatedInteger::U128(_) => IntegerType::U128,
        }
    }

    /// The witness of the integer, where one is assigned.
    pub open spec fn witness(self) -> Option<nat> {
        match self {
            AllocatedInteger::U8(Some(v)) => Some(v as nat),
            AllocatedInteger::U16(Some(v)) => Some(v as nat),
            AllocatedInteger::U32(Some(v)) => Some(v as nat),
            AllocatedInteger::U64(Some(v)) => Some(v as nat),
            AllocatedInteger::U128(Some(v)) => Some(v as nat),
            _ => None,
        }
    }

    /// The width of the integer.
    #[verifier::when_used_as_spec(spec_get_type)]
    pub fn get_type(self) -> (integer_type: IntegerType)
        ensures
            integer_type == self.spec_get_type(),
    {
        match self {
            AllocatedInteger::U8(_) => IntegerType::U8,
            AllocatedInteger::U16(_) => IntegerType::U16,
            AllocatedInteger::U32(_) => IntegerType::U32,
            AllocatedInteger::U64(_) => IntegerType::U64,
            AllocatedInteger::U128(_) => IntegerType::U128,
        }
    }

    /// The witness of the integer, where one is assigned.
    pub fn get_value(self) -> (value: Option<u128>)
        ensures
            match self.witness() {
                Some(v) => value == Some(v as u128) && v <= self.get_type().max_value(),
                None => value is None,
            },
    {
        match self {
            AllocatedInteger::U8(Some(v)) => Some(v as u128),
            AllocatedInteger::U16(Some(v)) => Some(v as u128),
            AllocatedInteger::U32(Some(v)) => Some(v as u128),
            AllocatedInteger::U64(Some(v)) => Some(v as u128),
            AllocatedInteger::U128(Some(v)) => Some(v),
            _ => None,
        }
    }

    /// The value that proving needs: the witness, or the failure that none is assigned.
    pub fn assigned_value(self) -> (value: Result<u128, IntegerError>)
        ensures
            match self.witness() {
                Some(v) => value == Ok::<u128, IntegerError>(v as u128),
                None => value == Err::<u128, IntegerError>(IntegerError::MissingWitness),
            },
    {
        match self.get_value() {
            Some(v) => Ok(v),
            None => Err(IntegerError::MissingWitness),
        }
    }

    /// The request to allocate the input that `parameter_model` describes, with
    /// the value that was supplied for it, if any.
    ///
    /// A value that is too wide for the input's type is cut down to the bits of
    /// the type, without an error. Where no value was supplied the integer is
    /// allocated all the same, without a witness.
    pub fn from_input(parameter_model: InputModel, integer_option: Option<usize>) -> (allocation:
        Allocation)
        ensures
            allocation.name@ == parameter_model.name@,
            allocation.visibility == if parameter_model.private {
                Visibility::Private
            } else {
                Visibility::Public
            },
            allocation.integer.get_type() == parameter_model.integer_type,
            allocation.integer.witness() == match integer_option {
                Some(v) => Some(truncated(parameter_model.integer_type, v as nat)),
                None => None,
            },
    {
        proof {
            if let Some(v) = integer_option {
                if parameter_model.integer_type == IntegerType::U64 {
                    lemma_small_mod(v as nat, IntegerType::U64.max_value() + 1);
                } else if parameter_model.integer_type == IntegerType::U128 {
                    lemma_small_mod(v as nat, IntegerType::U128.max_value() + 1);
                }
            }
        }
        let integer = match parameter_model.integer_type {
            IntegerType::U8 => AllocatedInteger::U8(
                match integer_option {
                    Some(v) => Some((v % 0x100) as u8),
                    None => None,
                },
            ),
            IntegerType::U16 => AllocatedInteger::U16(
                match integer_option {
                    Some(v) => Some((v % 0x1_0000) as u16),
                    None => None,
                },
            ),
            IntegerType::U32 => AllocatedInteger::U32(
                match integer_option {
                    Some(v) => Some((v as u64 % 0x1_0000_0000) as u32),
                    None => None,
                },
            ),
            IntegerType::U64 => AllocatedInteger::U64(
                match integer_option {
                    Some(v) => Some(v as u64),
                    None => None,
                },
            ),
            IntegerType::U128 => AllocatedInteger::U128(
                match integer_option {
                    Some(v) => Some(v as u128),
                    None => None,
                },
            ),
        };
        let visibility = if parameter_model.private {
            Visibility::Private
        } else {
            Visibility::Public
        };
        Allocation { name: parameter_model.name, visibility, integer }
    }

    /// The request to allocate the input as an integer of type `integer_type`:
    /// the request of [`AllocatedInteger::from_input`] where that is the type
    /// that the input declares, and the structural error where it is not.
    pub fn from_input_as(
        integer_type: IntegerType,
        parameter_model: InputModel,
        integer_option: Option<usize>,
    ) -> (allocation: Result<Allocation, IntegerError>)
        ensures
            match allocation {
                Ok(request) => {
                    &&& parameter_model.integer_type == integer_type
                    &&& request.name@ == parameter_model.name@
                    &&& request.visibility == if parameter_model.private {
                        Visibility::Private
                    } else {
                        Visibility::Public
                    }
                    &&& request.integer.get_type() == integer_type
                    &&& request.integer.witness() == match integer_option {
                        Some(v) => Some(truncated(integer_type, v as nat)),
                        None => None,
                    }
                },
                Err(e) => parameter_model.integer_type != integer_type && e
                    == IntegerError::WidthMismatch,
            },
    {
        if same_type(parameter_model.integer_type, integer_type) {
            Ok(AllocatedInteger::from_input(parameter_model, integer_option))
        } else {
            Err(IntegerError::WidthMismatch)
        }
    }

    /// The integer that the backend hands back for an allocation or an
    /// operation of type `integer_type`: its witness where it gave one, or the
    /// library's error for its failure. A witness that does not fit the type
    /// is refused, never cut down.
    pub fn from_outcome(
        integer_type: IntegerType,
        outcome: Result<Option<u128>, SynthesisError>,
    ) -> (integer: Result<AllocatedInteger, IntegerError>)
        ensures
            integer == match outcome {
                Ok(Some(v)) => if v <= integer_type.max_value() {
                    Ok::<AllocatedInteger, IntegerError>(allocated(integer_type, Some(v as nat)))
                } else {
                    Err::<AllocatedInteger, IntegerError>(IntegerError::WidthMismatch)
                },
                Ok(None) => Ok::<AllocatedInteger, IntegerError>(allocated(integer_type, None)),
                Err(e) => Err::<AllocatedInteger, IntegerError>(
                    match e {
                        SynthesisError::AssignmentMissing => IntegerError::MissingWitness,
                        SynthesisError::DivisionByZero => IntegerError::DivisionByZero,
                        SynthesisError::Unsatisfiable => IntegerError::SynthesisRejected,
                        SynthesisError::Other => IntegerError::SynthesisRejected,
                    },
                ),
            },
    {
        match outcome {
            Ok(None) => Ok(
                match integer_type {
                    IntegerType::U8 => AllocatedInteger::U8(None),
                    IntegerType::U16 => AllocatedInteger::U16(None),
                    IntegerType::U32 => AllocatedInteger::U32(None),
                    IntegerType::U64 => AllocatedInteger::U64(None),
                    IntegerType::U128 => AllocatedInteger::U128(None),
                },
            ),
            Ok(Some(v)) => match integer_type {
                IntegerType::U8 => if v <= 0xff {
                    Ok(AllocatedInteger::U8(Some(v as u8)))
                } else {
                    Err(IntegerError::WidthMismatch)
                },
                IntegerType::U16 => if v <= 0xffff {
                    Ok(AllocatedInteger::U16(Some(v as u16)))
                } else {
                    Err(IntegerError::WidthMismatch)
                },
                IntegerType::U32 => if v <= 0xffff_ffff {
                    Ok(AllocatedInteger::U32(Some(v as u32)))
                } else {
                    Err(IntegerError::WidthMismatch)
                },
                IntegerType::U64 => if v <= 0xffff_ffff_ffff_ffff {
                    Ok(AllocatedInteger::U64(Some(v as u64)))
                } else {
                    Err(IntegerError::WidthMismatch)
                },
                IntegerType::U128 => Ok(AllocatedInteger::U128(Some(v))),
            },
            Err(e) => Err(IntegerError::from_synthesis(e)),
        }
    }

    /// The label under which `left` and `right` are enforced to be equal.
    pub fn enforce_eq(left: AllocatedInteger, right: AllocatedInteger) -> (label: Result<
        String,
        IntegerError,
    >)
        ensures
            match checked_operation(IntegerOperation::Eq, left, right) {
                Ok(text) => label is Ok && label->Ok_0@ == text,
                Err(e) => label is Err && label->Err_0 == e,
            },
            left.get_type() != right.get_type() <==> label is Err,
    {
        AllocatedInteger::enforce(IntegerOperation::Eq, left, right)
    }

    /// The label under which `left operation right` is enforced, where the
    /// operation can be asked of the backend at all.
    pub fn enforce(
        operation: IntegerOperation,
        left: AllocatedInteger,
        right: AllocatedInteger,
    ) -> (label: Result<String, IntegerError>)
        ensures
            match checked_operation(operation, left, right) {
                Ok(text) => label is Ok && label->Ok_0@ == text,
                Err(e) => label is Err && label->Err_0 == e,
            },
    {
        if !same_type(left.get_type(), right.get_type()) {
            return Err(IntegerError::WidthMismatch);
        }
        let divisor = right.get_value();
        let is_division = match operation {
            IntegerOperation::Div => true,
            _ => false,
        };
        if is_division {
            match divisor {
                Some(v) => {
                    if v == 0 {
                        return Err(IntegerError::DivisionByZero);
                    }
                },
                None => {},
            }
        }
        let mut text = String::from_str("enforce ");
        append_witness(&mut text, left.get_value());
        text.append(operation.operator().symbol());
        append_witness(&mut text, divisor);
        Ok(text)
    }

    /// The label under which `left + right` is enforced.
    pub fn enforce_add(left: AllocatedInteger, right: AllocatedInteger) -> (label: Result<
        String,
        IntegerError,
    >)
        ensures
            match checked_operation(IntegerOperation::Add, left, right) {
                Ok(text) => label is Ok && label->Ok_0@ == text,
                Err(e) => label is Err && label->Err_0 == e,
            },
    {
        AllocatedInteger::enforce(IntegerOperation::Add, left, right)
    }

    /// The label under which `left - right` is enforced.
    pub fn enforce_sub(left: AllocatedInteger, right: AllocatedInteger) -> (label: Result<
        String,
        IntegerError,
    >)
        ensures
            match checked_operation(IntegerOperation::Sub, left, right) {
                Ok(text) => label is Ok && label->Ok_0@ == text,
                Err(e) => label is Err && label->Err_0 == e,
            },
    {
        AllocatedInteger::enforce(IntegerOperation::Sub, left, right)
    }

    /// The label under which `left * right` is enforced.
    pub fn enforce_mul(left: AllocatedInteger, right: AllocatedInteger) -> (label: Result<
        String,
        IntegerError,
    >)
        ensures
            match checked_operation(IntegerOperation::Mul, left, right) {
                Ok(text) => label is Ok && label->Ok_0@ == text,
                Err(e) => label is Err && label->Err_0 == e,
            },
    {
        AllocatedInteger::enforce(IntegerOperation::Mul, left, right)
    }

    /// The label under which `left / right` is enforced. A divisor that is
    /// known to be zero is an error, whatever the width.
    pub fn enforce_div(left: AllocatedInteger, right: AllocatedInteger) -> (label: Result<
        String,
        IntegerError,
    >)
        ensures
            match checked_operation(IntegerOperation::Div, left, right) {
                Ok(text) => label is Ok && label->Ok_0@ == text,
                Err(e) => label is Err && label->Err_0 == e,
            },
            right.witness() == Some(0nat) ==> label is Err,
    {
        AllocatedInteger::enforce(IntegerOperation::Div, left, right)
    }

    /// The label under which `left ** right` is enforced.
    pub fn enforce_pow(left: AllocatedInteger, right: AllocatedInteger) -> (label: Result<
        String,
        IntegerError,
    >)
        ensures
            match checked_operation(IntegerOperation::Pow, left, right) {
                Ok(text) => label is Ok && label->Ok_0@ == text,
                Err(e) => label is Err && label->Err_0 == e,
            },
    {
        AllocatedInteger::enforce(IntegerOperation::Pow, left, right)
    }
}

/// Operands of different widths are never operated on: whatever the operation
/// and the witnesses, the outcome is the structural error, and no label.
pub proof fn lemma_width_mismatch_is_refused(
    operation: IntegerOperation,
    left: AllocatedInteger,
    right: AllocatedInteger,
)
    requires
        left.get_type() != right.get_type(),
    ensures
        checked_operation(operation, left, right) == Err::<Seq<char>, IntegerError>(
            IntegerError::WidthMismatch,
        ),
        !IntegerError::WidthMismatch.is_synthesis_error(),
{
}

/// On every width, dividing by a witness that is zero is a synthesis error.
pub proof fn lemma_division_by_zero_is_refused(left: AllocatedInteger, right: AllocatedInteger)
    requires
        left.get_type() == right.get_type(),
        right.witness() == Some(0nat),
    ensures
        checked_operation(IntegerOperation::Div, left, right) == Err::<Seq<char>, IntegerError>(
            IntegerError::DivisionByZero,
        ),
        IntegerError::DivisionByZero.is_synthesis_error(),
{
}

/// Whether `s` holds no space.
pub open spec fn no_space(s: Seq<char>) -> bool {
    forall|i: int| 0 <= i < s.len() ==> #[trigger] s[i] != ' '
}

/// The text of a witness is not empty and holds no space; it starts with a
/// digit exactly where a value is assigned.
proof fn lemma_witness_text_shape(value: Option<nat>)
    ensures
        witness_text(value).len() > 0,
        no_space(witness_text(value)),
        value is Some <==> is_digit(witness_text(value)[0]),
{
    match value {
        Some(v) => {
            lemma_decimal_round_trip(v);
            let text = decimal_digits(v);
            assert forall|i: int| 0 <= i < text.len() implies #[trigger] text[i] != ' ' by {
                assert(is_digit(text[i]));
            }
        },
        None => {
            reveal_strlit("[unassigned]");
        },
    }
}

/// Different witnesses have different texts.
proof fn lemma_witness_text_injective(a: Option<nat>, b: Option<nat>)
    requires
        witness_text(a) == witness_text(b),
    ensures
        a == b,
{
    lemma_witness_text_shape(a);
    lemma_witness_text_shape(b);
    if let Some(x) = a {
        if let Some(y) = b {
            lemma_decimal_round_trip(x);
            lemma_decimal_round_trip(y);
        }
    }
}

/// The text of a witness is calm: it can stand as an operand.
proof fn lemma_witness_text_is_calm(value: Option<nat>)
    ensures
        calm(witness_text(value)),
{
    match value {
        Some(v) => {
            lemma_digits_are_calm(v);
        },
        None => {
            reveal_strlit("[unassigned]");
            let text = "[unassigned]"@;
            let word = text.subrange(1, 11);
            lemma_plain_text_is_balanced(word);
            lemma_bracketed_is_calm('[', word, ']');
            assert(text =~= seq!['['] + word + seq![']']);
        },
    }
}

/// Two operations have the same label exactly when they are the same
/// operation on the same witnesses: the label tells the operation and both
/// witnesses, and nothing else goes into it.
pub proof fn lemma_label_tells_operation_and_witnesses(
    operation: IntegerOperation,
    left: Option<nat>,
    right: Option<nat>,
    other_operation: IntegerOperation,
    other_left: Option<nat>,
    other_right: Option<nat>,
)
    ensures
        operation_label(operation, left, right) == operation_label(
            other_operation,
            other_left,
            other_right,
        ) <==> operation == other_operation && left == other_left && right == other_right,
{
    let head = "enforce "@;
    let a1 = witness_text(left);
    let s1 = operator_symbol(operation.operator());
    let b1 = witness_text(right);
    let a2 = witness_text(other_left);
    let s2 = operator_symbol(other_operation.operator());
    let b2 = witness_text(other_right);
    let label1 = operation_label(operation, left, right);
    let label2 = operation_label(other_operation, other_left, other_right);
    if label1 == label2 {
        // Without the word that both begin with, the labels are an operand,
        // an operator and an operand.
        assert(a1 + s1 + b1 =~= label1.subrange(head.len() as int, label1.len() as int));
        assert(a2 + s2 + b2 =~= label2.subrange(head.len() as int, label2.len() as int));
        lemma_witness_text_is_calm(left);
        lemma_witness_text_is_calm(other_left);
        lemma_operands_are_told_apart(
            a1,
            operation.operator(),
            b1,
            a2,
            other_operation.operator(),
            b2,
        );
        lemma_witness_text_injective(left, other_left);
        lemma_witness_text_injective(right, other_right);
    }
}

/// Whether two integer types are the same.
fn same_type(left: IntegerType, right: IntegerType) -> (same: bool)
    ensures
        same == (left == right),
{
    left == right
}

/// Writes the text that stands for a witness at the end of `out`.
fn append_witness(out: &mut String, value: Option<u128>)
    ensures
        final(out)@ == old(out)@ + witness_text(
            match value {
                Some(v) => Some(v as nat),
                None => None,
            },
        ),
{
    match value {
        Some(v) => {
            append_decimal(out, v);
        },
        None => {
            out.append(UNASSIGNED);
        },
    }
}

} // verus!
