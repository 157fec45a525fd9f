//! Integer literals of the five unsigned widths.

use vstd::prelude::*;

verus! {

/// The unsigned integer types of the language.
#[derive(Clone, Copy, Debug, PartialEq, Eq, Structural)]
pub enum IntegerType {
    U8,
    U16,
    U32,
    U64,
    U128,
}

impl IntegerType {
    /// The number of bits of a value of this type.
    pub open spec fn bits(self) -> nat {
        match self {
            IntegerType::U8 => 8,
            IntegerType::U16 => 16,
            IntegerType::U32 => 32,
            IntegerType::U64 => 64,
            IntegerType::U128 => 128,
        }
    }

    /// The largest value of this type.
    pub open spec fn max_value(self) -> nat {
        match self {
            IntegerType::U8 => 0xff,
            IntegerType::U16 => 0xffff,
            IntegerType::U32 => 0xffff_ffff,
            IntegerType::U64 => 0xffff_ffff_ffff_ffff,
            IntegerType::U128 => 0xffff_ffff_ffff_ffff_ffff_ffff_ffff_ffff,
        }
    }

    /// The keyword that names this type in source text.
    pub open spec fn keyword(self) -> Seq<char> {
        match self {
            IntegerType::U8 => "u8"@,
            IntegerType::U16 => "u16"@,
            IntegerType::U32 => "u32"@,
            IntegerType::U64 => "u64"@,
            IntegerType::U128 => "u128"@,
        }
    }

    /// The keyword that names this type in source text.
    pub fn name(self) -> (keyword: &'static str)
        ensures
            keyword@ == self.keyword(),
    {
        match self {
            IntegerType::U8 => "u8",
            IntegerType::U16 => "u16",
            IntegerType::U32 => "u32",
            IntegerType::U64 => "u64",
            IntegerType::U128 => "u128",
        }
    }
}

/// An integer literal, tagged with its width.
#[derive(Clone, Copy, Debug, PartialEq, Eq, Structural)]
pub enum Integer {
    U8(u8),
    U16(u16),
    U32(u32),
    U64(u64),
    U128(u128),
}

impl Integer {
    /// The type that the literal is tagged with.
    pub open spec fn spec_get_type(self) -> IntegerType {
        match self {
            Integer::U8(_) => IntegerType::U8,
            Integer::U16(_) => IntegerType::U16,
            Integer::U32(_) => IntegerType::U32,
            Integer::U64(_) => IntegerType::U64,
            Integer::U128(_) => IntegerType::U128,
        }
    }

    /// The number that the literal stands for.
    pub open spec fn number(self) -> nat {
        match self {
            Integer::U8(v) => v as nat,
            Integer::U16(v) => v as nat,
            Integer::U32(v) => v as nat,
            Integer::U64(v) => v as nat,
            Integer::U128(v) => v as nat,
        }
    }

    /// The literal of type `integer_type` that stands for `value`.
    pub open spec fn of(integer_type: IntegerType, value: nat) -> Integer
        recommends
            value <= integer_type.max_value(),
    {
        match integer_type {
            IntegerType::U8 => Integer::U8(value as u8),
            IntegerType::U16 => Integer::U16(value as u16),
            IntegerType::U32 => Integer::U32(value as u32),
            IntegerType::U64 => Integer::U64(value as u64),
            IntegerType::U128 => Integer::U128(value as u128),
        }
    }

    #[verifier::when_used_as_spec(spec_get_type)]
    pub fn get_type(self) -> (integer_type: IntegerType)
        ensures
            integer_type == self.spec_get_type(),
    {
        match self {
            Integer::U8(_) => IntegerType::U8,
            Integer::U16(_) => IntegerType::U16,
            Integer::U32(_) => IntegerType::U32,
            Integer::U64(_) => IntegerType::U64,
            Integer::U128(_) => IntegerType::U128,
        }
    }

    /// The number that the literal stands for.
    pub fn value(self) -> (value: u128)
        ensures
            value == self.number(),
            value <= self.get_type().max_value(),
    {
        match self {
            Integer::U8(v) => v as u128,
            Integer::U16(v) => v as u128,
            Integer::U32(v) => v as u128,
            Integer::U64(v) => v as u128,
            Integer::U128(v) => v,
        }
    }
}

} // verus!
