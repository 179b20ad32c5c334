use vstd::prelude::*;
use vstd::bytes::{spec_u64_to_le_bytes, u64_to_le_bytes};
use vstd::std_specs::hash::DefaultHasherAdditionalSpecFns;
use vstd::utf8::encode_utf8;
use std::collections::hash_map::DefaultHasher;
use std::hash::Hasher;

use crate::error::VmError;

verus! {

/// What a value is, mathematically: an integer or a sequence of characters.
pub ghost enum Val {
    Num(i64),
    Str(Seq<char>),
}

/// An operand of the machine. Numbers are integers in this machine.
#[derive(Debug, Clone, PartialEq)]
pub enum Value {
    Number(i64),
    String(String),
}

impl View for Value {
    type V = Val;

    open spec fn view(&self) -> Val {
        match self {
            Value::Number(n) => Val::Num(*n),
            Value::String(s) => Val::Str(s@),
        }
    }
}

/// The character of one decimal digit `d < 10`.
pub open spec fn digit_char(d: nat) -> char {
    seq!['0', '1', '2', '3', '4', '5', '6', '7', '8', '9'][d as int]
}

/// The decimal digits of `n`, most significant first, without leading zeros.
pub open spec fn digits(n: nat) -> Seq<char>
    decreases n,
{
    if n < 10 {
        seq![digit_char(n)]
    } else {
        digits(n / 10).push(digit_char(n % 10))
    }
}

/// The usual decimal rendering of an integer: a minus sign for negatives.
pub open spec fn decimal(n: int) -> Seq<char> {
    if n < 0 {
        seq!['-'] + digits((-n) as nat)
    } else {
        digits(n as nat)
    }
}

/// The text of a value: a number in decimal, a string as it is.
pub open spec fn text_of(v: Val) -> Seq<char> {
    match v {
        Val::Num(n) => decimal(n as int),
        Val::Str(s) => s,
    }
}

/// The bytes a value feeds to the hasher: a number as its eight
/// little-endian bytes, a string as its UTF-8 encoding.
pub open spec fn hash_input(v: Val) -> Seq<u8> {
    match v {
        Val::Num(n) => spec_u64_to_le_bytes(n as u64),
        Val::Str(s) => encode_utf8(s),
    }
}

/// The context key of a value: the default hasher run over one write of
/// the value's bytes.
pub open spec fn key_of(v: Val) -> u64 {
    DefaultHasher::spec_finish(seq![hash_input(v)])
}

/// Relies on `i64`'s `Display` (through `to_string`): the decimal digits of
/// the integer, with a leading `-` when it is negative.
#[verifier::external_body]
fn int_text(n: i64) -> (r: String)
    ensures
        r@ == decimal(n as int),
{
    n.to_string()
}

impl Value {
    /// Tells whether the value is a string.
    pub fn is_string(&self) -> (r: bool)
        ensures
            r == (self is String),
    {
        match self {
            Value::Number(_) => false,
            Value::String(_) => true,
        }
    }

    /// Tells whether the value is a number.
    pub fn is_number(&self) -> (r: bool)
        ensures
            r == (self is Number),
    {
        match self {
            Value::Number(_) => true,
            Value::String(_) => false,
        }
    }

    /// The number held, or `TypeError` for a string.
    pub fn as_number(&self) -> (r: Result<i64, VmError>)
        ensures
            match self@ {
                Val::Num(n) => r == Ok::<i64, VmError>(n),
                Val::Str(_) => r == Err::<i64, VmError>(VmError::TypeError),
            },
    {
        match self {
            Value::Number(n) => Ok(*n),
            Value::String(_) => Err(VmError::TypeError),
        }
    }

    /// The string held, or `TypeError` for a number.
    pub fn as_string(&self) -> (r: Result<String, VmError>)
        ensures
            match self@ {
                Val::Num(_) => r == Err::<String, VmError>(VmError::TypeError),
                Val::Str(s) => r is Ok && r->Ok_0@ == s,
            },
    {
        match self {
            Value::Number(_) => Err(VmError::TypeError),
            Value::String(s) => Ok(s.clone()),
        }
    }

    /// The text of the value: a number in decimal, a string unchanged.
    pub fn to_string(&self) -> (r: String)
        ensures
            r@ == text_of(self@),
    {
        match self {
            Value::Number(n) => int_text(*n),
            Value::String(s) => s.clone(),
        }
    }

    /// A copy of the value.
    pub fn duplicate(&self) -> (r: Value)
        ensures
            r@ == self@,
    {
        match self {
            Value::Number(n) => Value::Number(*n),
            Value::String(s) => Value::String(s.clone()),
        }
    }

    /// The context key of the value.
    pub fn as_hash(self) -> (r: u64)
        ensures
            r == key_of(self@),
    {
        let mut hasher = DefaultHasher::new();
        match self {
            Value::Number(n) => {
                let bytes = u64_to_le_bytes(n as u64);
                hasher.write(bytes.as_slice());
            },
            Value::String(s) => {
                hasher.write(s.as_str().as_bytes());
            },
        }
        let r = hasher.finish();
        assert(hasher@ =~= seq![hash_input(self@)]);
        r
    }
}

} // verus!
