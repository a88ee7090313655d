//! Runtime values and their types.
use crate::text::{hexadecimal, push_hexadecimal, push_signed_decimal, signed_decimal};
use vstd::prelude::*;
use vstd::string::*;

verus! {

/// The four number types of WebAssembly.
#[derive(Clone, Copy, Debug, PartialEq, Eq, Structural)]
pub enum ValueType {
    I32,
    I64,
    F32,
    F64,
}

/// A number tagged with its type.
///
/// The two floating-point kinds hold the bit pattern of the number, as the
/// constant instructions carry it; no arithmetic is defined on them.
#[derive(Clone, Copy, Debug, PartialEq, Eq, Structural)]
pub enum Value {
    I32(i32),
    I64(i64),
    F32(u32),
    F64(u64),
}

/// The 32-bit integer that stands for `x` in two's complement: `x` itself
/// where it fits, and else `x` moved by a multiple of 2^32 into the range.
pub open spec fn wrap_i32(x: int) -> i32 {
    let low = x % 0x1_0000_0000;
    if low > i32::MAX {
        (low - 0x1_0000_0000) as i32
    } else {
        low as i32
    }
}

/// A 32-bit integer read as an unsigned offset: a negative number stands
/// for the offset beyond 2^31 with the same bits.
pub open spec fn offset_of(v: i32) -> nat {
    if v >= 0 {
        v as nat
    } else {
        (v + 0x1_0000_0000) as nat
    }
}

/// A 32-bit integer read as an unsigned offset.
pub fn offset_from_i32(v: i32) -> (offset: usize)
    ensures
        offset == offset_of(v),
{
    if v >= 0 {
        v as usize
    } else {
        (v as i64 + 0x1_0000_0000) as usize
    }
}

/// The name of a value type.
pub open spec fn value_type_text(ty: ValueType) -> Seq<char> {
    match ty {
        ValueType::I32 => "I32"@,
        ValueType::I64 => "I64"@,
        ValueType::F32 => "F32"@,
        ValueType::F64 => "F64"@,
    }
}

/// A value in words: its type, and in brackets an integer in decimal or
/// the bits of a float in hexadecimal.
pub open spec fn value_text(v: Value) -> Seq<char> {
    match v {
        Value::I32(x) => "I32("@ + signed_decimal(x as int) + ")"@,
        Value::I64(x) => "I64("@ + signed_decimal(x as int) + ")"@,
        Value::F32(bits) => "F32(0x"@ + hexadecimal(bits as nat) + ")"@,
        Value::F64(bits) => "F64(0x"@ + hexadecimal(bits as nat) + ")"@,
    }
}

impl ValueType {
    /// Appends the name of the type to `out`.
    pub fn push_text(&self, out: &mut String)
        ensures
            final(out)@ == old(out)@ + value_type_text(*self),
    {
        match self {
            ValueType::I32 => out.append("I32"),
            ValueType::I64 => out.append("I64"),
            ValueType::F32 => out.append("F32"),
            ValueType::F64 => out.append("F64"),
        }
    }
}

impl Value {
    /// Appends the value in words to `out`.
    pub fn push_text(&self, out: &mut String)
        ensures
            final(out)@ == old(out)@ + value_text(*self),
    {
        match *self {
            Value::I32(x) => {
                out.append("I32(");
                push_signed_decimal(out, x as i64);
            },
            Value::I64(x) => {
                out.append("I64(");
                push_signed_decimal(out, x);
            },
            Value::F32(bits) => {
                out.append("F32(0x");
                push_hexadecimal(out, bits as u64);
            },
            Value::F64(bits) => {
                out.append("F64(0x");
                push_hexadecimal(out, bits);
            },
        }
        out.append(")");
        assert(final(out)@ =~= old(out)@ + value_text(*self));
    }

    /// The value in words.
    pub fn to_text(&self) -> (s: String)
        ensures
            s@ == value_text(*self),
    {
        let mut s = String::new();
        self.push_text(&mut s);
        assert(s@ =~= value_text(*self));
        s
    }

    /// The type of the value.
    pub open spec fn spec_value_type(&self) -> ValueType {
        match *self {
            Value::I32(_) => ValueType::I32,
            Value::I64(_) => ValueType::I64,
            Value::F32(_) => ValueType::F32,
            Value::F64(_) => ValueType::F64,
        }
    }

    /// The type witness of this value.
    #[verifier::when_used_as_spec(spec_value_type)]
    pub fn value_type(&self) -> (ty: ValueType)
        ensures
            ty == self.spec_value_type(),
    {
        match *self {
            Value::I32(_) => ValueType::I32,
            Value::I64(_) => ValueType::I64,
            Value::F32(_) => ValueType::F32,
            Value::F64(_) => ValueType::F64,
        }
    }

    /// The zero of a type: what a declared local holds before it is set.
    pub open spec fn zero(ty: ValueType) -> Value {
        match ty {
            ValueType::I32 => Value::I32(0),
            ValueType::I64 => Value::I64(0),
            ValueType::F32 => Value::F32(0),
            ValueType::F64 => Value::F64(0),
        }
    }

    /// The zero of a type.
    pub fn default_for(ty: ValueType) -> (v: Value)
        ensures
            v == Value::zero(ty),
            v.spec_value_type() == ty,
    {
        match ty {
            ValueType::I32 => Value::I32(0),
            ValueType::I64 => Value::I64(0),
            ValueType::F32 => Value::F32(0),
            ValueType::F64 => Value::F64(0),
        }
    }

    /// The number, if this is a 32-bit integer.
    pub open spec fn spec_as_i32(&self) -> Option<i32> {
        match *self {
            Value::I32(v) => Some(v),
            _ => None,
        }
    }

    /// The number, if this is a 32-bit integer.
    #[verifier::when_used_as_spec(spec_as_i32)]
    pub fn as_i32(&self) -> (r: Option<i32>)
        ensures
            r == self.spec_as_i32(),
    {
        match *self {
            Value::I32(v) => Some(v),
            _ => None,
        }
    }

    /// The number, if this is a 64-bit integer.
    pub fn as_i64(&self) -> (r: Option<i64>)
        ensures
            r == (match *self {
                Value::I64(v) => Some(v),
                _ => None,
            }),
    {
        match *self {
            Value::I64(v) => Some(v),
            _ => None,
        }
    }

    /// The bit pattern, if this is a 32-bit float.
    pub fn as_f32_bits(&self) -> (r: Option<u32>)
        ensures
            r == (match *self {
                Value::F32(v) => Some(v),
                _ => None,
            }),
    {
        match *self {
            Value::F32(v) => Some(v),
            _ => None,
        }
    }

    /// The bit pattern, if this is a 64-bit float.
    pub fn as_f64_bits(&self) -> (r: Option<u64>)
        ensures
            r == (match *self {
                Value::F64(v) => Some(v),
                _ => None,
            }),
    {
        match *self {
            Value::F64(v) => Some(v),
            _ => None,
        }
    }
}

} // verus!
