use vstd::prelude::*;
use crate::errors::ParserError;
use crate::token::{value_type, FloatBits, NotNan, Type, Value};

verus! {

/// Runs the semantic analysis of a parsed program. There are no checks yet:
/// it accepts every program and leaves it as it is.
pub fn start_analysis<C>(g_ctx: &mut C) -> (r: Result<(), ParserError>)
    ensures
        r is Ok,
        *final(g_ctx) == *old(g_ctx),
{
    Ok(())
}

/// Errors of the analysis.
#[derive(Debug, PartialEq, Eq)]
pub enum AnalyzerError {
    /// The value does not fit into the destination type.
    UnsupportedValueByType(Value, Type),
    /// The value given to resize is not a number.
    InternalValueNotNumerical(Type),
    /// A float widened to a wider float came out as NaN.
    FloatIsNAN,
}

/// The integer an integer value holds.
pub open spec fn int_of(v: Value) -> Option<int> {
    match v {
        Value::I64(n) => Some(n as int),
        Value::U64(n) => Some(n as int),
        Value::I32(n) => Some(n as int),
        Value::U32(n) => Some(n as int),
        Value::I16(n) => Some(n as int),
        Value::U16(n) => Some(n as int),
        Value::U8(n) => Some(n as int),
        _ => None,
    }
}

/// Whether `n` is a value of the integer type `t`.
pub open spec fn fits(t: Type, n: int) -> bool {
    match t {
        Type::I64 => i64::MIN <= n <= i64::MAX,
        Type::U64 => 0 <= n <= u64::MAX,
        Type::I32 => i32::MIN <= n <= i32::MAX,
        Type::U32 => 0 <= n <= u32::MAX,
        Type::I16 => i16::MIN <= n <= i16::MAX,
        Type::U16 => 0 <= n <= u16::MAX,
        Type::U8 => 0 <= n <= u8::MAX,
        _ => false,
    }
}

/// The value of the integer type `t` that holds `n`.
pub open spec fn int_value(t: Type, n: int) -> Value {
    match t {
        Type::I64 => Value::I64(n as i64),
        Type::U64 => Value::U64(n as u64),
        Type::I32 => Value::I32(n as i32),
        Type::U32 => Value::U32(n as u32),
        Type::I16 => Value::I16(n as i16),
        Type::U16 => Value::U16(n as u16),
        _ => Value::U8(n as u8),
    }
}

/// The conversions `resolve_numerical_size` makes: from an unsigned type to a
/// wider one or to a signed type, from a signed type to a wider one or to an
/// unsigned type (a negative value does not fit), and from a float to a
/// wider float.
pub open spec fn resizable(from: Type, to: Type) -> bool {
    match from {
        Type::U64 => to is I64,
        Type::U32 => to is I32 || to is I64 || to is U64,
        Type::U16 => to is I16 || to is I32 || to is I64 || to is U32 || to is U64,
        Type::U8 => to is I16 || to is I32 || to is I64 || to is U16 || to is U32 || to is U64,
        Type::I32 => to is I64 || to is U64 || to is U32,
        Type::I16 => to is I64 || to is I32 || to is U64 || to is U32 || to is U16,
        Type::F32 => to is F64,
        Type::F16 => to is F64 || to is F32,
        _ => false,
    }
}

/// Whether the bits given for a float widened to `dest` are a NaN.
pub open spec fn widened_is_nan(dest: Type, bits: u64) -> bool {
    (dest is F64 && bits.spec_is_nan()) || (dest is F32 && (bits as u32).spec_is_nan())
}

/// Whether two numeric types are the same.
fn same_numeric_type(a: &Type, b: &Type) -> (r: bool)
    requires
        a.spec_is_float() || a.spec_is_int(),
    ensures
        r == (*a == *b),
{
    match (a, b) {
        (Type::I64, Type::I64) | (Type::F64, Type::F64) | (Type::U64, Type::U64) | (Type::I32, Type::I32)
        | (Type::F32, Type::F32) | (Type::U32, Type::U32) | (Type::I16, Type::I16) | (Type::F16, Type::F16)
        | (Type::U16, Type::U16) | (Type::U8, Type::U8) => true,
        _ => false,
    }
}

/// The integer `n`, which is a value of the type of `v`, as a value of type
/// `dest`, when `resizable` allows the conversion and `n` fits.
fn convert_int(dest: &Type, n: i128, from: Type) -> (r: Option<Value>)
    requires
        from.spec_is_int(),
        fits(from, n as int),
    ensures
        match r {
            Some(v) => resizable(from, *dest) && fits(*dest, n as int) && v == int_value(*dest, n as int),
            None => !(resizable(from, *dest) && fits(*dest, n as int)),
        },
{
    let allowed = match (&from, dest) {
        (Type::U64, Type::I64) => true,
        (Type::U32, Type::I32) | (Type::U32, Type::I64) | (Type::U32, Type::U64) => true,
        (Type::U16, Type::I16) | (Type::U16, Type::I32) | (Type::U16, Type::I64) | (Type::U16, Type::U32)
        | (Type::U16, Type::U64) => true,
        (Type::U8, Type::I16) | (Type::U8, Type::I32) | (Type::U8, Type::I64) | (Type::U8, Type::U16)
        | (Type::U8, Type::U32) | (Type::U8, Type::U64) => true,
        (Type::I32, Type::I64) | (Type::I32, Type::U64) | (Type::I32, Type::U32) => true,
        (Type::I16, Type::I64) | (Type::I16, Type::I32) | (Type::I16, Type::U64) | (Type::I16, Type::U32)
        | (Type::I16, Type::U16) => true,
        _ => false,
    };
    if !allowed {
        return None;
    }
    match dest {
        Type::I64 => if i64::MIN as i128 <= n && n <= i64::MAX as i128 {
            Some(Value::I64(n as i64))
        } else {
            None
        },
        Type::U64 => if 0 <= n && n <= u64::MAX as i128 {
            Some(Value::U64(n as u64))
        } else {
            None
        },
        Type::I32 => if i32::MIN as i128 <= n && n <= i32::MAX as i128 {
            Some(Value::I32(n as i32))
        } else {
            None
        },
        Type::U32 => if 0 <= n && n <= u32::MAX as i128 {
            Some(Value::U32(n as u32))
        } else {
            None
        },
        Type::I16 => if i16::MIN as i128 <= n && n <= i16::MAX as i128 {
            Some(Value::I16(n as i16))
        } else {
            None
        },
        Type::U16 => if 0 <= n && n <= u16::MAX as i128 {
            Some(Value::U16(n as u16))
        } else {
            None
        },
        _ => None,
    }
}

/// Fits a number literal that has no explicit cast into the size of its
/// destination type.
///
/// A value already of the destination type stays as it is. An integer is
/// converted where `resizable` allows and the number fits the destination;
/// a float is widened to a wider float. Floats are converted outside this
/// library: `widened_bits` is the bit pattern of the value's float converted
/// to the destination float type (in the low bits for a single-precision
/// destination), and is looked at only then; a NaN there is an error. Any
/// other conversion is refused
/// and leaves the value as it is; a value that is not a number is an internal
/// error.
pub fn resolve_numerical_size(dest_ty: Type, value: &mut Value, widened_bits: u64) -> (r: Result<(), AnalyzerError>)
    ensures
        ({
            let from = value_type(*old(value));
            if !(from.spec_is_float() || from.spec_is_int()) {
                &&& r == Err::<(), AnalyzerError>(AnalyzerError::InternalValueNotNumerical(from))
                &&& *final(value) == *old(value)
            } else if from == dest_ty {
                &&& r is Ok
                &&& *final(value) == *old(value)
            } else if resizable(from, dest_ty) && from.spec_is_float() && widened_is_nan(dest_ty, widened_bits) {
                &&& r == Err::<(), AnalyzerError>(AnalyzerError::FloatIsNAN)
                &&& *final(value) == *old(value)
            } else if resizable(from, dest_ty) && (int_of(*old(value)) matches Some(n) ==> fits(dest_ty, n)) {
                &&& r is Ok
                &&& (int_of(*old(value)) matches Some(n) ==> *final(value) == int_value(dest_ty, n))
                &&& (dest_ty is F64 ==> (*final(value) matches Value::F64(f) && f.spec_bits() == widened_bits))
                &&& (dest_ty is F32 ==> (*final(value) matches Value::F32(f) && f.spec_bits()
                    == widened_bits as u32))
            } else {
                &&& r == Err::<(), AnalyzerError>(AnalyzerError::UnsupportedValueByType(*old(value), dest_ty))
                &&& *final(value) == *old(value)
            }
        }),
        r is Ok ==> int_of(*final(value)) == int_of(*old(value)),
{
    let from_ty = value.discriminant();
    if !(from_ty.is_float() || from_ty.is_int()) {
        return Err(AnalyzerError::InternalValueNotNumerical(from_ty));
    }
    if same_numeric_type(&from_ty, &dest_ty) {
        return Ok(());
    }
    let nan = match (&*value, &dest_ty) {
        (Value::F32(_), Type::F64) | (Value::F16(_), Type::F64) => widened_bits.is_nan(),
        (Value::F16(_), Type::F32) => (widened_bits as u32).is_nan(),
        _ => false,
    };
    if nan {
        return Err(AnalyzerError::FloatIsNAN);
    }
    let converted: Option<Value> = match &*value {
        Value::U64(v) => convert_int(&dest_ty, *v as i128, Type::U64),
        Value::U32(v) => convert_int(&dest_ty, *v as i128, Type::U32),
        Value::U16(v) => convert_int(&dest_ty, *v as i128, Type::U16),
        Value::U8(v) => convert_int(&dest_ty, *v as i128, Type::U8),
        Value::I64(v) => convert_int(&dest_ty, *v as i128, Type::I64),
        Value::I32(v) => convert_int(&dest_ty, *v as i128, Type::I32),
        Value::I16(v) => convert_int(&dest_ty, *v as i128, Type::I16),
        Value::F32(_) => match dest_ty {
            Type::F64 => Some(Value::F64(NotNan::new_unchecked(widened_bits))),
            _ => None,
        },
        Value::F16(_) => match dest_ty {
            Type::F64 => Some(Value::F64(NotNan::new_unchecked(widened_bits))),
            Type::F32 => Some(Value::F32(NotNan::new_unchecked(widened_bits as u32))),
            _ => None,
        },
        _ => None,
    };
    match converted {
        Some(v) => {
            *value = v;
            Ok(())
        },
        None => Err(AnalyzerError::UnsupportedValueByType(value.clone(), dest_ty)),
    }
}

} // verus!
