//! Casting a column to another type, and the common type of two types.

use vstd::prelude::*;
use vstd::string::*;
use crate::datatypes::dtype_name;
use crate::datatypes::DataType;
use crate::datatypes::DataTypeView;
use crate::error::ApolloError;
use crate::error::ApolloResult;
use crate::error::ErrorKind;
use crate::error::ErrorView;
use crate::series::all_fit;
use crate::series::greatest_unsigned;
use crate::series::least_signed;
use crate::series::value_fits;
use crate::series::values_view;
use crate::series::AnyValue;
use crate::series::AnyValueView;
use crate::series::Series;
use crate::series::SeriesView;

verus! {

/// Whether the values of the type are booleans or whole numbers.
pub open spec fn is_whole(dt: DataTypeView) -> bool {
    dt is Boolean || least_signed(dt) is Some || greatest_unsigned(dt) is Some
}

/// Whether a column of type `from` can be cast to `to`: to its own type,
/// from the null type to any type, and between the types of booleans and
/// whole numbers.
pub open spec fn cast_supported(from: DataTypeView, to: DataTypeView) -> bool {
    from == to || from is Null || (is_whole(from) && is_whole(to))
}

/// What a value becomes in a cast to `to`, for a cast that is supported.
///
/// Null stays null. A boolean becomes 1 or 0, a number becomes `true`
/// unless it is 0. A number that the target type can hold keeps its value;
/// one that it cannot hold becomes null.
pub open spec fn cast_value(to: DataTypeView, v: AnyValueView) -> AnyValueView {
    match v {
        AnyValueView::Null => AnyValueView::Null,
        AnyValueView::Boolean(b) => if to is Boolean {
            v
        } else if least_signed(to) is Some {
            AnyValueView::Int(if b {
                1
            } else {
                0
            })
        } else if greatest_unsigned(to) is Some {
            AnyValueView::UInt(if b {
                1
            } else {
                0
            })
        } else {
            AnyValueView::Null
        },
        AnyValueView::Int(x) => cast_number(to, x, v),
        AnyValueView::UInt(x) => cast_number(to, x, v),
        _ => if value_fits(to, v) {
            v
        } else {
            AnyValueView::Null
        },
    }
}

/// What the number `x` becomes in a cast to `to`.
pub open spec fn cast_number(to: DataTypeView, x: int, v: AnyValueView) -> AnyValueView {
    if to is Boolean {
        AnyValueView::Boolean(x != 0)
    } else if least_signed(to) is Some {
        if least_signed(to).unwrap() <= x < -least_signed(to).unwrap() {
            AnyValueView::Int(x)
        } else {
            AnyValueView::Null
        }
    } else if greatest_unsigned(to) is Some {
        if 0 <= x <= greatest_unsigned(to).unwrap() {
            AnyValueView::UInt(x)
        } else {
            AnyValueView::Null
        }
    } else {
        AnyValueView::Null
    }
}

/// The message of the error for a cast that is not supported.
pub open spec fn cast_unsupported_message(from: DataTypeView, to: DataTypeView) -> Seq<char> {
    "casting from "@ + dtype_name(from) + " to "@ + dtype_name(to) + " not supported"@
}

/// What a cast makes fits the target type.
pub proof fn lemma_cast_value_fits(to: DataTypeView, v: AnyValueView)
    ensures
        value_fits(to, cast_value(to, v)),
{
}

fn lower_bound(dt: &DataType) -> (r: Option<i64>)
    ensures
        match r {
            Some(lo) => least_signed(dt@) == Some(lo as int),
            None => least_signed(dt@) is None,
        },
{
    match dt {
        DataType::Int8 => Some(-0x80),
        DataType::Int16 => Some(-0x8000),
        DataType::Int32 => Some(-0x8000_0000),
        DataType::Int64 => Some(i64::MIN),
        DataType::Date => Some(-0x8000_0000),
        DataType::Datetime(_) => Some(i64::MIN),
        DataType::Duration(_) => Some(i64::MIN),
        DataType::Time => Some(i64::MIN),
        _ => None,
    }
}

fn upper_bound(dt: &DataType) -> (r: Option<u64>)
    ensures
        match r {
            Some(hi) => greatest_unsigned(dt@) == Some(hi as int),
            None => greatest_unsigned(dt@) is None,
        },
{
    match dt {
        DataType::UInt8 => Some(0xff),
        DataType::UInt16 => Some(0xffff),
        DataType::UInt32 => Some(0xffff_ffff),
        DataType::UInt64 => Some(u64::MAX),
        _ => None,
    }
}

fn whole(dt: &DataType) -> (r: bool)
    ensures
        r == is_whole(dt@),
{
    matches!(dt, DataType::Boolean) || lower_bound(dt).is_some() || upper_bound(dt).is_some()
}

fn cast_one(to: &DataType, v: &AnyValue) -> (r: AnyValue)
    ensures
        r@ == cast_value(to@, v@),
{
    let lo = lower_bound(to);
    let hi = upper_bound(to);
    let to_bool = matches!(to, DataType::Boolean);
    match v {
        AnyValue::Null => AnyValue::Null,
        AnyValue::Boolean(b) => {
            if to_bool {
                AnyValue::Boolean(*b)
            } else if lo.is_some() {
                AnyValue::Int(if *b {
                    1
                } else {
                    0
                })
            } else if hi.is_some() {
                AnyValue::UInt(if *b {
                    1
                } else {
                    0
                })
            } else {
                AnyValue::Null
            }
        },
        AnyValue::Int(x) => {
            if to_bool {
                AnyValue::Boolean(*x != 0)
            } else if let Some(l) = lo {
                if l <= *x && (l == i64::MIN || *x < -l) {
                    AnyValue::Int(*x)
                } else {
                    AnyValue::Null
                }
            } else if let Some(h) = hi {
                if *x >= 0 && *x as u64 <= h {
                    AnyValue::UInt(*x as u64)
                } else {
                    AnyValue::Null
                }
            } else {
                AnyValue::Null
            }
        },
        AnyValue::UInt(x) => {
            if to_bool {
                AnyValue::Boolean(*x != 0)
            } else if let Some(l) = lo {
                if *x <= i64::MAX as u64 && (l == i64::MIN || (*x as i64) < -l) {
                    AnyValue::Int(*x as i64)
                } else {
                    AnyValue::Null
                }
            } else if let Some(h) = hi {
                if *x <= h {
                    AnyValue::UInt(*x)
                } else {
                    AnyValue::Null
                }
            } else {
                AnyValue::Null
            }
        },
        AnyValue::String(_) => {
            if matches!(to, DataType::String) {
                v.clone()
            } else {
                AnyValue::Null
            }
        },
        AnyValue::Binary(_) => {
            if matches!(to, DataType::Binary) {
                v.clone()
            } else {
                AnyValue::Null
            }
        },
    }
}

/// The view of the column that a cast of `s` to `to` gives.
pub open spec fn spec_cast(s: SeriesView, to: DataTypeView) -> SeriesView {
    SeriesView {
        name: s.name,
        dtype: to,
        values: Seq::new(s.values.len(), |i: int| cast_value(to, s.values[i])),
    }
}

/// The column cast to `dtype`, under the same name. It is an error for
/// the cast not to be supported.
pub fn cast(s: &Series, dtype: &DataType) -> (r: ApolloResult<Series>)
    ensures
        match r {
            Ok(out) => cast_supported(s@.dtype, dtype@) && out@ == spec_cast(s@, dtype@),
            Err(e) => !cast_supported(s@.dtype, dtype@) && e@ == ErrorView::Simple(
                ErrorKind::InvalidOperation,
                cast_unsupported_message(s@.dtype, dtype@),
            ),
        },
{
    let from = s.dtype();
    let supported = from.same(dtype) || matches!(from, DataType::Null) || (whole(from) && whole(
        dtype,
    ));
    if !supported {
        let mut msg = String::from_str("casting from ");
        from.push_name(&mut msg);
        msg.append(" to ");
        dtype.push_name(&mut msg);
        msg.append(" not supported");
        assert(msg@ =~= cast_unsupported_message(s@.dtype, dtype@));
        return Err(ApolloError::InvalidOperation(msg));
    }
    let values = s.values();
    let mut out: Vec<AnyValue> = Vec::new();
    let mut i: usize = 0;
    while i < values.len()
        invariant
            i <= values.len(),
            values_view(values@) == s@.values,
            out@.len() == i,
            forall|k: int| 0 <= k < i ==> out@[k]@ == cast_value(dtype@, s@.values[k]),
        decreases values.len() - i,
    {
        assert(values_view(values@)[i as int] == values@[i as int]@);
        out.push(cast_one(dtype, &values[i]));
        i += 1;
    }
    proof {
        assert(values_view(out@) =~= spec_cast(s@, dtype@).values);
        assert forall|k: int| 0 <= k < out@.len() implies value_fits(
            dtype@,
            #[trigger] values_view(out@)[k],
        ) by {
            lemma_cast_value_fits(dtype@, s@.values[k]);
        }
    }
    Ok(Series::from_parts(s.name().clone(), dtype.duplicate(), out))
}

/// A cast to the column's own type changes nothing.
pub proof fn lemma_cast_to_own_type(s: SeriesView)
    requires
        all_fit(s.dtype, s.values),
    ensures
        spec_cast(s, s.dtype) == s,
{
    assert(spec_cast(s, s.dtype).values =~= s.values);
}

/// The bits of an integer type, and whether it is signed.
pub open spec fn int_shape(dt: DataTypeView) -> Option<(bool, nat)> {
    match dt {
        DataTypeView::Int8 => Some((true, 8nat)),
        DataTypeView::Int16 => Some((true, 16nat)),
        DataTypeView::Int32 => Some((true, 32nat)),
        DataTypeView::Int64 => Some((true, 64nat)),
        DataTypeView::UInt8 => Some((false, 8nat)),
        DataTypeView::UInt16 => Some((false, 16nat)),
        DataTypeView::UInt32 => Some((false, 32nat)),
        DataTypeView::UInt64 => Some((false, 64nat)),
        _ => None,
    }
}

/// The signed integer type of the given number of bits.
pub open spec fn signed_of(bits: nat) -> DataTypeView {
    if bits <= 8 {
        DataTypeView::Int8
    } else if bits <= 16 {
        DataTypeView::Int16
    } else if bits <= 32 {
        DataTypeView::Int32
    } else {
        DataTypeView::Int64
    }
}

/// The unsigned integer type of the given number of bits.
pub open spec fn unsigned_of(bits: nat) -> DataTypeView {
    if bits <= 8 {
        DataTypeView::UInt8
    } else if bits <= 16 {
        DataTypeView::UInt16
    } else if bits <= 32 {
        DataTypeView::UInt32
    } else {
        DataTypeView::UInt64
    }
}

/// The common type of two integer types: the wider one where both are
/// signed or both unsigned; else the narrowest signed type that holds
/// both, and `f64` where no integer type does.
pub open spec fn int_supertype(a: (bool, nat), b: (bool, nat)) -> DataTypeView {
    let wide = if a.1 >= b.1 {
        a.1
    } else {
        b.1
    };
    if a.0 == b.0 {
        if a.0 {
            signed_of(wide)
        } else {
            unsigned_of(wide)
        }
    } else {
        let s = if a.0 {
            a.1
        } else {
            b.1
        };
        let u = if a.0 {
            b.1
        } else {
            a.1
        };
        if u < s {
            signed_of(s)
        } else if u < 64 {
            signed_of(2 * u)
        } else {
            DataTypeView::Float64
        }
    }
}

/// The common type of an integer type and a floating-point type.
pub open spec fn int_float_supertype(shape: (bool, nat), float: DataTypeView) -> DataTypeView {
    if float is Float32 && shape.1 <= 16 {
        DataTypeView::Float32
    } else {
        DataTypeView::Float64
    }
}

/// The type that holds the values of both `a` and `b`, where there is one.
///
/// A type is its own supertype; the null type yields to any type; a
/// boolean yields to a number; two numbers have the common type that
/// `int_supertype` and `int_float_supertype` describe.
pub open spec fn supertype(a: DataTypeView, b: DataTypeView) -> Option<DataTypeView> {
    if a == b {
        Some(a)
    } else if a is Null {
        Some(b)
    } else if b is Null {
        Some(a)
    } else if a is Boolean && (int_shape(b) is Some || b is Float32 || b is Float64) {
        Some(b)
    } else if b is Boolean && (int_shape(a) is Some || a is Float32 || a is Float64) {
        Some(a)
    } else if int_shape(a) is Some && int_shape(b) is Some {
        Some(int_supertype(int_shape(a).unwrap(), int_shape(b).unwrap()))
    } else if int_shape(a) is Some && (b is Float32 || b is Float64) {
        Some(int_float_supertype(int_shape(a).unwrap(), b))
    } else if int_shape(b) is Some && (a is Float32 || a is Float64) {
        Some(int_float_supertype(int_shape(b).unwrap(), a))
    } else if (a is Float32 || a is Float64) && (b is Float32 || b is Float64) {
        Some(DataTypeView::Float64)
    } else {
        None
    }
}

/// The message of the error for two types without a common type.
pub open spec fn no_supertype_message(a: DataTypeView, b: DataTypeView) -> Seq<char> {
    "failed to determine supertype of "@ + dtype_name(a) + " and "@ + dtype_name(b)
}

fn shape_of(dt: &DataType) -> (r: Option<(bool, u8)>)
    ensures
        match r {
            Some((s, bits)) => int_shape(dt@) == Some((s, bits as nat)),
            None => int_shape(dt@) is None,
        },
{
    match dt {
        DataType::Int8 => Some((true, 8)),
        DataType::Int16 => Some((true, 16)),
        DataType::Int32 => Some((true, 32)),
        DataType::Int64 => Some((true, 64)),
        DataType::UInt8 => Some((false, 8)),
        DataType::UInt16 => Some((false, 16)),
        DataType::UInt32 => Some((false, 32)),
        DataType::UInt64 => Some((false, 64)),
        _ => None,
    }
}

fn signed_type(bits: u8) -> (r: DataType)
    ensures
        r@ == signed_of(bits as nat),
{
    if bits <= 8 {
        DataType::Int8
    } else if bits <= 16 {
        DataType::Int16
    } else if bits <= 32 {
        DataType::Int32
    } else {
        DataType::Int64
    }
}

fn unsigned_type(bits: u8) -> (r: DataType)
    ensures
        r@ == unsigned_of(bits as nat),
{
    if bits <= 8 {
        DataType::UInt8
    } else if bits <= 16 {
        DataType::UInt16
    } else if bits <= 32 {
        DataType::UInt32
    } else {
        DataType::UInt64
    }
}

fn is_float32(dt: &DataType) -> (r: bool)
    ensures
        r == (dt@ is Float32),
{
    matches!(dt, DataType::Float32)
}

/// The type that holds the values of both `l` and `r`. It is an error
/// for the two to have no common type.
pub fn try_get_supertype(l: &DataType, r: &DataType) -> (out: ApolloResult<DataType>)
    ensures
        match out {
            Ok(dt) => supertype(l@, r@) == Some(dt@),
            Err(e) => supertype(l@, r@) is None && e@ == ErrorView::Simple(
                ErrorKind::SchemaMismatch,
                no_supertype_message(l@, r@),
            ),
        },
{
    if l.same(r) {
        return Ok(l.duplicate());
    }
    if matches!(l, DataType::Null) {
        return Ok(r.duplicate());
    }
    if matches!(r, DataType::Null) {
        return Ok(l.duplicate());
    }
    let ls = shape_of(l);
    let rs = shape_of(r);
    let lf = l.is_float();
    let rf = r.is_float();
    if matches!(l, DataType::Boolean) && (rs.is_some() || rf) {
        return Ok(r.duplicate());
    }
    if matches!(r, DataType::Boolean) && (ls.is_some() || lf) {
        return Ok(l.duplicate());
    }
    match (ls, rs) {
        (Some(a), Some(b)) => {
            let wide = if a.1 >= b.1 {
                a.1
            } else {
                b.1
            };
            if a.0 == b.0 {
                if a.0 {
                    return Ok(signed_type(wide));
                } else {
                    return Ok(unsigned_type(wide));
                }
            }
            let s = if a.0 {
                a.1
            } else {
                b.1
            };
            let u = if a.0 {
                b.1
            } else {
                a.1
            };
            if u < s {
                return Ok(signed_type(s));
            } else if u < 64 {
                return Ok(signed_type(2 * u));
            } else {
                return Ok(DataType::Float64);
            }
        },
        (Some(a), None) => {
            if rf {
                if is_float32(r) && a.1 <= 16 {
                    return Ok(DataType::Float32);
                }
                return Ok(DataType::Float64);
            }
        },
        (None, Some(b)) => {
            if lf {
                if is_float32(l) && b.1 <= 16 {
                    return Ok(DataType::Float32);
                }
                return Ok(DataType::Float64);
            }
        },
        (None, None) => {
            if lf && rf {
                return Ok(DataType::Float64);
            }
        },
    }
    let mut msg = String::from_str("failed to determine supertype of ");
    l.push_name(&mut msg);
    msg.append(" and ");
    r.push_name(&mut msg);
    assert(msg@ =~= no_supertype_message(l@, r@));
    Err(ApolloError::SchemaMismatch(msg))
}

/// The common type of two types does not depend on their order.
pub proof fn lemma_supertype_commutes(a: DataTypeView, b: DataTypeView)
    ensures
        supertype(a, b) == supertype(b, a),
{
}

} // verus!
