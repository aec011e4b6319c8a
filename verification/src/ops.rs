//! Operations on the bits of the values of a column.

use vstd::prelude::*;
use vstd::string::*;
use crate::datatypes::dtype_name;
use crate::datatypes::DataType;
use crate::datatypes::DataTypeView;
use crate::error::ApolloError;
use crate::error::ApolloResult;
use crate::error::ErrorKind;
use crate::error::ErrorView;
use crate::series::all_fit;
use crate::series::greatest_unsigned;
use crate::series::least_signed;
use crate::series::value_fits;
use crate::series::values_view;
use crate::series::AnyValue;
use crate::series::AnyValueView;
use crate::series::Series;
use crate::series::SeriesView;

verus! {

/// Flipping every bit of an unsigned value gives its distance from the
/// greatest value of its width.
pub proof fn lemma_not_unsigned(a: u8, b: u16, c: u32, d: u64)
    ensures
        !a == 0xffu8 - a,
        !b == 0xffffu16 - b,
        !c == 0xffff_ffffu32 - c,
        !d == 0xffff_ffff_ffff_ffffu64 - d,
{
    assert(!a == 0xffu8 - a) by (bit_vector);
    assert(!b == 0xffffu16 - b) by (bit_vector);
    assert(!c == 0xffff_ffffu32 - c) by (bit_vector);
    assert(!d == 0xffff_ffff_ffff_ffffu64 - d) by (bit_vector);
}

/// The value with every bit flipped, for a value of a column of type
/// `dt`: a boolean is negated; a signed integer `x` becomes `-1 - x`, which
/// is what flipping the bits of a two's complement number gives; an unsigned
/// integer becomes its distance from the greatest value of its type. Null
/// stays null.
pub open spec fn not_value(dt: DataTypeView, v: AnyValueView) -> AnyValueView {
    match v {
        AnyValueView::Boolean(b) => AnyValueView::Boolean(!b),
        AnyValueView::Int(x) => AnyValueView::Int(-1 - x),
        AnyValueView::UInt(x) => match greatest_unsigned(dt) {
            Some(hi) => AnyValueView::UInt(hi - x),
            None => v,
        },
        _ => v,
    }
}

/// The message of the error for a type that has no bitwise negation.
pub open spec fn not_unsupported_message(dt: DataTypeView) -> Seq<char> {
    "dtype "@ + dtype_name(dt) + " not supported in 'not' operation"@
}

/// Whether a type has a bitwise negation: the booleans and the integers have.
pub open spec fn can_negate(dt: DataTypeView) -> bool {
    dt is Boolean || dt is Int8 || dt is Int16 || dt is Int32 || dt is Int64 || dt is UInt8
        || dt is UInt16 || dt is UInt32 || dt is UInt64
}

fn upper_bound(dt: &DataType) -> (r: u64)
    ensures
        match greatest_unsigned(dt@) {
            Some(hi) => r == hi,
            None => r == 0,
        },
{
    match dt {
        DataType::UInt8 => 0xff,
        DataType::UInt16 => 0xffff,
        DataType::UInt32 => 0xffff_ffff,
        DataType::UInt64 => u64::MAX,
        _ => 0,
    }
}

/// The column with every bit of every value flipped, under the same name
/// and of the same type. Booleans and integers have bits to flip; a column
/// of another type is an error.
pub fn negate_bitwise(s: &Series) -> (r: ApolloResult<Series>)
    ensures
        match r {
            Ok(out) => can_negate(s@.dtype) && out@ == (SeriesView {
                values: Seq::new(s@.values.len(), |i: int| not_value(s@.dtype, s@.values[i])),
                ..s@
            }),
            Err(e) => !can_negate(s@.dtype) && e@ == ErrorView::Simple(
                ErrorKind::InvalidOperation,
                not_unsupported_message(s@.dtype),
            ),
        },
{
    let dt = s.dtype();
    let supported = match dt {
        DataType::Boolean => true,
        other => other.is_integer(),
    };
    if !supported {
        let mut msg = String::from_str("dtype ");
        dt.push_name(&mut msg);
        msg.append(" not supported in 'not' operation");
        assert(msg@ =~= not_unsupported_message(s@.dtype));
        return Err(ApolloError::InvalidOperation(msg));
    }
    let hi = upper_bound(dt);
    let values = s.values();
    let mut out: Vec<AnyValue> = Vec::new();
    let mut i: usize = 0;
    while i < values.len()
        invariant
            i <= values.len(),
            can_negate(s@.dtype),
            dt@ == s@.dtype,
            values_view(values@) == s@.values,
            all_fit(s@.dtype, s@.values),
            match greatest_unsigned(s@.dtype) {
                Some(h) => hi == h,
                None => hi == 0,
            },
            out@.len() == i,
            forall|k: int| 0 <= k < i ==> out@[k]@ == not_value(s@.dtype, s@.values[k]),
            forall|k: int| 0 <= k < i ==> value_fits(s@.dtype, #[trigger] out@[k]@),
        decreases values.len() - i,
    {
        assert(values_view(values@)[i as int] == values@[i as int]@);
        assert(value_fits(s@.dtype, s@.values[i as int]));
        let v = match &values[i] {
            AnyValue::Boolean(b) => AnyValue::Boolean(!*b),
            AnyValue::Int(x) => AnyValue::Int(-1 - *x),
            AnyValue::UInt(x) => AnyValue::UInt(hi - *x),
            other => other.clone(),
        };
        out.push(v);
        i += 1;
    }
    let ghost target = Seq::new(s@.values.len(), |i: int| not_value(s@.dtype, s@.values[i]));
    assert(values_view(out@) =~= target);
    Ok(Series::from_parts(s.name().clone(), dt.duplicate(), out))
}

/// Flipping the bits twice gives the value back.
pub proof fn lemma_not_is_involution(dt: DataTypeView, v: AnyValueView)
    requires
        value_fits(dt, v),
    ensures
        not_value(dt, not_value(dt, v)) == v,
        value_fits(dt, not_value(dt, v)),
{
}

} // verus!
