//! Floor division of two columns of whole numbers.

use vstd::prelude::*;
use vstd::string::*;
use vstd::arithmetic::div_mod::lemma_fundamental_div_mod;
use vstd::arithmetic::div_mod::lemma_fundamental_div_mod_converse;
use vstd::arithmetic::div_mod::lemma_mod_bound;
use crate::datatypes::dtype_name;
use crate::datatypes::DataType;
use crate::datatypes::DataTypeView;
use crate::error::ApolloError;
use crate::error::ApolloResult;
use crate::error::ErrorKind;
use crate::error::ErrorView;
use crate::series::all_fit;
use crate::series::greatest_unsigned;
use crate::series::least_signed;
use crate::series::value_fits;
use crate::series::values_view;
use crate::series::AnyValue;
use crate::series::AnyValueView;
use crate::series::Series;
use crate::series::SeriesView;

verus! {

/// The greatest whole number that is not greater than `l / r`.
pub open spec fn floor_quotient(l: int, r: int) -> int {
    if r > 0 {
        l / r
    } else {
        (-l) / (-r)
    }
}

/// A quotient of two values of a signed type, as the type holds it: the
/// one quotient that the type cannot hold, that of its least value and -1,
/// wraps around to the least value.
pub open spec fn wrap_signed(q: int, lo: int) -> int {
    if q >= -lo {
        q + 2 * lo
    } else {
        q
    }
}

/// The floor quotient of two values of a column of type `dt`: null where
/// a value is null or the divisor is 0.
pub open spec fn floor_div_value(dt: DataTypeView, l: AnyValueView, r: AnyValueView) -> AnyValueView {
    match (l, r) {
        (AnyValueView::Int(a), AnyValueView::Int(b)) => if b == 0 {
            AnyValueView::Null
        } else {
            match least_signed(dt) {
                Some(lo) => AnyValueView::Int(wrap_signed(floor_quotient(a, b), lo)),
                None => AnyValueView::Null,
            }
        },
        (AnyValueView::UInt(a), AnyValueView::UInt(b)) => if b == 0 {
            AnyValueView::Null
        } else {
            AnyValueView::UInt(a / b)
        },
        _ => AnyValueView::Null,
    }
}

/// Whether two columns can be divided value by value: they are equally
/// long, or one of them holds one value, which then stands for every row.
pub open spec fn lengths_agree(a: nat, b: nat) -> bool {
    a == b || a == 1 || b == 1
}

/// The number of rows of the quotient.
pub open spec fn broadcast_len(a: nat, b: nat) -> nat {
    if a == 1 {
        b
    } else {
        a
    }
}

/// The value of a column for row `i`, where a column of one value stands
/// for every row.
pub open spec fn broadcast_get(values: Seq<AnyValueView>, i: int) -> AnyValueView {
    if values.len() == 1 {
        values[0]
    } else {
        values[i]
    }
}

/// The message of the error for a type that cannot be divided.
pub open spec fn floor_div_unsupported_message(dt: DataTypeView) -> Seq<char> {
    "`floor_div` operation not supported for dtype `"@ + dtype_name(dt) + "`"@
}

/// Whether a type is one of the integer or floating-point types.
pub open spec fn is_numeric(dt: DataTypeView) -> bool {
    dt is Int8 || dt is Int16 || dt is Int32 || dt is Int64 || dt is UInt8 || dt is UInt16
        || dt is UInt32 || dt is UInt64 || dt is Float32 || dt is Float64
}

proof fn lemma_negative_dividend(x: int, d: int)
    requires
        x >= 0,
        d > 0,
    ensures
        (-x) / d == if x % d == 0 {
            -(x / d)
        } else {
            -(x / d) - 1
        },
{
    lemma_fundamental_div_mod(x, d);
    lemma_mod_bound(x, d);
    let q = x / d;
    let r = x % d;
    if r == 0 {
        assert(-x == (-q) * d + 0) by (nonlinear_arith)
            requires
                x == d * q + r,
                r == 0,
        ;
        lemma_fundamental_div_mod_converse(-x, d, -q, 0);
    } else {
        assert(-x == (-q - 1) * d + (d - r)) by (nonlinear_arith)
            requires
                x == d * q + r,
        ;
        lemma_fundamental_div_mod_converse(-x, d, -q - 1, d - r);
    }
}

proof fn lemma_quotient_bound(x: int, d: int)
    requires
        x >= 0,
        d > 0,
    ensures
        0 <= x / d <= x,
        x % d != 0 ==> x / d < x,
{
    lemma_fundamental_div_mod(x, d);
    lemma_mod_bound(x, d);
    let q = x / d;
    assert(q >= 0 && q <= x && (x % d != 0 ==> q < x)) by (nonlinear_arith)
        requires
            x == d * q + x % d,
            0 <= x % d < d,
            x >= 0,
            d > 0,
    ;
}

fn magnitude(v: i64) -> (m: u64)
    ensures
        m == if v >= 0 {
            v as int
        } else {
            -(v as int)
        },
{
    if v >= 0 {
        v as u64
    } else if v == i64::MIN {
        0x8000_0000_0000_0000u64
    } else {
        (-v) as u64
    }
}

fn floor_div_signed(a: i64, b: i64, lo: i64) -> (q: i64)
    requires
        b != 0,
        lo < 0,
        lo <= a < -lo,
        lo <= b < -lo,
    ensures
        q == wrap_signed(floor_quotient(a as int, b as int), lo as int),
        lo <= q < -lo,
{
    let ma = magnitude(a);
    let mb = magnitude(b);
    let whole = ma / mb;
    let exact = ma % mb == 0;
    proof {
        lemma_quotient_bound(ma as int, mb as int);
        lemma_negative_dividend(ma as int, mb as int);
    }
    if (a < 0) == (b < 0) {
        if lo != i64::MIN && whole == (-lo) as u64 {
            lo
        } else if lo == i64::MIN && whole == 0x8000_0000_0000_0000u64 {
            lo
        } else {
            whole as i64
        }
    } else if exact {
        if whole == 0x8000_0000_0000_0000u64 {
            i64::MIN
        } else {
            -(whole as i64)
        }
    } else {
        -(whole as i64) - 1
    }
}

fn lower_bound(dt: &DataType) -> (r: Option<i64>)
    ensures
        match r {
            Some(lo) => least_signed(dt@) == Some(lo as int) && lo < 0,
            None => least_signed(dt@) is None,
        },
{
    match dt {
        DataType::Int8 => Some(-0x80),
        DataType::Int16 => Some(-0x8000),
        DataType::Int32 => Some(-0x8000_0000),
        DataType::Int64 => Some(i64::MIN),
        DataType::Date => Some(-0x8000_0000),
        DataType::Datetime(_) => Some(i64::MIN),
        DataType::Duration(_) => Some(i64::MIN),
        DataType::Time => Some(i64::MIN),
        _ => None,
    }
}

fn divide(dt: &DataType, l: &AnyValue, r: &AnyValue) -> (q: AnyValue)
    requires
        value_fits(dt@, l@),
        value_fits(dt@, r@),
    ensures
        q@ == floor_div_value(dt@, l@, r@),
        value_fits(dt@, q@),
{
    match (l, r) {
        (AnyValue::Int(a), AnyValue::Int(b)) => {
            if *b == 0 {
                AnyValue::Null
            } else {
                match lower_bound(dt) {
                    Some(lo) => AnyValue::Int(floor_div_signed(*a, *b, lo)),
                    None => AnyValue::Null,
                }
            }
        },
        (AnyValue::UInt(a), AnyValue::UInt(b)) => {
            if *b == 0 {
                AnyValue::Null
            } else {
                proof {
                    lemma_quotient_bound(*a as int, *b as int);
                }
                AnyValue::UInt(*a / *b)
            }
        },
        _ => AnyValue::Null,
    }
}

/// The column of the floor quotients of the values of `a` and `b`, under
/// the name and of the type of `a`.
///
/// Both columns are of one numeric type. The quotient is null where a
/// value is null and where the divisor is 0; the quotient of the least
/// value of a signed type and -1 wraps around. A column of one value stands
/// for every row of the other. It is an error for the type not to be
/// numeric.
pub fn floor_div_series(a: &Series, b: &Series) -> (r: ApolloResult<Series>)
    requires
        a@.dtype == b@.dtype,
        lengths_agree(a@.values.len(), b@.values.len()),
    ensures
        match r {
            Ok(out) => is_numeric(a@.dtype) && out@ == (SeriesView {
                name: a@.name,
                dtype: a@.dtype,
                values: Seq::new(
                    broadcast_len(a@.values.len(), b@.values.len()),
                    |i: int|
                        floor_div_value(
                            a@.dtype,
                            broadcast_get(a@.values, i),
                            broadcast_get(b@.values, i),
                        ),
                ),
            }),
            Err(e) => !is_numeric(a@.dtype) && e@ == ErrorView::Simple(
                ErrorKind::InvalidOperation,
                floor_div_unsupported_message(a@.dtype),
            ),
        },
{
    let dt = a.dtype();
    let _ = b.dtype();
    if !dt.is_primitive_numeric() {
        let mut msg = String::from_str("`floor_div` operation not supported for dtype `");
        dt.push_name(&mut msg);
        msg.append("`");
        assert(msg@ =~= floor_div_unsupported_message(a@.dtype));
        return Err(ApolloError::InvalidOperation(msg));
    }
    let left = a.values();
    let right = b.values();
    let n = if left.len() == 1 {
        right.len()
    } else {
        left.len()
    };
    let mut out: Vec<AnyValue> = Vec::new();
    let mut i: usize = 0;
    while i < n
        invariant
            i <= n,
            n == broadcast_len(a@.values.len(), b@.values.len()),
            lengths_agree(a@.values.len(), b@.values.len()),
            dt@ == a@.dtype,
            a@.dtype == b@.dtype,
            values_view(left@) == a@.values,
            values_view(right@) == b@.values,
            all_fit(a@.dtype, a@.values),
            all_fit(b@.dtype, b@.values),
            out@.len() == i,
            forall|k: int|
                0 <= k < i ==> #[trigger] out@[k]@ == floor_div_value(
                    a@.dtype,
                    broadcast_get(a@.values, k),
                    broadcast_get(b@.values, k),
                ),
            forall|k: int| 0 <= k < i ==> value_fits(a@.dtype, #[trigger] out@[k]@),
        decreases n - i,
    {
        let li = if left.len() == 1 {
            0
        } else {
            i
        };
        let ri = if right.len() == 1 {
            0
        } else {
            i
        };
        assert(values_view(left@)[li as int] == left@[li as int]@);
        assert(values_view(right@)[ri as int] == right@[ri as int]@);
        assert(value_fits(a@.dtype, a@.values[li as int]));
        assert(value_fits(b@.dtype, b@.values[ri as int]));
        out.push(divide(dt, &left[li], &right[ri]));
        i += 1;
    }
    let ghost target = Seq::new(
        broadcast_len(a@.values.len(), b@.values.len()),
        |i: int|
            floor_div_value(a@.dtype, broadcast_get(a@.values, i), broadcast_get(b@.values, i)),
    );
    assert(values_view(out@) =~= target);
    Ok(Series::from_parts(a.name().clone(), dt.duplicate(), out))
}

} // verus!
