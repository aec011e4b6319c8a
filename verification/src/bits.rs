//! Counting the bits of the values of a column, and folding a column
//! with a bitwise operation.

use vstd::prelude::*;
use vstd::string::*;
use crate::aexpr::IRBitwiseFunction;
use crate::datatypes::dtype_name;
use crate::datatypes::DataType;
use crate::datatypes::DataTypeView;
use crate::error::ApolloError;
use crate::error::ApolloResult;
use crate::error::ErrorKind;
use crate::error::ErrorView;
use crate::series::all_fit;
use crate::series::value_fits;
use crate::series::values_view;
use crate::series::AnyValue;
use crate::series::AnyValueView;
use crate::series::Column;
use crate::series::Series;
use crate::series::SeriesView;

verus! {

/// The number of bits of a value of the type, for the types whose values
/// have bits to count.
pub open spec fn bit_width(dt: DataTypeView) -> Option<nat> {
    match dt {
        DataTypeView::Boolean => Some(1nat),
        DataTypeView::Int8 => Some(8nat),
        DataTypeView::UInt8 => Some(8nat),
        DataTypeView::Int16 => Some(16nat),
        DataTypeView::UInt16 => Some(16nat),
        DataTypeView::Int32 => Some(32nat),
        DataTypeView::UInt32 => Some(32nat),
        DataTypeView::Float32 => Some(32nat),
        DataTypeView::Int64 => Some(64nat),
        DataTypeView::UInt64 => Some(64nat),
        DataTypeView::Float64 => Some(64nat),
        _ => None,
    }
}

/// The greatest number that `width` bits write.
pub open spec fn all_ones(width: nat) -> nat {
    if width == 1 {
        1
    } else if width == 8 {
        0xff
    } else if width == 16 {
        0xffff
    } else if width == 32 {
        0xffff_ffff
    } else {
        0xffff_ffff_ffff_ffff
    }
}

/// The number that the bits of a value write: 1 or 0 for a boolean, the
/// value itself where it is not negative, and for a negative value its
/// two's complement in `width` bits.
pub open spec fn bit_pattern(v: AnyValueView, width: nat) -> nat {
    match v {
        AnyValueView::Boolean(b) => if b {
            1
        } else {
            0
        },
        AnyValueView::Int(x) => if x >= 0 {
            x as nat
        } else {
            (all_ones(width) + 1 + x) as nat
        },
        AnyValueView::UInt(x) => x as nat,
        _ => 0,
    }
}

/// The number of bits of `p` that are set.
pub open spec fn popcount(p: nat) -> nat
    decreases p,
{
    if p == 0 {
        0
    } else {
        (p % 2) + popcount(p / 2)
    }
}

/// The number of bits that writing `p` takes.
pub open spec fn bit_length(p: nat) -> nat
    decreases p,
{
    if p == 0 {
        0
    } else {
        1 + bit_length(p / 2)
    }
}

/// The number of bits that are clear below the lowest set bit of `p`, in
/// `width` bits.
pub open spec fn low_zeros(p: nat, width: nat) -> nat
    decreases width,
{
    if width == 0 || p % 2 == 1 {
        0
    } else {
        1 + low_zeros(p / 2, (width - 1) as nat)
    }
}

/// The ways of counting bits.
#[derive(Clone, Copy, Debug, PartialEq, Eq, Structural)]
pub enum BitCount {
    CountOnes,
    CountZeros,
    LeadingOnes,
    LeadingZeros,
    TrailingOnes,
    TrailingZeros,
}

/// The count for the pattern `p` of `width` bits.
///
/// The ones of a pattern are the zeros of the pattern with every bit
/// flipped, which is `all_ones(width) - p`.
pub open spec fn count_bits(how: BitCount, p: nat, width: nat) -> nat {
    let flipped = (all_ones(width) - p) as nat;
    match how {
        BitCount::CountOnes => popcount(p),
        BitCount::CountZeros => (width - popcount(p)) as nat,
        BitCount::LeadingZeros => (width - bit_length(p)) as nat,
        BitCount::LeadingOnes => (width - bit_length(flipped)) as nat,
        BitCount::TrailingZeros => low_zeros(p, width),
        BitCount::TrailingOnes => low_zeros(flipped, width),
    }
}

/// The count for a value of a column whose values have `width` bits;
/// null for null.
pub open spec fn count_value(how: BitCount, v: AnyValueView, width: nat) -> AnyValueView {
    match v {
        AnyValueView::Null => AnyValueView::Null,
        _ => AnyValueView::UInt(count_bits(how, bit_pattern(v, width), width) as int),
    }
}

/// The name of a way of counting, as messages show it.
pub open spec fn count_name(how: BitCount) -> Seq<char> {
    match how {
        BitCount::CountOnes => "count_ones"@,
        BitCount::CountZeros => "count_zeros"@,
        BitCount::LeadingOnes => "leading_ones"@,
        BitCount::LeadingZeros => "leading_zeros"@,
        BitCount::TrailingOnes => "trailing_ones"@,
        BitCount::TrailingZeros => "trailing_zeros"@,
    }
}

/// The message of the error for a type whose values have no bits to count.
pub open spec fn count_unsupported_message(dt: DataTypeView, how: BitCount) -> Seq<char> {
    "dtype "@ + dtype_name(dt) + " not supported in '"@ + count_name(how) + "' operation"@
}

fn count_text(how: BitCount) -> (s: &'static str)
    ensures
        s@ == count_name(how),
{
    match how {
        BitCount::CountOnes => "count_ones",
        BitCount::CountZeros => "count_zeros",
        BitCount::LeadingOnes => "leading_ones",
        BitCount::LeadingZeros => "leading_zeros",
        BitCount::TrailingOnes => "trailing_ones",
        BitCount::TrailingZeros => "trailing_zeros",
    }
}

fn width_of(dt: &DataType) -> (r: Option<u32>)
    ensures
        match r {
            Some(w) => bit_width(dt@) == Some(w as nat),
            None => bit_width(dt@) is None,
        },
{
    match dt {
        DataType::Boolean => Some(1),
        DataType::Int8 | DataType::UInt8 => Some(8),
        DataType::Int16 | DataType::UInt16 => Some(16),
        DataType::Int32 | DataType::UInt32 | DataType::Float32 => Some(32),
        DataType::Int64 | DataType::UInt64 | DataType::Float64 => Some(64),
        _ => None,
    }
}

fn ones_of(width: u32) -> (r: u64)
    ensures
        r == all_ones(width as nat),
{
    if width == 1 {
        1
    } else if width == 8 {
        0xff
    } else if width == 16 {
        0xffff
    } else if width == 32 {
        0xffff_ffff
    } else {
        u64::MAX
    }
}

fn pattern_of(v: &AnyValue, ones: u64, Ghost(width): Ghost<nat>) -> (r: u64)
    requires
        ones == all_ones(width),
        v@ matches AnyValueView::Int(x) ==> -(all_ones(width) + 1) <= x,
    ensures
        r == bit_pattern(v@, width),
{
    match v {
        AnyValue::Boolean(b) => if *b {
            1
        } else {
            0
        },
        AnyValue::Int(x) => {
            if *x >= 0 {
                *x as u64
            } else {
                let below: u64 = (-1 - *x) as u64;
                ones - below
            }
        },
        AnyValue::UInt(x) => *x,
        _ => 0,
    }
}

fn popcount_of(p: u64) -> (r: u32)
    ensures
        r == popcount(p as nat),
        r <= 64,
{
    let mut rest = p;
    let mut count: u32 = 0;
    let mut steps: u32 = 0;
    proof {
        lemma_pow2_64();
    }
    while rest != 0
        invariant
            steps <= 64,
            count <= steps,
            count + popcount(rest as nat) == popcount(p as nat),
            (rest as nat) < pow2_upto(64 - steps),
        decreases rest,
    {
        proof {
            lemma_pow2_halves(rest as nat, steps as nat);
        }
        if rest % 2 == 1 {
            count += 1;
        }
        rest = rest / 2;
        steps += 1;
    }
    count
}

/// Two to the power `n`, for `n` up to 64.
pub open spec fn pow2_upto(n: int) -> nat
    decreases n,
{
    if n <= 0 {
        1
    } else {
        2 * pow2_upto(n - 1)
    }
}

proof fn lemma_pow2_64()
    ensures
        pow2_upto(64) == 0x1_0000_0000_0000_0000,
        pow2_upto(32) == 0x1_0000_0000,
        pow2_upto(16) == 0x1_0000,
        pow2_upto(8) == 0x100,
        pow2_upto(1) == 2,
{
    reveal_with_fuel(pow2_upto, 9);
    assert(pow2_upto(8) == 0x100);
    assert(pow2_upto(16) == 0x100 * pow2_upto(8));
    assert(pow2_upto(24) == 0x100 * pow2_upto(16));
    assert(pow2_upto(32) == 0x100 * pow2_upto(24));
    assert(pow2_upto(40) == 0x100 * pow2_upto(32));
    assert(pow2_upto(48) == 0x100 * pow2_upto(40));
    assert(pow2_upto(56) == 0x100 * pow2_upto(48));
    assert(pow2_upto(64) == 0x100 * pow2_upto(56));
}

proof fn lemma_pow2_halves(rest: nat, steps: nat)
    requires
        rest != 0,
        steps <= 64,
        rest < pow2_upto(64 - steps),
    ensures
        steps < 64,
        rest / 2 < pow2_upto(64 - steps - 1),
{
}

fn bit_length_of(p: u64) -> (r: u32)
    ensures
        r == bit_length(p as nat),
        r <= 64,
{
    let mut rest = p;
    let mut count: u32 = 0;
    proof {
        lemma_pow2_64();
    }
    while rest != 0
        invariant
            count <= 64,
            count + bit_length(rest as nat) == bit_length(p as nat),
            (rest as nat) < pow2_upto(64 - count),
        decreases rest,
    {
        proof {
            lemma_pow2_halves(rest as nat, count as nat);
        }
        rest = rest / 2;
        count += 1;
    }
    count
}

fn low_zeros_of(p: u64, width: u32) -> (r: u32)
    requires
        width <= 64,
    ensures
        r == low_zeros(p as nat, width as nat),
        r <= width,
{
    let mut rest = p;
    let mut left = width;
    let mut count: u32 = 0;
    while left != 0 && rest % 2 == 0
        invariant
            count + left == width,
            width <= 64,
            count + low_zeros(rest as nat, left as nat) == low_zeros(p as nat, width as nat),
        decreases left,
    {
        rest = rest / 2;
        left -= 1;
        count += 1;
    }
    count
}

proof fn lemma_counts_fit(p: nat, width: nat)
    requires
        width == 1 || width == 8 || width == 16 || width == 32 || width == 64,
        p <= all_ones(width),
    ensures
        popcount(p) <= bit_length(p) <= width,
{
    lemma_pow2_64();
    lemma_bit_length_bound(p, width as int);
}

proof fn lemma_bit_length_bound(p: nat, n: int)
    requires
        0 <= n,
        p < pow2_upto(n),
    ensures
        popcount(p) <= bit_length(p) <= n,
    decreases p,
{
    if p != 0 {
        lemma_bit_length_bound(p / 2, n - 1);
    }
}

fn count_of(how: BitCount, p: u64, width: u32) -> (r: u32)
    requires
        width == 1 || width == 8 || width == 16 || width == 32 || width == 64,
        p <= all_ones(width as nat),
    ensures
        r == count_bits(how, p as nat, width as nat),
{
    let ones = ones_of(width);
    proof {
        lemma_counts_fit(p as nat, width as nat);
        lemma_counts_fit((ones - p) as nat, width as nat);
    }
    match how {
        BitCount::CountOnes => popcount_of(p),
        BitCount::CountZeros => width - popcount_of(p),
        BitCount::LeadingZeros => width - bit_length_of(p),
        BitCount::LeadingOnes => width - bit_length_of(ones - p),
        BitCount::TrailingZeros => low_zeros_of(p, width),
        BitCount::TrailingOnes => low_zeros_of(ones - p, width),
    }
}

proof fn lemma_pattern_fits(dt: DataTypeView, v: AnyValueView)
    requires
        bit_width(dt) is Some,
        value_fits(dt, v),
    ensures
        bit_pattern(v, bit_width(dt).unwrap()) <= all_ones(bit_width(dt).unwrap()),
        v matches AnyValueView::Int(x) ==> -(all_ones(bit_width(dt).unwrap()) + 1) <= x,
{
}

/// Whether `r` is the column of the counts of the bits of the values of
/// `c`: under the name of `c`, of type `u32`, null where `c` is null; or the
/// error for a column whose values have no bits to count.
pub open spec fn bit_count_outcome(c: SeriesView, how: BitCount, r: ApolloResult<Column>) -> bool {
    match r {
        Ok(out) => bit_width(c.dtype) is Some && out@ == (SeriesView {
            name: c.name,
            dtype: DataTypeView::UInt32,
            values: Seq::new(
                c.values.len(),
                |i: int| count_value(how, c.values[i], bit_width(c.dtype).unwrap()),
            ),
        }),
        Err(e) => bit_width(c.dtype) is None && e@ == ErrorView::Simple(
            ErrorKind::InvalidOperation,
            count_unsupported_message(c.dtype, how),
        ),
    }
}

/// The column of the counts of the bits of the values of `c`, under the
/// name of `c` and of type `u32`. Booleans, integers and floating-point
/// numbers have bits to count; a column of another type is an error.
pub fn bit_count(c: &Column, how: BitCount) -> (r: ApolloResult<Column>)
    ensures
        bit_count_outcome(c@, how, r),
{
    let dt = c.dtype();
    let width = match width_of(dt) {
        Some(w) => w,
        None => {
            let mut msg = String::from_str("dtype ");
            dt.push_name(&mut msg);
            msg.append(" not supported in '");
            msg.append(count_text(how));
            msg.append("' operation");
            assert(msg@ =~= count_unsupported_message(c@.dtype, how));
            return Err(ApolloError::InvalidOperation(msg));
        },
    };
    let ones = ones_of(width);
    let values = c.values();
    let mut out: Vec<AnyValue> = Vec::new();
    let mut i: usize = 0;
    while i < values.len()
        invariant
            i <= values.len(),
            bit_width(c@.dtype) == Some(width as nat),
            ones == all_ones(width as nat),
            values_view(values@) == c@.values,
            all_fit(c@.dtype, c@.values),
            out@.len() == i,
            forall|k: int|
                0 <= k < i ==> #[trigger] out@[k]@ == count_value(
                    how,
                    c@.values[k],
                    width as nat,
                ),
            forall|k: int| 0 <= k < i ==> value_fits(DataTypeView::UInt32, #[trigger] out@[k]@),
        decreases values.len() - i,
    {
        assert(values_view(values@)[i as int] == values@[i as int]@);
        assert(value_fits(c@.dtype, c@.values[i as int]));
        proof {
            lemma_pattern_fits(c@.dtype, c@.values[i as int]);
        }
        let v = match &values[i] {
            AnyValue::Null => AnyValue::Null,
            other => {
                let p = pattern_of(other, ones, Ghost(width as nat));
                AnyValue::UInt(count_of(how, p, width) as u64)
            },
        };
        proof {
            lemma_counts_fit(
                bit_pattern(c@.values[i as int], width as nat),
                width as nat,
            );
            lemma_counts_fit(
                (all_ones(width as nat) - bit_pattern(c@.values[i as int], width as nat)) as nat,
                width as nat,
            );
            lemma_low_zeros_bound(bit_pattern(c@.values[i as int], width as nat), width as nat);
            lemma_low_zeros_bound(
                (all_ones(width as nat) - bit_pattern(c@.values[i as int], width as nat)) as nat,
                width as nat,
            );
        }
        out.push(v);
        i += 1;
    }
    let ghost target = Seq::new(
        c@.values.len(),
        |i: int| count_value(how, c@.values[i], bit_width(c@.dtype).unwrap()),
    );
    assert(values_view(out@) =~= target);
    Ok(Series::from_parts(c.name().clone(), DataType::UInt32, out))
}

proof fn lemma_low_zeros_bound(p: nat, width: nat)
    ensures
        low_zeros(p, width) <= width,
    decreases width,
{
    if width != 0 && p % 2 != 1 {
        lemma_low_zeros_bound(p / 2, (width - 1) as nat);
    }
}

/// The number of set bits of each value.
pub fn count_ones(c: &Column) -> (r: ApolloResult<Column>)
    ensures
        bit_count_outcome(c@, BitCount::CountOnes, r),
{
    bit_count(c, BitCount::CountOnes)
}

/// The number of clear bits of each value.
pub fn count_zeros(c: &Column) -> (r: ApolloResult<Column>)
    ensures
        bit_count_outcome(c@, BitCount::CountZeros, r),
{
    bit_count(c, BitCount::CountZeros)
}

/// The number of set bits above the highest clear bit of each value.
pub fn leading_ones(c: &Column) -> (r: ApolloResult<Column>)
    ensures
        bit_count_outcome(c@, BitCount::LeadingOnes, r),
{
    bit_count(c, BitCount::LeadingOnes)
}

/// The number of clear bits above the highest set bit of each value.
pub fn leading_zeros(c: &Column) -> (r: ApolloResult<Column>)
    ensures
        bit_count_outcome(c@, BitCount::LeadingZeros, r),
{
    bit_count(c, BitCount::LeadingZeros)
}

/// The number of set bits below the lowest clear bit of each value.
pub fn trailing_ones(c: &Column) -> (r: ApolloResult<Column>)
    ensures
        bit_count_outcome(c@, BitCount::TrailingOnes, r),
{
    bit_count(c, BitCount::TrailingOnes)
}

/// The number of clear bits below the lowest set bit of each value.
pub fn trailing_zeros(c: &Column) -> (r: ApolloResult<Column>)
    ensures
        bit_count_outcome(c@, BitCount::TrailingZeros, r),
{
    bit_count(c, BitCount::TrailingZeros)
}

/// The bitwise operations that fold a column into one value.
#[derive(Clone, Copy, Debug, PartialEq, Eq, Structural)]
pub enum BitReduce {
    And,
    Or,
    Xor,
}

/// Two bit patterns combined bit by bit.
pub open spec fn combine(op: BitReduce, a: u64, b: u64) -> u64 {
    match op {
        BitReduce::And => a & b,
        BitReduce::Or => a | b,
        BitReduce::Xor => a ^ b,
    }
}

/// The bit patterns of the values that are not null among the first
/// `upto`, combined from left to right; `None` where all are null.
pub open spec fn reduce_patterns(
    op: BitReduce,
    values: Seq<AnyValueView>,
    width: nat,
    upto: int,
) -> Option<u64>
    decreases upto,
{
    if upto <= 0 {
        None
    } else {
        let prev = reduce_patterns(op, values, width, upto - 1);
        if values[upto - 1] is Null {
            prev
        } else {
            let p = bit_pattern(values[upto - 1], width) as u64;
            match prev {
                None => Some(p),
                Some(acc) => Some(combine(op, acc, p)),
            }
        }
    }
}

/// The value of a column of type `dt` that the bit pattern `p` writes.
pub open spec fn value_of_pattern(dt: DataTypeView, p: u64) -> AnyValueView {
    match dt {
        DataTypeView::Boolean => AnyValueView::Boolean(p == 1),
        DataTypeView::Int8 => AnyValueView::Int(
            if p > 0x7f {
                p - 0x100
            } else {
                p as int
            },
        ),
        DataTypeView::Int16 => AnyValueView::Int(
            if p > 0x7fff {
                p - 0x1_0000
            } else {
                p as int
            },
        ),
        DataTypeView::Int32 => AnyValueView::Int(
            if p > 0x7fff_ffff {
                p - 0x1_0000_0000
            } else {
                p as int
            },
        ),
        DataTypeView::Int64 => AnyValueView::Int(
            if p > 0x7fff_ffff_ffff_ffff {
                p - 0x1_0000_0000_0000_0000
            } else {
                p as int
            },
        ),
        _ => AnyValueView::UInt(p as int),
    }
}

/// Whether the values of a type can be folded bit by bit: booleans and
/// integers can.
pub open spec fn can_reduce(dt: DataTypeView) -> bool {
    dt is Boolean || dt is Int8 || dt is Int16 || dt is Int32 || dt is Int64 || dt is UInt8
        || dt is UInt16 || dt is UInt32 || dt is UInt64
}

/// The name of a fold, as messages show it.
pub open spec fn reduce_name(op: BitReduce) -> Seq<char> {
    match op {
        BitReduce::And => "and_reduce"@,
        BitReduce::Or => "or_reduce"@,
        BitReduce::Xor => "xor_reduce"@,
    }
}

/// The message of the error for a type whose values cannot be folded.
pub open spec fn reduce_unsupported_message(dt: DataTypeView, op: BitReduce) -> Seq<char> {
    "dtype "@ + dtype_name(dt) + " not supported in '"@ + reduce_name(op) + "' operation"@
}

proof fn lemma_combine_stays_in_width(op: BitReduce, a: u64, b: u64, width: nat)
    requires
        width == 1 || width == 8 || width == 16 || width == 32 || width == 64,
        a <= all_ones(width),
        b <= all_ones(width),
    ensures
        combine(op, a, b) <= all_ones(width),
{
    assert(a <= 1 && b <= 1 ==> (a & b) <= 1 && (a | b) <= 1 && (a ^ b) <= 1) by (bit_vector);
    assert(a <= 0xff && b <= 0xff ==> (a & b) <= 0xff && (a | b) <= 0xff && (a ^ b) <= 0xff)
        by (bit_vector);
    assert(a <= 0xffff && b <= 0xffff ==> (a & b) <= 0xffff && (a | b) <= 0xffff && (a ^ b)
        <= 0xffff) by (bit_vector);
    assert(a <= 0xffff_ffff && b <= 0xffff_ffff ==> (a & b) <= 0xffff_ffff && (a | b)
        <= 0xffff_ffff && (a ^ b) <= 0xffff_ffff) by (bit_vector);
}

fn value_from(dt: &DataType, p: u64) -> (v: AnyValue)
    requires
        can_reduce(dt@),
        p <= all_ones(bit_width(dt@).unwrap()),
    ensures
        v@ == value_of_pattern(dt@, p),
        value_fits(dt@, v@),
{
    match dt {
        DataType::Boolean => AnyValue::Boolean(p == 1),
        DataType::Int8 => AnyValue::Int(
            if p > 0x7f {
                p as i64 - 0x100
            } else {
                p as i64
            },
        ),
        DataType::Int16 => AnyValue::Int(
            if p > 0x7fff {
                p as i64 - 0x1_0000
            } else {
                p as i64
            },
        ),
        DataType::Int32 => AnyValue::Int(
            if p > 0x7fff_ffff {
                p as i64 - 0x1_0000_0000
            } else {
                p as i64
            },
        ),
        DataType::Int64 => AnyValue::Int(
            if p > 0x7fff_ffff_ffff_ffff {
                -1 - ((u64::MAX - p) as i64)
            } else {
                p as i64
            },
        ),
        _ => AnyValue::UInt(p),
    }
}

/// Whether `r` is the fold of the column `c`: a column of one value under
/// the name and of the type of `c`, which is the value that the combined
/// bit patterns of the values of `c` write, and null where `c` holds
/// nothing but nulls; or the error for a column whose values cannot be
/// folded.
pub open spec fn bit_reduce_outcome(c: SeriesView, op: BitReduce, r: ApolloResult<Column>) -> bool {
    match r {
        Ok(out) => can_reduce(c.dtype) && out@ == (SeriesView {
            name: c.name,
            dtype: c.dtype,
            values: seq![
                match reduce_patterns(
                    op,
                    c.values,
                    bit_width(c.dtype).unwrap(),
                    c.values.len() as int,
                ) {
                    Some(p) => value_of_pattern(c.dtype, p),
                    None => AnyValueView::Null,
                },
            ],
        }),
        Err(e) => !can_reduce(c.dtype) && e@ == ErrorView::Simple(
            ErrorKind::InvalidOperation,
            reduce_unsupported_message(c.dtype, op),
        ),
    }
}

/// Folds the values of a column with a bitwise operation.
pub fn bit_reduce(c: &Column, op: BitReduce) -> (r: ApolloResult<Column>)
    ensures
        bit_reduce_outcome(c@, op, r),
{
    let dt = c.dtype();
    let supported = match dt {
        DataType::Boolean => true,
        other => other.is_integer(),
    };
    if !supported {
        let mut msg = String::from_str("dtype ");
        dt.push_name(&mut msg);
        msg.append(" not supported in '");
        msg.append(
            match op {
                BitReduce::And => "and_reduce",
                BitReduce::Or => "or_reduce",
                BitReduce::Xor => "xor_reduce",
            },
        );
        msg.append("' operation");
        assert(msg@ =~= reduce_unsupported_message(c@.dtype, op));
        return Err(ApolloError::InvalidOperation(msg));
    }
    let width = match width_of(dt) {
        Some(w) => w,
        None => 64,
    };
    let ones = ones_of(width);
    let values = c.values();
    let mut acc: Option<u64> = None;
    let mut i: usize = 0;
    while i < values.len()
        invariant
            i <= values.len(),
            can_reduce(c@.dtype),
            bit_width(c@.dtype) == Some(width as nat),
            ones == all_ones(width as nat),
            values_view(values@) == c@.values,
            all_fit(c@.dtype, c@.values),
            acc == reduce_patterns(op, c@.values, width as nat, i as int),
            acc matches Some(p) ==> p <= all_ones(width as nat),
        decreases values.len() - i,
    {
        assert(values_view(values@)[i as int] == values@[i as int]@);
        assert(value_fits(c@.dtype, c@.values[i as int]));
        proof {
            lemma_pattern_fits(c@.dtype, c@.values[i as int]);
        }
        match &values[i] {
            AnyValue::Null => {},
            other => {
                let p = pattern_of(other, ones, Ghost(width as nat));
                acc = match acc {
                    None => Some(p),
                    Some(a) => {
                        proof {
                            lemma_combine_stays_in_width(op, a, p, width as nat);
                        }
                        Some(
                            match op {
                                BitReduce::And => a & p,
                                BitReduce::Or => a | p,
                                BitReduce::Xor => a ^ p,
                            },
                        )
                    },
                };
            },
        }
        i += 1;
    }
    let v = match acc {
        Some(p) => value_from(dt, p),
        None => AnyValue::Null,
    };
    let mut out: Vec<AnyValue> = Vec::new();
    out.push(v);
    assert(values_view(out@) =~= seq![v@]);
    Ok(Series::from_parts(c.name().clone(), dt.duplicate(), out))
}

/// The bitwise and of the values of a column.
pub fn reduce_and(c: &Column) -> (r: ApolloResult<Column>)
    ensures
        bit_reduce_outcome(c@, BitReduce::And, r),
{
    bit_reduce(c, BitReduce::And)
}

/// The bitwise or of the values of a column.
pub fn reduce_or(c: &Column) -> (r: ApolloResult<Column>)
    ensures
        bit_reduce_outcome(c@, BitReduce::Or, r),
{
    bit_reduce(c, BitReduce::Or)
}

/// The bitwise exclusive or of the values of a column.
pub fn reduce_xor(c: &Column) -> (r: ApolloResult<Column>)
    ensures
        bit_reduce_outcome(c@, BitReduce::Xor, r),
{
    bit_reduce(c, BitReduce::Xor)
}

/// Applies a bitwise function of an expression to a column.
pub fn apply_bitwise(func: IRBitwiseFunction, c: &Column) -> (r: ApolloResult<Column>)
    ensures
        match func {
            IRBitwiseFunction::CountOnes => bit_count_outcome(c@, BitCount::CountOnes, r),
            IRBitwiseFunction::CountZeros => bit_count_outcome(c@, BitCount::CountZeros, r),
            IRBitwiseFunction::LeadingOnes => bit_count_outcome(c@, BitCount::LeadingOnes, r),
            IRBitwiseFunction::LeadingZeros => bit_count_outcome(c@, BitCount::LeadingZeros, r),
            IRBitwiseFunction::TrailingOnes => bit_count_outcome(c@, BitCount::TrailingOnes, r),
            IRBitwiseFunction::TrailingZeros => bit_count_outcome(c@, BitCount::TrailingZeros, r),
            IRBitwiseFunction::And => bit_reduce_outcome(c@, BitReduce::And, r),
            IRBitwiseFunction::Or => bit_reduce_outcome(c@, BitReduce::Or, r),
            IRBitwiseFunction::Xor => bit_reduce_outcome(c@, BitReduce::Xor, r),
        },
{
    match func {
        IRBitwiseFunction::CountOnes => count_ones(c),
        IRBitwiseFunction::CountZeros => count_zeros(c),
        IRBitwiseFunction::LeadingOnes => leading_ones(c),
        IRBitwiseFunction::LeadingZeros => leading_zeros(c),
        IRBitwiseFunction::TrailingOnes => trailing_ones(c),
        IRBitwiseFunction::TrailingZeros => trailing_zeros(c),
        IRBitwiseFunction::And => reduce_and(c),
        IRBitwiseFunction::Or => reduce_or(c),
        IRBitwiseFunction::Xor => reduce_xor(c),
    }
}

} // verus!
