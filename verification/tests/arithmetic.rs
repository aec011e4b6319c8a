use apollo::aexpr::IRBitwiseFunction;
use apollo::bits::apply_bitwise;
use apollo::bits::reduce_and;
use apollo::bits::reduce_or;
use apollo::bits::reduce_xor;
use apollo::datatypes::DataType;
use apollo::error::ApolloError;
use apollo::floor_div::floor_div_series;
use apollo::series::AnyValue;
use apollo::series::Series;

fn ints(name: &str, dtype: DataType, values: &[Option<i64>]) -> Series {
    let values = values.iter().map(|v| v.map_or(AnyValue::Null, AnyValue::Int)).collect();
    Series::new(name, dtype, values).unwrap()
}

fn uints(name: &str, dtype: DataType, values: &[Option<u64>]) -> Series {
    let values = values.iter().map(|v| v.map_or(AnyValue::Null, AnyValue::UInt)).collect();
    Series::new(name, dtype, values).unwrap()
}

fn floor(a: i64, b: i64) -> i128 {
    let (a, b) = (a as i128, b as i128);
    let q = a / b;
    if a % b != 0 && ((a < 0) != (b < 0)) {
        q - 1
    } else {
        q
    }
}

#[test]
fn floor_division_rounds_down() {
    let a = ints("a", DataType::Int64, &[Some(7), Some(-7), Some(7), Some(-7), Some(6), None, Some(1)]);
    let b = ints("b", DataType::Int64, &[Some(2), Some(2), Some(-2), Some(-2), Some(-3), Some(1), Some(0)]);
    assert_eq!(
        floor_div_series(&a, &b).unwrap(),
        ints("a", DataType::Int64, &[Some(3), Some(-4), Some(-4), Some(3), Some(-2), None, None])
    );
}

#[test]
fn floor_division_agrees_with_wide_arithmetic() {
    let samples: Vec<i64> =
        vec![i64::MIN, i64::MIN + 1, -1_000_000_007, -9, -2, -1, 0, 1, 2, 3, 10, 1 << 40, i64::MAX];
    for x in &samples {
        for y in &samples {
            if *y == 0 {
                continue;
            }
            let r = floor_div_series(
                &ints("x", DataType::Int64, &[Some(*x)]),
                &ints("y", DataType::Int64, &[Some(*y)]),
            )
            .unwrap();
            let expected = floor(*x, *y) as i64;
            assert_eq!(r.get(0), Some(&AnyValue::Int(expected)), "{x} / {y}");
        }
    }
    let small: Vec<i64> = (-128..=127).collect();
    for x in &small {
        for y in [-128i64, -3, -1, 1, 2, 127] {
            let r = floor_div_series(
                &ints("x", DataType::Int8, &[Some(*x)]),
                &ints("y", DataType::Int8, &[Some(y)]),
            )
            .unwrap();
            let expected = floor(*x, y) as i8 as i64;
            assert_eq!(r.get(0), Some(&AnyValue::Int(expected)), "{x} / {y}");
        }
    }
}

#[test]
fn floor_division_broadcasts_and_checks_the_type() {
    let a = uints("a", DataType::UInt8, &[Some(9), Some(200), None]);
    let two = uints("two", DataType::UInt8, &[Some(2)]);
    assert_eq!(
        floor_div_series(&a, &two).unwrap(),
        uints("a", DataType::UInt8, &[Some(4), Some(100), None])
    );
    assert_eq!(
        floor_div_series(&two, &a).unwrap(),
        uints("two", DataType::UInt8, &[Some(0), Some(0), None])
    );
    let least = ints("m", DataType::Int16, &[Some(-32768)]);
    let minus_one = ints("n", DataType::Int16, &[Some(-1)]);
    assert_eq!(
        floor_div_series(&least, &minus_one).unwrap(),
        ints("m", DataType::Int16, &[Some(-32768)])
    );
    let s = Series::full_null("s", DataType::String, 1);
    assert_eq!(
        floor_div_series(&s, &s),
        Err(ApolloError::InvalidOperation(
            "`floor_div` operation not supported for dtype `str`".to_string()
        ))
    );
    let f = Series::full_null("f", DataType::Float64, 2);
    assert_eq!(floor_div_series(&f, &f).unwrap(), f);
}

#[test]
fn folding_a_column_bit_by_bit() {
    let s = ints("a", DataType::Int8, &[Some(0b0110), None, Some(0b0011), Some(-1)]);
    assert_eq!(reduce_and(&s).unwrap(), ints("a", DataType::Int8, &[Some(0b0010)]));
    assert_eq!(reduce_or(&s).unwrap(), ints("a", DataType::Int8, &[Some(-1)]));
    assert_eq!(reduce_xor(&s).unwrap(), ints("a", DataType::Int8, &[Some(!0b0101)]));
    let u = uints("u", DataType::UInt16, &[Some(0xf0f0), Some(0x0ff0)]);
    assert_eq!(reduce_and(&u).unwrap(), uints("u", DataType::UInt16, &[Some(0x00f0)]));
    assert_eq!(reduce_xor(&u).unwrap(), uints("u", DataType::UInt16, &[Some(0xff00)]));
    let w = ints("w", DataType::Int64, &[Some(i64::MIN), Some(-1), Some(5)]);
    assert_eq!(reduce_or(&w).unwrap(), ints("w", DataType::Int64, &[Some(-1)]));
    assert_eq!(
        reduce_xor(&w).unwrap(),
        ints("w", DataType::Int64, &[Some(i64::MIN ^ -1 ^ 5)])
    );
    let b = Series::new(
        "b",
        DataType::Boolean,
        vec![AnyValue::Boolean(true), AnyValue::Boolean(false)],
    )
    .unwrap();
    assert_eq!(reduce_and(&b).unwrap().get(0), Some(&AnyValue::Boolean(false)));
    assert_eq!(reduce_or(&b).unwrap().get(0), Some(&AnyValue::Boolean(true)));
    let none = ints("n", DataType::Int32, &[None, None]);
    assert_eq!(reduce_and(&none).unwrap(), ints("n", DataType::Int32, &[None]));
    assert_eq!(
        reduce_or(&Series::full_null("s", DataType::String, 1)),
        Err(ApolloError::InvalidOperation(
            "dtype str not supported in 'or_reduce' operation".to_string()
        ))
    );
}

#[test]
fn bitwise_functions_of_expressions() {
    let s = ints("a", DataType::Int32, &[Some(12), Some(10)]);
    assert_eq!(
        apply_bitwise(IRBitwiseFunction::And, &s).unwrap(),
        ints("a", DataType::Int32, &[Some(8)])
    );
    assert_eq!(
        apply_bitwise(IRBitwiseFunction::Xor, &s).unwrap(),
        ints("a", DataType::Int32, &[Some(6)])
    );
    assert_eq!(
        apply_bitwise(IRBitwiseFunction::CountOnes, &s).unwrap(),
        uints("a", DataType::UInt32, &[Some(2), Some(2)])
    );
    assert_eq!(
        apply_bitwise(IRBitwiseFunction::TrailingZeros, &s).unwrap(),
        uints("a", DataType::UInt32, &[Some(2), Some(1)])
    );
    assert_eq!(
        apply_bitwise(IRBitwiseFunction::LeadingZeros, &s).unwrap(),
        uints("a", DataType::UInt32, &[Some(28), Some(28)])
    );
}
