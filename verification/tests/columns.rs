use apollo::arrays::check_bounds;
use apollo::arrays::scatter_bool_impl;
use apollo::arrays::scatter_primitive_impl;
use apollo::arrays::BooleanArray;
use apollo::arrays::ChunkedSet;
use apollo::arrays::PrimitiveArray;
use apollo::binview::scatter_binview_impl;
use apollo::binview::BinaryViewArray;
use apollo::bits::bit_count;
use apollo::bits::count_ones;
use apollo::bits::count_zeros;
use apollo::bits::leading_ones;
use apollo::bits::leading_zeros;
use apollo::bits::trailing_ones;
use apollo::bits::trailing_zeros;
use apollo::bits::BitCount;
use apollo::cast::cast;
use apollo::cast::try_get_supertype;
use apollo::datatypes::DataType;
use apollo::datatypes::Field;
use apollo::datatypes::TimeUnit;
use apollo::error::ApolloError;
use apollo::error::ApolloResult;
use apollo::fixed_size_list::negative_to_usize;
use apollo::fixed_size_list::sub_fixed_size_list_get;
use apollo::fixed_size_list::sub_fixed_size_list_get_indexes;
use apollo::fixed_size_list::sub_fixed_size_list_get_indexes_literal;
use apollo::fixed_size_list::sub_fixed_size_list_get_literal;
use apollo::fixed_size_list::FixedSizeListArray;
use apollo::frame::filter_zero_width;
use apollo::frame::DataFrame;
use apollo::frame::StructArray;
use apollo::horizontal::check_step;
use apollo::horizontal::cum_fold;
use apollo::horizontal::cum_reduce;
use apollo::horizontal::fold;
use apollo::horizontal::reduce;
use apollo::horizontal::StructChunked;
use apollo::ops::negate_bitwise;
use apollo::schema::Schema;
use apollo::series::fits;
use apollo::series::AnyValue;
use apollo::series::BooleanChunked;
use apollo::series::Series;

fn ints(name: &str, dtype: DataType, values: &[Option<i64>]) -> Series {
    let values = values.iter().map(|v| v.map_or(AnyValue::Null, AnyValue::Int)).collect();
    Series::new(name, dtype, values).unwrap()
}

fn uints(name: &str, dtype: DataType, values: &[Option<u64>]) -> Series {
    let values = values.iter().map(|v| v.map_or(AnyValue::Null, AnyValue::UInt)).collect();
    Series::new(name, dtype, values).unwrap()
}

fn bools(name: &str, values: &[Option<bool>]) -> Series {
    let values = values.iter().map(|v| v.map_or(AnyValue::Null, AnyValue::Boolean)).collect();
    Series::new(name, DataType::Boolean, values).unwrap()
}

fn values_of(s: &Series) -> Vec<AnyValue> {
    (0..s.len()).map(|i| s.get(i).unwrap().clone()).collect()
}

#[test]
fn type_names() {
    assert_eq!(DataType::Int32.name(), "i32");
    assert_eq!(DataType::String.name(), "str");
    assert_eq!(DataType::Duration(TimeUnit::Nanoseconds).name(), "duration[ns]");
    assert_eq!(DataType::List(Box::new(DataType::UInt8)).name(), "list[u8]");
    assert_eq!(
        DataType::Array(Box::new(DataType::List(Box::new(DataType::Boolean))), 3).name(),
        "array[list[bool], 3]"
    );
    let s = DataType::Struct(vec![Field::new("a", DataType::Int8), Field::new("b", DataType::Null)]);
    assert_eq!(s.name(), "struct[2]");
    assert_eq!(
        DataType::Extension("geo".to_string(), Box::new(DataType::Binary)).name(),
        "ext[geo, binary]"
    );
    assert!(s.same(&s.clone()));
    assert!(!s.same(&DataType::Struct(vec![Field::new("a", DataType::Int8)])));
    assert!(!DataType::Array(Box::new(DataType::Int8), 2)
        .same(&DataType::Array(Box::new(DataType::Int8), 3)));
    assert!(DataType::Int16.is_integer() && DataType::Int16.is_signed_integer());
    assert!(DataType::UInt16.is_unsigned_integer() && !DataType::UInt16.is_float());
    assert!(DataType::Float32.is_primitive_numeric() && !DataType::Float32.is_integer());
    assert!(DataType::Date.is_temporal() && !DataType::Int32.is_temporal());
}

#[test]
fn values_must_fit_their_column() {
    assert!(fits(&DataType::Int8, &AnyValue::Int(-128)));
    assert!(!fits(&DataType::Int8, &AnyValue::Int(128)));
    assert!(fits(&DataType::Int64, &AnyValue::Int(i64::MIN)));
    assert!(fits(&DataType::UInt16, &AnyValue::UInt(65535)));
    assert!(!fits(&DataType::UInt16, &AnyValue::UInt(65536)));
    assert!(!fits(&DataType::UInt16, &AnyValue::Int(1)));
    assert!(fits(&DataType::Date, &AnyValue::Int(20000)));
    assert!(fits(&DataType::Float64, &AnyValue::Null));
    assert!(!fits(&DataType::String, &AnyValue::Binary(vec![1])));
    assert_eq!(
        Series::new("a", DataType::Int8, vec![AnyValue::Int(1), AnyValue::Int(300)]),
        Err(ApolloError::SchemaMismatch("value does not fit column of type i8".to_string()))
    );
    let s = ints("a", DataType::Int8, &[Some(1), None, None]);
    assert_eq!((s.len(), s.null_count()), (3, 2));
    assert_eq!(s.get(3), None);
    assert_eq!(Series::full_null("n", DataType::String, 2).null_count(), 2);
    assert_eq!(s.clone().with_name("b").name(), "b");
}

#[test]
fn schemas_keep_order_and_distinct_names() {
    let mut s = Schema::new();
    assert!(s.with_column("a", DataType::Int8));
    assert!(s.with_column("b", DataType::Int16));
    assert!(!s.with_column("a", DataType::Int32));
    assert_eq!(s.len(), 2);
    assert_eq!(s.index_of("a"), Some(0));
    assert_eq!(s.index_of("b"), Some(1));
    assert_eq!(s.index_of("c"), None);
    assert_eq!(s.get("a"), Some(&DataType::Int32));
    assert!(s.contains("b") && !s.contains("B"));
    assert_eq!((s.name_at(1).as_str(), s.dtype_at(1)), ("b", &DataType::Int16));
    let twice = vec![
        Field::new("x", DataType::Int8),
        Field::new("y", DataType::Int8),
        Field::new("z", DataType::Int8),
        Field::new("y", DataType::Int8),
        Field::new("x", DataType::Int8),
    ];
    assert_eq!(
        Schema::try_from_fields(twice),
        Err(ApolloError::Duplicate("column with name 'y' has more than one occurrence".to_string()))
    );
}

#[test]
fn bitwise_negation() {
    let s = ints("a", DataType::Int8, &[Some(5), Some(-128), Some(127), Some(0), None]);
    let n = negate_bitwise(&s).unwrap();
    assert_eq!(n, ints("a", DataType::Int8, &[Some(-6), Some(127), Some(-128), Some(-1), None]));
    assert_eq!(negate_bitwise(&n).unwrap(), s);
    let u = uints("u", DataType::UInt8, &[Some(5), Some(0), Some(255), None]);
    assert_eq!(
        negate_bitwise(&u).unwrap(),
        uints("u", DataType::UInt8, &[Some(250), Some(255), Some(0), None])
    );
    let w = uints("w", DataType::UInt64, &[Some(1)]);
    assert_eq!(negate_bitwise(&w).unwrap(), uints("w", DataType::UInt64, &[Some(u64::MAX - 1)]));
    let x = ints("x", DataType::Int64, &[Some(i64::MIN), Some(i64::MAX)]);
    assert_eq!(
        negate_bitwise(&x).unwrap(),
        ints("x", DataType::Int64, &[Some(i64::MAX), Some(i64::MIN)])
    );
    let b = bools("b", &[Some(true), Some(false), None]);
    assert_eq!(negate_bitwise(&b).unwrap(), bools("b", &[Some(false), Some(true), None]));
    let t = Series::full_null("t", DataType::String, 1);
    assert_eq!(
        negate_bitwise(&t),
        Err(ApolloError::InvalidOperation("dtype str not supported in 'not' operation".to_string()))
    );
    assert!(negate_bitwise(&Series::full_null("d", DataType::Date, 1)).is_err());
    for v in [i8::MIN, -7, -1, 0, 1, 100, i8::MAX] {
        let r = negate_bitwise(&ints("v", DataType::Int8, &[Some(v as i64)])).unwrap();
        assert_eq!(r.get(0), Some(&AnyValue::Int(!v as i64)));
    }
}

fn counts(s: &Series, how: BitCount) -> Vec<Option<u64>> {
    let r = bit_count(s, how).unwrap();
    assert_eq!(r.dtype(), &DataType::UInt32);
    assert_eq!(r.name(), s.name());
    values_of(&r)
        .into_iter()
        .map(|v| match v {
            AnyValue::UInt(c) => Some(c),
            AnyValue::Null => None,
            _ => panic!("a count is an unsigned number"),
        })
        .collect()
}

#[test]
fn counting_bits() {
    let s = ints("a", DataType::Int8, &[Some(0), Some(1), Some(-1), Some(-128), Some(0b0110), None]);
    assert_eq!(
        counts(&s, BitCount::CountOnes),
        vec![Some(0), Some(1), Some(8), Some(1), Some(2), None]
    );
    assert_eq!(
        counts(&s, BitCount::CountZeros),
        vec![Some(8), Some(7), Some(0), Some(7), Some(6), None]
    );
    assert_eq!(
        counts(&s, BitCount::LeadingZeros),
        vec![Some(8), Some(7), Some(0), Some(0), Some(5), None]
    );
    assert_eq!(
        counts(&s, BitCount::LeadingOnes),
        vec![Some(0), Some(0), Some(8), Some(1), Some(0), None]
    );
    assert_eq!(
        counts(&s, BitCount::TrailingZeros),
        vec![Some(8), Some(0), Some(0), Some(7), Some(1), None]
    );
    assert_eq!(
        counts(&s, BitCount::TrailingOnes),
        vec![Some(0), Some(1), Some(8), Some(0), Some(0), None]
    );
    let b = bools("b", &[Some(true), Some(false)]);
    assert_eq!(counts(&b, BitCount::CountOnes), vec![Some(1), Some(0)]);
    assert_eq!(counts(&b, BitCount::LeadingZeros), vec![Some(0), Some(1)]);
    assert!(bit_count(&Series::full_null("f", DataType::Float64, 1), BitCount::CountOnes).is_ok());
    assert_eq!(
        count_zeros(&Series::full_null("s", DataType::String, 1)),
        Err(ApolloError::InvalidOperation(
            "dtype str not supported in 'count_zeros' operation".to_string()
        ))
    );
}

#[test]
fn bit_counts_agree_with_the_machine() {
    let samples: [i64; 9] = [i64::MIN, -65536, -3, -1, 0, 1, 2, 0x00ff_00ff, i64::MAX];
    let s = ints("x", DataType::Int64, &samples.map(Some));
    let get = |r: ApolloResult<Series>| -> Vec<u64> {
        values_of(&r.unwrap())
            .into_iter()
            .map(|v| match v {
                AnyValue::UInt(c) => c,
                _ => panic!("a count"),
            })
            .collect()
    };
    assert_eq!(get(count_ones(&s)), samples.map(|v| v.count_ones() as u64).to_vec());
    assert_eq!(get(count_zeros(&s)), samples.map(|v| v.count_zeros() as u64).to_vec());
    assert_eq!(get(leading_ones(&s)), samples.map(|v| v.leading_ones() as u64).to_vec());
    assert_eq!(get(leading_zeros(&s)), samples.map(|v| v.leading_zeros() as u64).to_vec());
    assert_eq!(get(trailing_ones(&s)), samples.map(|v| v.trailing_ones() as u64).to_vec());
    assert_eq!(get(trailing_zeros(&s)), samples.map(|v| v.trailing_zeros() as u64).to_vec());
    let usamples: [u64; 5] = [0, 1, 0xf0, 0x8000, 0xffff];
    let u = uints("u", DataType::UInt16, &usamples.map(Some));
    assert_eq!(
        get(leading_zeros(&u)),
        usamples.map(|v| (v as u16).leading_zeros() as u64).to_vec()
    );
    assert_eq!(
        get(trailing_ones(&u)),
        usamples.map(|v| (v as u16).trailing_ones() as u64).to_vec()
    );
}

#[test]
fn casting() {
    let s = ints("a", DataType::Int64, &[Some(1), Some(300), Some(-1), Some(0), None]);
    assert_eq!(
        cast(&s, &DataType::Int8).unwrap(),
        ints("a", DataType::Int8, &[Some(1), None, Some(-1), Some(0), None])
    );
    assert_eq!(
        cast(&s, &DataType::UInt16).unwrap(),
        uints("a", DataType::UInt16, &[Some(1), Some(300), None, Some(0), None])
    );
    assert_eq!(
        cast(&s, &DataType::Boolean).unwrap(),
        bools("a", &[Some(true), Some(true), Some(true), Some(false), None])
    );
    assert_eq!(cast(&s, &DataType::Int64).unwrap(), s);
    let b = bools("b", &[Some(true), Some(false), None]);
    assert_eq!(
        cast(&b, &DataType::UInt8).unwrap(),
        uints("b", DataType::UInt8, &[Some(1), Some(0), None])
    );
    let u = uints("u", DataType::UInt64, &[Some(u64::MAX), Some(7)]);
    assert_eq!(cast(&u, &DataType::Int64).unwrap(), ints("u", DataType::Int64, &[None, Some(7)]));
    assert_eq!(
        cast(&s, &DataType::String),
        Err(ApolloError::InvalidOperation("casting from i64 to str not supported".to_string()))
    );
    assert!(cast(&Series::full_null("n", DataType::Null, 2), &DataType::String).is_ok());
}

#[test]
fn supertypes() {
    let st = |a: &DataType, b: &DataType| try_get_supertype(a, b);
    assert_eq!(st(&DataType::Int8, &DataType::Int32), Ok(DataType::Int32));
    assert_eq!(st(&DataType::UInt8, &DataType::Int8), Ok(DataType::Int16));
    assert_eq!(st(&DataType::Int32, &DataType::UInt32), Ok(DataType::Int64));
    assert_eq!(st(&DataType::UInt16, &DataType::Int64), Ok(DataType::Int64));
    assert_eq!(st(&DataType::UInt64, &DataType::Int64), Ok(DataType::Float64));
    assert_eq!(st(&DataType::UInt64, &DataType::UInt8), Ok(DataType::UInt64));
    assert_eq!(st(&DataType::Float32, &DataType::Int16), Ok(DataType::Float32));
    assert_eq!(st(&DataType::Float32, &DataType::Int32), Ok(DataType::Float64));
    assert_eq!(st(&DataType::Boolean, &DataType::UInt8), Ok(DataType::UInt8));
    assert_eq!(st(&DataType::Null, &DataType::String), Ok(DataType::String));
    assert_eq!(st(&DataType::String, &DataType::String), Ok(DataType::String));
    assert_eq!(
        st(&DataType::String, &DataType::Int8),
        Err(ApolloError::SchemaMismatch("failed to determine supertype of str and i8".to_string()))
    );
    for a in [DataType::Int8, DataType::UInt32, DataType::Float32, DataType::Boolean] {
        for b in [DataType::Int64, DataType::UInt8, DataType::Float64, DataType::Null] {
            assert_eq!(st(&a, &b), st(&b, &a));
        }
    }
}

fn add(a: Series, b: Series) -> ApolloResult<Series> {
    if a.len() != b.len() {
        return Err(ApolloError::ShapeMismatch("lengths differ".to_string()));
    }
    let mut out = Vec::new();
    for i in 0..a.len() {
        out.push(match (a.get(i).unwrap(), b.get(i).unwrap()) {
            (AnyValue::Int(x), AnyValue::Int(y)) => AnyValue::Int(x + y),
            _ => AnyValue::Null,
        });
    }
    Series::new(a.name(), DataType::Int64, out)
}

fn first_only(a: Series, _b: Series) -> ApolloResult<Series> {
    Ok(a.slice(0, 1))
}

fn three() -> Vec<Series> {
    vec![
        ints("a", DataType::Int32, &[Some(1), Some(2)]),
        ints("b", DataType::Int64, &[Some(10), Some(20)]),
        ints("c", DataType::Int64, &[Some(100), None]),
    ]
}

#[test]
fn folding_columns() {
    let r = fold(&three(), &add, false, None).unwrap();
    assert_eq!(r, ints("a", DataType::Int32, &[Some(111), None]));
    let r = fold(&three(), &add, false, Some(&DataType::Int64)).unwrap();
    assert_eq!(r, ints("a", DataType::Int64, &[Some(111), None]));
    assert_eq!(
        fold(&three(), &add, true, None),
        Err(ApolloError::InvalidOperation(
            "`fold` is said to return scalar but returned 2 elements".to_string()
        ))
    );
    assert_eq!(
        fold(&three(), &add, false, Some(&DataType::Int8)),
        Err(ApolloError::ComputeError(
            "`fold` did not return given return_dtype (i8 != i64)".to_string()
        ))
    );
    let one = vec![ints("a", DataType::Int32, &[Some(1), Some(2)])];
    assert_eq!(fold(&one, &add, false, None).unwrap(), one[0]);
    assert!(fold(&three(), &first_only, true, None).is_ok());
    let uneven = vec![ints("a", DataType::Int64, &[Some(1)]), ints("b", DataType::Int64, &[])];
    assert_eq!(
        fold(&uneven, &add, false, None),
        Err(ApolloError::ShapeMismatch("lengths differ".to_string()))
    );
}

#[test]
fn reducing_columns() {
    let r = reduce(&three(), &add, false, None).unwrap();
    assert_eq!(r, ints("a", DataType::Int64, &[Some(111), None]));
    assert_eq!(
        reduce(&Vec::new(), &add, false, None),
        Err(ApolloError::ComputeError("`reduce` did not have any expressions to fold".to_string()))
    );
    let mixed = vec![
        ints("a", DataType::Int32, &[Some(1)]),
        Series::full_null("s", DataType::String, 1),
    ];
    assert_eq!(
        reduce(&mixed, &add, false, None),
        Err(ApolloError::SchemaMismatch("failed to determine supertype of i32 and str".to_string()))
    );
    assert_eq!(
        reduce(&three(), &add, true, Some(&DataType::Int64)),
        Err(ApolloError::InvalidOperation(
            "`reduce` is said to return scalar but returned 2 elements".to_string()
        ))
    );
}

fn fields_of(s: &StructChunked) -> Vec<Series> {
    let f = s.fields();
    (0..f.width()).map(|i| f.column_at(i).unwrap().clone()).collect()
}

#[test]
fn cumulative_folds_keep_every_step() {
    let r = cum_reduce(&three(), &add, false, None).unwrap();
    assert_eq!(r.name(), "c");
    assert_eq!(r.len(), 2);
    assert_eq!(
        fields_of(&r),
        vec![
            ints("a", DataType::Int32, &[Some(1), Some(2)]),
            ints("b", DataType::Int64, &[Some(11), Some(22)]),
            ints("c", DataType::Int64, &[Some(111), None]),
        ]
    );
    let r = cum_fold(&three(), &add, false, None, true).unwrap();
    assert_eq!(
        fields_of(&r),
        vec![
            ints("a", DataType::Int32, &[Some(1), Some(2)]),
            ints("b", DataType::Int32, &[Some(11), Some(22)]),
            ints("c", DataType::Int32, &[Some(111), None]),
        ]
    );
    let r = cum_fold(&three(), &add, false, None, false).unwrap();
    assert_eq!(fields_of(&r).len(), 2);
    assert_eq!(fields_of(&r)[0].name(), "b");
    assert!(cum_reduce(&Vec::new(), &add, false, None).is_err());
    assert_eq!(
        cum_reduce(&three(), &add, true, None).unwrap_err(),
        ApolloError::InvalidOperation(
            "`cum_reduce` is said to return scalar but returned 2 elements".to_string()
        )
    );
    let twice = vec![
        ints("a", DataType::Int64, &[Some(1)]),
        ints("b", DataType::Int64, &[Some(2)]),
        ints("a", DataType::Int64, &[Some(3)]),
    ];
    assert_eq!(
        cum_reduce(&twice, &add, false, None).unwrap_err(),
        ApolloError::Duplicate("column with name 'a' has more than one occurrence".to_string())
    );
    let step = check_step(ints("x", DataType::Int64, &[Some(5)]), "op", true, None, &DataType::Int8);
    assert_eq!(step.unwrap(), ints("x", DataType::Int8, &[Some(5)]));
}

#[test]
fn scattering_values() {
    let mut a = PrimitiveArray::from_values(vec![10i64, 20, 30, 40]);
    scatter_primitive_impl(&vec![Some(1), Some(2)], &mut a, &vec![3, 0]);
    assert!(!a.has_validity());
    assert_eq!((0..4).map(|i| a.get(i)).collect::<Vec<_>>(), vec![Some(2), Some(20), Some(30), Some(1)]);

    scatter_primitive_impl(&vec![None, Some(7), Some(8)], &mut a, &vec![1, 1, 2, 3]);
    assert!(a.has_validity());
    assert_eq!((0..4).map(|i| a.get(i)).collect::<Vec<_>>(), vec![Some(2), None, Some(8), Some(1)]);

    scatter_primitive_impl(&vec![None, Some(7)], &mut a, &vec![1, 1]);
    assert_eq!(a.get(1), Some(7));
    scatter_primitive_impl(&vec![Some(5), None], &mut a, &vec![0, 0]);
    assert_eq!(a.get(0), None);
    assert_eq!(a.get(9), None);

    let mut b: BooleanArray = PrimitiveArray::try_new(vec![true, true], Some(vec![true, false])).unwrap();
    assert_eq!(b.get(1), None);
    scatter_bool_impl(&vec![Some(false), Some(true)], &mut b, &vec![0, 1]);
    assert_eq!((b.get(0), b.get(1)), (Some(false), Some(true)));
    assert!(PrimitiveArray::try_new(vec![1u8], Some(vec![])).is_none());
}

#[test]
fn scattering_is_checked_at_the_boundary() {
    let mut a = PrimitiveArray::from_values(vec![1u32, 2, 3]);
    assert_eq!(
        a.scatter(&vec![0, 3], &vec![Some(9), Some(9)]),
        Err(ApolloError::OutOfBounds("indices are out of bounds".to_string()))
    );
    assert_eq!(a, PrimitiveArray::from_values(vec![1u32, 2, 3]));
    assert_eq!(a.scatter(&vec![0, 2], &vec![Some(9), None]), Ok(()));
    assert_eq!((a.get(0), a.get(1), a.get(2)), (Some(9), Some(2), None));
    assert!(check_bounds(&vec![0, 1, 2], 3).is_ok());
    assert!(check_bounds(&vec![], 0).is_ok());
    assert!(check_bounds(&vec![0], 0).is_err());
}

#[test]
fn scattering_byte_strings() {
    let long = b"a value that is too long for its view".to_vec();
    let longer = b"another value that goes into the buffer".to_vec();
    let mut a = BinaryViewArray::from_values(&vec![b"x".to_vec(), b"y".to_vec(), b"z".to_vec()]);
    assert_eq!(a.buffer_count(), 0);
    scatter_binview_impl(
        &vec![Some(long.clone()), None, Some(longer.clone()), Some(b"w".to_vec())],
        &mut a,
        &vec![2, 1, 0, 2],
    );
    assert_eq!(a.len(), 3);
    assert_eq!(a.buffer_count(), 1);
    assert_eq!(a.get(0), Some(longer.clone()));
    assert_eq!(a.get(1), None);
    assert_eq!(a.get(2), Some(b"w".to_vec()));
    assert_eq!(a.scatter(&vec![1], &vec![Some(long.clone())]), Ok(()));
    assert_eq!(a.buffer_count(), 2);
    assert_eq!(a.get(0), Some(longer));
    assert_eq!(a.get(1), Some(long));
    assert_eq!(a.scatter(&vec![1], &vec![Some(Vec::new())]), Ok(()));
    assert_eq!(a.buffer_count(), 2);
    assert_eq!(a.get(1), Some(Vec::new()));
    assert!(a.scatter(&vec![3], &vec![None]).is_err());
    assert_eq!(a.get(3), None);
}

fn lists() -> FixedSizeListArray {
    let values = [1, 2, 3, 4, 5, 6].map(AnyValue::Int).to_vec();
    FixedSizeListArray::try_new(3, values).unwrap()
}

#[test]
fn getting_an_element_of_every_list() {
    let arr = lists();
    assert_eq!((arr.size(), arr.len()), (3, 2));
    let int = |v: &[i64]| -> Vec<AnyValue> { v.iter().map(|x| AnyValue::Int(*x)).collect() };
    assert_eq!(sub_fixed_size_list_get_literal(&arr, 0, false), Ok(int(&[1, 4])));
    assert_eq!(sub_fixed_size_list_get_literal(&arr, 2, false), Ok(int(&[3, 6])));
    assert_eq!(sub_fixed_size_list_get_literal(&arr, -1, false), Ok(int(&[3, 6])));
    assert_eq!(sub_fixed_size_list_get_literal(&arr, -3, false), Ok(int(&[1, 4])));
    assert_eq!(
        sub_fixed_size_list_get_literal(&arr, 3, true),
        Ok(vec![AnyValue::Null, AnyValue::Null])
    );
    assert_eq!(
        sub_fixed_size_list_get_literal(&arr, -4, false),
        Err(ApolloError::ComputeError("get index is out of bounds".to_string()))
    );
    let index = PrimitiveArray::try_new(vec![1i64, 7, 0], Some(vec![true, true, true])).unwrap();
    assert_eq!(
        sub_fixed_size_list_get(&arr, &index, true),
        Ok(vec![AnyValue::Int(2), AnyValue::Null, AnyValue::Null])
    );
    assert!(sub_fixed_size_list_get(&arr, &index, false).is_err());
    let index = PrimitiveArray::try_new(vec![-1i64, 0], Some(vec![true, false])).unwrap();
    assert_eq!(
        sub_fixed_size_list_get(&arr, &index, true),
        Ok(vec![AnyValue::Int(3), AnyValue::Null])
    );
    assert_eq!(
        sub_fixed_size_list_get(&arr, &index, false),
        Ok(vec![AnyValue::Int(3), AnyValue::Null])
    );
    let index = PrimitiveArray::try_new(vec![9i64, 3], Some(vec![false, true])).unwrap();
    assert_eq!(
        sub_fixed_size_list_get(&arr, &index, false),
        Err(ApolloError::ComputeError("get index is out of bounds".to_string()))
    );
    let index = PrimitiveArray::try_new(vec![9i64, 2], Some(vec![false, true])).unwrap();
    assert_eq!(
        sub_fixed_size_list_get(&arr, &index, false),
        Ok(vec![AnyValue::Null, AnyValue::Int(6)])
    );
    let index = PrimitiveArray::try_new(vec![0i64, 0, 0], Some(vec![true, true, false])).unwrap();
    assert_eq!(
        sub_fixed_size_list_get(&arr, &index, false),
        Ok(vec![AnyValue::Int(1), AnyValue::Int(4), AnyValue::Null])
    );
    assert_eq!(
        sub_fixed_size_list_get_indexes_literal(3, 2, -2),
        vec![Some(1), Some(4)]
    );
    assert_eq!(
        sub_fixed_size_list_get_indexes(3, 2, &PrimitiveArray::from_values(vec![2i64, -3])),
        vec![Some(2), Some(3)]
    );
    assert_eq!(negative_to_usize(-1, 5), Some(4));
    assert_eq!(negative_to_usize(5, 5), None);
    assert_eq!(negative_to_usize(i64::MIN, 5), None);
    assert!(FixedSizeListArray::try_new(0, Vec::new()).is_none());
    assert!(FixedSizeListArray::try_new(4, int(&[1, 2])).is_none());
}

#[test]
fn filtering_a_frame_without_columns() {
    let mask = |v: &[Option<bool>]| BooleanChunked::new(v.to_vec());
    let h = |r: ApolloResult<DataFrame>| r.map(|f| (f.height(), f.width()));
    assert_eq!(h(filter_zero_width(5, &mask(&[Some(true)]))), Ok((5, 0)));
    assert_eq!(h(filter_zero_width(5, &mask(&[Some(false)]))), Ok((0, 0)));
    assert_eq!(h(filter_zero_width(5, &mask(&[None]))), Ok((0, 0)));
    assert_eq!(
        h(filter_zero_width(3, &mask(&[Some(true), None, Some(true)]))),
        Ok((2, 0))
    );
    assert_eq!(h(filter_zero_width(0, &mask(&[]))), Ok((0, 0)));
    assert_eq!(
        h(filter_zero_width(3, &mask(&[Some(true), Some(true)]))),
        Err(ApolloError::ShapeMismatch(
            "cannot filter DataFrame of height 3 with mask of length 2".to_string()
        ))
    );
}

#[test]
fn frames_from_struct_arrays() {
    let arr = || StructArray {
        fields: vec![Field::new("a", DataType::Int8), Field::new("b", DataType::String)],
        height: 2,
        arrays: vec![
            vec![AnyValue::Int(1), AnyValue::Null],
            vec![AnyValue::String("x".to_string()), AnyValue::String("y".to_string())],
        ],
        validity: None,
    };
    let f = DataFrame::try_from(arr()).unwrap();
    assert_eq!((f.height(), f.width()), (2, 2));
    assert_eq!(f.column_at(0).unwrap(), &ints("a", DataType::Int8, &[Some(1), None]));
    let mut nulls = arr();
    nulls.validity = Some(vec![true, true]);
    assert_eq!(
        DataFrame::try_from(nulls),
        Err(ApolloError::ComputeError(
            "cannot deserialize struct with nulls into a DataFrame".to_string()
        ))
    );
    let mut short = arr();
    short.height = 3;
    assert_eq!(
        DataFrame::try_from(short),
        Err(ApolloError::ShapeMismatch(
            "height of DataFrame (3) does not match length of column 'a' (2)".to_string()
        ))
    );
    let mut misfit = arr();
    misfit.arrays[1][0] = AnyValue::Int(3);
    assert_eq!(
        DataFrame::try_from(misfit),
        Err(ApolloError::SchemaMismatch("value does not fit column of type str".to_string()))
    );
    let mut fewer = arr();
    fewer.arrays.pop();
    assert_eq!(DataFrame::try_from(fewer).unwrap().width(), 1);
}
