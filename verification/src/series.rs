//! Values, named typed columns and frames of equally long columns.

use vstd::prelude::*;
use vstd::string::*;
use crate::datatypes::DataType;
use crate::datatypes::DataTypeView;
use crate::datatypes::dtype_name;
use crate::error::ApolloError;
use crate::error::ApolloResult;
use crate::error::ErrorKind;
use crate::error::ErrorView;
use crate::text::decimal;
use crate::text::push_decimal;

verus! {

/// One value of a column.
#[derive(Debug, PartialEq, Eq)]
pub enum AnyValue {
    Null,
    Boolean(bool),
    /// A value of a signed integer type or of a temporal type.
    Int(i64),
    /// A value of an unsigned integer type.
    UInt(u64),
    String(String),
    Binary(Vec<u8>),
}

/// The mathematical value of an [`AnyValue`].
pub enum AnyValueView {
    Null,
    Boolean(bool),
    Int(int),
    UInt(int),
    String(Seq<char>),
    Binary(Seq<u8>),
}

impl View for AnyValue {
    type V = AnyValueView;

    open spec fn view(&self) -> AnyValueView {
        match self {
            AnyValue::Null => AnyValueView::Null,
            AnyValue::Boolean(b) => AnyValueView::Boolean(*b),
            AnyValue::Int(x) => AnyValueView::Int(*x as int),
            AnyValue::UInt(x) => AnyValueView::UInt(*x as int),
            AnyValue::String(s) => AnyValueView::String(s@),
            AnyValue::Binary(b) => AnyValueView::Binary(b@),
        }
    }
}

impl Clone for AnyValue {
    fn clone(&self) -> (r: Self)
        ensures
            r@ == self@,
    {
        match self {
            AnyValue::Null => AnyValue::Null,
            AnyValue::Boolean(b) => AnyValue::Boolean(*b),
            AnyValue::Int(x) => AnyValue::Int(*x),
            AnyValue::UInt(x) => AnyValue::UInt(*x),
            AnyValue::String(s) => AnyValue::String(s.clone()),
            AnyValue::Binary(b) => {
                let mut out: Vec<u8> = Vec::new();
                let mut i: usize = 0;
                while i < b.len()
                    invariant
                        i <= b.len(),
                        out@ == b@.subrange(0, i as int),
                    decreases b.len() - i,
                {
                    out.push(b[i]);
                    assert(out@ =~= b@.subrange(0, i + 1));
                    i += 1;
                }
                assert(out@ =~= b@);
                AnyValue::Binary(out)
            },
        }
    }
}

/// The least value of a signed or temporal type, where it has one.
pub open spec fn least_signed(dt: DataTypeView) -> Option<int> {
    match dt {
        DataTypeView::Int8 => Some(-0x80),
        DataTypeView::Int16 => Some(-0x8000),
        DataTypeView::Int32 => Some(-0x8000_0000),
        DataTypeView::Int64 => Some(-0x8000_0000_0000_0000),
        DataTypeView::Date => Some(-0x8000_0000),
        DataTypeView::Datetime(_) => Some(-0x8000_0000_0000_0000),
        DataTypeView::Duration(_) => Some(-0x8000_0000_0000_0000),
        DataTypeView::Time => Some(-0x8000_0000_0000_0000),
        _ => None,
    }
}

/// The greatest value of an unsigned type, where it is one.
pub open spec fn greatest_unsigned(dt: DataTypeView) -> Option<int> {
    match dt {
        DataTypeView::UInt8 => Some(0xff),
        DataTypeView::UInt16 => Some(0xffff),
        DataTypeView::UInt32 => Some(0xffff_ffff),
        DataTypeView::UInt64 => Some(0xffff_ffff_ffff_ffff),
        _ => None,
    }
}

/// Whether a column of type `dt` can hold `v`.
///
/// Every type holds the null value. Floating-point and nested types hold
/// nothing else here.
pub open spec fn value_fits(dt: DataTypeView, v: AnyValueView) -> bool {
    match v {
        AnyValueView::Null => true,
        AnyValueView::Boolean(_) => dt is Boolean,
        AnyValueView::Int(x) => match least_signed(dt) {
            Some(lo) => lo <= x < -lo,
            None => false,
        },
        AnyValueView::UInt(x) => match greatest_unsigned(dt) {
            Some(hi) => 0 <= x <= hi,
            None => false,
        },
        AnyValueView::String(_) => dt is String,
        AnyValueView::Binary(_) => dt is Binary,
    }
}

/// Every value of `values` fits `dt`.
pub open spec fn all_fit(dt: DataTypeView, values: Seq<AnyValueView>) -> bool {
    forall|i: int| 0 <= i < values.len() ==> value_fits(dt, #[trigger] values[i])
}

/// The views of a sequence of values.
pub open spec fn values_view(values: Seq<AnyValue>) -> Seq<AnyValueView> {
    Seq::new(values.len(), |i: int| values[i]@)
}

fn lower_bound_of(dt: &DataType) -> (r: Option<i64>)
    ensures
        match r {
            Some(lo) => least_signed(dt@) == Some(lo as int),
            None => least_signed(dt@) is None,
        },
{
    match dt {
        DataType::Int8 => Some(-0x80),
        DataType::Int16 => Some(-0x8000),
        DataType::Int32 => Some(-0x8000_0000),
        DataType::Int64 => Some(i64::MIN),
        DataType::Date => Some(-0x8000_0000),
        DataType::Datetime(_) => Some(i64::MIN),
        DataType::Duration(_) => Some(i64::MIN),
        DataType::Time => Some(i64::MIN),
        _ => None,
    }
}

fn upper_bound_of(dt: &DataType) -> (r: Option<u64>)
    ensures
        match r {
            Some(hi) => greatest_unsigned(dt@) == Some(hi as int),
            None => greatest_unsigned(dt@) is None,
        },
{
    match dt {
        DataType::UInt8 => Some(0xff),
        DataType::UInt16 => Some(0xffff),
        DataType::UInt32 => Some(0xffff_ffff),
        DataType::UInt64 => Some(u64::MAX),
        _ => None,
    }
}

/// Whether a column of type `dt` can hold `v`.
pub fn fits(dt: &DataType, v: &AnyValue) -> (r: bool)
    ensures
        r == value_fits(dt@, v@),
{
    match v {
        AnyValue::Null => true,
        AnyValue::Boolean(_) => matches!(dt, DataType::Boolean),
        AnyValue::Int(x) => match lower_bound_of(dt) {
            Some(lo) => lo <= *x && (lo == i64::MIN || *x < -lo),
            None => false,
        },
        AnyValue::UInt(x) => match upper_bound_of(dt) {
            Some(hi) => *x <= hi,
            None => false,
        },
        AnyValue::String(_) => matches!(dt, DataType::String),
        AnyValue::Binary(_) => matches!(dt, DataType::Binary),
    }
}

/// How many of the first `upto` values are null.
pub open spec fn count_nulls(values: Seq<AnyValueView>, upto: int) -> nat
    decreases upto,
{
    if upto <= 0 {
        0
    } else {
        count_nulls(values, upto - 1) + if values[upto - 1] is Null {
            1nat
        } else {
            0nat
        }
    }
}

/// The mathematical value of a [`Series`].
pub struct SeriesView {
    pub name: Seq<char>,
    pub dtype: DataTypeView,
    pub values: Seq<AnyValueView>,
}

/// A named column: a type and the values, each of which fits the type.
#[derive(Debug, PartialEq, Eq)]
pub struct Series {
    name: String,
    dtype: DataType,
    values: Vec<AnyValue>,
}

/// A column of a frame.
pub type Column = Series;

impl View for Series {
    type V = SeriesView;

    closed spec fn view(&self) -> SeriesView {
        SeriesView { name: self.name@, dtype: self.dtype@, values: values_view(self.values@) }
    }
}

/// The message of the error for a value that its column's type cannot hold.
pub open spec fn misfit_message(dt: DataTypeView) -> Seq<char> {
    "value does not fit column of type "@ + dtype_name(dt)
}

/// The position of the first value that does not fit `dt`, if there is one.
pub open spec fn first_misfit(dt: DataTypeView, values: Seq<AnyValueView>, upto: int) -> Option<int>
    decreases upto,
{
    if upto <= 0 {
        None
    } else {
        match first_misfit(dt, values, upto - 1) {
            Some(i) => Some(i),
            None => if value_fits(dt, values[upto - 1]) {
                None
            } else {
                Some(upto - 1)
            },
        }
    }
}

pub proof fn lemma_first_misfit(dt: DataTypeView, values: Seq<AnyValueView>, upto: int)
    requires
        0 <= upto <= values.len(),
    ensures
        first_misfit(dt, values, upto) is None <==> all_fit(dt, values.subrange(0, upto)),
    decreases upto,
{
    if upto > 0 {
        lemma_first_misfit(dt, values, upto - 1);
        let a = values.subrange(0, upto - 1);
        let b = values.subrange(0, upto);
        if first_misfit(dt, values, upto) is None {
            assert forall|i: int| 0 <= i < b.len() implies value_fits(dt, #[trigger] b[i]) by {
                if i < upto - 1 {
                    assert(b[i] == a[i]);
                }
            }
        } else {
            if all_fit(dt, b) {
                assert forall|i: int| 0 <= i < a.len() implies value_fits(dt, #[trigger] a[i]) by {
                    assert(a[i] == b[i]);
                }
                assert(value_fits(dt, b[upto - 1]));
            }
        }
    }
}

impl Series {
    #[verifier::type_invariant]
    closed spec fn wf(self) -> bool {
        all_fit(self.dtype@, values_view(self.values@))
    }

    /// A column of the given name, type and values. It is an error for a
    /// value not to fit the type.
    pub fn new(name: &str, dtype: DataType, values: Vec<AnyValue>) -> (r: ApolloResult<Series>)
        ensures
            match r {
                Ok(s) => all_fit(dtype@, values_view(values@)) && s@ == (SeriesView {
                    name: name@,
                    dtype: dtype@,
                    values: values_view(values@),
                }),
                Err(e) => !all_fit(dtype@, values_view(values@)) && e@ == ErrorView::Simple(
                    ErrorKind::SchemaMismatch,
                    misfit_message(dtype@),
                ),
            },
    {
        let ghost vs = values_view(values@);
        let mut i: usize = 0;
        while i < values.len()
            invariant
                i <= values.len(),
                vs == values_view(values@),
                first_misfit(dtype@, vs, i as int) is None,
            decreases values.len() - i,
        {
            if !fits(&dtype, &values[i]) {
                proof {
                    lemma_first_misfit(dtype@, vs, i as int + 1);
                    assert(vs.subrange(0, i as int + 1)[i as int] == vs[i as int]);
                }
                let mut msg = String::from_str("value does not fit column of type ");
                dtype.push_name(&mut msg);
                return Err(ApolloError::SchemaMismatch(msg));
            }
            i += 1;
        }
        proof {
            lemma_first_misfit(dtype@, vs, vs.len() as int);
            assert(vs.subrange(0, vs.len() as int) =~= vs);
        }
        Ok(Series { name: String::from_str(name), dtype, values })
    }

    /// A column of the given name, type and values, each of which the
    /// caller has shown to fit the type.
    pub fn from_parts(name: String, dtype: DataType, values: Vec<AnyValue>) -> (s: Series)
        requires
            all_fit(dtype@, values_view(values@)),
        ensures
            s@ == (SeriesView { name: name@, dtype: dtype@, values: values_view(values@) }),
    {
        Series { name, dtype, values }
    }

    /// The values of the column.
    pub fn values(&self) -> (r: &Vec<AnyValue>)
        ensures
            values_view(r@) == self@.values,
            all_fit(self@.dtype, self@.values),
    {
        proof {
            use_type_invariant(self);
        }
        &self.values
    }

    /// A column of `len` null values.
    pub fn full_null(name: &str, dtype: DataType, len: usize) -> (s: Series)
        ensures
            s@ == (SeriesView {
                name: name@,
                dtype: dtype@,
                values: Seq::new(len as nat, |i: int| AnyValueView::Null),
            }),
    {
        let mut values: Vec<AnyValue> = Vec::new();
        let mut i: usize = 0;
        while i < len
            invariant
                i <= len,
                values@.len() == i,
                forall|k: int| 0 <= k < i ==> values@[k]@ == AnyValueView::Null,
            decreases len - i,
        {
            values.push(AnyValue::Null);
            i += 1;
        }
        let s = Series { name: String::from_str(name), dtype, values };
        assert(s@.values =~= Seq::new(len as nat, |i: int| AnyValueView::Null));
        s
    }

    /// The column's name.
    pub fn name(&self) -> (r: &String)
        ensures
            r@ == self@.name,
    {
        &self.name
    }

    /// The column's type. Every value of the column fits it.
    pub fn dtype(&self) -> (r: &DataType)
        ensures
            r@ == self@.dtype,
            all_fit(self@.dtype, self@.values),
    {
        proof {
            use_type_invariant(self);
        }
        &self.dtype
    }

    /// The number of values.
    pub fn len(&self) -> (n: usize)
        ensures
            n == self@.values.len(),
    {
        self.values.len()
    }

    /// The value at position `i`.
    pub fn get(&self, i: usize) -> (r: Option<&AnyValue>)
        ensures
            match r {
                Some(v) => i < self@.values.len() && v@ == self@.values[i as int] && value_fits(
                    self@.dtype,
                    v@,
                ),
                None => i >= self@.values.len(),
            },
    {
        proof {
            use_type_invariant(self);
        }
        if i < self.values.len() {
            Some(&self.values[i])
        } else {
            None
        }
    }

    /// The number of null values.
    pub fn null_count(&self) -> (n: usize)
        ensures
            n == count_nulls(self@.values, self@.values.len() as int),
    {
        let mut n: usize = 0;
        let mut i: usize = 0;
        while i < self.values.len()
            invariant
                i <= self.values.len(),
                n <= i,
                n == count_nulls(self@.values, i as int),
            decreases self.values.len() - i,
        {
            if matches!(self.values[i], AnyValue::Null) {
                n += 1;
            }
            i += 1;
        }
        n
    }

    /// Gives the column another name.
    pub fn rename(&mut self, name: &str)
        ensures
            final(self)@ == (SeriesView { name: name@, ..old(self)@ }),
    {
        proof {
            use_type_invariant(&*self);
        }
        self.name = String::from_str(name);
    }

    /// The same column under another name.
    pub fn with_name(self, name: &str) -> (r: Series)
        ensures
            r@ == (SeriesView { name: name@, ..self@ }),
    {
        let mut s = self;
        s.rename(name);
        s
    }
}

impl Clone for Series {
    fn clone(&self) -> (r: Self)
        ensures
            r@ == self@,
    {
        proof {
            use_type_invariant(self);
        }
        let mut values: Vec<AnyValue> = Vec::new();
        let mut i: usize = 0;
        while i < self.values.len()
            invariant
                i <= self.values.len(),
                values@.len() == i,
                forall|k: int| 0 <= k < i ==> values@[k]@ == self.values@[k]@,
            decreases self.values.len() - i,
        {
            values.push(self.values[i].clone());
            i += 1;
        }
        assert(values_view(values@) =~= values_view(self.values@));
        Series { name: self.name.clone(), dtype: self.dtype.duplicate(), values }
    }
}

/// The values of `values` at the positions where `mask` holds `true`, in order.
pub open spec fn filter_seq<T>(values: Seq<T>, mask: Seq<Option<bool>>) -> Seq<T>
    decreases values.len(),
{
    if values.len() == 0 || mask.len() == 0 {
        Seq::empty()
    } else if mask.last() == Some(true) {
        filter_seq(values.drop_last(), mask.drop_last()).push(values.last())
    } else {
        filter_seq(values.drop_last(), mask.drop_last())
    }
}

/// The number of positions at which `mask` holds `true`.
pub open spec fn count_trues(mask: Seq<Option<bool>>) -> nat
    decreases mask.len(),
{
    if mask.len() == 0 {
        0
    } else {
        count_trues(mask.drop_last()) + if mask.last() == Some(true) {
            1nat
        } else {
            0nat
        }
    }
}

/// Filtering keeps as many values as the mask holds `true`.
pub proof fn lemma_filter_len<T>(values: Seq<T>, mask: Seq<Option<bool>>)
    requires
        values.len() == mask.len(),
    ensures
        filter_seq(values, mask).len() == count_trues(mask),
        count_trues(mask) <= mask.len(),
    decreases values.len(),
{
    if values.len() > 0 {
        lemma_filter_len(values.drop_last(), mask.drop_last());
    }
}

/// Filtering two runs of values one after the other gives what filtering
/// them as one run gives.
pub proof fn lemma_filter_concat<T>(
    a: Seq<T>,
    ma: Seq<Option<bool>>,
    b: Seq<T>,
    mb: Seq<Option<bool>>,
)
    requires
        a.len() == ma.len(),
        b.len() == mb.len(),
    ensures
        filter_seq(a + b, ma + mb) == filter_seq(a, ma) + filter_seq(b, mb),
    decreases b.len(),
{
    if b.len() == 0 {
        assert(a + b =~= a);
        assert(ma + mb =~= ma);
        assert(filter_seq(b, mb) =~= Seq::<T>::empty());
        assert(filter_seq(a, ma) + filter_seq(b, mb) =~= filter_seq(a, ma));
    } else {
        lemma_filter_concat(a, ma, b.drop_last(), mb.drop_last());
        assert((a + b).drop_last() =~= a + b.drop_last());
        assert((ma + mb).drop_last() =~= ma + mb.drop_last());
        assert((a + b).last() == b.last());
        assert((ma + mb).last() == mb.last());
        if mb.last() == Some(true) {
            assert(filter_seq(a, ma) + filter_seq(b.drop_last(), mb.drop_last()).push(b.last())
                =~= (filter_seq(a, ma) + filter_seq(b.drop_last(), mb.drop_last())).push(
                b.last(),
            ));
        }
    }
}

/// A column of booleans, each of which may be null.
#[derive(Debug, PartialEq, Eq)]
pub struct BooleanChunked {
    pub values: Vec<Option<bool>>,
}

impl View for BooleanChunked {
    type V = Seq<Option<bool>>;

    open spec fn view(&self) -> Seq<Option<bool>> {
        self.values@
    }
}

impl BooleanChunked {
    /// The column of the given values.
    pub fn new(values: Vec<Option<bool>>) -> (r: BooleanChunked)
        ensures
            r@ == values@,
    {
        BooleanChunked { values }
    }

    /// The number of values.
    pub fn len(&self) -> (n: usize)
        ensures
            n == self@.len(),
    {
        self.values.len()
    }

    /// The value at position `i`; `None` for a null and for a position
    /// past the end.
    pub fn get(&self, i: usize) -> (r: Option<bool>)
        ensures
            r == if i < self@.len() {
                self@[i as int]
            } else {
                None
            },
    {
        if i < self.values.len() {
            self.values[i]
        } else {
            None
        }
    }

    /// The number of values that are `true`.
    pub fn num_trues(&self) -> (n: usize)
        ensures
            n == count_trues(self@),
    {
        let mut n: usize = 0;
        let mut i: usize = 0;
        while i < self.values.len()
            invariant
                i <= self.values.len(),
                n <= i,
                n == count_trues(self@.subrange(0, i as int)),
            decreases self.values.len() - i,
        {
            proof {
                assert(self@.subrange(0, i as int + 1).drop_last() =~= self@.subrange(0, i as int));
            }
            match self.values[i] {
                Some(true) => {
                    n += 1;
                },
                _ => {},
            }
            i += 1;
        }
        proof {
            assert(self@.subrange(0, i as int) =~= self@);
        }
        n
    }
}

/// The boolean that a value of a boolean column stands for.
pub open spec fn as_bool(v: AnyValueView) -> Option<bool> {
    match v {
        AnyValueView::Boolean(b) => Some(b),
        _ => None,
    }
}

/// The message of the error for a column that is not of the expected type.
pub open spec fn wrong_dtype_message(expected: Seq<char>, got: DataTypeView) -> Seq<char> {
    "invalid series dtype: expected `"@ + expected + "`, got `"@ + dtype_name(got) + "`"@
}

/// The message of the error for two lengths that should be equal.
pub open spec fn length_mismatch_message(what: Seq<char>, a: nat, b: nat) -> Seq<char> {
    what + decimal(a) + " != "@ + decimal(b)
}

impl Series {
    /// The column as a column of booleans. It is an error for the column
    /// to be of another type.
    pub fn bool(&self) -> (r: ApolloResult<BooleanChunked>)
        ensures
            match r {
                Ok(b) => self@.dtype is Boolean && b@ == Seq::new(
                    self@.values.len(),
                    |i: int| as_bool(self@.values[i]),
                ),
                Err(e) => !(self@.dtype is Boolean) && e@ == ErrorView::Simple(
                    ErrorKind::SchemaMismatch,
                    wrong_dtype_message("Boolean"@, self@.dtype),
                ),
            },
    {
        if !matches!(self.dtype, DataType::Boolean) {
            let mut msg = String::from_str("invalid series dtype: expected `");
            msg.append("Boolean");
            msg.append("`, got `");
            self.dtype.push_name(&mut msg);
            msg.append("`");
            assert(msg@ =~= wrong_dtype_message("Boolean"@, self@.dtype));
            return Err(ApolloError::SchemaMismatch(msg));
        }
        let mut out: Vec<Option<bool>> = Vec::new();
        let mut i: usize = 0;
        while i < self.values.len()
            invariant
                i <= self.values.len(),
                out@.len() == i,
                forall|k: int| 0 <= k < i ==> out@[k] == as_bool(self.values@[k]@),
            decreases self.values.len() - i,
        {
            let b = match &self.values[i] {
                AnyValue::Boolean(b) => Some(*b),
                _ => None,
            };
            out.push(b);
            i += 1;
        }
        assert(out@ =~= Seq::new(self@.values.len(), |i: int| as_bool(self@.values[i])));
        Ok(BooleanChunked { values: out })
    }

    /// The values at the positions where `mask` holds `true`, under the
    /// column's name and type. It is an error for the mask to be of
    /// another length than the column.
    pub fn filter(&self, mask: &BooleanChunked) -> (r: ApolloResult<Series>)
        ensures
            match r {
                Ok(s) => mask@.len() == self@.values.len() && s@ == (SeriesView {
                    values: filter_seq(self@.values, mask@),
                    ..self@
                }),
                Err(e) => mask@.len() != self@.values.len() && e@ == ErrorView::Simple(
                    ErrorKind::ShapeMismatch,
                    length_mismatch_message(
                        "filter's length differs from that of the series: "@,
                        mask@.len(),
                        self@.values.len(),
                    ),
                ),
            },
    {
        proof {
            use_type_invariant(self);
        }
        if mask.values.len() != self.values.len() {
            let mut msg = String::from_str("filter's length differs from that of the series: ");
            push_decimal(&mut msg, mask.values.len());
            msg.append(" != ");
            push_decimal(&mut msg, self.values.len());
            assert(msg@ =~= length_mismatch_message(
                "filter's length differs from that of the series: "@,
                mask@.len(),
                self@.values.len(),
            ));
            return Err(ApolloError::ShapeMismatch(msg));
        }
        let ghost all = values_view(self.values@);
        let mut out: Vec<AnyValue> = Vec::new();
        let mut i: usize = 0;
        while i < self.values.len()
            invariant
                i <= self.values.len(),
                mask.values@.len() == self.values@.len(),
                all == values_view(self.values@),
                all_fit(self.dtype@, all),
                values_view(out@) == filter_seq(all.subrange(0, i as int), mask@.subrange(0, i as int)),
                all_fit(self.dtype@, values_view(out@)),
            decreases self.values.len() - i,
        {
            proof {
                assert(all.subrange(0, i as int + 1).drop_last() =~= all.subrange(0, i as int));
                assert(mask@.subrange(0, i as int + 1).drop_last() =~= mask@.subrange(0, i as int));
            }
            let ghost before = values_view(out@);
            match mask.values[i] {
                Some(true) => {
                    out.push(self.values[i].clone());
                    assert(values_view(out@) =~= before.push(all[i as int]));
                },
                _ => {},
            }
            i += 1;
        }
        proof {
            assert(all.subrange(0, i as int) =~= all);
            assert(mask@.subrange(0, i as int) =~= mask@);
        }
        Ok(Series { name: self.name.clone(), dtype: self.dtype.duplicate(), values: out })
    }

    /// The `len` values from position `offset` on, or as many as there
    /// are, under the column's name and type.
    pub fn slice(&self, offset: usize, len: usize) -> (r: Series)
        ensures
            r@ == (SeriesView { values: slice_seq(self@.values, offset as nat, len as nat), ..self@ }),
    {
        proof {
            use_type_invariant(self);
        }
        let n = self.values.len();
        let start = if offset < n {
            offset
        } else {
            n
        };
        let end = if len < n - start {
            start + len
        } else {
            n
        };
        let ghost all = values_view(self.values@);
        let mut out: Vec<AnyValue> = Vec::new();
        let mut i: usize = start;
        while i < end
            invariant
                start <= i <= end <= self.values.len(),
                all == values_view(self.values@),
                values_view(out@) == all.subrange(start as int, i as int),
            decreases end - i,
        {
            let ghost before = values_view(out@);
            out.push(self.values[i].clone());
            assert(values_view(out@) =~= before.push(all[i as int]));
            assert(all.subrange(start as int, i as int + 1) =~= all.subrange(
                start as int,
                i as int,
            ).push(all[i as int]));
            i += 1;
        }
        assert(values_view(out@) =~= slice_seq(all, offset as nat, len as nat));
        Series { name: self.name.clone(), dtype: self.dtype.duplicate(), values: out }
    }

    /// Puts the values of `other` behind the column's own. It is an error
    /// for `other` to be of another type; the column is then unchanged.
    pub fn append(&mut self, other: &Series) -> (r: ApolloResult<()>)
        ensures
            match r {
                Ok(_) => other@.dtype == old(self)@.dtype && final(self)@ == (SeriesView {
                    values: old(self)@.values + other@.values,
                    ..old(self)@
                }),
                Err(e) => other@.dtype != old(self)@.dtype && final(self)@ == old(self)@ && e@
                    == ErrorView::Simple(
                    ErrorKind::SchemaMismatch,
                    "cannot append series, data types don't match"@,
                ),
            },
    {
        proof {
            use_type_invariant(&*self);
            use_type_invariant(other);
        }
        if !self.dtype.same(&other.dtype) {
            return Err(
                ApolloError::SchemaMismatch(
                    String::from_str("cannot append series, data types don't match"),
                ),
            );
        }
        let mut values: Vec<AnyValue> = Vec::new();
        core::mem::swap(&mut values, &mut self.values);
        let ghost mine = values_view(values@);
        let ghost theirs = values_view(other.values@);
        let mut i: usize = 0;
        while i < other.values.len()
            invariant
                i <= other.values.len(),
                theirs == values_view(other.values@),
                values_view(values@) == mine + theirs.subrange(0, i as int),
            decreases other.values.len() - i,
        {
            let ghost before = values_view(values@);
            values.push(other.values[i].clone());
            assert(values_view(values@) =~= before.push(theirs[i as int]));
            assert(mine + theirs.subrange(0, i as int + 1) =~= (mine + theirs.subrange(
                0,
                i as int,
            )).push(theirs[i as int]));
            i += 1;
        }
        proof {
            assert(theirs.subrange(0, i as int) =~= theirs);
            assert forall|k: int| 0 <= k < (mine + theirs).len() implies value_fits(
                self.dtype@,
                #[trigger] (mine + theirs)[k],
            ) by {
                if k < mine.len() {
                    assert((mine + theirs)[k] == mine[k]);
                } else {
                    assert((mine + theirs)[k] == theirs[k - mine.len()]);
                }
            }
        }
        self.values = values;
        Ok(())
    }
}

/// The `len` values of `values` from position `offset` on, or as many as
/// there are.
pub open spec fn slice_seq<T>(values: Seq<T>, offset: nat, len: nat) -> Seq<T> {
    let start = if offset < values.len() {
        offset
    } else {
        values.len()
    };
    let end = if len < values.len() - start {
        start + len
    } else {
        values.len()
    };
    values.subrange(start as int, end as int)
}

} // verus!
