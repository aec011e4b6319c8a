//! Folding the columns of a row-wise expression with a function of the
//! caller: `fold`, `reduce` and their cumulative forms.

use vstd::prelude::*;
use vstd::string::*;
use crate::cast::cast;
use crate::cast::cast_supported;
use crate::cast::cast_unsupported_message;
use crate::cast::no_supertype_message;
use crate::cast::spec_cast;
use crate::cast::supertype;
use crate::cast::try_get_supertype;
use crate::datatypes::dtype_name;
use crate::datatypes::DataType;
use crate::datatypes::DataTypeView;
use crate::error::ApolloError;
use crate::error::ApolloResult;
use crate::error::ErrorKind;
use crate::error::ErrorView;
use crate::frame::columns_view;
use crate::frame::frame_error;
use crate::frame::frame_wf;
use crate::frame::DataFrame;
use crate::frame::DataFrameView;
use crate::series::Column;
use crate::series::Series;
use crate::series::SeriesView;
use crate::text::decimal;
use crate::text::push_decimal;

verus! {

/// What is asked of each value that the caller's function returns.
pub struct StepRule {
    /// The operation's name, for messages.
    pub op: Seq<char>,
    /// Whether the function is said to return one value.
    pub returns_scalar: bool,
    /// The type that the function is said to return, if one was given.
    pub return_dtype: Option<DataTypeView>,
    /// The type that the result is brought to.
    pub output_dtype: DataTypeView,
}

/// The message of the error for a result that should have one value.
pub open spec fn not_scalar_message(op: Seq<char>, len: nat) -> Seq<char> {
    "`"@ + op + "` is said to return scalar but returned "@ + decimal(len) + " elements"@
}

/// The message of the error for a result of another type than was given.
pub open spec fn wrong_return_dtype_message(op: Seq<char>, given: DataTypeView, got: DataTypeView) -> Seq<
    char,
> {
    "`"@ + op + "` did not return given return_dtype ("@ + dtype_name(given) + " != "@
        + dtype_name(got) + ")"@
}

/// What becomes of a value that the caller's function returned.
///
/// It is an error for it not to hold exactly one value where the function
/// is said to return a scalar, and else for it not to be of the return type
/// where one was given. Else it is cast to the output type, unless it is of
/// that type already; a cast that is not supported is an error.
pub open spec fn spec_check_step(acc: SeriesView, rule: StepRule) -> Result<SeriesView, ErrorView> {
    if rule.returns_scalar && acc.values.len() != 1 {
        Err(
            ErrorView::Simple(
                ErrorKind::InvalidOperation,
                not_scalar_message(rule.op, acc.values.len()),
            ),
        )
    } else if rule.return_dtype is Some && rule.return_dtype != Some(acc.dtype) {
        Err(
            ErrorView::Simple(
                ErrorKind::ComputeError,
                wrong_return_dtype_message(rule.op, rule.return_dtype.unwrap(), acc.dtype),
            ),
        )
    } else if acc.dtype == rule.output_dtype {
        Ok(acc)
    } else if cast_supported(acc.dtype, rule.output_dtype) {
        Ok(spec_cast(acc, rule.output_dtype))
    } else {
        Err(
            ErrorView::Simple(
                ErrorKind::InvalidOperation,
                cast_unsupported_message(acc.dtype, rule.output_dtype),
            ),
        )
    }
}

/// The view of a type that may be absent.
pub open spec fn opt_dtype_view(o: Option<&DataType>) -> Option<DataTypeView> {
    match o {
        Some(d) => Some(d@),
        None => None,
    }
}

/// The view of a column or of the error in its place.
pub open spec fn result_view(r: ApolloResult<Series>) -> Result<SeriesView, ErrorView> {
    match r {
        Ok(s) => Ok(s@),
        Err(e) => Err(e@),
    }
}

/// Checks a value that the caller's function returned and brings it to
/// the output type.
pub fn check_step(
    acc: Series,
    op: &str,
    returns_scalar: bool,
    return_dtype: Option<&DataType>,
    output_dtype: &DataType,
) -> (r: ApolloResult<Series>)
    ensures
        result_view(r) == spec_check_step(
            acc@,
            StepRule {
                op: op@,
                returns_scalar,
                return_dtype: opt_dtype_view(return_dtype),
                output_dtype: output_dtype@,
            },
        ),
{
    if returns_scalar && acc.len() != 1 {
        let mut msg = String::from_str("`");
        msg.append(op);
        msg.append("` is said to return scalar but returned ");
        push_decimal(&mut msg, acc.len());
        msg.append(" elements");
        assert(msg@ =~= not_scalar_message(op@, acc@.values.len()));
        return Err(ApolloError::InvalidOperation(msg));
    }
    match return_dtype {
        Some(dt) => {
            if !dt.same(acc.dtype()) {
                let mut msg = String::from_str("`");
                msg.append(op);
                msg.append("` did not return given return_dtype (");
                dt.push_name(&mut msg);
                msg.append(" != ");
                acc.dtype().push_name(&mut msg);
                msg.append(")");
                assert(msg@ =~= wrong_return_dtype_message(op@, dt@, acc@.dtype));
                return Err(ApolloError::ComputeError(msg));
            }
        },
        None => {},
    }
    if !acc.dtype().same(output_dtype) {
        return cast(&acc, output_dtype);
    }
    Ok(acc)
}

/// `out` is a possible outcome of folding `rest` into `acc`, from left to
/// right, with the caller's function: each call is made with the
/// accumulator so far and the next column; the first call that fails ends
/// the fold with its error.
pub open spec fn fold_outcome<F: Fn(Series, Series) -> ApolloResult<Series>>(
    callback: F,
    acc: SeriesView,
    rest: Seq<SeriesView>,
    out: Result<SeriesView, ErrorView>,
) -> bool
    decreases rest.len(),
{
    if rest.len() == 0 {
        out == Ok::<SeriesView, ErrorView>(acc)
    } else {
        exists|a: Series, b: Series, r: ApolloResult<Series>|
            a@ == acc && b@ == rest[0] && #[trigger] call_ensures(callback, (a, b), r) && match r {
                Err(e) => out == Err::<SeriesView, ErrorView>(e@),
                Ok(next) => fold_outcome(callback, next@, rest.drop_first(), out),
            }
    }
}

proof fn lemma_fold_step<F: Fn(Series, Series) -> ApolloResult<Series>>(
    callback: F,
    a: Series,
    b: Series,
    r: ApolloResult<Series>,
    rest: Seq<SeriesView>,
    out: Result<SeriesView, ErrorView>,
)
    requires
        rest.len() > 0,
        b@ == rest[0],
        call_ensures(callback, (a, b), r),
        match r {
            Err(e) => out == Err::<SeriesView, ErrorView>(e@),
            Ok(next) => fold_outcome(callback, next@, rest.drop_first(), out),
        },
    ensures
        fold_outcome(callback, a@, rest, out),
{
}

/// The rule that `fold` holds the final value to.
pub open spec fn fold_rule(
    first: DataTypeView,
    returns_scalar: bool,
    return_dtype: Option<DataTypeView>,
) -> StepRule {
    StepRule {
        op: "fold"@,
        returns_scalar,
        return_dtype,
        output_dtype: match return_dtype {
            Some(d) => d,
            None => first,
        },
    }
}

/// What a fold or a reduce returns, given how folding the columns ended.
pub open spec fn finish(raw: Result<SeriesView, ErrorView>, rule: StepRule) -> Result<
    SeriesView,
    ErrorView,
> {
    match raw {
        Err(e) => Err(e),
        Ok(acc) => spec_check_step(acc, rule),
    }
}

fn run_fold<F: Fn(Series, Series) -> ApolloResult<Series>>(c: &Vec<Column>, callback: &F) -> (r:
    ApolloResult<Series>)
    requires
        c@.len() > 0,
        forall|a: Series, b: Series| call_requires(*callback, (a, b)),
    ensures
        fold_outcome(*callback, c@[0]@, columns_view(c@).drop_first(), result_view(r)),
{
    let ghost cols = columns_view(c@);
    let mut acc = c[0].clone();
    let mut i: usize = 1;
    while i < c.len()
        invariant
            1 <= i <= c.len(),
            cols == columns_view(c@),
            forall|a: Series, b: Series| call_requires(*callback, (a, b)),
            forall|out: Result<SeriesView, ErrorView>| #[trigger]
                fold_outcome(*callback, acc@, cols.subrange(i as int, cols.len() as int), out)
                    ==> fold_outcome(*callback, c@[0]@, cols.drop_first(), out),
        decreases c.len() - i,
    {
        let a = acc.clone();
        let b = c[i].clone();
        let ghost rest = cols.subrange(i as int, cols.len() as int);
        let res = callback(a, b);
        proof {
            assert(rest.drop_first() =~= cols.subrange(i as int + 1, cols.len() as int));
            assert(b@ == rest[0]);
        }
        match res {
            Ok(next) => {
                proof {
                    assert forall|out: Result<SeriesView, ErrorView>| #[trigger]
                        fold_outcome(
                            *callback,
                            next@,
                            cols.subrange(i as int + 1, cols.len() as int),
                            out,
                        ) implies fold_outcome(*callback, c@[0]@, cols.drop_first(), out) by {
                        lemma_fold_step(*callback, a, b, res, rest, out);
                    }
                }
                acc = next;
            },
            Err(e) => {
                proof {
                    lemma_fold_step(
                        *callback,
                        a,
                        b,
                        res,
                        rest,
                        Err::<SeriesView, ErrorView>(e@),
                    );
                }
                return Err(e);
            },
        }
        i += 1;
    }
    proof {
        assert(cols.subrange(i as int, cols.len() as int) =~= Seq::<SeriesView>::empty());
        assert(fold_outcome(
            *callback,
            acc@,
            cols.subrange(i as int, cols.len() as int),
            Ok::<SeriesView, ErrorView>(acc@),
        ));
    }
    Ok(acc)
}

/// Folds the columns from left to right with the caller's function,
/// starting from the first column.
///
/// The final value must hold exactly one value where the function is said
/// to return a scalar, and be of the return type where one was given. Where
/// none was given it is cast to the type of the first column.
pub fn fold<F: Fn(Series, Series) -> ApolloResult<Series>>(
    c: &Vec<Column>,
    callback: &F,
    returns_scalar: bool,
    return_dtype: Option<&DataType>,
) -> (r: ApolloResult<Column>)
    requires
        c@.len() > 0,
        forall|a: Series, b: Series| call_requires(*callback, (a, b)),
    ensures
        exists|raw: Result<SeriesView, ErrorView>| #[trigger]
            fold_outcome(*callback, c@[0]@, columns_view(c@).drop_first(), raw) && result_view(r)
                == finish(
                raw,
                fold_rule(c@[0]@.dtype, returns_scalar, opt_dtype_view(return_dtype)),
            ),
{
    let first_dtype = c[0].dtype().duplicate();
    let raw = run_fold(c, callback);
    let ghost raw_view = result_view(raw);
    match raw {
        Err(e) => Err(e),
        Ok(acc) => {
            let r = match return_dtype {
                Some(dt) => check_step(acc, "fold", returns_scalar, return_dtype, dt),
                None => check_step(acc, "fold", returns_scalar, return_dtype, &first_dtype),
            };
            assert(result_view(r) == finish(
                raw_view,
                fold_rule(c@[0]@.dtype, returns_scalar, opt_dtype_view(return_dtype)),
            ));
            r
        },
    }
}

/// The common type of the first `upto` of the given types, taken from
/// left to right, or the error of the first pair that has none.
pub open spec fn fold_supertype(dtypes: Seq<DataTypeView>, upto: int) -> Result<
    DataTypeView,
    ErrorView,
>
    decreases upto,
{
    if upto <= 1 {
        Ok(dtypes[0])
    } else {
        match fold_supertype(dtypes, upto - 1) {
            Err(e) => Err(e),
            Ok(st) => match supertype(st, dtypes[upto - 1]) {
                Some(s) => Ok(s),
                None => Err(
                    ErrorView::Simple(
                        ErrorKind::SchemaMismatch,
                        no_supertype_message(st, dtypes[upto - 1]),
                    ),
                ),
            },
        }
    }
}

/// The types of a list of columns.
pub open spec fn dtypes_of(cols: Seq<SeriesView>) -> Seq<DataTypeView> {
    Seq::new(cols.len(), |i: int| cols[i].dtype)
}

/// The type that `reduce` brings its result to: the return type where one
/// was given, else the common type of all columns.
pub open spec fn reduce_output_dtype(cols: Seq<SeriesView>, return_dtype: Option<DataTypeView>) -> Result<
    DataTypeView,
    ErrorView,
> {
    match return_dtype {
        Some(d) => Ok(d),
        None => fold_supertype(dtypes_of(cols), cols.len() as int),
    }
}

fn output_dtype_of(c: &Vec<Column>, return_dtype: Option<&DataType>) -> (r: ApolloResult<DataType>)
    requires
        c@.len() > 0,
    ensures
        match r {
            Ok(d) => reduce_output_dtype(columns_view(c@), opt_dtype_view(return_dtype)) == Ok::<
                DataTypeView,
                ErrorView,
            >(d@),
            Err(e) => reduce_output_dtype(columns_view(c@), opt_dtype_view(return_dtype)) == Err::<
                DataTypeView,
                ErrorView,
            >(e@),
        },
{
    match return_dtype {
        Some(dt) => Ok(dt.duplicate()),
        None => {
            let ghost dts = dtypes_of(columns_view(c@));
            let mut st = c[0].dtype().duplicate();
            let mut i: usize = 1;
            while i < c.len()
                invariant
                    1 <= i <= c.len(),
                    return_dtype is None,
                    dts == dtypes_of(columns_view(c@)),
                    fold_supertype(dts, i as int) == Ok::<DataTypeView, ErrorView>(st@),
                decreases c.len() - i,
            {
                assert(dts[i as int] == c@[i as int]@.dtype);
                match try_get_supertype(&st, c[i].dtype()) {
                    Ok(s) => {
                        st = s;
                    },
                    Err(e) => {
                        proof {
                            assert(fold_supertype(dts, i as int + 1) == Err::<
                                DataTypeView,
                                ErrorView,
                            >(e@));
                            lemma_fold_supertype_stable(dts, i as int + 1, c@.len() as int);
                            assert(columns_view(c@).len() == c@.len());
                        }
                        return Err(e);
                    },
                }
                i += 1;
            }
            Ok(st)
        },
    }
}

proof fn lemma_fold_supertype_stable(dts: Seq<DataTypeView>, a: int, b: int)
    requires
        a <= b,
        fold_supertype(dts, a) is Err,
    ensures
        fold_supertype(dts, b) == fold_supertype(dts, a),
    decreases b - a,
{
    if a < b {
        lemma_fold_supertype_stable(dts, a, b - 1);
    }
}

/// Folds the columns from left to right with the caller's function,
/// starting from the first column.
///
/// Without columns there is nothing to fold, which is an error. The result
/// is brought to the return type where one was given, else to the common
/// type of all columns; columns without a common type are an error, which
/// is found before the function is called. The final value must hold
/// exactly one value where the function is said to return a scalar, and be
/// of the return type where one was given.
pub fn reduce<F: Fn(Series, Series) -> ApolloResult<Series>>(
    c: &Vec<Column>,
    callback: &F,
    returns_scalar: bool,
    return_dtype: Option<&DataType>,
) -> (r: ApolloResult<Column>)
    requires
        forall|a: Series, b: Series| call_requires(*callback, (a, b)),
    ensures
        c@.len() == 0 ==> result_view(r) == Err::<SeriesView, ErrorView>(
            ErrorView::Simple(
                ErrorKind::ComputeError,
                "`reduce` did not have any expressions to fold"@,
            ),
        ),
        c@.len() > 0 ==> match reduce_output_dtype(columns_view(c@), opt_dtype_view(return_dtype)) {
            Err(e) => result_view(r) == Err::<SeriesView, ErrorView>(e),
            Ok(output_dtype) => exists|raw: Result<SeriesView, ErrorView>| #[trigger]
                fold_outcome(*callback, c@[0]@, columns_view(c@).drop_first(), raw) && result_view(
                    r,
                ) == finish(
                    raw,
                    StepRule {
                        op: "reduce"@,
                        returns_scalar,
                        return_dtype: opt_dtype_view(return_dtype),
                        output_dtype,
                    },
                ),
        },
{
    if c.len() == 0 {
        return Err(
            ApolloError::ComputeError(
                String::from_str("`reduce` did not have any expressions to fold"),
            ),
        );
    }
    let output_dtype = match output_dtype_of(c, return_dtype) {
        Ok(d) => d,
        Err(e) => {
            return Err(e);
        },
    };
    let raw = run_fold(c, callback);
    let ghost raw_view = result_view(raw);
    match raw {
        Err(e) => Err(e),
        Ok(acc) => {
            let r = check_step(acc, "reduce", returns_scalar, return_dtype, &output_dtype);
            assert(result_view(r) == finish(
                raw_view,
                StepRule {
                    op: "reduce"@,
                    returns_scalar,
                    return_dtype: opt_dtype_view(return_dtype),
                    output_dtype: output_dtype@,
                },
            ));
            r
        },
    }
}

/// The mathematical value of a struct column.
pub struct StructView {
    pub name: Seq<char>,
    pub length: nat,
    pub fields: Seq<SeriesView>,
}

/// A column of structs: named fields of one common length.
#[derive(Debug, PartialEq, Eq)]
pub struct StructChunked {
    name: String,
    frame: DataFrame,
}

impl View for StructChunked {
    type V = StructView;

    closed spec fn view(&self) -> StructView {
        StructView { name: self.name@, length: self.frame@.height, fields: self.frame@.columns }
    }
}

/// Whether `r` is what making a struct column of the given name, length
/// and fields gives: the column where the fields are of that length and no
/// two have the same name, else the error that says which field is at fault.
pub open spec fn struct_outcome(
    r: ApolloResult<StructChunked>,
    name: Seq<char>,
    length: nat,
    fields: Seq<SeriesView>,
) -> bool {
    match r {
        Ok(s) => s@ == (StructView { name, length, fields }) && frame_wf(
            DataFrameView { height: length, columns: fields },
        ),
        Err(e) => frame_error(length, fields, e@),
    }
}

impl StructChunked {
    /// The struct column of the given fields. It is an error for two
    /// fields to have the same name, and else for a field not to be
    /// `length` long.
    pub fn from_series(name: String, length: usize, fields: Vec<Series>) -> (r: ApolloResult<
        StructChunked,
    >)
        ensures
            struct_outcome(r, name@, length as nat, columns_view(fields@)),
    {
        match DataFrame::new(length, fields) {
            Ok(frame) => Ok(StructChunked { name, frame }),
            Err(e) => Err(e),
        }
    }

    /// The column's name.
    pub fn name(&self) -> (r: &String)
        ensures
            r@ == self@.name,
    {
        &self.name
    }

    /// The number of structs.
    pub fn len(&self) -> (n: usize)
        ensures
            n == self@.length,
    {
        self.frame.height()
    }

    /// The fields, as a frame.
    pub fn fields(&self) -> (r: &DataFrame)
        ensures
            r@ == (DataFrameView { height: self@.length, columns: self@.fields }),
    {
        &self.frame
    }
}

/// The column under another name.
pub open spec fn renamed(s: SeriesView, name: Seq<char>) -> SeriesView {
    SeriesView { name, ..s }
}

/// `out` is a possible outcome of folding `rest` into `acc` and keeping
/// every step: each value that the caller's function returns is checked and
/// brought to the output type as the rule says, takes the name of the
/// column that was folded in, is kept, and is the accumulator of the next
/// call. The first call or check that fails ends the fold with its error.
pub open spec fn cum_outcome<F: Fn(Series, Series) -> ApolloResult<Series>>(
    callback: F,
    acc: SeriesView,
    rest: Seq<SeriesView>,
    rule: StepRule,
    kept: Seq<SeriesView>,
    out: Result<Seq<SeriesView>, ErrorView>,
) -> bool
    decreases rest.len(),
{
    if rest.len() == 0 {
        out == Ok::<Seq<SeriesView>, ErrorView>(kept)
    } else {
        exists|a: Series, b: Series, r: ApolloResult<Series>|
            a@ == acc && b@ == rest[0] && #[trigger] call_ensures(callback, (a, b), r) && match r {
                Err(e) => out == Err::<Seq<SeriesView>, ErrorView>(e@),
                Ok(raw) => match spec_check_step(raw@, rule) {
                    Err(ev) => out == Err::<Seq<SeriesView>, ErrorView>(ev),
                    Ok(p) => cum_outcome(
                        callback,
                        renamed(p, rest[0].name),
                        rest.drop_first(),
                        rule,
                        kept.push(renamed(p, rest[0].name)),
                        out,
                    ),
                },
            }
    }
}

proof fn lemma_cum_step<F: Fn(Series, Series) -> ApolloResult<Series>>(
    callback: F,
    a: Series,
    b: Series,
    r: ApolloResult<Series>,
    rest: Seq<SeriesView>,
    rule: StepRule,
    kept: Seq<SeriesView>,
    out: Result<Seq<SeriesView>, ErrorView>,
)
    requires
        rest.len() > 0,
        b@ == rest[0],
        call_ensures(callback, (a, b), r),
        match r {
            Err(e) => out == Err::<Seq<SeriesView>, ErrorView>(e@),
            Ok(raw) => match spec_check_step(raw@, rule) {
                Err(ev) => out == Err::<Seq<SeriesView>, ErrorView>(ev),
                Ok(p) => cum_outcome(
                    callback,
                    renamed(p, rest[0].name),
                    rest.drop_first(),
                    rule,
                    kept.push(renamed(p, rest[0].name)),
                    out,
                ),
            },
        },
    ensures
        cum_outcome(callback, a@, rest, rule, kept, out),
{
}

/// The views of the columns kept, or of the error in their place.
pub open spec fn kept_view(r: ApolloResult<Vec<Series>>) -> Result<Seq<SeriesView>, ErrorView> {
    match r {
        Ok(v) => Ok(columns_view(v@)),
        Err(e) => Err(e@),
    }
}

fn run_cum<F: Fn(Series, Series) -> ApolloResult<Series>>(
    c: &Vec<Column>,
    callback: &F,
    op: &str,
    returns_scalar: bool,
    return_dtype: Option<&DataType>,
    output_dtype: &DataType,
    include_init: bool,
) -> (r: ApolloResult<Vec<Series>>)
    requires
        c@.len() > 0,
        forall|a: Series, b: Series| call_requires(*callback, (a, b)),
    ensures
        cum_outcome(
            *callback,
            c@[0]@,
            columns_view(c@).drop_first(),
            StepRule {
                op: op@,
                returns_scalar,
                return_dtype: opt_dtype_view(return_dtype),
                output_dtype: output_dtype@,
            },
            if include_init {
                seq![c@[0]@]
            } else {
                Seq::empty()
            },
            kept_view(r),
        ),
{
    let ghost cols = columns_view(c@);
    let ghost rule = StepRule {
        op: op@,
        returns_scalar,
        return_dtype: opt_dtype_view(return_dtype),
        output_dtype: output_dtype@,
    };
    let ghost init = if include_init {
        seq![c@[0]@]
    } else {
        Seq::<SeriesView>::empty()
    };
    let mut result: Vec<Series> = Vec::new();
    let mut acc = c[0].clone();
    if include_init {
        result.push(acc.clone());
    }
    assert(columns_view(result@) =~= init);
    let mut i: usize = 1;
    while i < c.len()
        invariant
            1 <= i <= c.len(),
            cols == columns_view(c@),
            rule == (StepRule {
                op: op@,
                returns_scalar,
                return_dtype: opt_dtype_view(return_dtype),
                output_dtype: output_dtype@,
            }),
            init == if include_init {
                seq![c@[0]@]
            } else {
                Seq::<SeriesView>::empty()
            },
            forall|a: Series, b: Series| call_requires(*callback, (a, b)),
            forall|out: Result<Seq<SeriesView>, ErrorView>| #[trigger]
                cum_outcome(
                    *callback,
                    acc@,
                    cols.subrange(i as int, cols.len() as int),
                    rule,
                    columns_view(result@),
                    out,
                ) ==> cum_outcome(*callback, c@[0]@, cols.drop_first(), rule, init, out),
        decreases c.len() - i,
    {
        let a = acc.clone();
        let b = c[i].clone();
        let ghost rest = cols.subrange(i as int, cols.len() as int);
        let ghost kept = columns_view(result@);
        let res = callback(a, b);
        proof {
            assert(rest.drop_first() =~= cols.subrange(i as int + 1, cols.len() as int));
            assert(b@ == rest[0]);
        }
        let ghost res_copy = res;
        match res {
            Err(e) => {
                proof {
                    lemma_cum_step(
                        *callback,
                        a,
                        b,
                        res_copy,
                        rest,
                        rule,
                        kept,
                        Err::<Seq<SeriesView>, ErrorView>(e@),
                    );
                }
                return Err(e);
            },
            Ok(raw) => {
                match check_step(raw, op, returns_scalar, return_dtype, output_dtype) {
                    Err(e) => {
                        proof {
                            lemma_cum_step(
                                *callback,
                                a,
                                b,
                                res_copy,
                                rest,
                                rule,
                                kept,
                                Err::<Seq<SeriesView>, ErrorView>(e@),
                            );
                        }
                        return Err(e);
                    },
                    Ok(p) => {
                        let ghost pv = p@;
                        let mut next = p;
                        next.rename(c[i].name().as_str());
                        result.push(next.clone());
                        proof {
                            assert(next@ == renamed(pv, rest[0].name));
                            assert(columns_view(result@) =~= kept.push(next@));
                            assert forall|out: Result<Seq<SeriesView>, ErrorView>| #[trigger]
                                cum_outcome(
                                    *callback,
                                    next@,
                                    cols.subrange(i as int + 1, cols.len() as int),
                                    rule,
                                    columns_view(result@),
                                    out,
                                ) implies cum_outcome(
                                *callback,
                                c@[0]@,
                                cols.drop_first(),
                                rule,
                                init,
                                out,
                            ) by {
                                lemma_cum_step(*callback, a, b, res_copy, rest, rule, kept, out);
                            }
                        }
                        acc = next;
                    },
                }
            },
        }
        i += 1;
    }
    proof {
        assert(cols.subrange(i as int, cols.len() as int) =~= Seq::<SeriesView>::empty());
        assert(cum_outcome(
            *callback,
            acc@,
            cols.subrange(i as int, cols.len() as int),
            rule,
            columns_view(result@),
            Ok::<Seq<SeriesView>, ErrorView>(columns_view(result@)),
        ));
    }
    Ok(result)
}

/// What a cumulative fold returns, given how folding the columns ended:
/// the error that ended it, or the struct column of the steps kept, under
/// the name of the last column and as long as the first step.
pub open spec fn cum_finish(
    r: ApolloResult<StructChunked>,
    steps: Result<Seq<SeriesView>, ErrorView>,
    name: Seq<char>,
) -> bool {
    match steps {
        Err(e) => r matches Err(re) && re@ == e,
        Ok(fields) => fields.len() > 0 && struct_outcome(
            r,
            name,
            fields[0].values.len(),
            fields,
        ),
    }
}

fn finish_cum(steps: ApolloResult<Vec<Series>>, name: String) -> (r: ApolloResult<StructChunked>)
    requires
        steps matches Ok(v) ==> v@.len() > 0,
    ensures
        cum_finish(r, kept_view(steps), name@),
{
    match steps {
        Err(e) => Err(e),
        Ok(fields) => {
            let length = fields[0].len();
            StructChunked::from_series(name, length, fields)
        },
    }
}

proof fn lemma_cum_keeps_count<F: Fn(Series, Series) -> ApolloResult<Series>>(
    callback: F,
    acc: SeriesView,
    rest: Seq<SeriesView>,
    rule: StepRule,
    kept: Seq<SeriesView>,
    out: Result<Seq<SeriesView>, ErrorView>,
)
    requires
        cum_outcome(callback, acc, rest, rule, kept, out),
    ensures
        out matches Ok(fields) ==> fields.len() == kept.len() + rest.len(),
    decreases rest.len(),
{
    if rest.len() > 0 {
        let (a, b, r) = choose|a: Series, b: Series, r: ApolloResult<Series>|
            a@ == acc && b@ == rest[0] && #[trigger] call_ensures(callback, (a, b), r) && match r {
                Err(e) => out == Err::<Seq<SeriesView>, ErrorView>(e@),
                Ok(raw) => match spec_check_step(raw@, rule) {
                    Err(ev) => out == Err::<Seq<SeriesView>, ErrorView>(ev),
                    Ok(p) => cum_outcome(
                        callback,
                        renamed(p, rest[0].name),
                        rest.drop_first(),
                        rule,
                        kept.push(renamed(p, rest[0].name)),
                        out,
                    ),
                },
            };
        match r {
            Err(e) => {},
            Ok(raw) => match spec_check_step(raw@, rule) {
                Err(ev) => {},
                Ok(p) => {
                    lemma_cum_keeps_count(
                        callback,
                        renamed(p, rest[0].name),
                        rest.drop_first(),
                        rule,
                        kept.push(renamed(p, rest[0].name)),
                        out,
                    );
                },
            },
        }
    }
}

/// Folds the columns from left to right with the caller's function and
/// keeps every step: the result is a struct column whose first field is
/// the first column and whose further fields are the accumulator after each
/// column, each under that column's name.
///
/// Without columns there is nothing to fold, which is an error. Every
/// step is brought to the return type where one was given, else to the
/// common type of all columns, and is held to the rule of `reduce`.
pub fn cum_reduce<F: Fn(Series, Series) -> ApolloResult<Series>>(
    c: &Vec<Column>,
    callback: &F,
    returns_scalar: bool,
    return_dtype: Option<&DataType>,
) -> (r: ApolloResult<StructChunked>)
    requires
        forall|a: Series, b: Series| call_requires(*callback, (a, b)),
    ensures
        c@.len() == 0 ==> (r matches Err(e) && e@ == ErrorView::Simple(
            ErrorKind::ComputeError,
            "`cum_reduce` did not have any expressions to fold"@,
        )),
        c@.len() > 0 ==> match reduce_output_dtype(columns_view(c@), opt_dtype_view(return_dtype)) {
            Err(e) => r matches Err(re) && re@ == e,
            Ok(output_dtype) => exists|steps: Result<Seq<SeriesView>, ErrorView>| #[trigger]
                cum_outcome(
                    *callback,
                    c@[0]@,
                    columns_view(c@).drop_first(),
                    StepRule {
                        op: "cum_reduce"@,
                        returns_scalar,
                        return_dtype: opt_dtype_view(return_dtype),
                        output_dtype,
                    },
                    seq![c@[0]@],
                    steps,
                ) && cum_finish(r, steps, c@[c@.len() - 1]@.name),
        },
{
    if c.len() == 0 {
        return Err(
            ApolloError::ComputeError(
                String::from_str("`cum_reduce` did not have any expressions to fold"),
            ),
        );
    }
    let output_dtype = match output_dtype_of(c, return_dtype) {
        Ok(d) => d,
        Err(e) => {
            return Err(e);
        },
    };
    let steps = run_cum(c, callback, "cum_reduce", returns_scalar, return_dtype, &output_dtype, true);
    proof {
        lemma_cum_keeps_count(
            *callback,
            c@[0]@,
            columns_view(c@).drop_first(),
            StepRule {
                op: "cum_reduce"@,
                returns_scalar,
                return_dtype: opt_dtype_view(return_dtype),
                output_dtype: output_dtype@,
            },
            seq![c@[0]@],
            kept_view(steps),
        );
    }
    finish_cum(steps, c[c.len() - 1].name().clone())
}

/// The rule that `cum_fold` holds every step to.
pub open spec fn cum_fold_rule(
    first: DataTypeView,
    returns_scalar: bool,
    return_dtype: Option<DataTypeView>,
) -> StepRule {
    StepRule {
        op: "cum_fold"@,
        returns_scalar,
        return_dtype,
        output_dtype: match return_dtype {
            Some(d) => d,
            None => first,
        },
    }
}

/// What `cum_fold` has kept before the first call.
pub open spec fn cum_fold_init(first: SeriesView, include_init: bool) -> Seq<SeriesView> {
    if include_init {
        seq![first]
    } else {
        Seq::empty()
    }
}

/// Folds the columns from left to right with the caller's function and
/// keeps every step: the result is a struct column of the accumulator
/// after each column but the first, each under that column's name, and
/// before them the first column where `include_init` asks for it.
///
/// Every step is brought to the return type where one was given, else to
/// the type of the first column, and is held to the rule of `fold`.
pub fn cum_fold<F: Fn(Series, Series) -> ApolloResult<Series>>(
    c: &Vec<Column>,
    callback: &F,
    returns_scalar: bool,
    return_dtype: Option<&DataType>,
    include_init: bool,
) -> (r: ApolloResult<StructChunked>)
    requires
        c@.len() > 0,
        include_init || c@.len() > 1,
        forall|a: Series, b: Series| call_requires(*callback, (a, b)),
    ensures
        exists|steps: Result<Seq<SeriesView>, ErrorView>| #[trigger]
            cum_outcome(
                *callback,
                c@[0]@,
                columns_view(c@).drop_first(),
                cum_fold_rule(c@[0]@.dtype, returns_scalar, opt_dtype_view(return_dtype)),
                cum_fold_init(c@[0]@, include_init),
                steps,
            ) && cum_finish(r, steps, c@[c@.len() - 1]@.name),
{
    let output_dtype = match return_dtype {
        Some(d) => d.duplicate(),
        None => c[0].dtype().duplicate(),
    };
    let steps = run_cum(
        c,
        callback,
        "cum_fold",
        returns_scalar,
        return_dtype,
        &output_dtype,
        include_init,
    );
    let ghost steps_view = kept_view(steps);
    proof {
        let rule = StepRule {
            op: "cum_fold"@,
            returns_scalar,
            return_dtype: opt_dtype_view(return_dtype),
            output_dtype: output_dtype@,
        };
        let init = if include_init {
            seq![c@[0]@]
        } else {
            Seq::<SeriesView>::empty()
        };
        assert(rule == cum_fold_rule(c@[0]@.dtype, returns_scalar, opt_dtype_view(return_dtype)));
        assert(init == cum_fold_init(c@[0]@, include_init));
        lemma_cum_keeps_count(
            *callback,
            c@[0]@,
            columns_view(c@).drop_first(),
            rule,
            init,
            steps_view,
        );
    }
    let r = finish_cum(steps, c[c.len() - 1].name().clone());
    assert(cum_outcome(
        *callback,
        c@[0]@,
        columns_view(c@).drop_first(),
        cum_fold_rule(c@[0]@.dtype, returns_scalar, opt_dtype_view(return_dtype)),
        cum_fold_init(c@[0]@, include_init),
        steps_view,
    ) && cum_finish(r, steps_view, c@[c@.len() - 1]@.name));
    r
}

} // verus!
