//! Frames: ordered columns of one common length, with distinct names.

use vstd::prelude::*;
use vstd::string::*;
use crate::error::ApolloError;
use crate::error::ApolloResult;
use crate::error::ErrorKind;
use crate::error::ErrorView;
use crate::datatypes::dtype_name;
use crate::series::all_fit;
use crate::series::values_view;
use crate::series::AnyValue;
use crate::series::as_bool;
use crate::series::wrong_dtype_message;
use crate::series::count_trues;
use crate::series::filter_seq;
use crate::series::slice_seq;
use crate::series::BooleanChunked;
use crate::series::Series;
use crate::series::SeriesView;
use crate::datatypes::DataTypeView;
use crate::datatypes::Field;
use crate::schema::first_repeated;
use crate::schema::lemma_first_repeated;
use crate::schema::lemma_first_repeated_stable;
use crate::schema::repeats_earlier;
use crate::schema::Schema;
use crate::schema::SchemaView;
use crate::text::concat3;
use crate::text::decimal;
use crate::text::push_decimal;

verus! {

/// The mathematical value of a frame.
pub struct DataFrameView {
    pub height: nat,
    pub columns: Seq<SeriesView>,
}

/// Every column has `height` values.
pub open spec fn columns_have_height(columns: Seq<SeriesView>, height: nat) -> bool {
    forall|i: int| 0 <= i < columns.len() ==> (#[trigger] columns[i]).values.len() == height
}

/// No two columns have the same name.
pub open spec fn column_names_unique(columns: Seq<SeriesView>) -> bool {
    forall|i: int, j: int| 0 <= i < j < columns.len() ==> columns[i].name != columns[j].name
}

/// What makes a height and a list of columns a frame.
pub open spec fn frame_wf(f: DataFrameView) -> bool {
    columns_have_height(f.columns, f.height) && column_names_unique(f.columns)
}

/// The views of a list of columns.
pub open spec fn columns_view(columns: Seq<Series>) -> Seq<SeriesView> {
    Seq::new(columns.len(), |i: int| columns[i]@)
}

/// The message of the error for a column name that occurs twice.
pub open spec fn duplicate_column_message(name: Seq<char>) -> Seq<char> {
    "column with name '"@ + name + "' has more than one occurrence"@
}

/// The message of the error for a column that is not as long as the frame.
pub open spec fn height_mismatch_message(height: nat, name: Seq<char>, len: nat) -> Seq<char> {
    "height of DataFrame ("@ + decimal(height) + ") does not match length of column '"@ + name
        + "' ("@ + decimal(len) + ")"@
}

/// The message of the error for a mask that is not as long as the frame.
pub open spec fn mask_mismatch_message(height: nat, len: nat) -> Seq<char> {
    "cannot filter DataFrame of height "@ + decimal(height) + " with mask of length "@ + decimal(
        len,
    )
}

/// The position of the first column that is not `height` long, if there is one.
pub open spec fn first_wrong_height(columns: Seq<SeriesView>, height: nat, upto: int) -> Option<int>
    decreases upto,
{
    if upto <= 0 {
        None
    } else {
        match first_wrong_height(columns, height, upto - 1) {
            Some(i) => Some(i),
            None => if columns[upto - 1].values.len() == height {
                None
            } else {
                Some(upto - 1)
            },
        }
    }
}

pub proof fn lemma_first_wrong_height(columns: Seq<SeriesView>, height: nat, upto: int)
    requires
        0 <= upto <= columns.len(),
    ensures
        match first_wrong_height(columns, height, upto) {
            Some(i) => 0 <= i < upto && columns[i].values.len() != height && forall|k: int|
                0 <= k < i ==> (#[trigger] columns[k]).values.len() == height,
            None => forall|k: int| 0 <= k < upto ==> (#[trigger] columns[k]).values.len() == height,
        },
    decreases upto,
{
    if upto > 0 {
        lemma_first_wrong_height(columns, height, upto - 1);
    }
}

/// The names of the columns, in column order.
pub open spec fn column_names(cols: Seq<SeriesView>) -> Seq<Seq<char>> {
    Seq::new(cols.len(), |i: int| cols[i].name)
}

/// The error for columns that make no frame of the given height: a name
/// that occurs twice is reported first, by the first column that repeats
/// an earlier one; else the first column of another length is reported.
pub open spec fn frame_error(height: nat, cols: Seq<SeriesView>, e: ErrorView) -> bool {
    match first_repeated(column_names(cols), cols.len() as int) {
        Some(j) => e == ErrorView::Simple(
            ErrorKind::Duplicate,
            duplicate_column_message(cols[j].name),
        ),
        None => first_wrong_height(cols, height, cols.len() as int) matches Some(i) && e
            == ErrorView::Simple(
            ErrorKind::ShapeMismatch,
            height_mismatch_message(height, cols[i].name, cols[i].values.len()),
        ),
    }
}

/// No name is repeated exactly where all names are distinct.
pub proof fn lemma_no_repeat_is_unique_columns(cols: Seq<SeriesView>)
    ensures
        first_repeated(column_names(cols), cols.len() as int) is None <==> column_names_unique(cols),
{
    let names = column_names(cols);
    lemma_first_repeated(names, cols.len() as int);
    if first_repeated(names, cols.len() as int) is None {
        assert forall|i: int, j: int| 0 <= i < j < cols.len() implies cols[i].name
            != cols[j].name by {
            assert(!repeats_earlier(names, j));
            assert(names[i] == cols[i].name);
            assert(names[j] == cols[j].name);
        }
    } else {
        let j = first_repeated(names, cols.len() as int).unwrap();
        let i = choose|i: int| 0 <= i < j && #[trigger] names[i] == names[j];
        assert(cols[i].name == cols[j].name);
    }
}

/// Columns for which `frame_error` holds of some error make no frame.
pub proof fn lemma_frame_error_means_not_wf(height: nat, cols: Seq<SeriesView>, e: ErrorView)
    requires
        frame_error(height, cols, e),
    ensures
        !frame_wf(DataFrameView { height, columns: cols }),
{
    lemma_no_repeat_is_unique_columns(cols);
    if column_names_unique(cols) {
        lemma_first_wrong_height(cols, height, cols.len() as int);
    }
}

/// The frame of the rows of `f` at which `mask` holds `true`.
pub open spec fn spec_filter(f: DataFrameView, mask: Seq<Option<bool>>) -> DataFrameView {
    DataFrameView {
        height: count_trues(mask),
        columns: Seq::new(
            f.columns.len(),
            |i: int| SeriesView { values: filter_seq(f.columns[i].values, mask), ..f.columns[i] },
        ),
    }
}

/// The frame of the `len` rows of `f` from row `offset` on, or of as many
/// as there are.
pub open spec fn spec_slice(f: DataFrameView, offset: nat, len: nat) -> DataFrameView {
    DataFrameView {
        height: slice_height(f.height, offset, len),
        columns: Seq::new(
            f.columns.len(),
            |i: int| SeriesView { values: slice_seq(f.columns[i].values, offset, len), ..f.columns[i] },
        ),
    }
}

/// How many rows a slice of a frame of `height` rows has.
pub open spec fn slice_height(height: nat, offset: nat, len: nat) -> nat {
    let start = if offset < height {
        offset
    } else {
        height
    };
    if len < height - start {
        len
    } else {
        (height - start) as nat
    }
}

/// Whether two frames have the same column names and types, in the same order.
pub open spec fn same_schema(a: DataFrameView, b: DataFrameView) -> bool {
    &&& a.columns.len() == b.columns.len()
    &&& forall|i: int|
        0 <= i < a.columns.len() ==> (#[trigger] a.columns[i]).name == b.columns[i].name
            && a.columns[i].dtype == b.columns[i].dtype
}

/// The frame of the rows of `a` followed by those of `b`.
pub open spec fn spec_vstack(a: DataFrameView, b: DataFrameView) -> DataFrameView {
    DataFrameView {
        height: a.height + b.height,
        columns: Seq::new(
            a.columns.len(),
            |i: int| SeriesView { values: a.columns[i].values + b.columns[i].values, ..a.columns[i] },
        ),
    }
}

/// The frame of the columns of `f` at the positions `picks`, in that order.
pub open spec fn spec_select(f: DataFrameView, picks: Seq<int>) -> DataFrameView {
    DataFrameView { height: f.height, columns: Seq::new(picks.len(), |i: int| f.columns[picks[i]]) }
}

/// The position of the first column called `name` among the first `upto`.
pub open spec fn column_index_upto(columns: Seq<SeriesView>, name: Seq<char>, upto: int) -> Option<
    int,
>
    decreases upto,
{
    if upto <= 0 {
        None
    } else {
        match column_index_upto(columns, name, upto - 1) {
            Some(i) => Some(i),
            None => if columns[upto - 1].name == name {
                Some(upto - 1)
            } else {
                None
            },
        }
    }
}

/// The position of the column called `name`, if there is one.
pub open spec fn column_index(columns: Seq<SeriesView>, name: Seq<char>) -> Option<int> {
    column_index_upto(columns, name, columns.len() as int)
}

pub proof fn lemma_column_index_upto(columns: Seq<SeriesView>, name: Seq<char>, upto: int)
    requires
        0 <= upto <= columns.len(),
    ensures
        match column_index_upto(columns, name, upto) {
            Some(i) => 0 <= i < upto && columns[i].name == name && forall|k: int|
                0 <= k < i ==> (#[trigger] columns[k]).name != name,
            None => forall|k: int| 0 <= k < upto ==> (#[trigger] columns[k]).name != name,
        },
    decreases upto,
{
    if upto > 0 {
        lemma_column_index_upto(columns, name, upto - 1);
    }
}

/// The names and types of the columns of a frame, in column order.
pub open spec fn schema_of(f: DataFrameView) -> SchemaView {
    Seq::new(f.columns.len(), |i: int| (f.columns[i].name, f.columns[i].dtype))
}

/// A table: columns of one common length, no two of the same name.
#[derive(Debug, PartialEq, Eq)]
pub struct DataFrame {
    height: usize,
    columns: Vec<Series>,
}

impl View for DataFrame {
    type V = DataFrameView;

    closed spec fn view(&self) -> DataFrameView {
        DataFrameView { height: self.height as nat, columns: columns_view(self.columns@) }
    }
}

impl DataFrame {
    #[verifier::type_invariant]
    closed spec fn wf(self) -> bool {
        frame_wf(self@)
    }

    /// The frame without columns and without rows.
    pub fn empty() -> (r: DataFrame)
        ensures
            r@ == (DataFrameView { height: 0, columns: Seq::empty() }),
    {
        let r = DataFrame { height: 0, columns: Vec::new() };
        assert(r@.columns =~= Seq::empty());
        r
    }

    /// The frame without columns that counts `height` rows.
    pub fn empty_with_height(height: usize) -> (r: DataFrame)
        ensures
            r@ == (DataFrameView { height: height as nat, columns: Seq::empty() }),
    {
        let r = DataFrame { height, columns: Vec::new() };
        assert(r@.columns =~= Seq::empty());
        r
    }

    /// The frame of the given columns. It is an error for two columns to
    /// have the same name, and else for a column not to be `height` long.
    pub fn new(height: usize, columns: Vec<Series>) -> (r: ApolloResult<DataFrame>)
        ensures
            match r {
                Ok(f) => f@ == (DataFrameView {
                    height: height as nat,
                    columns: columns_view(columns@),
                }) && frame_wf(f@),
                Err(e) => frame_error(height as nat, columns_view(columns@), e@),
            },
    {
        let ghost cols = columns_view(columns@);
        let ghost names = column_names(cols);
        let mut j: usize = 0;
        while j < columns.len()
            invariant
                j <= columns.len(),
                cols == columns_view(columns@),
                names == column_names(cols),
                first_repeated(names, j as int) is None,
            decreases columns.len() - j,
        {
            let mut i: usize = 0;
            while i < j
                invariant
                    i <= j,
                    j < columns.len(),
                    cols == columns_view(columns@),
                    names == column_names(cols),
                    first_repeated(names, j as int) is None,
                    forall|a: int| 0 <= a < i ==> #[trigger] names[a] != names[j as int],
                decreases j - i,
            {
                if *columns[i].name() == *columns[j].name() {
                    let msg = concat3(
                        "column with name '",
                        columns[j].name().as_str(),
                        "' has more than one occurrence",
                    );
                    proof {
                        assert(names[i as int] == names[j as int]);
                        assert(repeats_earlier(names, j as int));
                        assert(first_repeated(names, j as int + 1) == Some(j as int));
                        lemma_first_repeated_stable(names, j as int + 1, names.len() as int);
                    }
                    return Err(ApolloError::Duplicate(msg));
                }
                i += 1;
            }
            assert(!repeats_earlier(names, j as int));
            j += 1;
        }
        proof {
            lemma_no_repeat_is_unique_columns(cols);
        }
        let mut k: usize = 0;
        while k < columns.len()
            invariant
                k <= columns.len(),
                cols == columns_view(columns@),
                column_names_unique(cols),
                first_repeated(column_names(cols), cols.len() as int) is None,
                first_wrong_height(cols, height as nat, k as int) is None,
            decreases columns.len() - k,
        {
            if columns[k].len() != height {
                let mut msg = String::from_str("height of DataFrame (");
                push_decimal(&mut msg, height);
                msg.append(") does not match length of column '");
                msg.append(columns[k].name().as_str());
                msg.append("' (");
                push_decimal(&mut msg, columns[k].len());
                msg.append(")");
                proof {
                    lemma_first_wrong_height(cols, height as nat, k as int + 1);
                    lemma_first_wrong_height(cols, height as nat, cols.len() as int);
                    assert(msg@ =~= height_mismatch_message(
                        height as nat,
                        cols[k as int].name,
                        cols[k as int].values.len(),
                    ));
                }
                return Err(ApolloError::ShapeMismatch(msg));
            }
            k += 1;
        }
        proof {
            lemma_first_wrong_height(cols, height as nat, cols.len() as int);
        }
        Ok(DataFrame { height, columns })
    }

    /// The number of rows. Every column is that long, and no two columns
    /// have the same name.
    pub fn height(&self) -> (n: usize)
        ensures
            n == self@.height,
            frame_wf(self@),
    {
        proof {
            use_type_invariant(self);
        }
        self.height
    }

    /// The number of columns.
    pub fn width(&self) -> (n: usize)
        ensures
            n == self@.columns.len(),
    {
        self.columns.len()
    }

    /// The column at position `i`.
    pub fn column_at(&self, i: usize) -> (r: Option<&Series>)
        ensures
            match r {
                Some(s) => i < self@.columns.len() && s@ == self@.columns[i as int],
                None => i >= self@.columns.len(),
            },
    {
        if i < self.columns.len() {
            Some(&self.columns[i])
        } else {
            None
        }
    }

    /// The position of the column called `name`.
    pub fn get_column_index(&self, name: &str) -> (r: Option<usize>)
        ensures
            match r {
                Some(i) => column_index(self@.columns, name@) == Some(i as int) && i
                    < self@.columns.len() && self@.columns[i as int].name == name@,
                None => column_index(self@.columns, name@) is None,
            },
    {
        let key = String::from_str(name);
        let mut i: usize = 0;
        while i < self.columns.len()
            invariant
                i <= self.columns.len(),
                key@ == name@,
                column_index_upto(self@.columns, name@, i as int) is None,
            decreases self.columns.len() - i,
        {
            if *self.columns[i].name() == key {
                proof {
                    assert(self@.columns[i as int].name == name@);
                    lemma_column_index_upto(self@.columns, name@, i as int);
                    lemma_column_index_upto(self@.columns, name@, self@.columns.len() as int);
                }
                return Some(i);
            }
            i += 1;
        }
        None
    }

    /// The names and types of the columns, in column order.
    pub fn schema(&self) -> (r: Schema)
        ensures
            r@ == schema_of(self@),
    {
        proof {
            use_type_invariant(self);
        }
        let mut fields: Vec<Field> = Vec::new();
        let mut i: usize = 0;
        while i < self.columns.len()
            invariant
                i <= self.columns.len(),
                fields@.len() == i,
                forall|k: int|
                    0 <= k < i ==> fields@[k]@ == (
                        self@.columns[k].name,
                        self@.columns[k].dtype,
                    ),
            decreases self.columns.len() - i,
        {
            let c = &self.columns[i];
            fields.push(Field::new(c.name().as_str(), c.dtype().duplicate()));
            i += 1;
        }
        match Schema::try_from_fields(fields) {
            Ok(s) => {
                assert(s@ =~= schema_of(self@));
                s
            },
            Err(_) => {
                proof {
                    let all = Seq::new(fields@.len(), |i: int| fields@[i]@);
                    assert(all =~= schema_of(self@));
                    crate::schema::lemma_no_repeat_is_unique(all);
                    assert forall|a: int, b: int| 0 <= a < b < all.len() implies all[a].0
                        != all[b].0 by {
                        assert(all[a].0 == self@.columns[a].name);
                        assert(all[b].0 == self@.columns[b].name);
                    }
                    assert(false);
                }
                Schema::new()
            },
        }
    }

    /// The rows at which `mask` holds `true`. It is an error for the mask
    /// to be of another length than the frame.
    pub fn filter(&self, mask: &BooleanChunked) -> (r: ApolloResult<DataFrame>)
        ensures
            match r {
                Ok(f) => mask@.len() == self@.height && f@ == spec_filter(self@, mask@),
                Err(e) => mask@.len() != self@.height && e@ == ErrorView::Simple(
                    ErrorKind::ShapeMismatch,
                    mask_mismatch_message(self@.height, mask@.len()),
                ),
            },
    {
        proof {
            use_type_invariant(self);
        }
        if mask.len() != self.height {
            let mut msg = String::from_str("cannot filter DataFrame of height ");
            push_decimal(&mut msg, self.height);
            msg.append(" with mask of length ");
            push_decimal(&mut msg, mask.len());
            assert(msg@ =~= mask_mismatch_message(self@.height, mask@.len()));
            return Err(ApolloError::ShapeMismatch(msg));
        }
        let ghost target = spec_filter(self@, mask@);
        let mut out: Vec<Series> = Vec::new();
        let mut i: usize = 0;
        while i < self.columns.len()
            invariant
                i <= self.columns.len(),
                mask@.len() == self.height,
                frame_wf(self@),
                target == spec_filter(self@, mask@),
                out@.len() == i,
                forall|k: int| 0 <= k < i ==> out@[k]@ == target.columns[k],
            decreases self.columns.len() - i,
        {
            assert(self@.columns[i as int].values.len() == self.height);
            match self.columns[i].filter(mask) {
                Ok(s) => {
                    out.push(s);
                },
                Err(_) => {
                    assert(false);
                },
            }
            i += 1;
        }
        let n = mask.num_trues();
        proof {
            assert(columns_view(out@) =~= target.columns);
            assert forall|k: int| 0 <= k < target.columns.len() implies (
            #[trigger] target.columns[k]).values.len() == n by {
                assert(self@.columns[k].values.len() == self.height);
                crate::series::lemma_filter_len(self@.columns[k].values, mask@);
            }
            assert forall|a: int, b: int| 0 <= a < b < target.columns.len() implies target.columns[a].name
                != target.columns[b].name by {
                assert(target.columns[a].name == self@.columns[a].name);
                assert(target.columns[b].name == self@.columns[b].name);
            }
        }
        Ok(DataFrame { height: n, columns: out })
    }

    /// The `len` rows from row `offset` on, or as many as there are.
    pub fn slice(&self, offset: usize, len: usize) -> (r: DataFrame)
        ensures
            r@ == spec_slice(self@, offset as nat, len as nat),
    {
        proof {
            use_type_invariant(self);
        }
        let ghost target = spec_slice(self@, offset as nat, len as nat);
        let mut out: Vec<Series> = Vec::new();
        let mut i: usize = 0;
        while i < self.columns.len()
            invariant
                i <= self.columns.len(),
                target == spec_slice(self@, offset as nat, len as nat),
                out@.len() == i,
                forall|k: int| 0 <= k < i ==> out@[k]@ == target.columns[k],
            decreases self.columns.len() - i,
        {
            out.push(self.columns[i].slice(offset, len));
            i += 1;
        }
        let start = if offset < self.height {
            offset
        } else {
            self.height
        };
        let n = if len < self.height - start {
            len
        } else {
            self.height - start
        };
        proof {
            assert(columns_view(out@) =~= target.columns);
            assert forall|k: int| 0 <= k < target.columns.len() implies (
            #[trigger] target.columns[k]).values.len() == n by {
                assert(self@.columns[k].values.len() == self.height);
            }
            assert forall|a: int, b: int| 0 <= a < b < target.columns.len() implies target.columns[a].name
                != target.columns[b].name by {
                assert(target.columns[a].name == self@.columns[a].name);
                assert(target.columns[b].name == self@.columns[b].name);
            }
        }
        DataFrame { height: n, columns: out }
    }
}

/// The mask that a column of booleans stands for: null where the value is null.
pub open spec fn mask_of(col: SeriesView) -> Seq<Option<bool>> {
    Seq::new(col.values.len(), |i: int| as_bool(col.values[i]))
}

/// The message of the error for a column that a frame does not have.
pub open spec fn not_found_message(name: Seq<char>) -> Seq<char> {
    "not found: "@ + name
}

/// The message of the error for frames that cannot be stacked.
pub open spec fn vstack_message() -> Seq<char> {
    "unable to vstack, column names or dtypes don't match"@
}

/// The message of the error for a frame of more rows than can be counted.
pub open spec fn too_high_message() -> Seq<char> {
    "unable to vstack, the frame would have more rows than can be counted"@
}

/// The rows of `f` at which the column called `name` holds `true`.
/// It is an error for `f` to have no such column, and for the column not
/// to be of booleans.
pub open spec fn spec_filter_by(f: DataFrameView, name: Seq<char>) -> Result<
    DataFrameView,
    ErrorView,
> {
    match column_index(f.columns, name) {
        None => Err(ErrorView::Simple(ErrorKind::ColumnNotFound, not_found_message(name))),
        Some(i) => if f.columns[i].dtype is Boolean {
            Ok(spec_filter(f, mask_of(f.columns[i])))
        } else {
            Err(
                ErrorView::Simple(
                    ErrorKind::SchemaMismatch,
                    wrong_dtype_message("Boolean"@, f.columns[i].dtype),
                ),
            )
        },
    }
}

/// The first of the first `upto` names that no column of `cols` has.
pub open spec fn first_unknown(cols: Seq<SeriesView>, names: Seq<Seq<char>>, upto: int) -> Option<
    int,
>
    decreases upto,
{
    if upto <= 0 {
        None
    } else {
        match first_unknown(cols, names, upto - 1) {
            Some(k) => Some(k),
            None => if column_index(cols, names[upto - 1]) is None {
                Some(upto - 1)
            } else {
                None
            },
        }
    }
}

pub proof fn lemma_first_unknown_stable(cols: Seq<SeriesView>, names: Seq<Seq<char>>, a: int, b: int)
    requires
        a <= b,
        first_unknown(cols, names, a) is Some,
    ensures
        first_unknown(cols, names, b) == first_unknown(cols, names, a),
    decreases b - a,
{
    if a < b {
        lemma_first_unknown_stable(cols, names, a, b - 1);
    }
}

pub proof fn lemma_first_unknown(cols: Seq<SeriesView>, names: Seq<Seq<char>>, upto: int)
    requires
        0 <= upto <= names.len(),
    ensures
        first_unknown(cols, names, upto) is None ==> forall|k: int|
            0 <= k < upto ==> column_index(cols, #[trigger] names[k]) is Some,
    decreases upto,
{
    if upto > 0 {
        lemma_first_unknown(cols, names, upto - 1);
    }
}

/// The positions in `cols` of the columns called `names`.
pub open spec fn picks_of(cols: Seq<SeriesView>, names: Seq<Seq<char>>) -> Seq<int> {
    Seq::new(names.len(), |i: int| column_index(cols, names[i]).unwrap())
}

/// The columns of `f` called `names`, in the order of `names`. It is an
/// error for `f` to lack one of them, which names the first that is
/// lacking; and else for a name to occur twice, which names the first that
/// repeats an earlier one.
pub open spec fn spec_select_by(f: DataFrameView, names: Seq<Seq<char>>) -> Result<
    DataFrameView,
    ErrorView,
> {
    match first_unknown(f.columns, names, names.len() as int) {
        Some(k) => Err(ErrorView::Simple(ErrorKind::ColumnNotFound, not_found_message(names[k]))),
        None => match first_repeated(names, names.len() as int) {
            Some(j) => Err(
                ErrorView::Simple(ErrorKind::Duplicate, duplicate_column_message(names[j])),
            ),
            None => Ok(spec_select(f, picks_of(f.columns, names))),
        },
    }
}

/// The views of a list of names.
pub open spec fn names_view(names: Seq<String>) -> Seq<Seq<char>> {
    Seq::new(names.len(), |i: int| names[i]@)
}

impl DataFrame {
    /// The rows at which the column called `name` holds `true`.
    pub fn filter_by(&self, name: &str) -> (r: ApolloResult<DataFrame>)
        ensures
            match r {
                Ok(f) => spec_filter_by(self@, name@) == Ok::<DataFrameView, ErrorView>(f@),
                Err(e) => spec_filter_by(self@, name@) == Err::<DataFrameView, ErrorView>(e@),
            },
    {
        let height = self.height();
        match self.get_column_index(name) {
            None => Err(ApolloError::ColumnNotFound(crate::text::concat2("not found: ", name))),
            Some(i) => {
                let col = &self.columns[i];
                assert(self@.columns[i as int] == col@);
                match col.bool() {
                    Err(e) => Err(e),
                    Ok(mask) => {
                        assert(mask@ =~= mask_of(col@));
                        assert(col@.values.len() == height);
                        self.filter(&mask)
                    },
                }
            },
        }
    }

    /// The columns called `names`, in the order of `names`.
    pub fn select(&self, names: &Vec<String>) -> (r: ApolloResult<DataFrame>)
        ensures
            match r {
                Ok(f) => spec_select_by(self@, names_view(names@)) == Ok::<
                    DataFrameView,
                    ErrorView,
                >(f@),
                Err(e) => spec_select_by(self@, names_view(names@)) == Err::<
                    DataFrameView,
                    ErrorView,
                >(e@),
            },
    {
        let height = self.height();
        let ghost wanted = names_view(names@);
        let ghost picks = picks_of(self@.columns, wanted);
        let mut out: Vec<Series> = Vec::new();
        let mut i: usize = 0;
        while i < names.len()
            invariant
                i <= names.len(),
                wanted == names_view(names@),
                picks == picks_of(self@.columns, wanted),
                first_unknown(self@.columns, wanted, i as int) is None,
                out@.len() == i,
                forall|k: int| 0 <= k < i ==> 0 <= #[trigger] picks[k] < self@.columns.len(),
                forall|k: int| 0 <= k < i ==> (#[trigger] out@[k])@ == self@.columns[picks[k]],
                forall|k: int| 0 <= k < i ==> (#[trigger] out@[k])@.name == wanted[k],
            decreases names.len() - i,
        {
            assert(wanted[i as int] == names@[i as int]@);
            match self.get_column_index(names[i].as_str()) {
                None => {
                    proof {
                        assert(first_unknown(self@.columns, wanted, i as int + 1) == Some(i as int));
                        lemma_first_unknown_stable(
                            self@.columns,
                            wanted,
                            i as int + 1,
                            wanted.len() as int,
                        );
                    }
                    return Err(
                        ApolloError::ColumnNotFound(
                            crate::text::concat2("not found: ", names[i].as_str()),
                        ),
                    );
                },
                Some(p) => {
                    out.push(self.columns[p].clone());
                },
            }
            i += 1;
        }
        let ghost target = spec_select(self@, picks);
        proof {
            assert(columns_view(out@) =~= target.columns);
            assert(column_names(target.columns) =~= wanted);
            assert forall|k: int| 0 <= k < target.columns.len() implies (
            #[trigger] target.columns[k]).values.len() == height by {
                assert(target.columns[k] == self@.columns[picks[k]]);
            }
            lemma_first_wrong_height(target.columns, height as nat, target.columns.len() as int);
            lemma_no_repeat_is_unique_columns(target.columns);
            assert(target.columns.len() == wanted.len());
            assert(target.height == height);
        }
        let r = DataFrame::new(height, out);
        proof {
            if r is Ok {
                assert(r->Ok_0@ == target);
            } else {
                assert(column_names(target.columns) == wanted);
                lemma_first_repeated(wanted, wanted.len() as int);
                assert(first_repeated(wanted, wanted.len() as int) is Some);
                let j = first_repeated(wanted, wanted.len() as int).unwrap();
                assert(column_names(target.columns)[j] == target.columns[j].name);
            }
        }
        r
    }

    /// Puts the rows of `other` below the frame's own. It is an error for
    /// the two frames to differ in the names or types of their columns, and
    /// for the rows to become more than can be counted; the frame is then
    /// unchanged.
    pub fn vstack(&mut self, other: &DataFrame) -> (r: ApolloResult<()>)
        ensures
            match r {
                Ok(_) => same_schema(old(self)@, other@) && final(self)@ == spec_vstack(
                    old(self)@,
                    other@,
                ),
                Err(e) => final(self)@ == old(self)@ && if same_schema(old(self)@, other@) {
                    old(self)@.height + other@.height > usize::MAX && e@ == ErrorView::Simple(
                        ErrorKind::ComputeError,
                        too_high_message(),
                    )
                } else {
                    e@ == ErrorView::Simple(ErrorKind::ShapeMismatch, vstack_message())
                },
            },
    {
        proof {
            use_type_invariant(&*self);
            use_type_invariant(other);
        }
        let width = self.columns.len();
        if width != other.columns.len() {
            return Err(
                ApolloError::ShapeMismatch(
                    String::from_str("unable to vstack, column names or dtypes don't match"),
                ),
            );
        }
        let mut k: usize = 0;
        while k < width
            invariant
                k <= width,
                width == self.columns@.len(),
                width == other.columns@.len(),
                *self == *old(self),
                forall|m: int|
                    0 <= m < k ==> (#[trigger] self@.columns[m]).name == other@.columns[m].name
                        && self@.columns[m].dtype == other@.columns[m].dtype,
            decreases width - k,
        {
            let a = &self.columns[k];
            let b = &other.columns[k];
            if !(*a.name() == *b.name()) || !a.dtype().same(b.dtype()) {
                assert(self@.columns[k as int] == a@);
                assert(other@.columns[k as int] == b@);
                return Err(
                    ApolloError::ShapeMismatch(
                        String::from_str("unable to vstack, column names or dtypes don't match"),
                    ),
                );
            }
            k += 1;
        }
        assert(same_schema(self@, other@));
        let height = match self.height.checked_add(other.height) {
            Some(h) => h,
            None => {
                return Err(
                    ApolloError::ComputeError(
                        String::from_str(
                            "unable to vstack, the frame would have more rows than can be counted",
                        ),
                    ),
                );
            },
        };
        let ghost target = spec_vstack(old(self)@, other@);
        let mut columns: Vec<Series> = Vec::new();
        let mut i: usize = 0;
        while i < width
            invariant
                i <= width,
                width == self.columns@.len(),
                width == other.columns@.len(),
                *self == *old(self),
                same_schema(self@, other@),
                target == spec_vstack(old(self)@, other@),
                columns@.len() == i,
                forall|m: int| 0 <= m < i ==> (#[trigger] columns@[m])@ == target.columns[m],
            decreases width - i,
        {
            let mut c = self.columns[i].clone();
            assert(self@.columns[i as int].dtype == other@.columns[i as int].dtype);
            match c.append(&other.columns[i]) {
                Ok(_) => {},
                Err(_) => {
                    assert(false);
                },
            }
            columns.push(c);
            i += 1;
        }
        proof {
            assert(columns_view(columns@) =~= target.columns);
            assert forall|m: int| 0 <= m < target.columns.len() implies (
            #[trigger] target.columns[m]).values.len() == height by {
                assert(old(self)@.columns[m].values.len() == old(self)@.height);
                assert(other@.columns[m].values.len() == other@.height);
            }
            assert forall|a: int, b: int| 0 <= a < b < target.columns.len() implies target.columns[a].name
                != target.columns[b].name by {
                assert(target.columns[a].name == old(self)@.columns[a].name);
                assert(target.columns[b].name == old(self)@.columns[b].name);
            }
        }
        *self = DataFrame { height, columns };
        Ok(())
    }
}

/// An array of structs as it comes from outside: the fields, the number
/// of structs, the values of each field, and the bitmap that says which
/// structs are valid, where there is one.
#[derive(Debug, PartialEq, Eq)]
pub struct StructArray {
    pub fields: Vec<Field>,
    pub height: usize,
    pub arrays: Vec<Vec<AnyValue>>,
    pub validity: Option<Vec<bool>>,
}

/// The number of fields that have values: the shorter of the two lists.
pub open spec fn paired(arr: StructArray) -> nat {
    if arr.fields@.len() <= arr.arrays@.len() {
        arr.fields@.len()
    } else {
        arr.arrays@.len()
    }
}

/// The column that field `i` of a struct array makes.
pub open spec fn field_column(arr: StructArray, i: int) -> SeriesView {
    SeriesView {
        name: arr.fields@[i].name@,
        dtype: arr.fields@[i].dtype@,
        values: values_view(arr.arrays@[i]@),
    }
}

/// The first of the first `upto` fields with a value that its type
/// cannot hold.
pub open spec fn first_bad_field(arr: StructArray, upto: int) -> Option<int>
    decreases upto,
{
    if upto <= 0 {
        None
    } else {
        match first_bad_field(arr, upto - 1) {
            Some(i) => Some(i),
            None => if all_fit(arr.fields@[upto - 1].dtype@, values_view(arr.arrays@[upto - 1]@)) {
                None
            } else {
                Some(upto - 1)
            },
        }
    }
}

proof fn lemma_first_bad_field_stable(arr: StructArray, a: int, b: int)
    requires
        a <= b,
        first_bad_field(arr, a) is Some,
    ensures
        first_bad_field(arr, b) == first_bad_field(arr, a),
    decreases b - a,
{
    if a < b {
        lemma_first_bad_field_stable(arr, a, b - 1);
    }
}

impl DataFrame {
    /// The frame whose columns are the fields of an array of structs.
    ///
    /// It is an error for the array to have a validity bitmap: a frame
    /// has no place for a struct that is null. It is an error for a field
    /// to hold a value that its type cannot hold; the first such field is
    /// reported. And it is an error for the fields to make no frame of
    /// the array's height.
    pub fn try_from(arr: StructArray) -> (r: ApolloResult<DataFrame>)
        ensures
            arr.validity is Some ==> (r matches Err(e) && e@ == ErrorView::Simple(
                ErrorKind::ComputeError,
                "cannot deserialize struct with nulls into a DataFrame"@,
            )),
            arr.validity is None && first_bad_field(arr, paired(arr) as int) is Some ==> (
            r matches Err(e) && e@ == ErrorView::Simple(
                ErrorKind::SchemaMismatch,
                crate::series::misfit_message(
                    arr.fields@[first_bad_field(arr, paired(arr) as int).unwrap()].dtype@,
                ),
            )),
            arr.validity is None && first_bad_field(arr, paired(arr) as int) is None ==> ({
                let cols = Seq::new(paired(arr), |i: int| field_column(arr, i));
                match r {
                    Ok(f) => f@ == (DataFrameView { height: arr.height as nat, columns: cols })
                        && frame_wf(f@),
                    Err(e) => frame_error(arr.height as nat, cols, e@),
                }
            }),
    {
        if arr.validity.is_some() {
            return Err(
                ApolloError::ComputeError(
                    String::from_str("cannot deserialize struct with nulls into a DataFrame"),
                ),
            );
        }
        let n = if arr.fields.len() <= arr.arrays.len() {
            arr.fields.len()
        } else {
            arr.arrays.len()
        };
        let mut columns: Vec<Series> = Vec::new();
        let mut i: usize = 0;
        while i < n
            invariant
                i <= n,
                n == paired(arr),
                arr.validity is None,
                first_bad_field(arr, i as int) is None,
                columns@.len() == i,
                forall|k: int| 0 <= k < i ==> (#[trigger] columns@[k])@ == field_column(arr, k),
            decreases n - i,
        {
            let field = &arr.fields[i];
            let mut values: Vec<AnyValue> = Vec::new();
            let source = &arr.arrays[i];
            let mut j: usize = 0;
            while j < source.len()
                invariant
                    j <= source.len(),
                    values@.len() == j,
                    forall|k: int| 0 <= k < j ==> (#[trigger] values@[k])@ == source@[k]@,
                decreases source.len() - j,
            {
                values.push(source[j].clone());
                j += 1;
            }
            assert(values_view(values@) =~= values_view(source@));
            match Series::new(field.name.as_str(), field.dtype.duplicate(), values) {
                Ok(s) => {
                    columns.push(s);
                },
                Err(e) => {
                    proof {
                        assert(first_bad_field(arr, i as int + 1) == Some(i as int));
                        lemma_first_bad_field_stable(arr, i as int + 1, n as int);
                    }
                    return Err(e);
                },
            }
            i += 1;
        }
        assert(columns_view(columns@) =~= Seq::new(paired(arr), |i: int| field_column(arr, i)));
        DataFrame::new(arr.height, columns)
    }
}

impl Clone for DataFrame {
    fn clone(&self) -> (r: Self)
        ensures
            r@ == self@,
    {
        proof {
            use_type_invariant(self);
        }
        let mut out: Vec<Series> = Vec::new();
        let mut i: usize = 0;
        while i < self.columns.len()
            invariant
                i <= self.columns.len(),
                out@.len() == i,
                forall|k: int| 0 <= k < i ==> out@[k]@ == self.columns@[k]@,
            decreases self.columns.len() - i,
        {
            out.push(self.columns[i].clone());
            i += 1;
        }
        assert(columns_view(out@) =~= columns_view(self.columns@));
        DataFrame { height: self.height, columns: out }
    }
}

/// The frame that is left of a frame without columns after a filter: it
/// has no columns either, and counts the rows that the mask keeps. A mask of
/// one value stands for every row; any other mask must be as long as the
/// frame is high.
pub fn filter_zero_width(height: usize, mask: &BooleanChunked) -> (r: ApolloResult<DataFrame>)
    ensures
        match r {
            Ok(f) => (mask@.len() == 1 || mask@.len() == height) && f@ == (DataFrameView {
                height: if mask@.len() == 1 {
                    if mask@[0] == Some(true) {
                        height as nat
                    } else {
                        0
                    }
                } else {
                    count_trues(mask@)
                },
                columns: Seq::empty(),
            }),
            Err(e) => mask@.len() != 1 && mask@.len() != height && e@ == ErrorView::Simple(
                ErrorKind::ShapeMismatch,
                mask_mismatch_message(height as nat, mask@.len()),
            ),
        },
{
    let new_height = if mask.len() == 1 {
        match mask.get(0) {
            Some(true) => height,
            _ => 0,
        }
    } else {
        if height != mask.len() {
            let mut msg = String::from_str("cannot filter DataFrame of height ");
            push_decimal(&mut msg, height);
            msg.append(" with mask of length ");
            push_decimal(&mut msg, mask.len());
            assert(msg@ =~= mask_mismatch_message(height as nat, mask@.len()));
            return Err(ApolloError::ShapeMismatch(msg));
        }
        mask.num_trues()
    };
    Ok(DataFrame::empty_with_height(new_height))
}

} // verus!
