//! Reading many files as one table: each file's columns are set against
//! the unified schema, and what the file lacks or has in excess is handled
//! as the scan's options say.

use vstd::prelude::*;
use vstd::string::*;
use crate::datatypes::DataTypeView;
use crate::error::ApolloError;
use crate::error::ApolloResult;
use crate::error::ErrorKind;
use crate::error::ErrorView;
use crate::frame::column_names_unique;
use crate::frame::columns_have_height;
use crate::frame::columns_view;
use crate::frame::frame_wf;
use crate::frame::lemma_first_wrong_height;
use crate::frame::schema_of;
use crate::frame::DataFrame;
use crate::frame::DataFrameView;
use crate::schema::index_of_name;
use crate::schema::names_unique;
use crate::schema::Schema;
use crate::schema::SchemaView;
use crate::series::AnyValueView;
use crate::series::Series;
use crate::series::SeriesView;
use crate::text::concat3;

verus! {

/// What to do with a column of the unified schema that a file lacks.
#[derive(Clone, Copy, Debug, PartialEq, Eq, Structural)]
pub enum MissingColumnsPolicy {
    Raise,
    Insert,
}

/// What to do with a column of a file that the unified schema lacks.
#[derive(Clone, Copy, Debug, PartialEq, Eq, Structural)]
pub enum ExtraColumnsPolicy {
    Raise,
    Ignore,
}

/// Where a column of the unified schema comes from, for one file.
#[derive(Clone, Copy, Debug, PartialEq, Eq, Structural)]
pub enum ColumnSource {
    /// The file's column at this position.
    Present(usize),
    /// The file has no such column: nulls of the declared type stand for it.
    InsertNull,
}

/// The message of the error for a column that a file lacks.
pub open spec fn missing_column_message(name: Seq<char>) -> Seq<char> {
    "did not find column "@ + name + ", consider passing `missing_columns='insert'`"@
}

/// The message of the error for a column that only a file has.
pub open spec fn extra_column_message(name: Seq<char>, file_path: Seq<char>) -> Seq<char> {
    "extra column in file outside of expected schema: "@ + name
        + ", hint: specify this column in the schema, or pass extra_columns='ignore' in scan options. File containing extra column: '"@
        + file_path + "'."@
}

/// The error for a column of the unified schema that a file does not have.
pub fn missing_column_err(missing_column_name: &str) -> (e: ApolloError)
    ensures
        e@ == ErrorView::Simple(
            ErrorKind::ColumnNotFound,
            missing_column_message(missing_column_name@),
        ),
{
    ApolloError::ColumnNotFound(
        concat3(
            "did not find column ",
            missing_column_name,
            ", consider passing `missing_columns='insert'`",
        ),
    )
}

/// The error for a column of a file that the unified schema does not have.
pub fn extra_column_err(extra_column_name: &str, file_path: &str) -> (e: ApolloError)
    ensures
        e@ == ErrorView::Simple(
            ErrorKind::SchemaMismatch,
            extra_column_message(extra_column_name@, file_path@),
        ),
{
    let mut msg = String::from_str("extra column in file outside of expected schema: ");
    msg.append(extra_column_name);
    msg.append(
        ", hint: specify this column in the schema, or pass extra_columns='ignore' in scan options. File containing extra column: '",
    );
    msg.append(file_path);
    msg.append("'.");
    assert(msg@ =~= extra_column_message(extra_column_name@, file_path@));
    ApolloError::SchemaMismatch(msg)
}

/// The first of the first `upto` columns of `file` that `unified` lacks.
pub open spec fn first_extra(unified: SchemaView, file: SchemaView, upto: int) -> Option<int>
    decreases upto,
{
    if upto <= 0 {
        None
    } else {
        match first_extra(unified, file, upto - 1) {
            Some(j) => Some(j),
            None => if index_of_name(unified, file[upto - 1].0) is None {
                Some(upto - 1)
            } else {
                None
            },
        }
    }
}

/// The first of the first `upto` columns of `unified` that `file` lacks.
pub open spec fn first_missing(unified: SchemaView, file: SchemaView, upto: int) -> Option<int>
    decreases upto,
{
    if upto <= 0 {
        None
    } else {
        match first_missing(unified, file, upto - 1) {
            Some(i) => Some(i),
            None => if index_of_name(file, unified[upto - 1].0) is None {
                Some(upto - 1)
            } else {
                None
            },
        }
    }
}

/// What `first_extra` finds stays found when more columns are looked at.
pub proof fn lemma_first_extra_stable(unified: SchemaView, file: SchemaView, a: int, b: int)
    requires
        a <= b,
        first_extra(unified, file, a) is Some,
    ensures
        first_extra(unified, file, b) == first_extra(unified, file, a),
    decreases b - a,
{
    if a < b {
        lemma_first_extra_stable(unified, file, a, b - 1);
    }
}

/// What `first_missing` finds stays found when more columns are looked at.
pub proof fn lemma_first_missing_stable(unified: SchemaView, file: SchemaView, a: int, b: int)
    requires
        a <= b,
        first_missing(unified, file, a) is Some,
    ensures
        first_missing(unified, file, b) == first_missing(unified, file, a),
    decreases b - a,
{
    if a < b {
        lemma_first_missing_stable(unified, file, a, b - 1);
    }
}

/// Where column `i` of the unified schema comes from.
pub open spec fn source_of(unified: SchemaView, file: SchemaView, i: int) -> ColumnSource {
    match index_of_name(file, unified[i].0) {
        Some(j) => ColumnSource::Present(j as usize),
        None => ColumnSource::InsertNull,
    }
}

/// Sets a file's schema against the unified schema.
///
/// The result has one entry for each column of the unified schema, in the
/// order of the unified schema: the position of the file's column of that
/// name, or the mark that nulls stand for it. A column that only the file
/// has is an error unless extra columns are ignored; the first such column,
/// in the file's order, is named. Else a column that the file lacks is an
/// error unless missing columns are inserted; the first such column, in the
/// order of the unified schema, is named.
pub fn resolve_projection(
    unified: &Schema,
    file: &Schema,
    file_path: &str,
    missing_columns: MissingColumnsPolicy,
    extra_columns: ExtraColumnsPolicy,
) -> (r: ApolloResult<Vec<ColumnSource>>)
    ensures
        match r {
            Ok(p) => {
                &&& extra_columns == ExtraColumnsPolicy::Ignore || first_extra(
                    unified@,
                    file@,
                    file@.len() as int,
                ) is None
                &&& missing_columns == MissingColumnsPolicy::Insert || first_missing(
                    unified@,
                    file@,
                    unified@.len() as int,
                ) is None
                &&& p@.len() == unified@.len()
                &&& forall|i: int| 0 <= i < p@.len() ==> p@[i] == source_of(unified@, file@, i)
                &&& forall|i: int|
                    0 <= i < p@.len() ==> (#[trigger] p@[i] matches ColumnSource::Present(j) ==> j
                        < file@.len() && file@[j as int].0 == unified@[i].0)
            },
            Err(e) => if extra_columns == ExtraColumnsPolicy::Raise && first_extra(
                unified@,
                file@,
                file@.len() as int,
            ) is Some {
                e@ == ErrorView::Simple(
                    ErrorKind::SchemaMismatch,
                    extra_column_message(
                        file@[first_extra(unified@, file@, file@.len() as int).unwrap()].0,
                        file_path@,
                    ),
                )
            } else {
                &&& missing_columns == MissingColumnsPolicy::Raise
                &&& first_missing(unified@, file@, unified@.len() as int) matches Some(i)
                &&& e@ == ErrorView::Simple(
                    ErrorKind::ColumnNotFound,
                    missing_column_message(unified@[i].0),
                )
            },
        },
{
    if let ExtraColumnsPolicy::Raise = extra_columns {
        let mut j: usize = 0;
        while j < file.len()
            invariant
                j <= file@.len(),
                extra_columns == ExtraColumnsPolicy::Raise,
                first_extra(unified@, file@, j as int) is None,
            decreases file@.len() - j,
        {
            if !unified.contains(file.name_at(j).as_str()) {
                proof {
                    assert(first_extra(unified@, file@, j as int + 1) == Some(j as int));
                    lemma_first_extra_stable(unified@, file@, j as int + 1, file@.len() as int);
                }
                return Err(extra_column_err(file.name_at(j).as_str(), file_path));
            }
            j += 1;
        }
    }
    let mut out: Vec<ColumnSource> = Vec::new();
    let mut i: usize = 0;
    while i < unified.len()
        invariant
            i <= unified@.len(),
            out@.len() == i,
            extra_columns == ExtraColumnsPolicy::Raise ==> first_extra(
                unified@,
                file@,
                file@.len() as int,
            ) is None,
            missing_columns == MissingColumnsPolicy::Raise ==> first_missing(
                unified@,
                file@,
                i as int,
            ) is None,
            forall|k: int| 0 <= k < i ==> out@[k] == source_of(unified@, file@, k),
            forall|k: int|
                0 <= k < i ==> (#[trigger] out@[k] matches ColumnSource::Present(j) ==> j
                    < file@.len() && file@[j as int].0 == unified@[k].0),
        decreases unified@.len() - i,
    {
        match file.index_of(unified.name_at(i).as_str()) {
            Some(j) => {
                out.push(ColumnSource::Present(j));
            },
            None => {
                if let MissingColumnsPolicy::Raise = missing_columns {
                    proof {
                        assert(first_missing(unified@, file@, i as int + 1) == Some(i as int));
                        lemma_first_missing_stable(
                            unified@,
                            file@,
                            i as int + 1,
                            unified@.len() as int,
                        );
                    }
                    return Err(missing_column_err(unified.name_at(i).as_str()));
                }
                out.push(ColumnSource::InsertNull);
            },
        }
        i += 1;
    }
    Ok(out)
}

/// Whatever the file's own column order, entry `i` of a projection
/// speaks of column `i` of the unified schema: a column that the file has is
/// found under the unified schema's name for that position, and only a
/// column that the file lacks is filled with nulls. So the place of a
/// column in the output depends on the unified schema alone.
pub proof fn lemma_projection_follows_unified_schema(unified: SchemaView, file: SchemaView, i: int)
    requires
        0 <= i < unified.len(),
        file.len() <= usize::MAX,
    ensures
        match source_of(unified, file, i) {
            ColumnSource::Present(j) => 0 <= j < file.len() && file[j as int].0 == unified[i].0,
            ColumnSource::InsertNull => forall|k: int| 0 <= k < file.len() ==> file[k].0 != unified[i].0,
        },
{
    crate::schema::lemma_index_of_name_upto(file, unified[i].0, file.len() as int);
}

/// The frame that a file's batch becomes under the unified schema.
pub open spec fn spec_reconcile(
    unified: SchemaView,
    projection: Seq<ColumnSource>,
    batch: DataFrameView,
) -> DataFrameView {
    DataFrameView {
        height: batch.height,
        columns: Seq::new(
            unified.len(),
            |i: int|
                match projection[i] {
                    ColumnSource::Present(j) => batch.columns[j as int],
                    ColumnSource::InsertNull => SeriesView {
                        name: unified[i].0,
                        dtype: unified[i].1,
                        values: Seq::new(batch.height, |k: int| AnyValueView::Null),
                    },
                },
        ),
    }
}

/// Whether a projection can be applied to a batch: it has an entry for
/// each column of the unified schema, and each column that it takes from the
/// batch is there under the unified schema's name.
pub open spec fn projection_applies(
    unified: SchemaView,
    projection: Seq<ColumnSource>,
    batch: DataFrameView,
) -> bool {
    &&& projection.len() == unified.len()
    &&& forall|i: int|
        0 <= i < projection.len() ==> (#[trigger] projection[i] matches ColumnSource::Present(j)
            ==> j < batch.columns.len() && batch.columns[j as int].name == unified[i].0)
}

/// Brings a batch of a file into the shape of the unified schema: the
/// columns stand in the order of the unified schema, each under its name; a
/// column that the file has keeps its values, a column that it lacks is all
/// null and of the declared type. Returns `None` where the projection does
/// not apply to the batch.
pub fn reconcile(unified: &Schema, projection: &Vec<ColumnSource>, batch: &DataFrame) -> (r: Option<
    DataFrame,
>)
    ensures
        r.is_some() == projection_applies(unified@, projection@, batch@),
        r matches Some(f) ==> {
            &&& f@ == spec_reconcile(unified@, projection@, batch@)
            &&& f@.columns.len() == unified@.len()
            &&& forall|i: int| 0 <= i < unified@.len() ==> (#[trigger] f@.columns[i]).name == unified@[i].0
        },
{
    let n = unified.len();
    let height = batch.height();
    if projection.len() != n {
        return None;
    }
    let ghost target = spec_reconcile(unified@, projection@, batch@);
    let mut out: Vec<Series> = Vec::new();
    let mut i: usize = 0;
    while i < n
        invariant
            i <= n,
            n == unified@.len(),
            projection@.len() == n,
            height == batch@.height,
            frame_wf(batch@),
            names_unique(unified@),
            target == spec_reconcile(unified@, projection@, batch@),
            out@.len() == i,
            forall|k: int| 0 <= k < i ==> out@[k]@ == target.columns[k],
            forall|k: int|
                0 <= k < i ==> (#[trigger] projection@[k] matches ColumnSource::Present(j) ==> j
                    < batch@.columns.len() && batch@.columns[j as int].name == unified@[k].0),
        decreases n - i,
    {
        match projection[i] {
            ColumnSource::Present(j) => {
                match batch.column_at(j) {
                    Some(c) => {
                        if !(*c.name() == *unified.name_at(i)) {
                            return None;
                        }
                        out.push(c.clone());
                    },
                    None => {
                        return None;
                    },
                }
            },
            ColumnSource::InsertNull => {
                out.push(
                    Series::full_null(
                        unified.name_at(i).as_str(),
                        unified.dtype_at(i).duplicate(),
                        height,
                    ),
                );
            },
        }
        i += 1;
    }
    proof {
        assert(columns_view(out@) =~= target.columns);
        assert forall|k: int| 0 <= k < target.columns.len() implies (#[trigger] target.columns[k]).name
            == unified@[k].0 by {
            assert(projection@[k] matches ColumnSource::Present(j) ==> batch@.columns[j as int].name
                == unified@[k].0);
        }
        assert(column_names_unique(target.columns));
        assert forall|k: int| 0 <= k < target.columns.len() implies (#[trigger] target.columns[k]).values.len()
            == height by {
            assert(projection@[k] matches ColumnSource::Present(j) ==> batch@.columns[j as int].values.len()
                == height);
        }
        lemma_first_wrong_height(target.columns, height as nat, target.columns.len() as int);
        crate::frame::lemma_no_repeat_is_unique_columns(target.columns);
    }
    match DataFrame::new(height, out) {
        Ok(f) => Some(f),
        Err(_) => {
            assert(false);
            None
        },
    }
}

} // verus!
