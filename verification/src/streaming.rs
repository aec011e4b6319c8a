//! The streaming engine's way through a pipeline: the source is cut into
//! morsels, every morsel passes through all operators, and the results are
//! put one below the other. What comes out is what the in-memory executor
//! gives for the same plan.

use vstd::prelude::*;
use vstd::string::*;
use crate::error::ApolloError;
use crate::error::ApolloResult;
use crate::error::ErrorKind;
use crate::error::ErrorView;
use crate::executor::frame_result_view;
use crate::executor::spec_execute;
use crate::executor::ExecutionState;
use crate::executor::PhysicalPlan;
use crate::executor::StateView;
use crate::frame::column_index;
use crate::frame::column_index_upto;
use crate::frame::column_names;
use crate::frame::column_names_unique;
use crate::frame::columns_have_height;
use crate::frame::first_unknown;
use crate::frame::frame_wf;
use crate::frame::lemma_first_unknown;
use crate::frame::lemma_column_index_upto;
use crate::frame::lemma_no_repeat_is_unique_columns;
use crate::frame::mask_of;
use crate::frame::names_view;
use crate::frame::picks_of;
use crate::frame::same_schema;
use crate::frame::slice_height;
use crate::frame::spec_filter;
use crate::frame::spec_filter_by;
use crate::frame::spec_select;
use crate::frame::spec_select_by;
use crate::frame::spec_slice;
use crate::frame::spec_vstack;
use crate::frame::DataFrame;
use crate::frame::DataFrameView;
use crate::schema::first_repeated;
use crate::series::as_bool;
use crate::series::count_trues;
use crate::series::filter_seq;
use crate::series::lemma_filter_concat;
use crate::series::lemma_filter_len;
use crate::series::slice_seq;
use crate::series::SeriesView;

verus! {

/// Whether a plan is a pipeline: a scan with filters and selections above it.
pub open spec fn streamable(plan: PhysicalPlan) -> bool
    decreases plan,
{
    match plan {
        PhysicalPlan::Scan { df } => true,
        PhysicalPlan::Filter { input, predicate } => streamable(*input),
        PhysicalPlan::Select { input, columns } => streamable(*input),
        _ => false,
    }
}

/// The number of rows of the scan at the bottom of a pipeline.
pub open spec fn source_height(plan: PhysicalPlan) -> nat
    decreases plan,
{
    match plan {
        PhysicalPlan::Scan { df } => df@.height,
        PhysicalPlan::Filter { input, predicate } => source_height(*input),
        PhysicalPlan::Select { input, columns } => source_height(*input),
        _ => 0,
    }
}

/// The frame at the bottom of a pipeline is a frame: its columns are as
/// long as it is high and have distinct names.
pub open spec fn source_wf(plan: PhysicalPlan) -> bool
    decreases plan,
{
    match plan {
        PhysicalPlan::Scan { df } => frame_wf(df@),
        PhysicalPlan::Filter { input, predicate } => source_wf(*input),
        PhysicalPlan::Select { input, columns } => source_wf(*input),
        _ => true,
    }
}

/// What comes out of a pipeline for the morsel of `len` rows from row
/// `offset` of the source on.
pub open spec fn spec_morsel(plan: PhysicalPlan, offset: nat, len: nat) -> Result<
    DataFrameView,
    ErrorView,
>
    decreases plan,
{
    match plan {
        PhysicalPlan::Scan { df } => Ok(spec_slice(df@, offset, len)),
        PhysicalPlan::Filter { input, predicate } => match spec_morsel(*input, offset, len) {
            Err(e) => Err(e),
            Ok(f) => spec_filter_by(f, predicate@),
        },
        PhysicalPlan::Select { input, columns } => match spec_morsel(*input, offset, len) {
            Err(e) => Err(e),
            Ok(f) => spec_select_by(f, names_view(columns@)),
        },
        _ => Err(ErrorView::Simple(ErrorKind::InvalidOperation, "not a pipeline"@)),
    }
}

/// The results of two morsels put one below the other; the first error
/// stands for both.
pub open spec fn merge(
    a: Result<DataFrameView, ErrorView>,
    b: Result<DataFrameView, ErrorView>,
) -> Result<DataFrameView, ErrorView> {
    match a {
        Err(e) => Err(e),
        Ok(x) => match b {
            Err(e) => Err(e),
            Ok(y) => Ok(spec_vstack(x, y)),
        },
    }
}

/// What the streaming engine has after `count` morsels of `size` rows:
/// the result of the first morsel, and below it those of the others in the
/// order of the source.
pub open spec fn spec_stream(plan: PhysicalPlan, size: nat, count: nat) -> Result<
    DataFrameView,
    ErrorView,
>
    decreases count,
{
    if count <= 1 {
        spec_morsel(plan, 0, size)
    } else {
        merge(
            spec_stream(plan, size, (count - 1) as nat),
            spec_morsel(plan, ((count - 1) * size) as nat, size),
        )
    }
}

/// Two results that can be put one below the other: frames of the same
/// column names and types, or one and the same error.
pub open spec fn compatible(
    a: Result<DataFrameView, ErrorView>,
    b: Result<DataFrameView, ErrorView>,
) -> bool {
    match a {
        Ok(x) => b matches Ok(y) && same_schema(x, y) && frame_wf(x) && frame_wf(y),
        Err(e) => b == a,
    }
}

proof fn lemma_column_index_same_names(
    a: Seq<SeriesView>,
    b: Seq<SeriesView>,
    name: Seq<char>,
    upto: int,
)
    requires
        a.len() == b.len(),
        0 <= upto <= a.len(),
        forall|i: int| 0 <= i < a.len() ==> (#[trigger] a[i]).name == b[i].name,
    ensures
        column_index_upto(a, name, upto) == column_index_upto(b, name, upto),
    decreases upto,
{
    if upto > 0 {
        lemma_column_index_same_names(a, b, name, upto - 1);
        assert(a[upto - 1].name == b[upto - 1].name);
    }
}

proof fn lemma_first_unknown_same_names(
    a: Seq<SeriesView>,
    b: Seq<SeriesView>,
    names: Seq<Seq<char>>,
    upto: int,
)
    requires
        a.len() == b.len(),
        forall|i: int| 0 <= i < a.len() ==> (#[trigger] a[i]).name == b[i].name,
    ensures
        first_unknown(a, names, upto) == first_unknown(b, names, upto),
    decreases upto,
{
    if upto > 0 {
        lemma_first_unknown_same_names(a, b, names, upto - 1);
        lemma_column_index_same_names(a, b, names[upto - 1], a.len() as int);
    }
}

proof fn lemma_count_trues_concat(a: Seq<Option<bool>>, b: Seq<Option<bool>>)
    ensures
        count_trues(a + b) == count_trues(a) + count_trues(b),
{
    lemma_filter_concat(a, a, b, b);
    lemma_filter_len(a, a);
    lemma_filter_len(b, b);
    lemma_filter_len(a + b, a + b);
}

proof fn lemma_vstack_facts(x: DataFrameView, y: DataFrameView)
    requires
        same_schema(x, y),
        frame_wf(x),
        frame_wf(y),
    ensures
        frame_wf(spec_vstack(x, y)),
        same_schema(x, spec_vstack(x, y)),
        spec_vstack(x, y).columns.len() == x.columns.len(),
{
    let z = spec_vstack(x, y);
    assert forall|i: int| 0 <= i < z.columns.len() implies (#[trigger] z.columns[i]).values.len()
        == z.height by {
        assert(x.columns[i].values.len() == x.height);
        assert(y.columns[i].values.len() == y.height);
    }
    assert forall|i: int, j: int| 0 <= i < j < z.columns.len() implies z.columns[i].name
        != z.columns[j].name by {
        assert(z.columns[i].name == x.columns[i].name);
        assert(z.columns[j].name == x.columns[j].name);
    }
}

/// Filtering two frames and putting the results one below the other
/// gives what filtering the two frames put one below the other gives.
proof fn lemma_filter_by_splits(x: DataFrameView, y: DataFrameView, name: Seq<char>)
    requires
        same_schema(x, y),
        frame_wf(x),
        frame_wf(y),
    ensures
        compatible(spec_filter_by(x, name), spec_filter_by(y, name)),
        merge(spec_filter_by(x, name), spec_filter_by(y, name)) == spec_filter_by(
            spec_vstack(x, y),
            name,
        ),
{
    let z = spec_vstack(x, y);
    lemma_vstack_facts(x, y);
    lemma_column_index_same_names(x.columns, y.columns, name, x.columns.len() as int);
    lemma_column_index_same_names(x.columns, z.columns, name, x.columns.len() as int);
    lemma_column_index_upto(x.columns, name, x.columns.len() as int);
    match column_index(x.columns, name) {
        None => {},
        Some(i) => {
            assert(x.columns[i].dtype == y.columns[i].dtype);
            assert(z.columns[i].dtype == x.columns[i].dtype);
            if x.columns[i].dtype is Boolean {
                let mx = mask_of(x.columns[i]);
                let my = mask_of(y.columns[i]);
                let mz = mask_of(z.columns[i]);
                assert(x.columns[i].values.len() == x.height);
                assert(y.columns[i].values.len() == y.height);
                assert(mz =~= mx + my);
                let fx = spec_filter(x, mx);
                let fy = spec_filter(y, my);
                let fz = spec_filter(z, mz);
                lemma_count_trues_concat(mx, my);
                assert forall|k: int| 0 <= k < fz.columns.len() implies #[trigger] fz.columns[k]
                    == spec_vstack(fx, fy).columns[k] by {
                    assert(x.columns[k].values.len() == x.height);
                    assert(y.columns[k].values.len() == y.height);
                    lemma_filter_concat(x.columns[k].values, mx, y.columns[k].values, my);
                    assert(z.columns[k].values == x.columns[k].values + y.columns[k].values);
                }
                assert(fz.columns =~= spec_vstack(fx, fy).columns);
                assert(fz == spec_vstack(fx, fy));
                assert forall|k: int| 0 <= k < fx.columns.len() implies (
                #[trigger] fx.columns[k]).values.len() == fx.height by {
                    assert(x.columns[k].values.len() == x.height);
                    lemma_filter_len(x.columns[k].values, mx);
                }
                assert forall|k: int| 0 <= k < fy.columns.len() implies (
                #[trigger] fy.columns[k]).values.len() == fy.height by {
                    assert(y.columns[k].values.len() == y.height);
                    lemma_filter_len(y.columns[k].values, my);
                }
                assert forall|a: int, b: int| 0 <= a < b < fx.columns.len() implies fx.columns[a].name
                    != fx.columns[b].name by {
                    assert(fx.columns[a].name == x.columns[a].name);
                    assert(fx.columns[b].name == x.columns[b].name);
                }
                assert forall|a: int, b: int| 0 <= a < b < fy.columns.len() implies fy.columns[a].name
                    != fy.columns[b].name by {
                    assert(fy.columns[a].name == y.columns[a].name);
                    assert(fy.columns[b].name == y.columns[b].name);
                }
                assert forall|k: int| 0 <= k < fx.columns.len() implies (
                #[trigger] fx.columns[k]).name == fy.columns[k].name && fx.columns[k].dtype
                    == fy.columns[k].dtype by {
                    assert(x.columns[k].name == y.columns[k].name);
                }
            }
        },
    }
}

/// Selecting from two frames and putting the results one below the
/// other gives what selecting from the two frames put one below the other
/// gives.
proof fn lemma_select_by_splits(x: DataFrameView, y: DataFrameView, names: Seq<Seq<char>>)
    requires
        same_schema(x, y),
        frame_wf(x),
        frame_wf(y),
    ensures
        compatible(spec_select_by(x, names), spec_select_by(y, names)),
        merge(spec_select_by(x, names), spec_select_by(y, names)) == spec_select_by(
            spec_vstack(x, y),
            names,
        ),
{
    let z = spec_vstack(x, y);
    let n = names.len() as int;
    lemma_vstack_facts(x, y);
    lemma_first_unknown_same_names(x.columns, y.columns, names, n);
    lemma_first_unknown_same_names(x.columns, z.columns, names, n);
    if first_unknown(x.columns, names, n) is None && first_repeated(names, n) is None {
        lemma_first_unknown(x.columns, names, n);
        let px = picks_of(x.columns, names);
        let py = picks_of(y.columns, names);
        let pz = picks_of(z.columns, names);
        assert forall|k: int| 0 <= k < n implies #[trigger] px[k] == py[k] && px[k] == pz[k] && 0
            <= px[k] < x.columns.len() && x.columns[px[k]].name == names[k] by {
            lemma_column_index_same_names(x.columns, y.columns, names[k], x.columns.len() as int);
            lemma_column_index_same_names(x.columns, z.columns, names[k], x.columns.len() as int);
            lemma_column_index_upto(x.columns, names[k], x.columns.len() as int);
        }
        assert(px =~= py);
        assert(px =~= pz);
        let sx = spec_select(x, px);
        let sy = spec_select(y, px);
        let sz = spec_select(z, px);
        assert forall|k: int| 0 <= k < sz.columns.len() implies #[trigger] sz.columns[k]
            == spec_vstack(sx, sy).columns[k] by {
            assert(0 <= px[k] < x.columns.len());
        }
        assert(sz.columns =~= spec_vstack(sx, sy).columns);
        assert(sz == spec_vstack(sx, sy));
        assert(column_names(sx.columns) =~= names);
        assert(column_names(sy.columns) =~= names) by {
            assert forall|k: int| 0 <= k < n implies #[trigger] sy.columns[k].name == names[k] by {
                assert(0 <= px[k] < x.columns.len());
                assert(y.columns[px[k]].name == x.columns[px[k]].name);
            }
        }
        lemma_no_repeat_is_unique_columns(sx.columns);
        lemma_no_repeat_is_unique_columns(sy.columns);
        assert forall|k: int| 0 <= k < sx.columns.len() implies (
        #[trigger] sx.columns[k]).values.len() == sx.height by {
            assert(0 <= px[k] < x.columns.len());
            assert(x.columns[px[k]].values.len() == x.height);
        }
        assert forall|k: int| 0 <= k < sy.columns.len() implies (
        #[trigger] sy.columns[k]).values.len() == sy.height by {
            assert(0 <= px[k] < x.columns.len());
            assert(y.columns[px[k]].values.len() == y.height);
        }
        assert forall|k: int| 0 <= k < sx.columns.len() implies (#[trigger] sx.columns[k]).name
            == sy.columns[k].name && sx.columns[k].dtype == sy.columns[k].dtype by {
            assert(0 <= px[k] < x.columns.len());
            assert(x.columns[px[k]].name == y.columns[px[k]].name);
        }
    }
}

/// Cutting a frame at a row and putting the two parts one below the
/// other gives the frame back.
proof fn lemma_slice_splits(f: DataFrameView, offset: nat, a: nat, b: nat)
    requires
        frame_wf(f),
    ensures
        compatible(
            Ok::<DataFrameView, ErrorView>(spec_slice(f, offset, a)),
            Ok::<DataFrameView, ErrorView>(spec_slice(f, offset + a, b)),
        ),
        spec_vstack(spec_slice(f, offset, a), spec_slice(f, offset + a, b)) == spec_slice(
            f,
            offset,
            a + b,
        ),
{
    let x = spec_slice(f, offset, a);
    let y = spec_slice(f, offset + a, b);
    let z = spec_slice(f, offset, a + b);
    assert forall|k: int| 0 <= k < f.columns.len() implies #[trigger] spec_vstack(x, y).columns[k]
        == z.columns[k] && x.columns[k].values.len() == x.height && y.columns[k].values.len()
        == y.height by {
        let v = f.columns[k].values;
        assert(v.len() == f.height);
        assert(slice_seq(v, offset, a) + slice_seq(v, offset + a, b) =~= slice_seq(
            v,
            offset,
            a + b,
        ));
    }
    assert(spec_vstack(x, y).columns =~= z.columns);
    assert forall|i: int, j: int| 0 <= i < j < x.columns.len() implies x.columns[i].name
        != x.columns[j].name && y.columns[i].name != y.columns[j].name by {
        assert(x.columns[i].name == f.columns[i].name);
        assert(x.columns[j].name == f.columns[j].name);
        assert(y.columns[i].name == f.columns[i].name);
        assert(y.columns[j].name == f.columns[j].name);
    }
    assert forall|k: int| 0 <= k < x.columns.len() implies (#[trigger] x.columns[k]).name
        == y.columns[k].name && x.columns[k].dtype == y.columns[k].dtype by {}
    assert forall|k: int| 0 <= k < x.columns.len() implies (#[trigger] x.columns[k]).values.len()
        == x.height by {
        assert(spec_vstack(x, y).columns[k] == z.columns[k]);
    }
    assert forall|k: int| 0 <= k < y.columns.len() implies (#[trigger] y.columns[k]).values.len()
        == y.height by {
        assert(spec_vstack(x, y).columns[k] == z.columns[k]);
    }
}

/// Two morsels that follow one another give, put one below the other,
/// what the one morsel of both gives.
pub proof fn lemma_morsel_splits(plan: PhysicalPlan, offset: nat, a: nat, b: nat)
    requires
        streamable(plan),
        source_wf(plan),
    ensures
        compatible(spec_morsel(plan, offset, a), spec_morsel(plan, offset + a, b)),
        merge(spec_morsel(plan, offset, a), spec_morsel(plan, offset + a, b)) == spec_morsel(
            plan,
            offset,
            a + b,
        ),
    decreases plan,
{
    match plan {
        PhysicalPlan::Scan { df } => {
            lemma_slice_splits(df@, offset, a, b);
        },
        PhysicalPlan::Filter { input, predicate } => {
            lemma_morsel_splits(*input, offset, a, b);
            match spec_morsel(*input, offset, a) {
                Err(e) => {},
                Ok(x) => {
                    let y = spec_morsel(*input, offset + a, b)->Ok_0;
                    lemma_filter_by_splits(x, y, predicate@);
                },
            }
        },
        PhysicalPlan::Select { input, columns } => {
            lemma_morsel_splits(*input, offset, a, b);
            match spec_morsel(*input, offset, a) {
                Err(e) => {},
                Ok(x) => {
                    let y = spec_morsel(*input, offset + a, b)->Ok_0;
                    lemma_select_by_splits(x, y, names_view(columns@));
                },
            }
        },
        _ => {},
    }
}

/// The one morsel of all rows gives what the in-memory executor gives.
pub proof fn lemma_whole_morsel_is_in_memory(plan: PhysicalPlan, len: nat, ext: Seq<DataFrameView>)
    requires
        streamable(plan),
        source_wf(plan),
        len >= source_height(plan),
    ensures
        spec_morsel(plan, 0, len) == spec_execute(plan, false, ext).result,
        spec_execute(plan, false, ext).ext_contexts == ext,
    decreases plan,
{
    match plan {
        PhysicalPlan::Scan { df } => {
            let f = df@;
            let s = spec_slice(f, 0, len);
            assert forall|k: int| 0 <= k < f.columns.len() implies #[trigger] s.columns[k]
                == f.columns[k] by {
                assert(f.columns[k].values.len() == f.height);
                assert(slice_seq(f.columns[k].values, 0, len) =~= f.columns[k].values);
            }
            assert(s.columns =~= f.columns);
        },
        PhysicalPlan::Filter { input, predicate } => {
            lemma_whole_morsel_is_in_memory(*input, len, ext);
        },
        PhysicalPlan::Select { input, columns } => {
            lemma_whole_morsel_is_in_memory(*input, len, ext);
        },
        _ => {},
    }
}

/// A morsel gives no more rows than it holds.
pub proof fn lemma_morsel_height(plan: PhysicalPlan, offset: nat, len: nat)
    requires
        streamable(plan),
        source_wf(plan),
    ensures
        spec_morsel(plan, offset, len) matches Ok(f) ==> f.height <= len && frame_wf(f),
    decreases plan,
{
    lemma_morsel_splits(plan, offset, len, 0);
    match plan {
        PhysicalPlan::Scan { df } => {},
        PhysicalPlan::Filter { input, predicate } => {
            lemma_morsel_height(*input, offset, len);
            match spec_morsel(*input, offset, len) {
                Err(e) => {},
                Ok(x) => {
                    match column_index(x.columns, predicate@) {
                        None => {},
                        Some(i) => {
                            lemma_column_index_upto(x.columns, predicate@, x.columns.len() as int);
                            assert(x.columns[i].values.len() == x.height);
                            lemma_filter_len(x.columns[i].values, mask_of(x.columns[i]));
                        },
                    }
                },
            }
        },
        PhysicalPlan::Select { input, columns } => {
            lemma_morsel_height(*input, offset, len);
        },
        _ => {},
    }
}

/// Streaming and in-memory execution agree.
///
/// For every pipeline and every size of morsel, once the morsels cover
/// the source, the streaming engine has exactly what the in-memory executor
/// gives: the same rows in the same order, or the same error.
pub proof fn lemma_streaming_is_in_memory(
    plan: PhysicalPlan,
    size: nat,
    count: nat,
    ext: Seq<DataFrameView>,
)
    requires
        streamable(plan),
        source_wf(plan),
        count >= 1,
        count * size >= source_height(plan),
    ensures
        spec_stream(plan, size, count) == spec_execute(plan, false, ext).result,
{
    lemma_stream_is_one_morsel(plan, size, count);
    lemma_whole_morsel_is_in_memory(plan, count * size, ext);
}

proof fn lemma_stream_is_one_morsel(plan: PhysicalPlan, size: nat, count: nat)
    requires
        streamable(plan),
        source_wf(plan),
        count >= 1,
    ensures
        spec_stream(plan, size, count) == spec_morsel(plan, 0, count * size),
    decreases count,
{
    if count <= 1 {
        assert(count * size == size) by (nonlinear_arith)
            requires
                count == 1,
        ;
    } else {
        lemma_stream_is_one_morsel(plan, size, (count - 1) as nat);
        let done = ((count - 1) * size) as nat;
        assert(done + size == count * size) by (nonlinear_arith)
            requires
                done == (count - 1) * size,
                count >= 1,
        ;
        lemma_morsel_splits(plan, 0, done, size);
    }
}

/// Whether a plan is a pipeline.
pub fn is_streamable(plan: &PhysicalPlan) -> (r: bool)
    ensures
        r == streamable(*plan),
    decreases plan,
{
    match plan {
        PhysicalPlan::Scan { df } => true,
        PhysicalPlan::Filter { input, predicate } => is_streamable(&**input),
        PhysicalPlan::Select { input, columns } => is_streamable(&**input),
        _ => false,
    }
}

/// The number of rows of the scan at the bottom of a pipeline.
pub fn source_rows(plan: &PhysicalPlan) -> (n: usize)
    requires
        streamable(*plan),
    ensures
        n == source_height(*plan),
        source_wf(*plan),
    decreases plan,
{
    match plan {
        PhysicalPlan::Scan { df } => df.height(),
        PhysicalPlan::Filter { input, predicate } => source_rows(&**input),
        PhysicalPlan::Select { input, columns } => source_rows(&**input),
        _ => 0,
    }
}

/// Sends the morsel of `len` rows from row `offset` of the source on
/// through the pipeline.
pub fn run_morsel(plan: &PhysicalPlan, offset: usize, len: usize) -> (r: ApolloResult<DataFrame>)
    requires
        streamable(*plan),
    ensures
        frame_result_view(r) == spec_morsel(*plan, offset as nat, len as nat),
    decreases plan,
{
    match plan {
        PhysicalPlan::Scan { df } => Ok(df.slice(offset, len)),
        PhysicalPlan::Filter { input, predicate } => {
            match run_morsel(&**input, offset, len) {
                Err(e) => Err(e),
                Ok(f) => f.filter_by(predicate.as_str()),
            }
        },
        PhysicalPlan::Select { input, columns } => {
            match run_morsel(&**input, offset, len) {
                Err(e) => Err(e),
                Ok(f) => f.select(columns),
            }
        },
        _ => Err(ApolloError::InvalidOperation(String::from_str("not a pipeline"))),
    }
}

/// Evaluates the plan morsel by morsel.
///
/// A pipeline is run in morsels of `morsel_size` rows, of one row where
/// `morsel_size` is 0; there is always a first morsel, so that an empty
/// source still gives a frame with the columns of the result. Any other
/// plan, and a cancelled execution, is left to the in-memory executor.
/// Whatever the size of the morsels, the result is that of the in-memory
/// executor.
pub fn execute_streaming(plan: &PhysicalPlan, state: &mut ExecutionState, morsel_size: usize) -> (r:
    ApolloResult<DataFrame>)
    ensures
        frame_result_view(r) == spec_execute(
            *plan,
            old(state)@.cancelled,
            old(state)@.ext_contexts,
        ).result,
        final(state)@ == (StateView {
            ext_contexts: spec_execute(
                *plan,
                old(state)@.cancelled,
                old(state)@.ext_contexts,
            ).ext_contexts,
            ..old(state)@
        }),
{
    if state.is_cancelled() || !is_streamable(plan) {
        return plan.execute(state);
    }
    let size = if morsel_size == 0 {
        1
    } else {
        morsel_size
    };
    let n = source_rows(plan);
    let ghost ext = state@.ext_contexts;
    proof {
        lemma_whole_morsel_is_in_memory(*plan, n as nat, ext);
    }
    let first = if size < n {
        size
    } else {
        n
    };
    proof {
        lemma_morsel_splits(*plan, 0, first as nat, (n - first) as nat);
        lemma_morsel_height(*plan, 0, first as nat);
    }
    let mut out = match run_morsel(plan, 0, first) {
        Ok(f) => f,
        Err(e) => {
            return Err(e);
        },
    };
    let mut done: usize = first;
    while done < n
        invariant
            done <= n,
            size >= 1,
            streamable(*plan),
            source_wf(*plan),
            n == source_height(*plan),
            state@ == old(state)@,
            !old(state)@.cancelled,
            ext == old(state)@.ext_contexts,
            spec_morsel(*plan, 0, n as nat) == spec_execute(*plan, false, ext).result,
            spec_execute(*plan, false, ext).ext_contexts == ext,
            spec_morsel(*plan, 0, done as nat) == Ok::<DataFrameView, ErrorView>(out@),
            out@.height <= done,
        decreases n - done,
    {
        let len = if size < n - done {
            size
        } else {
            n - done
        };
        proof {
            lemma_morsel_splits(*plan, 0, done as nat, len as nat);
            lemma_morsel_splits(*plan, 0, (done + len) as nat, (n - done - len) as nat);
            lemma_morsel_height(*plan, done as nat, len as nat);
        }
        match run_morsel(plan, done, len) {
            Err(e) => {
                return Err(e);
            },
            Ok(next) => {
                match out.vstack(&next) {
                    Ok(_) => {},
                    Err(e) => {
                        assert(false);
                        return Err(e);
                    },
                }
            },
        }
        done = done + len;
    }
    Ok(out)
}

} // verus!
