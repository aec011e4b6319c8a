use apollo::datatypes::DataType;
use apollo::error::ApolloError;
use apollo::error::ApolloResult;
use apollo::executor::ExecutionState;
use apollo::executor::ExternalContext;
use apollo::executor::PhysicalPlan;
use apollo::frame::DataFrame;
use apollo::morsel::Morsel;
use apollo::morsel::Resequencer;
use apollo::series::AnyValue;
use apollo::series::BooleanChunked;
use apollo::series::Series;
use apollo::streaming::execute_streaming;
use apollo::streaming::is_streamable;
use apollo::streaming::run_morsel;
use apollo::streaming::source_rows;

fn table(rows: usize) -> DataFrame {
    let id: Vec<AnyValue> = (0..rows).map(|i| AnyValue::Int(i as i64)).collect();
    let keep: Vec<AnyValue> = (0..rows)
        .map(|i| match i % 3 {
            0 => AnyValue::Boolean(true),
            1 => AnyValue::Boolean(false),
            _ => AnyValue::Null,
        })
        .collect();
    let even: Vec<AnyValue> = (0..rows).map(|i| AnyValue::Boolean(i % 2 == 0)).collect();
    let name: Vec<AnyValue> = (0..rows).map(|i| AnyValue::String(format!("row{i}"))).collect();
    DataFrame::new(
        rows,
        vec![
            Series::new("id", DataType::Int64, id).unwrap(),
            Series::new("keep", DataType::Boolean, keep).unwrap(),
            Series::new("even", DataType::Boolean, even).unwrap(),
            Series::new("name", DataType::String, name).unwrap(),
        ],
    )
    .unwrap()
}

fn scan(rows: usize) -> PhysicalPlan {
    PhysicalPlan::Scan { df: table(rows) }
}

fn filter(input: PhysicalPlan, predicate: &str) -> PhysicalPlan {
    PhysicalPlan::Filter { input: Box::new(input), predicate: predicate.to_string() }
}

fn select(input: PhysicalPlan, columns: &[&str]) -> PhysicalPlan {
    PhysicalPlan::Select {
        input: Box::new(input),
        columns: columns.iter().map(|c| c.to_string()).collect(),
    }
}

fn in_memory(plan: &PhysicalPlan) -> ApolloResult<DataFrame> {
    plan.execute(&mut ExecutionState::new())
}

fn ids(f: &DataFrame) -> Vec<i64> {
    let c = f.column_at(f.get_column_index("id").unwrap()).unwrap();
    (0..c.len())
        .map(|i| match c.get(i).unwrap() {
            AnyValue::Int(x) => *x,
            _ => panic!("an id"),
        })
        .collect()
}

#[test]
fn frames_filter_select_slice_and_stack() {
    let t = table(7);
    assert_eq!((t.height(), t.width()), (7, 4));
    assert_eq!(ids(&t.filter_by("keep").unwrap()), vec![0, 3, 6]);
    assert_eq!(ids(&t.filter_by("even").unwrap()), vec![0, 2, 4, 6]);
    assert_eq!(
        t.filter_by("id"),
        Err(ApolloError::SchemaMismatch(
            "invalid series dtype: expected `Boolean`, got `i64`".to_string()
        ))
    );
    assert_eq!(t.filter_by("nope"), Err(ApolloError::ColumnNotFound("not found: nope".to_string())));
    let s = t.select(&vec!["name".to_string(), "id".to_string()]).unwrap();
    assert_eq!((s.width(), s.column_at(0).unwrap().name().as_str()), (2, "name"));
    assert_eq!(
        t.select(&vec!["id".to_string(), "x".to_string(), "y".to_string()]),
        Err(ApolloError::ColumnNotFound("not found: x".to_string()))
    );
    assert_eq!(
        t.select(&vec!["id".to_string(), "name".to_string(), "id".to_string()]),
        Err(ApolloError::Duplicate("column with name 'id' has more than one occurrence".to_string()))
    );
    assert_eq!(ids(&t.slice(2, 3)), vec![2, 3, 4]);
    assert_eq!(ids(&t.slice(5, 10)), vec![5, 6]);
    assert_eq!(t.slice(9, 2).height(), 0);
    let mut top = t.slice(0, 3);
    assert_eq!(top.vstack(&t.slice(3, 4)), Ok(()));
    assert_eq!(top, t);
    assert_eq!(
        top.vstack(&s),
        Err(ApolloError::ShapeMismatch(
            "unable to vstack, column names or dtypes don't match".to_string()
        ))
    );
    assert_eq!(top, t);
    let mask = BooleanChunked::new(vec![Some(true); 3]);
    assert_eq!(
        t.filter(&mask),
        Err(ApolloError::ShapeMismatch(
            "cannot filter DataFrame of height 7 with mask of length 3".to_string()
        ))
    );
    assert_eq!(t.schema().index_of("even"), Some(2));
    assert_eq!(
        DataFrame::new(2, vec![Series::full_null("a", DataType::Int8, 3)]),
        Err(ApolloError::ShapeMismatch(
            "height of DataFrame (2) does not match length of column 'a' (3)".to_string()
        ))
    );
}

#[test]
fn in_memory_execution() {
    let plan = select(filter(filter(scan(20), "keep"), "even"), &["id", "name"]);
    let out = in_memory(&plan).unwrap();
    assert_eq!(ids(&out), vec![0, 6, 12, 18]);
    assert_eq!(out.width(), 2);
    let missing = filter(select(scan(5), &["id"]), "keep");
    assert_eq!(in_memory(&missing), Err(ApolloError::ColumnNotFound("not found: keep".to_string())));
}

#[test]
fn streaming_gives_what_in_memory_execution_gives() {
    let plans = [
        scan(0),
        scan(11),
        filter(scan(11), "keep"),
        select(filter(scan(23), "even"), &["name", "id"]),
        filter(select(filter(scan(40), "keep"), &["even", "id"]), "even"),
        filter(scan(0), "keep"),
        filter(scan(9), "id"),
        filter(scan(0), "id"),
        select(scan(9), &["id", "id"]),
        select(filter(scan(6), "keep"), &["missing"]),
        filter(select(scan(0), &["id"]), "keep"),
    ];
    for plan in &plans {
        assert!(is_streamable(plan));
        let expected = in_memory(plan);
        for size in [0, 1, 2, 3, 5, 8, 11, 64, usize::MAX] {
            let mut state = ExecutionState::new();
            assert_eq!(execute_streaming(plan, &mut state, size), expected);
        }
    }
}

#[test]
fn morsels_pass_through_the_whole_pipeline() {
    let plan = select(filter(scan(10), "even"), &["id"]);
    assert_eq!(source_rows(&plan), 10);
    assert_eq!(ids(&run_morsel(&plan, 0, 4).unwrap()), vec![0, 2]);
    assert_eq!(ids(&run_morsel(&plan, 4, 4).unwrap()), vec![4, 6]);
    assert_eq!(ids(&run_morsel(&plan, 8, 4).unwrap()), vec![8]);
    assert_eq!(run_morsel(&plan, 12, 4).unwrap().height(), 0);
}

fn with_contexts(input: PhysicalPlan, contexts: Vec<PhysicalPlan>) -> PhysicalPlan {
    PhysicalPlan::ExternalContext(ExternalContext { input: Box::new(input), contexts })
}

#[test]
fn external_contexts_are_registered_before_the_input_runs() {
    let mut state = ExecutionState::new();
    assert_eq!(
        PhysicalPlan::ContextScan { index: 0 }.execute(&mut state),
        Err(ApolloError::ComputeError("external context 0 is not registered".to_string()))
    );
    let plan = with_contexts(
        filter(PhysicalPlan::ContextScan { index: 1 }, "even"),
        vec![scan(2), scan(5)],
    );
    assert!(!is_streamable(&plan));
    let out = plan.execute(&mut state).unwrap();
    assert_eq!(ids(&out), vec![0, 2, 4]);
    assert_eq!(state.ext_context_count(), 2);
    assert_eq!(state.ext_context(0).unwrap().height(), 2);
    assert_eq!(state.ext_context(2), None);

    let mut fresh = ExecutionState::new();
    assert_eq!(execute_streaming(&plan, &mut fresh, 2).unwrap(), out);
    assert_eq!(fresh.ext_context_count(), 2);

    let inner = with_contexts(PhysicalPlan::ContextScan { index: 0 }, vec![scan(3)]);
    let outer = with_contexts(
        PhysicalPlan::ContextScan { index: 0 },
        vec![inner, PhysicalPlan::ContextScan { index: 0 }],
    );
    let mut state = ExecutionState::new();
    assert_eq!(outer.execute(&mut state).unwrap().height(), 3);
    assert_eq!(state.ext_context_count(), 2);
}

#[test]
fn a_failing_context_fails_the_node() {
    let plan = with_contexts(scan(1), vec![scan(1), filter(scan(1), "id"), scan(9)]);
    let mut state = ExecutionState::new();
    assert!(matches!(plan.execute(&mut state), Err(ApolloError::SchemaMismatch(_))));
    assert_eq!(state.ext_context_count(), 0);
}

#[test]
fn a_cancelled_execution_stops_at_once() {
    let cancelled = Err(ApolloError::ComputeError("query was cancelled".to_string()));
    let mut state = ExecutionState::new();
    state.set_verbose(true);
    state.cancel();
    assert!(state.is_cancelled() && state.verbose());
    assert_eq!(scan(3).execute(&mut state), cancelled);
    assert_eq!(execute_streaming(&filter(scan(3), "keep"), &mut state, 2), cancelled);
    assert_eq!(with_contexts(scan(1), vec![scan(1)]).execute(&mut state), cancelled);
    assert_eq!(state.ext_context_count(), 0);
}

fn frame(tag: i64) -> DataFrame {
    DataFrame::new(1, vec![Series::new("v", DataType::Int64, vec![AnyValue::Int(tag)]).unwrap()])
        .unwrap()
}

fn stream(order: &[usize], sources: usize) -> Vec<Morsel> {
    let mut r = Resequencer::new(sources);
    let mut out = Vec::new();
    for s in order {
        out.extend(r.push(*s, frame(100 + *s as i64)).unwrap());
        assert!(r.next_source() <= r.source_count());
    }
    assert!(r.is_finished());
    out
}

#[test]
fn the_order_of_arrival_does_not_show_in_the_stream() {
    let expected: Vec<Morsel> = (0..5)
        .map(|k| Morsel { df: frame(100 + k as i64), seq: k as u64, source: k, last: true })
        .collect();
    for order in [[0, 1, 2, 3, 4], [4, 3, 2, 1, 0], [2, 0, 4, 1, 3], [1, 0, 3, 2, 4], [3, 4, 0, 2, 1]] {
        assert_eq!(stream(&order, 5), expected);
    }
}

#[test]
fn frames_wait_for_the_sources_before_them() {
    let mut r = Resequencer::new(3);
    assert_eq!(r.push(2, frame(2)).unwrap(), vec![]);
    assert_eq!(r.push(1, frame(1)).unwrap(), vec![]);
    assert_eq!(r.next_source(), 0);
    assert_eq!(
        r.push(1, frame(9)),
        Err(ApolloError::ComputeError("no frame is expected of source 1".to_string()))
    );
    assert!(r.push(3, frame(9)).is_err());
    let out = r.push(0, frame(0)).unwrap();
    assert_eq!(out.iter().map(|m| (m.seq, m.source)).collect::<Vec<_>>(), vec![(0, 0), (1, 1), (2, 2)]);
    assert_eq!(out[1].df, frame(1));
    assert!(r.is_finished());
    assert!(r.push(0, frame(0)).is_err());
    assert!(Resequencer::new(0).is_finished());
}
