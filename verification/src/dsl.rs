//! The logical plan as the query front end hands it over: a tree of scans,
//! transformations and sinks.

use vstd::prelude::*;
use vstd::string::*;
use crate::arena::Node;
use crate::multi_scan::ExtraColumnsPolicy;
use crate::multi_scan::MissingColumnsPolicy;
use crate::path::PlRefPath;
use crate::schema::Schema;

verus! {

/// Where a scan reads from.
#[derive(Debug, PartialEq, Eq)]
pub enum ScanSources {
    /// Files named by path.
    Paths(Vec<PlRefPath>),
    /// Files that the caller has opened already, by the caller's own numbering.
    Files(Vec<u64>),
    /// Bytes in memory.
    Buffers(Vec<Vec<u8>>),
}

/// How the bytes of a scan source are to be read.
#[derive(Debug, PartialEq, Eq)]
pub enum FileScanDsl {
    Csv { schema: Option<Schema>, try_parse_dates: bool, missing_is_null: bool },
    Parquet { schema: Option<Schema>, hive_schema: Option<Schema> },
    Ipc { record_batch_statistics: bool },
    NDJson,
    Anonymous,
}

/// How a store is reached.
#[derive(Clone, Copy, Debug, PartialEq, Eq, Structural)]
pub struct CloudOptions {
    pub max_retries: usize,
}

/// The options that every kind of file scan has.
#[derive(Debug, PartialEq, Eq)]
pub struct UnifiedScanArgs {
    /// The unified schema, where the caller gives one.
    pub schema: Option<Schema>,
    pub cloud_options: Option<CloudOptions>,
    pub missing_columns: MissingColumnsPolicy,
    pub extra_columns: ExtraColumnsPolicy,
    pub glob: bool,
    pub cache: bool,
}

impl Default for UnifiedScanArgs {
    fn default() -> (r: Self)
        ensures
            r.schema is None,
            r.cloud_options is None,
            r.missing_columns == MissingColumnsPolicy::Raise,
            r.extra_columns == ExtraColumnsPolicy::Raise,
            r.glob,
            !r.cache,
    {
        UnifiedScanArgs {
            schema: None,
            cloud_options: None,
            missing_columns: MissingColumnsPolicy::Raise,
            extra_columns: ExtraColumnsPolicy::Raise,
            glob: true,
            cache: false,
        }
    }
}

/// Where the result of a plan goes.
#[derive(Debug, PartialEq, Eq)]
pub enum SinkType {
    Memory,
    /// A function of the caller, by the caller's own numbering.
    Callback(u64),
    File { target: PlRefPath },
    Partitioned { base_path: PlRefPath },
}

/// A node of the logical plan, with its inputs.
#[allow(inconsistent_fields)]
#[derive(Debug, PartialEq, Eq)]
pub enum DslPlan {
    /// A scan that a Python function performs.
    PythonScan,
    Scan { sources: ScanSources, scan_type: Box<FileScanDsl>, unified_scan_args: Box<UnifiedScanArgs> },
    Filter { input: Box<DslPlan>, predicate: Node },
    Select { input: Box<DslPlan>, exprs: Vec<Node> },
    Union { inputs: Vec<DslPlan> },
    Sink { input: Box<DslPlan>, payload: SinkType },
    SinkMultiple { inputs: Vec<DslPlan> },
}

/// A plan that is executed when its result is asked for.
#[derive(Debug, PartialEq, Eq)]
pub struct LazyFrame {
    pub logical_plan: DslPlan,
}

/// The options of an IPC scan.
#[derive(Clone, Copy, Debug, PartialEq, Eq, Structural)]
pub struct IpcScanOptions {
    pub record_batch_statistics: bool,
}

} // verus!
