//! Building the plan of a scan: of IPC files, and of a table that a
//! catalog describes.

use vstd::prelude::*;
use vstd::string::*;
use crate::datatypes::DataType;
use crate::datatypes::DataTypeView;
use crate::datatypes::Field;
use crate::dsl::CloudOptions;
use crate::dsl::DslPlan;
use crate::dsl::FileScanDsl;
use crate::dsl::IpcScanOptions;
use crate::dsl::LazyFrame;
use crate::dsl::ScanSources;
use crate::dsl::UnifiedScanArgs;
use crate::error::ApolloError;
use crate::error::ApolloResult;
use crate::error::ErrorKind;
use crate::error::ErrorView;
use crate::multi_scan::ExtraColumnsPolicy;
use crate::multi_scan::MissingColumnsPolicy;
use crate::path::PlRefPath;
use crate::schema::duplicate_name_message;
use crate::schema::first_repeated;
use crate::schema::names_of;
use crate::schema::names_unique;
use crate::schema::Schema;
use crate::schema::SchemaView;
use crate::text::concat2;

verus! {

/// The formats in which a catalog's table can be stored.
#[derive(Clone, Copy, Debug, PartialEq, Eq, Structural)]
pub enum DataSourceFormat {
    Delta,
    Csv,
    Json,
    Avro,
    Parquet,
    Orc,
    Text,
}

/// A column of a catalog's table.
#[derive(Debug, PartialEq, Eq)]
pub struct ColumnInfo {
    pub name: String,
    pub dtype: DataType,
    /// The column's place among the partition columns, for a column that
    /// the table is partitioned by.
    pub partition_index: Option<u32>,
}

/// What a catalog says of a table.
#[derive(Debug, PartialEq, Eq)]
pub struct TableInfo {
    pub name: String,
    pub data_source_format: Option<DataSourceFormat>,
    pub storage_location: Option<String>,
    pub columns: Option<Vec<ColumnInfo>>,
}

/// The name of a format, as messages show it.
pub open spec fn format_name(f: DataSourceFormat) -> Seq<char> {
    match f {
        DataSourceFormat::Delta => "Delta"@,
        DataSourceFormat::Csv => "Csv"@,
        DataSourceFormat::Json => "Json"@,
        DataSourceFormat::Avro => "Avro"@,
        DataSourceFormat::Parquet => "Parquet"@,
        DataSourceFormat::Orc => "Orc"@,
        DataSourceFormat::Text => "Text"@,
    }
}

fn format_text(f: DataSourceFormat) -> (s: &'static str)
    ensures
        s@ == format_name(f),
{
    match f {
        DataSourceFormat::Delta => "Delta",
        DataSourceFormat::Csv => "Csv",
        DataSourceFormat::Json => "Json",
        DataSourceFormat::Avro => "Avro",
        DataSourceFormat::Parquet => "Parquet",
        DataSourceFormat::Orc => "Orc",
        DataSourceFormat::Text => "Text",
    }
}

/// The names and types of the first `upto` columns that are partition
/// columns (`partition`) or are not (`!partition`), in their order.
pub open spec fn select_columns(cols: Seq<ColumnInfo>, partition: bool, upto: int) -> SchemaView
    decreases upto,
{
    if upto <= 0 {
        Seq::empty()
    } else if cols[upto - 1].partition_index.is_some() == partition {
        select_columns(cols, partition, upto - 1).push((cols[upto - 1].name@, cols[upto - 1].dtype@))
    } else {
        select_columns(cols, partition, upto - 1)
    }
}

/// The views of a list of fields.
pub open spec fn fields_view(fields: Seq<Field>) -> SchemaView {
    Seq::new(fields.len(), |i: int| fields[i]@)
}

fn select_fields(cols: &Vec<ColumnInfo>, partition: bool) -> (r: Vec<Field>)
    ensures
        fields_view(r@) == select_columns(cols@, partition, cols@.len() as int),
{
    let mut out: Vec<Field> = Vec::new();
    let mut i: usize = 0;
    while i < cols.len()
        invariant
            i <= cols.len(),
            fields_view(out@) == select_columns(cols@, partition, i as int),
        decreases cols.len() - i,
    {
        let c = &cols[i];
        let ghost before = fields_view(out@);
        if c.partition_index.is_some() == partition {
            out.push(Field::new(c.name.as_str(), c.dtype.duplicate()));
            assert(fields_view(out@) =~= before.push((c.name@, c.dtype@)));
        }
        i += 1;
    }
    out
}

/// Whether `e` is the error for the first column of `s` that repeats the
/// name of an earlier one.
pub open spec fn is_duplicate_error(s: SchemaView, e: ErrorView) -> bool {
    first_repeated(names_of(s), s.len() as int) matches Some(j) && e == ErrorView::Simple(
        ErrorKind::Duplicate,
        duplicate_name_message(s[j].0),
    )
}

fn schema_from(fields: Vec<Field>) -> (r: ApolloResult<Schema>)
    ensures
        match r {
            Ok(s) => s@ == fields_view(fields@) && names_unique(s@),
            Err(e) => is_duplicate_error(fields_view(fields@), e@) && !names_unique(
                fields_view(fields@),
            ),
        },
{
    let ghost fv = fields_view(fields@);
    assert(fv =~= Seq::new(fields@.len(), |i: int| fields@[i]@));
    proof {
        crate::schema::lemma_no_repeat_is_unique(fv);
    }
    match Schema::try_from_fields(fields) {
        Ok(s) => Ok(s),
        Err(e) => Err(e),
    }
}

/// The schema of the data columns of a table and the schema of its
/// partition columns, each in the order of the catalog's list.
///
/// Without a list of columns there is neither. A table without partition
/// columns has no partition schema. It is an error for a name to occur
/// twice among the data columns, and else among the partition columns.
pub fn table_info_to_schemas(table_info: &TableInfo) -> (r: ApolloResult<
    (Option<Schema>, Option<Schema>),
>)
    ensures
        match table_info.columns {
            None => r matches Ok((None, None)),
            Some(cols) => {
                let data = select_columns(cols@, false, cols@.len() as int);
                let hive = select_columns(cols@, true, cols@.len() as int);
                match r {
                    Ok((schema, hive_schema)) => {
                        &&& names_unique(data) && names_unique(hive)
                        &&& schema matches Some(s) && s@ == data
                        &&& if hive.len() == 0 {
                            hive_schema is None
                        } else {
                            hive_schema matches Some(h) && h@ == hive
                        }
                    },
                    Err(e) => if names_unique(data) {
                        is_duplicate_error(hive, e@) && !names_unique(hive)
                    } else {
                        is_duplicate_error(data, e@)
                    },
                }
            },
        },
{
    let cols = match &table_info.columns {
        None => {
            return Ok((None, None));
        },
        Some(cols) => cols,
    };
    let schema = match schema_from(select_fields(cols, false)) {
        Ok(s) => s,
        Err(e) => {
            return Err(e);
        },
    };
    let hive_fields = select_fields(cols, true);
    if hive_fields.len() == 0 {
        return Ok((Some(schema), None));
    }
    match schema_from(hive_fields) {
        Ok(h) => Ok((Some(schema), Some(h))),
        Err(e) => Err(e),
    }
}

impl LazyFrame {
    /// The plan that scans the IPC file at `path`.
    pub fn scan_ipc(path: PlRefPath, options: IpcScanOptions, unified_scan_args: UnifiedScanArgs) -> (r:
        ApolloResult<LazyFrame>)
        ensures
            r matches Ok(lf) && lf.logical_plan matches DslPlan::Scan {
                sources,
                scan_type,
                unified_scan_args: args,
            } && sources matches ScanSources::Paths(paths) && paths@ == seq![path] && *scan_type == (
            FileScanDsl::Ipc { record_batch_statistics: options.record_batch_statistics }) && *args
                == unified_scan_args,
    {
        let mut paths: Vec<PlRefPath> = Vec::new();
        paths.push(path);
        assert(paths@ =~= seq![path]);
        LazyFrame::scan_ipc_sources(ScanSources::Paths(paths), options, unified_scan_args)
    }

    /// The plan that scans the given sources as IPC files.
    pub fn scan_ipc_sources(
        sources: ScanSources,
        options: IpcScanOptions,
        unified_scan_args: UnifiedScanArgs,
    ) -> (r: ApolloResult<LazyFrame>)
        ensures
            r matches Ok(lf) && lf.logical_plan == (DslPlan::Scan {
                sources,
                scan_type: Box::new(
                    FileScanDsl::Ipc { record_batch_statistics: options.record_batch_statistics },
                ),
                unified_scan_args: Box::new(unified_scan_args),
            }),
    {
        Ok(
            LazyFrame {
                logical_plan: DslPlan::Scan {
                    sources,
                    scan_type: Box::new(
                        FileScanDsl::Ipc {
                            record_batch_statistics: options.record_batch_statistics,
                        },
                    ),
                    unified_scan_args: Box::new(unified_scan_args),
                },
            },
        )
    }

    /// The plan that scans a table of a catalog.
    ///
    /// The table must state its format and where it is stored. A Parquet
    /// table is scanned with the schema of its data columns, the schema of
    /// its partition columns and the given cloud options; a CSV table with
    /// the schema of its data columns. No other format can be scanned yet.
    pub fn scan_catalog_table(table_info: &TableInfo, cloud_options: Option<CloudOptions>) -> (r:
        ApolloResult<LazyFrame>)
        ensures
            table_info.data_source_format is None ==> (r matches Err(e) && e@ == ErrorView::Simple(
                ErrorKind::ComputeError,
                "scan_catalog_table requires Some(_) for data_source_format"@,
            )),
            table_info.data_source_format is Some && table_info.storage_location is None ==> (
            r matches Err(e) && e@ == ErrorView::Simple(
                ErrorKind::ComputeError,
                "scan_catalog_table requires Some(_) for storage_location"@,
            )),
            table_info.data_source_format is Some && table_info.storage_location is Some
                && table_info.data_source_format != Some(DataSourceFormat::Parquet)
                && table_info.data_source_format != Some(DataSourceFormat::Csv) ==> (
            r matches Err(e) && e@ == ErrorView::Simple(
                ErrorKind::ComputeError,
                "not yet supported data_source_format: "@ + format_name(
                    table_info.data_source_format.unwrap(),
                ),
            )),
            r matches Ok(lf) ==> {
                &&& table_info.storage_location matches Some(location)
                &&& lf.logical_plan matches DslPlan::Scan { sources, scan_type, unified_scan_args }
                &&& sources matches ScanSources::Paths(paths)
                &&& paths@.len() == 1
                &&& paths@[0]@ == location@
                &&& unified_scan_args.schema is None
                &&& unified_scan_args.missing_columns == MissingColumnsPolicy::Raise
                &&& unified_scan_args.extra_columns == ExtraColumnsPolicy::Raise
                &&& match table_info.data_source_format {
                    Some(DataSourceFormat::Parquet) => {
                        &&& unified_scan_args.cloud_options == cloud_options
                        &&& *scan_type matches FileScanDsl::Parquet { schema, hive_schema }
                        &&& schema_matches(schema, table_info, false)
                        &&& schema_matches(hive_schema, table_info, true)
                    },
                    Some(DataSourceFormat::Csv) => {
                        &&& unified_scan_args.cloud_options is None
                        &&& *scan_type matches FileScanDsl::Csv {
                            schema,
                            try_parse_dates,
                            missing_is_null,
                        }
                        &&& schema_matches(schema, table_info, false)
                        &&& !try_parse_dates
                        &&& !missing_is_null
                    },
                    _ => false,
                }
            },
            (table_info.data_source_format == Some(DataSourceFormat::Parquet)
                || table_info.data_source_format == Some(DataSourceFormat::Csv))
                && table_info.storage_location is Some ==> (r is Ok <==> columns_in_order(
                table_info,
            )),
    {
        let data_source_format = match &table_info.data_source_format {
            Some(f) => *f,
            None => {
                return Err(
                    ApolloError::ComputeError(
                        String::from_str(
                            "scan_catalog_table requires Some(_) for data_source_format",
                        ),
                    ),
                );
            },
        };
        let storage_location = match &table_info.storage_location {
            Some(l) => PlRefPath::new(l.as_str()),
            None => {
                return Err(
                    ApolloError::ComputeError(
                        String::from_str("scan_catalog_table requires Some(_) for storage_location"),
                    ),
                );
            },
        };
        match data_source_format {
            DataSourceFormat::Parquet => {
                let (schema, hive_schema) = match table_info_to_schemas(table_info) {
                    Ok(p) => p,
                    Err(e) => {
                        return Err(e);
                    },
                };
                let mut args = UnifiedScanArgs::default();
                args.cloud_options = cloud_options;
                let mut paths: Vec<PlRefPath> = Vec::new();
                paths.push(storage_location);
                Ok(
                    LazyFrame {
                        logical_plan: DslPlan::Scan {
                            sources: ScanSources::Paths(paths),
                            scan_type: Box::new(FileScanDsl::Parquet { schema, hive_schema }),
                            unified_scan_args: Box::new(args),
                        },
                    },
                )
            },
            DataSourceFormat::Csv => {
                let (schema, _) = match table_info_to_schemas(table_info) {
                    Ok(p) => p,
                    Err(e) => {
                        return Err(e);
                    },
                };
                let mut paths: Vec<PlRefPath> = Vec::new();
                paths.push(storage_location);
                Ok(
                    LazyFrame {
                        logical_plan: DslPlan::Scan {
                            sources: ScanSources::Paths(paths),
                            scan_type: Box::new(
                                FileScanDsl::Csv {
                                    schema,
                                    try_parse_dates: false,
                                    missing_is_null: false,
                                },
                            ),
                            unified_scan_args: Box::new(UnifiedScanArgs::default()),
                        },
                    },
                )
            },
            v => Err(
                ApolloError::ComputeError(
                    concat2("not yet supported data_source_format: ", format_text(v)),
                ),
            ),
        }
    }
}

/// Whether `schema` is the schema of the table's data columns
/// (`!partition`) or of its partition columns (`partition`): none where the
/// table lists no columns, and no partition schema where it has no
/// partition columns.
pub open spec fn schema_matches(schema: Option<Schema>, table_info: &TableInfo, partition: bool) -> bool {
    match table_info.columns {
        None => schema is None,
        Some(cols) => {
            let want = select_columns(cols@, partition, cols@.len() as int);
            if partition && want.len() == 0 {
                schema is None
            } else {
                schema matches Some(s) && s@ == want
            }
        },
    }
}

/// Whether the table's columns can be made into schemas: no name occurs
/// twice among the data columns, nor among the partition columns.
pub open spec fn columns_in_order(table_info: &TableInfo) -> bool {
    match table_info.columns {
        None => true,
        Some(cols) => names_unique(select_columns(cols@, false, cols@.len() as int))
            && names_unique(select_columns(cols@, true, cols@.len() as int)),
    }
}

} // verus!
