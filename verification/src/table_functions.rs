//! The table functions of the SQL interface: `read_csv`, `read_parquet`,
//! `read_ipc` and `read_json`, each of which takes the path of a file as a
//! single-quoted string and gives the plan that scans the file.

use vstd::prelude::*;
use vstd::string::*;
use crate::dsl::DslPlan;
use crate::dsl::FileScanDsl;
use crate::dsl::LazyFrame;
use crate::dsl::ScanSources;
use crate::dsl::UnifiedScanArgs;
use crate::error::ApolloError;
use crate::error::ApolloResult;
use crate::error::ErrorKind;
use crate::error::ErrorView;
use crate::path::PlRefPath;
use crate::text::concat2;
use crate::text::concat3;
use crate::text::decimal;
use crate::text::push_decimal;
use crate::text::str_eq;

verus! {

/// An argument of a call of a table function, as far as a table
/// function looks at it.
#[derive(Debug, PartialEq, Eq)]
pub enum TableFunctionArg {
    /// A single-quoted string and nothing else: its text, without the quotes.
    SingleQuoted(String),
    /// Anything else, as it is written in the query.
    Other { shown: String },
}

pub uninterp spec fn lowercase(s: Seq<char>) -> Seq<char>;

/// `str::to_lowercase` of the standard library: the text with every
/// character in its lowercase form. What that form is, is left to the
/// standard library; the contract only gives the result a name.
#[verifier::external_body]
fn to_lowercase(s: &str) -> (r: String)
    ensures
        r@ == lowercase(s@),
{
    s.to_lowercase()
}

/// Table functions that are supported by the SQL interface.
#[derive(Clone, Copy, Debug, PartialEq, Eq, Structural)]
pub enum ApolloTableFunctions {
    /// `SELECT * FROM read_csv('path/to/file.csv')`
    ReadCsv,
    /// `SELECT * FROM read_parquet('path/to/file.parquet')`
    ReadParquet,
    /// `SELECT * FROM read_ipc('path/to/file.ipc')`
    ReadIpc,
    /// `SELECT * FROM read_json('path/to/file.json')`; the file holds one
    /// JSON value per line.
    ReadJson,
}

/// The table function of a name that is in lowercase already.
pub open spec fn spec_table_function(lowered: Seq<char>) -> Option<ApolloTableFunctions> {
    if lowered == "read_csv"@ {
        Some(ApolloTableFunctions::ReadCsv)
    } else if lowered == "read_parquet"@ {
        Some(ApolloTableFunctions::ReadParquet)
    } else if lowered == "read_ipc"@ {
        Some(ApolloTableFunctions::ReadIpc)
    } else if lowered == "read_json"@ {
        Some(ApolloTableFunctions::ReadJson)
    } else {
        None
    }
}

/// The message of the error for a name that is no table function.
pub open spec fn unsupported_function_message(name: Seq<char>) -> Seq<char> {
    "'"@ + name + "' is not a supported table function"@
}

/// The message of the error for a call with another number of arguments than one.
pub open spec fn arity_message(function: Seq<char>, found: nat) -> Seq<char> {
    "`"@ + function + "` expects a single file path; found "@ + decimal(found) + " arguments"@
}

/// How the error for an argument that is no path begins.
pub open spec fn not_a_path_prefix() -> Seq<char> {
    "expected a valid file path as a single-quoted string; found: "@
}

/// The table function that `name` names, given `name` in lowercase. It is
/// an error for it to name none; the error shows the name as it was written.
pub fn table_function_named(lowered: &str, name: &str) -> (r: ApolloResult<ApolloTableFunctions>)
    ensures
        match r {
            Ok(f) => spec_table_function(lowered@) == Some(f),
            Err(e) => spec_table_function(lowered@) is None && e@ == ErrorView::Simple(
                ErrorKind::SQLInterface,
                unsupported_function_message(name@),
            ),
        },
{
    if str_eq(lowered, "read_csv") {
        Ok(ApolloTableFunctions::ReadCsv)
    } else if str_eq(lowered, "read_parquet") {
        Ok(ApolloTableFunctions::ReadParquet)
    } else if str_eq(lowered, "read_ipc") {
        Ok(ApolloTableFunctions::ReadIpc)
    } else if str_eq(lowered, "read_json") {
        Ok(ApolloTableFunctions::ReadJson)
    } else {
        Err(ApolloError::SQLInterface(concat3("'", name, "' is not a supported table function")))
    }
}

/// What the path of an argument is, or the error in its place: the text
/// of a single-quoted string is the path; any other argument is an error
/// that shows the argument.
pub open spec fn spec_file_path(arg: TableFunctionArg) -> Result<Seq<char>, ErrorView> {
    match arg {
        TableFunctionArg::SingleQuoted(s) => Ok(s@),
        TableFunctionArg::Other { shown } => Err(
            ErrorView::Simple(ErrorKind::SQLSyntax, not_a_path_prefix() + shown@),
        ),
    }
}

/// The view of a path or of the error in its place.
pub open spec fn path_result_view(r: ApolloResult<PlRefPath>) -> Result<Seq<char>, ErrorView> {
    match r {
        Ok(p) => Ok(p@),
        Err(e) => Err(e@),
    }
}

/// The plan that scans the file at `path` as the table function reads it.
pub open spec fn spec_scan_type(function: ApolloTableFunctions) -> FileScanDsl {
    match function {
        ApolloTableFunctions::ReadCsv => FileScanDsl::Csv {
            schema: None,
            try_parse_dates: true,
            missing_is_null: true,
        },
        ApolloTableFunctions::ReadParquet => FileScanDsl::Parquet { schema: None, hive_schema: None },
        ApolloTableFunctions::ReadIpc => FileScanDsl::Ipc { record_batch_statistics: false },
        ApolloTableFunctions::ReadJson => FileScanDsl::NDJson,
    }
}

impl ApolloTableFunctions {
    /// The name of the function in SQL.
    pub open spec fn spec_sql_name(&self) -> Seq<char> {
        match self {
            ApolloTableFunctions::ReadCsv => "read_csv"@,
            ApolloTableFunctions::ReadParquet => "read_parquet"@,
            ApolloTableFunctions::ReadIpc => "read_ipc"@,
            ApolloTableFunctions::ReadJson => "read_ndjson"@,
        }
    }

    fn sql_name(&self) -> (s: &'static str)
        ensures
            s@ == self.spec_sql_name(),
    {
        match self {
            ApolloTableFunctions::ReadCsv => "read_csv",
            ApolloTableFunctions::ReadParquet => "read_parquet",
            ApolloTableFunctions::ReadIpc => "read_ipc",
            ApolloTableFunctions::ReadJson => "read_ndjson",
        }
    }

    /// The table function that `s` names, in whatever case it is written.
    pub fn from_str(s: &str) -> (r: ApolloResult<ApolloTableFunctions>)
        ensures
            match r {
                Ok(f) => spec_table_function(lowercase(s@)) == Some(f),
                Err(e) => spec_table_function(lowercase(s@)) is None && e@ == ErrorView::Simple(
                    ErrorKind::SQLInterface,
                    unsupported_function_message(s@),
                ),
            },
    {
        let lowered = to_lowercase(s);
        table_function_named(lowered.as_str(), s)
    }

    /// The names in SQL of all table functions.
    pub fn keywords() -> (r: Vec<&'static str>)
        ensures
            r@.len() == 4,
            r@[0]@ == "read_csv"@,
            r@[1]@ == "read_parquet"@,
            r@[2]@ == "read_ipc"@,
            r@[3]@ == "read_json"@,
    {
        let mut r: Vec<&'static str> = Vec::new();
        r.push("read_csv");
        r.push("read_parquet");
        r.push("read_ipc");
        r.push("read_json");
        r
    }

    /// The path that an argument of a table function gives. It is an
    /// error for the argument not to be a single-quoted string; the error
    /// shows the argument.
    pub fn get_file_path_from_arg(&self, arg: &TableFunctionArg) -> (r: ApolloResult<PlRefPath>)
        ensures
            path_result_view(r) == spec_file_path(*arg),
    {
        match arg {
            TableFunctionArg::SingleQuoted(s) => Ok(PlRefPath::new(s.as_str())),
            TableFunctionArg::Other { shown } => Err(
                ApolloError::SQLSyntax(
                    concat2(
                        "expected a valid file path as a single-quoted string; found: ",
                        shown.as_str(),
                    ),
                ),
            ),
        }
    }

    /// The plan that scans the file at `path` with this table function.
    pub fn scan(&self, path: &PlRefPath) -> (lf: LazyFrame)
        ensures
            lf.logical_plan matches DslPlan::Scan { sources, scan_type, unified_scan_args }
                && sources matches ScanSources::Paths(paths) && paths@.len() == 1 && paths@[0]@
                == path@ && *scan_type == spec_scan_type(*self) && unified_scan_args.schema is None,
    {
        let mut paths: Vec<PlRefPath> = Vec::new();
        paths.push(path.clone());
        let scan_type = match self {
            ApolloTableFunctions::ReadCsv => FileScanDsl::Csv {
                schema: None,
                try_parse_dates: true,
                missing_is_null: true,
            },
            ApolloTableFunctions::ReadParquet => FileScanDsl::Parquet {
                schema: None,
                hive_schema: None,
            },
            ApolloTableFunctions::ReadIpc => FileScanDsl::Ipc { record_batch_statistics: false },
            ApolloTableFunctions::ReadJson => FileScanDsl::NDJson,
        };
        LazyFrame {
            logical_plan: DslPlan::Scan {
                sources: ScanSources::Paths(paths),
                scan_type: Box::new(scan_type),
                unified_scan_args: Box::new(UnifiedScanArgs::default()),
            },
        }
    }

    /// Applies the table function to the arguments of its call: the path
    /// that the one argument gives, and the plan that scans the file there.
    ///
    /// It is an error for the call not to have exactly one argument, and
    /// for that argument not to be a single-quoted string.
    pub fn execute(&self, args: &[TableFunctionArg]) -> (r: ApolloResult<(PlRefPath, LazyFrame)>)
        ensures
            args@.len() != 1 ==> (r matches Err(e) && e@ == ErrorView::Simple(
                ErrorKind::SQLSyntax,
                arity_message(self.spec_sql_name(), args@.len()),
            )),
            args@.len() == 1 ==> match spec_file_path(args@[0]) {
                Err(ev) => r matches Err(e) && e@ == ev,
                Ok(text) => r matches Ok(pair) && pair.0@ == text && (
                pair.1.logical_plan matches DslPlan::Scan { sources, scan_type, unified_scan_args }
                    && sources matches ScanSources::Paths(paths) && paths@.len() == 1
                    && paths@[0]@ == text && *scan_type == spec_scan_type(*self)
                    && unified_scan_args.schema is None),
            },
    {
        if args.len() != 1 {
            let mut msg = String::from_str("`");
            msg.append(self.sql_name());
            msg.append("` expects a single file path; found ");
            push_decimal(&mut msg, args.len());
            msg.append(" arguments");
            assert(msg@ =~= arity_message(self.spec_sql_name(), args@.len()));
            return Err(ApolloError::SQLSyntax(msg));
        }
        let path = match self.get_file_path_from_arg(&args[0]) {
            Ok(p) => p,
            Err(e) => {
                return Err(e);
            },
        };
        let lf = self.scan(&path);
        Ok((path, lf))
    }
}

} // verus!
