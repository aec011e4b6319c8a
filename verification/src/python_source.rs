//! The options of a scan that a Python function performs, and the making
//! of a schema out of the fields that an Arrow schema hands over.

use vstd::prelude::*;
use vstd::string::*;
use crate::datatypes::dtype_name;
use crate::datatypes::DataType;
use crate::datatypes::DataTypeView;
use crate::datatypes::Field;
use crate::error::ApolloError;
use crate::error::ApolloResult;
use crate::error::ErrorKind;
use crate::error::ErrorView;
use crate::python_error::ExceptionKind;
use crate::python_error::PyException;
use crate::schema::index_of_name;
use crate::schema::Schema;
use crate::schema::SchemaView;
use crate::text::concat2;

verus! {

/// What kind of source a Python scan reads.
#[derive(Clone, Copy, Debug, PartialEq, Eq, Hash, Structural)]
pub enum PythonScanSource {
    Pyarrow,
    Cuda,
    IOPlugin,
}

impl Default for PythonScanSource {
    fn default() -> (r: Self)
        ensures
            r == PythonScanSource::IOPlugin,
    {
        PythonScanSource::IOPlugin
    }
}

/// Where the schema of a Python scan comes from.
#[derive(Debug, PartialEq, Eq)]
pub enum SchemaSource {
    /// A Python function returns it; the function is named by the
    /// caller's own number for it.
    Function(u64),
    /// It is given.
    Given(Schema),
}

/// The options of a scan that a Python function performs.
#[derive(Debug, PartialEq, Eq)]
pub struct PythonOptionsDsl {
    /// The function that returns the batches, by the caller's own number
    /// for it.
    pub scan_fn: Option<u64>,
    /// Either the schema function or the schema is set.
    pub schema_fn: Option<SchemaSource>,
    pub python_source: PythonScanSource,
    pub validate_schema: bool,
    pub is_pure: bool,
}

/// The message of the error for a schema function that failed.
pub open spec fn schema_callable_message(reason: Seq<char>) -> Seq<char> {
    "schema callable failed: "@ + reason
}

impl PythonOptionsDsl {
    /// The schema of the scan, given what calling the schema function
    /// gave: the text of the exception it raised, or what converting the
    /// object it returned gave, a schema or an error.
    ///
    /// A schema that is given is returned as it is and the function's
    /// outcome is not looked at. An exception of the function becomes an
    /// error that says that the schema callable failed; an error of the
    /// conversion is handed on as it is. The schema source must be set.
    pub fn get_schema(self, called: Result<ApolloResult<Schema>, String>) -> (r: ApolloResult<Schema>)
        requires
            self.schema_fn is Some,
        ensures
            match self.schema_fn {
                Some(SchemaSource::Given(s)) => r matches Ok(out) && out@ == s@,
                _ => match called {
                    Ok(Ok(s)) => r matches Ok(out) && out@ == s@,
                    Ok(Err(e)) => r matches Err(re) && re@ == e@,
                    Err(reason) => r matches Err(e) && e@ == ErrorView::Simple(
                        ErrorKind::ComputeError,
                        schema_callable_message(reason@),
                    ),
                },
            },
    {
        match self.schema_fn {
            Some(SchemaSource::Given(s)) => Ok(s),
            _ => match called {
                Ok(converted) => converted,
                Err(reason) => Err(
                    ApolloError::ComputeError(concat2("schema callable failed: ", reason.as_str())),
                ),
            },
        }
    }
}

/// The message of the exception for an Arrow schema that is no struct.
pub open spec fn not_a_struct_message(object: Seq<char>, dt: DataTypeView) -> Seq<char> {
    "__arrow_c_schema__ of object passed to pl.Schema did not return struct dtype: object: "@
        + object + ", dtype: "@ + dtype_name(dt)
}

/// The message of the exception for a name that an Arrow schema holds twice.
pub open spec fn duplicate_arrow_name_message(name: Seq<char>) -> Seq<char> {
    "arrow schema contained duplicate name: "@ + name
}

/// The first of the first `upto` fields whose name the schema holds
/// already when its turn comes: the schema held it before, or an earlier
/// field has it.
pub open spec fn first_clash(before: SchemaView, fields: Seq<(Seq<char>, DataTypeView)>, upto: int) -> Option<
    int,
>
    decreases upto,
{
    if upto <= 0 {
        None
    } else {
        match first_clash(before, fields, upto - 1) {
            Some(i) => Some(i),
            None => if index_of_name(before + fields.subrange(0, upto - 1), fields[upto - 1].0)
                is Some {
                Some(upto - 1)
            } else {
                None
            },
        }
    }
}

/// Fills a schema with the fields of an Arrow schema.
///
/// The type that the Arrow schema was imported as must be a struct, else
/// a `ValueError` is raised that shows the object and the type. The fields
/// are added one by one; a field whose name the schema holds already raises
/// a `DuplicateError`, and the fields before it stay added.
pub fn init_apollo_schema_from_arrow_c_schema(
    apollo_schema: &mut Schema,
    imported: &DataType,
    object: &str,
) -> (r: Result<(), PyException>)
    ensures
        !(imported@ is Struct) ==> (r matches Err(x) && x.kind == ExceptionKind::ValueError
            && x.message@ == not_a_struct_message(object@, imported@) && final(apollo_schema)@
            == old(apollo_schema)@),
        imported@ matches DataTypeView::Struct(fields) ==> match first_clash(
            old(apollo_schema)@,
            fields,
            fields.len() as int,
        ) {
            Some(i) => r matches Err(x) && x.kind == ExceptionKind::DuplicateError && x.message@
                == duplicate_arrow_name_message(fields[i].0) && final(apollo_schema)@ == old(
                apollo_schema,
            )@ + fields.subrange(0, i),
            None => r is Ok && final(apollo_schema)@ == old(apollo_schema)@ + fields,
        },
{
    let fields = match imported {
        DataType::Struct(fields) => fields,
        other => {
            let mut msg = String::from_str(
                "__arrow_c_schema__ of object passed to pl.Schema did not return struct dtype: object: ",
            );
            msg.append(object);
            msg.append(", dtype: ");
            other.push_name(&mut msg);
            assert(msg@ =~= not_a_struct_message(object@, imported@));
            return Err(PyException { kind: ExceptionKind::ValueError, message: msg });
        },
    };
    let ghost all = imported@->Struct_0;
    let ghost before = apollo_schema@;
    assert(all.len() == fields@.len());
    assert(apollo_schema@ =~= before + all.subrange(0, 0));
    let mut i: usize = 0;
    while i < fields.len()
        invariant
            i <= fields.len(),
            all.len() == fields@.len(),
            before == old(apollo_schema)@,
            imported@ == DataTypeView::Struct(all),
            forall|k: int| 0 <= k < all.len() ==> #[trigger] all[k] == fields@[k]@,
            first_clash(before, all, i as int) is None,
            apollo_schema@ == before + all.subrange(0, i as int),
        decreases fields.len() - i,
    {
        let field = &fields[i];
        assert(all[i as int] == field@);
        if apollo_schema.contains(field.name.as_str()) {
            proof {
                assert(first_clash(before, all, i as int + 1) == Some(i as int));
                lemma_first_clash_stable(before, all, i as int + 1, all.len() as int);
            }
            return Err(
                PyException {
                    kind: ExceptionKind::DuplicateError,
                    message: concat2(
                        "arrow schema contained duplicate name: ",
                        field.name.as_str(),
                    ),
                },
            );
        }
        let ghost so_far = apollo_schema@;
        apollo_schema.with_column(field.name.as_str(), field.dtype.duplicate());
        assert(apollo_schema@ =~= before + all.subrange(0, i as int + 1)) by {
            assert(all.subrange(0, i as int + 1) =~= all.subrange(0, i as int).push(all[i as int]));
        }
        i += 1;
    }
    assert(all.subrange(0, all.len() as int) =~= all);
    Ok(())
}

proof fn lemma_first_clash_stable(
    before: SchemaView,
    fields: Seq<(Seq<char>, DataTypeView)>,
    a: int,
    b: int,
)
    requires
        a <= b,
        first_clash(before, fields, a) is Some,
    ensures
        first_clash(before, fields, b) == first_clash(before, fields, a),
    decreases b - a,
{
    if a < b {
        lemma_first_clash_stable(before, fields, a, b - 1);
    }
}

/// The name and the type of the field that an Arrow schema of one field
/// was imported as.
pub fn apollo_schema_field_from_arrow_c_schema(field: Field) -> (r: (String, DataType))
    ensures
        r.0@ == field@.0,
        r.1@ == field@.1,
{
    (field.name, field.dtype)
}

} // verus!
