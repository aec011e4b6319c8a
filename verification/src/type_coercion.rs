//! The types of the inputs of a function, as far as they can be read off
//! the expression, and the check that a namespaced function is applied to
//! the type its namespace belongs to.

use vstd::prelude::*;
use vstd::string::*;
use crate::aexpr::AExpr;
use crate::aexpr::ExprIR;
use crate::aexpr::IRFunctionExpr;
use crate::aexpr::Operator;
use crate::arena::Arena;
use crate::arena::Node;
use crate::datatypes::dtype_name;
use crate::datatypes::DataType;
use crate::datatypes::DataTypeView;
use crate::datatypes::UnknownKind;
use crate::error::ApolloError;
use crate::error::ApolloResult;
use crate::error::ErrorKind;
use crate::error::ErrorView;
use crate::schema::index_of_name;
use crate::schema::Schema;
use crate::schema::SchemaView;

verus! {

/// Whether the operator compares its operands.
pub open spec fn is_comparison(op: Operator) -> bool {
    op == Operator::Eq || op == Operator::NotEq || op == Operator::Lt || op == Operator::LtEq || op
        == Operator::Gt || op == Operator::GtEq
}

/// The type of the expression rooted at `node`, where the node itself
/// tells it: a column has the type the schema gives it, a literal and a cast
/// carry their type, a row count is a `u32` and a comparison a boolean.
pub open spec fn spec_dtype_of(arena: Seq<AExpr>, schema: SchemaView, node: int) -> Option<
    DataTypeView,
> {
    if 0 <= node < arena.len() {
        match arena[node] {
            AExpr::Column(name) => match index_of_name(schema, name@) {
                Some(i) => Some(schema[i].1),
                None => None,
            },
            AExpr::Literal(lv) => Some(lv.dtype@),
            AExpr::Cast { expr, dtype, strict } => Some(dtype@),
            AExpr::BinaryExpr { left, op, right } => if is_comparison(op) {
                Some(DataTypeView::Boolean)
            } else {
                None
            },
            AExpr::Len => Some(DataTypeView::UInt32),
            _ => None,
        }
    } else {
        None
    }
}

/// The node that `node` names, with the type of its expression.
pub fn get_aexpr_and_type<'a>(expr_arena: &'a Arena<AExpr>, node: Node, input_schema: &Schema) -> (r:
    Option<(&'a AExpr, DataType)>)
    ensures
        match r {
            Some((e, dt)) => node.0 < expr_arena@.len() && *e == expr_arena@[node.0 as int]
                && spec_dtype_of(expr_arena@, input_schema@, node.0 as int) == Some(dt@),
            None => spec_dtype_of(expr_arena@, input_schema@, node.0 as int) is None,
        },
{
    match expr_arena.try_get(node) {
        None => None,
        Some(e) => {
            let dt = match e {
                AExpr::Column(name) => match input_schema.get(name.as_str()) {
                    Some(dt) => Some(dt.duplicate()),
                    None => None,
                },
                AExpr::Literal(lv) => Some(lv.dtype.duplicate()),
                AExpr::Cast { expr, dtype, strict } => Some(dtype.duplicate()),
                AExpr::BinaryExpr { left, op, right } => match op {
                    Operator::Eq
                    | Operator::NotEq
                    | Operator::Lt
                    | Operator::LtEq
                    | Operator::Gt
                    | Operator::GtEq => Some(DataType::Boolean),
                    _ => None,
                },
                AExpr::Len => Some(DataType::UInt32),
                _ => None,
            };
            match dt {
                Some(dt) => Some((e, dt)),
                None => None,
            }
        },
    }
}

/// Whether the namespace of `function` belongs to the type `dt`. A
/// function outside the namespaces takes every type.
pub open spec fn namespace_accepts(function: IRFunctionExpr, dt: DataTypeView) -> bool {
    match function {
        IRFunctionExpr::StringExpr(_) => dt is String,
        IRFunctionExpr::BinaryExpr(_) => dt is Binary,
        IRFunctionExpr::TemporalExpr(_) => dt is Date || dt is Datetime || dt is Duration
            || dt is Time,
        IRFunctionExpr::ListExpr(_) => dt is List,
        IRFunctionExpr::ArrayExpr(_) => dt is Array,
        IRFunctionExpr::StructExpr(_) => dt is Struct,
        IRFunctionExpr::Categorical(_) => dt is Categorical,
        _ => true,
    }
}

/// How the error for a wrong type begins, for a function of a namespace.
pub open spec fn namespace_expectation(function: IRFunctionExpr) -> Seq<char> {
    match function {
        IRFunctionExpr::StringExpr(_) => "expected String type, got: "@,
        IRFunctionExpr::BinaryExpr(_) => "expected Binary type, got: "@,
        IRFunctionExpr::TemporalExpr(_) => "expected Date(time)/Duration type, got: "@,
        IRFunctionExpr::ListExpr(_) => "expected List type, got: "@,
        IRFunctionExpr::ArrayExpr(_) => "expected Array type, got: "@,
        IRFunctionExpr::StructExpr(_) => "expected Struct type, got: "@,
        IRFunctionExpr::Categorical(_) => "expected Categorical type, got: "@,
        _ => Seq::empty(),
    }
}

fn wrong_namespace(expectation: &str, got: &DataType) -> (r: ApolloResult<()>)
    ensures
        r matches Err(e) && e@ == ErrorView::Simple(
            ErrorKind::InvalidOperation,
            expectation@ + dtype_name(got@),
        ),
{
    let mut msg = String::from_str(expectation);
    got.push_name(&mut msg);
    Err(ApolloError::InvalidOperation(msg))
}

/// Checks that a function of a namespace is applied to the type that the
/// namespace belongs to: `str` to strings, `list` to lists, and so on.
pub fn check_namespace(function: &IRFunctionExpr, first_dtype: &DataType) -> (r: ApolloResult<()>)
    ensures
        match r {
            Ok(_) => namespace_accepts(*function, first_dtype@),
            Err(e) => !namespace_accepts(*function, first_dtype@) && e@ == ErrorView::Simple(
                ErrorKind::InvalidOperation,
                namespace_expectation(*function) + dtype_name(first_dtype@),
            ),
        },
{
    match function {
        IRFunctionExpr::StringExpr(_) => {
            if !matches!(first_dtype, DataType::String) {
                return wrong_namespace("expected String type, got: ", first_dtype);
            }
        },
        IRFunctionExpr::BinaryExpr(_) => {
            if !matches!(first_dtype, DataType::Binary) {
                return wrong_namespace("expected Binary type, got: ", first_dtype);
            }
        },
        IRFunctionExpr::TemporalExpr(_) => {
            if !first_dtype.is_temporal() {
                return wrong_namespace("expected Date(time)/Duration type, got: ", first_dtype);
            }
        },
        IRFunctionExpr::ListExpr(_) => {
            if !matches!(first_dtype, DataType::List(_)) {
                return wrong_namespace("expected List type, got: ", first_dtype);
            }
        },
        IRFunctionExpr::ArrayExpr(_) => {
            if !matches!(first_dtype, DataType::Array(_, _)) {
                return wrong_namespace("expected Array type, got: ", first_dtype);
            }
        },
        IRFunctionExpr::StructExpr(_) => {
            if !matches!(first_dtype, DataType::Struct(_)) {
                return wrong_namespace("expected Struct type, got: ", first_dtype);
            }
        },
        IRFunctionExpr::Categorical(_) => {
            if !matches!(first_dtype, DataType::Categorical) {
                return wrong_namespace("expected Categorical type, got: ", first_dtype);
            }
        },
        _ => {},
    }
    Ok(())
}

/// The types of the inputs, one by one.
pub open spec fn input_types(input: Seq<ExprIR>, arena: Seq<AExpr>, schema: SchemaView) -> Seq<
    Option<DataTypeView>,
> {
    Seq::new(input.len(), |i: int| spec_dtype_of(arena, schema, input[i].node.0 as int))
}

/// Whether nothing can be said of an input's type: none was found, or it
/// is the type that stands for any type.
pub open spec fn untyped(t: Option<DataTypeView>) -> bool {
    t is None || t == Some(DataTypeView::Unknown(UnknownKind::Any))
}

/// What `get_function_dtypes` returns for inputs of the given types.
pub enum FunctionDtypes {
    /// The first input is not of the type the function's namespace belongs to.
    WrongNamespace(DataTypeView),
    /// There is nothing to coerce: a type is missing, or all are the same.
    Nothing,
    /// The types, which differ.
    Types(Seq<DataTypeView>),
}

/// What `get_function_dtypes` returns for inputs of the given types.
pub open spec fn spec_function_dtypes(
    types: Seq<Option<DataTypeView>>,
    function: IRFunctionExpr,
) -> FunctionDtypes {
    if types.len() > 0 && types[0] is Some && !namespace_accepts(function, types[0].unwrap()) {
        FunctionDtypes::WrongNamespace(types[0].unwrap())
    } else if exists|i: int| 0 <= i < types.len() && untyped(#[trigger] types[i]) {
        FunctionDtypes::Nothing
    } else if forall|i: int| 0 <= i < types.len() ==> #[trigger] types[i] == types[0] {
        FunctionDtypes::Nothing
    } else {
        FunctionDtypes::Types(Seq::new(types.len(), |i: int| types[i].unwrap()))
    }
}

/// The views of a list of types.
pub open spec fn dtypes_view(v: Seq<DataType>) -> Seq<DataTypeView> {
    Seq::new(v.len(), |i: int| v[i]@)
}

/// The types of the inputs of a function.
///
/// Returns `Ok(None)` where there is nothing to coerce: the type of an
/// input cannot be found or is the type that stands for any type, or all
/// inputs are of one type. It is an error for the first input not to be of
/// the type that the function's namespace belongs to.
pub fn get_function_dtypes(
    input: &Vec<ExprIR>,
    expr_arena: &Arena<AExpr>,
    input_schema: &Schema,
    function: &IRFunctionExpr,
) -> (r: ApolloResult<Option<Vec<DataType>>>)
    ensures
        match spec_function_dtypes(input_types(input@, expr_arena@, input_schema@), *function) {
            FunctionDtypes::WrongNamespace(dt) => r matches Err(e) && e@ == ErrorView::Simple(
                ErrorKind::InvalidOperation,
                namespace_expectation(*function) + dtype_name(dt),
            ),
            FunctionDtypes::Nothing => r matches Ok(None),
            FunctionDtypes::Types(ts) => r matches Ok(Some(v)) && dtypes_view(v@) == ts,
        },
{
    let ghost types = input_types(input@, expr_arena@, input_schema@);
    let mut dtypes: Vec<DataType> = Vec::new();
    let mut i: usize = 0;
    while i < input.len()
        invariant
            i <= input.len(),
            types == input_types(input@, expr_arena@, input_schema@),
            dtypes@.len() == i,
            forall|k: int| 0 <= k < i ==> !untyped(#[trigger] types[k]),
            forall|k: int| 0 <= k < i ==> types[k] == Some(#[trigger] dtypes@[k]@),
            i > 0 ==> namespace_accepts(*function, types[0].unwrap()),
        decreases input.len() - i,
    {
        let dtype = match get_aexpr_and_type(expr_arena, input[i].node, input_schema) {
            Some((_, dtype)) => dtype,
            None => {
                assert(untyped(types[i as int]));
                return Ok(None);
            },
        };
        assert(types[i as int] == Some(dtype@));
        if i == 0 {
            match check_namespace(function, &dtype) {
                Ok(_) => {},
                Err(e) => {
                    return Err(e);
                },
            }
        }
        match dtype {
            DataType::Unknown(UnknownKind::Any) => {
                assert(untyped(types[i as int]));
                return Ok(None);
            },
            _ => {
                dtypes.push(dtype);
            },
        }
        i += 1;
    }
    let mut k: usize = 1;
    let mut all_equal = true;
    while k < dtypes.len()
        invariant
            1 <= k || dtypes.len() == 0,
            k <= dtypes.len() || dtypes.len() == 0,
            all_equal == (forall|m: int| 0 <= m < k && m < dtypes@.len() ==> #[trigger] dtypes@[m]@ == dtypes@[0]@),
        decreases dtypes.len() - k,
    {
        if !dtypes[k].same(&dtypes[0]) {
            all_equal = false;
        }
        k += 1;
    }
    proof {
        assert(forall|m: int| 0 <= m < types.len() ==> !untyped(#[trigger] types[m]));
        if all_equal {
            assert forall|m: int| 0 <= m < types.len() implies #[trigger] types[m] == types[0] by {
                assert(types[m] == Some(dtypes@[m]@));
                assert(types[0] == Some(dtypes@[0]@));
            }
        } else {
            let m = choose|m: int| 0 <= m < k && m < dtypes@.len() && #[trigger] dtypes@[m]@ != dtypes@[0]@;
            assert(types[m] == Some(dtypes@[m]@));
            assert(types[0] == Some(dtypes@[0]@));
            assert(types[m] != types[0]);
        }
    }
    if all_equal {
        return Ok(None);
    }
    assert(dtypes_view(dtypes@) =~= Seq::new(types.len(), |i: int| types[i].unwrap()));
    Ok(Some(dtypes))
}

} // verus!
