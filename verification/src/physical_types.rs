//! The types of columns as types of the program: one marker for each, with
//! the traits that sort them into physical, numeric, integer and
//! floating-point types.

use vstd::prelude::*;
use crate::datatypes::DataType;
use crate::datatypes::DataTypeView;

verus! {

/// The answer "yes" to a question about a type.
#[derive(Clone, Copy, Debug, PartialEq, Eq, Structural)]
pub struct TrueT;

/// The answer "no" to a question about a type.
#[derive(Clone, Copy, Debug, PartialEq, Eq, Structural)]
pub struct FalseT;

/// A type of columns.
pub trait ApolloDataType: Sized {
    /// Whether the values hold other values.
    type IsNested;

    /// Whether the values are stored as views.
    type HasViews;

    /// Whether the values are structs.
    type IsStruct;

    /// The type as a value. For a type with parameters it is the type
    /// with the parameters that say least.
    spec fn static_dtype() -> DataTypeView;

    /// The type as a value.
    fn get_static_dtype() -> (r: DataType)
        ensures
            r@ == Self::static_dtype(),
    ;
}

/// A type whose columns are stored as they are, not by way of another type.
pub trait ApolloPhysicalType: ApolloDataType {

}

/// A type of numbers.
pub trait ApolloNumericType: ApolloPhysicalType {

}

/// A type of whole numbers.
pub trait ApolloIntegerType: ApolloNumericType {

}

/// A type of floating-point numbers.
pub trait ApolloFloatType: ApolloNumericType {

}

/// A type of numbers that the Python bindings map functions over.
pub trait PyApolloNumericType: ApolloNumericType {

}

/// The type of unsigned 8-bit integers.
#[derive(Clone, Copy, Debug, PartialEq, Eq, Structural)]
pub struct UInt8Type {}

impl ApolloDataType for UInt8Type {
    type IsNested = FalseT;

    type HasViews = FalseT;

    type IsStruct = FalseT;

    open spec fn static_dtype() -> DataTypeView {
        DataTypeView::UInt8
    }

    fn get_static_dtype() -> (r: DataType) {
        DataType::UInt8
    }
}

impl ApolloPhysicalType for UInt8Type {

}

impl ApolloNumericType for UInt8Type {

}

impl ApolloIntegerType for UInt8Type {

}

impl PyApolloNumericType for UInt8Type {

}

/// The type of unsigned 16-bit integers.
#[derive(Clone, Copy, Debug, PartialEq, Eq, Structural)]
pub struct UInt16Type {}

impl ApolloDataType for UInt16Type {
    type IsNested = FalseT;

    type HasViews = FalseT;

    type IsStruct = FalseT;

    open spec fn static_dtype() -> DataTypeView {
        DataTypeView::UInt16
    }

    fn get_static_dtype() -> (r: DataType) {
        DataType::UInt16
    }
}

impl ApolloPhysicalType for UInt16Type {

}

impl ApolloNumericType for UInt16Type {

}

impl ApolloIntegerType for UInt16Type {

}

impl PyApolloNumericType for UInt16Type {

}

/// The type of unsigned 32-bit integers.
#[derive(Clone, Copy, Debug, PartialEq, Eq, Structural)]
pub struct UInt32Type {}

impl ApolloDataType for UInt32Type {
    type IsNested = FalseT;

    type HasViews = FalseT;

    type IsStruct = FalseT;

    open spec fn static_dtype() -> DataTypeView {
        DataTypeView::UInt32
    }

    fn get_static_dtype() -> (r: DataType) {
        DataType::UInt32
    }
}

impl ApolloPhysicalType for UInt32Type {

}

impl ApolloNumericType for UInt32Type {

}

impl ApolloIntegerType for UInt32Type {

}

impl PyApolloNumericType for UInt32Type {

}

/// The type of unsigned 64-bit integers.
#[derive(Clone, Copy, Debug, PartialEq, Eq, Structural)]
pub struct UInt64Type {}

impl ApolloDataType for UInt64Type {
    type IsNested = FalseT;

    type HasViews = FalseT;

    type IsStruct = FalseT;

    open spec fn static_dtype() -> DataTypeView {
        DataTypeView::UInt64
    }

    fn get_static_dtype() -> (r: DataType) {
        DataType::UInt64
    }
}

impl ApolloPhysicalType for UInt64Type {

}

impl ApolloNumericType for UInt64Type {

}

impl ApolloIntegerType for UInt64Type {

}

impl PyApolloNumericType for UInt64Type {

}

/// The type of signed 8-bit integers.
#[derive(Clone, Copy, Debug, PartialEq, Eq, Structural)]
pub struct Int8Type {}

impl ApolloDataType for Int8Type {
    type IsNested = FalseT;

    type HasViews = FalseT;

    type IsStruct = FalseT;

    open spec fn static_dtype() -> DataTypeView {
        DataTypeView::Int8
    }

    fn get_static_dtype() -> (r: DataType) {
        DataType::Int8
    }
}

impl ApolloPhysicalType for Int8Type {

}

impl ApolloNumericType for Int8Type {

}

impl ApolloIntegerType for Int8Type {

}

impl PyApolloNumericType for Int8Type {

}

/// The type of signed 16-bit integers.
#[derive(Clone, Copy, Debug, PartialEq, Eq, Structural)]
pub struct Int16Type {}

impl ApolloDataType for Int16Type {
    type IsNested = FalseT;

    type HasViews = FalseT;

    type IsStruct = FalseT;

    open spec fn static_dtype() -> DataTypeView {
        DataTypeView::Int16
    }

    fn get_static_dtype() -> (r: DataType) {
        DataType::Int16
    }
}

impl ApolloPhysicalType for Int16Type {

}

impl ApolloNumericType for Int16Type {

}

impl ApolloIntegerType for Int16Type {

}

impl PyApolloNumericType for Int16Type {

}

/// The type of signed 32-bit integers.
#[derive(Clone, Copy, Debug, PartialEq, Eq, Structural)]
pub struct Int32Type {}

impl ApolloDataType for Int32Type {
    type IsNested = FalseT;

    type HasViews = FalseT;

    type IsStruct = FalseT;

    open spec fn static_dtype() -> DataTypeView {
        DataTypeView::Int32
    }

    fn get_static_dtype() -> (r: DataType) {
        DataType::Int32
    }
}

impl ApolloPhysicalType for Int32Type {

}

impl ApolloNumericType for Int32Type {

}

impl ApolloIntegerType for Int32Type {

}

impl PyApolloNumericType for Int32Type {

}

/// The type of signed 64-bit integers.
#[derive(Clone, Copy, Debug, PartialEq, Eq, Structural)]
pub struct Int64Type {}

impl ApolloDataType for Int64Type {
    type IsNested = FalseT;

    type HasViews = FalseT;

    type IsStruct = FalseT;

    open spec fn static_dtype() -> DataTypeView {
        DataTypeView::Int64
    }

    fn get_static_dtype() -> (r: DataType) {
        DataType::Int64
    }
}

impl ApolloPhysicalType for Int64Type {

}

impl ApolloNumericType for Int64Type {

}

impl ApolloIntegerType for Int64Type {

}

impl PyApolloNumericType for Int64Type {

}

/// The type of 32-bit floating-point numbers.
#[derive(Clone, Copy, Debug, PartialEq, Eq, Structural)]
pub struct Float32Type {}

impl ApolloDataType for Float32Type {
    type IsNested = FalseT;

    type HasViews = FalseT;

    type IsStruct = FalseT;

    open spec fn static_dtype() -> DataTypeView {
        DataTypeView::Float32
    }

    fn get_static_dtype() -> (r: DataType) {
        DataType::Float32
    }
}

impl ApolloPhysicalType for Float32Type {

}

impl ApolloNumericType for Float32Type {

}

impl ApolloFloatType for Float32Type {

}

impl PyApolloNumericType for Float32Type {

}

/// The type of 64-bit floating-point numbers.
#[derive(Clone, Copy, Debug, PartialEq, Eq, Structural)]
pub struct Float64Type {}

impl ApolloDataType for Float64Type {
    type IsNested = FalseT;

    type HasViews = FalseT;

    type IsStruct = FalseT;

    open spec fn static_dtype() -> DataTypeView {
        DataTypeView::Float64
    }

    fn get_static_dtype() -> (r: DataType) {
        DataType::Float64
    }
}

impl ApolloPhysicalType for Float64Type {

}

impl ApolloNumericType for Float64Type {

}

impl ApolloFloatType for Float64Type {

}

impl PyApolloNumericType for Float64Type {

}

/// The type of strings.
#[derive(Clone, Copy, Debug, PartialEq, Eq, Structural)]
pub struct StringType {}

impl ApolloDataType for StringType {
    type IsNested = FalseT;

    type HasViews = TrueT;

    type IsStruct = FalseT;

    open spec fn static_dtype() -> DataTypeView {
        DataTypeView::String
    }

    fn get_static_dtype() -> (r: DataType) {
        DataType::String
    }
}

impl ApolloPhysicalType for StringType {

}

/// The type of byte strings.
#[derive(Clone, Copy, Debug, PartialEq, Eq, Structural)]
pub struct BinaryType {}

impl ApolloDataType for BinaryType {
    type IsNested = FalseT;

    type HasViews = TrueT;

    type IsStruct = FalseT;

    open spec fn static_dtype() -> DataTypeView {
        DataTypeView::Binary
    }

    fn get_static_dtype() -> (r: DataType) {
        DataType::Binary
    }
}

impl ApolloPhysicalType for BinaryType {

}

/// The type of booleans.
#[derive(Clone, Copy, Debug, PartialEq, Eq, Structural)]
pub struct BooleanType {}

impl ApolloDataType for BooleanType {
    type IsNested = FalseT;

    type HasViews = FalseT;

    type IsStruct = FalseT;

    open spec fn static_dtype() -> DataTypeView {
        DataTypeView::Boolean
    }

    fn get_static_dtype() -> (r: DataType) {
        DataType::Boolean
    }
}

impl ApolloPhysicalType for BooleanType {

}

/// The type of dates.
#[derive(Clone, Copy, Debug, PartialEq, Eq, Structural)]
pub struct DateType {}

impl ApolloDataType for DateType {
    type IsNested = FalseT;

    type HasViews = FalseT;

    type IsStruct = FalseT;

    open spec fn static_dtype() -> DataTypeView {
        DataTypeView::Date
    }

    fn get_static_dtype() -> (r: DataType) {
        DataType::Date
    }
}

impl ApolloPhysicalType for DateType {

}

/// The type of times of day.
#[derive(Clone, Copy, Debug, PartialEq, Eq, Structural)]
pub struct TimeType {}

impl ApolloDataType for TimeType {
    type IsNested = FalseT;

    type HasViews = FalseT;

    type IsStruct = FalseT;

    open spec fn static_dtype() -> DataTypeView {
        DataTypeView::Time
    }

    fn get_static_dtype() -> (r: DataType) {
        DataType::Time
    }
}

impl ApolloPhysicalType for TimeType {

}

/// The type of lists; of the elements nothing is known.
#[derive(Clone, Copy, Debug, PartialEq, Eq, Structural)]
pub struct ListType {}

impl ApolloDataType for ListType {
    type IsNested = TrueT;

    type HasViews = FalseT;

    type IsStruct = FalseT;

    open spec fn static_dtype() -> DataTypeView {
        DataTypeView::List(Box::new(DataTypeView::Null))
    }

    fn get_static_dtype() -> (r: DataType) {
        let r = DataType::List(Box::new(DataType::Null));
        assert(r@ == DataTypeView::List(Box::new(DataTypeView::Null))) by {
            reveal_with_fuel(DataType::model, 2);
        }
        r
    }
}

impl ApolloPhysicalType for ListType {

}

/// The type of structs; of the fields nothing is known.
#[derive(Clone, Copy, Debug, PartialEq, Eq, Structural)]
pub struct StructType {}

impl ApolloDataType for StructType {
    type IsNested = TrueT;

    type HasViews = FalseT;

    type IsStruct = TrueT;

    open spec fn static_dtype() -> DataTypeView {
        DataTypeView::Struct(Seq::empty())
    }

    fn get_static_dtype() -> (r: DataType) {
        let r = DataType::Struct(Vec::new());
        assert(r@->Struct_0 =~= Seq::empty());
        r
    }
}

impl ApolloPhysicalType for StructType {

}

/// The type of lists of a fixed size; of the elements and the size nothing is known.
#[derive(Clone, Copy, Debug, PartialEq, Eq, Structural)]
pub struct FixedSizeListType {}

impl ApolloDataType for FixedSizeListType {
    type IsNested = TrueT;

    type HasViews = FalseT;

    type IsStruct = FalseT;

    open spec fn static_dtype() -> DataTypeView {
        DataTypeView::Array(Box::new(DataTypeView::Null), 0)
    }

    fn get_static_dtype() -> (r: DataType) {
        let r = DataType::Array(Box::new(DataType::Null), 0);
        assert(r@ == DataTypeView::Array(Box::new(DataTypeView::Null), 0)) by {
            reveal_with_fuel(DataType::model, 2);
        }
        r
    }
}

impl ApolloPhysicalType for FixedSizeListType {

}

} // verus!
