//! Logical data types, fields and schemas.

use vstd::prelude::*;
use vstd::string::*;
use crate::text::decimal;
use crate::text::push_decimal;

verus! {

/// The resolution of a temporal type.
#[derive(Clone, Copy, Debug, PartialEq, Eq, Structural)]
pub enum TimeUnit {
    Nanoseconds,
    Microseconds,
    Milliseconds,
}

/// What is known of a type that has not been resolved yet.
#[derive(Clone, Copy, Debug, PartialEq, Eq, Structural)]
pub enum UnknownKind {
    Any,
    Int,
    Float,
    Str,
}

/// The logical type of a column.
#[derive(Debug, PartialEq, Eq)]
pub enum DataType {
    Boolean,
    UInt8,
    UInt16,
    UInt32,
    UInt64,
    Int8,
    Int16,
    Int32,
    Int64,
    Float32,
    Float64,
    String,
    Binary,
    Date,
    Datetime(TimeUnit),
    Duration(TimeUnit),
    Time,
    List(Box<DataType>),
    Array(Box<DataType>, usize),
    Struct(Vec<Field>),
    Categorical,
    /// A type defined outside the engine, by its name and the type that stores it.
    Extension(String, Box<DataType>),
    Null,
    Unknown(UnknownKind),
}

/// A named column type.
#[derive(Debug, PartialEq, Eq)]
pub struct Field {
    pub name: String,
    pub dtype: DataType,
}

/// The mathematical value of a [`DataType`].
pub enum DataTypeView {
    Boolean,
    UInt8,
    UInt16,
    UInt32,
    UInt64,
    Int8,
    Int16,
    Int32,
    Int64,
    Float32,
    Float64,
    String,
    Binary,
    Date,
    Datetime(TimeUnit),
    Duration(TimeUnit),
    Time,
    List(Box<DataTypeView>),
    Array(Box<DataTypeView>, nat),
    Struct(Seq<(Seq<char>, DataTypeView)>),
    Categorical,
    Extension(Seq<char>, Box<DataTypeView>),
    Null,
    Unknown(UnknownKind),
}

impl DataType {
    pub open spec fn model(&self) -> DataTypeView
        decreases self,
    {
        match self {
            DataType::Boolean => DataTypeView::Boolean,
            DataType::UInt8 => DataTypeView::UInt8,
            DataType::UInt16 => DataTypeView::UInt16,
            DataType::UInt32 => DataTypeView::UInt32,
            DataType::UInt64 => DataTypeView::UInt64,
            DataType::Int8 => DataTypeView::Int8,
            DataType::Int16 => DataTypeView::Int16,
            DataType::Int32 => DataTypeView::Int32,
            DataType::Int64 => DataTypeView::Int64,
            DataType::Float32 => DataTypeView::Float32,
            DataType::Float64 => DataTypeView::Float64,
            DataType::String => DataTypeView::String,
            DataType::Binary => DataTypeView::Binary,
            DataType::Date => DataTypeView::Date,
            DataType::Datetime(u) => DataTypeView::Datetime(*u),
            DataType::Duration(u) => DataTypeView::Duration(*u),
            DataType::Time => DataTypeView::Time,
            DataType::List(inner) => DataTypeView::List(Box::new(inner.model())),
            DataType::Array(inner, width) => DataTypeView::Array(
                Box::new(inner.model()),
                *width as nat,
            ),
            DataType::Struct(fields) => DataTypeView::Struct(
                Seq::new(
                    fields@.len(),
                    |i: int|
                        if 0 <= i < fields@.len() {
                            (fields@[i].name@, fields@[i].dtype.model())
                        } else {
                            (Seq::empty(), DataTypeView::Null)
                        },
                ),
            ),
            DataType::Categorical => DataTypeView::Categorical,
            DataType::Extension(name, storage) => DataTypeView::Extension(
                name@,
                Box::new(storage.model()),
            ),
            DataType::Null => DataTypeView::Null,
            DataType::Unknown(k) => DataTypeView::Unknown(*k),
        }
    }
}

impl View for DataType {
    type V = DataTypeView;

    open spec fn view(&self) -> DataTypeView {
        self.model()
    }
}

/// The names and types of a list of fields.
pub open spec fn fields_view(fields: Seq<Field>) -> Seq<(Seq<char>, DataTypeView)> {
    Seq::new(fields.len(), |i: int| (fields[i].name@, fields[i].dtype.model()))
}

impl View for Field {
    type V = (Seq<char>, DataTypeView);

    open spec fn view(&self) -> (Seq<char>, DataTypeView) {
        (self.name@, self.dtype.model())
    }
}

impl Clone for DataType {
    fn clone(&self) -> (r: Self)
        ensures
            r@ == self@,
    {
        self.duplicate()
    }
}

impl DataType {
    /// A copy of the type.
    pub fn duplicate(&self) -> (r: Self)
        ensures
            r@ == self@,
        decreases self,
    {
        match self {
            DataType::Boolean => DataType::Boolean,
            DataType::UInt8 => DataType::UInt8,
            DataType::UInt16 => DataType::UInt16,
            DataType::UInt32 => DataType::UInt32,
            DataType::UInt64 => DataType::UInt64,
            DataType::Int8 => DataType::Int8,
            DataType::Int16 => DataType::Int16,
            DataType::Int32 => DataType::Int32,
            DataType::Int64 => DataType::Int64,
            DataType::Float32 => DataType::Float32,
            DataType::Float64 => DataType::Float64,
            DataType::String => DataType::String,
            DataType::Binary => DataType::Binary,
            DataType::Date => DataType::Date,
            DataType::Datetime(u) => DataType::Datetime(*u),
            DataType::Duration(u) => DataType::Duration(*u),
            DataType::Time => DataType::Time,
            DataType::List(inner) => DataType::List(Box::new((**inner).duplicate())),
            DataType::Array(inner, width) => DataType::Array(Box::new((**inner).duplicate()), *width),
            DataType::Struct(fields) => {
                let mut out: Vec<Field> = Vec::new();
                let mut i: usize = 0;
                while i < fields.len()
                    invariant
                        i <= fields.len(),
                        out.len() == i,
                        self == DataType::Struct(*fields),
                        forall|j: int| 0 <= j < i ==> out@[j]@ == fields@[j]@,
                    decreases fields.len() - i,
                {
                    let f = &fields[i];
                    assert(self->Struct_0 == *fields);
                    out.push(Field { name: f.name.clone(), dtype: f.dtype.duplicate() });
                    i += 1;
                }
                let r = DataType::Struct(out);
                assert(r@ =~= self@) by {
                    assert(r.model()->Struct_0 =~= self.model()->Struct_0);
                }
                r
            },
            DataType::Categorical => DataType::Categorical,
            DataType::Extension(name, storage) => DataType::Extension(
                name.clone(),
                Box::new((**storage).duplicate()),
            ),
            DataType::Null => DataType::Null,
            DataType::Unknown(k) => DataType::Unknown(*k),
        }
    }
}

impl DataType {
    /// Whether two types are the same type.
    pub fn same(&self, other: &DataType) -> (r: bool)
        ensures
            r == (self@ == other@),
        decreases self,
    {
        match (self, other) {
            (DataType::Boolean, DataType::Boolean) => true,
            (DataType::UInt8, DataType::UInt8) => true,
            (DataType::UInt16, DataType::UInt16) => true,
            (DataType::UInt32, DataType::UInt32) => true,
            (DataType::UInt64, DataType::UInt64) => true,
            (DataType::Int8, DataType::Int8) => true,
            (DataType::Int16, DataType::Int16) => true,
            (DataType::Int32, DataType::Int32) => true,
            (DataType::Int64, DataType::Int64) => true,
            (DataType::Float32, DataType::Float32) => true,
            (DataType::Float64, DataType::Float64) => true,
            (DataType::String, DataType::String) => true,
            (DataType::Binary, DataType::Binary) => true,
            (DataType::Date, DataType::Date) => true,
            (DataType::Datetime(a), DataType::Datetime(b)) => *a == *b,
            (DataType::Duration(a), DataType::Duration(b)) => *a == *b,
            (DataType::Time, DataType::Time) => true,
            (DataType::List(a), DataType::List(b)) => (**a).same(&**b),
            (DataType::Array(a, wa), DataType::Array(b, wb)) => *wa == *wb && (**a).same(&**b),
            (DataType::Struct(fa), DataType::Struct(fb)) => {
                if fa.len() != fb.len() {
                    assert(self.model()->Struct_0.len() != other.model()->Struct_0.len());
                    return false;
                }
                let mut i: usize = 0;
                while i < fa.len()
                    invariant
                        i <= fa.len(),
                        fa.len() == fb.len(),
                        self == DataType::Struct(*fa),
                        other == DataType::Struct(*fb),
                        forall|j: int| 0 <= j < i ==> fa@[j]@ == fb@[j]@,
                    decreases fa.len() - i,
                {
                    let x = &fa[i];
                    let y = &fb[i];
                    assert(self->Struct_0 == *fa);
                    if !(x.name == y.name) || !x.dtype.same(&y.dtype) {
                        assert(self.model()->Struct_0[i as int] != other.model()->Struct_0[i as int]);
                        return false;
                    }
                    i += 1;
                }
                assert(self.model()->Struct_0 =~= other.model()->Struct_0);
                true
            },
            (DataType::Categorical, DataType::Categorical) => true,
            (DataType::Extension(na, a), DataType::Extension(nb, b)) => *na == *nb && (**a).same(
                &**b,
            ),
            (DataType::Null, DataType::Null) => true,
            (DataType::Unknown(a), DataType::Unknown(b)) => *a == *b,
            _ => false,
        }
    }
}

/// The short name of a time unit.
pub open spec fn unit_name(u: TimeUnit) -> Seq<char> {
    match u {
        TimeUnit::Nanoseconds => "ns"@,
        TimeUnit::Microseconds => "us"@,
        TimeUnit::Milliseconds => "ms"@,
    }
}

/// The name under which a type is shown in messages.
pub open spec fn dtype_name(dt: DataTypeView) -> Seq<char>
    decreases dt,
{
    match dt {
        DataTypeView::Boolean => "bool"@,
        DataTypeView::UInt8 => "u8"@,
        DataTypeView::UInt16 => "u16"@,
        DataTypeView::UInt32 => "u32"@,
        DataTypeView::UInt64 => "u64"@,
        DataTypeView::Int8 => "i8"@,
        DataTypeView::Int16 => "i16"@,
        DataTypeView::Int32 => "i32"@,
        DataTypeView::Int64 => "i64"@,
        DataTypeView::Float32 => "f32"@,
        DataTypeView::Float64 => "f64"@,
        DataTypeView::String => "str"@,
        DataTypeView::Binary => "binary"@,
        DataTypeView::Date => "date"@,
        DataTypeView::Datetime(u) => "datetime["@ + unit_name(u) + "]"@,
        DataTypeView::Duration(u) => "duration["@ + unit_name(u) + "]"@,
        DataTypeView::Time => "time"@,
        DataTypeView::List(inner) => "list["@ + dtype_name(*inner) + "]"@,
        DataTypeView::Array(inner, width) => "array["@ + dtype_name(*inner) + ", "@ + decimal(width)
            + "]"@,
        DataTypeView::Struct(fields) => "struct["@ + decimal(fields.len()) + "]"@,
        DataTypeView::Categorical => "cat"@,
        DataTypeView::Extension(name, storage) => "ext["@ + name + ", "@ + dtype_name(*storage)
            + "]"@,
        DataTypeView::Null => "null"@,
        DataTypeView::Unknown(_) => "unknown"@,
    }
}

fn unit_str(u: TimeUnit) -> (s: &'static str)
    ensures
        s@ == unit_name(u),
{
    match u {
        TimeUnit::Nanoseconds => "ns",
        TimeUnit::Microseconds => "us",
        TimeUnit::Milliseconds => "ms",
    }
}

impl DataType {
    /// Appends the type's name to `out`.
    pub fn push_name(&self, out: &mut String)
        ensures
            final(out)@ == old(out)@ + dtype_name(self@),
        decreases self,
    {
        match self {
            DataType::Boolean => out.append("bool"),
            DataType::UInt8 => out.append("u8"),
            DataType::UInt16 => out.append("u16"),
            DataType::UInt32 => out.append("u32"),
            DataType::UInt64 => out.append("u64"),
            DataType::Int8 => out.append("i8"),
            DataType::Int16 => out.append("i16"),
            DataType::Int32 => out.append("i32"),
            DataType::Int64 => out.append("i64"),
            DataType::Float32 => out.append("f32"),
            DataType::Float64 => out.append("f64"),
            DataType::String => out.append("str"),
            DataType::Binary => out.append("binary"),
            DataType::Date => out.append("date"),
            DataType::Datetime(u) => {
                out.append("datetime[");
                out.append(unit_str(*u));
                out.append("]");
                assert(out@ =~= old(out)@ + dtype_name(self@));
            },
            DataType::Duration(u) => {
                out.append("duration[");
                out.append(unit_str(*u));
                out.append("]");
                assert(out@ =~= old(out)@ + dtype_name(self@));
            },
            DataType::Time => out.append("time"),
            DataType::List(inner) => {
                out.append("list[");
                (**inner).push_name(out);
                out.append("]");
                assert(out@ =~= old(out)@ + dtype_name(self@));
            },
            DataType::Array(inner, width) => {
                out.append("array[");
                (**inner).push_name(out);
                out.append(", ");
                push_decimal(out, *width);
                out.append("]");
                assert(out@ =~= old(out)@ + dtype_name(self@));
            },
            DataType::Struct(fields) => {
                out.append("struct[");
                push_decimal(out, fields.len());
                out.append("]");
                assert(out@ =~= old(out)@ + dtype_name(self@));
            },
            DataType::Categorical => out.append("cat"),
            DataType::Extension(name, storage) => {
                out.append("ext[");
                out.append(name.as_str());
                out.append(", ");
                (**storage).push_name(out);
                out.append("]");
                assert(out@ =~= old(out)@ + dtype_name(self@));
            },
            DataType::Null => out.append("null"),
            DataType::Unknown(_) => out.append("unknown"),
        }
    }

    /// The name under which the type is shown in messages.
    pub fn name(&self) -> (s: String)
        ensures
            s@ == dtype_name(self@),
    {
        let mut s = String::new();
        self.push_name(&mut s);
        assert(s@ =~= dtype_name(self@));
        s
    }

    pub open spec fn spec_is_signed_integer(&self) -> bool {
        self@ is Int8 || self@ is Int16 || self@ is Int32 || self@ is Int64
    }

    pub open spec fn spec_is_unsigned_integer(&self) -> bool {
        self@ is UInt8 || self@ is UInt16 || self@ is UInt32 || self@ is UInt64
    }

    pub open spec fn spec_is_integer(&self) -> bool {
        self.spec_is_signed_integer() || self.spec_is_unsigned_integer()
    }

    pub open spec fn spec_is_float(&self) -> bool {
        self@ is Float32 || self@ is Float64
    }

    pub open spec fn spec_is_primitive_numeric(&self) -> bool {
        self.spec_is_integer() || self.spec_is_float()
    }

    pub open spec fn spec_is_temporal(&self) -> bool {
        self@ is Date || self@ is Datetime || self@ is Duration || self@ is Time
    }

    /// Whether the type is one of the integer types, signed or unsigned.
    #[verifier::when_used_as_spec(spec_is_integer)]
    pub fn is_integer(&self) -> (r: bool)
        ensures
            r == self.spec_is_integer(),
    {
        match self {
            DataType::Int8 | DataType::Int16 | DataType::Int32 | DataType::Int64 => true,
            DataType::UInt8 | DataType::UInt16 | DataType::UInt32 | DataType::UInt64 => true,
            _ => false,
        }
    }

    /// Whether the type is a signed integer type.
    #[verifier::when_used_as_spec(spec_is_signed_integer)]
    pub fn is_signed_integer(&self) -> (r: bool)
        ensures
            r == self.spec_is_signed_integer(),
    {
        match self {
            DataType::Int8 | DataType::Int16 | DataType::Int32 | DataType::Int64 => true,
            _ => false,
        }
    }

    /// Whether the type is an unsigned integer type.
    #[verifier::when_used_as_spec(spec_is_unsigned_integer)]
    pub fn is_unsigned_integer(&self) -> (r: bool)
        ensures
            r == self.spec_is_unsigned_integer(),
    {
        match self {
            DataType::UInt8 | DataType::UInt16 | DataType::UInt32 | DataType::UInt64 => true,
            _ => false,
        }
    }

    /// Whether the type is a floating-point type.
    #[verifier::when_used_as_spec(spec_is_float)]
    pub fn is_float(&self) -> (r: bool)
        ensures
            r == self.spec_is_float(),
    {
        match self {
            DataType::Float32 | DataType::Float64 => true,
            _ => false,
        }
    }

    /// Whether the type is an integer or floating-point type.
    #[verifier::when_used_as_spec(spec_is_primitive_numeric)]
    pub fn is_primitive_numeric(&self) -> (r: bool)
        ensures
            r == self.spec_is_primitive_numeric(),
    {
        self.is_integer() || self.is_float()
    }

    /// Whether the type is a date, a time, a datetime or a duration.
    #[verifier::when_used_as_spec(spec_is_temporal)]
    pub fn is_temporal(&self) -> (r: bool)
        ensures
            r == self.spec_is_temporal(),
    {
        match self {
            DataType::Date | DataType::Datetime(_) | DataType::Duration(_) | DataType::Time => true,
            _ => false,
        }
    }
}

impl Clone for Field {
    fn clone(&self) -> (r: Self)
        ensures
            r@ == self@,
    {
        Field { name: self.name.clone(), dtype: self.dtype.duplicate() }
    }
}

impl Field {
    /// A field of the given name and type.
    pub fn new(name: &str, dtype: DataType) -> (r: Field)
        ensures
            r@ == (name@, dtype@),
    {
        Field { name: String::from_str(name), dtype }
    }
}

} // verus!
