//! Columns of an extension type: a column of the type that stores the
//! values, under the name of the extension.

use vstd::prelude::*;
use vstd::string::*;
use crate::aexpr::IRExtensionFunction;
use crate::datatypes::DataType;
use crate::datatypes::DataTypeView;
use crate::error::ApolloError;
use crate::error::ApolloResult;
use crate::error::ErrorKind;
use crate::error::ErrorView;
use crate::series::Column;
use crate::series::Series;
use crate::series::SeriesView;

verus! {

/// A column of an extension type.
#[derive(Debug, PartialEq, Eq)]
pub struct ExtensionColumn {
    typ: String,
    storage: Series,
}

/// The mathematical value of a column of an extension type.
pub struct ExtensionView {
    /// The name of the extension.
    pub typ: Seq<char>,
    /// The column that stores the values.
    pub storage: SeriesView,
}

impl View for ExtensionColumn {
    type V = ExtensionView;

    closed spec fn view(&self) -> ExtensionView {
        ExtensionView { typ: self.typ@, storage: self.storage@ }
    }
}

impl ExtensionColumn {
    /// The type of the column: the extension over the type of its storage.
    pub fn dtype(&self) -> (r: DataType)
        ensures
            r@ == DataTypeView::Extension(self@.typ, Box::new(self@.storage.dtype)),
    {
        DataType::Extension(self.typ.clone(), Box::new(self.storage.dtype().duplicate()))
    }

    /// The name of the extension.
    pub fn typ(&self) -> (r: &String)
        ensures
            r@ == self@.typ,
    {
        &self.typ
    }
}

/// The column as a column of the extension type `dtype`.
///
/// It is an error for `dtype` not to be an extension type. The column
/// must be of the type that stores the extension.
pub fn ext_to(s: &Column, dtype: DataType) -> (r: ApolloResult<ExtensionColumn>)
    requires
        dtype@ matches DataTypeView::Extension(_, storage) ==> s@.dtype == *storage,
    ensures
        match dtype@ {
            DataTypeView::Extension(typ, storage) => r matches Ok(out) && out@ == (ExtensionView {
                typ,
                storage: s@,
            }),
            _ => r matches Err(e) && e@ == ErrorView::Simple(
                ErrorKind::ComputeError,
                "ext.to() requires an Extension dtype"@,
            ),
        },
{
    match dtype {
        DataType::Extension(typ, storage) => Ok(ExtensionColumn { typ, storage: s.clone() }),
        _ => Err(
            ApolloError::ComputeError(String::from_str("ext.to() requires an Extension dtype")),
        ),
    }
}

/// The column that stores the values of a column of an extension type.
pub fn ext_storage(s: &ExtensionColumn) -> (r: ApolloResult<Column>)
    ensures
        r matches Ok(out) && out@ == s@.storage,
{
    Ok(s.storage.clone())
}

/// A column of a plain type or of an extension type.
#[derive(Debug, PartialEq, Eq)]
pub enum AnyColumn {
    Plain(Column),
    Extension(ExtensionColumn),
}

/// The mathematical value of a column of either sort.
pub enum AnyColumnView {
    Plain(SeriesView),
    Extension(ExtensionView),
}

impl View for AnyColumn {
    type V = AnyColumnView;

    open spec fn view(&self) -> AnyColumnView {
        match self {
            AnyColumn::Plain(s) => AnyColumnView::Plain(s@),
            AnyColumn::Extension(e) => AnyColumnView::Extension(e@),
        }
    }
}

/// The column that stores the values of a column: of a column of an
/// extension type its storage, of a plain column the column itself.
pub open spec fn storage_of(c: AnyColumnView) -> SeriesView {
    match c {
        AnyColumnView::Plain(s) => s,
        AnyColumnView::Extension(e) => e.storage,
    }
}

/// Whether the function can be applied to the column: a column that is
/// taken to an extension type must be a plain column of the type that
/// stores the extension.
pub open spec fn extension_applies(func: IRExtensionFunction, c: AnyColumnView) -> bool {
    match func {
        IRExtensionFunction::To(dtype) => match dtype@ {
            DataTypeView::Extension(_, storage) => c matches AnyColumnView::Plain(s) && s.dtype
                == *storage,
            _ => true,
        },
        IRExtensionFunction::Storage => true,
    }
}

/// Applies a function on extension types to a column: `To` takes a plain
/// column to the given extension type, `Storage` gives the column that
/// stores the values.
pub fn apply_extension(func: IRExtensionFunction, c: &AnyColumn) -> (r: ApolloResult<AnyColumn>)
    requires
        extension_applies(func, c@),
    ensures
        match func {
            IRExtensionFunction::To(dtype) => match dtype@ {
                DataTypeView::Extension(typ, storage) => r matches Ok(out) && out@
                    == AnyColumnView::Extension(ExtensionView { typ, storage: storage_of(c@) }),
                _ => r matches Err(e) && e@ == ErrorView::Simple(
                    ErrorKind::ComputeError,
                    "ext.to() requires an Extension dtype"@,
                ),
            },
            IRExtensionFunction::Storage => r matches Ok(out) && out@ == AnyColumnView::Plain(
                storage_of(c@),
            ),
        },
{
    match func {
        IRExtensionFunction::To(dtype) => {
            match c {
                AnyColumn::Plain(s) => match ext_to(s, dtype) {
                    Ok(e) => Ok(AnyColumn::Extension(e)),
                    Err(e) => Err(e),
                },
                AnyColumn::Extension(_) => Err(
                    ApolloError::ComputeError(
                        String::from_str("ext.to() requires an Extension dtype"),
                    ),
                ),
            }
        },
        IRExtensionFunction::Storage => match c {
            AnyColumn::Plain(s) => Ok(AnyColumn::Plain(s.clone())),
            AnyColumn::Extension(e) => match ext_storage(e) {
                Ok(s) => Ok(AnyColumn::Plain(s)),
                Err(e) => Err(e),
            },
        },
    }
}

} // verus!
