//! Walking the field nodes and buffers of an IPC record batch: which of
//! them belong to an array that is read, and which to one that is skipped.
//!
//! The functions take from the front of the queues what the array owns and
//! say what is to be read; reading the bytes is left to the caller.

use vstd::prelude::*;
use vstd::string::*;
use std::collections::VecDeque;
use crate::datatypes::dtype_name;
use crate::datatypes::DataType;
use crate::datatypes::DataTypeView;
use crate::error::ApolloError;
use crate::error::ApolloResult;
use crate::error::ErrorKind;
use crate::error::ErrorView;
use crate::text::concat2;
use crate::text::concat3;

verus! {

/// The metadata of one array in a record batch, as the file states it.
#[derive(Clone, Copy, Debug, PartialEq, Eq, Structural)]
pub struct FieldNode {
    pub length: i64,
    pub null_count: i64,
}

/// Where the bytes of one buffer lie in the body of a record batch.
#[derive(Clone, Copy, Debug, PartialEq, Eq, Structural)]
pub struct IpcBuffer {
    pub offset: i64,
    pub length: i64,
}

/// An array of nulls: nothing but a type and a length.
#[derive(Debug, PartialEq, Eq)]
pub struct NullArray {
    pub dtype: DataType,
    pub length: usize,
}

/// What is to be read for one array of binary or string views.
#[derive(Debug, PartialEq, Eq)]
pub struct BinviewLayout {
    /// The number of values to read.
    pub length: usize,
    /// The validity buffer. It is read only where the array has nulls.
    pub validity: IpcBuffer,
    /// Whether the field node states nulls.
    pub has_nulls: bool,
    /// The buffer of the views.
    pub views: IpcBuffer,
    /// The buffers that hold the bytes of the long values.
    pub variadic_buffers: Vec<IpcBuffer>,
}

pub open spec fn oos(what: Seq<char>) -> ErrorView {
    ErrorView::Simple(ErrorKind::ComputeError, "out-of-spec: "@ + what)
}

/// The message for a record batch without the variadic buffer count of a view array.
pub open spec fn no_variadic_counts_message() -> Seq<char> {
    "IPC: unable to fetch the variadic buffers\n\nThe file or stream is corrupted."@
}

/// The message for a record batch without the field node of an array of type `dt`.
pub open spec fn no_field_message(dt: DataTypeView) -> Seq<char> {
    "IPC: unable to fetch the field for "@ + dtype_name(dt)
        + "\n\nThe file or stream is corrupted."@
}

fn out_of_spec(what: &str) -> (e: ApolloError)
    ensures
        e@ == oos(what@),
{
    ApolloError::ComputeError(concat2("out-of-spec: ", what))
}

/// The number of values to read of an array: what the field node states,
/// cut down to the limit where there is one.
pub open spec fn array_length(node: FieldNode, limit: Option<usize>) -> int {
    match limit {
        Some(l) => if l < node.length {
            l as int
        } else {
            node.length as int
        },
        None => node.length as int,
    }
}

/// Takes the field node of the next array off the queue. It is an error
/// for the queue to be empty.
pub fn try_get_field_node(field_nodes: &mut VecDeque<FieldNode>, dtype: &DataType) -> (r:
    ApolloResult<FieldNode>)
    ensures
        match r {
            Ok(node) => old(field_nodes)@.len() > 0 && node == old(field_nodes)@[0] && final(field_nodes)@ == old(field_nodes)@.drop_first(),
            Err(e) => old(field_nodes)@.len() == 0 && final(field_nodes)@ == old(field_nodes)@
                && e@ == ErrorView::Simple(ErrorKind::ComputeError, no_field_message(dtype@)),
        },
{
    match field_nodes.pop_front() {
        Some(node) => {
            assert(field_nodes@ =~= old(field_nodes)@.drop_first());
            Ok(node)
        },
        None => {
            let mut msg = String::from_str("IPC: unable to fetch the field for ");
            dtype.push_name(&mut msg);
            msg.append("\n\nThe file or stream is corrupted.");
            Err(ApolloError::ComputeError(msg))
        },
    }
}

/// The number of values to read of an array. It is an error for the
/// field node to state a negative length, or one that no `usize` holds.
pub fn try_get_array_length(field_node: FieldNode, limit: Option<usize>) -> (r: ApolloResult<usize>)
    ensures
        match r {
            Ok(n) => 0 <= field_node.length <= usize::MAX && n == array_length(field_node, limit),
            Err(e) => !(0 <= field_node.length <= usize::MAX) && e@ == oos("NegativeFooterLength"@),
        },
{
    if field_node.length < 0 || field_node.length as u64 > usize::MAX as u64 {
        return Err(out_of_spec("NegativeFooterLength"));
    }
    let length = field_node.length as usize;
    match limit {
        Some(l) => if l < length {
            Ok(l)
        } else {
            Ok(length)
        },
        None => Ok(length),
    }
}

/// Reads an array of nulls: takes its field node off the queue and gives
/// the array of the stated length, cut down to the limit. It is an error for
/// the queue to be empty, for the length to be negative, and for the type
/// not to be the null type; in the last two cases the field node is taken.
pub fn read_null(field_nodes: &mut VecDeque<FieldNode>, dtype: DataType, limit: Option<usize>) -> (r:
    ApolloResult<NullArray>)
    ensures
        old(field_nodes)@.len() == 0 ==> (final(field_nodes)@ == old(field_nodes)@ && (r matches Err(
            e,
        ) && e@ == ErrorView::Simple(ErrorKind::ComputeError, no_field_message(dtype@)))),
        old(field_nodes)@.len() > 0 ==> (final(field_nodes)@ == old(field_nodes)@.drop_first() && {
            let node = old(field_nodes)@[0];
            if !(0 <= node.length <= usize::MAX) {
                r matches Err(e) && e@ == oos("NegativeFooterLength"@)
            } else if !(dtype@ is Null) {
                r matches Err(e) && e@ == ErrorView::Simple(
                    ErrorKind::ComputeError,
                    "NullArray can only be initialized with a DataType whose physical type is Null"@,
                )
            } else {
                r matches Ok(a) && a.dtype@ == dtype@ && a.length == array_length(node, limit)
            }
        }),
{
    let field_node = match try_get_field_node(field_nodes, &dtype) {
        Ok(n) => n,
        Err(e) => {
            return Err(e);
        },
    };
    let length = match try_get_array_length(field_node, limit) {
        Ok(n) => n,
        Err(e) => {
            return Err(e);
        },
    };
    if !matches!(dtype, DataType::Null) {
        return Err(
            ApolloError::ComputeError(
                String::from_str(
                    "NullArray can only be initialized with a DataType whose physical type is Null",
                ),
            ),
        );
    }
    Ok(NullArray { dtype, length })
}

/// Skips an array of nulls: takes its field node off the queue. It is an
/// error for the queue to be empty.
pub fn skip_null(field_nodes: &mut VecDeque<FieldNode>) -> (r: ApolloResult<()>)
    ensures
        match r {
            Ok(_) => old(field_nodes)@.len() > 0 && final(field_nodes)@ == old(field_nodes)@.drop_first(),
            Err(e) => old(field_nodes)@.len() == 0 && final(field_nodes)@ == old(field_nodes)@
                && e@ == oos(
                "IPC: unable to fetch the field for null. The file or stream is corrupted."@,
            ),
        },
{
    match field_nodes.pop_front() {
        Some(_) => {
            assert(field_nodes@ =~= old(field_nodes)@.drop_first());
            Ok(())
        },
        None => Err(
            out_of_spec("IPC: unable to fetch the field for null. The file or stream is corrupted."),
        ),
    }
}

/// `s` without its first `n` items, or empty where it has no more.
pub open spec fn skip_front<T>(s: Seq<T>, n: int) -> Seq<T> {
    if n >= s.len() {
        Seq::empty()
    } else {
        s.subrange(n, s.len() as int)
    }
}

/// How skipping an array of views ends.
pub enum SkipBinview {
    Done,
    NoField,
    NoValidity,
    NoViews,
    NoVariadicCount,
    NoVariadicBuffer,
}

/// How skipping an array of views ends, given what the queues hold.
pub open spec fn spec_skip_binview(nodes: nat, buffers: nat, counts: Seq<usize>) -> SkipBinview {
    if nodes == 0 {
        SkipBinview::NoField
    } else if buffers == 0 {
        SkipBinview::NoValidity
    } else if buffers == 1 {
        SkipBinview::NoViews
    } else if counts.len() == 0 {
        SkipBinview::NoVariadicCount
    } else if counts[0] > buffers - 2 {
        SkipBinview::NoVariadicBuffer
    } else {
        SkipBinview::Done
    }
}

/// The error that each unsuccessful end is reported with.
pub open spec fn skip_binview_error(end: SkipBinview) -> ErrorView {
    match end {
        SkipBinview::NoField => oos(
            "IPC: unable to fetch the field for utf8. The file or stream is corrupted."@,
        ),
        SkipBinview::NoValidity => oos("IPC: missing validity buffer."@),
        SkipBinview::NoViews => oos("IPC: missing views buffer."@),
        SkipBinview::NoVariadicCount => ErrorView::Simple(
            ErrorKind::ComputeError,
            no_variadic_counts_message(),
        ),
        _ => oos("IPC: missing variadic buffer"@),
    }
}

/// Skips an array of binary or string views.
///
/// Such an array owns one field node, a validity buffer, a buffer of
/// views, one count of variadic buffers and as many variadic buffers as the
/// count says. They are taken off the queues in this order; the first that
/// is missing is an error, and what was taken before stays taken.
pub fn skip_binview(
    field_nodes: &mut VecDeque<FieldNode>,
    buffers: &mut VecDeque<IpcBuffer>,
    variadic_buffer_counts: &mut VecDeque<usize>,
) -> (r: ApolloResult<()>)
    ensures
        ({
            let end = spec_skip_binview(
                old(field_nodes)@.len(),
                old(buffers)@.len(),
                old(variadic_buffer_counts)@,
            );
            &&& match r {
                Ok(_) => end is Done,
                Err(e) => !(end is Done) && e@ == skip_binview_error(end),
            }
            &&& final(field_nodes)@ == skip_front(old(field_nodes)@, 1)
            &&& final(buffers)@ == skip_front(
                old(buffers)@,
                match end {
                    SkipBinview::NoField => 0,
                    SkipBinview::NoValidity => 0,
                    SkipBinview::NoViews => 1,
                    SkipBinview::NoVariadicCount => 2,
                    _ => 2 + old(variadic_buffer_counts)@[0],
                },
            )
            &&& final(variadic_buffer_counts)@ == skip_front(
                old(variadic_buffer_counts)@,
                if end is Done || end is NoVariadicBuffer {
                    1
                } else {
                    0
                },
            )
        }),
{
    match field_nodes.pop_front() {
        Some(_) => {},
        None => {
            assert(field_nodes@ =~= skip_front(old(field_nodes)@, 1));
            assert(buffers@ =~= skip_front(old(buffers)@, 0));
            assert(variadic_buffer_counts@ =~= skip_front(old(variadic_buffer_counts)@, 0));
            return Err(
                out_of_spec(
                    "IPC: unable to fetch the field for utf8. The file or stream is corrupted.",
                ),
            );
        },
    }
    assert(field_nodes@ =~= skip_front(old(field_nodes)@, 1));
    assert(variadic_buffer_counts@ =~= skip_front(old(variadic_buffer_counts)@, 0));
    match buffers.pop_front() {
        Some(_) => {},
        None => {
            assert(buffers@ =~= skip_front(old(buffers)@, 0));
            return Err(out_of_spec("IPC: missing validity buffer."));
        },
    }
    match buffers.pop_front() {
        Some(_) => {},
        None => {
            assert(buffers@ =~= skip_front(old(buffers)@, 1));
            return Err(out_of_spec("IPC: missing views buffer."));
        },
    }
    assert(buffers@ =~= skip_front(old(buffers)@, 2));
    let n_variadic = match variadic_buffer_counts.pop_front() {
        Some(n) => n,
        None => {
            return Err(
                ApolloError::ComputeError(
                    String::from_str(
                        "IPC: unable to fetch the variadic buffers\n\nThe file or stream is corrupted.",
                    ),
                ),
            );
        },
    };
    assert(variadic_buffer_counts@ =~= skip_front(old(variadic_buffer_counts)@, 1));
    let mut i: usize = 0;
    while i < n_variadic
        invariant
            i <= n_variadic,
            old(field_nodes)@.len() > 0,
            field_nodes@ == skip_front(old(field_nodes)@, 1),
            old(variadic_buffer_counts)@.len() > 0,
            n_variadic == old(variadic_buffer_counts)@[0],
            variadic_buffer_counts@ == skip_front(old(variadic_buffer_counts)@, 1),
            old(buffers)@.len() >= 2,
            i <= old(buffers)@.len() - 2,
            buffers@ == skip_front(old(buffers)@, 2 + i),
        decreases n_variadic - i,
    {
        match buffers.pop_front() {
            Some(_) => {
                assert(buffers@ =~= skip_front(old(buffers)@, 2 + i + 1));
            },
            None => {
                assert(buffers@ =~= skip_front(old(buffers)@, 2 + n_variadic));
                return Err(out_of_spec("IPC: missing variadic buffer"));
            },
        }
        i += 1;
    }
    Ok(())
}

/// How laying out an array of views ends.
pub enum ReadBinview {
    Done,
    NoField,
    BadLength,
    NoValidity,
    NoViews,
    NoVariadicCount,
    NoVariadicBuffer,
}

/// How laying out an array of views ends, given what the queues hold.
pub open spec fn spec_read_binview(
    nodes: Seq<FieldNode>,
    buffers: nat,
    counts: Seq<usize>,
) -> ReadBinview {
    if nodes.len() == 0 {
        ReadBinview::NoField
    } else if !(0 <= nodes[0].length <= usize::MAX) {
        ReadBinview::BadLength
    } else if buffers == 0 {
        ReadBinview::NoValidity
    } else if buffers == 1 {
        ReadBinview::NoViews
    } else if counts.len() == 0 {
        ReadBinview::NoVariadicCount
    } else if counts[0] > buffers - 2 {
        ReadBinview::NoVariadicBuffer
    } else {
        ReadBinview::Done
    }
}

/// The error that each unsuccessful end is reported with.
pub open spec fn read_binview_error(end: ReadBinview, dt: DataTypeView) -> ErrorView {
    match end {
        ReadBinview::NoField => ErrorView::Simple(ErrorKind::ComputeError, no_field_message(dt)),
        ReadBinview::BadLength => oos("NegativeFooterLength"@),
        ReadBinview::NoVariadicCount => ErrorView::Simple(
            ErrorKind::ComputeError,
            no_variadic_counts_message(),
        ),
        _ => oos("IPC: unable to fetch the buffer. The file or stream is corrupted."@),
    }
}

fn next_buffer(buffers: &mut VecDeque<IpcBuffer>) -> (r: ApolloResult<IpcBuffer>)
    ensures
        match r {
            Ok(b) => old(buffers)@.len() > 0 && b == old(buffers)@[0] && final(buffers)@ == old(
                buffers,
            )@.subrange(1, old(buffers)@.len() as int),
            Err(e) => old(buffers)@.len() == 0 && final(buffers)@ == old(buffers)@ && e@ == oos(
                "IPC: unable to fetch the buffer. The file or stream is corrupted."@,
            ),
        },
{
    match buffers.pop_front() {
        Some(b) => Ok(b),
        None => Err(
            out_of_spec("IPC: unable to fetch the buffer. The file or stream is corrupted."),
        ),
    }
}

/// Lays out an array of binary or string views: takes what the array owns
/// off the queues and says what is to be read.
///
/// The array owns one field node, a validity buffer, a buffer of views,
/// one count of variadic buffers and as many variadic buffers as the count
/// says. The number of values is what the field node states, cut down to
/// the limit. The first thing that is missing is an error, as is a negative
/// length; what was taken off the queues before stays taken.
pub fn read_binview(
    field_nodes: &mut VecDeque<FieldNode>,
    variadic_buffer_counts: &mut VecDeque<usize>,
    dtype: &DataType,
    buffers: &mut VecDeque<IpcBuffer>,
    limit: Option<usize>,
) -> (r: ApolloResult<BinviewLayout>)
    ensures
        ({
            let end = spec_read_binview(
                old(field_nodes)@,
                old(buffers)@.len(),
                old(variadic_buffer_counts)@,
            );
            &&& match r {
                Ok(layout) => {
                    &&& end is Done
                    &&& layout.length == array_length(old(field_nodes)@[0], limit)
                    &&& layout.has_nulls == (old(field_nodes)@[0].null_count > 0)
                    &&& layout.validity == old(buffers)@[0]
                    &&& layout.views == old(buffers)@[1]
                    &&& layout.variadic_buffers@ == old(buffers)@.subrange(
                        2,
                        2 + old(variadic_buffer_counts)@[0],
                    )
                },
                Err(e) => !(end is Done) && e@ == read_binview_error(end, dtype@),
            }
            &&& final(field_nodes)@ == skip_front(old(field_nodes)@, 1)
            &&& final(buffers)@ == skip_front(
                old(buffers)@,
                match end {
                    ReadBinview::NoField => 0,
                    ReadBinview::BadLength => 0,
                    ReadBinview::NoValidity => 0,
                    ReadBinview::NoViews => 1,
                    ReadBinview::NoVariadicCount => 2,
                    _ => 2 + old(variadic_buffer_counts)@[0],
                },
            )
            &&& final(variadic_buffer_counts)@ == skip_front(
                old(variadic_buffer_counts)@,
                if end is Done || end is NoVariadicBuffer {
                    1
                } else {
                    0
                },
            )
        }),
{
    assert(buffers@ =~= skip_front(old(buffers)@, 0));
    assert(variadic_buffer_counts@ =~= skip_front(old(variadic_buffer_counts)@, 0));
    let field_node = match try_get_field_node(field_nodes, dtype) {
        Ok(n) => n,
        Err(e) => {
            assert(field_nodes@ =~= skip_front(old(field_nodes)@, 1));
            return Err(e);
        },
    };
    assert(field_nodes@ =~= skip_front(old(field_nodes)@, 1));
    let length = match try_get_array_length(field_node, limit) {
        Ok(n) => n,
        Err(e) => {
            return Err(e);
        },
    };
    let validity = match next_buffer(buffers) {
        Ok(b) => b,
        Err(e) => {
            return Err(e);
        },
    };
    let views = match next_buffer(buffers) {
        Ok(b) => b,
        Err(e) => {
            assert(buffers@ =~= skip_front(old(buffers)@, 1));
            return Err(e);
        },
    };
    assert(buffers@ =~= skip_front(old(buffers)@, 2));
    let n_variadic = match variadic_buffer_counts.pop_front() {
        Some(n) => n,
        None => {
            return Err(
                ApolloError::ComputeError(
                    String::from_str(
                        "IPC: unable to fetch the variadic buffers\n\nThe file or stream is corrupted.",
                    ),
                ),
            );
        },
    };
    assert(variadic_buffer_counts@ =~= skip_front(old(variadic_buffer_counts)@, 1));
    let mut variadic_buffers: Vec<IpcBuffer> = Vec::new();
    let mut i: usize = 0;
    while i < n_variadic
        invariant
            i <= n_variadic,
            old(field_nodes)@.len() > 0,
            0 <= old(field_nodes)@[0].length <= usize::MAX,
            field_nodes@ == skip_front(old(field_nodes)@, 1),
            old(variadic_buffer_counts)@.len() > 0,
            n_variadic == old(variadic_buffer_counts)@[0],
            variadic_buffer_counts@ == skip_front(old(variadic_buffer_counts)@, 1),
            old(buffers)@.len() >= 2,
            i <= old(buffers)@.len() - 2,
            buffers@ == skip_front(old(buffers)@, 2 + i),
            variadic_buffers@ == old(buffers)@.subrange(2, 2 + i),
        decreases n_variadic - i,
    {
        match next_buffer(buffers) {
            Ok(b) => {
                variadic_buffers.push(b);
                assert(buffers@ =~= skip_front(old(buffers)@, 2 + i + 1));
                assert(variadic_buffers@ =~= old(buffers)@.subrange(2, 2 + i + 1));
            },
            Err(e) => {
                assert(buffers@ =~= skip_front(old(buffers)@, 2 + n_variadic));
                return Err(e);
            },
        }
        i += 1;
    }
    Ok(
        BinviewLayout {
            length,
            validity,
            has_nulls: field_node.null_count > 0,
            views,
            variadic_buffers,
        },
    )
}

} // verus!
