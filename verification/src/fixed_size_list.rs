//! Taking one element out of every list of an array of fixed-size lists.

use vstd::prelude::*;
use vstd::string::*;
use crate::arrays::ArrayView;
use crate::arrays::IdxSize;
use crate::arrays::PrimitiveArray;
use crate::error::ApolloError;
use crate::error::ApolloResult;
use crate::error::ErrorKind;
use crate::error::ErrorView;
use crate::series::values_view;
use crate::series::AnyValue;
use crate::series::AnyValueView;

verus! {

/// The position in a list of `width` elements that `index` names: a
/// position counted from the front where `index` is not negative, from the
/// back where it is. `None` where the list has no such position.
pub open spec fn resolve_index(index: int, width: nat) -> Option<int> {
    if 0 <= index < width {
        Some(index)
    } else if index < 0 && -index <= width {
        Some(width + index)
    } else {
        None
    }
}

/// The position in a list of `len` elements that `index` names.
pub fn negative_to_usize(index: i64, len: usize) -> (r: Option<usize>)
    ensures
        match r {
            Some(p) => resolve_index(index as int, len as nat) == Some(p as int),
            None => resolve_index(index as int, len as nat) is None,
        },
{
    if index >= 0 {
        if (index as u64) < len as u64 {
            Some(index as usize)
        } else {
            None
        }
    } else {
        let back: u64 = if index == i64::MIN {
            0x8000_0000_0000_0000u64
        } else {
            (-index) as u64
        };
        if back <= len as u64 {
            Some(len - back as usize)
        } else {
            None
        }
    }
}

/// An array of lists of one common width. The elements of all lists lie
/// one after the other in `values`.
#[derive(Debug, PartialEq, Eq)]
pub struct FixedSizeListArray {
    width: usize,
    len: usize,
    values: Vec<AnyValue>,
}

/// The mathematical value of an array of fixed-size lists.
pub struct FixedSizeListView {
    pub width: nat,
    pub len: nat,
    pub values: Seq<AnyValueView>,
}

impl View for FixedSizeListArray {
    type V = FixedSizeListView;

    closed spec fn view(&self) -> FixedSizeListView {
        FixedSizeListView {
            width: self.width as nat,
            len: self.len as nat,
            values: values_view(self.values@),
        }
    }
}

impl FixedSizeListArray {
    #[verifier::type_invariant]
    closed spec fn inv(self) -> bool {
        self.values@.len() == self.width * self.len && self.values@.len() <= IdxSize::MAX
    }

    /// The array of the lists that `values` holds one after the other,
    /// each of `width` elements. `None` where `values` cannot be cut into
    /// such lists, or holds more elements than a row position can name.
    pub fn try_new(width: usize, values: Vec<AnyValue>) -> (r: Option<FixedSizeListArray>)
        ensures
            match r {
                Some(a) => width > 0 && values@.len() % (width as nat) == 0 && values@.len()
                    <= IdxSize::MAX && a@ == (FixedSizeListView {
                    width: width as nat,
                    len: values@.len() / (width as nat),
                    values: values_view(values@),
                }),
                None => width == 0 || values@.len() % (width as nat) != 0 || values@.len()
                    > IdxSize::MAX,
            },
    {
        if width == 0 || values.len() % width != 0 || values.len() > IdxSize::MAX as usize {
            return None;
        }
        let len = values.len() / width;
        assert(values@.len() == width * len) by (nonlinear_arith)
            requires
                width > 0,
                values@.len() % (width as nat) == 0,
                len == values@.len() / (width as nat),
        ;
        Some(FixedSizeListArray { width, len, values })
    }

    /// The number of elements of each list.
    pub fn size(&self) -> (n: usize)
        ensures
            n == self@.width,
    {
        self.width
    }

    /// The number of lists.
    pub fn len(&self) -> (n: usize)
        ensures
            n == self@.len,
            self@.values.len() == self@.width * self@.len,
            self@.values.len() <= IdxSize::MAX,
    {
        proof {
            use_type_invariant(self);
        }
        self.len
    }

    /// The elements of all lists, one list after the other.
    pub fn values(&self) -> (r: &Vec<AnyValue>)
        ensures
            values_view(r@) == self@.values,
    {
        &self.values
    }
}

/// Where in the elements of all lists the element lies that `index`
/// names in list `row`: `None` where the array has no such list, the index
/// is null, or the list has no such position.
pub open spec fn take_index(width: nat, len: nat, row: int, index: Option<i64>) -> Option<IdxSize> {
    match index {
        None => None,
        Some(ix) => if row < len {
            match resolve_index(ix as int, width) {
                Some(p) => Some((p + row * width) as IdxSize),
                None => None,
            }
        } else {
            None
        },
    }
}

proof fn lemma_take_in_bounds(width: nat, len: nat, row: int, p: int)
    requires
        0 <= row < len,
        0 <= p < width,
    ensures
        0 <= p + row * width < width * len,
{
    assert(row * width + width <= len * width) by (nonlinear_arith)
        requires
            0 <= row < len,
            0 <= width,
    ;
    assert(len * width == width * len) by (nonlinear_arith);
    assert(0 <= row * width) by (nonlinear_arith)
        requires
            0 <= row,
            0 <= width,
    ;
}

fn take_position(width: usize, len: usize, row: usize, index: Option<i64>) -> (r: Option<IdxSize>)
    requires
        width * len <= IdxSize::MAX,
    ensures
        r == take_index(width as nat, len as nat, row as int, index),
        r matches Some(t) ==> t < width * len,
{
    match index {
        None => None,
        Some(ix) => {
            if row >= len {
                return None;
            }
            assert(width <= IdxSize::MAX) by (nonlinear_arith)
                requires
                    width * len <= IdxSize::MAX,
                    len >= 1,
            ;
            if ix >= width as i64 {
                return None;
            }
            match negative_to_usize(ix, width) {
                Some(p) => {
                    proof {
                        lemma_take_in_bounds(width as nat, len as nat, row as int, p as int);
                    }
                    assert(row * width <= width * len) by (nonlinear_arith)
                        requires
                            row < len,
                            0 <= width,
                    ;
                    Some((p + row * width) as IdxSize)
                },
                None => None,
            }
        },
    }
}

/// For each of `len` lists of `width` elements, where the element lies
/// that `index` names.
pub fn sub_fixed_size_list_get_indexes_literal(width: usize, len: usize, index: i64) -> (r: Vec<
    Option<IdxSize>,
>)
    requires
        width * len <= IdxSize::MAX,
    ensures
        r@.len() == len,
        forall|i: int|
            0 <= i < len ==> #[trigger] r@[i] == take_index(width as nat, len as nat, i, Some(index)),
        forall|i: int| 0 <= i < len ==> (#[trigger] r@[i] matches Some(t) ==> t < width * len),
{
    let mut out: Vec<Option<IdxSize>> = Vec::new();
    let mut i: usize = 0;
    while i < len
        invariant
            i <= len,
            width * len <= IdxSize::MAX,
            out@.len() == i,
            forall|k: int|
                0 <= k < i ==> #[trigger] out@[k] == take_index(
                    width as nat,
                    len as nat,
                    k,
                    Some(index),
                ),
            forall|k: int| 0 <= k < i ==> (#[trigger] out@[k] matches Some(t) ==> t < width * len),
        decreases len - i,
    {
        out.push(take_position(width, len, i, Some(index)));
        i += 1;
    }
    out
}

/// For each index, where the element lies that it names in the list of
/// its row, in an array of `len` lists of `width` elements.
pub fn sub_fixed_size_list_get_indexes(width: usize, len: usize, index: &PrimitiveArray<i64>) -> (r:
    Vec<Option<IdxSize>>)
    requires
        width * len <= IdxSize::MAX,
    ensures
        r@.len() == index@.values.len(),
        forall|i: int|
            0 <= i < r@.len() ==> #[trigger] r@[i] == take_index(
                width as nat,
                len as nat,
                i,
                index@.get(i),
            ),
        forall|i: int| 0 <= i < r@.len() ==> (#[trigger] r@[i] matches Some(t) ==> t < width * len),
{
    let n = index.len();
    let mut out: Vec<Option<IdxSize>> = Vec::new();
    let mut i: usize = 0;
    while i < n
        invariant
            i <= n,
            n == index@.values.len(),
            width * len <= IdxSize::MAX,
            out@.len() == i,
            forall|k: int|
                0 <= k < i ==> #[trigger] out@[k] == take_index(
                    width as nat,
                    len as nat,
                    k,
                    index@.get(k),
                ),
            forall|k: int| 0 <= k < i ==> (#[trigger] out@[k] matches Some(t) ==> t < width * len),
        decreases n - i,
    {
        out.push(take_position(width, len, i, index.get(i)));
        i += 1;
    }
    out
}

/// The values at the given places, null for a place that is `None`.
pub open spec fn spec_take(values: Seq<AnyValueView>, take_by: Seq<Option<IdxSize>>) -> Seq<
    AnyValueView,
> {
    Seq::new(
        take_by.len(),
        |i: int|
            match take_by[i] {
                Some(t) => values[t as int],
                None => AnyValueView::Null,
            },
    )
}

/// Whether an index that is not null names no element of the list of
/// its row: the list has no such position, or the array has no such row.
/// A null index names nothing and is never out of range.
pub open spec fn out_of_range(width: nat, len: nat, row: int, index: Option<i64>) -> bool {
    index is Some && take_index(width, len, row, index) is None
}

/// Whether one of the indexes is out of range.
pub open spec fn any_out_of_range(width: nat, len: nat, index: Seq<Option<i64>>) -> bool {
    exists|i: int| 0 <= i < index.len() && out_of_range(width, len, i, #[trigger] index[i])
}

/// Whether `r` is what taking the elements gives: the elements at the
/// places that the indexes name, null for an index that is null or out of
/// range; or, where out of range is not to give null, the error for an
/// index that is out of range. A null index is no error.
pub open spec fn get_outcome(
    r: ApolloResult<Vec<AnyValue>>,
    arr: FixedSizeListView,
    index: Seq<Option<i64>>,
    null_on_oob: bool,
) -> bool {
    let take_by = Seq::new(index.len(), |i: int| take_index(arr.width, arr.len, i, index[i]));
    match r {
        Ok(out) => (null_on_oob || !any_out_of_range(arr.width, arr.len, index)) && values_view(
            out@,
        ) == spec_take(arr.values, take_by),
        Err(e) => !null_on_oob && any_out_of_range(arr.width, arr.len, index) && e@
            == ErrorView::Simple(ErrorKind::ComputeError, "get index is out of bounds"@),
    }
}

fn take_checked(
    arr: &FixedSizeListArray,
    take_by: &Vec<Option<IdxSize>>,
    null_on_oob: bool,
    Ghost(index): Ghost<Seq<Option<i64>>>,
    is_null: &Vec<bool>,
) -> (r: ApolloResult<Vec<AnyValue>>)
    requires
        take_by@.len() == index.len(),
        is_null@.len() == index.len(),
        forall|i: int| 0 <= i < index.len() ==> #[trigger] is_null@[i] == (index[i] is None),
        forall|i: int|
            0 <= i < index.len() ==> #[trigger] take_by@[i] == take_index(
                arr@.width,
                arr@.len,
                i,
                index[i],
            ),
        forall|i: int|
            0 <= i < take_by@.len() ==> (#[trigger] take_by@[i] matches Some(t) ==> t
                < arr@.values.len()),
    ensures
        get_outcome(r, arr@, index, null_on_oob),
{
    let values = arr.values();
    let mut out: Vec<AnyValue> = Vec::new();
    let mut i: usize = 0;
    while i < take_by.len()
        invariant
            i <= take_by.len(),
            take_by@.len() == index.len(),
            is_null@.len() == index.len(),
            values_view(values@) == arr@.values,
            forall|k: int| 0 <= k < index.len() ==> #[trigger] is_null@[k] == (index[k] is None),
            forall|k: int|
                0 <= k < index.len() ==> #[trigger] take_by@[k] == take_index(
                    arr@.width,
                    arr@.len,
                    k,
                    index[k],
                ),
            forall|k: int|
                0 <= k < take_by@.len() ==> (#[trigger] take_by@[k] matches Some(t) ==> t
                    < values@.len()),
            out@.len() == i,
            !null_on_oob ==> forall|k: int|
                0 <= k < i ==> !out_of_range(arr@.width, arr@.len, k, #[trigger] index[k]),
            forall|k: int|
                0 <= k < i ==> #[trigger] out@[k]@ == (match take_by@[k] {
                    Some(t) => values@[t as int]@,
                    None => AnyValueView::Null,
                }),
        decreases take_by.len() - i,
    {
        match take_by[i] {
            Some(t) => {
                out.push(values[t as usize].clone());
            },
            None => {
                if !null_on_oob && !is_null[i] {
                    assert(out_of_range(arr@.width, arr@.len, i as int, index[i as int]));
                    return Err(
                        ApolloError::ComputeError(String::from_str("get index is out of bounds")),
                    );
                }
                out.push(AnyValue::Null);
            },
        }
        i += 1;
    }
    proof {
        let wanted = Seq::new(
            index.len(),
            |i: int| take_index(arr@.width, arr@.len, i, index[i]),
        );
        assert(take_by@ =~= wanted);
        assert(values_view(out@) =~= spec_take(arr@.values, wanted));
    }
    Ok(out)
}

fn nulls_of(index: &PrimitiveArray<i64>) -> (r: Vec<bool>)
    ensures
        r@.len() == index@.values.len(),
        forall|i: int| 0 <= i < r@.len() ==> #[trigger] r@[i] == (index@.get(i) is None),
{
    let n = index.len();
    let mut out: Vec<bool> = Vec::new();
    let mut i: usize = 0;
    while i < n
        invariant
            i <= n,
            n == index@.values.len(),
            out@.len() == i,
            forall|k: int| 0 <= k < i ==> #[trigger] out@[k] == (index@.get(k) is None),
        decreases n - i,
    {
        out.push(index.get(i).is_none());
        i += 1;
    }
    out
}

/// Of every list the element that `index` names, counted from the back
/// where it is negative.
///
/// A list without such a position gives null, unless `null_on_oob` is not
/// set: then it is an error.
pub fn sub_fixed_size_list_get_literal(arr: &FixedSizeListArray, index: i64, null_on_oob: bool) -> (r:
    ApolloResult<Vec<AnyValue>>)
    ensures
        get_outcome(r, arr@, Seq::new(arr@.len, |i: int| Some(index)), null_on_oob),
{
    let len = arr.len();
    let take_by = sub_fixed_size_list_get_indexes_literal(arr.size(), len, index);
    let mut is_null: Vec<bool> = Vec::new();
    let mut i: usize = 0;
    while i < len
        invariant
            i <= len,
            is_null@.len() == i,
            forall|k: int| 0 <= k < i ==> !(#[trigger] is_null@[k]),
        decreases len - i,
    {
        is_null.push(false);
        i += 1;
    }
    take_checked(
        arr,
        &take_by,
        null_on_oob,
        Ghost(Seq::new(arr@.len, |i: int| Some(index))),
        &is_null,
    )
}

/// Of the list of each row the element that the index of that row names.
///
/// A null index gives null. An index that names no position of the list,
/// and an index for a row that the array does not have, is out of range:
/// it gives null, unless `null_on_oob` is not set; then it is an error.
pub fn sub_fixed_size_list_get(
    arr: &FixedSizeListArray,
    index: &PrimitiveArray<i64>,
    null_on_oob: bool,
) -> (r: ApolloResult<Vec<AnyValue>>)
    ensures
        get_outcome(
            r,
            arr@,
            Seq::new(index@.values.len(), |i: int| index@.get(i)),
            null_on_oob,
        ),
{
    let len = arr.len();
    let take_by = sub_fixed_size_list_get_indexes(arr.size(), len, index);
    let is_null = nulls_of(index);
    take_checked(
        arr,
        &take_by,
        null_on_oob,
        Ghost(Seq::new(index@.values.len(), |i: int| index@.get(i))),
        &is_null,
    )
}

} // verus!
