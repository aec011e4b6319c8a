//! Arrays of byte strings stored as views: a short value lies in its view,
//! a long one in a buffer that the view points into.

use vstd::prelude::*;
use crate::arrays::any_null;
use crate::arrays::apply_nulls;
use crate::arrays::bitmap_view;
use crate::arrays::check_bounds;
use crate::arrays::in_bounds;
use crate::arrays::mark_nulls;
use crate::arrays::pair_count;
use crate::arrays::scatter_validity;
use crate::arrays::scatter_values;
use crate::arrays::spec_scatter;
use crate::arrays::ArrayView;
use crate::arrays::ChunkedSet;
use crate::arrays::IdxSize;
use crate::error::ApolloResult;
use crate::error::ErrorKind;
use crate::error::ErrorView;

verus! {

/// The longest value that lies in its view.
pub const MAX_INLINE: usize = 12;

/// Where the bytes of one value lie.
#[derive(Debug, PartialEq, Eq)]
pub enum BinView {
    /// In the view itself.
    Inline(Vec<u8>),
    /// In a buffer of the array: `length` bytes from `offset` on.
    Ref { buffer_idx: usize, offset: usize, length: usize },
}

/// The bytes that a view stands for.
pub open spec fn resolve(v: BinView, buffers: Seq<Vec<u8>>) -> Seq<u8> {
    match v {
        BinView::Inline(b) => b@,
        BinView::Ref { buffer_idx, offset, length } => buffers[buffer_idx as int]@.subrange(
            offset as int,
            offset + length,
        ),
    }
}

/// Whether a view points at bytes that are there.
pub open spec fn view_ok(v: BinView, buffers: Seq<Vec<u8>>) -> bool {
    match v {
        BinView::Inline(b) => true,
        BinView::Ref { buffer_idx, offset, length } => buffer_idx < buffers.len() && offset + length
            <= buffers[buffer_idx as int]@.len(),
    }
}

/// The byte strings that the views stand for.
pub open spec fn resolve_all(views: Seq<BinView>, buffers: Seq<Vec<u8>>) -> Seq<Seq<u8>> {
    Seq::new(views.len(), |i: int| resolve(views[i], buffers))
}

/// Every view points at bytes that are there.
pub open spec fn views_ok(views: Seq<BinView>, buffers: Seq<Vec<u8>>) -> bool {
    forall|i: int| 0 <= i < views.len() ==> view_ok(#[trigger] views[i], buffers)
}

/// An array of byte strings.
#[derive(Debug, PartialEq, Eq)]
pub struct BinaryViewArray {
    views: Vec<BinView>,
    buffers: Vec<Vec<u8>>,
    validity: Option<Vec<bool>>,
}

impl View for BinaryViewArray {
    type V = ArrayView<Seq<u8>>;

    closed spec fn view(&self) -> ArrayView<Seq<u8>> {
        ArrayView {
            values: resolve_all(self.views@, self.buffers@),
            validity: bitmap_view(self.validity),
        }
    }
}

/// The views of the values that are to be written.
pub open spec fn set_view(set: Seq<Option<Vec<u8>>>) -> Seq<Option<Seq<u8>>> {
    Seq::new(
        set.len(),
        |i: int|
            match set[i] {
                Some(b) => Some(b@),
                None => None,
            },
    )
}

fn copy_bytes(b: &Vec<u8>) -> (r: Vec<u8>)
    ensures
        r@ == b@,
{
    let mut out: Vec<u8> = Vec::new();
    let mut i: usize = 0;
    while i < b.len()
        invariant
            i <= b.len(),
            out@ == b@.subrange(0, i as int),
        decreases b.len() - i,
    {
        out.push(b[i]);
        assert(out@ =~= b@.subrange(0, i + 1));
        i += 1;
    }
    assert(out@ =~= b@);
    out
}

fn append_bytes(buffer: &mut Vec<u8>, b: &Vec<u8>)
    ensures
        final(buffer)@ == old(buffer)@ + b@,
{
    let mut i: usize = 0;
    while i < b.len()
        invariant
            i <= b.len(),
            buffer@ == old(buffer)@ + b@.subrange(0, i as int),
        decreases b.len() - i,
    {
        buffer.push(b[i]);
        assert(buffer@ =~= old(buffer)@ + b@.subrange(0, i + 1));
        i += 1;
    }
    assert(b@.subrange(0, i as int) =~= b@);
}

proof fn lemma_grow_keeps_views(
    views: Seq<BinView>,
    buffers: Seq<Vec<u8>>,
    last: Vec<u8>,
    grown: Vec<u8>,
    more: Seq<u8>,
)
    requires
        views_ok(views, buffers.push(last)),
        grown@ == last@ + more,
    ensures
        views_ok(views, buffers.push(grown)),
        resolve_all(views, buffers.push(grown)) == resolve_all(views, buffers.push(last)),
{
    let a = buffers.push(last);
    let b = buffers.push(grown);
    assert forall|i: int| 0 <= i < views.len() implies view_ok(#[trigger] views[i], b) && resolve(
        views[i],
        b,
    ) == resolve(views[i], a) by {
        assert(view_ok(views[i], a));
        match views[i] {
            BinView::Inline(x) => {},
            BinView::Ref { buffer_idx, offset, length } => {
                if buffer_idx < buffers.len() {
                    assert(a[buffer_idx as int] == b[buffer_idx as int]);
                } else {
                    assert(a[buffer_idx as int] == last);
                    assert(b[buffer_idx as int] == grown);
                    assert(grown@.subrange(offset as int, offset + length) =~= last@.subrange(
                        offset as int,
                        offset + length,
                    ));
                }
            },
        }
    }
    assert(resolve_all(views, b) =~= resolve_all(views, a));
}

fn update_validity(
    validity: Option<Vec<bool>>,
    len: usize,
    idx: &Vec<IdxSize>,
    set_values: &Vec<Option<Vec<u8>>>,
) -> (r: Option<Vec<bool>>)
    requires
        in_bounds(idx@, len as nat, pair_count(idx@, set_view(set_values@))),
        validity matches Some(v) ==> v@.len() == len,
    ensures
        bitmap_view(r) == spec_scatter(
            ArrayView { values: Seq::new(len as nat, |i: int| Seq::<u8>::empty()), validity: bitmap_view(validity) },
            idx@,
            set_view(set_values@),
        ).validity,
        r matches Some(v) ==> v@.len() == len,
{
    let ghost set = set_view(set_values@);
    let n = if idx.len() <= set_values.len() {
        idx.len()
    } else {
        set_values.len()
    };
    match validity {
        Some(bits) => {
            let ghost old_bits = bits@;
            let mut bits = bits;
            let mut k: usize = 0;
            while k < n
                invariant
                    k <= n,
                    set == set_view(set_values@),
                    n == pair_count(idx@, set),
                    in_bounds(idx@, len as nat, n as int),
                    bits@.len() == len,
                    bits@ == scatter_validity(old_bits, idx@, set, k as int),
                decreases n - k,
            {
                bits.set(idx[k] as usize, set_values[k].is_some());
                k += 1;
            }
            Some(bits)
        },
        None => {
            let mut bits: Vec<bool> = Vec::new();
            let mut j: usize = 0;
            while j < len
                invariant
                    j <= len,
                    bits@.len() == j,
                    forall|m: int| 0 <= m < j ==> bits@[m],
                decreases len - j,
            {
                bits.push(true);
                j += 1;
            }
            assert(bits@ =~= Seq::new(len as nat, |i: int| true));
            let mut found = false;
            let mut k: usize = 0;
            while k < n
                invariant
                    k <= n,
                    set == set_view(set_values@),
                    n == pair_count(idx@, set),
                    in_bounds(idx@, len as nat, n as int),
                    bits@.len() == len,
                    bits@ == mark_nulls(len as nat, idx@, set, k as int),
                    found == any_null(set, k as int),
                decreases n - k,
            {
                if set_values[k].is_none() {
                    bits.set(idx[k] as usize, false);
                    found = true;
                    assert(set[k as int] is None);
                } else {
                    assert forall|j: int| 0 <= j < k as int + 1 && (#[trigger] set[j]) is None implies j
                        < k by {}
                }
                k += 1;
            }
            if found {
                Some(bits)
            } else {
                None
            }
        },
    }
}

impl BinaryViewArray {
    #[verifier::type_invariant]
    closed spec fn inv(self) -> bool {
        &&& views_ok(self.views@, self.buffers@)
        &&& self.validity matches Some(v) ==> v@.len() == self.views@.len()
    }

    /// The array of the given byte strings, all of them valid.
    pub fn from_values(values: &Vec<Vec<u8>>) -> (r: BinaryViewArray)
        ensures
            r@ == (ArrayView {
                values: Seq::new(values@.len(), |i: int| values@[i]@),
                validity: None,
            }),
    {
        let mut views: Vec<BinView> = Vec::new();
        let mut i: usize = 0;
        while i < values.len()
            invariant
                i <= values.len(),
                views@.len() == i,
                forall|k: int|
                    0 <= k < i ==> (#[trigger] views@[k] matches BinView::Inline(b) && b@
                        == values@[k]@),
            decreases values.len() - i,
        {
            views.push(BinView::Inline(copy_bytes(&values[i])));
            i += 1;
        }
        let r = BinaryViewArray { views, buffers: Vec::new(), validity: None };
        assert(r@.values =~= Seq::new(values@.len(), |i: int| values@[i]@));
        r
    }

    /// The number of values.
    pub fn len(&self) -> (n: usize)
        ensures
            n == self@.values.len(),
            self@.wf(),
    {
        proof {
            use_type_invariant(self);
        }
        self.views.len()
    }

    /// The number of buffers that hold long values.
    pub closed spec fn spec_buffer_count(&self) -> usize {
        self.buffers@.len() as usize
    }

    /// The number of buffers that hold long values.
    #[verifier::when_used_as_spec(spec_buffer_count)]
    pub fn buffer_count(&self) -> (n: usize)
        ensures
            n == self.spec_buffer_count(),
    {
        self.buffers.len()
    }

    /// The value at position `i`; `None` where it is null or `i` is past the end.
    pub fn get(&self, i: usize) -> (r: Option<Vec<u8>>)
        ensures
            match r {
                Some(b) => i < self@.values.len() && self@.get(i as int) == Some(b@),
                None => i >= self@.values.len() || self@.get(i as int) is None,
            },
    {
        proof {
            use_type_invariant(self);
        }
        if i >= self.views.len() {
            return None;
        }
        match &self.validity {
            Some(v) => {
                if !v[i] {
                    return None;
                }
            },
            None => {},
        }
        assert(view_ok(self.views@[i as int], self.buffers@));
        match &self.views[i] {
            BinView::Inline(b) => Some(copy_bytes(b)),
            BinView::Ref { buffer_idx, offset, length } => {
                let buffer = &self.buffers[*buffer_idx];
                let total = buffer.len();
                let mut out: Vec<u8> = Vec::new();
                let mut k: usize = 0;
                while k < *length
                    invariant
                        k <= *length,
                        total == buffer@.len(),
                        *offset + *length <= buffer@.len(),
                        out@ == buffer@.subrange(*offset as int, *offset + k),
                    decreases *length - k,
                {
                    out.push(buffer[*offset + k]);
                    assert(out@ =~= buffer@.subrange(*offset as int, *offset + k + 1));
                    k += 1;
                }
                Some(out)
            },
        }
    }
}

/// Whether one of the first `upto` values is too long for a view.
pub open spec fn writes_long_value(set: Seq<Option<Vec<u8>>>, upto: int) -> bool {
    exists|k: int| 0 <= k < upto && (#[trigger] set[k] matches Some(b) && b@.len() > MAX_INLINE)
}

/// Writes byte strings into an array at given positions, pair by pair.
/// Of two pairs for one position the later sets the stored value; but in
/// an array without a validity bitmap a position that was given a null
/// stays null, whatever follows. A short value is put into its
/// view; the long values are put one after the other into one new buffer,
/// which is added to the buffers of the array. The caller has shown that
/// the positions lie inside the array.
pub fn scatter_binview_impl(
    set_values: &Vec<Option<Vec<u8>>>,
    arr: &mut BinaryViewArray,
    idx: &Vec<IdxSize>,
)
    requires
        in_bounds(idx@, old(arr)@.values.len(), pair_count(idx@, set_view(set_values@))),
    ensures
        final(arr)@ == spec_scatter(old(arr)@, idx@, set_view(set_values@)),
        final(arr)@.wf(),
        final(arr).spec_buffer_count() == old(arr).spec_buffer_count() + if writes_long_value(
            set_values@,
            pair_count(idx@, set_view(set_values@)),
        ) {
            1int
        } else {
            0int
        },
{
    proof {
        use_type_invariant(&*arr);
    }
    let ghost set = set_view(set_values@);
    let ghost old_logical = arr@.values;
    let n = if idx.len() <= set_values.len() {
        idx.len()
    } else {
        set_values.len()
    };
    let mut taken = BinaryViewArray { views: Vec::new(), buffers: Vec::new(), validity: None };
    core::mem::swap(&mut taken, arr);
    let BinaryViewArray { views, buffers, validity } = taken;
    let mut views = views;
    let mut buffers = buffers;
    let len = views.len();
    let buffer_offset = buffers.len();
    let mut fresh: Vec<u8> = Vec::new();
    proof {
        let a = buffers@;
        let b = buffers@.push(fresh);
        assert forall|i: int| 0 <= i < views@.len() implies view_ok(#[trigger] views@[i], b)
            && resolve(views@[i], b) == resolve(views@[i], a) by {
            assert(view_ok(views@[i], a));
            match views@[i] {
                BinView::Inline(x) => {},
                BinView::Ref { buffer_idx, offset, length } => {
                    assert(a[buffer_idx as int] == b[buffer_idx as int]);
                },
            }
        }
        assert(resolve_all(views@, b) =~= old_logical);
    }
    let mut k: usize = 0;
    while k < n
        invariant
            k <= n,
            set == set_view(set_values@),
            n == pair_count(idx@, set),
            in_bounds(idx@, len as nat, n as int),
            views@.len() == len,
            old_logical.len() == len,
            buffer_offset == buffers@.len(),
            views_ok(views@, buffers@.push(fresh)),
            fresh@.len() > 0 <==> writes_long_value(set_values@, k as int),
            buffers@.len() == old(arr).spec_buffer_count(),
            fresh@.len() == 0 ==> views_ok(views@, buffers@),
            fresh@.len() == 0 ==> resolve_all(views@, buffers@) == resolve_all(
                views@,
                buffers@.push(fresh),
            ),
            resolve_all(views@, buffers@.push(fresh)) == scatter_values(
                old_logical,
                idx@,
                set,
                k as int,
            ),
        decreases n - k,
    {
        let i = idx[k] as usize;
        let ghost views_before = views@;
        let ghost fresh_before = fresh;
        match &set_values[k] {
            Some(bytes) => {
                assert(set[k as int] == Some(bytes@));
                if bytes.len() <= MAX_INLINE {
                    views.set(i, BinView::Inline(copy_bytes(bytes)));
                    proof {
                        assert(writes_long_value(set_values@, k as int + 1) ==> writes_long_value(
                            set_values@,
                            k as int,
                        )) by {
                            if writes_long_value(set_values@, k as int + 1) {
                                let w = choose|w: int|
                                    0 <= w < k as int + 1 && (#[trigger] set_values@[w] matches Some(
                                        b,
                                    ) && b@.len() > MAX_INLINE);
                                assert(w < k);
                            }
                        }
                        let b = buffers@.push(fresh);
                        assert forall|j: int| 0 <= j < views@.len() implies view_ok(
                            #[trigger] views@[j],
                            b,
                        ) by {
                            if j != i {
                                assert(views@[j] == views_before[j]);
                                assert(view_ok(views_before[j], b));
                            }
                        }
                        assert(resolve_all(views@, b) =~= resolve_all(views_before, b).update(
                            i as int,
                            bytes@,
                        ));
                        if fresh@.len() == 0 {
                            assert forall|j: int| 0 <= j < views@.len() implies view_ok(
                                #[trigger] views@[j],
                                buffers@,
                            ) by {
                                if j != i {
                                    assert(views@[j] == views_before[j]);
                                    assert(view_ok(views_before[j], buffers@));
                                }
                            }
                            assert(resolve_all(views@, buffers@) =~= resolve_all(
                                views_before,
                                buffers@,
                            ).update(i as int, bytes@));
                        }
                    }
                } else {
                    let offset = fresh.len();
                    append_bytes(&mut fresh, bytes);
                    proof {
                        lemma_grow_keeps_views(views_before, buffers@, fresh_before, fresh, bytes@);
                    }
                    views.set(
                        i,
                        BinView::Ref { buffer_idx: buffer_offset, offset, length: bytes.len() },
                    );
                    proof {
                        assert(set_values@[k as int] matches Some(x) && x@.len() > MAX_INLINE);
                        let b = buffers@.push(fresh);
                        assert(b[buffer_offset as int] == fresh);
                        assert(fresh@.subrange(offset as int, offset + bytes@.len()) =~= bytes@);
                        assert forall|j: int| 0 <= j < views@.len() implies view_ok(
                            #[trigger] views@[j],
                            b,
                        ) by {
                            if j != i {
                                assert(views@[j] == views_before[j]);
                                assert(view_ok(views_before[j], b));
                            }
                        }
                        assert(resolve_all(views@, b) =~= resolve_all(views_before, b).update(
                            i as int,
                            bytes@,
                        ));
                    }
                }
            },
            None => {
                assert(set[k as int] is None);
                proof {
                    assert(writes_long_value(set_values@, k as int + 1) ==> writes_long_value(
                        set_values@,
                        k as int,
                    )) by {
                        if writes_long_value(set_values@, k as int + 1) {
                            let w = choose|w: int|
                                0 <= w < k as int + 1 && (#[trigger] set_values@[w] matches Some(b)
                                    && b@.len() > MAX_INLINE);
                            assert(w < k);
                        }
                    }
                }
            },
        }
        k += 1;
    }
    let validity = update_validity(validity, len, idx, set_values);
    if fresh.len() > 0 {
        buffers.push(fresh);
    }
    let total = buffers.len();
    assert(total == buffer_offset + if writes_long_value(set_values@, n as int) {
        1int
    } else {
        0int
    });
    *arr = BinaryViewArray { views, buffers, validity };
}

impl ChunkedSet<Vec<u8>> for BinaryViewArray {
    open spec fn scattered(old: ArrayView<Seq<u8>>, idx: Seq<IdxSize>, values: Seq<Option<Vec<u8>>>) -> ArrayView<
        Seq<u8>,
    > {
        spec_scatter(old, idx, set_view(values))
    }

    open spec fn length(v: ArrayView<Seq<u8>>) -> nat {
        v.values.len()
    }

    fn scatter(&mut self, idx: &Vec<IdxSize>, values: &Vec<Option<Vec<u8>>>) -> (r: ApolloResult<()>) {
        match check_bounds(idx, self.len()) {
            Ok(_) => {},
            Err(e) => {
                return Err(e);
            },
        }
        scatter_binview_impl(values, self, idx);
        Ok(())
    }
}

} // verus!
