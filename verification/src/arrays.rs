//! Arrays of values with an optional validity bitmap, and writing values
//! into them at given positions.

use vstd::prelude::*;
use vstd::string::*;
use crate::error::ApolloError;
use crate::error::ApolloResult;
use crate::error::ErrorKind;
use crate::error::ErrorView;

verus! {

/// The type of a row position.
pub type IdxSize = u32;

/// The mathematical value of an array: the stored values and, where the
/// array has one, the bitmap that says which of them are valid.
pub struct ArrayView<T> {
    pub values: Seq<T>,
    pub validity: Option<Seq<bool>>,
}

impl<T> ArrayView<T> {
    /// The value at position `i`, or `None` where it is null.
    pub open spec fn get(self, i: int) -> Option<T> {
        match self.validity {
            Some(v) => if v[i] {
                Some(self.values[i])
            } else {
                None
            },
            None => Some(self.values[i]),
        }
    }

    /// Whether the bitmap, where there is one, is as long as the values.
    pub open spec fn wf(self) -> bool {
        self.validity matches Some(v) ==> v.len() == self.values.len()
    }
}

/// An array of values of a primitive type.
#[derive(Debug, PartialEq, Eq)]
pub struct PrimitiveArray<T> {
    values: Vec<T>,
    validity: Option<Vec<bool>>,
}

/// An array of booleans.
pub type BooleanArray = PrimitiveArray<bool>;

pub open spec fn bitmap_view(v: Option<Vec<bool>>) -> Option<Seq<bool>> {
    match v {
        Some(b) => Some(b@),
        None => None,
    }
}

impl<T> View for PrimitiveArray<T> {
    type V = ArrayView<T>;

    closed spec fn view(&self) -> ArrayView<T> {
        ArrayView { values: self.values@, validity: bitmap_view(self.validity) }
    }
}

impl<T> PrimitiveArray<T> {
    #[verifier::type_invariant]
    closed spec fn inv(self) -> bool {
        self@.wf()
    }
}

impl<T: Copy> PrimitiveArray<T> {
    /// The array of the given values, all of them valid.
    pub fn from_values(values: Vec<T>) -> (r: PrimitiveArray<T>)
        ensures
            r@ == (ArrayView { values: values@, validity: None }),
    {
        PrimitiveArray { values, validity: None }
    }

    /// The array of the given values and validity bitmap, or `None` where
    /// the two differ in length.
    pub fn try_new(values: Vec<T>, validity: Option<Vec<bool>>) -> (r: Option<PrimitiveArray<T>>)
        ensures
            match r {
                Some(a) => a@ == (ArrayView { values: values@, validity: bitmap_view(validity) })
                    && a@.wf(),
                None => validity matches Some(v) && v@.len() != values@.len(),
            },
    {
        match &validity {
            Some(v) => {
                if v.len() != values.len() {
                    return None;
                }
            },
            None => {},
        }
        Some(PrimitiveArray { values, validity })
    }

    /// The number of values. The bitmap, where there is one, is as long.
    pub fn len(&self) -> (n: usize)
        ensures
            n == self@.values.len(),
            self@.wf(),
    {
        proof {
            use_type_invariant(self);
        }
        self.values.len()
    }

    /// Whether the array has a validity bitmap.
    pub fn has_validity(&self) -> (b: bool)
        ensures
            b == self@.validity.is_some(),
    {
        self.validity.is_some()
    }

    /// The value at position `i`; `None` where it is null or `i` is past the end.
    pub fn get(&self, i: usize) -> (r: Option<T>)
        ensures
            r == if i < self@.values.len() {
                self@.get(i as int)
            } else {
                None
            },
    {
        proof {
            use_type_invariant(self);
        }
        if i >= self.values.len() {
            return None;
        }
        match &self.validity {
            Some(v) => {
                if v[i] {
                    Some(self.values[i])
                } else {
                    None
                }
            },
            None => Some(self.values[i]),
        }
    }
}

/// The number of pairs of a position and a value: the shorter of the two lists.
pub open spec fn pair_count<T>(idx: Seq<IdxSize>, set: Seq<Option<T>>) -> int {
    if idx.len() <= set.len() {
        idx.len() as int
    } else {
        set.len() as int
    }
}

/// The values after the first `upto` pairs were written: a value that is
/// given goes to its position, a null leaves the stored value as it is.
pub open spec fn scatter_values<T>(
    values: Seq<T>,
    idx: Seq<IdxSize>,
    set: Seq<Option<T>>,
    upto: int,
) -> Seq<T>
    decreases upto,
{
    if upto <= 0 {
        values
    } else {
        let prev = scatter_values(values, idx, set, upto - 1);
        match set[upto - 1] {
            Some(v) => prev.update(idx[upto - 1] as int, v),
            None => prev,
        }
    }
}

/// The bitmap of an array that had one, after the first `upto` pairs were
/// written: a position is valid after a value and invalid after a null.
pub open spec fn scatter_validity<T>(
    validity: Seq<bool>,
    idx: Seq<IdxSize>,
    set: Seq<Option<T>>,
    upto: int,
) -> Seq<bool>
    decreases upto,
{
    if upto <= 0 {
        validity
    } else {
        scatter_validity(validity, idx, set, upto - 1).update(
            idx[upto - 1] as int,
            set[upto - 1] is Some,
        )
    }
}

/// The bitmap that an array without one gets when nulls are written: the
/// positions of the nulls among the first `upto` pairs are invalid, every
/// other position is valid.
pub open spec fn mark_nulls<T>(len: nat, idx: Seq<IdxSize>, set: Seq<Option<T>>, upto: int) -> Seq<
    bool,
>
    decreases upto,
{
    if upto <= 0 {
        Seq::new(len, |i: int| true)
    } else {
        let prev = mark_nulls(len, idx, set, upto - 1);
        if set[upto - 1] is None {
            prev.update(idx[upto - 1] as int, false)
        } else {
            prev
        }
    }
}

/// Whether a null is among the first `upto` values.
pub open spec fn any_null<T>(set: Seq<Option<T>>, upto: int) -> bool {
    exists|k: int| 0 <= k < upto && (#[trigger] set[k]) is None
}

/// Whether the positions of the first `upto` pairs lie inside an array of
/// `len` values.
pub open spec fn in_bounds(idx: Seq<IdxSize>, len: nat, upto: int) -> bool {
    forall|k: int| 0 <= k < upto ==> (#[trigger] idx[k]) < len
}

/// The array after the pairs were written.
///
/// An array with a validity bitmap keeps one. An array without one gets
/// one only where a null is written; a position that a null was written to
/// then stays invalid, whatever is written to it afterwards.
pub open spec fn spec_scatter<T>(arr: ArrayView<T>, idx: Seq<IdxSize>, set: Seq<Option<T>>) -> ArrayView<
    T,
> {
    let n = pair_count(idx, set);
    ArrayView {
        values: scatter_values(arr.values, idx, set, n),
        validity: match arr.validity {
            Some(v) => Some(scatter_validity(v, idx, set, n)),
            None => if any_null(set, n) {
                Some(mark_nulls(arr.values.len(), idx, set, n))
            } else {
                None
            },
        },
    }
}

proof fn lemma_scatter_lengths<T>(
    values: Seq<T>,
    validity: Seq<bool>,
    idx: Seq<IdxSize>,
    set: Seq<Option<T>>,
    upto: int,
)
    requires
        in_bounds(idx, values.len(), upto),
        validity.len() == values.len(),
    ensures
        scatter_values(values, idx, set, upto).len() == values.len(),
        scatter_validity(validity, idx, set, upto).len() == validity.len(),
        mark_nulls(values.len(), idx, set, upto).len() == values.len(),
    decreases upto,
{
    if upto > 0 {
        lemma_scatter_lengths(values, validity, idx, set, upto - 1);
    }
}

/// Writes values into an array at given positions, pair by pair. Of two
/// pairs for one position the later sets the stored value; but in an array
/// without a validity bitmap a position that was given a null stays null,
/// whatever follows. The caller has shown that the positions lie inside the
/// array.
pub fn scatter_primitive_impl<T: Copy>(
    set_values: &Vec<Option<T>>,
    arr: &mut PrimitiveArray<T>,
    idx: &Vec<IdxSize>,
)
    requires
        in_bounds(idx@, old(arr)@.values.len(), pair_count(idx@, set_values@)),
    ensures
        final(arr)@ == spec_scatter(old(arr)@, idx@, set_values@),
        final(arr)@.wf(),
{
    proof {
        use_type_invariant(&*arr);
    }
    let n = if idx.len() <= set_values.len() {
        idx.len()
    } else {
        set_values.len()
    };
    let ghost old_values = arr.values@;
    let ghost len = arr.values@.len();
    let mut taken = PrimitiveArray { values: Vec::new(), validity: None };
    core::mem::swap(&mut taken, arr);
    let PrimitiveArray { values, validity } = taken;
    let mut values = values;
    match validity {
        Some(bits) => {
            let ghost old_bits = bits@;
            let mut bits = bits;
            let mut k: usize = 0;
            while k < n
                invariant
                    k <= n,
                    n == pair_count(idx@, set_values@),
                    in_bounds(idx@, len, n as int),
                    old_values.len() == len,
                    old_bits.len() == len,
                    values@ == scatter_values(old_values, idx@, set_values@, k as int),
                    bits@ == scatter_validity(old_bits, idx@, set_values@, k as int),
                decreases n - k,
            {
                proof {
                    lemma_scatter_lengths(old_values, old_bits, idx@, set_values@, k as int);
                }
                let i = idx[k] as usize;
                match set_values[k] {
                    Some(v) => {
                        bits.set(i, true);
                        values.set(i, v);
                    },
                    None => {
                        bits.set(i, false);
                    },
                }
                k += 1;
            }
            proof {
                lemma_scatter_lengths(old_values, old_bits, idx@, set_values@, n as int);
            }
            *arr = PrimitiveArray { values, validity: Some(bits) };
        },
        None => {
            let mut null_idx: Vec<IdxSize> = Vec::new();
            let mut k: usize = 0;
            while k < n
                invariant
                    k <= n,
                    n == pair_count(idx@, set_values@),
                    in_bounds(idx@, len, n as int),
                    old_values.len() == len,
                    values@ == scatter_values(old_values, idx@, set_values@, k as int),
                    null_idx@.len() > 0 <==> any_null(set_values@, k as int),
                    forall|j: int| 0 <= j < null_idx@.len() ==> (#[trigger] null_idx@[j]) < len,
                    apply_nulls(len, null_idx@, null_idx@.len() as int) == mark_nulls(
                        len,
                        idx@,
                        set_values@,
                        k as int,
                    ),
                decreases n - k,
            {
                proof {
                    lemma_scatter_lengths(old_values, Seq::new(len, |i: int| true), idx@, set_values@, k as int);
                }
                let i = idx[k] as usize;
                let ghost before = null_idx@;
                match set_values[k] {
                    Some(v) => {
                        values.set(i, v);
                        proof {
                            assert forall|j: int| 0 <= j < k as int + 1 && (
                            #[trigger] set_values@[j]) is None implies j < k by {}
                        }
                    },
                    None => {
                        null_idx.push(idx[k]);
                        proof {
                            assert(null_idx@.drop_last() =~= before);
                            lemma_apply_nulls_prefix(len, null_idx@, before, before.len() as int);
                            assert(set_values@[k as int] is None);
                        }
                    },
                }
                k += 1;
            }
            proof {
                lemma_scatter_lengths(old_values, Seq::new(len, |i: int| true), idx@, set_values@, n as int);
            }
            if null_idx.len() > 0 {
                let mut bits: Vec<bool> = Vec::new();
                let mut j: usize = 0;
                while j < values.len()
                    invariant
                        j <= values.len(),
                        bits@.len() == j,
                        forall|m: int| 0 <= m < j ==> bits@[m],
                    decreases values.len() - j,
                {
                    bits.push(true);
                    j += 1;
                }
                assert(bits@ =~= Seq::new(len, |i: int| true));
                let mut m: usize = 0;
                while m < null_idx.len()
                    invariant
                        m <= null_idx.len(),
                        bits@.len() == len,
                        forall|j: int| 0 <= j < null_idx@.len() ==> (#[trigger] null_idx@[j]) < len,
                        bits@ == apply_nulls(len, null_idx@, m as int),
                    decreases null_idx.len() - m,
                {
                    proof {
                        lemma_apply_nulls_len(len, null_idx@, m as int);
                    }
                    bits.set(null_idx[m] as usize, false);
                    m += 1;
                }
                *arr = PrimitiveArray { values, validity: Some(bits) };
            } else {
                *arr = PrimitiveArray { values, validity: None };
            }
        },
    }
}

/// The bitmap in which the first `upto` of the given positions are
/// invalid and every other position is valid.
pub open spec fn apply_nulls(len: nat, nulls: Seq<IdxSize>, upto: int) -> Seq<bool>
    decreases upto,
{
    if upto <= 0 {
        Seq::new(len, |i: int| true)
    } else {
        apply_nulls(len, nulls, upto - 1).update(nulls[upto - 1] as int, false)
    }
}

proof fn lemma_apply_nulls_len(len: nat, nulls: Seq<IdxSize>, upto: int)
    requires
        forall|j: int| 0 <= j < upto ==> (#[trigger] nulls[j]) < len,
    ensures
        apply_nulls(len, nulls, upto).len() == len,
    decreases upto,
{
    if upto > 0 {
        lemma_apply_nulls_len(len, nulls, upto - 1);
    }
}

proof fn lemma_apply_nulls_prefix(len: nat, longer: Seq<IdxSize>, shorter: Seq<IdxSize>, upto: int)
    requires
        0 <= upto <= shorter.len() <= longer.len(),
        forall|j: int| 0 <= j < shorter.len() ==> longer[j] == shorter[j],
    ensures
        apply_nulls(len, longer, upto) == apply_nulls(len, shorter, upto),
    decreases upto,
{
    if upto > 0 {
        lemma_apply_nulls_prefix(len, longer, shorter, upto - 1);
    }
}

/// Writes booleans into an array of booleans at given positions, as
/// `scatter_primitive_impl` writes values.
pub fn scatter_bool_impl(set_values: &Vec<Option<bool>>, arr: &mut BooleanArray, idx: &Vec<IdxSize>)
    requires
        in_bounds(idx@, old(arr)@.values.len(), pair_count(idx@, set_values@)),
    ensures
        final(arr)@ == spec_scatter(old(arr)@, idx@, set_values@),
        final(arr)@.wf(),
{
    scatter_primitive_impl(set_values, arr, idx)
}

/// Whether every position lies inside an array of `len` values.
pub fn check_bounds(idx: &Vec<IdxSize>, len: usize) -> (r: ApolloResult<()>)
    ensures
        match r {
            Ok(_) => in_bounds(idx@, len as nat, idx@.len() as int),
            Err(e) => !in_bounds(idx@, len as nat, idx@.len() as int) && e@ == ErrorView::Simple(
                ErrorKind::OutOfBounds,
                "indices are out of bounds"@,
            ),
        },
{
    let mut k: usize = 0;
    while k < idx.len()
        invariant
            k <= idx.len(),
            in_bounds(idx@, len as nat, k as int),
        decreases idx.len() - k,
    {
        if idx[k] as usize >= len {
            return Err(ApolloError::OutOfBounds(String::from_str("indices are out of bounds")));
        }
        k += 1;
    }
    Ok(())
}

/// Arrays into which values can be written at given positions.
pub trait ChunkedSet<T>: View + Sized {
    /// What the array is after the pairs were written.
    spec fn scattered(old: Self::V, idx: Seq<IdxSize>, values: Seq<Option<T>>) -> Self::V;

    /// How many values the array holds.
    spec fn length(v: Self::V) -> nat;

    /// Writes `values` at the positions `idx`, pair by pair, into the
    /// array itself. It is an error for a position to lie outside the
    /// array; the array is then left as it was.
    fn scatter(&mut self, idx: &Vec<IdxSize>, values: &Vec<Option<T>>) -> (r: ApolloResult<()>)
        ensures
            match r {
                Ok(_) => in_bounds(idx@, Self::length(old(self)@), idx@.len() as int) && final(self)@ == Self::scattered(old(self)@, idx@, values@),
                Err(e) => !in_bounds(idx@, Self::length(old(self)@), idx@.len() as int) && final(self)@ == old(self)@ && e@ == ErrorView::Simple(
                    ErrorKind::OutOfBounds,
                    "indices are out of bounds"@,
                ),
            },
    ;
}

impl<T: Copy> ChunkedSet<T> for PrimitiveArray<T> {
    open spec fn scattered(old: ArrayView<T>, idx: Seq<IdxSize>, values: Seq<Option<T>>) -> ArrayView<
        T,
    > {
        spec_scatter(old, idx, values)
    }

    open spec fn length(v: ArrayView<T>) -> nat {
        v.values.len()
    }

    fn scatter(&mut self, idx: &Vec<IdxSize>, values: &Vec<Option<T>>) -> (r: ApolloResult<()>) {
        match check_bounds(idx, self.len()) {
            Ok(_) => {},
            Err(e) => {
                return Err(e);
            },
        }
        scatter_primitive_impl(values, self, idx);
        Ok(())
    }
}

} // verus!
