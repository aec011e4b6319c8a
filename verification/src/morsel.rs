//! Morsels, and putting the results of concurrent readers back into the
//! order of the sources.

use vstd::prelude::*;
use vstd::string::*;
use crate::error::ApolloError;
use crate::error::ApolloResult;
use crate::error::ErrorKind;
use crate::error::ErrorView;
use crate::frame::DataFrame;
use crate::frame::DataFrameView;
use crate::text::decimal;
use crate::text::push_decimal;

verus! {

/// A batch on its way between two stages.
#[derive(Debug, PartialEq, Eq)]
pub struct Morsel {
    pub df: DataFrame,
    /// The morsel's place in the stream; the places are 0, 1, 2 and so on.
    pub seq: u64,
    /// The source that the morsel comes from.
    pub source: usize,
    /// Whether the morsel is the last of its source.
    pub last: bool,
}

/// The mathematical value of a morsel.
pub struct MorselView {
    pub df: DataFrameView,
    pub seq: nat,
    pub source: nat,
    pub last: bool,
}

impl View for Morsel {
    type V = MorselView;

    open spec fn view(&self) -> MorselView {
        MorselView {
            df: self.df@,
            seq: self.seq as nat,
            source: self.source as nat,
            last: self.last,
        }
    }
}

/// The views of a list of morsels.
pub open spec fn morsels_view(ms: Seq<Morsel>) -> Seq<MorselView> {
    Seq::new(ms.len(), |i: int| ms[i]@)
}

/// What a resequencer holds: for each source the frame that has arrived
/// and waits to be sent on, and the source that is sent on next.
pub struct ResequencerView {
    pub slots: Seq<Option<DataFrameView>>,
    pub next: nat,
}

/// The morsel that source `k` becomes: it has place `k` in the stream and
/// is the only morsel of its source.
pub open spec fn morsel_of(k: nat, df: DataFrameView) -> MorselView {
    MorselView { df, seq: k, source: k, last: true }
}

/// Whether a frame of `source` can be taken: the source exists, was not
/// sent on yet, and no frame of it waits already.
pub open spec fn can_push(r: ResequencerView, source: nat) -> bool {
    r.next <= source < r.slots.len() && r.slots[source as int] is None
}

/// How many sources from `from` on have a frame waiting, one after the
/// other without a gap.
pub open spec fn ready_run(slots: Seq<Option<DataFrameView>>, from: nat) -> nat
    decreases slots.len() - from,
{
    if from < slots.len() && slots[from as int] is Some {
        1 + ready_run(slots, from + 1)
    } else {
        0
    }
}

/// The resequencer after a frame of `source` was taken: the frame waits
/// in its slot, unless it and what follows it without a gap can be sent on
/// at once.
pub open spec fn spec_push(r: ResequencerView, source: nat, df: DataFrameView) -> ResequencerView {
    let stored = r.slots.update(source as int, Some(df));
    let run = ready_run(stored, r.next);
    ResequencerView {
        slots: Seq::new(
            stored.len(),
            |i: int|
                if r.next <= i < r.next + run {
                    None
                } else {
                    stored[i]
                },
        ),
        next: r.next + run,
    }
}

/// The morsels that are sent on when a frame of `source` is taken: those
/// of the sources from `next` on that have a frame waiting, in the order
/// of the sources.
pub open spec fn spec_emitted(r: ResequencerView, source: nat, df: DataFrameView) -> Seq<MorselView> {
    let stored = r.slots.update(source as int, Some(df));
    let run = ready_run(stored, r.next);
    Seq::new(run, |k: int| morsel_of((r.next + k) as nat, stored[r.next + k].unwrap()))
}

/// The message of the error for a frame that cannot be taken.
pub open spec fn unexpected_source_message(source: nat) -> Seq<char> {
    "no frame is expected of source "@ + decimal(source)
}

/// Puts the frames of sources that are read at the same time back into
/// the order of the sources.
#[derive(Debug)]
pub struct Resequencer {
    slots: Vec<Option<DataFrame>>,
    next: usize,
}

pub open spec fn slot_view(s: Option<DataFrame>) -> Option<DataFrameView> {
    match s {
        Some(f) => Some(f@),
        None => None,
    }
}

impl View for Resequencer {
    type V = ResequencerView;

    closed spec fn view(&self) -> ResequencerView {
        ResequencerView {
            slots: Seq::new(self.slots@.len(), |i: int| slot_view(self.slots@[i])),
            next: self.next as nat,
        }
    }
}

/// What holds of every resequencer: the sources before `next` were sent
/// on and have no frame waiting, and the source `next` has none either.
pub open spec fn resequencer_wf(r: ResequencerView) -> bool {
    &&& r.next <= r.slots.len()
    &&& forall|i: int| 0 <= i < r.next ==> (#[trigger] r.slots[i]) is None
    &&& r.next < r.slots.len() ==> r.slots[r.next as int] is None
}

proof fn lemma_ready_run_bounds(slots: Seq<Option<DataFrameView>>, from: nat)
    requires
        from <= slots.len(),
    ensures
        from + ready_run(slots, from) <= slots.len(),
        forall|i: int| from <= i < from + ready_run(slots, from) ==> (#[trigger] slots[i]) is Some,
        from + ready_run(slots, from) < slots.len() ==> slots[(from + ready_run(slots, from)) as int] is None,
    decreases slots.len() - from,
{
    if from < slots.len() && slots[from as int] is Some {
        lemma_ready_run_bounds(slots, from + 1);
    }
}

proof fn lemma_ready_run_step(slots: Seq<Option<DataFrameView>>, from: nat, k: nat)
    requires
        from + k < slots.len(),
        forall|i: int| from <= i < from + k ==> (#[trigger] slots[i]) is Some,
        slots[(from + k) as int] is Some,
    ensures
        ready_run(slots, from) == k + ready_run(slots, from + k),
    decreases k,
{
    if k > 0 {
        assert(slots[from as int] is Some);
        lemma_ready_run_step(slots, from + 1, (k - 1) as nat);
    }
}

proof fn lemma_ready_run_stop(slots: Seq<Option<DataFrameView>>, from: nat, k: nat)
    requires
        from + k <= slots.len(),
        forall|i: int| from <= i < from + k ==> (#[trigger] slots[i]) is Some,
        from + k < slots.len() ==> slots[(from + k) as int] is None,
    ensures
        ready_run(slots, from) == k,
    decreases k,
{
    if k > 0 {
        assert(slots[from as int] is Some);
        lemma_ready_run_stop(slots, from + 1, (k - 1) as nat);
    }
}

/// The resequencer and the stream after the frames `arrivals` came in,
/// in this order. A frame that cannot be taken is passed over.
pub open spec fn run_arrivals(
    start: ResequencerView,
    arrivals: Seq<(nat, DataFrameView)>,
) -> (ResequencerView, Seq<MorselView>)
    decreases arrivals.len(),
{
    if arrivals.len() == 0 {
        (start, Seq::empty())
    } else {
        let (r, out) = run_arrivals(start, arrivals.drop_last());
        let (source, df) = arrivals.last();
        if can_push(r, source) {
            (spec_push(r, source, df), out + spec_emitted(r, source, df))
        } else {
            (r, out)
        }
    }
}

/// The frame that came in first for `source`, if one came in.
pub open spec fn arrived(arrivals: Seq<(nat, DataFrameView)>, source: nat) -> Option<DataFrameView>
    decreases arrivals.len(),
{
    if arrivals.len() == 0 {
        None
    } else {
        match arrived(arrivals.drop_last(), source) {
            Some(f) => Some(f),
            None => if arrivals.last().0 == source {
                Some(arrivals.last().1)
            } else {
                None
            },
        }
    }
}

/// A resequencer for `n` sources, none of which has delivered.
pub open spec fn fresh(n: nat) -> ResequencerView {
    ResequencerView { slots: Seq::new(n, |i: int| None::<DataFrameView>), next: 0 }
}

/// The order in which the readers finish does not show in the stream.
///
/// In whatever order the frames of the sources come in: the stream
/// holds, in the order of the sources and with the places 0, 1, 2 and so
/// on, the frames of the sources up to the first that has not delivered;
/// a frame of a later source waits. So the stream is settled by which frame
/// each source delivered, and is complete once every source has delivered.
pub proof fn lemma_order_does_not_matter(n: nat, arrivals: Seq<(nat, DataFrameView)>)
    ensures
        ({
            let (r, out) = run_arrivals(fresh(n), arrivals);
            &&& r.slots.len() == n
            &&& resequencer_wf(r)
            &&& out.len() == r.next
            &&& forall|k: nat| k < r.next ==> (#[trigger] arrived(arrivals, k)) is Some
            &&& forall|k: nat|
                k < r.next ==> out[k as int] == morsel_of(k, #[trigger] arrived(arrivals, k).unwrap())
            &&& forall|i: nat|
                r.next <= i < n ==> r.slots[i as int] == #[trigger] arrived(arrivals, i)
            &&& r.next < n ==> arrived(arrivals, r.next) is None
        }),
    decreases arrivals.len(),
{
    if arrivals.len() == 0 {
    } else {
        let prefix = arrivals.drop_last();
        lemma_order_does_not_matter(n, prefix);
        let (r, out) = run_arrivals(fresh(n), prefix);
        let (source, df) = arrivals.last();
        if can_push(r, source) {
            let stored = r.slots.update(source as int, Some(df));
            let run = ready_run(stored, r.next);
            lemma_ready_run_bounds(stored, r.next);
            let r2 = spec_push(r, source, df);
            let out2 = out + spec_emitted(r, source, df);
            assert(r.slots[source as int] == arrived(prefix, source));
            assert forall|i: nat| r.next <= i < n implies stored[i as int] == #[trigger] arrived(
                arrivals,
                i,
            ) by {
                assert(r.slots[i as int] == arrived(prefix, i));
            }
            assert forall|k: nat| k < r2.next implies (#[trigger] arrived(arrivals, k)) is Some by {
                if k >= r.next {
                    assert(stored[k as int] is Some);
                } else {
                    assert(arrived(prefix, k) is Some);
                }
            }
            assert forall|k: nat| k < r2.next implies out2[k as int] == morsel_of(
                k,
                #[trigger] arrived(arrivals, k).unwrap(),
            ) by {
                if k < r.next {
                    assert(out2[k as int] == out[k as int]);
                    assert(arrived(prefix, k) is Some);
                } else {
                    assert(out2[k as int] == spec_emitted(r, source, df)[k - r.next]);
                    assert(stored[k as int] is Some);
                }
            }
            assert forall|i: nat| r2.next <= i < n implies r2.slots[i as int] == #[trigger] arrived(
                arrivals,
                i,
            ) by {
                assert(stored[i as int] == arrived(arrivals, i));
            }
            assert forall|i: int| 0 <= i < r2.next implies (#[trigger] r2.slots[i]) is None by {
                if i < r.next {
                    assert(r.slots[i] is None);
                }
            }
            if r2.next < n {
                assert(stored[r2.next as int] == arrived(arrivals, r2.next));
            }
        } else {
            assert forall|i: nat| r.next <= i < n implies r.slots[i as int] == #[trigger] arrived(
                arrivals,
                i,
            ) by {
                assert(r.slots[i as int] == arrived(prefix, i));
            }
            assert forall|k: nat| k < r.next implies (#[trigger] arrived(arrivals, k)) is Some
                && out[k as int] == morsel_of(k, arrived(arrivals, k).unwrap()) by {
                assert(arrived(prefix, k) is Some);
            }
        }
    }
}

impl Resequencer {
    #[verifier::type_invariant]
    closed spec fn inv(self) -> bool {
        resequencer_wf(self@) && self.slots@.len() <= u64::MAX
    }

    /// A resequencer for the given number of sources, none of which has
    /// delivered yet.
    pub fn new(sources: usize) -> (r: Resequencer)
        requires
            sources <= u64::MAX,
        ensures
            r@ == (ResequencerView {
                slots: Seq::new(sources as nat, |i: int| None::<DataFrameView>),
                next: 0,
            }),
    {
        let mut slots: Vec<Option<DataFrame>> = Vec::new();
        let mut i: usize = 0;
        while i < sources
            invariant
                i <= sources,
                slots@.len() == i,
                forall|k: int| 0 <= k < i ==> (#[trigger] slots@[k]) is None,
            decreases sources - i,
        {
            slots.push(None);
            i += 1;
        }
        let r = Resequencer { slots, next: 0 };
        assert(r@.slots =~= Seq::new(sources as nat, |i: int| None::<DataFrameView>));
        r
    }

    /// The source that is sent on next. Every source before it was sent on.
    pub fn next_source(&self) -> (n: usize)
        ensures
            n == self@.next,
            resequencer_wf(self@),
    {
        proof {
            use_type_invariant(self);
        }
        self.next
    }

    /// The number of sources.
    pub fn source_count(&self) -> (n: usize)
        ensures
            n == self@.slots.len(),
    {
        self.slots.len()
    }

    /// Whether every source was sent on.
    pub fn is_finished(&self) -> (b: bool)
        ensures
            b == (self@.next == self@.slots.len()),
    {
        self.next == self.slots.len()
    }

    /// Takes the frame of `source` and returns the morsels that can be
    /// sent on now: the frame of the source that is next, and those of the
    /// sources that follow it without a gap, each with its place in the
    /// stream. A frame of a source that comes later waits.
    ///
    /// It is an error for the source not to exist, to have been sent on,
    /// or to have a frame waiting; nothing changes then.
    pub fn push(&mut self, source: usize, df: DataFrame) -> (r: ApolloResult<Vec<Morsel>>)
        ensures
            match r {
                Ok(ms) => can_push(old(self)@, source as nat) && final(self)@ == spec_push(
                    old(self)@,
                    source as nat,
                    df@,
                ) && morsels_view(ms@) == spec_emitted(old(self)@, source as nat, df@),
                Err(e) => !can_push(old(self)@, source as nat) && final(self)@ == old(self)@ && e@
                    == ErrorView::Simple(
                    ErrorKind::ComputeError,
                    unexpected_source_message(source as nat),
                ),
            },
            resequencer_wf(final(self)@),
    {
        proof {
            use_type_invariant(&*self);
        }
        let n = self.slots.len();
        if source < self.next || source >= n || self.slots[source].is_some() {
            let mut msg = String::from_str("no frame is expected of source ");
            push_decimal(&mut msg, source);
            return Err(ApolloError::ComputeError(msg));
        }
        let ghost before = self@;
        let ghost stored = before.slots.update(source as int, Some(df@));
        let start = self.next;
        let mut taken = Resequencer { slots: Vec::new(), next: 0 };
        core::mem::swap(&mut taken, self);
        let Resequencer { slots, next } = taken;
        let mut slots = slots;
        let ghost old_slots = slots@;
        slots.set(source, Some(df));
        proof {
            assert forall|i: int| 0 <= i < start implies (#[trigger] slots@[i]) is None by {
                assert(before.slots[i] is None);
                assert(before.slots[i] == slot_view(old_slots[i]));
            }
        }
        let mut next = next;
        let mut out: Vec<Morsel> = Vec::new();
        assert(Seq::new(slots@.len(), |i: int| slot_view(slots@[i])) =~= stored);
        while next < n && slots[next].is_some()
            invariant
                start <= next <= n,
                n == slots@.len(),
                n == stored.len(),
                n <= u64::MAX,
                start == before.next,
                out@.len() == next - start,
                forall|i: int| 0 <= i < start ==> (#[trigger] slots@[i]) is None,
                forall|i: int| start <= i < next ==> (#[trigger] slots@[i]) is None,
                forall|i: int| start <= i < next ==> (#[trigger] stored[i]) is Some,
                forall|i: int| next <= i < n ==> slot_view(#[trigger] slots@[i]) == stored[i],
                forall|k: int|
                    0 <= k < out@.len() ==> (#[trigger] out@[k])@ == morsel_of(
                        (start + k) as nat,
                        stored[start + k].unwrap(),
                    ),
            decreases n - next,
        {
            let mut slot: Option<DataFrame> = None;
            let ghost slots_before = slots@;
            let old_slot = slots.remove(next);
            slots.insert(next, slot);
            assert(slots@ =~= slots_before.update(next as int, None));
            match old_slot {
                Some(f) => {
                    out.push(Morsel { df: f, seq: next as u64, source: next, last: true });
                },
                None => {},
            }
            next = next + 1;
        }
        proof {
            let run = (next - start) as nat;
            lemma_ready_run_stop(stored, start as nat, run);
            assert(morsels_view(out@) =~= spec_emitted(before, source as nat, df@));
        }
        *self = Resequencer { slots, next };
        proof {
            assert(self@.slots =~= spec_push(before, source as nat, df@).slots);
        }
        Ok(out)
    }
}

} // verus!
