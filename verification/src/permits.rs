//! Counting permits that bound how many sinks hold a file open at once.

use vstd::prelude::*;

verus! {

/// What a pool holds: its size and the number of permits that are out.
pub struct PoolView {
    pub max: nat,
    pub outstanding: nat,
}

/// One thing that happens to a pool.
pub enum PoolEvent {
    /// A sink asks for a permit.
    Acquire,
    /// A sink hands a permit back, because it finished or because it failed.
    Release,
}

/// The pool after an attempt to acquire: one more permit is out, unless
/// all are out already.
pub open spec fn spec_acquire(p: PoolView) -> PoolView {
    if p.outstanding < p.max {
        PoolView { outstanding: p.outstanding + 1, ..p }
    } else {
        p
    }
}

/// The pool after a release: one permit fewer is out, if any was.
pub open spec fn spec_release(p: PoolView) -> PoolView {
    if p.outstanding > 0 {
        PoolView { outstanding: (p.outstanding - 1) as nat, ..p }
    } else {
        p
    }
}

/// The pool after one event.
pub open spec fn step_pool(p: PoolView, e: PoolEvent) -> PoolView {
    match e {
        PoolEvent::Acquire => spec_acquire(p),
        PoolEvent::Release => spec_release(p),
    }
}

/// The pool after the events `events`, applied in order.
pub open spec fn run_pool(p: PoolView, events: Seq<PoolEvent>) -> PoolView
    decreases events.len(),
{
    if events.len() == 0 {
        p
    } else {
        step_pool(run_pool(p, events.drop_last()), events.last())
    }
}

/// Whatever sinks do, and in whatever order they finish or fail: after
/// every event of every execution the number of permits that are out is at
/// most the size of the pool.
pub proof fn lemma_never_more_than_max(max: nat, events: Seq<PoolEvent>, upto: int)
    requires
        0 <= upto <= events.len(),
    ensures
        run_pool(PoolView { max, outstanding: 0 }, events.subrange(0, upto)).outstanding <= max,
        run_pool(PoolView { max, outstanding: 0 }, events.subrange(0, upto)).max == max,
    decreases upto,
{
    let prefix = events.subrange(0, upto);
    if upto > 0 {
        lemma_never_more_than_max(max, events, upto - 1);
        assert(prefix.drop_last() =~= events.subrange(0, upto - 1));
    }
}

/// The right to hold one file open. It is made by a pool and goes back to
/// it; it cannot be copied.
#[derive(Debug, PartialEq, Eq)]
pub struct FileSinkPermit {
    pool_size: usize,
}

impl FileSinkPermit {
    pub closed spec fn spec_pool_size(&self) -> usize {
        self.pool_size
    }

    /// The size of the pool that issued the permit.
    #[verifier::when_used_as_spec(spec_pool_size)]
    pub fn pool_size(&self) -> (n: usize)
        ensures
            n == self.spec_pool_size(),
    {
        self.pool_size
    }
}

/// A pool of `max` permits.
#[derive(Debug)]
pub struct PermitPool {
    max: usize,
    outstanding: usize,
}

impl View for PermitPool {
    type V = PoolView;

    closed spec fn view(&self) -> PoolView {
        PoolView { max: self.max as nat, outstanding: self.outstanding as nat }
    }
}

impl PermitPool {
    #[verifier::type_invariant]
    closed spec fn wf(self) -> bool {
        self.outstanding <= self.max
    }

    /// A pool of `max` permits, none of them out.
    pub fn new(max: usize) -> (p: PermitPool)
        ensures
            p@ == (PoolView { max: max as nat, outstanding: 0 }),
    {
        PermitPool { max, outstanding: 0 }
    }

    /// The size of the pool.
    pub fn max(&self) -> (n: usize)
        ensures
            n == self@.max,
    {
        self.max
    }

    /// The number of permits that are out. It never exceeds the size of the pool.
    pub fn outstanding(&self) -> (n: usize)
        ensures
            n == self@.outstanding,
            n <= self@.max,
    {
        proof {
            use_type_invariant(self);
        }
        self.outstanding
    }

    /// The number of permits that can still be had.
    pub fn available(&self) -> (n: usize)
        ensures
            n == self@.max - self@.outstanding,
    {
        proof {
            use_type_invariant(self);
        }
        self.max - self.outstanding
    }

    /// Hands out a permit if fewer than `max` are out; else the caller
    /// suspends until one comes back.
    pub fn try_acquire(&mut self) -> (r: Option<FileSinkPermit>)
        ensures
            final(self)@ == spec_acquire(old(self)@),
            r.is_some() == (old(self)@.outstanding < old(self)@.max),
            r matches Some(permit) ==> permit.spec_pool_size() == old(self)@.max,
            final(self)@.outstanding <= final(self)@.max,
    {
        proof {
            use_type_invariant(&*self);
        }
        if self.outstanding < self.max {
            self.outstanding = self.outstanding + 1;
            Some(FileSinkPermit { pool_size: self.max })
        } else {
            None
        }
    }

    /// Takes a permit back. Returns whether the pool had a permit out to
    /// take back; a permit that reaches a pool with none out is dropped.
    pub fn release(&mut self, permit: FileSinkPermit) -> (r: bool)
        ensures
            final(self)@ == spec_release(old(self)@),
            r == (old(self)@.outstanding > 0),
            final(self)@.outstanding <= final(self)@.max,
    {
        proof {
            use_type_invariant(&*self);
        }
        if self.outstanding > 0 {
            self.outstanding = self.outstanding - 1;
            true
        } else {
            false
        }
    }
}

} // verus!
