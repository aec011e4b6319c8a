//! Dense, append-only storage for the nodes of a plan. A node is named by
//! the position at which it was stored, and that name stays good for as
//! long as the arena lives: nothing is ever removed.

use vstd::prelude::*;

verus! {

/// The handle of a node: its position in the arena that stores it.
#[derive(Clone, Copy, Debug, PartialEq, Eq, Hash, Structural)]
pub struct Node(pub usize);

/// The nodes of one plan, in the order in which they were stored.
#[derive(Debug, PartialEq, Eq)]
pub struct Arena<T> {
    items: Vec<T>,
}

impl<T> View for Arena<T> {
    type V = Seq<T>;

    closed spec fn view(&self) -> Seq<T> {
        self.items@
    }
}

impl<T> Arena<T> {
    /// The arena without nodes.
    pub fn new() -> (a: Arena<T>)
        ensures
            a@ == Seq::<T>::empty(),
    {
        Arena { items: Vec::new() }
    }

    /// The number of nodes stored.
    pub fn len(&self) -> (n: usize)
        ensures
            n == self@.len(),
    {
        self.items.len()
    }

    /// Whether the arena stores no node.
    pub fn is_empty(&self) -> (b: bool)
        ensures
            b == (self@.len() == 0),
    {
        self.items.len() == 0
    }

    /// Whether `idx` names a node of this arena.
    pub fn contains(&self, idx: Node) -> (b: bool)
        ensures
            b == (idx.0 < self@.len()),
    {
        idx.0 < self.items.len()
    }

    /// Stores `val` and returns its handle. Every node stored before stays
    /// where it was.
    pub fn add(&mut self, val: T) -> (idx: Node)
        ensures
            idx.0 == old(self)@.len(),
            final(self)@ == old(self)@.push(val),
    {
        let idx = self.items.len();
        self.items.push(val);
        Node(idx)
    }

    /// The node that `idx` names.
    pub fn get(&self, idx: Node) -> (r: &T)
        requires
            idx.0 < self@.len(),
        ensures
            *r == self@[idx.0 as int],
    {
        &self.items[idx.0]
    }

    /// The node that `idx` names, or `None` for a handle that names no
    /// node of this arena.
    pub fn try_get(&self, idx: Node) -> (r: Option<&T>)
        ensures
            match r {
                Some(v) => idx.0 < self@.len() && *v == self@[idx.0 as int],
                None => idx.0 >= self@.len(),
            },
    {
        if idx.0 < self.items.len() {
            Some(&self.items[idx.0])
        } else {
            None
        }
    }

    /// Puts `val` in the place of the node that `idx` names and returns
    /// that node. Every other node stays as it was, under its handle.
    pub fn replace(&mut self, idx: Node, val: T) -> (previous: T)
        requires
            idx.0 < old(self)@.len(),
        ensures
            previous == old(self)@[idx.0 as int],
            final(self)@ == old(self)@.update(idx.0 as int, val),
    {
        let mut slot = val;
        let ghost before = self.items@;
        let previous = self.items.remove(idx.0);
        self.items.insert(idx.0, slot);
        assert(self.items@ =~= before.update(idx.0 as int, val));
        previous
    }
}

/// A handle stays good, and names the same node, whatever is added to the
/// arena afterwards.
pub proof fn lemma_handles_survive_add<T>(arena: Seq<T>, added: Seq<T>, idx: Node)
    requires
        idx.0 < arena.len(),
    ensures
        idx.0 < (arena + added).len(),
        (arena + added)[idx.0 as int] == arena[idx.0 as int],
{
}

/// Replacing one node leaves every other handle with the node it named.
pub proof fn lemma_replace_keeps_siblings<T>(arena: Seq<T>, idx: Node, val: T, other: Node)
    requires
        idx.0 < arena.len(),
        other.0 < arena.len(),
        other != idx,
    ensures
        arena.update(idx.0 as int, val)[other.0 as int] == arena[other.0 as int],
        arena.update(idx.0 as int, val).len() == arena.len(),
{
}

} // verus!
