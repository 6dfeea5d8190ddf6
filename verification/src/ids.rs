//! Window identities: a counter that hands out each id at most once.

use vstd::prelude::*;

verus! {

/// Source of fresh window ids. The counter holds the smallest id that has
/// neither been handed out nor been reserved by `advance_past`.
pub struct IdAllocator {
    counter: usize,
}

/// One operation on an allocator, as it appears in a history of operations.
pub enum AllocStep {
    /// A call of `next`.
    Issue,
    /// A call of `advance_past` with this id.
    AdvancePast(usize),
}

/// The counter after one operation.
pub open spec fn counter_step(counter: nat, step: AllocStep) -> nat {
    match step {
        AllocStep::Issue => counter + 1,
        AllocStep::AdvancePast(seen_max) => if counter > seen_max {
            counter
        } else {
            (seen_max + 1) as nat
        },
    }
}

/// The counter after a history of operations, starting from `start`.
pub open spec fn counter_after(start: nat, steps: Seq<AllocStep>) -> nat
    decreases steps.len(),
{
    if steps.len() == 0 {
        start
    } else {
        counter_step(counter_after(start, steps.drop_last()), steps.last())
    }
}

/// The ids that the `Issue` operations of a history return, in order.
pub open spec fn issued_ids(start: nat, steps: Seq<AllocStep>) -> Seq<nat>
    decreases steps.len(),
{
    if steps.len() == 0 {
        Seq::empty()
    } else {
        let before = issued_ids(start, steps.drop_last());
        match steps.last() {
            AllocStep::Issue => before.push(counter_after(start, steps.drop_last())),
            AllocStep::AdvancePast(_) => before,
        }
    }
}

impl IdAllocator {
    /// The id that the next call of `next` returns.
    pub closed spec fn upcoming(&self) -> nat {
        self.counter as nat
    }

    /// An allocator whose first id is 0.
    pub fn new() -> (alloc: Self)
        ensures
            alloc.upcoming() == 0,
    {
        IdAllocator { counter: 0 }
    }

    /// Whether `next` can still hand out an id.
    pub fn has_room(&self) -> (room: bool)
        ensures
            room == (self.upcoming() < usize::MAX),
    {
        self.counter < usize::MAX
    }

    /// Hands out a fresh id and moves the counter past it.
    pub fn next(&mut self) -> (id: usize)
        requires
            old(self).upcoming() < usize::MAX,
        ensures
            id == old(self).upcoming(),
            final(self).upcoming() == counter_step(old(self).upcoming(), AllocStep::Issue),
    {
        let id: usize = self.counter;
        self.counter = id + 1;
        id
    }

    /// Raises the counter so that every later id is greater than `seen_max`.
    /// A counter that is already past `seen_max` stays as it is.
    pub fn advance_past(&mut self, seen_max: usize)
        requires
            seen_max < usize::MAX,
        ensures
            final(self).upcoming() == counter_step(
                old(self).upcoming(),
                AllocStep::AdvancePast(seen_max),
            ),
    {
        if self.counter <= seen_max {
            self.counter = seen_max + 1;
        }
    }
}

/// Hands out the next window id of `alloc`.
pub fn next_window_id(alloc: &mut IdAllocator) -> (id: usize)
    requires
        old(alloc).upcoming() < usize::MAX,
    ensures
        id == old(alloc).upcoming(),
        final(alloc).upcoming() == id + 1,
{
    alloc.next()
}

/// Every id of a history is below the counter that the history ends with.
pub proof fn lemma_issued_below_counter(start: nat, steps: Seq<AllocStep>, i: int)
    requires
        0 <= i < issued_ids(start, steps).len(),
    ensures
        issued_ids(start, steps)[i] < counter_after(start, steps),
    decreases steps.len(),
{
    if steps.len() > 0 {
        let before = issued_ids(start, steps.drop_last());
        if i < before.len() {
            lemma_issued_below_counter(start, steps.drop_last(), i);
        }
    }
}

/// Whatever calls of `next` and `advance_past` are made, and in whatever
/// order, a later `next` returns a greater id than an earlier one: no two
/// ids of a history are equal.
pub proof fn lemma_issued_ids_distinct(start: nat, steps: Seq<AllocStep>, i: int, j: int)
    requires
        0 <= i < j < issued_ids(start, steps).len(),
    ensures
        issued_ids(start, steps)[i] < issued_ids(start, steps)[j],
    decreases steps.len(),
{
    if steps.len() > 0 {
        let before = issued_ids(start, steps.drop_last());
        if j < before.len() {
            lemma_issued_ids_distinct(start, steps.drop_last(), i, j);
        } else {
            lemma_issued_below_counter(start, steps.drop_last(), i);
        }
    }
}

/// After `advance_past(seen_max)`, the id that `next` returns is greater
/// than `seen_max`.
pub proof fn lemma_next_after_advance_exceeds(counter: nat, seen_max: usize)
    ensures
        counter_step(counter, AllocStep::AdvancePast(seen_max)) > seen_max,
        issued_ids(counter, seq![AllocStep::AdvancePast(seen_max), AllocStep::Issue]) == seq![
            counter_step(counter, AllocStep::AdvancePast(seen_max)),
        ],
{
    let steps = seq![AllocStep::AdvancePast(seen_max), AllocStep::Issue];
    let first = steps.drop_last();
    assert(first =~= seq![AllocStep::AdvancePast(seen_max)]);
    assert(first.drop_last() =~= Seq::<AllocStep>::empty());
    reveal_with_fuel(counter_after, 3);
    reveal_with_fuel(issued_ids, 3);
    assert(issued_ids(counter, steps) =~= seq![
        counter_step(counter, AllocStep::AdvancePast(seen_max)),
    ]);
}

} // verus!
