//! A fixed-capacity window over the most recent samples.
//!
//! The window is a ring of slots: once it is full, a new sample overwrites
//! the oldest one in place, so memory stays bounded however long the
//! sampler runs.

use vstd::prelude::*;
use crate::sample::{all_valid, ordered, Sample};

verus! {

/// What a window of `capacity` keeps of everything pushed so far: the last
/// `capacity` samples, or all of them while there are fewer.
pub open spec fn retained(history: Seq<Sample>, capacity: nat) -> Seq<Sample> {
    if history.len() <= capacity {
        history
    } else {
        history.subrange(history.len() - capacity, history.len() as int)
    }
}

/// The slot that holds the `offset`-th oldest sample of a ring of `len`
/// slots whose oldest sample sits at `head`.
pub open spec fn slot_of(head: int, offset: int, len: int) -> int {
    if head + offset < len {
        head + offset
    } else {
        head + offset - len
    }
}

/// The length of what is retained is the smaller of the number of samples
/// pushed and the capacity.
pub proof fn lemma_retained_len(history: Seq<Sample>, capacity: nat)
    ensures
        retained(history, capacity).len() == if history.len() <= capacity {
            history.len()
        } else {
            capacity
        },
{
}

/// What is retained is the tail of the history: its `i`-th sample is the
/// `i`-th of the last `len` samples pushed.
pub proof fn lemma_retained_is_latest(history: Seq<Sample>, capacity: nat, i: int)
    requires
        0 <= i < retained(history, capacity).len(),
    ensures
        retained(history, capacity)[i] == history[history.len() - retained(
            history,
            capacity,
        ).len() + i],
{
}

/// Pushing onto what was retained and cutting again gives what is retained
/// of the longer history: eviction forgets nothing that would still count.
pub proof fn lemma_retained_push(history: Seq<Sample>, capacity: nat, sample: Sample)
    ensures
        retained(retained(history, capacity).push(sample), capacity) == retained(
            history.push(sample),
            capacity,
        ),
{
    let lhs = retained(retained(history, capacity).push(sample), capacity);
    let rhs = retained(history.push(sample), capacity);
    assert(lhs.len() == rhs.len());
    assert forall|i: int| 0 <= i < lhs.len() implies lhs[i] == rhs[i] by {}
    assert(lhs =~= rhs);
}

/// Cutting a history to its tail keeps range and order of its samples.
pub proof fn lemma_retained_keeps_order(history: Seq<Sample>, capacity: nat)
    requires
        all_valid(history),
        ordered(history),
    ensures
        all_valid(retained(history, capacity)),
        ordered(retained(history, capacity)),
{
    let kept = retained(history, capacity);
    let shift = history.len() - kept.len();
    assert forall|i: int| 0 <= i < kept.len() implies (#[trigger] kept[i]).wf() by {
        assert(kept[i] == history[shift + i]);
    }
    assert forall|i: int, j: int| 0 <= i <= j < kept.len() implies (#[trigger] kept[i]).elapsed_seconds
        <= (#[trigger] kept[j]).elapsed_seconds by {
        assert(kept[i] == history[shift + i]);
        assert(kept[j] == history[shift + j]);
    }
}

/// The most recent samples of a continuous run, at most `capacity` of them.
#[derive(Debug)]
pub struct Window {
    slots: Vec<Sample>,
    head: usize,
    capacity: usize,
}

impl View for Window {
    type V = Seq<Sample>;

    /// The samples held, oldest first.
    closed spec fn view(&self) -> Seq<Sample> {
        Seq::new(
            self.slots@.len(),
            |i: int| self.slots@[slot_of(self.head as int, i, self.slots@.len() as int)],
        )
    }
}

impl Window {
    /// The ring is no longer than its capacity, and its oldest sample sits in
    /// the first slot until the ring is full.
    pub closed spec fn wf(&self) -> bool {
        &&& self.slots@.len() <= self.capacity
        &&& self.slots@.len() < self.capacity ==> self.head == 0
        &&& self.slots@.len() > 0 ==> self.head < self.slots@.len()
        &&& self.slots@.len() == 0 ==> self.head == 0
    }

    /// The largest number of samples the window holds.
    pub closed spec fn capacity_spec(&self) -> nat {
        self.capacity as nat
    }

    /// An empty window that will hold at most `capacity` samples.
    pub fn new(capacity: usize) -> (window: Window)
        ensures
            window.wf(),
            window@ == Seq::<Sample>::empty(),
            window.capacity_spec() == capacity,
    {
        let window = Window { slots: Vec::new(), head: 0, capacity };
        assert(window@ =~= Seq::<Sample>::empty());
        window
    }

    /// The largest number of samples the window holds.
    pub fn capacity(&self) -> (capacity: usize)
        ensures
            capacity == self.capacity_spec(),
    {
        self.capacity
    }

    /// Number of samples held.
    pub fn len(&self) -> (n: usize)
        ensures
            n == self@.len(),
    {
        self.slots.len()
    }

    /// Whether no sample is held.
    pub fn is_empty(&self) -> (empty: bool)
        ensures
            empty == (self@.len() == 0),
    {
        self.slots.len() == 0
    }

    /// The sample at `index`, counted from the oldest one held.
    pub fn get(&self, index: usize) -> (sample: Option<Sample>)
        requires
            self.wf(),
        ensures
            index < self@.len() ==> sample == Some(self@[index as int]),
            index >= self@.len() ==> sample.is_none(),
    {
        let n: usize = self.slots.len();
        if index >= n {
            return None;
        }
        let room: usize = n - self.head;
        let slot: usize = if index < room {
            self.head + index
        } else {
            index - room
        };
        Some(self.slots[slot])
    }

    /// The most recent sample.
    pub fn last(&self) -> (sample: Option<Sample>)
        requires
            self.wf(),
        ensures
            self@.len() > 0 ==> sample == Some(self@.last()),
            self@.len() == 0 ==> sample.is_none(),
    {
        let n: usize = self.slots.len();
        if n == 0 {
            None
        } else {
            self.get(n - 1)
        }
    }

    /// Adds `sample` as the newest. A full window drops its oldest sample to
    /// make room; a window of capacity zero stays empty.
    pub fn push(&mut self, sample: Sample)
        requires
            old(self).wf(),
        ensures
            final(self).wf(),
            final(self).capacity_spec() == old(self).capacity_spec(),
            final(self)@ == retained(old(self)@.push(sample), old(self).capacity_spec()),
    {
        let ghost before = self@;
        if self.capacity == 0 {
            assert(self@ =~= retained(before.push(sample), 0nat));
        } else if self.slots.len() < self.capacity {
            self.slots.push(sample);
            assert(self@ =~= before.push(sample));
        } else {
            let head: usize = self.head;
            self.slots.set(head, sample);
            self.head = if head + 1 == self.capacity {
                0
            } else {
                head + 1
            };
            let ghost after = self@;
            let ghost want = retained(before.push(sample), self.capacity as nat);
            assert(after.len() == want.len());
            assert forall|i: int| 0 <= i < after.len() implies after[i] == want[i] by {
                assert(want[i] == before.push(sample)[i + 1]);
            }
            assert(after =~= want);
        }
    }

    /// A copy of the samples held, oldest first.
    pub fn to_vec(&self) -> (samples: Vec<Sample>)
        requires
            self.wf(),
        ensures
            samples@ == self@,
    {
        let mut out: Vec<Sample> = Vec::new();
        let n: usize = self.slots.len();
        let mut i: usize = 0;
        while i < n
            invariant
                self.wf(),
                n == self@.len(),
                i <= n,
                out@.len() == i,
                forall|k: int| 0 <= k < i ==> out@[k] == self@[k],
            decreases n - i,
        {
            let next = self.get(i);
            match next {
                Some(s) => {
                    out.push(s);
                },
                None => {},
            }
            i += 1;
        }
        assert(out@ =~= self@);
        out
    }
}

} // verus!
