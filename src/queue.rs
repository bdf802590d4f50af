//! The ring buffer itself: a vector of optional slots and two indices.
use vstd::prelude::*;
use vstd::arithmetic::div_mod::{lemma_mod_add_multiples_vanish, lemma_small_mod};

use crate::model::{after_dequeue, after_enqueue, front};

verus! {

/// A first-in, first-out queue over a fixed number of slots.
///
/// `head` is the slot of the oldest element, `tail` the slot that the next
/// element goes to, and `size` the number of live elements. The live elements
/// fill the slots from `head` onwards, wrapping round at the end of `items`.
pub struct RingB<T> {
    head: usize,
    tail: usize,
    size: usize,
    capacity: usize,
    items: Vec<Option<T>>,
}

/// Returned by `enqueue_or_overflow` when the buffer has no free slot. It
/// hands the rejected item back to the caller.
pub struct OverflowError<T>(pub T);

/// The capacity of a buffer made by `new`.
pub const DEFAULT_BUFFER_CAPACITY: usize = 16;

/// An index below twice the modulus wraps round at most once.
proof fn lemma_wrap(x: int, m: int)
    requires
        0 < m,
        0 <= x < 2 * m,
    ensures
        x % m == if x < m { x } else { x - m },
{
    if x < m {
        lemma_small_mod(x as nat, m as nat);
    } else {
        lemma_mod_add_multiples_vanish(x - m, m);
        lemma_small_mod((x - m) as nat, m as nat);
    }
}

impl<T> RingB<T> {
    /// The slot that holds the element `k` places after the oldest one.
    spec fn slot(&self, k: int) -> int {
        if self.head + k < self.capacity {
            self.head + k
        } else {
            self.head + k - self.capacity
        }
    }

    /// Whether slot `i` lies in the live range that starts at `head`.
    spec fn live(&self, i: int) -> bool {
        if i >= self.head {
            i - self.head < self.size
        } else {
            i + self.capacity - self.head < self.size
        }
    }

    /// The buffer's invariant: indices in range, `tail` just past the live
    /// range, and a slot holds an element exactly when it is live.
    pub closed spec fn wf(&self) -> bool {
        &&& self.items@.len() == self.capacity
        &&& self.size <= self.capacity
        &&& if self.capacity == 0 {
            self.head == 0 && self.tail == 0
        } else {
            &&& self.head < self.capacity
            &&& self.tail == self.slot(self.size as int)
        }
        &&& forall|i: int|
            0 <= i < self.capacity ==> (#[trigger] self.items@[i]).is_some() == self.live(i)
    }

    /// The live elements, oldest first.
    pub closed spec fn view(&self) -> Seq<T> {
        Seq::new(self.size as nat, |k: int| self.items@[self.slot(k)]->Some_0)
    }

    /// The number of slots, fixed when the buffer is made.
    pub closed spec fn cap(&self) -> nat {
        self.capacity as nat
    }

    /// The slot of the oldest element (0 for a buffer of capacity zero).
    pub closed spec fn start(&self) -> nat {
        self.head as nat
    }

    /// The slot that the next enqueued element is written to.
    pub open spec fn next_slot(&self) -> nat {
        if self.cap() == 0 {
            0
        } else {
            ((self.start() + self@.len()) as int % (self.cap() as int)) as nat
        }
    }

    /// The size never exceeds the capacity. Every operation keeps a buffer
    /// well-formed, so this holds after any sequence of them; the slot of the
    /// oldest element also stays within range.
    pub proof fn lemma_size_within_capacity(&self)
        requires
            self.wf(),
        ensures
            self@.len() <= self.cap(),
            self.cap() == 0 ==> self.start() == 0,
            self.cap() > 0 ==> self.start() < self.cap(),
    {
    }

    /// A buffer with `DEFAULT_BUFFER_CAPACITY` empty slots.
    pub fn new() -> (r: Self)
        ensures
            r.wf(),
            r@ == Seq::<T>::empty(),
            r.cap() == DEFAULT_BUFFER_CAPACITY,
            r.start() == 0,
    {
        Self::with_capacity(DEFAULT_BUFFER_CAPACITY)
    }

    /// A buffer with `capacity` empty slots. A buffer of capacity zero is
    /// always both empty and full, and never stores an element.
    pub fn with_capacity(capacity: usize) -> (r: Self)
        ensures
            r.wf(),
            r@ == Seq::<T>::empty(),
            r.cap() == capacity,
            r.start() == 0,
    {
        let mut v: Vec<Option<T>> = Vec::with_capacity(capacity);
        while v.len() < capacity
            invariant
                v@.len() <= capacity,
                forall|i: int| 0 <= i < v@.len() ==> (#[trigger] v@[i]).is_none(),
            decreases capacity - v@.len(),
        {
            v.push(None);
        }
        let r = RingB { head: 0, tail: 0, size: 0, capacity, items: v };
        assert(r@ =~= Seq::<T>::empty());
        r
    }

    /// The number of slots.
    pub fn capacity(&self) -> (r: usize)
        ensures
            r == self.cap(),
    {
        self.capacity
    }

    /// The number of live elements.
    pub fn size(&self) -> (r: usize)
        requires
            self.wf(),
        ensures
            r == self@.len(),
    {
        self.size
    }

    /// Whether the buffer holds no element.
    pub fn is_empty(&self) -> (r: bool)
        requires
            self.wf(),
        ensures
            r == (self@.len() == 0),
    {
        self.size == 0
    }

    /// Whether every slot holds an element.
    pub fn is_full(&self) -> (r: bool)
        requires
            self.wf(),
        ensures
            r == (self@.len() == self.cap()),
    {
        self.size == self.capacity
    }

    /// The slot of the oldest element.
    pub fn head(&self) -> (r: usize)
        ensures
            r == self.start(),
    {
        self.head
    }

    /// The slot that the next enqueued element is written to.
    pub fn tail(&self) -> (r: usize)
        requires
            self.wf(),
        ensures
            r == self.next_slot(),
    {
        proof {
            if self.capacity > 0 {
                lemma_wrap((self.head + self.size) as int, self.capacity as int);
            }
        }
        self.tail
    }

    /// Writes `item` into the free slot at `tail`.
    fn push_back(&mut self, item: T)
        requires
            old(self).wf(),
            old(self).cap() > 0,
            old(self)@.len() < old(self).cap(),
        ensures
            final(self).wf(),
            final(self)@ == old(self)@.push(item),
            final(self).cap() == old(self).cap(),
            final(self).start() == old(self).start(),
    {
        proof {
            lemma_wrap(self.tail + 1, self.capacity as int);
        }
        let ghost pre = *self;
        let t = self.tail;
        self.items.set(t, Some(item));
        self.tail = (t + 1) % self.capacity;
        self.size = self.size + 1;
        assert(self@ =~= pre@.push(item)) by {
            assert forall|k: int| 0 <= k < pre.size implies pre.slot(k) != t by {}
        }
    }

    /// Appends `item`. When the buffer is full the oldest element is removed
    /// first and dropped. A buffer of capacity zero drops `item` itself.
    pub fn enqueue(&mut self, item: T)
        requires
            old(self).wf(),
        ensures
            final(self).wf(),
            final(self)@ == after_enqueue(old(self)@, old(self).cap(), item),
            final(self).cap() == old(self).cap(),
            final(self).start() == if old(self).cap() > 0 && old(self)@.len() == old(self).cap() {
                (old(self).start() + 1) % old(self).cap()
            } else {
                old(self).start()
            },
    {
        if self.capacity == 0 {
            return;
        }
        if self.is_full() {
            let _ = self.dequeue();
        }
        self.push_back(item);
    }

    /// Appends `item` unless the buffer is full. A full buffer is left as it
    /// was, and `item` comes back to the caller inside the `OverflowError`.
    pub fn enqueue_or_overflow(&mut self, item: T) -> (r: Result<(), OverflowError<T>>)
        requires
            old(self).wf(),
        ensures
            final(self).wf(),
            final(self).cap() == old(self).cap(),
            final(self).start() == old(self).start(),
            r is Err <==> old(self)@.len() == old(self).cap(),
            r is Ok ==> final(self)@ == old(self)@.push(item),
            r is Err ==> final(self)@ == old(self)@,
            r is Err ==> r->Err_0.0 == item,
    {
        if self.is_full() {
            return Err(OverflowError(item));
        }
        self.push_back(item);
        Ok(())
    }

    /// Removes and returns the oldest element, or `None` when the buffer is
    /// empty.
    pub fn dequeue(&mut self) -> (r: Option<T>)
        requires
            old(self).wf(),
        ensures
            final(self).wf(),
            r == front(old(self)@),
            final(self)@ == after_dequeue(old(self)@),
            final(self).cap() == old(self).cap(),
            final(self).start() == if old(self)@.len() > 0 {
                (old(self).start() + 1) % old(self).cap()
            } else {
                old(self).start()
            },
    {
        if self.is_empty() {
            return None;
        }
        proof {
            lemma_wrap(self.head + 1, self.capacity as int);
        }
        let ghost pre = *self;
        let h = self.head;
        let item = self.items[h].take();
        self.head = (h + 1) % self.capacity;
        self.size = self.size - 1;
        assert(self@ =~= pre@.drop_first()) by {
            assert forall|k: int| 0 <= k < self.size implies self.slot(k) == pre.slot(k + 1) by {}
        }
        item
    }
}

} // verus!
