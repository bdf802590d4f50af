//! The abstract behaviour of a ring buffer, stated over the sequence of its
//! live elements, oldest first.
use vstd::prelude::*;

verus! {

/// The contents after an enqueue that evicts the oldest element when full.
/// A buffer of capacity zero keeps nothing.
pub open spec fn after_enqueue<T>(q: Seq<T>, cap: nat, x: T) -> Seq<T> {
    if cap == 0 {
        q
    } else if q.len() >= cap {
        q.drop_first().push(x)
    } else {
        q.push(x)
    }
}

/// What a dequeue hands back: the oldest element, if any.
pub open spec fn front<T>(q: Seq<T>) -> Option<T> {
    if q.len() == 0 {
        None
    } else {
        Some(q[0])
    }
}

/// The contents after a dequeue.
pub open spec fn after_dequeue<T>(q: Seq<T>) -> Seq<T> {
    if q.len() == 0 {
        q
    } else {
        q.drop_first()
    }
}

/// The contents after enqueueing each of `xs` in turn.
pub open spec fn enqueue_all<T>(q: Seq<T>, cap: nat, xs: Seq<T>) -> Seq<T>
    decreases xs.len(),
{
    if xs.len() == 0 {
        q
    } else {
        after_enqueue(enqueue_all(q, cap, xs.drop_last()), cap, xs.last())
    }
}

/// What `n` successive dequeues hand back, in order.
pub open spec fn drain<T>(q: Seq<T>, n: nat) -> Seq<Option<T>>
    decreases n,
{
    if n == 0 {
        Seq::empty()
    } else {
        seq![front(q)] + drain(after_dequeue(q), (n - 1) as nat)
    }
}

} // verus!
