//! Laws that relate the buffer's operations to one another.
use vstd::prelude::*;

use crate::model::{after_dequeue, after_enqueue, drain, enqueue_all, front};

verus! {

/// Enqueueing up to `cap` elements into an empty buffer, without eviction,
/// leaves exactly those elements, in the order they came.
pub proof fn lemma_enqueue_all_fits<T>(cap: nat, xs: Seq<T>)
    requires
        xs.len() <= cap,
    ensures
        enqueue_all(Seq::empty(), cap, xs) == xs,
    decreases xs.len(),
{
    if xs.len() > 0 {
        lemma_enqueue_all_fits(cap, xs.drop_last());
        assert(xs.drop_last().push(xs.last()) =~= xs);
    }
}

/// Dequeueing as many times as there are elements hands them all back,
/// oldest first.
pub proof fn lemma_drain_in_order<T>(q: Seq<T>)
    ensures
        drain(q, q.len()) == q.map_values(|x: T| Some(x)),
    decreases q.len(),
{
    if q.len() > 0 {
        lemma_drain_in_order(q.drop_first());
        assert(seq![Some(q[0])] + q.drop_first().map_values(|x: T| Some(x))
            =~= q.map_values(|x: T| Some(x)));
    }
}

/// First in, first out: after enqueueing `xs` (no more than `cap` of them)
/// into an empty buffer, `xs.len()` dequeues return the elements of `xs` in
/// the order they were enqueued.
pub proof fn lemma_fifo<T>(cap: nat, xs: Seq<T>)
    requires
        xs.len() <= cap,
    ensures
        drain(enqueue_all(Seq::empty(), cap, xs), xs.len()) == xs.map_values(|x: T| Some(x)),
{
    lemma_enqueue_all_fits(cap, xs);
    lemma_drain_in_order(xs);
}

/// Enqueueing into a full buffer drops the oldest element and keeps the
/// size: the new oldest element is the one enqueued right after the dropped
/// one, and the dropped element is gone from the contents.
pub proof fn lemma_discard_oldest<T>(q: Seq<T>, cap: nat, x: T)
    requires
        cap > 0,
        q.len() == cap,
    ensures
        after_enqueue(q, cap, x) == q.subrange(1, cap as int).push(x),
        after_enqueue(q, cap, x).len() == cap,
        front(after_enqueue(q, cap, x)) == if cap > 1 { Some(q[1]) } else { Some(x) },
{
    assert(q.drop_first() =~= q.subrange(1, cap as int));
}

/// An element enqueued into an empty buffer of nonzero capacity is what the
/// next dequeue returns, and the buffer is empty again afterwards.
pub proof fn lemma_round_trip<T>(cap: nat, x: T)
    requires
        cap > 0,
    ensures
        front(after_enqueue(Seq::empty(), cap, x)) == Some(x),
        after_dequeue(after_enqueue(Seq::empty(), cap, x)) == Seq::<T>::empty(),
{
    assert(Seq::<T>::empty().push(x).drop_first() =~= Seq::<T>::empty());
}

} // verus!
