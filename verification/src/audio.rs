//! The event queue between the game and the synth: a fixed-capacity ring
//! of events. The producer posts events (dropping them when the ring is
//! full, never blocking) and the consumer drains them in the order they
//! were posted. `head` counts events taken and `tail` events stored;
//! both only grow, wrapping at the word size, and are masked into the
//! backing array.

use vstd::prelude::*;

verus! {

/// Slots in the ring.
pub const RING_CAP: usize = 256;

/// Mask from a cursor to its slot.
pub const RING_MASK: usize = 255;

/// Number of distinct `usize` values.
pub open spec fn word_range() -> int {
    usize::MAX + 1
}

/// Events between the consumer cursor `head` and the producer cursor
/// `tail`: `tail - head`, modulo the word size.
pub open spec fn used(head: usize, tail: usize) -> int {
    if tail >= head {
        tail - head
    } else {
        tail + word_range() - head
    }
}

/// Slot of the `k`-th queued event when the consumer cursor is `head`.
pub open spec fn slot(head: usize, k: int) -> int {
    (head + k) % 256
}

/// The queue after posting `x`: appended, or unchanged when full.
pub open spec fn push_model<T>(q: Seq<T>, x: T) -> Seq<T> {
    if q.len() < RING_CAP {
        q.push(x)
    } else {
        q
    }
}

/// The queue after posting every event of `xs` in order.
pub open spec fn pushes<T>(q: Seq<T>, xs: Seq<T>) -> Seq<T>
    decreases xs.len(),
{
    if xs.len() == 0 {
        q
    } else {
        pushes(push_model(q, xs[0]), xs.drop_first())
    }
}

/// A single-producer, single-consumer ring of `RING_CAP` events.
pub struct EventRing<T> {
    buf: Vec<T>,
    head: usize,
    tail: usize,
    contents: Ghost<Seq<T>>,
}

impl<T> View for EventRing<T> {
    type V = Seq<T>;

    /// The queued events, oldest first.
    closed spec fn view(&self) -> Seq<T> {
        self.contents@
    }
}

/// The word size is a multiple of the ring capacity, so shifting a
/// cursor by a whole word keeps its slot.
proof fn lemma_word_shift(x: int)
    ensures
        (x + word_range()) % 256 == x % 256,
        (x - word_range()) % 256 == x % 256,
{
    assert(usize::MAX == 0xffff_ffff || usize::MAX == 0xffff_ffff_ffff_ffff);
    let q: int = word_range() / 256;
    assert(word_range() == 256 * q);
    vstd::arithmetic::div_mod::lemma_mod_multiples_vanish(q, x, 256);
    vstd::arithmetic::div_mod::lemma_mod_multiples_vanish(-q, x, 256);
}

/// Distinct queue positions less than a ring apart use distinct slots.
proof fn lemma_slots_distinct(h: int, k: int, n: int)
    requires
        h >= 0,
        0 <= k < n < 256,
    ensures
        (h + k) % 256 != (h + n) % 256,
{
    assert((h + k) % 256 != (h + n) % 256) by (nonlinear_arith)
        requires
            h >= 0,
            0 <= k < n < 256,
    ;
}

/// A cursor's slot is its low eight bits.
proof fn lemma_mask(x: usize)
    ensures
        x & 255 == x % 256,
{
    assert(x & 255 == x % 256) by (bit_vector);
}

impl<T: Copy> EventRing<T> {
    /// The ring's internal consistency: the backing array holds every
    /// queued event in its slot.
    pub closed spec fn wf(&self) -> bool {
        &&& self.buf@.len() == 256
        &&& self.contents@.len() == used(self.head, self.tail)
        &&& self.contents@.len() <= RING_CAP
        &&& forall|k: int|
            0 <= k < self.contents@.len() ==> #[trigger] self.contents@[k] == self.buf@[slot(
                self.head,
                k,
            )]
    }

    /// An empty ring; `fill` occupies the unused slots.
    pub fn new(fill: T) -> (r: Self)
        ensures
            r.wf(),
            r@ == Seq::<T>::empty(),
    {
        let mut buf: Vec<T> = Vec::new();
        let mut i: usize = 0;
        while i < RING_CAP
            invariant
                i <= RING_CAP,
                buf@.len() == i,
            decreases RING_CAP - i,
        {
            buf.push(fill);
            i = i + 1;
        }
        EventRing { buf, head: 0, tail: 0, contents: Ghost(Seq::empty()) }
    }

    /// Number of queued events.
    pub fn len(&self) -> (r: usize)
        requires
            self.wf(),
        ensures
            r == self@.len(),
    {
        self.tail.wrapping_sub(self.head)
    }

    /// Producer side: queues `ev`, or drops it and returns `false` when
    /// the ring is full.
    pub fn push(&mut self, ev: T) -> (ok: bool)
        requires
            old(self).wf(),
        ensures
            final(self).wf(),
            ok == (old(self)@.len() < RING_CAP),
            final(self)@ == push_model(old(self)@, ev),
    {
        let tail = self.tail;
        let head = self.head;
        if tail.wrapping_sub(head) >= RING_CAP {
            return false;
        }
        let ghost n = self.contents@.len() as int;
        proof {
            lemma_mask(tail);
            if tail < head {
                lemma_word_shift(tail as int);
            }
            assert(tail as int % 256 == slot(head, n));
        }
        self.buf.set(tail & RING_MASK, ev);
        self.tail = tail.wrapping_add(1);
        proof {
            self.contents@ = old(self).contents@.push(ev);
            assert forall|k: int| 0 <= k < self.contents@.len() implies #[trigger] self.contents@[k]
                == self.buf@[slot(self.head, k)] by {
                if k < n {
                    lemma_slots_distinct(head as int, k, n);
                }
            }
        }
        true
    }

    /// Consumer side: takes the oldest queued event, or `None` when the
    /// ring is empty.
    pub fn pop(&mut self) -> (r: Option<T>)
        requires
            old(self).wf(),
        ensures
            final(self).wf(),
            old(self)@.len() == 0 ==> r is None && final(self)@ == old(self)@,
            old(self)@.len() > 0 ==> r == Some(old(self)@[0]) && final(self)@
                == old(self)@.drop_first(),
    {
        let head = self.head;
        let tail = self.tail;
        if head == tail {
            return None;
        }
        proof {
            lemma_mask(head);
            assert(self.contents@[0] == self.buf@[slot(head, 0)]);
        }
        let ev = self.buf[head & RING_MASK];
        self.head = head.wrapping_add(1);
        proof {
            self.contents@ = old(self).contents@.drop_first();
            assert forall|k: int| 0 <= k < self.contents@.len() implies #[trigger] self.contents@[k]
                == self.buf@[slot(self.head, k)] by {
                assert(old(self).contents@[k + 1] == self.buf@[slot(head, k + 1)]);
                if head == usize::MAX {
                    lemma_word_shift(head + 1 + k);
                }
            }
        }
        Some(ev)
    }
}

/// Posting a run of events onto a queue keeps them in posting order
/// behind what was already queued, and drops exactly those that arrive
/// once the ring is full.
pub proof fn lemma_pushes_keep_order<T>(q: Seq<T>, xs: Seq<T>)
    requires
        q.len() <= RING_CAP,
    ensures
        pushes(q, xs) == (q + xs).subrange(
            0,
            if q.len() + xs.len() <= RING_CAP {
                (q.len() + xs.len()) as int
            } else {
                RING_CAP as int
            },
        ),
    decreases xs.len(),
{
    if xs.len() == 0 {
        assert((q + xs).subrange(0, q.len() as int) =~= q);
    } else {
        let q1 = push_model(q, xs[0]);
        lemma_pushes_keep_order(q1, xs.drop_first());
        if q.len() < RING_CAP {
            assert(q1 + xs.drop_first() =~= q + xs);
        } else {
            assert((q1 + xs.drop_first()).subrange(0, RING_CAP as int) =~= (q + xs).subrange(
                0,
                RING_CAP as int,
            ));
        }
    }
}

/// Taking an event frees exactly one slot: after a pop from a full ring
/// the next post is accepted and lands last.
pub proof fn lemma_pop_frees_one_slot<T>(q: Seq<T>, x: T)
    requires
        q.len() == RING_CAP,
    ensures
        q.drop_first().len() < RING_CAP,
        push_model(q.drop_first(), x) == q.drop_first().push(x),
        push_model(q, x) == q,
{
}

} // verus!
