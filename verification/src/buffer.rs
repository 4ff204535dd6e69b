//! The per-consumer bounded FIFO buffer and its overflow policy.
//!
//! A broadcast offers an item to every live consumer's buffer. A buffer
//! that is full silently drops the offered item: the engine never blocks
//! and never retries, and other consumers are unaffected.

use std::collections::VecDeque;

use vstd::math::min;
use vstd::prelude::*;

use crate::body::item_model;
use crate::body::Body;
use crate::body::BodyModel;
use crate::error::Error;
use crate::order::lemma_subsequence_front;
use crate::order::lemma_subsequence_grow;
use crate::order::lemma_subsequence_push_both;
use crate::order::lemma_subsequence_refl;
use crate::order::subsequence_of;

verus! {

/// The mathematical value of a bounded consumer buffer: its capacity and
/// the buffered items, oldest first.
pub struct BufferModel {
    /// How many items the buffer can hold at once.
    pub cap: nat,
    /// The buffered items, oldest first.
    pub items: Seq<Result<BodyModel, Error>>,
}

impl BufferModel {
    /// A buffer never holds more items than its capacity.
    pub open spec fn wf(self) -> bool {
        self.items.len() <= self.cap
    }

    /// A fresh, empty buffer of the given capacity.
    pub open spec fn empty(cap: nat) -> BufferModel {
        BufferModel { cap, items: Seq::empty() }
    }
}

/// What one offered item does to a buffer: appended if there is room,
/// silently dropped otherwise.
pub open spec fn offered(b: BufferModel, it: Result<BodyModel, Error>) -> BufferModel {
    if b.items.len() < b.cap {
        BufferModel { cap: b.cap, items: b.items.push(it) }
    } else {
        b
    }
}

/// What a whole sequence of offered items, oldest first, does to a buffer.
pub open spec fn offered_all(b: BufferModel, items: Seq<Result<BodyModel, Error>>) -> BufferModel
    decreases items.len(),
{
    if items.len() == 0 {
        b
    } else {
        offered_all(offered(b, items[0]), items.drop_first())
    }
}

/// Law: offering a sequence of items to a well-formed buffer keeps its
/// capacity and appends exactly the longest prefix of the offered items
/// that fits in the remaining room; everything past that prefix is dropped.
pub proof fn lemma_offered_all_appends_prefix(b: BufferModel, items: Seq<Result<BodyModel, Error>>)
    requires
        b.wf(),
    ensures
        offered_all(b, items).cap == b.cap,
        offered_all(b, items).items == b.items + items.take(
            min(b.cap - b.items.len(), items.len() as int),
        ),
        offered_all(b, items).wf(),
    decreases items.len(),
{
    if items.len() == 0 {
        assert(offered_all(b, items).items =~= b.items + items.take(
            min(b.cap - b.items.len(), items.len() as int),
        ));
    } else {
        let rest = items.drop_first();
        let next = offered(b, items[0]);
        lemma_offered_all_appends_prefix(next, rest);
        if b.items.len() < b.cap {
            let m = min(b.cap - b.items.len(), items.len() as int);
            assert(m == 1 + min(next.cap - next.items.len(), rest.len() as int));
            assert(next.items + rest.take(m - 1) =~= b.items + items.take(m));
        } else {
            assert(next.items + rest.take(0) =~= b.items + items.take(0));
        }
    }
}

/// Law (backpressure): a consumer with capacity `cap` that never drains
/// retains, after more than `cap` broadcasts, exactly the first `cap`
/// items; the later ones are silently absent.
pub proof fn lemma_backpressure(cap: nat, items: Seq<Result<BodyModel, Error>>)
    requires
        items.len() > cap,
    ensures
        offered_all(BufferModel::empty(cap), items).items == items.take(cap as int),
        offered_all(BufferModel::empty(cap), items).items.len() == cap,
{
    lemma_offered_all_appends_prefix(BufferModel::empty(cap), items);
    assert(BufferModel::empty(cap).items + items.take(cap as int) =~= items.take(cap as int));
}

/// Law (FIFO): a consumer that never drains observes the offered items in
/// exactly the order they were offered; what it retains is a prefix of the
/// offered sequence.
pub proof fn lemma_fifo_prefix(cap: nat, items: Seq<Result<BodyModel, Error>>)
    ensures
        offered_all(BufferModel::empty(cap), items).items == items.take(
            min(cap as int, items.len() as int),
        ),
{
    lemma_offered_all_appends_prefix(BufferModel::empty(cap), items);
    let m = min(cap as int, items.len() as int);
    assert(BufferModel::empty(cap).items + items.take(m) =~= items.take(m));
}

/// One step of a consumer's session with its buffer: the driver offering
/// one item, or the consumer pulling once.
pub enum BufferOp {
    /// A broadcast offered `item` to this buffer.
    Offer {
        /// The offered item.
        item: Result<BodyModel, Error>,
    },
    /// The consumer pulled once; an empty buffer yields nothing.
    Pull,
}

/// The buffer left by a session of operations, applied oldest first.
pub open spec fn session_buffer(b: BufferModel, ops: Seq<BufferOp>) -> BufferModel
    decreases ops.len(),
{
    if ops.len() == 0 {
        b
    } else {
        let prev = session_buffer(b, ops.drop_last());
        match ops.last() {
            BufferOp::Offer { item } => offered(prev, item),
            BufferOp::Pull => if prev.items.len() > 0 {
                BufferModel { cap: prev.cap, items: prev.items.drop_first() }
            } else {
                prev
            },
        }
    }
}

/// The items the consumer observed during a session, oldest first.
pub open spec fn session_observed(b: BufferModel, ops: Seq<BufferOp>) -> Seq<
    Result<BodyModel, Error>,
>
    decreases ops.len(),
{
    if ops.len() == 0 {
        Seq::empty()
    } else {
        let prev = session_buffer(b, ops.drop_last());
        let obs = session_observed(b, ops.drop_last());
        match ops.last() {
            BufferOp::Offer { .. } => obs,
            BufferOp::Pull => if prev.items.len() > 0 {
                obs.push(prev.items[0])
            } else {
                obs
            },
        }
    }
}

/// The items offered during a session, oldest first.
pub open spec fn session_offered(ops: Seq<BufferOp>) -> Seq<Result<BodyModel, Error>>
    decreases ops.len(),
{
    if ops.len() == 0 {
        Seq::empty()
    } else {
        match ops.last() {
            BufferOp::Offer { item } => session_offered(ops.drop_last()).push(item),
            BufferOp::Pull => session_offered(ops.drop_last()),
        }
    }
}

/// Law (FIFO, any interleaving): starting from an empty buffer, whatever
/// the interleaving of offers and pulls, what the consumer has observed so
/// far followed by what is still buffered is a subsequence of the offered
/// items: nothing is duplicated or reordered, dropped items are simply
/// absent.
pub proof fn lemma_session_order(b: BufferModel, ops: Seq<BufferOp>)
    requires
        b.items.len() == 0,
    ensures
        subsequence_of(
            session_observed(b, ops) + session_buffer(b, ops).items,
            session_offered(ops),
        ),
    decreases ops.len(),
{
    if ops.len() == 0 {
        lemma_subsequence_refl(Seq::<Result<BodyModel, Error>>::empty());
        assert(session_observed(b, ops) + session_buffer(b, ops).items =~= Seq::<
            Result<BodyModel, Error>,
        >::empty());
    } else {
        let front = ops.drop_last();
        lemma_session_order(b, front);
        let prev = session_buffer(b, front);
        let obs = session_observed(b, front);
        match ops.last() {
            BufferOp::Offer { item } => {
                if prev.items.len() < prev.cap {
                    lemma_subsequence_push_both(obs + prev.items, session_offered(front), item);
                    assert(obs + prev.items.push(item) =~= (obs + prev.items).push(item));
                } else {
                    lemma_subsequence_grow(obs + prev.items, session_offered(front), item);
                }
            },
            BufferOp::Pull => {
                if prev.items.len() > 0 {
                    assert(obs.push(prev.items[0]) + prev.items.drop_first() =~= obs + prev.items);
                }
            },
        }
    }
}

/// Law (observation order): starting from an empty buffer, the items a
/// consumer observes — under any interleaving of offers and pulls — appear
/// in the offered sequence in the same relative order.
pub proof fn lemma_observed_in_offer_order(b: BufferModel, ops: Seq<BufferOp>)
    requires
        b.items.len() == 0,
    ensures
        subsequence_of(session_observed(b, ops), session_offered(ops)),
{
    lemma_session_order(b, ops);
    lemma_subsequence_front(
        session_observed(b, ops),
        session_buffer(b, ops).items,
        session_offered(ops),
    );
}

/// One consumer's bounded FIFO buffer of deliverable items.
pub struct Buffer {
    cap: usize,
    items: VecDeque<Result<Body, Error>>,
}

impl View for Buffer {
    type V = BufferModel;

    closed spec fn view(&self) -> BufferModel {
        BufferModel {
            cap: self.cap as nat,
            items: self.items@.map_values(|it: Result<Body, Error>| item_model(it)),
        }
    }
}

impl Buffer {
    /// A fresh, empty buffer that can hold `cap` items.
    pub fn new(cap: usize) -> (b: Buffer)
        ensures
            b@ == BufferModel::empty(cap as nat),
    {
        let items: VecDeque<Result<Body, Error>> = VecDeque::new();
        let b = Buffer { cap, items };
        proof {
            assert(b@.items =~= Seq::<Result<BodyModel, Error>>::empty());
        }
        b
    }

    /// The buffer's capacity.
    pub fn capacity(&self) -> (c: usize)
        ensures
            c as nat == self@.cap,
    {
        self.cap
    }

    /// How many items are buffered right now.
    pub fn len(&self) -> (n: usize)
        ensures
            n as nat == self@.items.len(),
    {
        self.items.len()
    }

    /// Offer one item: append it if there is room, silently drop it
    /// otherwise. Returns whether the item was accepted.
    pub fn offer(&mut self, it: Result<Body, Error>)
        ensures
            final(self)@ == offered(old(self)@, item_model(it)),
    {
        if self.items.len() < self.cap {
            self.items.push_back(it);
            proof {
                assert(self@.items =~= old(self)@.items.push(item_model(it)));
            }
        }
    }

    /// Take the oldest buffered item, if any.
    pub fn pop(&mut self) -> (r: Option<Result<Body, Error>>)
        ensures
            final(self)@.cap == old(self)@.cap,
            match r {
                None => old(self)@.items.len() == 0 && final(self)@ == old(self)@,
                Some(it) => old(self)@.items.len() > 0 && item_model(it) == old(self)@.items[0]
                    && final(self)@.items == old(self)@.items.drop_first(),
            },
    {
        let r = self.items.pop_front();
        proof {
            if old(self).items@.len() > 0 {
                assert(self@.items =~= old(self)@.items.drop_first());
            }
        }
        r
    }
}

} // verus!
