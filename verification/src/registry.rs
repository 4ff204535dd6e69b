//! The table of live consumers and the fan-out rules.
//!
//! The registry maps each consumer key to that consumer's bounded buffer.
//! Registration inserts a fresh entry (or fails on a key that is already
//! live), unregistration removes it and is idempotent, and a broadcast
//! offers one item to every live buffer under the drop-on-full policy.

use vstd::prelude::*;

use crate::body::clone_item;
use crate::body::item_model;
use crate::body::Body;
use crate::body::BodyModel;
use crate::buffer::offered;
use crate::buffer::offered_all;
use crate::buffer::Buffer;
use crate::buffer::BufferModel;
use crate::error::Error;

verus! {

/// What a successful registration does to the table: a fresh empty buffer
/// appears under the key; a key that is already live leaves it unchanged.
pub open spec fn register_model(m: Map<usize, BufferModel>, key: usize, cap: nat) -> Map<
    usize,
    BufferModel,
> {
    if m.dom().contains(key) {
        m
    } else {
        m.insert(key, BufferModel::empty(cap))
    }
}

/// What unregistration does to the table: the key is gone afterwards,
/// whether or not it was there before.
pub open spec fn unregister_model(m: Map<usize, BufferModel>, key: usize) -> Map<
    usize,
    BufferModel,
> {
    m.remove(key)
}

/// What a broadcast does to the table: every live buffer is offered the
/// item (appended if there is room, dropped otherwise); no key appears or
/// disappears.
pub open spec fn broadcast_model(m: Map<usize, BufferModel>, it: Result<BodyModel, Error>) -> Map<
    usize,
    BufferModel,
> {
    Map::new(|k: usize| m.dom().contains(k), |k: usize| offered(m[k], it))
}

/// What a targeted send does to the table: the addressed buffer is offered
/// the item; a key that is not live is silently skipped.
pub open spec fn send_to_model(
    m: Map<usize, BufferModel>,
    key: usize,
    it: Result<BodyModel, Error>,
) -> Map<usize, BufferModel> {
    if m.dom().contains(key) {
        m.insert(key, offered(m[key], it))
    } else {
        m
    }
}

/// What one consumer pull does to the table: the oldest item leaves the
/// addressed buffer; an absent key or an empty buffer changes nothing.
pub open spec fn pop_model(m: Map<usize, BufferModel>, key: usize) -> Map<usize, BufferModel> {
    if m.dom().contains(key) && m[key].items.len() > 0 {
        m.insert(key, BufferModel { cap: m[key].cap, items: m[key].items.drop_first() })
    } else {
        m
    }
}

/// Every buffer in the table is within its capacity.
pub open spec fn table_wf(m: Map<usize, BufferModel>) -> bool {
    forall|k: usize| #[trigger] m.dom().contains(k) ==> m[k].wf()
}

struct Entry {
    key: usize,
    buf: Buffer,
}

/// No two entries share a key.
spec fn keys_distinct(s: Seq<Entry>) -> bool {
    forall|i: int, j: int| 0 <= i < j < s.len() ==> s[i].key != s[j].key
}

/// The table described by a sequence of entries; a later entry would win,
/// but under [`keys_distinct`] the keys never collide.
spec fn entries_map(s: Seq<Entry>) -> Map<usize, BufferModel>
    decreases s.len(),
{
    if s.len() == 0 {
        Map::empty()
    } else {
        entries_map(s.drop_last()).insert(s.last().key, s.last().buf@)
    }
}

/// A key is in the table exactly when some entry carries it.
proof fn lemma_entries_map_dom(s: Seq<Entry>)
    ensures
        forall|k: usize| #[trigger] entries_map(s).dom().contains(k) <==> exists|i: int|
            0 <= i < s.len() && s[i].key == k,
    decreases s.len(),
{
    if s.len() > 0 {
        lemma_entries_map_dom(s.drop_last());
        assert forall|k: usize| #[trigger] entries_map(s).dom().contains(k) implies exists|i: int|
            0 <= i < s.len() && s[i].key == k by {
            if k == s.last().key {
                assert(s[s.len() - 1].key == k);
            } else {
                assert(entries_map(s.drop_last()).dom().contains(k));
                let i = choose|i: int| 0 <= i < s.drop_last().len() && s.drop_last()[i].key == k;
                assert(s.drop_last()[i] == s[i]);
            }
        }
        assert forall|k: usize|
            exists|i: int| 0 <= i < s.len() && s[i].key == k implies #[trigger] entries_map(
            s,
        ).dom().contains(k) by {
            let i = choose|i: int| 0 <= i < s.len() && s[i].key == k;
            if i < s.len() - 1 {
                assert(s.drop_last()[i].key == k);
                assert(exists|j: int| 0 <= j < s.drop_last().len() && s.drop_last()[j].key == k);
                assert(entries_map(s.drop_last()).dom().contains(k));
            }
        }
    }
}

/// Each entry's buffer is the table's value under that entry's key.
proof fn lemma_entries_map_index(s: Seq<Entry>, i: int)
    requires
        keys_distinct(s),
        0 <= i < s.len(),
    ensures
        entries_map(s).dom().contains(s[i].key),
        entries_map(s)[s[i].key] == s[i].buf@,
    decreases s.len(),
{
    if i < s.len() - 1 {
        lemma_entries_map_index(s.drop_last(), i);
        assert(s.drop_last()[i] == s[i]);
        assert(s[i].key != s.last().key);
    }
}

/// Replacing one entry's buffer replaces that key's value in the table.
proof fn lemma_entries_map_update(s: Seq<Entry>, i: int, e: Entry)
    requires
        keys_distinct(s),
        0 <= i < s.len(),
        e.key == s[i].key,
    ensures
        entries_map(s.update(i, e)) == entries_map(s).insert(e.key, e.buf@),
    decreases s.len(),
{
    let s2 = s.update(i, e);
    if i == s.len() - 1 {
        assert(s2.drop_last() =~= s.drop_last());
        assert(entries_map(s2) =~= entries_map(s).insert(e.key, e.buf@));
    } else {
        assert(s2.drop_last() =~= s.drop_last().update(i, e));
        lemma_entries_map_update(s.drop_last(), i, e);
        assert(s2.last() == s.last());
        assert(s.last().key != e.key);
        assert(entries_map(s2) =~= entries_map(s).insert(e.key, e.buf@));
    }
}

/// Removing one entry removes exactly that key from the table.
proof fn lemma_entries_map_remove(s: Seq<Entry>, i: int)
    requires
        keys_distinct(s),
        0 <= i < s.len(),
    ensures
        entries_map(s.remove(i)) == entries_map(s).remove(s[i].key),
    decreases s.len(),
{
    let k = s[i].key;
    if i == s.len() - 1 {
        assert(s.remove(i) =~= s.drop_last());
        lemma_entries_map_dom(s.drop_last());
        assert(!entries_map(s.drop_last()).dom().contains(k));
        assert(entries_map(s.remove(i)) =~= entries_map(s).remove(k));
    } else {
        assert(s.remove(i).drop_last() =~= s.drop_last().remove(i));
        assert(s.remove(i).last() == s.last());
        lemma_entries_map_remove(s.drop_last(), i);
        assert(s.last().key != k);
        assert(entries_map(s.remove(i)) =~= entries_map(s).remove(k));
    }
}

/// A sequence of entries with the same keys and each buffer offered the
/// same item describes the broadcast of that item.
proof fn lemma_entries_map_offered(s1: Seq<Entry>, s2: Seq<Entry>, it: Result<BodyModel, Error>)
    requires
        s2.len() == s1.len(),
        forall|j: int| 0 <= j < s1.len() ==> (#[trigger] s2[j]).key == s1[j].key && s2[j].buf@
            == offered(s1[j].buf@, it),
    ensures
        entries_map(s2) == broadcast_model(entries_map(s1), it),
    decreases s1.len(),
{
    if s1.len() == 0 {
        assert(entries_map(s2) =~= broadcast_model(entries_map(s1), it));
    } else {
        let front1 = s1.drop_last();
        let front2 = s2.drop_last();
        assert forall|j: int| 0 <= j < front1.len() implies (#[trigger] front2[j]).key == front1[j].key
            && front2[j].buf@ == offered(front1[j].buf@, it) by {
            assert(front2[j] == s2[j] && front1[j] == s1[j]);
        }
        lemma_entries_map_offered(front1, front2, it);
        let last = s1.len() as int - 1;
        assert(s2[last].key == s1[last].key && s2[last].buf@ == offered(s1[last].buf@, it));
        assert(entries_map(s2) =~= broadcast_model(entries_map(s1), it));
    }
}

/// The thread-shared table of live consumers, keyed by consumer identity.
///
/// Its mathematical value is the map from live keys to buffer values.
pub struct Registry {
    entries: Vec<Entry>,
}

impl View for Registry {
    type V = Map<usize, BufferModel>;

    closed spec fn view(&self) -> Map<usize, BufferModel> {
        entries_map(self.entries@)
    }
}

impl Registry {
    /// Keys are unique and every buffer is within its capacity.
    pub closed spec fn wf(&self) -> bool {
        keys_distinct(self.entries@) && forall|j: int|
            0 <= j < self.entries@.len() ==> (#[trigger] self.entries@[j].buf@).wf()
    }

    /// A well-formed registry describes a well-formed table; callers use
    /// this to meet the well-formedness preconditions of the buffer laws.
    pub proof fn lemma_table_wf(&self)
        requires
            self.wf(),
        ensures
            table_wf(self@),
    {
        lemma_entries_map_dom(self.entries@);
        assert forall|k: usize| #[trigger] self@.dom().contains(k) implies self@[k].wf() by {
            let i = choose|i: int| 0 <= i < self.entries@.len() && self.entries@[i].key == k;
            lemma_entries_map_index(self.entries@, i);
        }
    }

    /// A fresh registry with no consumers.
    pub fn new() -> (r: Registry)
        ensures
            r.wf(),
            r@ == Map::<usize, BufferModel>::empty(),
    {
        Registry { entries: Vec::new() }
    }

    /// The index of the entry carrying `key`, if the key is live.
    fn find(&self, key: usize) -> (r: Option<usize>)
        ensures
            match r {
                Some(i) => i < self.entries@.len() && self.entries@[i as int].key == key,
                None => forall|i: int| 0 <= i < self.entries@.len() ==> self.entries@[i].key
                    != key,
            },
    {
        let n = self.entries.len();
        let mut i: usize = 0;
        while i < n
            invariant
                i <= n,
                n == self.entries@.len(),
                forall|j: int| 0 <= j < i ==> self.entries@[j].key != key,
            decreases n - i,
        {
            if self.entries[i].key == key {
                return Some(i);
            }
            i = i + 1;
        }
        None
    }

    /// Whether a consumer is currently registered under `key`.
    pub fn contains(&self, key: usize) -> (b: bool)
        ensures
            b == self@.dom().contains(key),
    {
        proof {
            lemma_entries_map_dom(self.entries@);
        }
        self.find(key).is_some()
    }

    /// Register a consumer under `key` with a fresh buffer of capacity
    /// `cap`. Fails, leaving the table unchanged, exactly when the key is
    /// already live; under monotonic-id keying that never happens, under
    /// fixed-kind keying it reports the duplicate.
    pub fn register(&mut self, key: usize, cap: usize) -> (r: Result<(), Error>)
        requires
            old(self).wf(),
        ensures
            final(self).wf(),
            final(self)@ == register_model(old(self)@, key, cap as nat),
            r == if old(self)@.dom().contains(key) {
                Err::<(), Error>(Error::DuplicateConsumer)
            } else {
                Ok::<(), Error>(())
            },
    {
        proof {
            lemma_entries_map_dom(self.entries@);
        }
        match self.find(key) {
            Some(_) => Err(Error::DuplicateConsumer),
            None => {
                let buf = Buffer::new(cap);
                let ghost s = self.entries@;
                self.entries.push(Entry { key, buf });
                proof {
                    assert(self.entries@.drop_last() =~= s);
                    assert(self@ =~= register_model(entries_map(s), key, cap as nat));
                }
                Ok(())
            },
        }
    }

    /// Remove the consumer registered under `key`, if any. Idempotent: a
    /// key that is not live is silently ignored, and the buffered items of
    /// a removed consumer are discarded.
    pub fn unregister(&mut self, key: usize)
        requires
            old(self).wf(),
        ensures
            final(self).wf(),
            final(self)@ == unregister_model(old(self)@, key),
    {
        match self.find(key) {
            Some(i) => {
                let ghost s = self.entries@;
                self.entries.remove(i);
                proof {
                    lemma_entries_map_remove(s, i as int);
                    assert forall|j1: int, j2: int|
                        0 <= j1 < j2 < self.entries@.len() implies self.entries@[j1].key
                        != self.entries@[j2].key by {
                        let k1 = if j1 < i { j1 } else { j1 + 1 };
                        let k2 = if j2 < i { j2 } else { j2 + 1 };
                        assert(self.entries@[j1] == s[k1] && self.entries@[j2] == s[k2]);
                    }
                }
            },
            None => {
                proof {
                    lemma_entries_map_dom(self.entries@);
                    assert(self@ =~= unregister_model(self@, key));
                }
            },
        }
    }

    /// Offer one item to every live consumer's buffer, cloning it per
    /// consumer; a full buffer drops its copy silently, and no consumer
    /// delays or affects another.
    pub fn broadcast(&mut self, item: &Result<Body, Error>)
        requires
            old(self).wf(),
        ensures
            final(self).wf(),
            final(self)@ == broadcast_model(old(self)@, item_model(*item)),
    {
        let ghost s = self.entries@;
        let n = self.entries.len();
        let mut i: usize = 0;
        while i < n
            invariant
                i <= n,
                n == self.entries@.len(),
                s.len() == n,
                forall|j: int| 0 <= j < i ==> (#[trigger] self.entries@[j]).key == s[j].key
                    && self.entries@[j].buf@ == offered(s[j].buf@, item_model(*item)),
                forall|j: int| i <= j < n ==> self.entries@[j] == s[j],
            decreases n - i,
        {
            let ghost pre = self.entries@;
            let copy = clone_item(item);
            let entry = &mut self.entries[i];
            entry.buf.offer(copy);
            proof {
                assert forall|j: int| 0 <= j < n && j != i implies self.entries@[j] == pre[j] by {
                    assert(self.entries@ == pre.update(i as int, self.entries@[i as int]));
                }
                assert(self.entries@[i as int].key == s[i as int].key);
                assert(self.entries@[i as int].buf@ == offered(
                    s[i as int].buf@,
                    item_model(*item),
                ));
            }
            i = i + 1;
        }
        proof {
            lemma_entries_map_offered(s, self.entries@, item_model(*item));
            assert forall|j1: int, j2: int|
                0 <= j1 < j2 < self.entries@.len() implies self.entries@[j1].key
                != self.entries@[j2].key by {
                assert(self.entries@[j1].key == s[j1].key && self.entries@[j2].key == s[j2].key);
            }
            assert forall|j: int| 0 <= j < self.entries@.len() implies (
            #[trigger] self.entries@[j].buf@).wf() by {
                assert(self.entries@[j].buf@ == offered(s[j].buf@, item_model(*item)));
            }
        }
    }

    /// Offer one item to the consumer registered under `key` alone. A key
    /// that is not live is silently skipped: a send that races with the
    /// consumer's departure is a no-op, never a failure.
    pub fn send_to(&mut self, key: usize, item: Result<Body, Error>)
        requires
            old(self).wf(),
        ensures
            final(self).wf(),
            final(self)@ == send_to_model(old(self)@, key, item_model(item)),
    {
        proof {
            lemma_entries_map_dom(self.entries@);
        }
        match self.find(key) {
            Some(i) => {
                let ghost s = self.entries@;
                proof {
                    lemma_entries_map_index(s, i as int);
                }
                let entry = &mut self.entries[i];
                entry.buf.offer(item);
                proof {
                    lemma_entries_map_update(
                        s,
                        i as int,
                        Entry { key, buf: self.entries[i as int].buf },
                    );
                    assert(self.entries@ =~= s.update(
                        i as int,
                        Entry { key, buf: self.entries[i as int].buf },
                    ));
                }
            },
            None => {},
        }
    }

    /// Hand out the oldest buffered item of the consumer under `key`, if
    /// the key is live and its buffer is not empty.
    pub fn pop(&mut self, key: usize) -> (r: Option<Result<Body, Error>>)
        requires
            old(self).wf(),
        ensures
            final(self).wf(),
            final(self)@ == pop_model(old(self)@, key),
            match r {
                Some(it) => old(self)@.dom().contains(key) && old(self)@[key].items.len() > 0
                    && item_model(it) == old(self)@[key].items[0],
                None => !old(self)@.dom().contains(key) || old(self)@[key].items.len() == 0,
            },
    {
        proof {
            lemma_entries_map_dom(self.entries@);
        }
        match self.find(key) {
            Some(i) => {
                let ghost s = self.entries@;
                proof {
                    lemma_entries_map_index(s, i as int);
                }
                let entry = &mut self.entries[i];
                let r = entry.buf.pop();
                proof {
                    lemma_entries_map_update(
                        s,
                        i as int,
                        Entry { key, buf: self.entries[i as int].buf },
                    );
                    assert(self.entries@ =~= s.update(
                        i as int,
                        Entry { key, buf: self.entries[i as int].buf },
                    ));
                    if r is None {
                        assert(self@ =~= entries_map(s));
                    } else {
                        assert(self@ =~= pop_model(entries_map(s), key));
                    }
                }
                r
            },
            None => None,
        }
    }
}

/// One operation applied to the table over the engine's lifetime.
pub enum TableOp {
    /// A consumer registered under `key` with buffer capacity `cap`.
    Register { key: usize, cap: nat },
    /// The consumer under `key` unregistered.
    Unregister { key: usize },
    /// The driver broadcast `item` to every live consumer.
    Broadcast { item: Result<BodyModel, Error> },
}

impl TableOp {
    /// Whether the operation registers or unregisters `key` itself.
    pub open spec fn touches(self, key: usize) -> bool {
        match self {
            TableOp::Register { key: k, .. } => k == key,
            TableOp::Unregister { key: k } => k == key,
            TableOp::Broadcast { .. } => false,
        }
    }

    /// Whether the operation registers `key` itself.
    pub open spec fn registers(self, key: usize) -> bool {
        match self {
            TableOp::Register { key: k, .. } => k == key,
            _ => false,
        }
    }
}

/// What one operation does to the table.
pub open spec fn apply_op(m: Map<usize, BufferModel>, op: TableOp) -> Map<usize, BufferModel> {
    match op {
        TableOp::Register { key, cap } => register_model(m, key, cap),
        TableOp::Unregister { key } => unregister_model(m, key),
        TableOp::Broadcast { item } => broadcast_model(m, item),
    }
}

/// What a whole run of operations, oldest first, does to the table.
pub open spec fn apply_ops(m: Map<usize, BufferModel>, ops: Seq<TableOp>) -> Map<
    usize,
    BufferModel,
>
    decreases ops.len(),
{
    if ops.len() == 0 {
        m
    } else {
        apply_ops(apply_op(m, ops[0]), ops.drop_first())
    }
}

/// The items broadcast during a run of operations, oldest first.
pub open spec fn broadcast_items(ops: Seq<TableOp>) -> Seq<Result<BodyModel, Error>>
    decreases ops.len(),
{
    if ops.len() == 0 {
        Seq::empty()
    } else {
        match ops[0] {
            TableOp::Broadcast { item } => seq![item] + broadcast_items(ops.drop_first()),
            _ => broadcast_items(ops.drop_first()),
        }
    }
}

/// Law: a key that is not registered, and that no operation of the run
/// registers, is still absent afterwards — no broadcast ever creates or
/// fills an entry for an unregistered key.
pub proof fn lemma_no_delivery_to_unregistered(
    m: Map<usize, BufferModel>,
    ops: Seq<TableOp>,
    key: usize,
)
    requires
        !m.dom().contains(key),
        forall|i: int| 0 <= i < ops.len() ==> !(#[trigger] ops[i]).registers(key),
    ensures
        !apply_ops(m, ops).dom().contains(key),
    decreases ops.len(),
{
    if ops.len() > 0 {
        assert(!ops[0].registers(key));
        lemma_no_delivery_to_unregistered(apply_op(m, ops[0]), ops.drop_first(), key);
    }
}

/// Law (exact fan-out): over any interleaving of registrations,
/// unregistrations and broadcasts, a consumer registered throughout — no
/// operation of the run registers or unregisters its key — stays
/// registered and receives exactly the items broadcast during the run, in
/// order, each appended exactly when its buffer had room.
pub proof fn lemma_fanout_exact(m: Map<usize, BufferModel>, ops: Seq<TableOp>, key: usize)
    requires
        m.dom().contains(key),
        forall|i: int| 0 <= i < ops.len() ==> !(#[trigger] ops[i]).touches(key),
    ensures
        apply_ops(m, ops).dom().contains(key),
        apply_ops(m, ops)[key] == offered_all(m[key], broadcast_items(ops)),
    decreases ops.len(),
{
    if ops.len() > 0 {
        assert(!ops[0].touches(key));
        let m2 = apply_op(m, ops[0]);
        lemma_fanout_exact(m2, ops.drop_first(), key);
        match ops[0] {
            TableOp::Broadcast { item } => {
                let items = broadcast_items(ops);
                assert(items[0] == item);
                assert(items.drop_first() =~= broadcast_items(ops.drop_first()));
                assert(m2[key] == offered(m[key], item));
            },
            _ => {
                assert(m2[key] == m[key]);
                assert(broadcast_items(ops) =~= broadcast_items(ops.drop_first()));
            },
        }
    }
}

/// Runs compose: applying `ops1 + ops2` is applying `ops1`, then `ops2`.
pub proof fn lemma_apply_ops_concat(
    m: Map<usize, BufferModel>,
    ops1: Seq<TableOp>,
    ops2: Seq<TableOp>,
)
    ensures
        apply_ops(m, ops1 + ops2) == apply_ops(apply_ops(m, ops1), ops2),
    decreases ops1.len(),
{
    if ops1.len() == 0 {
        assert(ops1 + ops2 =~= ops2);
    } else {
        assert((ops1 + ops2)[0] == ops1[0]);
        assert((ops1 + ops2).drop_first() =~= ops1.drop_first() + ops2);
        lemma_apply_ops_concat(apply_op(m, ops1[0]), ops1.drop_first(), ops2);
    }
}

/// Law (exact fan-out from registration): a consumer that registers with
/// capacity `cap` partway through a run, under a key that was free and
/// that no later operation registers or unregisters, stays registered and
/// receives exactly the items broadcast after its registration, in order,
/// each appended exactly when its buffer had room.
pub proof fn lemma_fanout_from_registration(
    m: Map<usize, BufferModel>,
    before: Seq<TableOp>,
    key: usize,
    cap: nat,
    after: Seq<TableOp>,
)
    requires
        !apply_ops(m, before).dom().contains(key),
        forall|i: int| 0 <= i < after.len() ==> !(#[trigger] after[i]).touches(key),
    ensures
        apply_ops(m, before + seq![TableOp::Register { key, cap }] + after).dom().contains(key),
        apply_ops(m, before + seq![TableOp::Register { key, cap }] + after)[key] == offered_all(
            BufferModel::empty(cap),
            broadcast_items(after),
        ),
{
    let reg = seq![TableOp::Register { key, cap }];
    let mid = apply_ops(m, before);
    lemma_apply_ops_concat(m, before + reg, after);
    lemma_apply_ops_concat(m, before, reg);
    assert(reg.drop_first() =~= Seq::<TableOp>::empty());
    assert(reg[0] == TableOp::Register { key, cap });
    assert(apply_ops(apply_op(mid, reg[0]), Seq::<TableOp>::empty()) == apply_op(mid, reg[0]));
    assert(apply_ops(mid, reg) == register_model(mid, key, cap));
    lemma_fanout_exact(register_model(mid, key, cap), after, key);
}

/// Law (idempotent unregistration): removing a key twice leaves the same
/// table as removing it once.
pub proof fn lemma_unregister_idempotent(m: Map<usize, BufferModel>, key: usize)
    ensures
        unregister_model(unregister_model(m, key), key) == unregister_model(m, key),
{
    assert(unregister_model(unregister_model(m, key), key) =~= unregister_model(m, key));
}

} // verus!
