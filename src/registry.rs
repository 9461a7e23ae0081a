use crate::error::Error;
use crate::identity::MessageHandle;
use dashmap::DashMap;
use vstd::prelude::*;

verus! {

#[verifier::external_type_specification]
#[verifier::external_body]
#[verifier::reject_recursive_types(K)]
#[verifier::reject_recursive_types(V)]
#[verifier::reject_recursive_types(S)]
pub struct ExDashMap<K, V, S>(DashMap<K, V, S>);

/// What a listener map holds: for each identity, the key of its listener.
pub uninterp spec fn filed_listeners(m: DashMap<MessageHandle, u64>) -> Map<MessageHandle, u64>;

/// Relies on `DashMap::new`: the new map is empty.
#[verifier::external_body]
fn map_new() -> (r: DashMap<MessageHandle, u64>)
    ensures
        forall|k: MessageHandle| !#[trigger] filed_listeners(r).contains_key(k),
{
    DashMap::new()
}

/// Relies on `DashMap::get`: the value stored under `k`, if any.
#[verifier::external_body]
fn map_get(m: &DashMap<MessageHandle, u64>, k: &MessageHandle) -> (r: Option<u64>)
    ensures
        r == (if filed_listeners(*m).contains_key(*k) {
            Some(filed_listeners(*m)[*k])
        } else {
            None::<u64>
        }),
{
    m.get(k).map(|e| *e.value())
}

/// Relies on `DashMap::insert`: stores `v` under `k`, replacing any earlier
/// value, which it returns.
#[verifier::external_body]
fn map_insert(m: &mut DashMap<MessageHandle, u64>, k: MessageHandle, v: u64) -> (r: Option<u64>)
    ensures
        filed_listeners(*final(m)) == filed_listeners(*old(m)).insert(k, v),
        r == (if filed_listeners(*old(m)).contains_key(k) {
            Some(filed_listeners(*old(m))[k])
        } else {
            None::<u64>
        }),
{
    m.insert(k, v)
}

/// Relies on `DashMap::remove`: takes the entry under `k` out, if any, and
/// returns its value.
#[verifier::external_body]
fn map_remove(m: &mut DashMap<MessageHandle, u64>, k: &MessageHandle) -> (r: Option<u64>)
    ensures
        filed_listeners(*final(m)) == filed_listeners(*old(m)).remove(*k),
        r == (if filed_listeners(*old(m)).contains_key(*k) {
            Some(filed_listeners(*old(m))[*k])
        } else {
            None::<u64>
        }),
{
    m.remove(k).map(|(_, v)| v)
}

/// Relies on `DashMap::iter`: every entry once, in an unspecified order.
#[verifier::external_body]
fn map_entries(m: &DashMap<MessageHandle, u64>) -> (r: Vec<(MessageHandle, u64)>)
    ensures
        forall|i: int|
            0 <= i < r@.len() ==> #[trigger] filed_listeners(*m).contains_key(r@[i].0)
                && filed_listeners(*m)[r@[i].0] == r@[i].1,
        forall|i: int, j: int| 0 <= i < j < r@.len() ==> r@[i].0 != r@[j].0,
        forall|k: MessageHandle|
            #[trigger] filed_listeners(*m).contains_key(k) ==> exists|i: int|
                0 <= i < r@.len() && r@[i].0 == k,
{
    m.iter().map(|e| (*e.key(), *e.value())).collect()
}

} // verus!

verus! {

/// The registry of live listeners: maps the identity of a message to the key
/// of the listener attached to it. Keys are handed out by the registry, once
/// each, so no two identities share a listener.
pub struct EventDrivenMessageContainer {
    entries: DashMap<MessageHandle, u64>,
    next_key: u64,
}

/// One structural operation on the registry.
pub enum RegistryOp {
    /// File a listener key under an identity, unless one is filed there.
    Insert(MessageHandle, u64),
    /// Take out whatever is filed under an identity.
    Remove(MessageHandle),
    /// Move the entry from the first identity to the second.
    Rekey(MessageHandle, MessageHandle),
}

/// The registry's contents after one operation, failures included: an insert
/// at an occupied identity, and a rekey from an empty identity or onto
/// another occupied one, change nothing.
pub open spec fn apply_op(m: Map<MessageHandle, u64>, op: RegistryOp) -> Map<MessageHandle, u64> {
    match op {
        RegistryOp::Insert(k, v) => if m.contains_key(k) {
            m
        } else {
            m.insert(k, v)
        },
        RegistryOp::Remove(k) => m.remove(k),
        RegistryOp::Rekey(a, b) => if !m.contains_key(a) || (a != b && m.contains_key(b)) {
            m
        } else {
            m.remove(a).insert(b, m[a])
        },
    }
}

/// The registry's contents after a sequence of operations, in order.
pub open spec fn apply_ops(m: Map<MessageHandle, u64>, ops: Seq<RegistryOp>) -> Map<
    MessageHandle,
    u64,
>
    decreases ops.len(),
{
    if ops.len() == 0 {
        m
    } else {
        apply_op(apply_ops(m, ops.drop_last()), ops.last())
    }
}

/// Whether an operation names the identity `k`.
pub open spec fn touches(op: RegistryOp, k: MessageHandle) -> bool {
    match op {
        RegistryOp::Insert(a, _) => a == k,
        RegistryOp::Remove(a) => a == k,
        RegistryOp::Rekey(a, b) => a == k || b == k,
    }
}

/// The registry's contents and the keys taken out, when the identities of
/// `ids` are removed one after the other.
pub open spec fn drain(m: Map<MessageHandle, u64>, ids: Seq<MessageHandle>) -> (Map<
    MessageHandle,
    u64,
>, Seq<u64>)
    decreases ids.len(),
{
    if ids.len() == 0 {
        (m, Seq::empty())
    } else {
        let (rest, taken) = drain(m, ids.drop_last());
        let k = ids.last();
        if rest.contains_key(k) {
            (rest.remove(k), taken.push(rest[k]))
        } else {
            (rest, taken)
        }
    }
}

impl View for EventDrivenMessageContainer {
    type V = Map<MessageHandle, u64>;

    closed spec fn view(&self) -> Map<MessageHandle, u64> {
        filed_listeners(self.entries)
    }
}

impl EventDrivenMessageContainer {
    /// The number of listener keys handed out so far.
    pub closed spec fn issued(&self) -> nat {
        self.next_key as nat
    }

    /// Every filed key was handed out, and no key is filed twice.
    pub closed spec fn wf(&self) -> bool {
        &&& forall|k: MessageHandle| #[trigger]
            self@.contains_key(k) ==> self@[k] < self.next_key
        &&& forall|a: MessageHandle, b: MessageHandle|
            #![trigger self@[a], self@[b]]
            self@.contains_key(a) && self@.contains_key(b) && a != b ==> self@[a] != self@[b]
    }

    /// An empty registry.
    pub fn new() -> (r: EventDrivenMessageContainer)
        ensures
            r.wf(),
            r@ == Map::<MessageHandle, u64>::empty(),
            r.issued() == 0,
    {
        let r = EventDrivenMessageContainer { entries: map_new(), next_key: 0 };
        assert(r@ =~= Map::<MessageHandle, u64>::empty());
        r
    }

    /// Files a new listener under `identity` and returns its fresh key. Fails
    /// if a listener is filed there already: it is never replaced.
    pub fn insert(&mut self, identity: MessageHandle) -> (r: Result<u64, Error>)
        requires
            old(self).wf(),
        ensures
            final(self).wf(),
            old(self)@.contains_key(identity) ==> r == Err::<u64, Error>(
                Error::AlreadyRegistered(identity),
            ),
            !old(self)@.contains_key(identity) && old(self).issued() == u64::MAX ==> r == Err::<
                u64,
                Error,
            >(Error::KeysExhausted),
            r is Ok <==> !old(self)@.contains_key(identity) && old(self).issued() < u64::MAX,
            r is Ok ==> final(self)@ == old(self)@.insert(identity, r->Ok_0)
                && r->Ok_0 == old(self).issued()
                && final(self).issued() == old(self).issued() + 1
                && (forall|k: MessageHandle| #[trigger]
                old(self)@.contains_key(k) ==> old(self)@[k] != r->Ok_0),
            r is Err ==> final(self)@ == old(self)@ && final(self).issued() == old(self).issued(),
            r is Ok || old(self)@.contains_key(identity) ==> final(self)@ == apply_op(
                old(self)@,
                RegistryOp::Insert(identity, old(self).issued() as u64),
            ),
    {
        if map_get(&self.entries, &identity).is_some() {
            return Err(Error::AlreadyRegistered(identity));
        }
        if self.next_key == u64::MAX {
            return Err(Error::KeysExhausted);
        }
        let key = self.next_key;
        map_insert(&mut self.entries, identity, key);
        self.next_key = key + 1;
        assert(forall|k: MessageHandle| #[trigger]
            old(self)@.contains_key(k) ==> old(self)@[k] != key);
        Ok(key)
    }

    /// The key of the listener filed under `identity`, if any. Takes no lock
    /// of the listener.
    pub fn get(&self, identity: &MessageHandle) -> (r: Option<u64>)
        requires
            self.wf(),
        ensures
            r == (if self@.contains_key(*identity) {
                Some(self@[*identity])
            } else {
                None::<u64>
            }),
    {
        map_get(&self.entries, identity)
    }

    /// Takes the entry under `identity` out of the registry and returns its
    /// key, if there was one.
    pub fn remove(&mut self, identity: &MessageHandle) -> (r: Option<u64>)
        requires
            old(self).wf(),
        ensures
            final(self).wf(),
            final(self)@ == apply_op(old(self)@, RegistryOp::Remove(*identity)),
            final(self).issued() == old(self).issued(),
            r == (if old(self)@.contains_key(*identity) {
                Some(old(self)@[*identity])
            } else {
                None::<u64>
            }),
    {
        let r = map_remove(&mut self.entries, identity);
        proof {
            let m = old(self)@;
            assert forall|a: MessageHandle, b: MessageHandle|
                #![trigger self@[a], self@[b]]
                self@.contains_key(a) && self@.contains_key(b) && a != b implies self@[a]
                    != self@[b] by {
                assert(m.contains_key(a) && m.contains_key(b));
            }
        }
        r
    }

    /// Moves the entry filed under `from` to `to` and returns its key. Fails
    /// if nothing is filed under `from`, which means that an entry was lost,
    /// or if another listener is filed under `to`.
    pub fn rekey(&mut self, from: MessageHandle, to: MessageHandle) -> (r: Result<u64, Error>)
        requires
            old(self).wf(),
        ensures
            final(self).wf(),
            final(self)@ == apply_op(old(self)@, RegistryOp::Rekey(from, to)),
            final(self).issued() == old(self).issued(),
            !old(self)@.contains_key(from) ==> r == Err::<u64, Error>(Error::EntryMissing(from)),
            old(self)@.contains_key(from) && from != to && old(self)@.contains_key(to) ==> r
                == Err::<u64, Error>(Error::AlreadyRegistered(to)),
            r is Ok <==> old(self)@.contains_key(from) && (from == to
                || !old(self)@.contains_key(to)),
            r is Ok ==> r->Ok_0 == old(self)@[from],
    {
        let key = match map_get(&self.entries, &from) {
            Some(k) => k,
            None => {
                return Err(Error::EntryMissing(from));
            },
        };
        if from != to && map_get(&self.entries, &to).is_some() {
            return Err(Error::AlreadyRegistered(to));
        }
        map_remove(&mut self.entries, &from);
        map_insert(&mut self.entries, to, key);
        proof {
            let m = old(self)@;
            let n = m.remove(from).insert(to, key);
            assert(self@ == n);
            assert forall|a: MessageHandle, b: MessageHandle|
                #![trigger n[a], n[b]]
                n.contains_key(a) && n.contains_key(b) && a != b implies n[a] != n[b] by {
                if a == to {
                    assert(m.contains_key(b) && b != from);
                } else if b == to {
                    assert(m.contains_key(a) && a != from);
                } else {
                    assert(m.contains_key(a) && m.contains_key(b));
                }
            }
        }
        Ok(key)
    }

    /// Every entry of the registry, each once, in no particular order: the
    /// pass over it can then run without holding the registry.
    pub fn snapshot(&self) -> (r: Vec<(MessageHandle, u64)>)
        requires
            self.wf(),
        ensures
            forall|i: int|
                0 <= i < r@.len() ==> #[trigger] self@.contains_key(r@[i].0) && self@[r@[i].0]
                    == r@[i].1,
            forall|i: int, j: int| 0 <= i < j < r@.len() ==> r@[i].0 != r@[j].0,
            forall|k: MessageHandle| #[trigger]
                self@.contains_key(k) ==> exists|i: int| 0 <= i < r@.len() && r@[i].0 == k,
    {
        map_entries(&self.entries)
    }

    /// Removes the identities of `ids` one after the other and returns the
    /// keys that were filed under them, in that order.
    pub fn remove_all(&mut self, ids: &Vec<MessageHandle>) -> (r: Vec<u64>)
        requires
            old(self).wf(),
        ensures
            final(self).wf(),
            final(self).issued() == old(self).issued(),
            (final(self)@, r@) == drain(old(self)@, ids@),
            forall|k: MessageHandle| #[trigger]
                final(self)@.contains_key(k) <==> old(self)@.contains_key(k) && !ids@.contains(k),
            forall|k: MessageHandle| #[trigger]
                final(self)@.contains_key(k) ==> final(self)@[k] == old(self)@[k],
    {
        let mut taken: Vec<u64> = Vec::new();
        let mut i: usize = 0;
        while i < ids.len()
            invariant
                0 <= i <= ids@.len(),
                self.wf(),
                self.issued() == old(self).issued(),
                (self@, taken@) == drain(old(self)@, ids@.subrange(0, i as int)),
                forall|k: MessageHandle| #[trigger]
                    self@.contains_key(k) <==> old(self)@.contains_key(k) && (forall|j: int|
                        0 <= j < i ==> ids@[j] != k),
                forall|k: MessageHandle| #[trigger]
                    self@.contains_key(k) ==> self@[k] == old(self)@[k],
            decreases ids@.len() - i,
        {
            let id = ids[i];
            assert(ids@.subrange(0, i as int + 1).drop_last() == ids@.subrange(0, i as int));
            assert(ids@.subrange(0, i as int + 1).last() == id);
            if let Some(key) = self.remove(&id) {
                taken.push(key);
            }
            i = i + 1;
        }
        assert(ids@.subrange(0, ids@.len() as int) == ids@);
        assert forall|k: MessageHandle| #[trigger]
            self@.contains_key(k) <==> old(self)@.contains_key(k) && !ids@.contains(k) by {
            if ids@.contains(k) {
                let j = choose|j: int| 0 <= j < ids@.len() && #[trigger] ids@[j] == k;
                assert(ids@[j] == k);
            }
        }
        taken
    }
}

} // verus!

verus! {

/// An operation that does not name `k` leaves the entry under `k` as it was.
proof fn lemma_op_keeps_other_entries(m: Map<MessageHandle, u64>, op: RegistryOp, k: MessageHandle)
    requires
        !touches(op, k),
    ensures
        apply_op(m, op).contains_key(k) == m.contains_key(k),
        m.contains_key(k) ==> apply_op(m, op)[k] == m[k],
{
}

/// Operations on other identities, in any order, never lose nor change the
/// entry filed under `k`, nor bring one back there.
pub proof fn lemma_untouched_entry_kept(
    m: Map<MessageHandle, u64>,
    ops: Seq<RegistryOp>,
    k: MessageHandle,
)
    requires
        forall|i: int| 0 <= i < ops.len() ==> !touches(#[trigger] ops[i], k),
    ensures
        apply_ops(m, ops).contains_key(k) == m.contains_key(k),
        m.contains_key(k) ==> apply_ops(m, ops)[k] == m[k],
    decreases ops.len(),
{
    if ops.len() > 0 {
        let rest = ops.drop_last();
        assert forall|i: int| 0 <= i < rest.len() implies !touches(#[trigger] rest[i], k) by {
            assert(rest[i] == ops[i]);
        }
        lemma_untouched_entry_kept(m, rest, k);
        assert(!touches(ops[ops.len() - 1], k));
        lemma_op_keeps_other_entries(apply_ops(m, rest), ops.last(), k);
    }
}

/// Once the entry under `k` has been removed, a lookup of `k` finds nothing
/// for as long as no later operation names `k`.
pub proof fn lemma_removed_entry_stays_absent(
    m: Map<MessageHandle, u64>,
    ops: Seq<RegistryOp>,
    i: int,
    k: MessageHandle,
)
    requires
        0 <= i < ops.len(),
        ops[i] == RegistryOp::Remove(k),
        forall|j: int| i < j < ops.len() ==> !touches(#[trigger] ops[j], k),
    ensures
        !apply_ops(m, ops).contains_key(k),
    decreases ops.len(),
{
    let rest = ops.drop_last();
    if i < ops.len() - 1 {
        assert(rest[i] == ops[i]);
        assert forall|j: int| i < j < rest.len() implies !touches(#[trigger] rest[j], k) by {
            assert(rest[j] == ops[j]);
        }
        lemma_removed_entry_stays_absent(m, rest, i, k);
        assert(!touches(ops[ops.len() - 1], k));
        lemma_op_keeps_other_entries(apply_ops(m, rest), ops.last(), k);
    }
}

/// Moving an entry to a free identity: the new identity then holds the key
/// that the old one held, and the old identity holds nothing.
pub proof fn lemma_rekey_then_get(m: Map<MessageHandle, u64>, from: MessageHandle, to: MessageHandle)
    requires
        m.contains_key(from),
        !m.contains_key(to),
    ensures
        apply_op(m, RegistryOp::Rekey(from, to)).contains_key(to),
        apply_op(m, RegistryOp::Rekey(from, to))[to] == m[from],
        !apply_op(m, RegistryOp::Rekey(from, to)).contains_key(from),
{
}

} // verus!

verus! {

/// Removing the identities of `ids` in turn leaves exactly the entries whose
/// identity `ids` does not name, each with its value.
pub proof fn lemma_drain_keeps(m: Map<MessageHandle, u64>, ids: Seq<MessageHandle>, k: MessageHandle)
    ensures
        drain(m, ids).0.contains_key(k) <==> m.contains_key(k) && !ids.contains(k),
        drain(m, ids).0.contains_key(k) ==> drain(m, ids).0[k] == m[k],
    decreases ids.len(),
{
    if ids.len() > 0 {
        let rest = ids.drop_last();
        lemma_drain_keeps(m, rest, k);
        if ids.contains(k) && k != ids.last() {
            let j = choose|j: int| 0 <= j < ids.len() && ids[j] == k;
            assert(rest[j] == k);
        }
        if rest.contains(k) {
            let j = choose|j: int| 0 <= j < rest.len() && rest[j] == k;
            assert(ids[j] == k);
        }
        if k == ids.last() {
            assert(ids[ids.len() - 1] == k);
        }
    }
}

} // verus!
