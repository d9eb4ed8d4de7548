//! The subscribers of the shared OS runtime: one channel per watcher, keyed
//! by the id that the runtime handed out when the watcher subscribed.

use vstd::prelude::*;

use crate::channel::{channel_send, Offer, UnboundedSender};
use crate::event::PowerEvent;

verus! {

/// One watcher's channel, under the id it subscribed with.
pub struct Subscriber {
    pub id: u64,
    pub tx: UnboundedSender,
}

/// The channels that the shared runtime delivers to, and the id that the
/// next subscriber gets.
///
/// The channels are held in delivery order, in a `Vec` whose ids are kept
/// distinct ([`Subscribers::wf`]), so that a send goes through them in a
/// stated order and the failed ones are dropped in place. A `HashMap` would
/// drop them through `retain`, of which vstd states nothing, in an order that
/// its per-process seeded hasher decides.
pub struct Subscribers {
    entries: Vec<Subscriber>,
    next_id: u64,
}

/// Some entry has the id.
pub open spec fn has_id(entries: Seq<Subscriber>, id: u64) -> bool {
    exists|i: int| 0 <= i < entries.len() && entries[i].id == id
}

/// The position of an entry with the id.
pub open spec fn position(entries: Seq<Subscriber>, id: u64) -> int {
    choose|i: int| 0 <= i < entries.len() && entries[i].id == id
}

/// No two entries share an id.
pub open spec fn distinct_ids(entries: Seq<Subscriber>) -> bool {
    forall|i: int, j: int|
        0 <= i < entries.len() && 0 <= j < entries.len() && i != j ==> entries[i].id
            != entries[j].id
}

/// The entries as a map from id to channel.
pub open spec fn sender_map(entries: Seq<Subscriber>) -> Map<u64, UnboundedSender> {
    Map::new(|id: u64| has_id(entries, id), |id: u64| entries[position(entries, id)].tx)
}

/// Every id in use lies in `1..next`.
pub open spec fn ids_in_range(entries: Seq<Subscriber>, next: u64) -> bool {
    &&& next >= 1
    &&& forall|i: int| 0 <= i < entries.len() ==> 1 <= #[trigger] entries[i].id < next
}

/// While ids lie below the next one, the next id is free, so adding under
/// it appends a new entry rather than replacing one.
pub proof fn lemma_next_id_is_free(entries: Seq<Subscriber>, next: u64, tx: UnboundedSender)
    requires
        ids_in_range(entries, next),
    ensures
        !has_id(entries, next),
        inserted(entries, Subscriber { id: next, tx }) == entries.push(Subscriber { id: next, tx }),
{
    if has_id(entries, next) {
        let i = position(entries, next);
        assert(entries[i].id < next);
    }
}

/// The id that follows `id`, wrapping at the top as an atomic counter does.
pub open spec fn following_id(id: u64) -> u64 {
    if id == u64::MAX {
        0
    } else {
        (id + 1) as u64
    }
}

/// The last send recorded on the subscriber's channel was queued.
pub open spec fn last_delivered(sub: Subscriber) -> bool {
    sub.tx.offers().last().delivered
}

/// What the last send on each channel gave back, in order.
pub open spec fn outcomes(entries: Seq<Subscriber>) -> Seq<bool> {
    Seq::new(entries.len(), |i: int| last_delivered(entries[i]))
}

/// `after` is `before` with the event sent once on every channel, in order:
/// the same ids and channels, and each channel's record of sends grown by
/// exactly one send, of the event.
pub open spec fn sent_to_each(before: Seq<Subscriber>, after: Seq<Subscriber>, event: PowerEvent) -> bool {
    &&& after.len() == before.len()
    &&& forall|i: int|
        #![trigger after[i]]
        0 <= i < before.len() ==> {
            &&& after[i].id == before[i].id
            &&& after[i].tx.channel() == before[i].tx.channel()
            &&& after[i].tx.offers() == before[i].tx.offers().push(
                Offer { event, delivered: last_delivered(after[i]) },
            )
        }
}

/// The entries whose send succeeded, in their order.
pub open spec fn kept(entries: Seq<Subscriber>, delivered: Seq<bool>) -> Seq<Subscriber>
    decreases entries.len(),
{
    if entries.len() == 0 {
        Seq::empty()
    } else {
        let rest = kept(entries.drop_first(), delivered.drop_first());
        if delivered[0] {
            seq![entries[0]] + rest
        } else {
            rest
        }
    }
}

/// The entries after a subscriber with `id` is added: the entry with that id
/// is replaced where there is one, else the new entry goes last.
pub open spec fn inserted(entries: Seq<Subscriber>, sub: Subscriber) -> Seq<Subscriber> {
    if has_id(entries, sub.id) {
        entries.update(position(entries, sub.id), sub)
    } else {
        entries.push(sub)
    }
}

/// The entries after the subscriber with `id` is removed.
pub open spec fn removed(entries: Seq<Subscriber>, id: u64) -> Seq<Subscriber> {
    if has_id(entries, id) {
        entries.remove(position(entries, id))
    } else {
        entries
    }
}

/// In entries with distinct ids, the position of an entry's id is its index.
pub proof fn lemma_position_of_index(entries: Seq<Subscriber>, i: int)
    requires
        distinct_ids(entries),
        0 <= i < entries.len(),
    ensures
        has_id(entries, entries[i].id),
        position(entries, entries[i].id) == i,
{
    assert(entries[i].id == entries[i].id);
}

/// Every kept entry is one of the entries, and the kept entries keep their
/// ids distinct.
proof fn lemma_kept_members(entries: Seq<Subscriber>, delivered: Seq<bool>)
    requires
        delivered.len() == entries.len(),
    ensures
        forall|x: Subscriber| kept(entries, delivered).contains(x) ==> entries.contains(x),
        kept(entries, delivered).len() <= entries.len(),
        distinct_ids(entries) ==> distinct_ids(kept(entries, delivered)),
    decreases entries.len(),
{
    if entries.len() > 0 {
        let rest = entries.drop_first();
        lemma_kept_members(rest, delivered.drop_first());
        let kr = kept(rest, delivered.drop_first());
        assert forall|x: Subscriber| kept(entries, delivered).contains(x) implies entries.contains(
            x,
        ) by {
            if delivered[0] {
                assert(kept(entries, delivered) =~= seq![entries[0]] + kr);
                let k = choose|k: int| 0 <= k < kept(entries, delivered).len() && kept(entries, delivered)[k] == x;
                if k > 0 {
                    assert(kr[k - 1] == x);
                    assert(kr.contains(x));
                    assert(rest.contains(x));
                    let m = choose|m: int| 0 <= m < rest.len() && rest[m] == x;
                    assert(entries[m + 1] == x);
                } else {
                    assert(entries[0] == x);
                }
            } else {
                assert(kept(entries, delivered) == kr);
                assert(kr.contains(x));
                assert(rest.contains(x));
                let m = choose|m: int| 0 <= m < rest.len() && rest[m] == x;
                assert(entries[m + 1] == x);
            }
        }
        if distinct_ids(entries) {
            assert(distinct_ids(rest)) by {
                assert forall|i: int, j: int|
                    0 <= i < rest.len() && 0 <= j < rest.len() && i != j implies rest[i].id
                    != rest[j].id by {
                    assert(rest[i] == entries[i + 1]);
                    assert(rest[j] == entries[j + 1]);
                }
            }
            if delivered[0] {
                let k = kept(entries, delivered);
                assert(k =~= seq![entries[0]] + kr);
                assert forall|i: int, j: int|
                    0 <= i < k.len() && 0 <= j < k.len() && i != j implies k[i].id
                    != k[j].id by {
                    if i > 0 && j > 0 {
                        assert(k[i] == kr[i - 1]);
                        assert(k[j] == kr[j - 1]);
                    } else if i == 0 {
                        assert(k[j] == kr[j - 1]);
                        assert(kr.contains(k[j]));
                        assert(rest.contains(k[j]));
                        let m = choose|m: int| 0 <= m < rest.len() && rest[m] == k[j];
                        assert(entries[m + 1] == k[j]);
                    } else {
                        assert(k[i] == kr[i - 1]);
                        assert(kr.contains(k[i]));
                        assert(rest.contains(k[i]));
                        let m = choose|m: int| 0 <= m < rest.len() && rest[m] == k[i];
                        assert(entries[m + 1] == k[i]);
                    }
                }
            }
        }
    }
}

/// Adding a subscriber keeps ids distinct, maps its id to its channel and
/// leaves every other entry as it was.
pub proof fn lemma_inserted(before: Seq<Subscriber>, sub: Subscriber)
    requires
        distinct_ids(before),
    ensures
        distinct_ids(inserted(before, sub)),
        sender_map(inserted(before, sub)) == sender_map(before).insert(sub.id, sub.tx),
        forall|x: Subscriber| inserted(before, sub).contains(x) ==> before.contains(x) || x == sub,
{
    let after = inserted(before, sub);
    let id = sub.id;
    let tx = sub.tx;
    if has_id(before, id) {
        assert(after =~= before.update(position(before, id), sub));
    } else {
        assert(after =~= before.push(sub));
    }
    assert forall|x: Subscriber| after.contains(x) implies before.contains(x) || x == sub by {
        let q = choose|q: int| 0 <= q < after.len() && after[q] == x;
        if has_id(before, id) {
            if q != position(before, id) {
                assert(before[q] == x);
            }
        } else if q < before.len() {
            assert(before[q] == x);
        }
    }
    assert(distinct_ids(after)) by {
        assert forall|a: int, b: int|
            0 <= a < after.len() && 0 <= b < after.len() && a != b implies after[a].id
            != after[b].id by {
            if has_id(before, id) {
                let p = position(before, id);
                if a != p && b != p {
                    assert(after[a] == before[a] && after[b] == before[b]);
                } else if a == p {
                    assert(after[b] == before[b]);
                    assert(before[p].id == id);
                } else {
                    assert(after[a] == before[a]);
                    assert(before[p].id == id);
                }
            } else {
                if a < before.len() && b < before.len() {
                    assert(after[a] == before[a] && after[b] == before[b]);
                } else if a < before.len() {
                    assert(after[a] == before[a]);
                } else {
                    assert(after[b] == before[b]);
                }
            }
        }
    }
    assert(sender_map(after) =~= sender_map(before).insert(id, tx)) by {
        assert forall|k: u64| #[trigger] has_id(after, k) == (has_id(before, k) || k == id) by {
            if has_id(before, id) {
                let p = position(before, id);
                if has_id(before, k) {
                    let q = position(before, k);
                    if q == p {
                        assert(after[p].id == k);
                    } else {
                        assert(after[q] == before[q]);
                    }
                }
                if k == id {
                    assert(after[p].id == k);
                }
                if has_id(after, k) {
                    let q = position(after, k);
                    if q != p {
                        assert(after[q] == before[q]);
                    }
                }
            } else {
                if has_id(before, k) {
                    let q = position(before, k);
                    assert(after[q] == before[q]);
                }
                if k == id {
                    assert(after[before.len() as int].id == k);
                }
                if has_id(after, k) {
                    let q = position(after, k);
                    if q < before.len() {
                        assert(after[q] == before[q]);
                    }
                }
            }
        }
        assert forall|k: u64| #[trigger]
            sender_map(after).dom().contains(k) implies sender_map(after)[k] == sender_map(
            before,
        ).insert(id, tx)[k] by {
            let q = position(after, k);
            lemma_position_of_index(after, q);
            if k == id {
            } else {
                if has_id(before, id) {
                    let p = position(before, id);
                    assert(q != p);
                    assert(after[q] == before[q]);
                } else {
                    assert(q < before.len());
                    assert(after[q] == before[q]);
                }
                lemma_position_of_index(before, q);
            }
        }
    }
}

/// Removing a subscriber keeps ids distinct, drops its id from the map and
/// leaves every other entry as it was.
pub proof fn lemma_removed(before: Seq<Subscriber>, id: u64)
    requires
        distinct_ids(before),
    ensures
        distinct_ids(removed(before, id)),
        sender_map(removed(before, id)) == sender_map(before).remove(id),
        forall|x: Subscriber| removed(before, id).contains(x) ==> before.contains(x),
{
    let after = removed(before, id);
    if has_id(before, id) {
        assert(after =~= before.remove(position(before, id)));
    }
    assert(forall|q: int| 0 <= q < after.len() ==> before.contains(#[trigger] after[q])) by {
        assert forall|q: int| 0 <= q < after.len() implies before.contains(#[trigger] after[q]) by {
            if has_id(before, id) {
                let p = position(before, id);
                if q < p {
                    assert(before[q] == after[q]);
                } else {
                    assert(before[q + 1] == after[q]);
                }
            } else {
                assert(before[q] == after[q]);
            }
        }
    }
    assert(distinct_ids(after)) by {
        if has_id(before, id) {
            let p = position(before, id);
            assert forall|a: int, b: int|
                0 <= a < after.len() && 0 <= b < after.len() && a != b implies after[a].id
                != after[b].id by {
                let a0 = if a < p { a } else { a + 1 };
                let b0 = if b < p { b } else { b + 1 };
                assert(after[a] == before[a0]);
                assert(after[b] == before[b0]);
            }
        }
    }
    assert(sender_map(after) =~= sender_map(before).remove(id)) by {
        if has_id(before, id) {
            let p = position(before, id);
            assert forall|k: u64| #[trigger] has_id(after, k) == (has_id(before, k) && k != id) by {
                if has_id(after, k) {
                    let q = position(after, k);
                    let q0 = if q < p { q } else { q + 1 };
                    assert(after[q] == before[q0]);
                    assert(before[p].id == id);
                }
                if has_id(before, k) && k != id {
                    let q0 = position(before, k);
                    let q = if q0 < p { q0 } else { q0 - 1 };
                    assert(after[q] == before[q0]);
                }
            }
            assert forall|k: u64| #[trigger]
                sender_map(after).dom().contains(k) implies sender_map(after)[k]
                == sender_map(before).remove(id)[k] by {
                let q = position(after, k);
                lemma_position_of_index(after, q);
                let q0 = if q < p { q } else { q + 1 };
                assert(after[q] == before[q0]);
                lemma_position_of_index(before, q0);
            }
        } else {
            assert(after =~= before);
        }
    }
    assert forall|x: Subscriber| after.contains(x) implies before.contains(x) by {
        let q = choose|q: int| 0 <= q < after.len() && after[q] == x;
        assert(before.contains(after[q]));
    }
}

impl Subscribers {
    /// No two subscribers share an id.
    #[verifier::type_invariant]
    spec fn inv(&self) -> bool {
        distinct_ids(self.entries@)
    }

    /// The subscribers, in the order they are delivered to.
    pub closed spec fn entries(&self) -> Seq<Subscriber> {
        self.entries@
    }

    /// The id that the next subscriber gets.
    pub closed spec fn next_id(&self) -> u64 {
        self.next_id
    }

    /// Each id stands for one channel. Every value of this type has it; each
    /// operation states it of its result.
    pub open spec fn wf(&self) -> bool {
        distinct_ids(self.entries())
    }

    /// The subscribers as a map from id to channel.
    pub open spec fn senders(&self) -> Map<u64, UnboundedSender> {
        sender_map(self.entries())
    }

    /// Every id in use lies in `1..next_id`: ids count up from 1 and the
    /// counter has not wrapped, so the next id is free.
    pub open spec fn ids_in_range(&self) -> bool {
        ids_in_range(self.entries(), self.next_id())
    }

    /// No subscribers yet; the first id is 1.
    pub fn new() -> (s: Self)
        ensures
            s.wf(),
            s.entries() == Seq::<Subscriber>::empty(),
            s.senders() == Map::<u64, UnboundedSender>::empty(),
            s.next_id() == 1,
            s.ids_in_range(),
    {
        let s = Subscribers { entries: Vec::new(), next_id: 1 };
        assert(s.senders() =~= Map::<u64, UnboundedSender>::empty());
        s
    }

    /// The number of subscribers.
    pub fn len(&self) -> (n: usize)
        ensures
            n == self.entries().len(),
    {
        self.entries.len()
    }

    /// The id that the next subscriber gets.
    pub fn upcoming_id(&self) -> (id: u64)
        ensures
            id == self.next_id(),
    {
        self.next_id
    }

    /// The ids of the subscribers, in the order they are delivered to.
    pub fn ids(&self) -> (ids: Vec<u64>)
        ensures
            ids@.len() == self.entries().len(),
            forall|i: int| 0 <= i < ids@.len() ==> ids@[i] == self.entries()[i].id,
    {
        let mut ids: Vec<u64> = Vec::new();
        let mut i: usize = 0;
        while i < self.entries.len()
            invariant
                i <= self.entries@.len(),
                ids@.len() == i,
                forall|k: int| 0 <= k < i ==> ids@[k] == self.entries@[k].id,
            decreases self.entries@.len() - i,
        {
            ids.push(self.entries[i].id);
            i = i + 1;
        }
        ids
    }

    /// The position of the subscriber with the id, if there is one.
    fn find(&self, id: u64) -> (pos: Option<usize>)
        ensures
            match pos {
                Some(i) => i < self.entries().len() && self.entries()[i as int].id == id
                    && has_id(self.entries(), id) && position(self.entries(), id) == i,
                None => !has_id(self.entries(), id),
            },
    {
        proof {
            use_type_invariant(self);
        }
        let mut i: usize = 0;
        while i < self.entries.len()
            invariant
                i <= self.entries@.len(),
                distinct_ids(self.entries@),
                forall|k: int| 0 <= k < i ==> self.entries@[k].id != id,
            decreases self.entries@.len() - i,
        {
            if self.entries[i].id == id {
                proof {
                    lemma_position_of_index(self.entries@, i as int);
                }
                return Some(i);
            }
            i = i + 1;
        }
        None
    }

    /// Adds a channel under the next id and returns that id; the counter
    /// moves on, wrapping at the top. An entry that already has the id (only
    /// after the counter wrapped) is replaced.
    pub fn add_sender(&mut self, tx: UnboundedSender) -> (id: u64)
        ensures
            id == old(self).next_id(),
            final(self).next_id() == following_id(old(self).next_id()),
            final(self).entries() == inserted(old(self).entries(), Subscriber { id, tx }),
            final(self).senders() == old(self).senders().insert(id, tx),
            old(self).ids_in_range() ==> final(self).entries() == old(self).entries().push(
                Subscriber { id, tx },
            ),
            final(self).wf(),
            old(self).ids_in_range() && old(self).next_id() < u64::MAX
                ==> final(self).ids_in_range(),
    {
        proof {
            use_type_invariant(&*self);
        }
        let id = self.next_id;
        self.next_id = if self.next_id == u64::MAX {
            0
        } else {
            self.next_id + 1
        };
        let ghost before = self.entries@;
        let sub = Subscriber { id, tx };
        proof {
            lemma_inserted(before, sub);
            if ids_in_range(before, id) {
                lemma_next_id_is_free(before, id, tx);
            }
        }
        let pos = self.find(id);
        let mut entries: Vec<Subscriber> = Vec::new();
        std::mem::swap(&mut entries, &mut self.entries);
        match pos {
            Some(i) => {
                assert(before.update(i as int, sub) == inserted(before, sub));
                entries.set(i, sub);
            },
            None => {
                assert(before.push(sub) == inserted(before, sub));
                entries.push(sub);
            },
        }
        self.entries = entries;
        id
    }

    /// Removes the channel with the id, if there is one.
    pub fn remove_sender(&mut self, id: u64)
        ensures
            final(self).next_id() == old(self).next_id(),
            final(self).entries() == removed(old(self).entries(), id),
            final(self).senders() == old(self).senders().remove(id),
            final(self).wf(),
            old(self).ids_in_range() ==> final(self).ids_in_range(),
    {
        proof {
            use_type_invariant(&*self);
        }
        let ghost before = self.entries@;
        proof {
            lemma_removed(before, id);
        }
        let pos = self.find(id);
        let mut entries: Vec<Subscriber> = Vec::new();
        std::mem::swap(&mut entries, &mut self.entries);
        match pos {
            Some(i) => {
                assert(before.remove(i as int) == removed(before, id));
                entries.remove(i);
            },
            None => {},
        }
        self.entries = entries;
    }

    /// Keeps, in order, exactly the subscribers whose entry in `delivered` is
    /// `true`; the others are dropped.
    pub fn retain_delivered(&mut self, delivered: &Vec<bool>)
        requires
            delivered@.len() == old(self).entries().len(),
        ensures
            final(self).next_id() == old(self).next_id(),
            final(self).entries() == kept(old(self).entries(), delivered@),
            final(self).wf(),
            old(self).ids_in_range() ==> final(self).ids_in_range(),
    {
        proof {
            use_type_invariant(&*self);
        }
        let ghost orig = self.entries@;
        proof {
            lemma_kept_members(orig, delivered@);
        }
        let mut rest: Vec<Subscriber> = Vec::new();
        std::mem::swap(&mut rest, &mut self.entries);
        let mut kept_entries: Vec<Subscriber> = Vec::new();
        let mut k: usize = 0;
        let n = rest.len();
        assert(orig.skip(0) =~= orig);
        assert(delivered@.skip(0) =~= delivered@);
        while rest.len() > 0
            invariant
                k <= orig.len(),
                n == orig.len(),
                delivered@.len() == orig.len(),
                rest@ == orig.skip(k as int),
                rest@.len() == orig.len() - k,
                kept_entries@ + kept(rest@, delivered@.skip(k as int)) == kept(orig, delivered@),
            decreases rest@.len(),
        {
            let ghost r0 = rest@;
            let ghost d0 = delivered@.skip(k as int);
            let e = rest.remove(0);
            assert(rest@ =~= orig.skip(k + 1));
            assert(r0.drop_first() =~= rest@);
            assert(d0.drop_first() =~= delivered@.skip(k + 1));
            if delivered[k] {
                kept_entries.push(e);
                assert(kept(r0, d0) == seq![e] + kept(rest@, delivered@.skip(k + 1)));
            }
            k = k + 1;
        }
        assert(kept(rest@, delivered@.skip(k as int)) =~= Seq::<Subscriber>::empty());
        assert(kept_entries@ =~= kept(orig, delivered@));
        self.entries = kept_entries;
        proof {
            let kk = kept(orig, delivered@);
            if ids_in_range(orig, self.next_id) {
                assert forall|i: int| 0 <= i < kk.len() implies 1 <= #[trigger] kk[i].id < self.next_id by {
                    assert(kk.contains(kk[i]));
                    assert(orig.contains(kk[i]));
                    let m = choose|m: int| 0 <= m < orig.len() && orig[m] == kk[i];
                }
            }
        }
    }

    /// Sends the event once on every channel, in order, then keeps exactly the
    /// subscribers whose send was queued and drops those whose receiver is
    /// gone.
    ///
    /// Which sends are queued depends on the receivers, which other threads
    /// hold; each channel's record of sends says what each send gave back,
    /// and [`Subscribers::retain_delivered`] keeps the subscribers for it.
    pub fn emit(&mut self, event: PowerEvent)
        ensures
            final(self).next_id() == old(self).next_id(),
            exists|after: Seq<Subscriber>|
                #![trigger sent_to_each(old(self).entries(), after, event)]
                sent_to_each(old(self).entries(), after, event) && final(self).entries() == kept(
                    after,
                    outcomes(after),
                ),
            final(self).wf(),
            old(self).ids_in_range() ==> final(self).ids_in_range(),
    {
        proof {
            use_type_invariant(&*self);
        }
        let ghost orig = self.entries@;
        let mut rest: Vec<Subscriber> = Vec::new();
        std::mem::swap(&mut rest, &mut self.entries);
        let mut sent: Vec<Subscriber> = Vec::new();
        let mut delivered: Vec<bool> = Vec::new();
        let mut k: usize = 0;
        let n = rest.len();
        assert(orig.skip(0) =~= orig);
        while rest.len() > 0
            invariant
                k <= orig.len(),
                n == orig.len(),
                rest@ == orig.skip(k as int),
                rest@.len() == orig.len() - k,
                sent@.len() == k,
                delivered@.len() == k,
                forall|i: int|
                    #![trigger sent@[i]]
                    0 <= i < k ==> {
                        &&& sent@[i].id == orig[i].id
                        &&& sent@[i].tx.channel() == orig[i].tx.channel()
                        &&& sent@[i].tx.offers() == orig[i].tx.offers().push(
                            Offer { event, delivered: delivered@[i] },
                        )
                    },
            decreases rest@.len(),
        {
            let mut e = rest.remove(0);
            assert(e == orig[k as int]);
            assert(rest@ =~= orig.skip(k + 1));
            let ok = channel_send(&mut e.tx, event);
            sent.push(e);
            delivered.push(ok);
            k = k + 1;
        }
        let ghost after = sent@;
        assert(outcomes(after) =~= delivered@) by {
            assert forall|i: int| 0 <= i < after.len() implies outcomes(after)[i] == delivered@[i] by {
                assert(after[i].tx.offers().last() == Offer { event, delivered: delivered@[i] });
            }
        }
        assert(distinct_ids(after)) by {
            assert forall|i: int, j: int|
                0 <= i < after.len() && 0 <= j < after.len() && i != j implies after[i].id
                != after[j].id by {
                assert(after[i].id == orig[i].id);
                assert(after[j].id == orig[j].id);
            }
        }
        assert(sent_to_each(orig, after, event));
        self.entries = sent;
        proof {
            if ids_in_range(orig, self.next_id) {
                assert forall|i: int| 0 <= i < after.len() implies 1 <= #[trigger] after[i].id
                    < self.next_id by {
                    assert(after[i].id == orig[i].id);
                }
            }
        }
        self.retain_delivered(&delivered);
        assert(orig == old(self).entries());
        assert(sent_to_each(old(self).entries(), after, event) && self.entries() == kept(
            after,
            outcomes(after),
        ));
    }
}

/// Each watcher that subscribes gets its own channel under its own id: two
/// subscriptions in a row (before the id counter wraps) get different ids,
/// neither of which was in use, each maps to its own channel, and removing
/// the first leaves the second's channel in place.
pub proof fn law_subscriptions_are_independent(
    s: Subscribers,
    a: UnboundedSender,
    b: UnboundedSender,
)
    requires
        s.wf(),
        s.ids_in_range(),
        s.next_id() < u64::MAX,
    ensures
        s.next_id() != following_id(s.next_id()),
        !s.senders().dom().contains(s.next_id()),
        !s.senders().dom().contains(following_id(s.next_id())),
        s.senders().insert(s.next_id(), a).insert(following_id(s.next_id()), b)[s.next_id()] == a,
        s.senders().insert(s.next_id(), a).insert(following_id(s.next_id()), b)[following_id(
            s.next_id(),
        )] == b,
        s.senders().insert(s.next_id(), a).insert(following_id(s.next_id()), b).remove(
            s.next_id(),
        ) == s.senders().insert(following_id(s.next_id()), b),
{
    let ia = s.next_id();
    let ib = following_id(ia);
    let m = s.senders();
    assert(!has_id(s.entries(), ia));
    assert(!has_id(s.entries(), ib));
    assert(m.insert(ia, a).insert(ib, b).remove(ia) =~= m.insert(ib, b));
}

/// Sending an event only ever drops subscribers: every channel left is one
/// that was there, under the same id.
pub proof fn law_emit_only_drops(entries: Seq<Subscriber>, delivered: Seq<bool>)
    requires
        distinct_ids(entries),
        delivered.len() == entries.len(),
    ensures
        sender_map(kept(entries, delivered)).submap_of(sender_map(entries)),
{
    lemma_kept_members(entries, delivered);
    let k = kept(entries, delivered);
    assert forall|id: u64| #[trigger]
        sender_map(k).dom().contains(id) implies sender_map(entries).dom().contains(id)
        && sender_map(k)[id] == sender_map(entries)[id] by {
        let i = position(k, id);
        lemma_position_of_index(k, i);
        assert(k.contains(k[i]));
        assert(entries.contains(k[i]));
        let j = choose|j: int| 0 <= j < entries.len() && entries[j] == k[i];
        lemma_position_of_index(entries, j);
    }
}

/// The kept entries are exactly the entries marked delivered.
proof fn lemma_kept_exactly(entries: Seq<Subscriber>, delivered: Seq<bool>)
    requires
        delivered.len() == entries.len(),
    ensures
        forall|i: int|
            0 <= i < entries.len() && delivered[i] ==> kept(entries, delivered).contains(
                #[trigger] entries[i],
            ),
        forall|x: Subscriber|
            kept(entries, delivered).contains(x) ==> exists|i: int|
                0 <= i < entries.len() && entries[i] == x && delivered[i],
    decreases entries.len(),
{
    if entries.len() > 0 {
        let rest = entries.drop_first();
        let dr = delivered.drop_first();
        lemma_kept_exactly(rest, dr);
        let kr = kept(rest, dr);
        let k = kept(entries, delivered);
        if delivered[0] {
            assert(k =~= seq![entries[0]] + kr);
        } else {
            assert(k == kr);
        }
        assert forall|i: int| 0 <= i < entries.len() && delivered[i] implies k.contains(
            #[trigger] entries[i],
        ) by {
            if i == 0 {
                assert(k[0] == entries[0]);
            } else {
                assert(rest[i - 1] == entries[i]);
                assert(dr[i - 1]);
                assert(kr.contains(rest[i - 1]));
                let j = choose|j: int| 0 <= j < kr.len() && kr[j] == entries[i];
                if delivered[0] {
                    assert(k[j + 1] == entries[i]);
                } else {
                    assert(k[j] == entries[i]);
                }
            }
        }
        assert forall|x: Subscriber| k.contains(x) implies exists|i: int|
            0 <= i < entries.len() && entries[i] == x && delivered[i] by {
            let j = choose|j: int| 0 <= j < k.len() && k[j] == x;
            if delivered[0] && j == 0 {
                assert(entries[0] == x && delivered[0]);
            } else {
                let jr = if delivered[0] { j - 1 } else { j };
                assert(kr[jr] == x);
                assert(kr.contains(x));
                let m = choose|m: int| 0 <= m < rest.len() && rest[m] == x && dr[m];
                assert(entries[m + 1] == x && delivered[m + 1]);
            }
        }
    }
}

/// Sending an event reaches every watcher once: each subscriber's channel is
/// handed the event exactly once and nothing else; afterwards the subscribers
/// are exactly those whose send was queued, under their ids and channels, in
/// their order, and those whose receiver was gone are dropped.
pub proof fn law_emit_broadcasts(before: Seq<Subscriber>, after: Seq<Subscriber>, event: PowerEvent)
    requires
        sent_to_each(before, after, event),
    ensures
        forall|i: int|
            #![trigger after[i]]
            0 <= i < before.len() ==> {
                &&& after[i].tx.offers().len() == before[i].tx.offers().len() + 1
                &&& after[i].tx.offers().last().event == event
                &&& after[i].tx.offers().drop_last() == before[i].tx.offers()
                &&& after[i].id == before[i].id
                &&& after[i].tx.channel() == before[i].tx.channel()
            },
        forall|i: int|
            0 <= i < before.len() && last_delivered(#[trigger] after[i]) ==> kept(
                after,
                outcomes(after),
            ).contains(after[i]),
        forall|x: Subscriber|
            kept(after, outcomes(after)).contains(x) ==> exists|i: int|
                0 <= i < before.len() && after[i] == x && last_delivered(x),
{
    lemma_kept_exactly(after, outcomes(after));
    assert forall|i: int| #![trigger after[i]] 0 <= i < before.len() implies {
        &&& after[i].tx.offers().len() == before[i].tx.offers().len() + 1
        &&& after[i].tx.offers().last().event == event
        &&& after[i].tx.offers().drop_last() == before[i].tx.offers()
        &&& after[i].id == before[i].id
        &&& after[i].tx.channel() == before[i].tx.channel()
    } by {
        assert(after[i].tx.offers().drop_last() =~= before[i].tx.offers());
    }
    assert forall|i: int|
        0 <= i < before.len() && last_delivered(#[trigger] after[i]) implies kept(
        after,
        outcomes(after),
    ).contains(after[i]) by {
        assert(outcomes(after)[i]);
    }
    assert forall|x: Subscriber| kept(after, outcomes(after)).contains(x) implies exists|i: int|
        0 <= i < before.len() && after[i] == x && last_delivered(x) by {
        let i = choose|i: int| 0 <= i < after.len() && after[i] == x && outcomes(after)[i];
    }
}

/// One operation of the runtime on its subscribers.
pub enum SubscriberOp {
    /// [`Subscribers::add_sender`] with the channel.
    Add(UnboundedSender),
    /// [`Subscribers::remove_sender`] with the id.
    Remove(u64),
    /// Dropping the subscribers whose send failed, with which sends
    /// succeeded, as [`Subscribers::retain_delivered`] takes them. An
    /// [`Subscribers::emit`] is a send on every channel, which leaves the ids
    /// as they are ([`sent_to_each`]), followed by this step.
    Deliver(Seq<bool>),
}

/// The subscribers and the next id after one operation, as the contracts of
/// the operations state it.
pub open spec fn apply_op(state: (Seq<Subscriber>, u64), op: SubscriberOp) -> (Seq<Subscriber>, u64) {
    match op {
        SubscriberOp::Add(tx) => (
            inserted(state.0, Subscriber { id: state.1, tx }),
            following_id(state.1),
        ),
        SubscriberOp::Remove(id) => (removed(state.0, id), state.1),
        SubscriberOp::Deliver(delivered) => if delivered.len() == state.0.len() {
            (kept(state.0, delivered), state.1)
        } else {
            state
        },
    }
}

/// The subscribers and the next id after the operations, in order.
pub open spec fn apply_ops(state: (Seq<Subscriber>, u64), ops: Seq<SubscriberOp>) -> (
    Seq<Subscriber>,
    u64,
)
    decreases ops.len(),
{
    if ops.len() == 0 {
        state
    } else {
        apply_op(apply_ops(state, ops.drop_last()), ops.last())
    }
}

/// The number of additions among the operations.
pub open spec fn adds(ops: Seq<SubscriberOp>) -> nat
    decreases ops.len(),
{
    if ops.len() == 0 {
        0
    } else {
        adds(ops.drop_last()) + if ops.last() is Add {
            1nat
        } else {
            0nat
        }
    }
}

/// One operation keeps ids distinct and in range, and moves the counter on
/// by one exactly when it adds.
proof fn lemma_op_keeps_range(state: (Seq<Subscriber>, u64), op: SubscriberOp)
    requires
        distinct_ids(state.0),
        ids_in_range(state.0, state.1),
        op is Add ==> state.1 < u64::MAX,
    ensures
        distinct_ids(apply_op(state, op).0),
        ids_in_range(apply_op(state, op).0, apply_op(state, op).1),
        apply_op(state, op).1 == state.1 + if op is Add {
            1int
        } else {
            0int
        },
{
    let r = apply_op(state, op);
    match op {
        SubscriberOp::Add(tx) => {
            lemma_next_id_is_free(state.0, state.1, tx);
            lemma_inserted(state.0, Subscriber { id: state.1, tx });
            assert forall|i: int| 0 <= i < r.0.len() implies 1 <= #[trigger] r.0[i].id < r.1 by {
                if i < state.0.len() {
                    assert(r.0[i] == state.0[i]);
                }
            }
        },
        SubscriberOp::Remove(id) => {
            lemma_removed(state.0, id);
            assert forall|i: int| 0 <= i < r.0.len() implies 1 <= #[trigger] r.0[i].id < r.1 by {
                assert(r.0.contains(r.0[i]));
                let j = choose|j: int| 0 <= j < state.0.len() && state.0[j] == r.0[i];
            }
        },
        SubscriberOp::Deliver(delivered) => {
            if delivered.len() == state.0.len() {
                lemma_kept_members(state.0, delivered);
                assert(r.0 == kept(state.0, delivered));
                assert forall|i: int| 0 <= i < r.0.len() implies 1 <= #[trigger] r.0[i].id < r.1 by {
                    assert(r.0.contains(r.0[i]));
                    assert(state.0.contains(r.0[i]));
                    let j = choose|j: int| 0 <= j < state.0.len() && state.0[j] == r.0[i];
                    assert(1 <= state.0[j].id < state.1);
                }
            }
        },
    }
}

/// The additions among the first `k + 1` operations are those among the
/// first `k`, plus one when the `k`-th adds; so they never decrease.
proof fn lemma_adds_prefix(ops: Seq<SubscriberOp>, a: int, b: int)
    requires
        0 <= a <= b <= ops.len(),
    ensures
        adds(ops.take(a)) <= adds(ops.take(b)),
        a < ops.len() ==> adds(ops.take(a + 1)) == adds(ops.take(a)) + if ops[a] is Add {
            1int
        } else {
            0int
        },
    decreases b - a,
{
    if a < ops.len() {
        assert(ops.take(a + 1).drop_last() =~= ops.take(a));
        assert(ops.take(a + 1).last() == ops[a]);
    }
    if a < b {
        lemma_adds_prefix(ops, a + 1, b);
    }
}

/// Over any sequence of additions, removals and sends that stops before the
/// counter reaches its top, the ids in use stay distinct and within
/// `1..next_id`, the counter moves on by one per addition, and every addition
/// takes an id that is free and above every id handed out before it: no
/// addition overwrites another subscriber's channel, and the ids handed out
/// are pairwise distinct.
pub proof fn law_ids_stay_in_range(entries: Seq<Subscriber>, next: u64, ops: Seq<SubscriberOp>)
    requires
        distinct_ids(entries),
        ids_in_range(entries, next),
        next + adds(ops) < u64::MAX,
    ensures
        distinct_ids(apply_ops((entries, next), ops).0),
        ids_in_range(apply_ops((entries, next), ops).0, apply_ops((entries, next), ops).1),
        apply_ops((entries, next), ops).1 == next + adds(ops),
        forall|k: int|
            0 <= k < ops.len() && (#[trigger] ops[k]) is Add ==> {
                let before = apply_ops((entries, next), ops.take(k));
                &&& before.1 == next + adds(ops.take(k))
                &&& !has_id(before.0, before.1)
            },
        forall|k1: int, k2: int|
            0 <= k1 < k2 < ops.len() && (#[trigger] ops[k1]) is Add && (#[trigger] ops[k2]) is Add
                ==> apply_ops((entries, next), ops.take(k1)).1 < apply_ops(
                (entries, next),
                ops.take(k2),
            ).1,
    decreases ops.len(),
{
    if ops.len() > 0 {
        let init = ops.drop_last();
        law_ids_stay_in_range(entries, next, init);
        lemma_op_keeps_range(apply_ops((entries, next), init), ops.last());
        assert forall|k: int| 0 <= k < ops.len() && (#[trigger] ops[k]) is Add implies {
            let before = apply_ops((entries, next), ops.take(k));
            &&& before.1 == next + adds(ops.take(k))
            &&& !has_id(before.0, before.1)
        } by {
            if k < ops.len() - 1 {
                assert(ops.take(k) =~= init.take(k));
                assert(init[k] == ops[k]);
            } else {
                assert(ops.take(k) =~= init);
                let before = apply_ops((entries, next), init);
                if let SubscriberOp::Add(tx) = ops[k] {
                    lemma_next_id_is_free(before.0, before.1, tx);
                }
            }
        }
        assert forall|k1: int, k2: int|
            0 <= k1 < k2 < ops.len() && (#[trigger] ops[k1]) is Add && (#[trigger] ops[k2]) is Add
                implies apply_ops((entries, next), ops.take(k1)).1 < apply_ops(
            (entries, next),
            ops.take(k2),
        ).1 by {
            lemma_adds_prefix(ops, k1, k1 + 1);
            lemma_adds_prefix(ops, k1 + 1, k2);
        }
    } else {
        assert(apply_ops((entries, next), ops) == (entries, next));
    }
}

} // verus!
