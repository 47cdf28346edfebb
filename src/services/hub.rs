use vstd::prelude::*;
use crate::ids::UserId;
use crate::models::events::{SseEvent, SseEventType};

verus! {

/// How many undelivered events one subscriber may fall behind by; past
/// that its oldest pending event is dropped.
pub const CHANNEL_CAPACITY: usize = 16;

/// An event as its kind and payload.
pub open spec fn event_view(e: SseEvent) -> (SseEventType, Seq<char>) {
    (e.event_type, e.data@)
}

/// A subscriber's pending events after one more is published to it: the
/// event is appended, and a full buffer first drops its oldest event.
pub open spec fn bounded_push<E>(q: Seq<E>, e: E) -> Seq<E> {
    if q.len() >= CHANNEL_CAPACITY {
        q.drop_first().push(e)
    } else {
        q.push(e)
    }
}

/// Pending events after publishing each of `es` in turn.
pub open spec fn push_all<E>(q: Seq<E>, es: Seq<E>) -> Seq<E>
    decreases es.len(),
{
    if es.len() == 0 {
        q
    } else {
        bounded_push(push_all(q, es.drop_last()), es.last())
    }
}

/// The newest `CHANNEL_CAPACITY` elements of `s`, oldest first.
pub open spec fn newest<E>(s: Seq<E>) -> Seq<E> {
    if s.len() > CHANNEL_CAPACITY {
        s.subrange(s.len() - CHANNEL_CAPACITY, s.len() as int)
    } else {
        s
    }
}

/// Events reach a subscriber exactly and in the order they were published:
/// its pending events are always the newest `CHANNEL_CAPACITY` of what it
/// had pending and what was published since, oldest first. A subscriber
/// that keeps up with its buffer therefore receives every event, in order.
pub proof fn publish_keeps_order<E>(q: Seq<E>, es: Seq<E>)
    requires
        q.len() <= CHANNEL_CAPACITY,
    ensures
        push_all(q, es) == newest(q + es),
        q.len() + es.len() <= CHANNEL_CAPACITY ==> push_all(q, es) == q + es,
    decreases es.len(),
{
    if es.len() == 0 {
        assert(q + es =~= q);
    } else {
        publish_keeps_order(q, es.drop_last());
        let prev = push_all(q, es.drop_last());
        let all = q + es;
        assert(q + es.drop_last() =~= all.drop_last());
        if all.drop_last().len() > CHANNEL_CAPACITY {
            assert(bounded_push(prev, es.last()) =~= newest(all));
        } else if prev.len() >= CHANNEL_CAPACITY {
            assert(bounded_push(prev, es.last()) =~= newest(all));
        } else {
            assert(bounded_push(prev, es.last()) =~= newest(all));
        }
    }
}

/// One live subscription: its id, its user and its pending events.
pub struct Subscription {
    pub id: u64,
    pub user: UserId,
    pub pending: Vec<SseEvent>,
}

/// What is visible of a subscription.
pub struct SubscriptionView {
    pub id: u64,
    pub user: UserId,
    pub pending: Seq<(SseEventType, Seq<char>)>,
}

impl Subscription {
    pub open spec fn view(&self) -> SubscriptionView {
        SubscriptionView { id: self.id, user: self.user, pending: self.pending@.map_values(|e: SseEvent| event_view(e)) }
    }
}

/// The subscriptions after publishing event `e` to `user`: each of that
/// user's subscriptions gets the event, the others are unchanged.
pub open spec fn published(subs: Seq<SubscriptionView>, user: UserId, e: (SseEventType, Seq<char>)) -> Seq<SubscriptionView> {
    subs.map_values(|s: SubscriptionView|
        if s.user == user {
            SubscriptionView { id: s.id, user: s.user, pending: bounded_push(s.pending, e) }
        } else {
            s
        })
}

/// Whether `subs` holds a subscription with id `id`.
pub open spec fn has_subscription(subs: Seq<SubscriptionView>, id: u64) -> bool {
    exists|i: int| 0 <= i < subs.len() && subs[i].id == id
}

/// Whether `user` has a live subscription in `subs`.
pub open spec fn is_online(subs: Seq<SubscriptionView>, user: UserId) -> bool {
    exists|i: int| 0 <= i < subs.len() && subs[i].user == user
}

/// A subscription sees only what is published while it is attached: one
/// attached after an event was published starts without it, and an event
/// published to a user reaches each subscription that user holds, as its
/// newest pending event, leaving other users' subscriptions unchanged.
pub proof fn delivery_follows_subscription(
    subs: Seq<SubscriptionView>,
    user: UserId,
    e: (SseEventType, Seq<char>),
    late: u64,
    i: int,
)
    requires
        0 <= i < subs.len(),
    ensures
        subs[i].user == user ==> published(subs, user, e)[i].pending.last() == e,
        subs[i].user != user ==> published(subs, user, e)[i] == subs[i],
        published(subs, user, e).push(SubscriptionView { id: late, user, pending: Seq::empty() }).last().pending.len()
            == 0,
{
}

/// The subscriptions after publishing `e` to each of `users` in turn.
pub open spec fn published_to_all(subs: Seq<SubscriptionView>, users: Seq<UserId>, e: (SseEventType, Seq<char>)) -> Seq<SubscriptionView>
    decreases users.len(),
{
    if users.len() == 0 {
        subs
    } else {
        published(published_to_all(subs, users.drop_last(), e), users.last(), e)
    }
}

/// Publishing to a list of distinct users reaches exactly the
/// subscriptions of those users, each once.
pub proof fn publish_to_all_reaches_exactly(subs: Seq<SubscriptionView>, users: Seq<UserId>, e: (SseEventType, Seq<char>))
    requires
        users.no_duplicates(),
    ensures
        published_to_all(subs, users, e).len() == subs.len(),
        forall|i: int| 0 <= i < subs.len() ==> #[trigger] published_to_all(subs, users, e)[i] == if users.contains(subs[i].user) {
            SubscriptionView { id: subs[i].id, user: subs[i].user, pending: bounded_push(subs[i].pending, e) }
        } else {
            subs[i]
        },
    decreases users.len(),
{
    if users.len() > 0 {
        let rest = users.drop_last();
        assert(rest.no_duplicates()) by {
            assert forall|a: int, b: int| 0 <= a < b < rest.len() implies rest[a] != rest[b] by {
                assert(users[a] != users[b]);
            }
        }
        publish_to_all_reaches_exactly(subs, rest, e);
        assert forall|i: int| 0 <= i < subs.len() implies #[trigger] published_to_all(subs, users, e)[i] == if users.contains(subs[i].user) {
            SubscriptionView { id: subs[i].id, user: subs[i].user, pending: bounded_push(subs[i].pending, e) }
        } else {
            subs[i]
        } by {
            let u = subs[i].user;
            if rest.contains(u) {
                let k = choose|k: int| 0 <= k < rest.len() && rest[k] == u;
                assert(users[k] == u);
                assert(users.last() != u) by {
                    assert(users[users.len() - 1] != users[k]);
                }
                assert(users.contains(u));
            } else if u == users.last() {
                assert(users[users.len() - 1] == u);
                assert(users.contains(u));
            } else {
                assert(!users.contains(u)) by {
                    if users.contains(u) {
                        let k = choose|k: int| 0 <= k < users.len() && users[k] == u;
                        if k < users.len() - 1 {
                            assert(rest[k] == u);
                        }
                    }
                }
            }
        }
    }
}

/// The registry of live subscriptions, per user.
///
/// Publishing to a user reaches only the subscriptions that user holds at
/// that moment; nothing is kept for users without one.
pub struct EventHub {
    subs: Vec<Subscription>,
    next_id: u64,
}

impl View for EventHub {
    type V = Seq<SubscriptionView>;

    closed spec fn view(&self) -> Seq<SubscriptionView> {
        self.subs@.map_values(|s: Subscription| s.view())
    }
}

impl EventHub {
    pub closed spec fn wf(&self) -> bool {
        &&& forall|i: int| 0 <= i < self.subs@.len() ==> (#[trigger] self.subs@[i]).id < self.next_id
        &&& forall|i: int| 0 <= i < self.subs@.len() ==> (#[trigger] self.subs@[i]).pending@.len() <= CHANNEL_CAPACITY
        &&& forall|i: int, j: int| 0 <= i < j < self.subs@.len() ==> self.subs@[i].id != self.subs@[j].id
    }

    /// Whether another subscription id can still be handed out.
    pub closed spec fn has_room(&self) -> bool {
        self.next_id < u64::MAX
    }

    pub fn new() -> (r: Self)
        ensures
            r.wf(),
            r@ == Seq::<SubscriptionView>::empty(),
            r.has_room(),
    {
        let r = EventHub { subs: Vec::new(), next_id: 0 };
        assert(r@ =~= Seq::<SubscriptionView>::empty());
        r
    }

    /// Attaches a new subscriber for `user`. It starts with nothing
    /// pending: events published before it was attached never reach it.
    pub fn subscribe(&mut self, user: UserId) -> (r: Option<u64>)
        requires
            old(self).wf(),
        ensures
            final(self).wf(),
            r is Some <==> old(self).has_room(),
            r is Some ==> {
                &&& !has_subscription(old(self)@, r->Some_0)
                &&& final(self)@ == old(self)@.push(SubscriptionView { id: r->Some_0, user, pending: Seq::empty() })
            },
            r is None ==> final(self)@ == old(self)@,
    {
        if self.next_id == u64::MAX {
            return None;
        }
        let id = self.next_id;
        let ghost before = self@;
        let sub = Subscription { id, user, pending: Vec::new() };
        self.subs.push(sub);
        self.next_id = self.next_id + 1;
        proof {
            if has_subscription(before, id) {
                let i = choose|i: int| 0 <= i < before.len() && before[i].id == id;
                assert(old(self).subs@[i].id < old(self).next_id);
            }
            assert(sub.view().pending =~= Seq::<(SseEventType, Seq<char>)>::empty());
            assert(self@ =~= before.push(SubscriptionView { id, user, pending: Seq::empty() }));
        }
        Some(id)
    }

    /// Detaches subscriber `id`, dropping what it had pending; detaching a
    /// missing one does nothing.
    pub fn unsubscribe(&mut self, id: u64)
        requires
            old(self).wf(),
        ensures
            final(self).wf(),
            !has_subscription(final(self)@, id),
            forall|s: SubscriptionView| s.id != id ==> (final(self)@.contains(s) <==> old(self)@.contains(s)),
            final(self).has_room() == old(self).has_room(),
    {
        let mut i: usize = 0;
        while i < self.subs.len()
            invariant
                self.wf(),
                self@ == old(self)@,
                self.next_id == old(self).next_id,
                i <= self.subs@.len(),
                forall|j: int| 0 <= j < i ==> self.subs@[j].id != id,
            decreases self.subs@.len() - i,
        {
            if self.subs[i].id == id {
                let ghost before = self@;
                let ghost raw = self.subs@;
                assert(forall|j: int| i < j < raw.len() ==> raw[i as int].id != raw[j].id);
                self.subs.remove(i);
                proof {
                    assert(self@ =~= before.remove(i as int));
                    assert forall|j: int| 0 <= j < self@.len() implies self@[j].id != id by {
                        if j < i {
                            assert(self@[j] == before[j]);
                        } else {
                            assert(self@[j] == before[j + 1]);
                            assert(raw[i as int].id != raw[j + 1].id);
                        }
                    }
                    assert forall|s: SubscriptionView| s.id != id implies (self@.contains(s) <==> before.contains(s)) by {
                        if before.contains(s) {
                            let k = choose|k: int| 0 <= k < before.len() && before[k] == s;
                            assert(k != i);
                            if k < i {
                                assert(self@[k] == s);
                            } else {
                                assert(self@[k - 1] == s);
                            }
                        }
                        if self@.contains(s) {
                            let k = choose|k: int| 0 <= k < self@.len() && self@[k] == s;
                            if k < i {
                                assert(before[k] == s);
                            } else {
                                assert(before[k + 1] == s);
                            }
                        }
                    }
                }
                return;
            }
            i += 1;
        }
    }

    /// Publishes `event` to every current subscriber of `user`, without
    /// waiting; returns whether it had any. A subscriber whose buffer is
    /// full loses its oldest pending event.
    pub fn publish(&mut self, user: UserId, event: &SseEvent) -> (r: bool)
        requires
            old(self).wf(),
        ensures
            final(self).wf(),
            final(self)@ == published(old(self)@, user, event_view(*event)),
            r == is_online(old(self)@, user),
            final(self).has_room() == old(self).has_room(),
    {
        let ghost target = published(old(self)@, user, event_view(*event));
        let mut delivered = false;
        let mut i: usize = 0;
        while i < self.subs.len()
            invariant
                self.wf(),
                self.next_id == old(self).next_id,
                self.subs@.len() == old(self).subs@.len(),
                i <= self.subs@.len(),
                target == published(old(self)@, user, event_view(*event)),
                forall|j: int| 0 <= j < i ==> self@[j] == target[j],
                forall|j: int| i <= j < self.subs@.len() ==> self.subs@[j] == old(self).subs@[j],
                delivered == exists|j: int| 0 <= j < i && old(self)@[j].user == user,
            decreases self.subs@.len() - i,
        {
            if self.subs[i].user == user {
                let ghost before = self.subs@[i as int];
                let mut sub = self.subs.remove(i);
                sub.pending.push(event.duplicate());
                if sub.pending.len() > CHANNEL_CAPACITY {
                    sub.pending.remove(0);
                }
                proof {
                    let bp = bounded_push(before.view().pending, event_view(*event));
                    assert(sub.view().pending =~= bp);
                }
                self.subs.insert(i, sub);
                delivered = true;
            }
            proof {
                assert(self@[i as int] == target[i as int]);
                assert forall|j: int| 0 <= j < i + 1 implies self@[j] == target[j] by {
                    if j < i {
                    }
                }
            }
            i += 1;
        }
        proof {
            assert(self@ =~= target);
        }
        delivered
    }

    /// Publishes `event` to each of `users` in turn.
    pub fn publish_to_all(&mut self, users: &Vec<UserId>, event: &SseEvent)
        requires
            old(self).wf(),
        ensures
            final(self).wf(),
            final(self)@ == published_to_all(old(self)@, users@, event_view(*event)),
            final(self).has_room() == old(self).has_room(),
    {
        let mut i: usize = 0;
        while i < users.len()
            invariant
                self.wf(),
                self.has_room() == old(self).has_room(),
                i <= users@.len(),
                self@ == published_to_all(old(self)@, users@.subrange(0, i as int), event_view(*event)),
            decreases users@.len() - i,
        {
            self.publish(users[i], event);
            proof {
                let pre = users@.subrange(0, i + 1);
                assert(pre.drop_last() =~= users@.subrange(0, i as int));
                assert(pre.last() == users@[i as int]);
            }
            i += 1;
        }
        assert(users@.subrange(0, users@.len() as int) =~= users@);
    }

    /// Takes the oldest pending event of subscriber `id`, if any.
    pub fn receive(&mut self, id: u64) -> (r: Option<SseEvent>)
        requires
            old(self).wf(),
        ensures
            final(self).wf(),
            final(self).has_room() == old(self).has_room(),
            r is Some ==> exists|i: int| {
                &&& 0 <= i < old(self)@.len()
                &&& old(self)@[i].id == id
                &&& old(self)@[i].pending.len() > 0
                &&& event_view(r->Some_0) == old(self)@[i].pending[0]
                &&& final(self)@ == old(self)@.update(i, SubscriptionView {
                    id,
                    user: old(self)@[i].user,
                    pending: old(self)@[i].pending.drop_first(),
                })
            },
            r is None ==> final(self)@ == old(self)@ && forall|i: int|
                0 <= i < old(self)@.len() && old(self)@[i].id == id ==> old(self)@[i].pending.len() == 0,
    {
        let mut i: usize = 0;
        while i < self.subs.len()
            invariant
                self.wf(),
                self@ == old(self)@,
                self.next_id == old(self).next_id,
                i <= self.subs@.len(),
                forall|j: int| 0 <= j < i ==> self.subs@[j].id != id,
            decreases self.subs@.len() - i,
        {
            if self.subs[i].id == id {
                if self.subs[i].pending.len() == 0 {
                    proof {
                        assert forall|k: int| 0 <= k < old(self)@.len() && old(self)@[k].id == id
                            implies old(self)@[k].pending.len() == 0 by {
                            if k != i {
                                if k < i {
                                } else {
                                    assert(self.subs@[i as int].id != self.subs@[k].id);
                                }
                            }
                        }
                    }
                    return None;
                }
                let ghost before = self@;
                let mut sub = self.subs.remove(i);
                let e = sub.pending.remove(0);
                proof {
                    assert(sub.view().pending =~= before[i as int].pending.drop_first());
                }
                self.subs.insert(i, sub);
                proof {
                    assert(self@ =~= before.update(i as int, SubscriptionView {
                        id,
                        user: before[i as int].user,
                        pending: before[i as int].pending.drop_first(),
                    }));
                }
                return Some(e);
            }
            i += 1;
        }
        None
    }
}

} // verus!
