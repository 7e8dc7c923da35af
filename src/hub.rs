use crate::event::{Event, EventView};
use vstd::prelude::*;

verus! {

/// The events of a queue, as the proofs see them.
pub open spec fn events_view(v: Seq<Event>) -> Seq<EventView> {
    v.map_values(|e: Event| e@)
}

/// What the proofs know of one subscriber channel.
pub struct ChannelView {
    /// The receiving end is still there.
    pub open: bool,
    /// The first event the channel ever carried.
    pub seed: EventView,
    /// How many events had been published when the channel was registered.
    pub joined: nat,
    /// The events the receiving end has already taken.
    pub taken: Seq<EventView>,
    /// The events queued and not yet taken.
    pub pending: Seq<EventView>,
}

impl ChannelView {
    /// Everything ever delivered on this channel, in order.
    pub open spec fn stream(self) -> Seq<EventView> {
        self.taken + self.pending
    }
}

/// The result of one attempt to enqueue an event on a channel.
pub enum SendOutcome {
    Delivered,
    ReceiverGone,
}

struct Subscriber {
    id: u64,
    open: bool,
    pending: Vec<Event>,
    seed: Ghost<EventView>,
    joined: Ghost<nat>,
    taken: Ghost<Seq<EventView>>,
}

impl View for Subscriber {
    type V = ChannelView;

    closed spec fn view(&self) -> ChannelView {
        ChannelView {
            open: self.open,
            seed: self.seed@,
            joined: self.joined@,
            taken: self.taken@,
            pending: events_view(self.pending@),
        }
    }
}

impl Subscriber {
    fn try_send(&mut self, e: &Event) -> (r: SendOutcome)
        ensures
            final(self).id == old(self).id,
            old(self).open ==> r is Delivered && final(self)@ == (ChannelView {
                pending: old(self)@.pending.push(e@),
                ..old(self)@
            }),
            !old(self).open ==> r is ReceiverGone && final(self)@ == old(self)@,
    {
        if self.open {
            self.pending.push(e.duplicate());
            assert(events_view(self.pending@) =~= events_view(old(self).pending@).push(e@));
            SendOutcome::Delivered
        } else {
            SendOutcome::ReceiverGone
        }
    }
}

/// The process-wide set of live subscribers and the fan-out of published events.
///
/// Each subscriber owns an unbounded queue: a slow reader never holds up the
/// publisher or the other subscribers.
pub struct Hub {
    subs: Vec<Subscriber>,
    next_id: u64,
    log: Ghost<Seq<EventView>>,
    chans: Ghost<Map<u64, ChannelView>>,
}

impl Hub {
    /// Every event published so far, in publish order.
    pub closed spec fn log(&self) -> Seq<EventView> {
        self.log@
    }

    /// The registered channels, by subscriber identity.
    pub closed spec fn channels(&self) -> Map<u64, ChannelView> {
        self.chans@
    }

    /// The identity the next registration will receive.
    pub closed spec fn next_id(&self) -> u64 {
        self.next_id
    }

    /// The channel of an open subscriber holds its seed followed by every
    /// event published since it joined.
    pub open spec fn delivery_holds(log: Seq<EventView>, c: ChannelView) -> bool {
        &&& c.joined <= log.len()
        &&& c.open ==> c.stream() == seq![c.seed] + log.subrange(c.joined as int, log.len() as int)
    }

    /// The hub's internal invariant.
    pub closed spec fn wf(&self) -> bool {
        &&& forall|i: int, j: int|
            0 <= i < j < self.subs@.len() ==> self.subs@[i].id != self.subs@[j].id
        &&& forall|i: int| 0 <= i < self.subs@.len() ==> self.subs@[i].id < self.next_id
        &&& forall|i: int|
            #![trigger self.subs@[i]]
            0 <= i < self.subs@.len() ==> self.chans@.contains_key(self.subs@[i].id)
                && self.chans@[self.subs@[i].id] == self.subs@[i]@
        &&& forall|id: u64|
            #[trigger] self.chans@.contains_key(id) ==> exists|i: int|
                0 <= i < self.subs@.len() && self.subs@[i].id == id
        &&& forall|id: u64|
            #[trigger] self.chans@.contains_key(id) ==> Self::delivery_holds(
                self.log@,
                self.chans@[id],
            )
    }

    /// An empty hub: no subscribers, nothing published.
    pub fn new() -> (r: Hub)
        ensures
            r.wf(),
            r.log() == Seq::<EventView>::empty(),
            r.channels() == Map::<u64, ChannelView>::empty(),
            r.next_id() == 0,
    {
        Hub {
            subs: Vec::new(),
            next_id: 0,
            log: Ghost(Seq::empty()),
            chans: Ghost(Map::empty()),
        }
    }

    /// Whether one more subscriber can be given a fresh identity.
    pub fn can_register(&self) -> (r: bool)
        ensures
            r == (self.next_id() < u64::MAX),
    {
        self.next_id < u64::MAX
    }

    /// The number of registered subscribers.
    pub fn subscriber_count(&self) -> (r: usize)
        requires
            self.wf(),
        ensures
            r == self.channels().len(),
    {
        proof { self.lemma_dom_is_ids(); }
        self.subs.len()
    }

    /// The channel that `publish` leaves behind for an open channel.
    pub open spec fn delivered(c: ChannelView, e: EventView) -> ChannelView {
        ChannelView { pending: c.pending.push(e), ..c }
    }

    fn position(&self, id: u64) -> (r: Option<usize>)
        requires
            self.wf(),
        ensures
            r is None ==> !self.chans@.contains_key(id),
            r matches Some(i) ==> i < self.subs@.len() && self.subs@[i as int].id == id,
    {
        let mut i: usize = 0;
        while i < self.subs.len()
            invariant
                self.wf(),
                i <= self.subs@.len(),
                forall|k: int| 0 <= k < i ==> self.subs@[k].id != id,
            decreases self.subs@.len() - i,
        {
            if self.subs[i].id == id {
                return Some(i);
            }
            i = i + 1;
        }
        None
    }

    /// Adds a subscriber whose channel starts with `seed`, and returns its identity.
    pub fn register(&mut self, seed: Event) -> (id: u64)
        requires
            old(self).wf(),
            old(self).next_id() < u64::MAX,
        ensures
            final(self).wf(),
            final(self).log() == old(self).log(),
            final(self).next_id() == old(self).next_id() + 1,
            id == old(self).next_id(),
            !old(self).channels().contains_key(id),
            final(self).channels() == old(self).channels().insert(
                id,
                ChannelView {
                    open: true,
                    seed: seed@,
                    joined: old(self).log().len(),
                    taken: Seq::empty(),
                    pending: seq![seed@],
                },
            ),
    {
        let id = self.next_id;
        let ghost seed_view = seed@;
        let ghost joined = self.log@.len();
        let mut pending: Vec<Event> = Vec::new();
        pending.push(seed);
        let sub = Subscriber {
            id,
            open: true,
            pending,
            seed: Ghost(seed_view),
            joined: Ghost(joined),
            taken: Ghost(Seq::empty()),
        };
        assert(events_view(sub.pending@) =~= seq![seed_view]);
        assert(!self.chans@.contains_key(id)) by {
            if self.chans@.contains_key(id) {
                let k = choose|k: int| 0 <= k < self.subs@.len() && self.subs@[k].id == id;
                assert(self.subs@[k].id < self.next_id);
            }
        }
        let ghost old_subs = self.subs@;
        self.subs.push(sub);
        self.next_id = self.next_id + 1;
        proof {
            self.chans@ = self.chans@.insert(id, sub@);
            assert(self.log@.subrange(joined as int, joined as int) =~= Seq::<EventView>::empty());
            assert(sub@.stream() =~= seq![seed_view] + self.log@.subrange(
                joined as int,
                self.log@.len() as int,
            ));
            assert forall|x: u64| #[trigger] self.chans@.contains_key(x) implies exists|k: int|
                0 <= k < self.subs@.len() && self.subs@[k].id == x by {
                if x != id {
                    let k = choose|k: int| 0 <= k < old_subs.len() && old_subs[k].id == x;
                    assert(self.subs@[k] == old_subs[k]);
                } else {
                    assert(self.subs@[old_subs.len() as int].id == x);
                }
            }
        }
        id
    }

    /// Marks the receiving end of a channel as gone; the next publish evicts it.
    /// Unknown identities are ignored.
    pub fn disconnect(&mut self, id: u64)
        requires
            old(self).wf(),
        ensures
            final(self).wf(),
            final(self).log() == old(self).log(),
            final(self).next_id() == old(self).next_id(),
            final(self).channels() == if old(self).channels().contains_key(id) {
                old(self).channels().insert(
                    id,
                    ChannelView { open: false, ..old(self).channels()[id] },
                )
            } else {
                old(self).channels()
            },
    {
        match self.position(id) {
            None => {},
            Some(i) => {
                let ghost old_subs = self.subs@;
                let mut sub = self.subs.remove(i);
                sub.open = false;
                self.subs.insert(i, sub);
                proof {
                    assert(self.subs@ == old_subs.update(i as int, sub));
                    self.chans@ = self.chans@.insert(id, sub@);
                    assert forall|x: u64| #[trigger] self.chans@.contains_key(x) implies exists|k: int|
                        0 <= k < self.subs@.len() && self.subs@[k].id == x by {
                        let k = choose|k: int| 0 <= k < old_subs.len() && old_subs[k].id == x;
                        assert(self.subs@[k].id == x);
                    }
                }
            },
        }
    }

    /// Removes a subscriber. Removing one that is not registered changes nothing.
    pub fn remove(&mut self, id: u64)
        requires
            old(self).wf(),
        ensures
            final(self).wf(),
            final(self).log() == old(self).log(),
            final(self).next_id() == old(self).next_id(),
            final(self).channels() == old(self).channels().remove(id),
    {
        match self.position(id) {
            None => {
                assert(self.chans@.remove(id) =~= self.chans@);
            },
            Some(i) => {
                let ghost old_subs = self.subs@;
                self.subs.remove(i);
                proof {
                    self.chans@ = self.chans@.remove(id);
                    assert forall|x: u64| #[trigger] self.chans@.contains_key(x) implies exists|k: int|
                        0 <= k < self.subs@.len() && self.subs@[k].id == x by {
                        let k = choose|k: int| 0 <= k < old_subs.len() && old_subs[k].id == x;
                        if k < i {
                            assert(self.subs@[k].id == x);
                        } else {
                            assert(self.subs@[k - 1].id == x);
                        }
                    }
                }
            },
        }
    }

    /// Hands the receiving end everything queued on its channel, oldest first.
    /// Returns `None` when the subscriber is not registered.
    pub fn take_pending(&mut self, id: u64) -> (r: Option<Vec<Event>>)
        requires
            old(self).wf(),
        ensures
            final(self).wf(),
            final(self).log() == old(self).log(),
            final(self).next_id() == old(self).next_id(),
            r is None <==> !old(self).channels().contains_key(id),
            r is None ==> final(self).channels() == old(self).channels(),
            r matches Some(q) ==> events_view(q@) == old(self).channels()[id].pending
                && final(self).channels() == old(self).channels().insert(
                id,
                ChannelView {
                    taken: old(self).channels()[id].stream(),
                    pending: Seq::empty(),
                    ..old(self).channels()[id]
                },
            ),
    {
        match self.position(id) {
            None => None,
            Some(i) => {
                let ghost old_subs = self.subs@;
                let mut sub = self.subs.remove(i);
                let mut queue: Vec<Event> = Vec::new();
                std::mem::swap(&mut queue, &mut sub.pending);
                proof {
                    sub.taken@ = sub.taken@ + events_view(queue@);
                    assert(events_view(sub.pending@) =~= Seq::<EventView>::empty());
                }
                self.subs.insert(i, sub);
                proof {
                    assert(self.subs@ == old_subs.update(i as int, sub));
                    self.chans@ = self.chans@.insert(id, sub@);
                    assert(sub@.stream() =~= old_subs[i as int]@.stream());
                    assert forall|x: u64| #[trigger] self.chans@.contains_key(x) implies exists|k: int|
                        0 <= k < self.subs@.len() && self.subs@[k].id == x by {
                        let k = choose|k: int| 0 <= k < old_subs.len() && old_subs[k].id == x;
                        assert(self.subs@[k].id == x);
                    }
                }
                Some(queue)
            },
        }
    }

    /// `after` is `before` once `e` has been published: the event is logged,
    /// every open channel holds it at the end of its queue, and every channel
    /// whose receiving end was gone has been evicted.
    pub open spec fn published(before: Hub, e: EventView, after: Hub) -> bool {
        &&& after.wf()
        &&& after.log() == before.log().push(e)
        &&& after.next_id() == before.next_id()
        &&& forall|id: u64|
            #[trigger] after.channels().contains_key(id) <==> (before.channels().contains_key(id)
                && before.channels()[id].open)
        &&& forall|id: u64|
            #[trigger] after.channels().contains_key(id) ==> after.channels()[id]
                == Self::delivered(before.channels()[id], e)
    }

    /// Enqueues `e` on every open channel and evicts every channel whose
    /// receiving end is gone. Never fails and never waits on a reader.
    pub fn publish(&mut self, e: &Event)
        requires
            old(self).wf(),
        ensures
            Self::published(*old(self), e@, *final(self)),
    {
        let ghost old_chans = self.chans@;
        let ghost old_log = self.log@;
        let ghost mut done: Set<u64> = Set::empty();
        proof {
            self.log@ = self.log@.push(e@);
        }
        let mut i: usize = 0;
        while i < self.subs.len()
            invariant
                self.next_id == old(self).next_id,
                self.log@ == old_log.push(e@),
                i <= self.subs@.len(),
                forall|a: int, b: int|
                    0 <= a < b < self.subs@.len() ==> self.subs@[a].id != self.subs@[b].id,
                forall|k: int| 0 <= k < self.subs@.len() ==> self.subs@[k].id < self.next_id,
                forall|k: int|
                    #![trigger self.subs@[k]]
                    0 <= k < self.subs@.len() ==> self.chans@.contains_key(self.subs@[k].id)
                        && self.chans@[self.subs@[k].id] == self.subs@[k]@,
                forall|id: u64|
                    #[trigger] self.chans@.contains_key(id) ==> exists|k: int|
                        0 <= k < self.subs@.len() && self.subs@[k].id == id,
                forall|k: int| 0 <= k < i ==> done.contains(#[trigger] self.subs@[k].id),
                forall|k: int| i <= k < self.subs@.len() ==> !done.contains(#[trigger] self.subs@[k].id),
                forall|id: u64| #[trigger] self.chans@.contains_key(id) ==> old_chans.contains_key(id),
                forall|id: u64|
                    #[trigger] old_chans.contains_key(id) && !done.contains(id) ==> self.chans@.contains_key(id)
                        && self.chans@[id] == old_chans[id],
                forall|id: u64|
                    #[trigger] old_chans.contains_key(id) && done.contains(id) ==> (
                    self.chans@.contains_key(id) <==> old_chans[id].open) && (self.chans@.contains_key(id)
                        ==> self.chans@[id] == Self::delivered(old_chans[id], e@)),
            decreases self.subs@.len() - i,
        {
            let ghost before = self.subs@;
            let ghost sid = self.subs@[i as int].id;
            let outcome = self.subs[i].try_send(e);
            match outcome {
                SendOutcome::Delivered => {
                    proof {
                        self.chans@ = self.chans@.insert(sid, self.subs@[i as int]@);
                        done = done.insert(sid);
                        assert forall|x: u64| #[trigger] self.chans@.contains_key(x) implies exists|k: int|
                            0 <= k < self.subs@.len() && self.subs@[k].id == x by {
                            let k = choose|k: int| 0 <= k < before.len() && before[k].id == x;
                            assert(self.subs@[k].id == x);
                        }
                    }
                    i = i + 1;
                },
                SendOutcome::ReceiverGone => {
                    self.subs.remove(i);
                    proof {
                        self.chans@ = self.chans@.remove(sid);
                        done = done.insert(sid);
                        assert forall|x: u64| #[trigger] self.chans@.contains_key(x) implies exists|k: int|
                            0 <= k < self.subs@.len() && self.subs@[k].id == x by {
                            let k = choose|k: int| 0 <= k < before.len() && before[k].id == x;
                            if k < i {
                                assert(self.subs@[k].id == x);
                            } else {
                                assert(k != i);
                                assert(self.subs@[k - 1].id == x);
                            }
                        }
                    }
                },
            }
        }
        proof {
            assert forall|id: u64| #[trigger] old_chans.contains_key(id) implies done.contains(id) by {
                if !done.contains(id) {
                    let k = choose|k: int| 0 <= k < self.subs@.len() && self.subs@[k].id == id;
                }
            }
            assert forall|id: u64| #[trigger] self.chans@.contains_key(id) implies Self::delivery_holds(
                self.log@,
                self.chans@[id],
            ) by {
                let c = old_chans[id];
                assert(Self::delivery_holds(old_log, c));
                assert(c.open);
                assert(Self::delivered(c, e@).stream() =~= c.stream().push(e@));
                assert(self.log@.subrange(c.joined as int, self.log@.len() as int) =~= old_log.subrange(
                    c.joined as int,
                    old_log.len() as int,
                ).push(e@));
                assert(Self::delivered(c, e@).stream() =~= seq![c.seed] + self.log@.subrange(
                    c.joined as int,
                    self.log@.len() as int,
                ));
            }
        }
    }

    proof fn lemma_dom_is_ids(&self)
        requires
            self.wf(),
        ensures
            self.chans@.dom() == self.subs@.map_values(|s: Subscriber| s.id).to_set(),
            self.chans@.dom().finite(),
            self.chans@.len() == self.subs@.len(),
    {
        let ids = self.subs@.map_values(|s: Subscriber| s.id);
        assert forall|id: u64| self.chans@.dom().contains(id) <==> ids.to_set().contains(id) by {
            if self.chans@.contains_key(id) {
                let i = choose|i: int| 0 <= i < self.subs@.len() && self.subs@[i].id == id;
                assert(ids[i] == id);
            }
            if ids.to_set().contains(id) {
                let i = choose|i: int| 0 <= i < ids.len() && ids[i] == id;
                assert(self.subs@[i].id == id);
            }
        }
        assert(self.chans@.dom() =~= ids.to_set());
        assert(ids.no_duplicates()) by {
            assert forall|i: int, j: int| 0 <= i < ids.len() && 0 <= j < ids.len() && i != j
                implies ids[i] != ids[j] by {
                assert(self.subs@[i].id != self.subs@[j].id);
            }
        }
        ids.unique_seq_to_set();
    }
}

/// Every open subscriber's channel carries exactly its seed event followed
/// by every event published while it was registered, in publish order.
pub proof fn lemma_in_order_delivery(hub: &Hub, id: u64)
    requires
        hub.wf(),
        hub.channels().contains_key(id),
        hub.channels()[id].open,
    ensures
        hub.channels()[id].stream() == seq![hub.channels()[id].seed] + hub.log().subrange(
            hub.channels()[id].joined as int,
            hub.log().len() as int,
        ),
{
}

/// A subscriber that joined after `k` publishes sees its seed first, and
/// after it only the publishes from the `k`-th on: none published before it joined.
pub proof fn lemma_no_retroactive_delivery(hub: &Hub, id: u64)
    requires
        hub.wf(),
        hub.channels().contains_key(id),
        hub.channels()[id].open,
    ensures
        hub.channels()[id].stream().len() == 1 + hub.log().len() - hub.channels()[id].joined,
        hub.channels()[id].stream()[0] == hub.channels()[id].seed,
        forall|n: int|
            1 <= n < hub.channels()[id].stream().len() ==> #[trigger] hub.channels()[id].stream()[n]
                == hub.log()[hub.channels()[id].joined + n - 1],
{
    lemma_in_order_delivery(hub, id);
}

/// A receiving end that is gone when an event is published costs only its
/// own channel: every other open channel still gets the event, at the end
/// of what it already held.
pub proof fn lemma_fanout_survives_disconnects(before: Hub, e: EventView, after: Hub, gone: u64, id: u64)
    requires
        Hub::published(before, e, after),
        before.channels().contains_key(gone),
        !before.channels()[gone].open,
        before.channels().contains_key(id),
        before.channels()[id].open,
    ensures
        !after.channels().contains_key(gone),
        after.channels().contains_key(id),
        after.channels()[id].stream() == before.channels()[id].stream().push(e),
{
    assert(after.channels().contains_key(id));
    assert(Hub::delivered(before.channels()[id], e).stream() =~= before.channels()[id].stream().push(e));
}

/// Two publishes in a row, whatever became of their swaps, both reach a
/// subscriber that stays open, in the order they were made.
pub proof fn lemma_two_publishes_in_order(
    h0: Hub,
    e1: EventView,
    h1: Hub,
    e2: EventView,
    h2: Hub,
    id: u64,
)
    requires
        Hub::published(h0, e1, h1),
        Hub::published(h1, e2, h2),
        h0.channels().contains_key(id),
        h0.channels()[id].open,
    ensures
        h2.channels().contains_key(id),
        h2.channels()[id].stream() == h0.channels()[id].stream() + seq![e1, e2],
{
    assert(h1.channels().contains_key(id));
    assert(h2.channels().contains_key(id));
    assert(h2.channels()[id].stream() =~= h0.channels()[id].stream() + seq![e1, e2]);
}

} // verus!
