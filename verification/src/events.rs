//! What a connection tells those who listen to it.
use vstd::prelude::*;

use crate::channel::{bounded_events, try_send_event, Handover};
use crate::error::{Error, ErrorKind};
use crate::limits::exceeded;

verus! {

/// A connection-level event, as listeners of a connection receive it while the connection progresses
/// through its lifecycle.
#[derive(Debug)]
#[non_exhaustive]
pub enum Event {
    /// The connection has been established (or re-established after recovery).
    Connected,
    /// The broker has blocked the connection due to resource constraints.
    /// The inner string is the human-readable reason supplied by the broker.
    ConnectionBlocked(String),
    /// The broker has unblocked the connection.
    ConnectionUnblocked,
    /// The broker has changed the allowed flow direction.
    /// `true` means publishing is permitted; `false` means it is paused.
    SendFlow(bool),
    /// An error occurred on the connection.
    Error(Error),
}

impl Clone for Event {
    fn clone(&self) -> (copy: Self)
        ensures
            copy == *self,
    {
        match self {
            Event::Connected => Event::Connected,
            Event::ConnectionBlocked(reason) => Event::ConnectionBlocked(reason.clone()),
            Event::ConnectionUnblocked => Event::ConnectionUnblocked,
            Event::SendFlow(active) => Event::SendFlow(*active),
            Event::Error(error) => Event::Error(error.clone()),
        }
    }
}

/// The number of events that wait for a listener at most.
pub const EVENT_CAPACITY: usize = 64;

/// Hands events to one listener, as long as it is there and keeps up.
pub struct Listener {
    sender: flume::Sender<Event>,
    gone: bool,
}

/// A listener, in contracts.
pub struct ListenerView {
    /// The channel that the listener listens to.
    pub channel: int,
    /// The number of events that wait for the listener at most.
    pub capacity: nat,
    /// The events that have been tried on the listener, each with what became of it.
    pub tried: Seq<(Event, Handover)>,
}

/// Hands events to all the listeners.
pub struct EventsSender {
    listeners: Vec<Listener>,
    overflow: bool,
}

/// The events of a connection.
pub struct Events {
    sender: EventsSender,
    identity: Ghost<int>,
}

/// Tells one listener, once, that events have been lost.
#[derive(Debug)]
pub struct OverflowNotice {
    reported: bool,
}

/// What one listener listens to: the events, and the notice that comes before them once events have
/// been lost.
pub struct EventStream {
    /// The events.
    pub receiver: flume::Receiver<Event>,
    /// The notice.
    pub notice: OverflowNotice,
}

impl ListenerView {
    /// A listener on which nothing has been tried yet.
    pub open spec fn fresh(channel: int) -> ListenerView {
        ListenerView { channel, capacity: EVENT_CAPACITY as nat, tried: Seq::empty() }
    }

    /// Did the listener turn out to be gone?
    pub open spec fn gone(self) -> bool {
        self.tried.len() > 0 && self.tried.last().1 is Gone
    }

    /// The events that have been handed to the listener, in their order.
    pub open spec fn received(self) -> Seq<Event> {
        crate::channel::taken(self.tried)
    }

    /// Is there room for one more event, even if the listener has not looked at any?
    pub open spec fn has_room(self) -> bool {
        self.received().len() < self.capacity
    }

    /// The event was tried on the listener, unless the listener was known to be gone. It is not lost
    /// for want of room where there is room.
    pub open spec fn offered(self, event: Event, after: ListenerView) -> bool {
        &&& after.channel == self.channel
        &&& after.capacity == self.capacity
        &&& if self.gone() {
            after.tried == self.tried
        } else {
            &&& after.tried == self.tried.push((event, after.tried.last().1))
            &&& self.has_room() ==> after.tried.last().1 !is Full
        }
    }

    /// Was an event lost that was offered to the listener?
    pub open spec fn lost(self, after: ListenerView) -> bool {
        !self.gone() && after.tried.last().1 is Full
    }
}

/// No two listeners listen to the same channel.
pub open spec fn own_channels(listeners: Seq<ListenerView>) -> bool {
    forall|i: int, j: int|
        0 <= i < j < listeners.len() ==> (#[trigger] listeners[i]).channel != (
        #[trigger] listeners[j]).channel
}

/// Those of some listeners that have not turned out to be gone, in their order.
pub open spec fn remaining(listeners: Seq<ListenerView>) -> Seq<ListenerView> {
    listeners.filter(|listener: ListenerView| !listener.gone())
}

/// Forgetting the listeners that turned out to be gone keeps all the others, in their order, with
/// everything that is known of them.
proof fn lemma_remaining(listeners: Seq<ListenerView>)
    ensures
        remaining(listeners) == listeners.filter(
            |listener: ListenerView| listener.tried.len() == 0 || listener.tried.last().1 !is Gone,
        ),
        forall|i: int|
            0 <= i < listeners.len() && !(listeners[i].tried.len() > 0
                && listeners[i].tried.last().1 is Gone) ==> remaining(listeners).contains(
                #[trigger] listeners[i],
            ),
{
    let here = |listener: ListenerView| !listener.gone();
    let tried = |listener: ListenerView|
        listener.tried.len() == 0 || listener.tried.last().1 !is Gone;
    assert(here =~= tried);
    assert forall|i: int|
        0 <= i < listeners.len() && !(listeners[i].tried.len() > 0 && listeners[i].tried.last().1
            is Gone) implies remaining(listeners).contains(#[trigger] listeners[i]) by {
        listeners.lemma_filter_contains(tried, i);
    }
}

/// The views of some listeners.
spec fn views(listeners: Seq<Listener>) -> Seq<ListenerView> {
    listeners.map_values(|listener: Listener| listener@)
}

/// It is known of each listener whether it turned out to be gone, and nobody else sends to it.
spec fn up_to_date(listeners: Seq<Listener>) -> bool {
    forall|i: int| 0 <= i < listeners.len() ==> (#[trigger] listeners[i]).well_formed()
}

impl Listener {
    /// The listener, in contracts.
    pub closed spec fn view(&self) -> ListenerView {
        ListenerView {
            channel: crate::channel::event_channel(self.sender),
            capacity: crate::channel::event_capacity(self.sender),
            tried: crate::channel::events_tried(self.sender),
        }
    }

    /// It is known whether the listener turned out to be gone, and nobody else sends to it.
    pub closed spec fn well_formed(self) -> bool {
        &&& self.gone == self@.gone()
        &&& crate::channel::sole_sender(self.sender)
    }

    /// Hand out an event, if the listener is there. Says whether the event was lost.
    fn offer(&mut self, event: Event) -> (lost: bool)
        requires
            old(self).well_formed(),
        ensures
            final(self).well_formed(),
            old(self)@.offered(event, final(self)@),
            lost == old(self)@.lost(final(self)@),
    {
        if self.gone {
            return false;
        }
        match try_send_event(&mut self.sender, event) {
            Handover::Taken => false,
            Handover::Full => true,
            Handover::Gone => {
                self.gone = true;
                false
            },
        }
    }
}

impl EventsSender {
    /// Has an event been lost?
    pub closed spec fn overflowed(self) -> bool {
        self.overflow
    }

    /// The listeners.
    pub closed spec fn listeners(self) -> Seq<ListenerView> {
        views(self.listeners@)
    }

    /// It is known of each listener whether it turned out to be gone, and each has its own channel.
    pub closed spec fn well_formed(self) -> bool {
        &&& up_to_date(self.listeners@)
        &&& own_channels(self.listeners())
    }

    /// Was an event lost that was offered to all the listeners?
    pub open spec fn lost(self, after: EventsSender) -> bool {
        exists|i: int|
            0 <= i < self.listeners().len() && (#[trigger] self.listeners()[i]).lost(
                after.listeners()[i],
            )
    }

    /// An event was offered: to every listener on its own. A loss was noted, and the first loss was
    /// reported.
    pub open spec fn offered(
        self,
        event: Event,
        after: EventsSender,
        report: Option<Error>,
    ) -> bool {
        &&& after.listeners().len() == self.listeners().len()
        &&& forall|i: int|
            0 <= i < self.listeners().len() ==> (#[trigger] self.listeners()[i]).offered(
                event,
                after.listeners()[i],
            )
        &&& after.overflowed() == (self.overflowed() || self.lost(after))
        &&& report is Some <==> self.lost(after) && !self.overflowed()
        &&& report matches Some(error) ==> error.spec_kind() == ErrorKind::ResourceLimitExceeded
    }

    /// Decide what the outcome of handing out an event means. The first event that is lost is
    /// reported as an error of the connection, later ones are not.
    pub fn record(&mut self, lost: bool) -> (report: Option<Error>)
        ensures
            old(self).well_formed() ==> final(self).well_formed(),
            final(self).listeners() == old(self).listeners(),
            final(self).overflowed() == (old(self).overflowed() || lost),
            report is Some <==> lost && !old(self).overflowed(),
            report matches Some(error) ==> error.spec_kind() == ErrorKind::ResourceLimitExceeded,
    {
        if !lost {
            return None;
        }
        let known: bool = self.overflow;
        self.overflow = true;
        if known {
            None
        } else {
            Some(exceeded())
        }
    }

    /// Hand out an event to every listener. What comes back is an error that ends the connection.
    pub fn send(&mut self, event: Event) -> (report: Option<Error>)
        requires
            old(self).well_formed(),
        ensures
            final(self).well_formed(),
            old(self).offered(event, *final(self), report),
            final(self).listeners().len() == old(self).listeners().len(),
            forall|i: int|
                0 <= i < old(self).listeners().len() ==> {
                    let before = #[trigger] old(self).listeners()[i];
                    let after = final(self).listeners()[i];
                    &&& after.channel == before.channel
                    &&& after.capacity == before.capacity
                    &&& if before.tried.len() > 0 && before.tried.last().1 is Gone {
                        after.tried == before.tried
                    } else {
                        &&& after.tried == before.tried.push((event, after.tried.last().1))
                        &&& crate::channel::taken(before.tried).len() < before.capacity
                            ==> after.tried.last().1 !is Full
                    }
                },
            final(self).overflowed() <==> old(self).overflowed() || exists|i: int|
                0 <= i < old(self).listeners().len() && final(self).listeners()[i].tried
                    != (#[trigger] old(self).listeners()[i]).tried
                    && final(self).listeners()[i].tried.last().1 is Full,
            report is Some <==> final(self).overflowed() && !old(self).overflowed(),
            report matches Some(error) ==> error.spec_kind() == ErrorKind::ResourceLimitExceeded,
    {
        let ghost before = *self;
        let mut lost: bool = false;
        let mut i: usize = 0;
        while i < self.listeners.len()
            invariant
                before == *old(self),
                self.overflow == before.overflow,
                self.listeners@.len() == before.listeners@.len(),
                i <= self.listeners@.len(),
                up_to_date(before.listeners@),
                up_to_date(self.listeners@),
                forall|j: int|
                    0 <= j < i ==> (#[trigger] before.listeners@[j])@.offered(
                        event,
                        self.listeners@[j]@,
                    ),
                forall|j: int|
                    i <= j < self.listeners@.len() ==> #[trigger] self.listeners@[j]
                        == before.listeners@[j],
                lost <==> exists|j: int|
                    0 <= j < i && (#[trigger] before.listeners@[j])@.lost(self.listeners@[j]@),
            decreases self.listeners@.len() - i,
        {
            let ghost then = self.listeners@;
            let listener = &mut self.listeners[i];
            let missed: bool = listener.offer(event.clone());
            proof {
                let now = self.listeners@;
                assert forall|j: int| 0 <= j < now.len() && j != i implies #[trigger] now[j]
                    == then[j] by {}
                assert(before.listeners@[i as int]@.lost(now[i as int]@) == missed);
                if lost {
                    let j = choose|j: int|
                        0 <= j < i && (#[trigger] before.listeners@[j])@.lost(then[j]@);
                    assert(before.listeners@[j]@.lost(now[j]@));
                }
            }
            if missed {
                lost = true;
            }
            i = i + 1;
        }
        proof {
            let now = *self;
            assert forall|j: int| 0 <= j < before.listeners().len() implies (
            #[trigger] before.listeners()[j]).offered(event, now.listeners()[j]) by {
                assert(before.listeners()[j] == before.listeners@[j]@);
            }
            if lost {
                let j = choose|j: int|
                    0 <= j < i && (#[trigger] before.listeners@[j])@.lost(now.listeners@[j]@);
                assert(before.listeners()[j].lost(now.listeners()[j]));
            }
            if before.lost(now) {
                let j = choose|j: int|
                    0 <= j < before.listeners().len() && (#[trigger] before.listeners()[j]).lost(
                        now.listeners()[j],
                    );
                assert(before.listeners@[j]@.lost(now.listeners@[j]@));
            }
            assert(own_channels(now.listeners())) by {
                assert forall|j: int, k: int| 0 <= j < k < now.listeners().len() implies (
                #[trigger] now.listeners()[j]).channel != (#[trigger] now.listeners()[k]).channel by {
                    assert(before.listeners()[j].offered(event, now.listeners()[j]));
                    assert(before.listeners()[k].offered(event, now.listeners()[k]));
                }
            }
        }
        self.record(lost)
    }

    /// The connection has been established.
    pub fn connected(&mut self) -> (report: Option<Error>)
        requires
            old(self).well_formed(),
        ensures
            final(self).well_formed(),
            old(self).offered(Event::Connected, *final(self), report),
            final(self).listeners().len() == old(self).listeners().len(),
            forall|i: int|
                0 <= i < old(self).listeners().len() ==> {
                    let before = #[trigger] old(self).listeners()[i];
                    let after = final(self).listeners()[i];
                    &&& after.channel == before.channel
                    &&& after.capacity == before.capacity
                    &&& if before.tried.len() > 0 && before.tried.last().1 is Gone {
                        after.tried == before.tried
                    } else {
                        &&& after.tried == before.tried.push((Event::Connected, after.tried.last().1))
                        &&& crate::channel::taken(before.tried).len() < before.capacity
                            ==> after.tried.last().1 !is Full
                    }
                },
            final(self).overflowed() <==> old(self).overflowed() || exists|i: int|
                0 <= i < old(self).listeners().len() && final(self).listeners()[i].tried
                    != (#[trigger] old(self).listeners()[i]).tried
                    && final(self).listeners()[i].tried.last().1 is Full,
            report is Some <==> final(self).overflowed() && !old(self).overflowed(),
            report matches Some(error) ==> error.spec_kind() == ErrorKind::ResourceLimitExceeded,
    {
        self.send(Event::Connected)
    }

    /// The broker has blocked the connection.
    pub fn connection_blocked(&mut self, reason: String) -> (report: Option<Error>)
        requires
            old(self).well_formed(),
        ensures
            final(self).well_formed(),
            old(self).offered(Event::ConnectionBlocked(reason), *final(self), report),
            final(self).listeners().len() == old(self).listeners().len(),
            forall|i: int|
                0 <= i < old(self).listeners().len() ==> {
                    let before = #[trigger] old(self).listeners()[i];
                    let after = final(self).listeners()[i];
                    &&& after.channel == before.channel
                    &&& after.capacity == before.capacity
                    &&& if before.tried.len() > 0 && before.tried.last().1 is Gone {
                        after.tried == before.tried
                    } else {
                        &&& after.tried == before.tried.push((Event::ConnectionBlocked(reason), after.tried.last().1))
                        &&& crate::channel::taken(before.tried).len() < before.capacity
                            ==> after.tried.last().1 !is Full
                    }
                },
            final(self).overflowed() <==> old(self).overflowed() || exists|i: int|
                0 <= i < old(self).listeners().len() && final(self).listeners()[i].tried
                    != (#[trigger] old(self).listeners()[i]).tried
                    && final(self).listeners()[i].tried.last().1 is Full,
            report is Some <==> final(self).overflowed() && !old(self).overflowed(),
            report matches Some(error) ==> error.spec_kind() == ErrorKind::ResourceLimitExceeded,
    {
        self.send(Event::ConnectionBlocked(reason))
    }

    /// The broker has unblocked the connection.
    pub fn connection_unblocked(&mut self) -> (report: Option<Error>)
        requires
            old(self).well_formed(),
        ensures
            final(self).well_formed(),
            old(self).offered(Event::ConnectionUnblocked, *final(self), report),
            final(self).listeners().len() == old(self).listeners().len(),
            forall|i: int|
                0 <= i < old(self).listeners().len() ==> {
                    let before = #[trigger] old(self).listeners()[i];
                    let after = final(self).listeners()[i];
                    &&& after.channel == before.channel
                    &&& after.capacity == before.capacity
                    &&& if before.tried.len() > 0 && before.tried.last().1 is Gone {
                        after.tried == before.tried
                    } else {
                        &&& after.tried == before.tried.push((Event::ConnectionUnblocked, after.tried.last().1))
                        &&& crate::channel::taken(before.tried).len() < before.capacity
                            ==> after.tried.last().1 !is Full
                    }
                },
            final(self).overflowed() <==> old(self).overflowed() || exists|i: int|
                0 <= i < old(self).listeners().len() && final(self).listeners()[i].tried
                    != (#[trigger] old(self).listeners()[i]).tried
                    && final(self).listeners()[i].tried.last().1 is Full,
            report is Some <==> final(self).overflowed() && !old(self).overflowed(),
            report matches Some(error) ==> error.spec_kind() == ErrorKind::ResourceLimitExceeded,
    {
        self.send(Event::ConnectionUnblocked)
    }

    /// The broker has changed the allowed flow direction.
    pub fn send_flow(&mut self, active: bool) -> (report: Option<Error>)
        requires
            old(self).well_formed(),
        ensures
            final(self).well_formed(),
            old(self).offered(Event::SendFlow(active), *final(self), report),
            final(self).listeners().len() == old(self).listeners().len(),
            forall|i: int|
                0 <= i < old(self).listeners().len() ==> {
                    let before = #[trigger] old(self).listeners()[i];
                    let after = final(self).listeners()[i];
                    &&& after.channel == before.channel
                    &&& after.capacity == before.capacity
                    &&& if before.tried.len() > 0 && before.tried.last().1 is Gone {
                        after.tried == before.tried
                    } else {
                        &&& after.tried == before.tried.push((Event::SendFlow(active), after.tried.last().1))
                        &&& crate::channel::taken(before.tried).len() < before.capacity
                            ==> after.tried.last().1 !is Full
                    }
                },
            final(self).overflowed() <==> old(self).overflowed() || exists|i: int|
                0 <= i < old(self).listeners().len() && final(self).listeners()[i].tried
                    != (#[trigger] old(self).listeners()[i]).tried
                    && final(self).listeners()[i].tried.last().1 is Full,
            report is Some <==> final(self).overflowed() && !old(self).overflowed(),
            report matches Some(error) ==> error.spec_kind() == ErrorKind::ResourceLimitExceeded,
    {
        self.send(Event::SendFlow(active))
    }

    /// An error occurred on the connection.
    pub fn error(&mut self, error: Error) -> (report: Option<Error>)
        requires
            old(self).well_formed(),
        ensures
            final(self).well_formed(),
            old(self).offered(Event::Error(error), *final(self), report),
            final(self).listeners().len() == old(self).listeners().len(),
            forall|i: int|
                0 <= i < old(self).listeners().len() ==> {
                    let before = #[trigger] old(self).listeners()[i];
                    let after = final(self).listeners()[i];
                    &&& after.channel == before.channel
                    &&& after.capacity == before.capacity
                    &&& if before.tried.len() > 0 && before.tried.last().1 is Gone {
                        after.tried == before.tried
                    } else {
                        &&& after.tried == before.tried.push((Event::Error(error), after.tried.last().1))
                        &&& crate::channel::taken(before.tried).len() < before.capacity
                            ==> after.tried.last().1 !is Full
                    }
                },
            final(self).overflowed() <==> old(self).overflowed() || exists|i: int|
                0 <= i < old(self).listeners().len() && final(self).listeners()[i].tried
                    != (#[trigger] old(self).listeners()[i]).tried
                    && final(self).listeners()[i].tried.last().1 is Full,
            report is Some <==> final(self).overflowed() && !old(self).overflowed(),
            report matches Some(lost) ==> lost.spec_kind() == ErrorKind::ResourceLimitExceeded,
    {
        self.send(Event::Error(error))
    }
}

/// Every listener of a connection has its own channel.
pub proof fn each_listener_has_its_own_channel(sender: EventsSender)
    requires
        sender.well_formed(),
    ensures
        own_channels(sender.listeners()),
{
}

impl Events {
    /// What hands out the events.
    pub closed spec fn spec_sender(self) -> EventsSender {
        self.sender
    }

    /// Which events these are. Nothing is known of the identities of two of them.
    pub closed spec fn identity(self) -> int {
        self.identity@
    }

    /// It is known of each listener whether it turned out to be gone, and each has its own channel.
    pub open spec fn well_formed(self) -> bool {
        self.spec_sender().well_formed()
    }

    /// The events of a new connection.
    pub fn new() -> (events: Events)
        ensures
            events.well_formed(),
            events.spec_sender().listeners() == Seq::<ListenerView>::empty(),
            !events.spec_sender().overflowed(),
    {
        Events {
            sender: EventsSender { listeners: Vec::new(), overflow: false },
            identity: Ghost(arbitrary()),
        }
    }

    /// What hands out the events.
    pub fn sender(&mut self) -> (sender: &mut EventsSender)
        ensures
            *sender == old(self).spec_sender(),
            final(self).spec_sender() == *final(sender),
            final(self).identity() == old(self).identity(),
    {
        &mut self.sender
    }

    /// One more listener, with a channel of its own. Those that turned out to be gone are forgotten.
    pub fn listener(&mut self) -> (stream: EventStream)
        requires
            old(self).well_formed(),
        ensures
            final(self).well_formed(),
            final(self).spec_sender().listeners() == remaining(
                old(self).spec_sender().listeners(),
            ).push(
                ListenerView::fresh(crate::channel::listened_channel(stream.receiver)),
            ),
            final(self).spec_sender().overflowed() == old(self).spec_sender().overflowed(),
            final(self).identity() == old(self).identity(),
            !stream.notice.given(),
            forall|i: int|
                0 <= i < old(self).spec_sender().listeners().len() && !(old(self).spec_sender().listeners()[i].tried.len() > 0
                    && old(self).spec_sender().listeners()[i].tried.last().1 is Gone) ==> final(self).spec_sender().listeners().contains(
                    #[trigger] old(self).spec_sender().listeners()[i],
                ),
            final(self).spec_sender().listeners().drop_last() == old(self).spec_sender().listeners().filter(
                |listener: ListenerView|
                    listener.tried.len() == 0 || listener.tried.last().1 !is Gone,
            ),
            final(self).spec_sender().listeners().len() > 0,
            final(self).spec_sender().listeners().last().channel == crate::channel::listened_channel(stream.receiver),
            final(self).spec_sender().listeners().last().capacity == 64,
            final(self).spec_sender().listeners().last().tried.len() == 0,
            forall|i: int, j: int|
                0 <= i < j < final(self).spec_sender().listeners().len() ==> (#[trigger] final(self).spec_sender().listeners()[i]).channel != (
                #[trigger] final(self).spec_sender().listeners()[j]).channel,
    {
        let ghost before = self.sender.listeners();
        forget_gone(&mut self.sender.listeners);
        let ghost rest = self.sender.listeners();
        let (sender, receiver) = bounded_events(EVENT_CAPACITY, &self.sender.listeners);
        let ghost others = self.sender.listeners@;
        self.sender.listeners.push(Listener { sender, gone: false });
        proof {
            let all = self.sender.listeners();
            assert(all =~= rest.push(
                ListenerView::fresh(crate::channel::listened_channel(receiver)),
            ));
            lemma_remaining(before);
            assert(all.drop_last() =~= rest);
            assert forall|j: int|
                0 <= j < before.len() && !(before[j].tried.len() > 0 && before[j].tried.last().1
                    is Gone) implies all.contains(#[trigger] before[j]) by {
                let k = choose|k: int| 0 <= k < rest.len() && rest[k] == before[j];
                assert(all[k] == before[j]);
            }
            assert forall|j: int, k: int| 0 <= j < k < all.len() implies (#[trigger] all[j]).channel
                != (#[trigger] all[k]).channel by {
                assert(all[j] == rest[j] && rest[j] == others[j]@);
                if k < rest.len() {
                    assert(all[k] == rest[k]);
                }
            }
        }
        EventStream { receiver, notice: OverflowNotice { reported: false } }
    }

    /// Has an event been lost?
    pub fn overflowed(&self) -> (lost: bool)
        ensures
            lost == self.spec_sender().overflowed(),
    {
        self.sender.overflow
    }
}

/// Forget the listeners that turned out to be gone, and keep the others in their order.
fn forget_gone(listeners: &mut Vec<Listener>)
    requires
        up_to_date(old(listeners)@),
        own_channels(views(old(listeners)@)),
    ensures
        up_to_date(final(listeners)@),
        own_channels(views(final(listeners)@)),
        views(final(listeners)@) == remaining(views(old(listeners)@)),
{
    let ghost all = views(listeners@);
    let ghost keep = |listener: ListenerView| !listener.gone();
    let ghost mut seen: int = 0;
    let mut i: usize = 0;
    proof {
        reveal(Seq::filter);
        assert(all.take(0) =~= Seq::empty());
        assert(views(listeners@).take(0) =~= Seq::empty());
        assert(all.skip(0) =~= all);
    }
    while i < listeners.len()
        invariant
            keep == (|listener: ListenerView| !listener.gone()),
            up_to_date(listeners@),
            own_channels(views(listeners@)),
            0 <= seen <= all.len(),
            i <= listeners@.len(),
            listeners@.len() - i == all.len() - seen,
            views(listeners@).take(i as int) == all.take(seen).filter(keep),
            views(listeners@).skip(i as int) == all.skip(seen),
        decreases listeners@.len() - i,
    {
        let ghost now = views(listeners@);
        let gone: bool = listeners[i].gone;
        proof {
            reveal(Seq::filter);
            assert(listeners@[i as int].well_formed());
            assert(now.skip(i as int)[0] == now[i as int]);
            assert(all.skip(seen)[0] == all[seen]);
            assert(gone == !keep(all[seen]));
            assert(all.take(seen + 1).drop_last() =~= all.take(seen));
        }
        if gone {
            let ghost before = listeners@;
            listeners.remove(i);
            proof {
                let after = listeners@;
                let then = views(after);
                assert(then =~= now.remove(i as int));
                assert(then.take(i as int) =~= now.take(i as int));
                assert(then.skip(i as int) =~= now.skip(i as int).skip(1));
                assert forall|j: int| 0 <= j < after.len() implies (
                #[trigger] after[j]).well_formed() by {
                    let p = if j < i { j } else { j + 1 };
                    assert(after[j] == before[p]);
                }
                assert forall|j: int, k: int| 0 <= j < k < then.len() implies (
                #[trigger] then[j]).channel != (#[trigger] then[k]).channel by {
                    let p = if j < i { j } else { j + 1 };
                    let q = if k < i { k } else { k + 1 };
                    assert(then[j] == now[p] && then[k] == now[q]);
                }
            }
        } else {
            proof {
                assert(now.take(i + 1) =~= now.take(i as int).push(now[i as int]));
                assert(now.skip(i + 1) =~= now.skip(i as int).skip(1));
            }
            i = i + 1;
        }
        proof {
            assert(all.skip(seen + 1) =~= all.skip(seen).skip(1));
            seen = seen + 1;
        }
    }
    proof {
        assert(all.take(seen) =~= all);
        assert(views(listeners@).take(i as int) =~= views(listeners@));
    }
}

impl OverflowNotice {
    /// Has the listener been told?
    pub closed spec fn given(self) -> bool {
        self.reported
    }

    /// The listener looked: it is told of lost events, unless it has been told before.
    pub open spec fn looked(self, lost: bool, after: OverflowNotice, told: Option<Event>) -> bool {
        &&& after.given() == (self.given() || lost)
        &&& told is Some <==> lost && !self.given()
        &&& told matches Some(event) ==> (event matches Event::Error(error) && error.spec_kind()
            == ErrorKind::ResourceLimitExceeded)
    }

    /// What to tell the listener before it looks for its next event.
    pub fn poll(&mut self, overflowed: bool) -> (notice: Option<Event>)
        ensures
            old(self).looked(overflowed, *final(self), notice),
            final(self).given() == (old(self).given() || overflowed),
            notice is Some <==> overflowed && !old(self).given(),
            notice matches Some(event) ==> (event matches Event::Error(error) && error.spec_kind()
                == ErrorKind::ResourceLimitExceeded),
    {
        if overflowed && !self.reported {
            self.reported = true;
            Some(Event::Error(exceeded()))
        } else {
            None
        }
    }
}

} // verus!
