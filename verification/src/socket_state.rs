//! Which operations of the physical transport are worth trying, and how its owner is woken up.
use vstd::prelude::*;

use crate::channel::{
    bounded_notifications, notification_count, recv_notification, try_recv_notification,
    try_send_notification,
};
use crate::error::{Error, ErrorKind, IoErrorKind};

verus! {

/// What the owner of the transport is woken up for.
#[derive(Clone, Copy, Debug, PartialEq, Eq, Structural)]
pub enum SocketEvent {
    /// There may be something to read.
    Readable,
    /// There may be room to write.
    Writable,
    /// There is something else to look at.
    Wake,
}

/// The outcome of a transport operation that may not be able to proceed.
#[derive(Clone, Copy, Debug, PartialEq, Eq)]
pub enum Poll<T> {
    /// It has been done.
    Ready(T),
    /// It cannot be done yet.
    Pending,
}

/// What wakes up the owner of the transport: the events since it last looked, and a notification in
/// a channel with room for one. Events are never queued up, however many come in.
pub struct SocketStateHandle {
    sender: flume::Sender<()>,
    events: flume::Receiver<()>,
    pending: u8,
}

/// Wakes up the owner of one transport for one kind of event.
#[derive(Clone, Copy)]
pub struct SocketStateWaker {
    event: SocketEvent,
    channel: Ghost<int>,
}

/// What the owner of the transport knows about it.
pub struct SocketState {
    readable: bool,
    writable: bool,
    handle: SocketStateHandle,
}

/// The events that have come in since the owner last looked.
pub struct PendingView {
    pub readable: bool,
    pub writable: bool,
    pub wake: bool,
}

/// A socket state, in contracts.
pub struct SocketView {
    pub readable: bool,
    pub writable: bool,
    pub pending: PendingView,
}

impl PendingView {
    /// No events.
    pub open spec fn none() -> PendingView {
        PendingView { readable: false, writable: false, wake: false }
    }

    /// The same events and one more.
    pub open spec fn and(self, event: SocketEvent) -> PendingView {
        match event {
            SocketEvent::Readable => PendingView { readable: true, ..self },
            SocketEvent::Writable => PendingView { writable: true, ..self },
            SocketEvent::Wake => PendingView { wake: true, ..self },
        }
    }

    /// Is there any event?
    pub open spec fn any(self) -> bool {
        self.readable || self.writable || self.wake
    }
}

impl SocketView {
    /// The state of a transport that has not been tried yet.
    pub open spec fn fresh() -> SocketView {
        SocketView { readable: true, writable: true, pending: PendingView::none() }
    }

    /// The same state after an event has come in.
    pub open spec fn sent(self, event: SocketEvent) -> SocketView {
        SocketView { pending: self.pending.and(event), ..self }
    }

    /// The same state after the owner has looked at the events.
    pub open spec fn applied(self) -> SocketView {
        SocketView {
            readable: self.readable || self.pending.readable,
            writable: self.writable || self.pending.writable,
            pending: PendingView::none(),
        }
    }
}

impl SocketEvent {
    /// The bit that stands for the event.
    fn bit(self) -> (bit: u8)
        ensures
            bit == spec_bit(self),
    {
        match self {
            SocketEvent::Readable => 1,
            SocketEvent::Writable => 2,
            SocketEvent::Wake => 4,
        }
    }
}

/// The bit that stands for an event.
spec fn spec_bit(event: SocketEvent) -> u8 {
    match event {
        SocketEvent::Readable => 1,
        SocketEvent::Writable => 2,
        SocketEvent::Wake => 4,
    }
}

impl SocketStateHandle {
    /// The events that have come in since the owner last looked.
    pub closed spec fn view(&self) -> PendingView {
        PendingView {
            readable: self.pending & 1 != 0,
            writable: self.pending & 2 != 0,
            wake: self.pending & 4 != 0,
        }
    }

    /// The channel of the notifications.
    pub closed spec fn channel(self) -> int {
        crate::channel::notification_channel(self.sender)
    }

    /// The number of notifications in the channel.
    pub closed spec fn notifications(self) -> nat {
        crate::channel::notifications(self.sender, self.events)->0
    }

    /// Only the bits of events are set, and there is a notification in the channel just where there
    /// is an event to look at.
    pub closed spec fn well_formed(self) -> bool {
        &&& self.pending < 8
        &&& crate::channel::notification_capacity(self.sender) == 1
        &&& crate::channel::notifications(self.sender, self.events) == Some(
            if self.pending != 0 {
                1nat
            } else {
                0nat
            },
        )
    }

    fn new() -> (handle: SocketStateHandle)
        ensures
            handle.well_formed(),
            handle@ == PendingView::none(),
            handle.notifications() == 0,
    {
        let (sender, events) = bounded_notifications(1);
        assert(0u8 & 1 == 0 && 0u8 & 2 == 0 && 0u8 & 4 == 0) by (bit_vector);
        SocketStateHandle { sender, events, pending: 0 }
    }

    /// Let an event come in. Never waits and never queues up more than one notification.
    pub fn send(&mut self, event: SocketEvent)
        requires
            old(self).well_formed(),
        ensures
            final(self).well_formed(),
            final(self).channel() == old(self).channel(),
            final(self)@ == old(self)@.and(event),
            final(self)@.readable == (old(self)@.readable || event is Readable),
            final(self)@.writable == (old(self)@.writable || event is Writable),
            final(self)@.wake == (old(self)@.wake || event is Wake),
            final(self).notifications() == 1,
    {
        let ghost before = self.pending;
        let bit: u8 = event.bit();
        self.pending = self.pending | bit;
        proof {
            let after = self.pending;
            assert(before < 8 && (bit == 1 || bit == 2 || bit == 4) ==> (before | bit) < 8 && (before
                | bit) != 0) by (bit_vector);
            assert((before | 1) & 1 != 0 && (before | 1) & 2 == before & 2 && (before | 1) & 4
                == before & 4) by (bit_vector);
            assert((before | 2) & 2 != 0 && (before | 2) & 1 == before & 1 && (before | 2) & 4
                == before & 4) by (bit_vector);
            assert((before | 4) & 4 != 0 && (before | 4) & 1 == before & 1 && (before | 4) & 2
                == before & 2) by (bit_vector);
        }
        let _ = try_send_notification(&mut self.sender, &mut self.events);
    }

    /// Wake up the owner for something else than readiness.
    pub fn wake(&mut self)
        requires
            old(self).well_formed(),
        ensures
            final(self).well_formed(),
            final(self).channel() == old(self).channel(),
            final(self)@ == old(self)@.and(SocketEvent::Wake),
            final(self)@.readable == old(self)@.readable,
            final(self)@.writable == old(self)@.writable,
            final(self)@.wake,
            final(self).notifications() == 1,
    {
        self.send(SocketEvent::Wake);
    }
}

impl SocketStateWaker {
    /// What it wakes up for.
    pub closed spec fn spec_event(self) -> SocketEvent {
        self.event
    }

    /// The channel of the notifications to the owner that it wakes up.
    pub closed spec fn channel(self) -> int {
        self.channel@
    }

    /// Let the event come in, where it belongs.
    pub fn wake(&self, handle: &mut SocketStateHandle)
        requires
            old(handle).well_formed(),
            old(handle).channel() == self.channel(),
        ensures
            final(handle).well_formed(),
            final(handle).channel() == old(handle).channel(),
            final(handle)@ == old(handle)@.and(self.spec_event()),
            final(handle)@.readable == (old(handle)@.readable || self.spec_event() is Readable),
            final(handle)@.writable == (old(handle)@.writable || self.spec_event() is Writable),
            final(handle)@.wake == (old(handle)@.wake || self.spec_event() is Wake),
            final(handle).notifications() == 1,
    {
        handle.send(self.event);
    }
}

impl SocketState {
    /// The socket state, in contracts.
    pub closed spec fn view(&self) -> SocketView {
        SocketView { readable: self.readable, writable: self.writable, pending: self.handle@ }
    }

    /// The channel of the notifications.
    pub closed spec fn channel(self) -> int {
        self.handle.channel()
    }

    /// The number of notifications in the channel.
    pub closed spec fn notifications(self) -> nat {
        self.handle.notifications()
    }

    /// There is a notification in the channel just where there is an event to look at.
    pub closed spec fn well_formed(self) -> bool {
        self.handle.well_formed()
    }

    /// A transport that has not been tried yet: reading and writing are both worth trying.
    pub fn new() -> (state: SocketState)
        ensures
            state.well_formed(),
            state@ == SocketView::fresh(),
            state@.readable && state@.writable,
            !state@.pending.readable && !state@.pending.writable && !state@.pending.wake,
    {
        SocketState { readable: true, writable: true, handle: SocketStateHandle::new() }
    }

    /// Is reading worth trying?
    pub fn readable(&self) -> (yes: bool)
        ensures
            yes == self@.readable,
    {
        self.readable
    }

    /// Is writing worth trying?
    pub fn writable(&self) -> (yes: bool)
        ensures
            yes == self@.writable,
    {
        self.writable
    }

    /// Is there an event to look at?
    pub fn has_event(&self) -> (yes: bool)
        requires
            self.well_formed(),
        ensures
            yes == self@.pending.any(),
            yes == (self@.pending.readable || self@.pending.writable || self@.pending.wake),
            yes == (self.notifications() > 0),
    {
        let pending: u8 = self.handle.pending;
        assert(pending < 8 ==> ((pending != 0) <==> (pending & 1 != 0 || pending & 2 != 0 || pending
            & 4 != 0))) by (bit_vector);
        pending != 0
    }

    /// The number of notifications in the channel.
    pub fn notification_count(&self) -> (count: usize)
        requires
            self.well_formed(),
        ensures
            count == self.notifications(),
    {
        notification_count(&self.handle.sender, &self.handle.events)
    }

    /// Look at the events that a notification has announced.
    pub fn wait(&mut self)
        requires
            old(self).well_formed(),
            old(self)@.pending.any(),
        ensures
            final(self).well_formed(),
            final(self).channel() == old(self).channel(),
            final(self)@ == old(self)@.applied(),
            final(self)@.readable == (old(self)@.readable || old(self)@.pending.readable),
            final(self)@.writable == (old(self)@.writable || old(self)@.pending.writable),
            !final(self)@.pending.readable && !final(self)@.pending.writable
                && !final(self)@.pending.wake,
            final(self).notifications() == 0,
    {
        let pending: u8 = self.handle.pending;
        assert(pending == 0 ==> pending & 1 == 0 && pending & 2 == 0 && pending & 4 == 0)
            by (bit_vector);
        if recv_notification(&mut self.handle.sender, &mut self.handle.events) {
            self.apply_pending();
        }
    }

    /// Look at the events if a notification has announced any.
    pub fn poll_events(&mut self)
        requires
            old(self).well_formed(),
        ensures
            final(self).well_formed(),
            final(self).channel() == old(self).channel(),
            final(self)@ == old(self)@.applied(),
            final(self)@.readable == (old(self)@.readable || old(self)@.pending.readable),
            final(self)@.writable == (old(self)@.writable || old(self)@.pending.writable),
            !final(self)@.pending.readable && !final(self)@.pending.writable
                && !final(self)@.pending.wake,
            final(self).notifications() == 0,
    {
        let pending: u8 = self.handle.pending;
        assert(pending == 0 ==> pending & 1 == 0 && pending & 2 == 0 && pending & 4 == 0)
            by (bit_vector);
        if try_recv_notification(&mut self.handle.sender, &mut self.handle.events) {
            self.apply_pending();
        }
    }

    /// Reading and writing are both worth trying again.
    pub fn reset(&mut self)
        requires
            old(self).well_formed(),
        ensures
            final(self).well_formed(),
            final(self).channel() == old(self).channel(),
            final(self)@ == (SocketView { readable: true, writable: true, ..old(self)@ }),
            final(self).notifications() == old(self).notifications(),
    {
        self.readable = true;
        self.writable = true;
    }

    /// What wakes up the owner.
    pub fn handle(&mut self) -> (handle: &mut SocketStateHandle)
        requires
            old(self).well_formed(),
        ensures
            handle.well_formed(),
            handle.channel() == old(self).channel(),
            handle@ == old(self)@.pending,
            handle.notifications() == old(self).notifications(),
            final(self)@ == (SocketView { pending: final(handle)@, ..old(self)@ }),
            final(self).notifications() == final(handle).notifications(),
            final(self).channel() == final(handle).channel(),
            final(handle).well_formed() ==> final(self).well_formed(),
    {
        &mut self.handle
    }

    /// What was read, or nothing: reading is then not worth trying until an event says so.
    pub fn handle_read_poll(&mut self, poll: Poll<usize>) -> (read: Option<usize>)
        requires
            old(self).well_formed(),
        ensures
            final(self).well_formed(),
            final(self).channel() == old(self).channel(),
            final(self).notifications() == old(self).notifications(),
            match poll {
                Poll::Ready(size) => read == Some(size) && final(self)@ == old(self)@,
                Poll::Pending => read is None && final(self)@ == (SocketView {
                    readable: false,
                    ..old(self)@
                }),
            },
    {
        match poll {
            Poll::Ready(size) => Some(size),
            Poll::Pending => {
                self.readable = false;
                None
            },
        }
    }

    /// What was written, or nothing: writing is then not worth trying until an event says so.
    pub fn handle_write_poll<T>(&mut self, poll: Poll<T>) -> (written: Option<T>)
        requires
            old(self).well_formed(),
        ensures
            final(self).well_formed(),
            final(self).channel() == old(self).channel(),
            final(self).notifications() == old(self).notifications(),
            match poll {
                Poll::Ready(size) => written == Some(size) && final(self)@ == old(self)@,
                Poll::Pending => written is None && final(self)@ == (SocketView {
                    writable: false,
                    ..old(self)@
                }),
            },
    {
        match poll {
            Poll::Ready(size) => Some(size),
            Poll::Pending => {
                self.writable = false;
                None
            },
        }
    }

    /// Decide what an attempt at transport operations means. An interruption makes the owner look
    /// again, a wait is left to the events, any other error is handed on; after a transport error
    /// nothing is worth trying any more.
    pub fn handle_io_result(&mut self, result: Result<(), Error>) -> (handled: Result<(), Error>)
        requires
            old(self).well_formed(),
        ensures
            final(self).well_formed(),
            final(self).channel() == old(self).channel(),
            match result {
                Ok(_) => handled is Ok && final(self)@ == old(self)@ && final(self).notifications()
                    == old(self).notifications(),
                Err(error) => match error.spec_kind() {
                    ErrorKind::IOError(IoErrorKind::Interrupted, _) => {
                        &&& handled is Ok
                        &&& final(self)@ == old(self)@.sent(SocketEvent::Wake)
                        &&& final(self)@.readable == old(self)@.readable
                        &&& final(self)@.writable == old(self)@.writable
                        &&& final(self)@.pending.readable == old(self)@.pending.readable
                        &&& final(self)@.pending.writable == old(self)@.pending.writable
                        &&& final(self)@.pending.wake
                        &&& final(self).notifications() == 1
                    },
                    ErrorKind::IOError(IoErrorKind::WouldBlock, _) => {
                        &&& handled is Ok
                        &&& final(self)@ == old(self)@
                        &&& final(self).notifications() == old(self).notifications()
                    },
                    ErrorKind::IOError(_, _) => {
                        &&& handled == Err::<(), Error>(error)
                        &&& final(self)@ == (SocketView {
                            readable: false,
                            writable: false,
                            ..old(self)@
                        })
                        &&& final(self).notifications() == old(self).notifications()
                    },
                    _ => {
                        &&& handled == Err::<(), Error>(error)
                        &&& final(self)@ == old(self)@
                        &&& final(self).notifications() == old(self).notifications()
                    },
                },
            },
    {
        if let Err(error) = result {
            if error.interrupted() {
                self.handle.wake();
            } else if error.wouldblock() {
                // The events say when to try again.
            } else {
                if error.is_io_error() {
                    self.readable = false;
                    self.writable = false;
                }
                return Err(error);
            }
        }
        Ok(())
    }

    /// Look at the events once their notification is out of the channel.
    fn apply_pending(&mut self)
        requires
            old(self).handle.pending < 8,
            crate::channel::notification_capacity(old(self).handle.sender) == 1,
            crate::channel::notifications(old(self).handle.sender, old(self).handle.events) == Some(
                0nat,
            ),
        ensures
            final(self).well_formed(),
            final(self).channel() == old(self).channel(),
            final(self)@ == old(self)@.applied(),
            final(self)@.readable == (old(self)@.readable || old(self)@.pending.readable),
            final(self)@.writable == (old(self)@.writable || old(self)@.pending.writable),
            !final(self)@.pending.readable && !final(self)@.pending.writable
                && !final(self)@.pending.wake,
            final(self).notifications() == 0,
    {
        let pending: u8 = self.handle.pending;
        self.handle.pending = 0;
        assert(0u8 & 1 == 0 && 0u8 & 2 == 0 && 0u8 & 4 == 0) by (bit_vector);
        if pending & 1 != 0 {
            self.handle_event(SocketEvent::Readable);
        }
        if pending & 2 != 0 {
            self.handle_event(SocketEvent::Writable);
        }
    }

    /// Note that an operation is worth trying.
    fn handle_event(&mut self, event: SocketEvent)
        ensures
            final(self).handle == old(self).handle,
            final(self).readable == (old(self).readable || event is Readable),
            final(self).writable == (old(self).writable || event is Writable),
    {
        match event {
            SocketEvent::Readable => {
                self.readable = true;
            },
            SocketEvent::Writable => {
                self.writable = true;
            },
            SocketEvent::Wake => {},
        }
    }

    /// Wakes up the owner of this transport when there may be something to read.
    pub fn readable_waker(&self) -> (waker: SocketStateWaker)
        ensures
            waker.spec_event() == SocketEvent::Readable,
            waker.channel() == self.channel(),
    {
        self.waker(SocketEvent::Readable)
    }

    /// Wakes up the owner of this transport when there may be room to write.
    pub fn writable_waker(&self) -> (waker: SocketStateWaker)
        ensures
            waker.spec_event() == SocketEvent::Writable,
            waker.channel() == self.channel(),
    {
        self.waker(SocketEvent::Writable)
    }

    fn waker(&self, event: SocketEvent) -> (waker: SocketStateWaker)
        ensures
            waker.spec_event() == event,
            waker.channel() == self.channel(),
    {
        SocketStateWaker { event, channel: Ghost(self.channel()) }
    }
}

impl Default for SocketState {
    fn default() -> (state: SocketState)
        ensures
            state.well_formed(),
            state@ == SocketView::fresh(),
            state@.readable && state@.writable,
            !state@.pending.readable && !state@.pending.writable && !state@.pending.wake,
    {
        SocketState::new()
    }
}

/// A socket state after some events have come in, one after the other.
pub open spec fn storm(state: SocketView, events: Seq<SocketEvent>) -> SocketView
    decreases events.len(),
{
    if events.len() == 0 {
        state
    } else {
        storm(state, events.drop_last()).sent(events.last())
    }
}

/// However many events come in, and in whatever order, none of their kinds is lost and none is made
/// up, and nothing else changes before the owner looks.
pub proof fn storm_keeps_every_kind_of_event(state: SocketView, events: Seq<SocketEvent>)
    ensures
        storm(state, events) == (SocketView {
            pending: PendingView {
                readable: state.pending.readable || events.contains(SocketEvent::Readable),
                writable: state.pending.writable || events.contains(SocketEvent::Writable),
                wake: state.pending.wake || events.contains(SocketEvent::Wake),
            },
            ..state
        }),
    decreases events.len(),
{
    if events.len() > 0 {
        let rest = events.drop_last();
        storm_keeps_every_kind_of_event(state, rest);
        assert forall|event: SocketEvent|
            events.contains(event) <==> rest.contains(event) || event == events.last() by {
            if events.contains(event) && event != events.last() {
                let i = choose|i: int| 0 <= i < events.len() && events[i] == event;
                assert(rest[i] == event);
            }
            if rest.contains(event) {
                let i = choose|i: int| 0 <= i < rest.len() && rest[i] == event;
                assert(events[i] == event);
            }
            assert(events[events.len() - 1] == events.last());
        }
    }
}

/// One look at the events after a storm brings both kinds of readiness up to date.
pub proof fn one_look_suffices(state: SocketView, events: Seq<SocketEvent>)
    ensures
        storm(state, events).applied() == (SocketView {
            readable: state.readable || state.pending.readable || events.contains(
                SocketEvent::Readable,
            ),
            writable: state.writable || state.pending.writable || events.contains(
                SocketEvent::Writable,
            ),
            pending: PendingView::none(),
        }),
{
    storm_keeps_every_kind_of_event(state, events);
}

/// There is never more than one notification, and there is one just where there is an event to look
/// at: no event waits without a notification.
pub proof fn notification_announces_events(state: SocketState)
    requires
        state.well_formed(),
    ensures
        state.notifications() <= 1,
        state.notifications() == 1 <==> state@.pending.any(),
{
    let pending = state.handle.pending;
    assert(pending < 8 ==> ((pending != 0) <==> (pending & 1 != 0 || pending & 2 != 0 || pending & 4
        != 0))) by (bit_vector);
}

} // verus!
