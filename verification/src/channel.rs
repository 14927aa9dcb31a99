//! The channels between the owner of the transport and those who wake it up or listen to it.
use vstd::prelude::*;

use crate::events::{Event, Listener};

verus! {

/// The sending end of a flume channel.
#[verifier::external_type_specification]
#[verifier::external_body]
#[verifier::reject_recursive_types(T)]
pub struct ExSender<T>(flume::Sender<T>);

/// The receiving end of a flume channel.
#[verifier::external_type_specification]
#[verifier::external_body]
#[verifier::reject_recursive_types(T)]
pub struct ExReceiver<T>(flume::Receiver<T>);

/// The number of notifications in a channel, if these are the only two ends that it has.
pub uninterp spec fn notifications(
    sender: flume::Sender<()>,
    receiver: flume::Receiver<()>,
) -> Option<nat>;

/// Which channel the sending end of a channel of notifications belongs to.
pub uninterp spec fn notification_channel(sender: flume::Sender<()>) -> int;

/// The number of notifications that fit into a channel.
pub uninterp spec fn notification_capacity(sender: flume::Sender<()>) -> nat;

/// `flume::bounded`: a channel with room for `cap` notifications and nothing in it. What is handed
/// out are its only ends.
#[verifier::external_body]
pub(crate) fn bounded_notifications(cap: usize) -> (ends: (
    flume::Sender<()>,
    flume::Receiver<()>,
))
    ensures
        notifications(ends.0, ends.1) == Some(0nat),
        notification_capacity(ends.0) == cap,
{
    flume::bounded(cap)
}

/// `flume::Sender::try_send`: a notification goes into the channel if there is room for it, and
/// nothing happens otherwise. While the channel has no other ends, nothing else changes it.
#[verifier::external_body]
pub(crate) fn try_send_notification(
    sender: &mut flume::Sender<()>,
    receiver: &mut flume::Receiver<()>,
) -> (sent: bool)
    requires
        notifications(*old(sender), *old(receiver)) is Some,
    ensures
        notification_channel(*final(sender)) == notification_channel(*old(sender)),
        notification_capacity(*final(sender)) == notification_capacity(*old(sender)),
        sent == (notifications(*old(sender), *old(receiver))->0 < notification_capacity(
            *old(sender),
        )),
        notifications(*final(sender), *final(receiver)) == (if sent {
            Some(notifications(*old(sender), *old(receiver))->0 + 1)
        } else {
            notifications(*old(sender), *old(receiver))
        }),
{
    sender.try_send(()).is_ok()
}

/// `flume::Receiver::try_recv`: a notification comes out of the channel if there is one in it, and
/// nothing happens otherwise. While the channel has no other ends, nothing else changes it.
#[verifier::external_body]
pub(crate) fn try_recv_notification(
    sender: &mut flume::Sender<()>,
    receiver: &mut flume::Receiver<()>,
) -> (received: bool)
    requires
        notifications(*old(sender), *old(receiver)) is Some,
    ensures
        notification_channel(*final(sender)) == notification_channel(*old(sender)),
        notification_capacity(*final(sender)) == notification_capacity(*old(sender)),
        received == (notifications(*old(sender), *old(receiver))->0 > 0),
        notifications(*final(sender), *final(receiver)) == (if received {
            Some((notifications(*old(sender), *old(receiver))->0 - 1) as nat)
        } else {
            notifications(*old(sender), *old(receiver))
        }),
{
    receiver.try_recv().is_ok()
}

/// `flume::Receiver::recv`: a notification comes out of the channel. The call waits while there is
/// none in it, so there has to be one.
#[verifier::external_body]
pub(crate) fn recv_notification(
    sender: &mut flume::Sender<()>,
    receiver: &mut flume::Receiver<()>,
) -> (received: bool)
    requires
        notifications(*old(sender), *old(receiver)) matches Some(n) && n > 0,
    ensures
        received,
        notification_channel(*final(sender)) == notification_channel(*old(sender)),
        notification_capacity(*final(sender)) == notification_capacity(*old(sender)),
        notifications(*final(sender), *final(receiver)) == Some(
            (notifications(*old(sender), *old(receiver))->0 - 1) as nat,
        ),
{
    receiver.recv().is_ok()
}

/// `flume::Receiver::len`: how many notifications there are in the channel. While the channel has no
/// other ends, nothing else changes it.
#[verifier::external_body]
pub(crate) fn notification_count(
    sender: &flume::Sender<()>,
    receiver: &flume::Receiver<()>,
) -> (count: usize)
    requires
        notifications(*sender, *receiver) is Some,
    ensures
        notifications(*sender, *receiver) == Some(count as nat),
{
    receiver.len()
}

/// Which channel a sending end belongs to.
pub uninterp spec fn event_channel(sender: flume::Sender<Event>) -> int;

/// Which channel a receiving end belongs to.
pub uninterp spec fn listened_channel(receiver: flume::Receiver<Event>) -> int;

/// The number of events that fit into the channel of a sending end.
pub uninterp spec fn event_capacity(sender: flume::Sender<Event>) -> nat;

/// What became of an event that a sending end tried to put into its channel.
#[derive(Clone, Copy, Debug, PartialEq, Eq, Structural)]
pub enum Handover {
    /// It went in.
    Taken,
    /// There was no room for it.
    Full,
    /// There was no receiving end left.
    Gone,
}

/// Is a sending end the only one of its channel?
pub uninterp spec fn sole_sender(sender: flume::Sender<Event>) -> bool;

/// The events that a sending end has tried to put into its channel, in their order, each with what
/// became of it.
pub uninterp spec fn events_tried(sender: flume::Sender<Event>) -> Seq<(Event, Handover)>;

/// Those of some events that went in, in their order.
pub open spec fn taken(tried: Seq<(Event, Handover)>) -> Seq<Event>
    decreases tried.len(),
{
    if tried.len() == 0 {
        Seq::empty()
    } else if tried.last().1 is Taken {
        taken(tried.drop_last()).push(tried.last().0)
    } else {
        taken(tried.drop_last())
    }
}

/// `flume::bounded`: a channel with room for `cap` events and nothing in it, which is none of those
/// that there are already. What is handed out is its only sending end, and nothing has been tried at
/// it yet.
#[verifier::external_body]
pub(crate) fn bounded_events(cap: usize, _others: &Vec<Listener>) -> (ends: (
    flume::Sender<Event>,
    flume::Receiver<Event>,
))
    ensures
        listened_channel(ends.1) == event_channel(ends.0),
        sole_sender(ends.0),
        event_capacity(ends.0) == cap,
        events_tried(ends.0) == Seq::<(Event, Handover)>::empty(),
        forall|i: int|
            0 <= i < _others@.len() ==> (#[trigger] _others@[i])@.channel != event_channel(ends.0),
{
    flume::bounded(cap)
}

/// `flume::Sender::try_send`: the event goes into the channel if there is room for it and a receiving
/// end left, and nothing happens otherwise. Other threads take events out and drop receiving ends at
/// any time, so which of these it is is left open, but for one thing: while the channel has no other
/// sending end, and fewer events have gone in at this one than fit in, there is room.
#[verifier::external_body]
pub(crate) fn try_send_event(sender: &mut flume::Sender<Event>, event: Event) -> (reply: Handover)
    requires
        sole_sender(*old(sender)),
    ensures
        sole_sender(*final(sender)),
        event_channel(*final(sender)) == event_channel(*old(sender)),
        event_capacity(*final(sender)) == event_capacity(*old(sender)),
        events_tried(*final(sender)) == events_tried(*old(sender)).push((event, reply)),
        taken(events_tried(*old(sender))).len() < event_capacity(*old(sender)) ==> reply !is Full,
{
    match sender.try_send(event) {
        Ok(()) => Handover::Taken,
        Err(flume::TrySendError::Full(_)) => Handover::Full,
        Err(flume::TrySendError::Disconnected(_)) => Handover::Gone,
    }
}

} // verus!
