//! Delivery of events to the one subscriber that is currently attached.
//!
//! There is a single slot for the subscriber's channel. Attaching a channel
//! replaces the one that was there; the earlier subscriber simply receives
//! nothing more. Delivery never waits: an event that the channel cannot take
//! at once is dropped, and the subscriber is expected to ask for the full
//! transcript again.

use vstd::prelude::*;
use tokio::sync::mpsc::Sender;
use tokio::sync::mpsc::error::TrySendError;
use crate::event::{Event, EventView};

verus! {

/// `tokio::sync::mpsc::Sender`, the sending half of a bounded channel.
/// Nothing inside it is visible to the proofs: a sender is stored, and handed
/// to `try_send`.
#[verifier::external_type_specification]
#[verifier::external_body]
#[verifier::reject_recursive_types(T)]
pub struct ExSender<T>(Sender<T>);

/// Why the channel did not take an event.
#[derive(Clone, Copy, Debug, PartialEq, Eq, Structural)]
pub enum Refusal {
    /// The channel already holds as many events as it has room for.
    Full,
    /// The receiving half was closed or dropped.
    Closed,
}

/// What became of a published event.
#[derive(Clone, Copy, Debug, PartialEq, Eq, Structural)]
pub enum Delivery {
    /// Nobody is attached; nothing was done.
    NoSubscriber,
    /// The channel took the event.
    Delivered,
    /// The channel did not take the event, and the event was dropped.
    Dropped(Refusal),
}

/// Calls `tokio::sync::mpsc::Sender::try_send`, which returns at once in
/// every case. Whether the channel takes the event depends on how far the
/// receiver has read, so nothing is claimed about the result.
#[verifier::external_body]
fn try_send(channel: &Sender<Event>, event: Event) -> (attempt: Result<(), Refusal>) {
    match channel.try_send(event) {
        Ok(()) => Ok(()),
        Err(TrySendError::Full(_)) => Err(Refusal::Full),
        Err(TrySendError::Closed(_)) => Err(Refusal::Closed),
    }
}

impl Delivery {
    /// What became of an event that was offered to a channel, given what the
    /// channel answered.
    pub open spec fn of_attempt(attempt: Result<(), Refusal>) -> Delivery {
        match attempt {
            Ok(()) => Delivery::Delivered,
            Err(refusal) => Delivery::Dropped(refusal),
        }
    }

    /// What became of an event that was offered to a channel, given what the
    /// channel answered: taken, or dropped for the reason the channel gave.
    pub fn from_attempt(attempt: Result<(), Refusal>) -> (delivery: Delivery)
        ensures
            delivery == Delivery::of_attempt(attempt),
    {
        match attempt {
            Ok(()) => Delivery::Delivered,
            Err(refusal) => Delivery::Dropped(refusal),
        }
    }
}

/// The slot for the subscriber's channel, with a record of what was published.
pub struct EventBroadcaster {
    channel: Option<Sender<Event>>,
    published: Ghost<Seq<EventView>>,
}

impl EventBroadcaster {
    /// The channel that is attached now, if any.
    pub closed spec fn subscriber(&self) -> Option<Sender<Event>> {
        self.channel
    }

    /// Every event handed to [`EventBroadcaster::publish`] so far, in the
    /// order of the calls, whether or not a subscriber was there to take it.
    pub closed spec fn published(&self) -> Seq<EventView> {
        self.published@
    }

    /// A broadcaster with nobody attached.
    pub fn new() -> (broadcaster: EventBroadcaster)
        ensures
            broadcaster.subscriber() is None,
            broadcaster.published() == Seq::<EventView>::empty(),
    {
        EventBroadcaster { channel: None, published: Ghost(Seq::empty()) }
    }

    /// Makes `channel` the subscriber, in place of any earlier one.
    pub fn attach(&mut self, channel: Sender<Event>)
        ensures
            final(self).subscriber() == Some(channel),
            final(self).published() == old(self).published(),
    {
        self.channel = Some(channel);
    }

    /// Whether a subscriber is attached.
    pub fn is_attached(&self) -> (attached: bool)
        ensures
            attached == self.subscriber() is Some,
    {
        self.channel.is_some()
    }

    /// Offers `event` to the subscriber without waiting. With nobody attached
    /// this does nothing and says so; otherwise the event is either taken by
    /// the channel or dropped.
    pub fn publish(&mut self, event: Event) -> (delivery: Delivery)
        ensures
            final(self).subscriber() == old(self).subscriber(),
            final(self).published() == old(self).published().push(event@),
            old(self).subscriber() is None <==> delivery == Delivery::NoSubscriber,
    {
        self.published = Ghost(self.published@.push(event@));
        match &self.channel {
            None => Delivery::NoSubscriber,
            Some(channel) => Delivery::from_attempt(try_send(channel, event)),
        }
    }
}

} // verus!
