//! The fan-out hub: one bounded broadcast channel from all venue monitors to
//! any number of independent consumers.

use vstd::prelude::*;
use crate::events::PriceUpdate;

verus! {

/// Publishing to a hub without any live subscriber is reported, not raised:
/// the producer logs it and goes on.
#[derive(Clone, Copy, Debug, PartialEq, Eq, Structural)]
pub enum PublishError {
    NoSubscribers,
}

#[verifier::external_type_specification]
#[verifier::external_body]
#[verifier::reject_recursive_types(T)]
pub struct ExBroadcastSender<T>(tokio::sync::broadcast::Sender<T>);

#[verifier::external_type_specification]
#[verifier::external_body]
#[verifier::reject_recursive_types(T)]
pub struct ExBroadcastReceiver<T>(tokio::sync::broadcast::Receiver<T>);

/// One bounded broadcast channel shared by every producer and consumer.
/// Each subscriber receives every event published after it subscribed; there
/// is no replay for late subscribers. A subscriber that falls behind by more
/// than the capacity is disconnected by the underlying channel with an
/// explicit lag signal it can detect, and may resubscribe; events are never
/// buffered without bound.
pub struct FanOutHub {
    sender: tokio::sync::broadcast::Sender<PriceUpdate>,
}

/// Relies on tokio::sync::broadcast::channel: creates a bounded broadcast
/// channel; it panics when the capacity is zero or exceeds `usize::MAX / 2`,
/// which the precondition rules out.
#[verifier::external_body]
fn broadcast_sender_new(capacity: usize) -> tokio::sync::broadcast::Sender<PriceUpdate>
    requires
        1 <= capacity <= usize::MAX / 2,
{
    tokio::sync::broadcast::channel(capacity).0
}

/// Relies on tokio::sync::broadcast::Sender::send: delivers the value to
/// every receiver active at the call, returning how many there were (at
/// least one on success); it errors exactly when there is none, and never
/// blocks.
#[verifier::external_body]
fn broadcast_send(sender: &tokio::sync::broadcast::Sender<PriceUpdate>, event: PriceUpdate) -> (r:
    Result<usize, PublishError>)
    ensures
        r matches Ok(n) ==> n >= 1,
{
    match sender.send(event) {
        Ok(n) => Ok(n),
        Err(_) => Err(PublishError::NoSubscribers),
    }
}

/// Relies on tokio::sync::broadcast::Sender::subscribe: creates a receiver
/// that yields the events published after this call, in publish order.
#[verifier::external_body]
fn broadcast_subscribe(sender: &tokio::sync::broadcast::Sender<PriceUpdate>)
    -> tokio::sync::broadcast::Receiver<PriceUpdate> {
    sender.subscribe()
}

impl FanOutHub {
    /// Creates the hub with room for `capacity` pending events per
    /// subscriber. The capacity bounds are what the underlying channel
    /// accepts without panicking; deployments pick at least 1000.
    pub fn new(capacity: usize) -> FanOutHub
        requires
            1 <= capacity <= usize::MAX / 2,
    {
        FanOutHub { sender: broadcast_sender_new(capacity) }
    }

    /// Publishes one event to every current subscriber and reports how many
    /// there were. With no subscriber it reports `NoSubscribers` instead of
    /// blocking or failing the caller: the producer's tick goes on either
    /// way.
    pub fn publish(&self, event: PriceUpdate) -> (r: Result<usize, PublishError>)
        ensures
            r matches Ok(n) ==> n >= 1,
    {
        broadcast_send(&self.sender, event)
    }

    /// Subscribes a new consumer: it sees every event published after this
    /// call, in publish order.
    pub fn subscribe(&self) -> tokio::sync::broadcast::Receiver<PriceUpdate> {
        broadcast_subscribe(&self.sender)
    }
}

} // verus!
