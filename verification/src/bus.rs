//! The broadcast bus: the closed set of messages exchanged with overlay
//! clients, and the multi-producer/multi-consumer channel that delivers
//! change events to every pooled connection. Delivery is best-effort by
//! design: a consumer that falls behind the bounded buffer misses
//! intermediate messages instead of blocking the publisher.
use vstd::prelude::*;

use crate::follower::FollowerItem;

verus! {

/// How many messages the bus buffers for a slow consumer before it starts
/// dropping the oldest.
pub const BUS_CAPACITY: usize = 1000;

/// One message of the overlay wire protocol. `Ping`, `Subscribe` and
/// `TestFollower` arrive from clients; the rest leave for them.
#[derive(Debug)]
pub enum WSMessage {
    Ping,
    Subscribe { topics: Vec<String> },
    TestFollower,
    Pong,
    NewFollower { follower: FollowerItem },
    TestNotification { follower: FollowerItem },
    SettingsUpdated { settings: String },
    Error { message: String },
}

impl Clone for WSMessage {
    fn clone(&self) -> Self {
        match self {
            WSMessage::Ping => WSMessage::Ping,
            WSMessage::Subscribe { topics } => WSMessage::Subscribe { topics: topics.clone() },
            WSMessage::TestFollower => WSMessage::TestFollower,
            WSMessage::Pong => WSMessage::Pong,
            WSMessage::NewFollower { follower } => WSMessage::NewFollower {
                follower: follower.clone(),
            },
            WSMessage::TestNotification { follower } => WSMessage::TestNotification {
                follower: follower.clone(),
            },
            WSMessage::SettingsUpdated { settings } => WSMessage::SettingsUpdated {
                settings: settings.clone(),
            },
            WSMessage::Error { message } => WSMessage::Error { message: message.clone() },
        }
    }
}

/// Decides the one reaction an inbound client message asks of the server:
/// only a test-follower request injects a notification. Pings are answered
/// at the transport level, subscriptions are fixed when the connection is
/// created, and anything else is dropped.
pub fn wants_test_notification(msg: &WSMessage) -> (r: bool)
    ensures
        r == (msg is TestFollower),
{
    match msg {
        WSMessage::TestFollower => true,
        _ => false,
    }
}

#[verifier::external_type_specification]
#[verifier::external_body]
#[verifier::reject_recursive_types(T)]
pub struct ExBroadcastSender<T>(tokio::sync::broadcast::Sender<T>);

#[verifier::external_type_specification]
#[verifier::external_body]
#[verifier::reject_recursive_types(T)]
pub struct ExBroadcastReceiver<T>(tokio::sync::broadcast::Receiver<T>);

/// Relies on `tokio::sync::broadcast::channel`: builds the bus with a
/// fixed positive capacity (the call panics only on capacity zero). The
/// initial receiver is dropped; consumers subscribe through the sender.
#[verifier::external_body]
pub(crate) fn new_event_bus() -> tokio::sync::broadcast::Sender<WSMessage> {
    let (tx, _) = tokio::sync::broadcast::channel(BUS_CAPACITY);
    tx
}

/// Relies on `tokio::sync::broadcast::Sender::send`: on success the
/// message was enqueued for every active receiver and the result counts
/// them; with no active receiver the message comes back unchanged. Whether
/// any receiver is active depends on the live connections, so nothing more
/// is promised of the outcome.
#[verifier::external_body]
pub(crate) fn bus_send(
    tx: &tokio::sync::broadcast::Sender<WSMessage>,
    msg: WSMessage,
) -> (r: Result<usize, WSMessage>)
    ensures
        r is Err ==> r->Err_0 == msg,
{
    match tx.send(msg) {
        Ok(n) => Ok(n),
        Err(e) => Err(e.0),
    }
}

/// Relies on `tokio::sync::broadcast::Sender::subscribe`: returns a fresh
/// receiver that sees every message sent after this call.
#[verifier::external_body]
pub(crate) fn bus_subscribe(
    tx: &tokio::sync::broadcast::Sender<WSMessage>,
) -> tokio::sync::broadcast::Receiver<WSMessage> {
    tx.subscribe()
}

} // verus!
