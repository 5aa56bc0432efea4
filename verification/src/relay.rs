//! The relay between one phone's socket and the board's broadcast channel: every text a
//! phone sends is published to all connected phones, and every published text is
//! delivered to this phone.
use vstd::prelude::*;

verus! {

/// What happened on one of the two sides of the relay.
#[derive(Debug, Clone)]
pub enum RelayEvent {
    /// The broadcast channel gave a text, or failed to give one (`None`: it lagged or closed).
    Broadcast(Option<String>),
    /// A text was (`true`) or could not be (`false`) delivered to the phone.
    Delivered(bool),
    /// The phone sent a text message.
    ClientText(String),
    /// The phone sent a close frame.
    ClientClosed,
    /// The phone sent anything else (binary data, ping, pong), its stream failed, or it ended.
    ClientOther,
}

/// What the relay does next.
#[derive(Debug, Clone)]
pub enum RelayAction {
    /// Deliver the text to the phone.
    Deliver(String),
    /// Publish the text on the broadcast channel.
    Publish(String),
    /// Keep waiting for the next event.
    Wait,
    /// End the relay.
    Stop,
}

/// The relay's answer to one event.
pub fn relay_step(event: RelayEvent) -> (a: RelayAction)
    ensures
        a == match event {
            RelayEvent::Broadcast(Some(t)) => RelayAction::Deliver(t),
            RelayEvent::Broadcast(None) => RelayAction::Wait,
            RelayEvent::Delivered(true) => RelayAction::Wait,
            RelayEvent::Delivered(false) => RelayAction::Stop,
            RelayEvent::ClientText(t) => RelayAction::Publish(t),
            RelayEvent::ClientClosed => RelayAction::Stop,
            RelayEvent::ClientOther => RelayAction::Stop,
        },
{
    match event {
        RelayEvent::Broadcast(Some(t)) => RelayAction::Deliver(t),
        RelayEvent::Broadcast(None) => RelayAction::Wait,
        RelayEvent::Delivered(sent) => if sent { RelayAction::Wait } else { RelayAction::Stop },
        RelayEvent::ClientText(t) => RelayAction::Publish(t),
        RelayEvent::ClientClosed => RelayAction::Stop,
        RelayEvent::ClientOther => RelayAction::Stop,
    }
}

} // verus!
