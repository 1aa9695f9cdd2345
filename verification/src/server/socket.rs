//! The per-connection WebSocket loop of a room : what each event on the
//! socket or on the peer's inbox leads to.

use vstd::prelude::*;

verus! {

/// An event of the per-connection loop.
#[derive(Clone, Copy, Debug, PartialEq, Eq, Structural)]
pub enum SocketEvent {
    /// The peer closed the socket (the receive side ended).
    PeerClosed,
    /// Receiving from the peer failed.
    ReceiveFailed,
    /// The peer sent a close frame.
    CloseFrame,
    /// The peer sent a ping or a pong.
    Control,
    /// The peer sent a data frame (binary or text).
    Data,
    /// The inbox of frames for this peer was closed.
    InboxClosed,
    /// A frame for this peer arrived in its inbox.
    Outbound,
    /// Sending a frame to the peer failed.
    SendFailed,
}

/// What the loop does on an event.
#[derive(Clone, Copy, Debug, PartialEq, Eq, Structural)]
pub enum SocketAction {
    /// Stop the loop and leave the room.
    Leave,
    /// Nothing ; wait for the next event.
    Ignore,
    /// Fan the received frame out to every other peer of the room.
    Broadcast,
    /// Send the inbox frame to the peer.
    Deliver,
}

/// The action for each event : data frames are broadcast, inbox frames
/// delivered, pings and pongs ignored, and every end or failure of
/// either side stops the loop.
pub open spec fn socket_action(ev: SocketEvent) -> SocketAction {
    match ev {
        SocketEvent::Control => SocketAction::Ignore,
        SocketEvent::Data => SocketAction::Broadcast,
        SocketEvent::Outbound => SocketAction::Deliver,
        _ => SocketAction::Leave,
    }
}

/// One step of the per-connection loop.
pub fn socket_step(ev: SocketEvent) -> (a: SocketAction)
    ensures
        a == socket_action(ev),
{
    match ev {
        SocketEvent::PeerClosed => SocketAction::Leave,
        SocketEvent::ReceiveFailed => SocketAction::Leave,
        SocketEvent::CloseFrame => SocketAction::Leave,
        SocketEvent::Control => SocketAction::Ignore,
        SocketEvent::Data => SocketAction::Broadcast,
        SocketEvent::InboxClosed => SocketAction::Leave,
        SocketEvent::Outbound => SocketAction::Deliver,
        SocketEvent::SendFailed => SocketAction::Leave,
    }
}

} // verus!
