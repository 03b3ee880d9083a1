//! The decisions of the mock network bridge used in subsystem benchmarks: what to do
//! with each message from the overseer and from the emulated network.

use vstd::prelude::*;

verus! {

/// What the outgoing side receives from the overseer.
#[derive(Clone, Copy, Debug, PartialEq, Eq, Structural)]
pub enum TxEvent {
    /// A signal to conclude.
    Conclude,
    /// Another overseer signal.
    OtherSignal,
    /// A request to send to an authority, and whether that peer is connected.
    SendRequest { authority: u64, peer_connected: bool },
    /// A reputation change.
    ReportPeer,
    /// Any other message.
    Unexpected,
}

/// What the outgoing side does.
#[derive(Clone, Copy, Debug, PartialEq, Eq, Structural)]
pub enum TxAction {
    /// Stop the subsystem.
    Stop,
    /// Nothing; wait for the next message.
    Ignore,
    /// Answer the request with "not connected".
    RespondNotConnected,
    /// Hand the request to the network interface, addressed to the authority.
    Forward { authority: u64 },
    /// The message is not supported.
    Unsupported,
}

/// The outgoing side's response to an event.
pub fn tx_action(event: TxEvent) -> (r: TxAction)
    ensures
        r == (match event {
            TxEvent::Conclude => TxAction::Stop,
            TxEvent::OtherSignal => TxAction::Ignore,
            TxEvent::SendRequest { authority, peer_connected } =>
                if peer_connected { TxAction::Forward { authority } } else { TxAction::RespondNotConnected },
            TxEvent::ReportPeer => TxAction::Ignore,
            TxEvent::Unexpected => TxAction::Unsupported,
        }),
{
    match event {
        TxEvent::Conclude => TxAction::Stop,
        TxEvent::OtherSignal => TxAction::Ignore,
        TxEvent::SendRequest { authority, peer_connected } => {
            if peer_connected {
                TxAction::Forward { authority }
            } else {
                TxAction::RespondNotConnected
            }
        },
        TxEvent::ReportPeer => TxAction::Ignore,
        TxEvent::Unexpected => TxAction::Unsupported,
    }
}

/// What the incoming side receives.
#[derive(Clone, Copy, Debug, PartialEq, Eq, Structural)]
pub enum RxEvent {
    /// A bitfield distribution message of the second protocol version from a peer.
    BitfieldFromPeer,
    /// A message of another protocol or version from a peer.
    OtherPeerMessage,
    /// A request from a peer, and whether a chunk request protocol with an inbound
    /// queue is configured.
    RequestFromPeer { has_inbound_queue: bool },
    /// A request addressed to a node, which a peer never sends.
    RequestFromNode,
    /// The network interface closed.
    NetworkClosed,
    /// A signal to conclude.
    Conclude,
    /// Another overseer signal.
    OtherSignal,
    /// An overseer message, which the incoming side does not take.
    OverseerMessage,
}

/// What the incoming side does.
#[derive(Clone, Copy, Debug, PartialEq, Eq, Structural)]
pub enum RxAction {
    /// Pass the bitfield to bitfield distribution as a peer message.
    DeliverBitfield,
    /// Put the request in the chunk request protocol's inbound queue.
    QueueRequest,
    /// Nothing; wait for the next message.
    Ignore,
    /// Stop the subsystem.
    Stop,
    /// The message is not supported.
    Unsupported,
}

/// The incoming side's response to an event.
pub fn rx_action(event: RxEvent) -> (r: RxAction)
    ensures
        r == (match event {
            RxEvent::BitfieldFromPeer => RxAction::DeliverBitfield,
            RxEvent::OtherPeerMessage => RxAction::Unsupported,
            RxEvent::RequestFromPeer { has_inbound_queue } =>
                if has_inbound_queue { RxAction::QueueRequest } else { RxAction::Ignore },
            RxEvent::RequestFromNode => RxAction::Unsupported,
            RxEvent::NetworkClosed => RxAction::Ignore,
            RxEvent::Conclude => RxAction::Stop,
            RxEvent::OtherSignal => RxAction::Ignore,
            RxEvent::OverseerMessage => RxAction::Unsupported,
        }),
{
    match event {
        RxEvent::BitfieldFromPeer => RxAction::DeliverBitfield,
        RxEvent::OtherPeerMessage => RxAction::Unsupported,
        RxEvent::RequestFromPeer { has_inbound_queue } => {
            if has_inbound_queue {
                RxAction::QueueRequest
            } else {
                RxAction::Ignore
            }
        },
        RxEvent::RequestFromNode => RxAction::Unsupported,
        RxEvent::NetworkClosed => RxAction::Ignore,
        RxEvent::Conclude => RxAction::Stop,
        RxEvent::OtherSignal => RxAction::Ignore,
        RxEvent::OverseerMessage => RxAction::Unsupported,
    }
}

} // verus!
