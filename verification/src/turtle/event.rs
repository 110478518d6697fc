//! The events the node's behaviors produce, the actions the control loop asks
//! of the network driver, and the inputs the driver feeds back.

use crate::identity::{Address, PeerIdentifier};
use crate::msg::Message;
use vstd::prelude::*;

verus! {

/// Why a pending request resolved as failed.
#[derive(Debug, PartialEq, Eq, Structural)]
pub enum FailureReason {
    /// The connection that carried the request was destroyed first.
    ConnectionLost,
    /// No connection existed and no address for the peer was known.
    NoKnownRoute,
}

/// Why a connection was closed.
#[derive(Debug, PartialEq, Eq, Structural)]
pub enum CloseReason {
    /// The remote end or the transport ended the connection.
    Remote,
    /// Repeated liveness probes timed out and the node closed it.
    Unhealthy,
}

/// One event of the unified stream the behavior composer surfaces to the
/// control loop. Each variant is produced by exactly one behavior.
#[derive(Debug)]
pub enum BehaviorEvent {
    DiscoveryFound { peer: PeerIdentifier, address: Address },
    ConnectionEstablished { peer: PeerIdentifier },
    ConnectionClosed { peer: PeerIdentifier, reason: CloseReason },
    LivenessResult { peer: PeerIdentifier, round_trip_ms: Option<u64> },
    MetadataReceived { peer: PeerIdentifier, protocols: Vec<String>, addresses: Vec<Address> },
    MessageReceived { peer: PeerIdentifier, message: Message },
    MessageAcknowledged { peer: PeerIdentifier, correlation_id: u64 },
    RequestFailed { correlation_id: u64, reason: FailureReason },
}

/// What the control loop's single-slot channel carries.
#[derive(Debug)]
pub enum Event {
    /// Ask the loop to terminate at its next idle point.
    Stop,
    /// A behavior event handed in from outside the loop.
    Behavior(BehaviorEvent),
}

/// An operation the loop asks the network driver to perform. Operations never
/// block the dispatcher: their completion is observed later as an input.
#[derive(Debug)]
pub enum NetAction {
    Dial { address: Address },
    Listen { address: Address },
    /// Write `frame` as a request to `peer` on the messaging protocol.
    OpenRequest { peer: PeerIdentifier, correlation_id: u64, frame: Vec<u8> },
    /// Write `frame` as the response to the inbound request `correlation_id`.
    SendResponse { peer: PeerIdentifier, correlation_id: u64, frame: Vec<u8> },
    CloseConnection { peer: PeerIdentifier },
}

/// One observable outcome of processing a loop item.
#[derive(Debug)]
pub enum Effect {
    /// A line printed for the operator.
    Print { line: String },
    /// An operation handed to the network driver.
    Act { action: NetAction },
    /// A behavior event surfaced to the loop's consumer.
    Surface { event: BehaviorEvent },
}

/// What the network driver reports back into the loop: connection lifecycle,
/// behavior traffic, and timer ticks.
#[derive(Debug)]
pub enum SwarmInput {
    ConnectionEstablished { peer: PeerIdentifier, address: Address, inbound: bool, now: u64 },
    ConnectionClosed { peer: PeerIdentifier },
    /// A dial toward this peer failed: no connection will establish.
    DialFailed { peer: PeerIdentifier },
    /// A local-network announcement of a peer and one of its addresses.
    AnnouncementReceived { peer: PeerIdentifier, address: Address, now: u64 },
    /// A liveness probe finished: the round trip time, or `None` on timeout.
    ProbeCompleted { peer: PeerIdentifier, round_trip_ms: Option<u64> },
    MetadataArrived { peer: PeerIdentifier, protocols: Vec<String>, addresses: Vec<Address> },
    /// An inbound request arrived on the messaging protocol.
    RequestArrived { peer: PeerIdentifier, message: Message },
    /// The response correlated to an outbound request arrived.
    ResponseArrived { peer: PeerIdentifier, correlation_id: u64, message: Message },
    /// A timer tick: stale discovery entries are evicted against `now`.
    Tick { now: u64 },
}

/// One item the control loop wakes up for: an operator command, already
/// split into whitespace-separated tokens, or a driver report.
#[derive(Debug)]
pub enum LoopInput {
    Command { tokens: Vec<String> },
    Swarm { input: SwarmInput },
}

} // verus!
