//! The node and its control loop: one cooperative dispatch cycle over
//! operator commands and swarm reports, a single-slot best-effort stop
//! channel, and the routing of every operation to the sub-component that
//! owns it.

pub mod behavior;
pub mod event;

use crate::identity::{generate_local_identity, Address, PeerIdentifier};
use crate::msg::{frame_of, Codec, Message, MAX_LENGTH};
use crate::turtle::behavior::Behavior;
use crate::turtle::event::{BehaviorEvent, CloseReason, Effect, Event, FailureReason, LoopInput, NetAction, SwarmInput};
use vstd::prelude::*;
use vstd::string::StringSliceAdditionalSpecFns;

verus! {

/// One established connection, keyed by the remote peer.
#[derive(Debug)]
pub struct Connection {
    pub peer: PeerIdentifier,
    pub address: Address,
    pub inbound: bool,
}

/// What one run of the control loop produced: the observable effects, and
/// whether a stop request terminated it.
#[derive(Debug)]
pub struct RunOutcome {
    pub effects: Vec<Effect>,
    pub stopped: bool,
}

/// The node: its identity, the composed behavior state, the active
/// connections, and the control loop's single-slot event channel.
#[derive(Debug)]
pub struct Turtle {
    pub public_key: Vec<u8>,
    pub local_peer: PeerIdentifier,
    pub behavior: Behavior,
    pub connections: Vec<Connection>,
    pub event_slot: Option<Event>,
    pub clock: u64,
}

impl Turtle {
    /// At most one active connection per peer, and every sub-behavior
    /// well-formed.
    pub open spec fn wf(&self) -> bool {
        &&& self.behavior.wf()
        &&& forall|i: int, j: int|
            0 <= i < j < self.connections@.len() ==> self.connections@[i].peer@
                != self.connections@[j].peer@
    }

    /// Whether a connection to this peer is active.
    pub open spec fn connected(&self, peer: Seq<u8>) -> bool {
        exists|i: int| 0 <= i < self.connections@.len() && self.connections@[i].peer@ == peer
    }

    fn find_connection(&self, peer: &PeerIdentifier) -> (r: Option<usize>)
        ensures
            r matches Some(i) ==> 0 <= i < self.connections@.len()
                && self.connections@[i as int].peer@ == peer@,
            r is None ==> !self.connected(peer@),
    {
        let mut i: usize = 0;
        while i < self.connections.len()
            invariant
                i <= self.connections@.len(),
                forall|j: int| 0 <= j < i ==> self.connections@[j].peer@ != peer@,
            decreases self.connections@.len() - i,
        {
            if self.connections[i].peer.same_as(peer) {
                return Some(i);
            }
            i += 1;
        }
        None
    }

    /// Offers an event to the single-slot channel without blocking: it lands
    /// exactly when the slot is free, and is dropped otherwise.
    pub fn send_event_not_blocking(&mut self, evt: Event) -> (accepted: bool)
        ensures
            accepted == (old(self).event_slot is None),
            old(self).event_slot is None ==> final(self).event_slot == Some(evt),
            old(self).event_slot is Some ==> final(self).event_slot == old(self).event_slot,
            final(self).behavior == old(self).behavior,
            final(self).connections@ == old(self).connections@,
            final(self).public_key@ == old(self).public_key@,
            final(self).local_peer@ == old(self).local_peer@,
            final(self).clock == old(self).clock,
    {
        if self.event_slot.is_none() {
            self.event_slot = Some(evt);
            true
        } else {
            false
        }
    }

    /// Requests termination, best effort: the request lands only if the slot
    /// is free, so a stop issued while the loop is mid-processing may be
    /// dropped and must be repeated once the loop is idle again.
    pub fn stop(&mut self) -> (accepted: bool)
        ensures
            accepted == (old(self).event_slot is None),
            old(self).event_slot is None ==> final(self).event_slot == Some(Event::Stop),
            old(self).event_slot is Some ==> final(self).event_slot == old(self).event_slot,
            final(self).behavior == old(self).behavior,
            final(self).connections@ == old(self).connections@,
            final(self).public_key@ == old(self).public_key@,
            final(self).local_peer@ == old(self).local_peer@,
            final(self).clock == old(self).clock,
    {
        self.send_event_not_blocking(Event::Stop)
    }
}

/// What a `DIAL` command produces: exactly one dial operation for an address
/// token that parses, and nothing for a missing or unparsable one.
pub open spec fn dial_outcome(tokens: Seq<String>, r: Seq<Effect>) -> bool {
    if tokens.len() < 2 {
        r.len() == 0
    } else if crate::identity::addr_parses(tokens[1]@) {
        r.len() == 1 && (r[0] matches Effect::Act { action } && (
        action matches NetAction::Dial { address } && address@ == crate::identity::addr_bytes_of(
            tokens[1]@,
        )))
    } else {
        r.len() == 0
    }
}

/// What a `LISTEN` command produces, in the same shape as `dial_outcome`.
pub open spec fn listen_outcome(tokens: Seq<String>, r: Seq<Effect>) -> bool {
    if tokens.len() < 2 {
        r.len() == 0
    } else if crate::identity::addr_parses(tokens[1]@) {
        r.len() == 1 && (r[0] matches Effect::Act { action } && (
        action matches NetAction::Listen { address } && address@
            == crate::identity::addr_bytes_of(tokens[1]@)))
    } else {
        r.len() == 0
    }
}

/// What a `SHOW PEER` command produces: exactly one printed line whenever the
/// local identifier renders -- it always does for an identifier this crate
/// derived -- and that line is its stable base-58 text, so repeated calls in
/// one process run print the same text.
pub open spec fn show_outcome(local_peer: Seq<u8>, tokens: Seq<String>, r: Seq<Effect>) -> bool {
    if tokens.len() >= 2 && tokens[1]@ == "PEER"@ {
        if crate::identity::id_renders(local_peer) {
            r.len() == 1 && (r[0] matches Effect::Print { line } && line@
                == crate::identity::base58_of(local_peer))
        } else {
            r.len() == 0
        }
    } else {
        r.len() == 0
    }
}

/// What issuing a request produces: the framed request over an active
/// connection, a dial followed by the framed request for a peer known only
/// from discovery, an immediate `RequestFailed(NoKnownRoute)` for a peer with
/// no route, and no change at all for an oversized payload or an exhausted
/// correlation counter.
pub open spec fn send_outcome(
    pre: Turtle,
    post: Turtle,
    peer: Seq<u8>,
    payload: Seq<u8>,
    r: Seq<Effect>,
) -> bool {
    &&& post.local_peer@ == pre.local_peer@
    &&& post.public_key@ == pre.public_key@
    &&& post.event_slot == pre.event_slot
    &&& post.clock == pre.clock
    &&& post.connections@ == pre.connections@
    &&& post.behavior.mdns == pre.behavior.mdns
    &&& post.behavior.ping == pre.behavior.ping
    &&& post.behavior.identify == pre.behavior.identify
    &&& post.behavior.kad == pre.behavior.kad
    &&& post.behavior.request_response.inbound@ == pre.behavior.request_response.inbound@
    &&& payload.len() > MAX_LENGTH || pre.behavior.request_response.next_correlation_id
        == u64::MAX ==> post == pre && r.len() == 0
    &&& payload.len() <= MAX_LENGTH && pre.behavior.request_response.next_correlation_id
        < u64::MAX ==> {
        let corr = pre.behavior.request_response.next_correlation_id;
        let rr = post.behavior.request_response;
        &&& rr.next_correlation_id == corr + 1
        &&& pre.connected(peer) ==> {
            &&& rr.pending@.len() == pre.behavior.request_response.pending@.len() + 1
            &&& rr.pending@.last().correlation_id == corr
            &&& rr.pending@.last().target_peer@ == peer
            &&& rr.pending@ == pre.behavior.request_response.pending@.push(rr.pending@.last())
            &&& r.len() == 1
            &&& (r[0] matches Effect::Act { action } && (
            action matches NetAction::OpenRequest { peer: p, correlation_id, frame } && p@ == peer
                && correlation_id == corr && frame@ == frame_of(payload)))
        }
        &&& !pre.connected(peer) && pre.behavior.mdns.has_peer(peer) ==> {
            &&& rr.pending@.len() == pre.behavior.request_response.pending@.len() + 1
            &&& rr.pending@.last().correlation_id == corr
            &&& rr.pending@.last().target_peer@ == peer
            &&& rr.pending@ == pre.behavior.request_response.pending@.push(rr.pending@.last())
            &&& r.len() == 2
            &&& (r[0] matches Effect::Act { action } && action matches NetAction::Dial { address })
            &&& (r[1] matches Effect::Act { action } && (
            action matches NetAction::OpenRequest { peer: p, correlation_id, frame } && p@ == peer
                && correlation_id == corr && frame@ == frame_of(payload)))
        }
        &&& !pre.connected(peer) && !pre.behavior.mdns.has_peer(peer) ==> {
            &&& rr.pending@ == pre.behavior.request_response.pending@
            &&& r.len() == 1
            &&& (r[0] matches Effect::Surface { event } && (
            event matches BehaviorEvent::RequestFailed { correlation_id, reason }
                && correlation_id == corr && reason == FailureReason::NoKnownRoute))
        }
    }
}

/// What a `SEND` command produces: the request outcome for the peer the
/// identifier token names and the message token's bytes; a missing or
/// unparsable identifier changes nothing.
pub open spec fn send_command_outcome(
    pre: Turtle,
    post: Turtle,
    tokens: Seq<String>,
    r: Seq<Effect>,
) -> bool {
    if tokens.len() < 3 {
        post == pre && r.len() == 0
    } else if crate::identity::peer_id_parses(tokens[1]@) {
        send_outcome(
            pre,
            post,
            crate::identity::peer_id_of_text(tokens[1]@),
            vstd::utf8::encode_utf8(tokens[2]@),
            r,
        )
    } else {
        post == pre && r.len() == 0
    }
}

/// What routing one command produces: the matching handler's outcome for a
/// known command word, and no change for an empty line or an unknown word.
pub open spec fn command_outcome(
    pre: Turtle,
    post: Turtle,
    tokens: Seq<String>,
    r: Seq<Effect>,
) -> bool {
    if tokens.len() == 0 {
        post == pre && r.len() == 0
    } else if tokens[0]@ == "DIAL"@ {
        post == pre && dial_outcome(tokens, r)
    } else if tokens[0]@ == "LISTEN"@ {
        post == pre && listen_outcome(tokens, r)
    } else if tokens[0]@ == "SEND"@ {
        send_command_outcome(pre, post, tokens, r)
    } else if tokens[0]@ == "SHOW"@ {
        post == pre && show_outcome(pre.local_peer@, tokens, r)
    } else {
        post == pre && r.len() == 0
    }
}


/// What a completed handshake produces once the composer records it.
pub open spec fn established_outcome(
    pre: Turtle,
    post: Turtle,
    peer: PeerIdentifier,
    address: Address,
    inbound: bool,
    now: u64,
    r: Seq<Effect>,
) -> bool {
    &&& post.local_peer@ == pre.local_peer@
    &&& post.public_key@ == pre.public_key@
    &&& post.event_slot == pre.event_slot
    &&& post.connected(peer@)
    &&& pre.connected(peer@) ==> post.connections@ == pre.connections@
    &&& !pre.connected(peer@) ==> post.connections@.len() == pre.connections@.len() + 1
        && post.connections@.last().peer@ == peer@ && post.connections@.last().address@
        == address@ && post.connections@.last().inbound == inbound
    &&& post.behavior.identify.tracks(peer@)
    &&& post.behavior.kad.knows_peer(peer@)
    &&& post.behavior.mdns == pre.behavior.mdns
    &&& post.behavior.request_response == pre.behavior.request_response
    &&& post.behavior.ping == pre.behavior.ping
    &&& r.len() == 1 && (r[0] matches Effect::Surface { event } && (
    event matches BehaviorEvent::ConnectionEstablished { peer: p } && p@ == peer@))
}

/// What a destroyed connection produces: per-peer state evicted everywhere,
/// one `ConnectionClosed` first, then one `RequestFailed(ConnectionLost)`
/// per request that was pending toward the peer, in order.
pub open spec fn closed_outcome(
    pre: Turtle,
    post: Turtle,
    peer: PeerIdentifier,
    reason: CloseReason,
    r: Seq<Effect>,
) -> bool {
    &&& post.local_peer@ == pre.local_peer@
    &&& post.public_key@ == pre.public_key@
    &&& post.event_slot == pre.event_slot
    &&& post.connections@ == pre.connections@.filter(|c: Connection| c.peer@ != peer@)
    &&& !post.connected(peer@)
    &&& post.behavior.mdns == pre.behavior.mdns
    &&& post.behavior.kad == pre.behavior.kad
    &&& post.behavior.ping.probes@ == pre.behavior.ping.probes@.filter(
        |s: crate::turtle::behavior::LivenessState| s.peer@ != peer@,
    )
    &&& post.behavior.identify.peers@ == pre.behavior.identify.peers@.filter(
        |s: crate::turtle::behavior::MetaState| s.peer@ != peer@,
    )
    &&& post.behavior.request_response.pending@ == pre.behavior.request_response.pending@.filter(
        |p: crate::turtle::behavior::PendingRequest| p.target_peer@ != peer@,
    )
    &&& r.len() == 1 + pre.behavior.request_response.pending@.filter(
        |p: crate::turtle::behavior::PendingRequest| p.target_peer@ == peer@,
    ).len()
    &&& (r[0] matches Effect::Surface { event } && (
    event matches BehaviorEvent::ConnectionClosed { peer: p, reason: rs } && p@ == peer@ && rs
        == reason))
    &&& forall|j: int|
        1 <= j < r.len() ==> r[j] == (Effect::Surface {
            event: pre.behavior.request_response.pending@.filter(
                |p: crate::turtle::behavior::PendingRequest| p.target_peer@ == peer@,
            ).map_values(
                |p: crate::turtle::behavior::PendingRequest| crate::turtle::behavior::loss_event_of(
                    p,
                ),
            )[j - 1],
        })
}

/// What a failed dial produces: exactly the failure events of the requests
/// that were pending toward the unreachable peer.
pub open spec fn dial_failed_outcome(
    pre: Turtle,
    post: Turtle,
    peer: PeerIdentifier,
    r: Seq<Effect>,
) -> bool {
    &&& post.local_peer@ == pre.local_peer@
    &&& post.public_key@ == pre.public_key@
    &&& post.event_slot == pre.event_slot
    &&& post.connections@ == pre.connections@
    &&& post.behavior.mdns == pre.behavior.mdns
    &&& post.behavior.kad == pre.behavior.kad
    &&& post.behavior.ping == pre.behavior.ping
    &&& post.behavior.identify == pre.behavior.identify
    &&& post.behavior.request_response.pending@ == pre.behavior.request_response.pending@.filter(
        |p: crate::turtle::behavior::PendingRequest| p.target_peer@ != peer@,
    )
    &&& r == pre.behavior.request_response.pending@.filter(
        |p: crate::turtle::behavior::PendingRequest| p.target_peer@ == peer@,
    ).map_values(
        |p: crate::turtle::behavior::PendingRequest| (Effect::Surface {
            event: crate::turtle::behavior::loss_event_of(p),
        }),
    )
}

/// What a local announcement produces: the pair refreshed or added and the
/// routing table taught, with one `DiscoveryFound` exactly for an unseen pair.
pub open spec fn announce_outcome(
    pre: Turtle,
    post: Turtle,
    peer: PeerIdentifier,
    address: Address,
    now: u64,
    r: Seq<Effect>,
) -> bool {
    &&& post.local_peer@ == pre.local_peer@
    &&& post.public_key@ == pre.public_key@
    &&& post.event_slot == pre.event_slot
    &&& post.connections@ == pre.connections@
    &&& post.behavior.mdns.has_pair(peer@, address@)
    &&& post.behavior.kad.knows_peer(peer@)
    &&& post.behavior.ping == pre.behavior.ping
    &&& post.behavior.identify == pre.behavior.identify
    &&& post.behavior.request_response == pre.behavior.request_response
    &&& r.len() == (if pre.behavior.mdns.has_pair(peer@, address@) {
        0int
    } else {
        1int
    })
    &&& r.len() == 1 ==> (r[0] matches Effect::Surface { event } && (
    event matches BehaviorEvent::DiscoveryFound { peer: p, address: a } && p@ == peer@ && a@
        == address@))
}

/// What a finished liveness probe produces: its result surfaced, and a close
/// operation exactly when the failure limit was just reached.
pub open spec fn probe_outcome(
    pre: Turtle,
    post: Turtle,
    peer: PeerIdentifier,
    round_trip_ms: Option<u64>,
    r: Seq<Effect>,
) -> bool {
    &&& post.local_peer@ == pre.local_peer@
    &&& post.public_key@ == pre.public_key@
    &&& post.event_slot == pre.event_slot
    &&& post.connections@ == pre.connections@
    &&& post.behavior.mdns == pre.behavior.mdns
    &&& post.behavior.kad == pre.behavior.kad
    &&& post.behavior.identify == pre.behavior.identify
    &&& post.behavior.request_response == pre.behavior.request_response
    &&& r.len() >= 1 && (r[0] matches Effect::Surface { event } && (
    event matches BehaviorEvent::LivenessResult { peer: p, round_trip_ms: ms } && p@ == peer@
        && ms == round_trip_ms))
    &&& r.len() == (if round_trip_ms is None && crate::turtle::behavior::old_failure_count(
        pre.behavior.ping,
        peer@,
    ) + 1 == crate::turtle::behavior::LIVENESS_FAILURE_LIMIT {
        2int
    } else {
        1int
    })
    &&& r.len() == 2 ==> (r[1] matches Effect::Act { action } && (
    action matches NetAction::CloseConnection { peer: p } && p@ == peer@))
}

/// What an arrived self-description produces: one `MetadataReceived` exactly
/// on the first receipt over a tracked connection.
pub open spec fn metadata_outcome(
    pre: Turtle,
    post: Turtle,
    peer: PeerIdentifier,
    protocols: Vec<String>,
    addresses: Vec<Address>,
    r: Seq<Effect>,
) -> bool {
    &&& post.local_peer@ == pre.local_peer@
    &&& post.public_key@ == pre.public_key@
    &&& post.event_slot == pre.event_slot
    &&& post.connections@ == pre.connections@
    &&& post.behavior.mdns == pre.behavior.mdns
    &&& post.behavior.kad == pre.behavior.kad
    &&& post.behavior.ping == pre.behavior.ping
    &&& post.behavior.request_response == pre.behavior.request_response
    &&& r.len() == (if (exists|k: int|
        0 <= k < pre.behavior.identify.peers@.len() && (
        #[trigger] pre.behavior.identify.peers@[k]).peer@ == peer@
            && !pre.behavior.identify.peers@[k].received) {
        1int
    } else {
        0int
    })
    &&& r.len() == 1 ==> (r[0] matches Effect::Surface { event } && (
    event matches BehaviorEvent::MetadataReceived { peer: p, protocols: pr, addresses: ad } && p@
        == peer@ && pr == protocols && ad == addresses))
}

/// What an arrived inbound request produces: it is recorded under a fresh
/// correlation id and surfaces as `MessageReceived`.
pub open spec fn request_outcome(
    pre: Turtle,
    post: Turtle,
    peer: PeerIdentifier,
    message: Message,
    r: Seq<Effect>,
) -> bool {
    &&& post.local_peer@ == pre.local_peer@
    &&& post.public_key@ == pre.public_key@
    &&& post.event_slot == pre.event_slot
    &&& post.connections@ == pre.connections@
    &&& post.behavior.mdns == pre.behavior.mdns
    &&& post.behavior.kad == pre.behavior.kad
    &&& post.behavior.ping == pre.behavior.ping
    &&& post.behavior.identify == pre.behavior.identify
    &&& post.behavior.request_response.pending@ == pre.behavior.request_response.pending@
    &&& pre.behavior.request_response.next_correlation_id == u64::MAX ==> post == pre && r.len()
        == 0
    &&& pre.behavior.request_response.next_correlation_id < u64::MAX ==> {
        &&& post.behavior.request_response.inbound@.len()
            == pre.behavior.request_response.inbound@.len() + 1
        &&& post.behavior.request_response.inbound@.last().peer@ == peer@
        &&& r.len() == 1
        &&& (r[0] matches Effect::Surface { event } && (
        event matches BehaviorEvent::MessageReceived { peer: p, message: m } && p@ == peer@ && m@
            == message@))
    }
}

/// What an arrived response produces: the matching pending request resolves
/// once and the payload and acknowledgement surface; an uncorrelated
/// response is discarded.
pub open spec fn response_outcome(
    pre: Turtle,
    post: Turtle,
    peer: PeerIdentifier,
    correlation_id: u64,
    message: Message,
    r: Seq<Effect>,
) -> bool {
    &&& post.local_peer@ == pre.local_peer@
    &&& post.public_key@ == pre.public_key@
    &&& post.event_slot == pre.event_slot
    &&& post.connections@ == pre.connections@
    &&& post.behavior.mdns == pre.behavior.mdns
    &&& post.behavior.kad == pre.behavior.kad
    &&& post.behavior.ping == pre.behavior.ping
    &&& post.behavior.identify == pre.behavior.identify
    &&& post.behavior.request_response.inbound@ == pre.behavior.request_response.inbound@
    &&& !pre.behavior.request_response.has_pending(correlation_id)
        ==> post.behavior.request_response.pending@ == pre.behavior.request_response.pending@
        && post.behavior.request_response.next_correlation_id
        == pre.behavior.request_response.next_correlation_id && r.len() == 0
    &&& pre.behavior.request_response.has_pending(correlation_id) ==> {
        &&& post.behavior.request_response.pending@.len()
            == pre.behavior.request_response.pending@.len() - 1
        &&& !post.behavior.request_response.has_pending(correlation_id)
        &&& r.len() == 2
        &&& (r[0] matches Effect::Surface { event } && (
        event matches BehaviorEvent::MessageReceived { peer: p, message: m } && p@ == peer@ && m@
            == message@))
        &&& (r[1] matches Effect::Surface { event } && (
        event matches BehaviorEvent::MessageAcknowledged { peer: p, correlation_id: c } && p@
            == peer@ && c == correlation_id))
    }
}

/// What a timer tick produces: stale discovery entries evicted, the clock
/// advanced, and nothing surfaced.
pub open spec fn tick_outcome(pre: Turtle, post: Turtle, now: u64, r: Seq<Effect>) -> bool {
    &&& post.local_peer@ == pre.local_peer@
    &&& post.public_key@ == pre.public_key@
    &&& post.event_slot == pre.event_slot
    &&& post.connections@ == pre.connections@
    &&& post.clock == now
    &&& post.behavior.mdns.entries@ == pre.behavior.mdns.entries@.filter(
        |e: crate::turtle::behavior::DiscoveryEntry| crate::turtle::behavior::fresh_at(e, now),
    )
    &&& post.behavior.kad == pre.behavior.kad
    &&& post.behavior.ping == pre.behavior.ping
    &&& post.behavior.identify == pre.behavior.identify
    &&& post.behavior.request_response == pre.behavior.request_response
    &&& r.len() == 0
}

/// The reason a closing connection is reported with: `Unhealthy` when that
/// peer's liveness failures stand at the limit, `Remote` otherwise.
pub open spec fn spec_close_reason(pre: Turtle, peer: PeerIdentifier) -> CloseReason {
    if crate::turtle::behavior::old_failure_count(pre.behavior.ping, peer@)
        == crate::turtle::behavior::LIVENESS_FAILURE_LIMIT {
        CloseReason::Unhealthy
    } else {
        CloseReason::Remote
    }
}

/// What routing one driver report produces: the owning handler's outcome,
/// with a close reported as unhealthy exactly when liveness condemned the
/// peer.
pub open spec fn swarm_outcome(pre: Turtle, post: Turtle, input: SwarmInput, r: Seq<Effect>) -> bool {
    &&& post.local_peer@ == pre.local_peer@
    &&& post.public_key@ == pre.public_key@
    &&& post.event_slot == pre.event_slot
    &&& (input matches SwarmInput::ConnectionEstablished { peer, address, inbound, now }
        ==> established_outcome(pre, post, peer, address, inbound, now, r))
    &&& (input matches SwarmInput::ConnectionClosed { peer } ==> closed_outcome(
        pre,
        post,
        peer,
        spec_close_reason(pre, peer),
        r,
    ))
    &&& (input matches SwarmInput::DialFailed { peer } ==> dial_failed_outcome(pre, post, peer, r))
    &&& (input matches SwarmInput::AnnouncementReceived { peer, address, now } ==> announce_outcome(
        pre,
        post,
        peer,
        address,
        now,
        r,
    ))
    &&& (input matches SwarmInput::ProbeCompleted { peer, round_trip_ms } ==> probe_outcome(
        pre,
        post,
        peer,
        round_trip_ms,
        r,
    ))
    &&& (input matches SwarmInput::MetadataArrived { peer, protocols, addresses }
        ==> metadata_outcome(pre, post, peer, protocols, addresses, r))
    &&& (input matches SwarmInput::RequestArrived { peer, message } ==> request_outcome(
        pre,
        post,
        peer,
        message,
        r,
    ))
    &&& (input matches SwarmInput::ResponseArrived { peer, correlation_id, message }
        ==> response_outcome(pre, post, peer, correlation_id, message, r))
    &&& (input matches SwarmInput::Tick { now } ==> tick_outcome(pre, post, now, r))
}


/// The node as the loop sees it once the single-slot channel is drained.
pub open spec fn spec_drained(t: Turtle) -> Turtle {
    Turtle { event_slot: None, ..t }
}


/// Whether some effect of the list surfaces a discovery of this peer.
pub open spec fn surfaces_discovery_of(r: Seq<Effect>, peer: Seq<u8>) -> bool {
    exists|j: int|
        0 <= j < r.len() && ((#[trigger] r[j]) matches Effect::Surface { event } && (
        event matches BehaviorEvent::DiscoveryFound { peer: p, address } && p@ == peer))
}

/// An evicted peer does not reappear by itself: no driver report other than
/// a fresh announcement from that very peer can surface `DiscoveryFound`
/// for it.
pub proof fn lemma_no_discovery_without_announcement(
    pre: Turtle,
    post: Turtle,
    input: SwarmInput,
    r: Seq<Effect>,
    peer: Seq<u8>,
)
    requires
        swarm_outcome(pre, post, input, r),
        !(input matches SwarmInput::AnnouncementReceived { peer: p, address, now } && p@ == peer),
    ensures
        !surfaces_discovery_of(r, peer),
{
    match input {
        SwarmInput::ConnectionEstablished { peer: q, address, inbound, now } => {
            assert(established_outcome(pre, post, q, address, inbound, now, r));
        },
        SwarmInput::ConnectionClosed { peer: q } => {
            assert(closed_outcome(pre, post, q, spec_close_reason(pre, q), r));
            assert forall|j: int|
                0 <= j < r.len() implies !((#[trigger] r[j]) matches Effect::Surface { event } && (
            event matches BehaviorEvent::DiscoveryFound { peer: p, address } && p@ == peer)) by {
                if j >= 1 {
                    assert(r[j] == (Effect::Surface {
                        event: pre.behavior.request_response.pending@.filter(
                            |p: crate::turtle::behavior::PendingRequest| p.target_peer@ == q@,
                        ).map_values(
                            |p: crate::turtle::behavior::PendingRequest| crate::turtle::behavior::loss_event_of(
                                p,
                            ),
                        )[j - 1],
                    }));
                }
            }
        },
        SwarmInput::DialFailed { peer: q } => {
            assert(dial_failed_outcome(pre, post, q, r));
            assert forall|j: int|
                0 <= j < r.len() implies !((#[trigger] r[j]) matches Effect::Surface { event } && (
            event matches BehaviorEvent::DiscoveryFound { peer: p, address } && p@ == peer)) by {
                assert(r[j] == pre.behavior.request_response.pending@.filter(
                    |p: crate::turtle::behavior::PendingRequest| p.target_peer@ == q@,
                ).map_values(
                    |p: crate::turtle::behavior::PendingRequest| (Effect::Surface {
                        event: crate::turtle::behavior::loss_event_of(p),
                    }),
                )[j]);
            }
        },
        SwarmInput::AnnouncementReceived { peer: q, address, now } => {
            assert(announce_outcome(pre, post, q, address, now, r));
            assert(q@ != peer);
        },
        SwarmInput::ProbeCompleted { peer: q, round_trip_ms } => {
            assert(probe_outcome(pre, post, q, round_trip_ms, r));
        },
        SwarmInput::MetadataArrived { peer: q, protocols, addresses } => {
            assert(metadata_outcome(pre, post, q, protocols, addresses, r));
        },
        SwarmInput::RequestArrived { peer: q, message } => {
            assert(request_outcome(pre, post, q, message, r));
        },
        SwarmInput::ResponseArrived { peer: q, correlation_id, message } => {
            assert(response_outcome(pre, post, q, correlation_id, message, r));
        },
        SwarmInput::Tick { now } => {
            assert(tick_outcome(pre, post, now, r));
        },
    }
}

/// What processing one queued loop item produces: the command router's or
/// the report router's outcome, whichever owns the item.
pub open spec fn item_outcome(pre: Turtle, post: Turtle, item: LoopInput, r: Seq<Effect>) -> bool {
    &&& (item matches LoopInput::Command { tokens } ==> command_outcome(pre, post, tokens@, r))
    &&& (item matches LoopInput::Swarm { input } ==> swarm_outcome(pre, post, input, r))
}

/// What processing a whole batch produces: each item handled in order and to
/// completion, its effects appended before the next item is taken up.
pub open spec fn batch_outcome(
    pre: Turtle,
    post: Turtle,
    inputs: Seq<LoopInput>,
    effects: Seq<Effect>,
) -> bool
    decreases inputs.len(),
{
    if inputs.len() <= 0 {
        post == pre && effects.len() == 0
    } else {
        exists|mid: Turtle, split: int|
            0 <= split <= effects.len() && #[trigger] item_outcome(
                pre,
                mid,
                inputs[0],
                effects.subrange(0, split),
            ) && batch_outcome(
                mid,
                post,
                inputs.subrange(1, inputs.len() as int),
                effects.subrange(split, effects.len() as int),
            )
    }
}

/// Extending a processed batch by one more item extends its outcome.
proof fn lemma_batch_outcome_snoc(
    pre: Turtle,
    mid: Turtle,
    post: Turtle,
    inputs: Seq<LoopInput>,
    effects: Seq<Effect>,
    item: LoopInput,
    extra: Seq<Effect>,
)
    requires
        batch_outcome(pre, mid, inputs, effects),
        item_outcome(mid, post, item, extra),
    ensures
        batch_outcome(pre, post, inputs.push(item), effects + extra),
    decreases inputs.len(),
{
    let all_inputs = inputs.push(item);
    let all_effects = effects + extra;
    if inputs.len() == 0 {
        assert(mid == pre && effects.len() == 0);
        assert(all_inputs[0] == item);
        assert(all_effects.subrange(0, extra.len() as int) =~= extra);
        assert(all_inputs.subrange(1, all_inputs.len() as int) =~= Seq::<LoopInput>::empty());
        assert(all_effects.subrange(extra.len() as int, all_effects.len() as int)
            =~= Seq::<Effect>::empty());
        assert(batch_outcome(
            post,
            post,
            Seq::<LoopInput>::empty(),
            Seq::<Effect>::empty(),
        ));
        assert(item_outcome(pre, post, all_inputs[0], all_effects.subrange(0, extra.len() as int)));
        assert(0 <= extra.len() as int <= all_effects.len());
    } else {
        let (mid1, split) = choose|mid1: Turtle, split: int|
            0 <= split <= effects.len() && #[trigger] item_outcome(
                pre,
                mid1,
                inputs[0],
                effects.subrange(0, split),
            ) && batch_outcome(
                mid1,
                mid,
                inputs.subrange(1, inputs.len() as int),
                effects.subrange(split, effects.len() as int),
            );
        lemma_batch_outcome_snoc(
            mid1,
            mid,
            post,
            inputs.subrange(1, inputs.len() as int),
            effects.subrange(split, effects.len() as int),
            item,
            extra,
        );
        assert(all_inputs.subrange(1, all_inputs.len() as int) =~= inputs.subrange(
            1,
            inputs.len() as int,
        ).push(item));
        assert(all_effects.subrange(split, all_effects.len() as int) =~= effects.subrange(
            split,
            effects.len() as int,
        ) + extra);
        assert(all_effects.subrange(0, split) =~= effects.subrange(0, split));
        assert(all_inputs[0] == inputs[0]);
        assert(item_outcome(pre, mid1, all_inputs[0], all_effects.subrange(0, split)));
        assert(batch_outcome(
            mid1,
            post,
            all_inputs.subrange(1, all_inputs.len() as int),
            all_effects.subrange(split, all_effects.len() as int),
        ));
    }
}

impl Turtle {
    /// Issues a request of `payload` toward `peer`: over the existing
    /// connection if one is active, after a dial if the peer's address is
    /// known from discovery, and as an immediate `RequestFailed` with
    /// `NoKnownRoute` otherwise. An oversized payload is rejected before any
    /// byte would leave the process, and changes nothing.
    pub fn send_request(&mut self, peer: PeerIdentifier, payload: Vec<u8>) -> (r: Vec<Effect>)
        requires
            old(self).wf(),
        ensures
            final(self).wf(),
            final(self).local_peer@ == old(self).local_peer@,
            final(self).public_key@ == old(self).public_key@,
            final(self).event_slot == old(self).event_slot,
            final(self).clock == old(self).clock,
            final(self).connections@ == old(self).connections@,
            final(self).behavior.mdns == old(self).behavior.mdns,
            final(self).behavior.ping == old(self).behavior.ping,
            final(self).behavior.identify == old(self).behavior.identify,
            final(self).behavior.kad == old(self).behavior.kad,
            send_outcome(*old(self), *final(self), peer@, payload@, r@),
    {
        if payload.len() > MAX_LENGTH {
            return Vec::new();
        }
        if self.behavior.request_response.next_correlation_id == u64::MAX {
            return Vec::new();
        }
        let message = Message(payload);
        let frame = match Codec::write_message(&message) {
            Ok(f) => f,
            Err(_) => {
                return Vec::new();
            },
        };
        let mut effects: Vec<Effect> = Vec::new();
        let connected = self.find_connection(&peer);
        match connected {
            Some(_) => {
                let corr = self.behavior.request_response.record_outbound(peer, self.clock);
                effects.push(
                    Effect::Act {
                        action: NetAction::OpenRequest {
                            peer: PeerIdentifier {
                                bytes: self.behavior.request_response.pending[self.behavior.request_response.pending.len()
                                    - 1].target_peer.bytes.clone(),
                            },
                            correlation_id: corr,
                            frame,
                        },
                    },
                );
                effects
            },
            None => {
                let known = self.behavior.mdns.find_peer_address(&peer);
                match known {
                    Some(address) => {
                        let corr = self.behavior.request_response.record_outbound(
                            peer,
                            self.clock,
                        );
                        let target = PeerIdentifier {
                            bytes: self.behavior.request_response.pending[self.behavior.request_response.pending.len()
                                - 1].target_peer.bytes.clone(),
                        };
                        effects.push(Effect::Act { action: NetAction::Dial { address } });
                        effects.push(
                            Effect::Act {
                                action: NetAction::OpenRequest {
                                    peer: target,
                                    correlation_id: corr,
                                    frame,
                                },
                            },
                        );
                        effects
                    },
                    None => {
                        let corr = self.behavior.request_response.next_correlation_id;
                        self.behavior.request_response.next_correlation_id = corr + 1;
                        effects.push(
                            Effect::Surface {
                                event: BehaviorEvent::RequestFailed {
                                    correlation_id: corr,
                                    reason: FailureReason::NoKnownRoute,
                                },
                            },
                        );
                        effects
                    },
                }
            },
        }
    }

    /// The base-58 text of this node's own identifier, exactly when its
    /// bytes render; the text is a function of the identifier alone, so it
    /// is stable across repeated calls within one process run.
    pub fn show_local_peer(&self) -> (r: Option<String>)
        ensures
            r is Some <==> crate::identity::id_renders(self.local_peer@),
            r matches Some(s) ==> s@ == crate::identity::base58_of(self.local_peer@),
    {
        self.local_peer.to_text()
    }
}

/// Repeated renderings of one unchanged local identifier are identical:
/// the printed text is a function of the identifier bytes alone.
pub proof fn lemma_show_peer_stable(local_peer: Seq<u8>, line_a: Seq<char>, line_b: Seq<char>)
    requires
        line_a == crate::identity::base58_of(local_peer),
        line_b == crate::identity::base58_of(local_peer),
    ensures
        line_a == line_b,
{
}

/// The bytes of a command token, as the message payload it denotes.
fn str_bytes(s: &str) -> (r: Vec<u8>)
    ensures
        r@ == s.spec_bytes(),
{
    let b = s.as_bytes();
    let mut r: Vec<u8> = Vec::new();
    let mut i: usize = 0;
    while i < b.len()
        invariant
            i <= b@.len(),
            b@ == s.spec_bytes(),
            r@ == b@.subrange(0, i as int),
        decreases b@.len() - i,
    {
        r.push(b[i]);
        i += 1;
        proof {
            assert(r@ =~= b@.subrange(0, i as int));
        }
    }
    proof {
        assert(b@.subrange(0, b@.len() as int) =~= b@);
    }
    r
}

impl Turtle {
    /// Routes one operator command, already split into tokens, to the
    /// operation that owns it. An empty line or an unknown command word
    /// changes nothing.
    pub fn handle_command(&mut self, tokens: &Vec<String>) -> (r: Vec<Effect>)
        requires
            old(self).wf(),
        ensures
            final(self).wf(),
            command_outcome(*old(self), *final(self), tokens@, r@),
    {
        if tokens.len() == 0 {
            return Vec::new();
        }
        proof {
            reveal_strlit("DIAL");
            reveal_strlit("LISTEN");
            reveal_strlit("SEND");
            reveal_strlit("SHOW");
            assert("DIAL"@.len() == 4 && "LISTEN"@.len() == 6 && "SEND"@.len() == 4 && "SHOW"@.len()
                == 4);
            assert("DIAL"@[0] == 'D' && "SEND"@[0] == 'S' && "SHOW"@[0] == 'S');
            assert("SEND"@[1] == 'E' && "SHOW"@[1] == 'H');
            assert("DIAL"@ != "LISTEN"@ && "DIAL"@ != "SEND"@ && "DIAL"@ != "SHOW"@);
            assert("LISTEN"@ != "SEND"@ && "LISTEN"@ != "SHOW"@);
            assert("SEND"@ != "SHOW"@);
        }
        let dial: String = "DIAL".to_owned();
        let listen: String = "LISTEN".to_owned();
        let send: String = "SEND".to_owned();
        let show: String = "SHOW".to_owned();
        if tokens[0].eq(&dial) {
            self.handle_command_dial(tokens)
        } else if tokens[0].eq(&listen) {
            self.handle_command_listen(tokens)
        } else if tokens[0].eq(&send) {
            self.handle_command_send(tokens)
        } else if tokens[0].eq(&show) {
            self.handle_command_show(tokens)
        } else {
            Vec::new()
        }
    }

    /// `DIAL <address>`: one dial operation when the address parses, nothing
    /// otherwise; never a state change.
    pub fn handle_command_dial(&mut self, tokens: &Vec<String>) -> (r: Vec<Effect>)
        requires
            old(self).wf(),
        ensures
            final(self).wf(),
            *final(self) == *old(self),
            dial_outcome(tokens@, r@),
    {
        let mut r: Vec<Effect> = Vec::new();
        if tokens.len() < 2 {
            return r;
        }
        match Address::parse(tokens[1].as_str()) {
            Some(address) => {
                r.push(Effect::Act { action: NetAction::Dial { address } });
            },
            None => {},
        }
        r
    }

    /// `LISTEN <address>`: one listen operation when the address parses,
    /// nothing otherwise; never a state change.
    pub fn handle_command_listen(&mut self, tokens: &Vec<String>) -> (r: Vec<Effect>)
        requires
            old(self).wf(),
        ensures
            final(self).wf(),
            *final(self) == *old(self),
            listen_outcome(tokens@, r@),
    {
        let mut r: Vec<Effect> = Vec::new();
        if tokens.len() < 2 {
            return r;
        }
        match Address::parse(tokens[1].as_str()) {
            Some(address) => {
                r.push(Effect::Act { action: NetAction::Listen { address } });
            },
            None => {},
        }
        r
    }

    /// `SHOW PEER`: prints the local identifier's stable base-58 text.
    pub fn handle_command_show(&mut self, tokens: &Vec<String>) -> (r: Vec<Effect>)
        requires
            old(self).wf(),
        ensures
            final(self).wf(),
            *final(self) == *old(self),
            show_outcome(old(self).local_peer@, tokens@, r@),
    {
        let mut r: Vec<Effect> = Vec::new();
        if tokens.len() < 2 {
            return r;
        }
        let peer_word: String = "PEER".to_owned();
        if tokens[1].eq(&peer_word) {
            match self.show_local_peer() {
                Some(line) => {
                    r.push(Effect::Print { line });
                },
                None => {},
            }
        }
        r
    }

    /// `SEND <peer-id> <message>`: issues the request toward the peer the
    /// identifier token names, carrying the message token's bytes; a missing
    /// or unparsable identifier changes nothing.
    pub fn handle_command_send(&mut self, tokens: &Vec<String>) -> (r: Vec<Effect>)
        requires
            old(self).wf(),
        ensures
            final(self).wf(),
            send_command_outcome(*old(self), *final(self), tokens@, r@),
    {
        if tokens.len() < 3 {
            return Vec::new();
        }
        match PeerIdentifier::from_text(tokens[1].as_str()) {
            Some(peer) => {
                let ghost pview = peer@;
                let payload = str_bytes(tokens[2].as_str());
                proof {
                    assert(pview == crate::identity::peer_id_of_text(tokens@[1]@));
                    assert(payload@ == vstd::utf8::encode_utf8(tokens@[2]@));
                }
                self.send_request(peer, payload)
            },
            None => Vec::new(),
        }
    }
}

impl Turtle {
    /// A new connection completed its handshake: the composer records it,
    /// tells the metadata and routing behaviors, and surfaces one
    /// `ConnectionEstablished` event.
    pub fn on_connection_established(
        &mut self,
        peer: PeerIdentifier,
        address: Address,
        inbound: bool,
        now: u64,
    ) -> (r: Vec<Effect>)
        requires
            old(self).wf(),
        ensures
            final(self).wf(),
            established_outcome(*old(self), *final(self), peer, address, inbound, now, r@),
    {
        let ghost pview = peer@;
        self.behavior.identify.on_connection_established(peer.duplicate());
        self.behavior.kad.insert_peer(peer.duplicate(), now);
        let already = self.find_connection(&peer);
        let event_peer = peer.duplicate();
        match already {
            Some(i) => {
                proof {
                    assert(self.connections@[i as int].peer@ == pview);
                    assert(self.connected(pview));
                }
            },
            None => {
                self.connections.push(Connection { peer, address, inbound });
                proof {
                    assert(self.connections@.last().peer@ == pview);
                    assert(self.connected(pview));
                }
            },
        }
        let mut r: Vec<Effect> = Vec::new();
        r.push(
            Effect::Surface { event: BehaviorEvent::ConnectionEstablished { peer: event_peer } },
        );
        r
    }

    /// A connection was destroyed: every behavior that tracks per-peer state
    /// evicts its entries, every request pending toward the peer resolves as
    /// `RequestFailed(ConnectionLost)` exactly once, and one
    /// `ConnectionClosed` event leads the surfaced stream.
    pub fn on_connection_closed(&mut self, peer: PeerIdentifier, reason: CloseReason) -> (r: Vec<
        Effect,
    >)
        requires
            old(self).wf(),
        ensures
            final(self).wf(),
            closed_outcome(*old(self), *final(self), peer, reason, r@),
    {
        let ghost pview = peer@;
        self.behavior.ping.remove_peer(&peer);
        self.behavior.identify.remove_peer(&peer);
        let mut failures = self.behavior.request_response.on_connection_closed(&peer);
        let ghost failed_events = failures@;
        let ghost keep = |c: Connection| c.peer@ != peer@;
        let ghost n = old(self).connections@.len() as int;
        let ghost bsnap = self.behavior;
        let total = self.connections.len();
        proof {
            assert(n == total);
        }
        let mut kept: Vec<Connection> = Vec::new();
        let mut done: usize = 0;
        while self.connections.len() > 0
            invariant
                n == old(self).connections@.len(),
                n <= usize::MAX,
                done + self.connections@.len() == n,
                self.connections@ == old(self).connections@.subrange(done as int, n),
                kept@ == old(self).connections@.subrange(0, done as int).filter(keep),
                keep == (|c: Connection| c.peer@ != pview),
                pview == peer@,
                self.behavior == bsnap,
                self.event_slot == old(self).event_slot,
                self.local_peer@ == old(self).local_peer@,
                self.public_key@ == old(self).public_key@,
            decreases self.connections@.len(),
        {
            let c = self.connections.remove(0);
            proof {
                assert(c == old(self).connections@[done as int]);
                assert(self.connections@ =~= old(self).connections@.subrange(done as int + 1, n));
                assert(old(self).connections@.subrange(0, done as int + 1) =~= old(
                    self,
                ).connections@.subrange(0, done as int).push(c));
                crate::turtle::behavior::lemma_filter_push(
                    old(self).connections@.subrange(0, done as int),
                    keep,
                    c,
                );
            }
            if !c.peer.same_as(&peer) {
                kept.push(c);
            }
            done += 1;
        }
        proof {
            assert(old(self).connections@.subrange(0, n) =~= old(self).connections@);
        }
        self.connections = kept;
        proof {
            crate::turtle::behavior::lemma_filter_distinct_by(
                old(self).connections@,
                keep,
                |c: Connection| c.peer@,
            );
            assert forall|j: int| 0 <= j < self.connections@.len() implies (
            #[trigger] self.connections@[j]).peer@ != pview by {
                old(self).connections@.lemma_filter_pred(keep, j);
            }
        }
        let mut r: Vec<Effect> = Vec::new();
        r.push(
            Effect::Surface {
                event: BehaviorEvent::ConnectionClosed { peer, reason },
            },
        );
        let ghost m = failed_events.len() as int;
        let total_f = failures.len();
        proof {
            assert(m == total_f);
        }
        let mut taken: usize = 0;
        while failures.len() > 0
            invariant
                m == failed_events.len(),
                m <= usize::MAX,
                taken + failures@.len() == m,
                failures@ == failed_events.subrange(taken as int, m),
                r@.len() == 1 + taken,
                r@[0] == (Effect::Surface {
                    event: BehaviorEvent::ConnectionClosed { peer, reason },
                }),
                forall|j: int|
                    1 <= j < r@.len() ==> r@[j] == (Effect::Surface {
                        event: failed_events[j - 1],
                    }),
            decreases failures@.len(),
        {
            let e = failures.remove(0);
            proof {
                assert(e == failed_events[taken as int]);
                assert(failures@ =~= failed_events.subrange(taken as int + 1, m));
            }
            r.push(Effect::Surface { event: e });
            taken += 1;
        }
        r
    }

    /// A dial toward `peer` failed, so no connection will establish: every
    /// request pending toward it resolves as lost, exactly once each, and
    /// nothing else changes.
    pub fn on_dial_failed(&mut self, peer: PeerIdentifier) -> (r: Vec<Effect>)
        requires
            old(self).wf(),
        ensures
            final(self).wf(),
            dial_failed_outcome(*old(self), *final(self), peer, r@),
    {
        let mut failures = self.behavior.request_response.on_connection_closed(&peer);
        let ghost failed_events = failures@;
        let ghost to_effect = |p: crate::turtle::behavior::PendingRequest| (Effect::Surface {
            event: crate::turtle::behavior::loss_event_of(p),
        });
        let mut r: Vec<Effect> = Vec::new();
        let ghost m = failed_events.len() as int;
        let total_f = failures.len();
        proof {
            assert(m == total_f);
        }
        let mut taken: usize = 0;
        while failures.len() > 0
            invariant
                m == failed_events.len(),
                m <= usize::MAX,
                taken + failures@.len() == m,
                failures@ == failed_events.subrange(taken as int, m),
                r@.len() == taken,
                forall|j: int|
                    0 <= j < taken ==> r@[j] == (Effect::Surface { event: failed_events[j] }),
            decreases failures@.len(),
        {
            let e = failures.remove(0);
            proof {
                assert(e == failed_events[taken as int]);
                assert(failures@ =~= failed_events.subrange(taken as int + 1, m));
            }
            r.push(Effect::Surface { event: e });
            taken += 1;
        }
        proof {
            assert(r@ =~= old(self).behavior.request_response.pending@.filter(
                |p: crate::turtle::behavior::PendingRequest| p.target_peer@ == peer@,
            ).map_values(to_effect));
        }
        r
    }

    /// A local-network announcement arrived: discovery refreshes or adds the
    /// pair and the routing table learns the peer; a previously-unseen pair
    /// surfaces one `DiscoveryFound` event.
    pub fn on_announcement(&mut self, peer: PeerIdentifier, address: Address, now: u64) -> (r: Vec<
        Effect,
    >)
        requires
            old(self).wf(),
        ensures
            final(self).wf(),
            announce_outcome(*old(self), *final(self), peer, address, now, r@),
    {
        self.behavior.kad.insert_peer(peer.duplicate(), now);
        let found = self.behavior.mdns.observe_announcement(peer, address, now);
        let mut r: Vec<Effect> = Vec::new();
        match found {
            Some(event) => {
                r.push(Effect::Surface { event });
            },
            None => {},
        }
        r
    }

    /// A liveness probe finished: its result surfaces, and a connection that
    /// just reached the consecutive-failure limit is asked closed.
    pub fn on_probe(&mut self, peer: PeerIdentifier, round_trip_ms: Option<u64>) -> (r: Vec<
        Effect,
    >)
        requires
            old(self).wf(),
        ensures
            final(self).wf(),
            probe_outcome(*old(self), *final(self), peer, round_trip_ms, r@),
    {
        let close_peer = peer.duplicate();
        let (event, close) = self.behavior.ping.record_probe(peer, round_trip_ms);
        let mut r: Vec<Effect> = Vec::new();
        r.push(Effect::Surface { event });
        if close {
            r.push(Effect::Act { action: NetAction::CloseConnection { peer: close_peer } });
        }
        r
    }

    /// The peer's one-shot self-description arrived: the first receipt on a
    /// tracked connection surfaces `MetadataReceived`, a repeat or an
    /// untracked peer surfaces nothing.
    pub fn on_metadata(
        &mut self,
        peer: PeerIdentifier,
        protocols: Vec<String>,
        addresses: Vec<Address>,
    ) -> (r: Vec<Effect>)
        requires
            old(self).wf(),
        ensures
            final(self).wf(),
            metadata_outcome(*old(self), *final(self), peer, protocols, addresses, r@),
    {
        let found = self.behavior.identify.record_received(peer, protocols, addresses);
        let mut r: Vec<Effect> = Vec::new();
        match found {
            Some(event) => {
                r.push(Effect::Surface { event });
            },
            None => {},
        }
        r
    }

    /// An inbound request arrived: it is recorded for later response routing
    /// and surfaces as `MessageReceived`.
    pub fn on_request(&mut self, peer: PeerIdentifier, message: Message) -> (r: Vec<Effect>)
        requires
            old(self).wf(),
        ensures
            final(self).wf(),
            request_outcome(*old(self), *final(self), peer, message, r@),
    {
        if self.behavior.request_response.next_correlation_id == u64::MAX {
            return Vec::new();
        }
        let event_peer = peer.duplicate();
        self.behavior.request_response.record_inbound(peer);
        let mut r: Vec<Effect> = Vec::new();
        r.push(
            Effect::Surface {
                event: BehaviorEvent::MessageReceived { peer: event_peer, message },
            },
        );
        r
    }

    /// The response correlated to an outbound request arrived: a pending
    /// request resolves and both the payload and the acknowledgement
    /// surface; a response nothing waits for is discarded.
    pub fn on_response(&mut self, peer: PeerIdentifier, correlation_id: u64, message: Message) -> (
        r: Vec<Effect>)
        requires
            old(self).wf(),
        ensures
            final(self).wf(),
            response_outcome(*old(self), *final(self), peer, correlation_id, message, r@),
    {
        let found = self.behavior.request_response.resolve_response(correlation_id);
        if !found {
            return Vec::new();
        }
        proof {
            let rr = old(self).behavior.request_response;
            let k = choose|i: int|
                0 <= i < rr.pending@.len() && rr.pending@[i].correlation_id == correlation_id
                    && self.behavior.request_response.pending@ == rr.pending@.remove(i);
            assert(self.behavior.request_response.pending@.len() == rr.pending@.len() - 1);
            assert forall|i: int|
                0 <= i < self.behavior.request_response.pending@.len() implies (
            #[trigger] self.behavior.request_response.pending@[i]).correlation_id
                != correlation_id by {
                if i < k {
                    assert(self.behavior.request_response.pending@[i] == rr.pending@[i]);
                } else {
                    assert(self.behavior.request_response.pending@[i] == rr.pending@[i + 1]);
                }
            }
        }
        let ack_peer = peer.duplicate();
        let mut r: Vec<Effect> = Vec::new();
        r.push(Effect::Surface { event: BehaviorEvent::MessageReceived { peer, message } });
        r.push(
            Effect::Surface {
                event: BehaviorEvent::MessageAcknowledged { peer: ack_peer, correlation_id },
            },
        );
        r
    }

    /// A timer tick at `now`: stale discovery entries are evicted and the
    /// composer's clock advances.
    pub fn on_tick(&mut self, now: u64) -> (r: Vec<Effect>)
        requires
            old(self).wf(),
        ensures
            final(self).wf(),
            tick_outcome(*old(self), *final(self), now, r@),
    {
        self.behavior.mdns.evict_stale(now);
        self.clock = now;
        Vec::new()
    }

    /// Routes one driver report to the handler that owns it, choosing the
    /// close reason from the liveness state the composer holds.
    pub fn handle_swarm_event(&mut self, input: SwarmInput) -> (r: Vec<Effect>)
        requires
            old(self).wf(),
        ensures
            final(self).wf(),
            swarm_outcome(*old(self), *final(self), input, r@),
    {
        match input {
            SwarmInput::ConnectionEstablished { peer, address, inbound, now } => {
                self.on_connection_established(peer, address, inbound, now)
            },
            SwarmInput::ConnectionClosed { peer } => {
                let at_limit = self.behavior.ping.failures_of(&peer)
                    == crate::turtle::behavior::LIVENESS_FAILURE_LIMIT;
                let reason = if at_limit {
                    CloseReason::Unhealthy
                } else {
                    CloseReason::Remote
                };
                self.on_connection_closed(peer, reason)
            },
            SwarmInput::DialFailed { peer } => self.on_dial_failed(peer),
            SwarmInput::AnnouncementReceived { peer, address, now } => {
                self.on_announcement(peer, address, now)
            },
            SwarmInput::ProbeCompleted { peer, round_trip_ms } => {
                self.on_probe(peer, round_trip_ms)
            },
            SwarmInput::MetadataArrived { peer, protocols, addresses } => {
                self.on_metadata(peer, protocols, addresses)
            },
            SwarmInput::RequestArrived { peer, message } => self.on_request(peer, message),
            SwarmInput::ResponseArrived { peer, correlation_id, message } => {
                self.on_response(peer, correlation_id, message)
            },
            SwarmInput::Tick { now } => self.on_tick(now),
        }
    }

    /// Issues the response to an inbound request: one framed write toward
    /// the requester, exactly when the correlation id names a recorded
    /// inbound request and the payload is not oversized.
    pub fn respond(&mut self, correlation_id: u64, payload: Vec<u8>) -> (r: Vec<Effect>)
        requires
            old(self).wf(),
        ensures
            final(self).wf(),
            final(self).local_peer@ == old(self).local_peer@,
            final(self).public_key@ == old(self).public_key@,
            final(self).event_slot == old(self).event_slot,
            final(self).connections@ == old(self).connections@,
            final(self).behavior.mdns == old(self).behavior.mdns,
            final(self).behavior.kad == old(self).behavior.kad,
            final(self).behavior.ping == old(self).behavior.ping,
            final(self).behavior.identify == old(self).behavior.identify,
            final(self).behavior.request_response.pending@ == old(
                self,
            ).behavior.request_response.pending@,
            payload@.len() > MAX_LENGTH ==> *final(self) == *old(self) && r@.len() == 0,
            payload@.len() <= MAX_LENGTH && !(exists|i: int|
                0 <= i < old(self).behavior.request_response.inbound@.len() && (#[trigger] old(
                    self,
                ).behavior.request_response.inbound@[i]).correlation_id == correlation_id)
                ==> final(self).behavior.request_response.inbound@
                == old(self).behavior.request_response.inbound@
                && final(self).behavior.request_response.next_correlation_id
                == old(self).behavior.request_response.next_correlation_id
                && r@.len() == 0,
            payload@.len() <= MAX_LENGTH && (exists|i: int|
                0 <= i < old(self).behavior.request_response.inbound@.len() && (#[trigger] old(
                    self,
                ).behavior.request_response.inbound@[i]).correlation_id == correlation_id) ==> {
                &&& final(self).behavior.request_response.inbound@.len() == old(
                    self,
                ).behavior.request_response.inbound@.len() - 1
                &&& r@.len() == 1
                &&& (r@[0] matches Effect::Act { action } && (
                action matches NetAction::SendResponse { peer: p, correlation_id: c, frame } && c
                    == correlation_id && frame@ == frame_of(payload@)))
            },
    {
        if payload.len() > MAX_LENGTH {
            return Vec::new();
        }
        let message = Message(payload);
        let frame = match Codec::write_message(&message) {
            Ok(f) => f,
            Err(_) => {
                return Vec::new();
            },
        };
        match self.behavior.request_response.take_inbound(correlation_id) {
            Some(peer) => {
                let mut r: Vec<Effect> = Vec::new();
                r.push(
                    Effect::Act {
                        action: NetAction::SendResponse { peer, correlation_id, frame },
                    },
                );
                r
            },
            None => Vec::new(),
        }
    }

    /// One batch of control-loop iterations: the stop slot is polled at the
    /// loop's idle point first -- a pending `Stop` terminates the loop
    /// before anything is processed -- then every queued item is processed
    /// to completion, commands and swarm reports alike.
    pub fn run(&mut self, inputs: Vec<LoopInput>) -> (r: RunOutcome)
        requires
            old(self).wf(),
        ensures
            final(self).wf(),
            final(self).local_peer@ == old(self).local_peer@,
            final(self).public_key@ == old(self).public_key@,
            final(self).event_slot is None,
            r.stopped == (old(self).event_slot == Some(Event::Stop)),
            r.stopped ==> {
                &&& final(self).behavior == old(self).behavior
                &&& final(self).connections@.len() == 0
                &&& r.effects@.len() == old(self).connections@.len()
                &&& forall|j: int|
                    0 <= j < r.effects@.len() ==> r.effects@[j] == (Effect::Act {
                        action: NetAction::CloseConnection {
                            peer: old(self).connections@[j].peer,
                        },
                    })
            },
            !r.stopped && old(self).event_slot is None ==> batch_outcome(
                *old(self),
                *final(self),
                inputs@,
                r.effects@,
            ),
            !r.stopped ==> (old(self).event_slot matches Some(Event::Behavior(e)) ==> {
                &&& r.effects@.len() >= 1
                &&& r.effects@[0] == (Effect::Surface { event: e })
                &&& batch_outcome(
                    spec_drained(*old(self)),
                    *final(self),
                    inputs@,
                    r.effects@.skip(1),
                )
            }),
    {
        let mut effects: Vec<Effect> = Vec::new();
        match self.event_slot.take() {
            Some(Event::Stop) => {
                // Terminal state: every connection is asked closed before
                // the loop exits.
                let ghost n = old(self).connections@.len() as int;
                let total = self.connections.len();
                proof {
                    assert(n == total);
                }
                let mut taken: usize = 0;
                while self.connections.len() > 0
                    invariant
                        n == old(self).connections@.len(),
                        n <= usize::MAX,
                        taken + self.connections@.len() == n,
                        self.connections@ == old(self).connections@.subrange(taken as int, n),
                        effects@.len() == taken,
                        forall|j: int|
                            0 <= j < taken ==> effects@[j] == (Effect::Act {
                                action: NetAction::CloseConnection {
                                    peer: old(self).connections@[j].peer,
                                },
                            }),
                        self.behavior == old(self).behavior,
                        self.event_slot is None,
                        self.local_peer@ == old(self).local_peer@,
                        self.public_key@ == old(self).public_key@,
                        self.wf(),
                    decreases self.connections@.len(),
                {
                    let c = self.connections.remove(0);
                    proof {
                        assert(c == old(self).connections@[taken as int]);
                        assert(self.connections@ =~= old(self).connections@.subrange(
                            taken as int + 1,
                            n,
                        ));
                    }
                    effects.push(Effect::Act { action: NetAction::CloseConnection { peer: c.peer } });
                    taken += 1;
                }
                return RunOutcome { effects, stopped: true };
            },
            Some(Event::Behavior(event)) => {
                effects.push(Effect::Surface { event });
            },
            None => {},
        }
        let ghost start = *self;
        let ghost head = effects@;
        let ghost all = inputs@;
        proof {
            assert(start == spec_drained(*old(self)));
            assert(batch_outcome(start, start, all.subrange(0, 0), Seq::<Effect>::empty()));
        }
        let mut remaining = inputs;
        let n_inputs = remaining.len();
        proof {
            assert(all.len() == n_inputs);
        }
        let mut done: usize = 0;
        while remaining.len() > 0
            invariant
                self.wf(),
                self.local_peer@ == old(self).local_peer@,
                self.public_key@ == old(self).public_key@,
                self.event_slot is None,
                done + remaining@.len() == all.len(),
                remaining@ == all.subrange(done as int, all.len() as int),
                effects@.len() >= head.len(),
                effects@.subrange(0, head.len() as int) == head,
                batch_outcome(start, *self, all.subrange(0, done as int), effects@.skip(
                    head.len() as int,
                )),
                all.len() <= usize::MAX,
            decreases remaining@.len(),
        {
            let item = remaining.remove(0);
            let ghost gitem = item;
            let ghost prev = *self;
            proof {
                assert(gitem == all[done as int]);
                assert(remaining@ =~= all.subrange(done as int + 1, all.len() as int));
            }
            let mut produced = match item {
                LoopInput::Command { tokens } => self.handle_command(&tokens),
                LoopInput::Swarm { input } => self.handle_swarm_event(input),
            };
            proof {
                assert(item_outcome(prev, *self, gitem, produced@));
            }
            let ghost before_append = effects@;
            let ghost gproduced = produced@;
            effects.append(&mut produced);
            proof {
                lemma_batch_outcome_snoc(
                    start,
                    prev,
                    *self,
                    all.subrange(0, done as int),
                    before_append.skip(head.len() as int),
                    gitem,
                    gproduced,
                );
                assert(all.subrange(0, done as int).push(gitem) =~= all.subrange(
                    0,
                    done as int + 1,
                ));
                assert(effects@ == before_append + gproduced);
                assert(before_append.skip(head.len() as int) + gproduced =~= effects@.skip(
                    head.len() as int,
                ));
                assert(effects@.subrange(0, head.len() as int) =~= head);
            }
            done += 1;
        }
        proof {
            assert(all.subrange(0, all.len() as int) =~= all);
            assert(effects@.skip(0) =~= effects@);
        }
        RunOutcome { effects, stopped: false }
    }
}

impl Turtle {
    /// A fresh node under an identity the caller established: every table
    /// empty and the event slot free.
    pub fn with_identity(public_key: Vec<u8>, local_peer: PeerIdentifier) -> (t: Turtle)
        ensures
            t.wf(),
            t.public_key@ == public_key@,
            t.local_peer@ == local_peer@,
            t.connections@.len() == 0,
            t.event_slot is None,
            t.behavior.mdns.entries@.len() == 0,
            t.behavior.ping.probes@.len() == 0,
            t.behavior.identify.peers@.len() == 0,
            t.behavior.kad.local@ == t.local_peer@,
            t.behavior.kad.records@.len() == 0,
            t.behavior.request_response.pending@.len() == 0,
            t.behavior.request_response.inbound@.len() == 0,
            t.behavior.request_response.next_correlation_id == 0,
            t.clock == 0,
    {
        let behavior = Behavior::new(local_peer.duplicate());
        Turtle {
            public_key,
            local_peer,
            behavior,
            connections: Vec::new(),
            event_slot: None,
            clock: 0,
        }
    }
}

impl Default for Turtle {
    /// A fresh node under a newly generated identity: every table empty, the
    /// event slot free, and the local identifier derived from the public key.
    fn default() -> (t: Turtle)
        ensures
            t.wf(),
            t.local_peer@ == crate::identity::peer_id_of(t.public_key@),
            crate::identity::key_decodes(t.public_key@),
            crate::identity::id_renders(t.local_peer@),
            t.connections@.len() == 0,
            t.event_slot is None,
            t.behavior.mdns.entries@.len() == 0,
            t.behavior.ping.probes@.len() == 0,
            t.behavior.identify.peers@.len() == 0,
            t.behavior.kad.local@ == t.local_peer@,
            t.behavior.kad.records@.len() == 0,
            t.behavior.request_response.pending@.len() == 0,
            t.behavior.request_response.inbound@.len() == 0,
            t.behavior.request_response.next_correlation_id == 0,
            t.clock == 0,
    {
        let (public_key, local_peer) = generate_local_identity();
        let behavior = Behavior::new(local_peer.duplicate());
        Turtle {
            public_key,
            local_peer,
            behavior,
            connections: Vec::new(),
            event_slot: None,
            clock: 0,
        }
    }
}

} // verus!
