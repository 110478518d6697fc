use turtle::identity::{Address, PeerIdentifier};
use turtle::msg::{Codec, CodecError, Message, MsgProto, MAX_LENGTH};
use turtle::turtle::behavior::{DISCOVERY_EXPIRY_MS, KBUCKET_CAPACITY, LIVENESS_FAILURE_LIMIT};
use turtle::turtle::event::{
    BehaviorEvent, CloseReason, Effect, Event, FailureReason, LoopInput, NetAction, SwarmInput,
};
use turtle::turtle::Turtle;

fn frame(payload: &[u8]) -> Vec<u8> {
    Codec::write_message(&Message(payload.to_vec())).expect("framing should succeed")
}

#[test]
fn protocol_name_is_fixed() {
    assert_eq!(MsgProto.protocol_name(), "/send_msg/1.0");
}

#[test]
fn write_message_prefixes_big_endian_length() {
    assert_eq!(frame(&[1, 2, 3]), vec![0, 0, 0, 3, 1, 2, 3]);
    assert_eq!(frame(&[]), vec![0, 0, 0, 0]);
}

#[test]
fn framing_round_trips_small_payloads() {
    for payload in [vec![], vec![7u8], vec![1, 2, 3, 4, 5], vec![0xff; 300]] {
        let io = frame(&payload);
        let mut pos = 0usize;
        let msg = Codec::read_message(&io, &mut pos).expect("read should succeed");
        assert_eq!(msg.0, payload);
        assert_eq!(pos, 4 + payload.len());
    }
}

#[test]
fn framing_round_trips_largest_payload() {
    let payload = vec![0xabu8; MAX_LENGTH];
    let io = frame(&payload);
    let mut pos = 0usize;
    let msg = Codec::read_message(&io, &mut pos).expect("read should succeed");
    assert_eq!(msg.0.len(), MAX_LENGTH);
    assert_eq!(pos, 4 + MAX_LENGTH);
}

#[test]
fn oversized_write_is_rejected_before_any_byte_leaves() {
    let r = Codec::write_message(&Message(vec![0u8; MAX_LENGTH + 1]));
    assert_eq!(r, Err(CodecError::OversizedMessage));
}

#[test]
fn oversized_declared_length_is_rejected_without_consuming_payload() {
    // Declares MAX_LENGTH + 1 = 0x200001 bytes.
    let mut io = vec![0x00, 0x20, 0x00, 0x01];
    io.extend_from_slice(&[9u8; 8]);
    let mut pos = 0usize;
    let r = Codec::read_message(&io, &mut pos);
    assert_eq!(r.unwrap_err(), CodecError::OversizedMessage);
    // Only the prefix was consumed; the payload bytes are still unread.
    assert_eq!(pos, 4);
}

#[test]
fn truncated_stream_is_a_transport_error() {
    let io = vec![0, 0];
    let mut pos = 0usize;
    assert_eq!(Codec::read_message(&io, &mut pos).unwrap_err(), CodecError::Transport);
    assert_eq!(pos, 0);

    let io = vec![0, 0, 0, 5, 1, 2];
    let mut pos = 0usize;
    assert_eq!(Codec::read_message(&io, &mut pos).unwrap_err(), CodecError::Transport);
    assert_eq!(pos, 0);
}

#[test]
fn two_frames_read_back_to_back() {
    let mut io = frame(b"hello");
    io.extend(frame(b"world"));
    let mut pos = 0usize;
    let first = Codec::read_message(&io, &mut pos).unwrap();
    let second = Codec::read_message(&io, &mut pos).unwrap();
    assert_eq!(first.0, b"hello");
    assert_eq!(second.0, b"world");
    assert_eq!(pos, io.len());
}

#[test]
fn request_and_response_roles_share_the_framing() {
    let mut codec = Codec;
    let request_frame = codec.write_request(&Message(b"abc".to_vec())).unwrap();
    let response_frame = codec.write_response(&Message(b"abc".to_vec())).unwrap();
    assert_eq!(request_frame, response_frame);

    let mut pos = 0usize;
    let as_request = codec.read_request(&response_frame, &mut pos).unwrap();
    assert_eq!(as_request.0, b"abc");
    let mut pos = 0usize;
    let as_response = codec.read_response(&request_frame, &mut pos).unwrap();
    assert_eq!(as_response.0, b"abc");
}

#[test]
fn identifier_derivation_is_deterministic() {
    let t = Turtle::default();
    let once = PeerIdentifier::from_public_key(&t.public_key).expect("key should decode");
    let again = PeerIdentifier::from_public_key(&t.public_key).expect("key should decode");
    assert_eq!(once.bytes, again.bytes);
    assert_eq!(once.bytes, t.local_peer.bytes);
}

#[test]
fn different_keys_give_different_identifiers() {
    let a = Turtle::default();
    let b = Turtle::default();
    assert_ne!(a.local_peer.bytes, b.local_peer.bytes);
}

#[test]
fn identifier_text_round_trips() {
    let t = Turtle::default();
    let text = t.local_peer.to_text().expect("identifier should render");
    let parsed = PeerIdentifier::from_text(&text).expect("text should parse back");
    assert_eq!(parsed.bytes, t.local_peer.bytes);
}

#[test]
fn show_peer_prints_a_stable_identifier() {
    let t = Turtle::default();
    let first = t.show_local_peer().expect("identifier should render");
    let second = t.show_local_peer().expect("identifier should render");
    assert_eq!(first, second);
}

#[test]
fn addresses_parse_and_malformed_ones_do_not() {
    assert!(Address::parse("/ip4/0.0.0.0/tcp/4001").is_some());
    assert!(Address::parse("not an address").is_none());
}

#[test]
fn listen_then_show_peer_is_deterministic() {
    let mut t = Turtle::default();
    let expected = t.show_local_peer().expect("identifier should render");
    let inputs = vec![
        LoopInput::Command {
            tokens: vec!["LISTEN".to_string(), "/ip4/0.0.0.0/tcp/4001".to_string()],
        },
        LoopInput::Command { tokens: vec!["SHOW".to_string(), "PEER".to_string()] },
        LoopInput::Command { tokens: vec!["SHOW".to_string(), "PEER".to_string()] },
    ];
    let outcome = t.run(inputs);
    assert!(!outcome.stopped);
    let printed: Vec<&String> = outcome
        .effects
        .iter()
        .filter_map(|e| match e {
            Effect::Print { line } => Some(line),
            _ => None,
        })
        .collect();
    assert_eq!(printed.len(), 2);
    assert_eq!(*printed[0], expected);
    assert_eq!(*printed[1], expected);
    assert!(outcome
        .effects
        .iter()
        .any(|e| matches!(e, Effect::Act { action: NetAction::Listen { .. } })));
}

#[test]
fn unknown_and_malformed_commands_change_nothing() {
    let mut t = Turtle::default();
    assert!(t.handle_command(&vec![]).is_empty());
    assert!(t.handle_command(&vec!["NONSENSE".to_string()]).is_empty());
    assert!(t.handle_command(&vec!["DIAL".to_string()]).is_empty());
    assert!(t
        .handle_command(&vec!["DIAL".to_string(), "not an address".to_string()])
        .is_empty());
    assert!(t.handle_command(&vec!["SHOW".to_string(), "PEERS".to_string()]).is_empty());
}

#[test]
fn dial_command_emits_one_dial_operation() {
    let mut t = Turtle::default();
    let effects = t.handle_command(&vec!["DIAL".to_string(), "/ip4/127.0.0.1/tcp/4001".to_string()]);
    assert_eq!(effects.len(), 1);
    assert!(matches!(&effects[0], Effect::Act { action: NetAction::Dial { .. } }));
}

#[test]
fn two_nodes_discover_each_other_from_announcements() {
    let mut a = Turtle::default();
    let mut b = Turtle::default();
    let addr_a = Address::parse("/ip4/192.168.0.10/tcp/4001").unwrap();
    let addr_b = Address::parse("/ip4/192.168.0.11/tcp/4001").unwrap();

    let seen_by_a = a.handle_swarm_event(SwarmInput::AnnouncementReceived {
        peer: b.local_peer.duplicate(),
        address: addr_b,
        now: 1,
    });
    let seen_by_b = b.handle_swarm_event(SwarmInput::AnnouncementReceived {
        peer: a.local_peer.duplicate(),
        address: addr_a,
        now: 1,
    });

    match &seen_by_a[0] {
        Effect::Surface { event: BehaviorEvent::DiscoveryFound { peer, .. } } => {
            assert_eq!(peer.bytes, b.local_peer.bytes);
        }
        other => panic!("expected a discovery event, got {:?}", other),
    }
    match &seen_by_b[0] {
        Effect::Surface { event: BehaviorEvent::DiscoveryFound { peer, .. } } => {
            assert_eq!(peer.bytes, a.local_peer.bytes);
        }
        other => panic!("expected a discovery event, got {:?}", other),
    }
}

#[test]
fn repeated_announcement_emits_no_second_discovery() {
    let mut t = Turtle::default();
    let peer = Turtle::default().local_peer;
    let addr = Address::parse("/ip4/10.0.0.1/tcp/4001").unwrap();
    let first = t.on_announcement(peer.duplicate(), Address { bytes: addr.bytes.clone() }, 1);
    assert_eq!(first.len(), 1);
    let second = t.on_announcement(peer, addr, 2);
    assert!(second.is_empty());
}

#[test]
fn stale_discovery_entry_is_evicted_and_needs_a_fresh_announcement() {
    let mut t = Turtle::default();
    let peer = Turtle::default().local_peer;
    let addr = Address::parse("/ip4/10.0.0.2/tcp/4001").unwrap();
    t.on_announcement(peer.duplicate(), Address { bytes: addr.bytes.clone() }, 0);
    assert_eq!(t.behavior.mdns.entries.len(), 1);

    // Within the window the entry stays.
    t.on_tick(DISCOVERY_EXPIRY_MS - 1);
    assert_eq!(t.behavior.mdns.entries.len(), 1);

    // At the window's edge it is evicted and does not reappear by itself.
    t.on_tick(DISCOVERY_EXPIRY_MS);
    assert_eq!(t.behavior.mdns.entries.len(), 0);
    t.on_tick(DISCOVERY_EXPIRY_MS + 1);
    assert_eq!(t.behavior.mdns.entries.len(), 0);

    // Only a fresh announcement brings it back, as a new discovery.
    let again = t.on_announcement(peer, addr, DISCOVERY_EXPIRY_MS + 2);
    assert_eq!(again.len(), 1);
    assert_eq!(t.behavior.mdns.entries.len(), 1);
}

#[test]
fn request_to_peer_with_no_route_fails_immediately() {
    let mut t = Turtle::default();
    let stranger = Turtle::default().local_peer;
    let effects = t.send_request(stranger, b"hello".to_vec());
    assert_eq!(effects.len(), 1);
    match &effects[0] {
        Effect::Surface {
            event: BehaviorEvent::RequestFailed { reason, .. },
        } => assert_eq!(*reason, FailureReason::NoKnownRoute),
        other => panic!("expected an immediate failure, got {:?}", other),
    }
    assert!(t.behavior.request_response.pending.is_empty());
}

#[test]
fn send_command_with_no_route_reports_a_failed_request() {
    let mut t = Turtle::default();
    let stranger = Turtle::default().local_peer.to_text().unwrap();
    let effects =
        t.handle_command(&vec!["SEND".to_string(), stranger, "hello".to_string()]);
    assert_eq!(effects.len(), 1);
    assert!(matches!(
        &effects[0],
        Effect::Surface { event: BehaviorEvent::RequestFailed { reason: FailureReason::NoKnownRoute, .. } }
    ));
}

#[test]
fn connected_send_opens_one_framed_request() {
    let mut t = Turtle::default();
    let peer = Turtle::default().local_peer;
    let addr = Address::parse("/ip4/10.0.0.3/tcp/4001").unwrap();
    t.on_connection_established(peer.duplicate(), addr, false, 1);
    let effects = t.send_request(peer, b"hi".to_vec());
    assert_eq!(effects.len(), 1);
    match &effects[0] {
        Effect::Act { action: NetAction::OpenRequest { correlation_id, frame, .. } } => {
            assert_eq!(*correlation_id, 0);
            assert_eq!(*frame, vec![0, 0, 0, 2, b'h', b'i']);
        }
        other => panic!("expected an open-request operation, got {:?}", other),
    }
    assert_eq!(t.behavior.request_response.pending.len(), 1);
}

#[test]
fn discovered_peer_is_dialed_before_the_request() {
    let mut t = Turtle::default();
    let peer = Turtle::default().local_peer;
    let addr = Address::parse("/ip4/10.0.0.4/tcp/4001").unwrap();
    t.on_announcement(peer.duplicate(), addr, 1);
    let effects = t.send_request(peer, b"hi".to_vec());
    assert_eq!(effects.len(), 2);
    assert!(matches!(&effects[0], Effect::Act { action: NetAction::Dial { .. } }));
    assert!(matches!(&effects[1], Effect::Act { action: NetAction::OpenRequest { .. } }));
    assert_eq!(t.behavior.request_response.pending.len(), 1);
}

#[test]
fn lost_connection_fails_each_pending_request_exactly_once() {
    let mut t = Turtle::default();
    let peer = Turtle::default().local_peer;
    let other = Turtle::default().local_peer;
    let addr1 = Address::parse("/ip4/10.0.0.5/tcp/4001").unwrap();
    let addr2 = Address::parse("/ip4/10.0.0.6/tcp/4001").unwrap();
    t.on_connection_established(peer.duplicate(), addr1, false, 1);
    t.on_connection_established(other.duplicate(), addr2, false, 1);
    t.send_request(peer.duplicate(), b"one".to_vec());
    t.send_request(peer.duplicate(), b"two".to_vec());
    t.send_request(other.duplicate(), b"three".to_vec());
    assert_eq!(t.behavior.request_response.pending.len(), 3);

    let effects = t.handle_swarm_event(SwarmInput::ConnectionClosed { peer: peer.duplicate() });
    assert!(matches!(
        &effects[0],
        Effect::Surface { event: BehaviorEvent::ConnectionClosed { reason: CloseReason::Remote, .. } }
    ));
    let failed: Vec<u64> = effects
        .iter()
        .filter_map(|e| match e {
            Effect::Surface {
                event: BehaviorEvent::RequestFailed { correlation_id, reason },
            } => {
                assert_eq!(*reason, FailureReason::ConnectionLost);
                Some(*correlation_id)
            }
            _ => None,
        })
        .collect();
    assert_eq!(failed, vec![0, 1]);

    // The other peer's request stays pending; nothing resolves twice.
    assert_eq!(t.behavior.request_response.pending.len(), 1);
    assert_eq!(t.behavior.request_response.pending[0].correlation_id, 2);
    let again = t.handle_swarm_event(SwarmInput::ConnectionClosed { peer });
    assert_eq!(again.len(), 1);
}

#[test]
fn failed_dial_resolves_the_requests_waiting_on_it() {
    let mut t = Turtle::default();
    let peer = Turtle::default().local_peer;
    let addr = Address::parse("/ip4/10.0.0.12/tcp/4001").unwrap();
    t.on_announcement(peer.duplicate(), addr, 1);
    let issued = t.send_request(peer.duplicate(), b"hi".to_vec());
    assert_eq!(issued.len(), 2);
    assert_eq!(t.behavior.request_response.pending.len(), 1);

    let effects = t.handle_swarm_event(SwarmInput::DialFailed { peer });
    assert_eq!(effects.len(), 1);
    assert!(matches!(
        &effects[0],
        Effect::Surface { event: BehaviorEvent::RequestFailed { correlation_id: 0, reason: FailureReason::ConnectionLost } }
    ));
    assert!(t.behavior.request_response.pending.is_empty());
}

#[test]
fn response_resolves_the_pending_request_once() {
    let mut t = Turtle::default();
    let peer = Turtle::default().local_peer;
    let addr = Address::parse("/ip4/10.0.0.7/tcp/4001").unwrap();
    t.on_connection_established(peer.duplicate(), addr, false, 1);
    t.send_request(peer.duplicate(), b"ping".to_vec());

    let effects = t.handle_swarm_event(SwarmInput::ResponseArrived {
        peer: peer.duplicate(),
        correlation_id: 0,
        message: Message(b"pong".to_vec()),
    });
    assert_eq!(effects.len(), 2);
    assert!(matches!(
        &effects[0],
        Effect::Surface { event: BehaviorEvent::MessageReceived { .. } }
    ));
    assert!(matches!(
        &effects[1],
        Effect::Surface { event: BehaviorEvent::MessageAcknowledged { correlation_id: 0, .. } }
    ));
    assert!(t.behavior.request_response.pending.is_empty());

    // A late duplicate response is discarded.
    let late = t.handle_swarm_event(SwarmInput::ResponseArrived {
        peer,
        correlation_id: 0,
        message: Message(b"pong".to_vec()),
    });
    assert!(late.is_empty());
}

#[test]
fn inbound_request_is_answered_through_its_correlation_id() {
    let mut t = Turtle::default();
    let peer = Turtle::default().local_peer;
    let effects = t.on_request(peer, Message(b"question".to_vec()));
    assert_eq!(effects.len(), 1);
    assert!(matches!(
        &effects[0],
        Effect::Surface { event: BehaviorEvent::MessageReceived { .. } }
    ));

    let answer = t.respond(0, b"answer".to_vec());
    assert_eq!(answer.len(), 1);
    match &answer[0] {
        Effect::Act { action: NetAction::SendResponse { correlation_id, frame, .. } } => {
            assert_eq!(*correlation_id, 0);
            assert_eq!(*frame, vec![0, 0, 0, 6, b'a', b'n', b's', b'w', b'e', b'r']);
        }
        other => panic!("expected a response write, got {:?}", other),
    }

    // A second response to the same request has nowhere to go.
    assert!(t.respond(0, b"again".to_vec()).is_empty());
}

#[test]
fn liveness_failures_close_the_connection_at_the_limit() {
    let mut t = Turtle::default();
    let peer = Turtle::default().local_peer;
    let addr = Address::parse("/ip4/10.0.0.8/tcp/4001").unwrap();
    t.on_connection_established(peer.duplicate(), addr, true, 1);

    for _ in 0..LIVENESS_FAILURE_LIMIT - 1 {
        let effects = t.on_probe(peer.duplicate(), None);
        assert_eq!(effects.len(), 1);
    }
    let effects = t.on_probe(peer.duplicate(), None);
    assert_eq!(effects.len(), 2);
    assert!(matches!(
        &effects[1],
        Effect::Act { action: NetAction::CloseConnection { .. } }
    ));

    // A successful round trip resets the failure count.
    let ok = t.on_probe(peer, Some(12));
    assert_eq!(ok.len(), 1);
    assert!(matches!(
        &ok[0],
        Effect::Surface { event: BehaviorEvent::LivenessResult { round_trip_ms: Some(12), .. } }
    ));
}

#[test]
fn protocol_identifiers_are_distinct() {
    assert_ne!(
        turtle::msg::MsgProto.protocol_name(),
        turtle::msg::MetaProto.protocol_name()
    );
}

#[test]
fn close_after_liveness_failures_is_reported_unhealthy() {
    let mut t = Turtle::default();
    let peer = Turtle::default().local_peer;
    let addr = Address::parse("/ip4/10.0.0.11/tcp/4001").unwrap();
    t.on_connection_established(peer.duplicate(), addr, false, 1);
    for _ in 0..LIVENESS_FAILURE_LIMIT {
        t.on_probe(peer.duplicate(), None);
    }
    let effects = t.handle_swarm_event(SwarmInput::ConnectionClosed { peer });
    assert!(matches!(
        &effects[0],
        Effect::Surface { event: BehaviorEvent::ConnectionClosed { reason: CloseReason::Unhealthy, .. } }
    ));
}

#[test]
fn send_command_over_a_connection_opens_the_request() {
    let mut t = Turtle::default();
    let other = Turtle::default();
    let addr = Address::parse("/ip4/10.0.0.13/tcp/4001").unwrap();
    t.on_connection_established(other.local_peer.duplicate(), addr, false, 1);
    let text = other.local_peer.to_text().unwrap();
    let effects = t.handle_command(&vec!["SEND".to_string(), text, "hello".to_string()]);
    assert_eq!(effects.len(), 1);
    match &effects[0] {
        Effect::Act { action: NetAction::OpenRequest { peer, frame, .. } } => {
            assert_eq!(peer.bytes, other.local_peer.bytes);
            assert_eq!(*frame, vec![0, 0, 0, 5, b'h', b'e', b'l', b'l', b'o']);
        }
        e => panic!("expected an open-request operation, got {:?}", e),
    }
    assert_eq!(t.behavior.request_response.pending.len(), 1);
}

#[test]
fn metadata_surfaces_once_per_connection() {
    let mut t = Turtle::default();
    let peer = Turtle::default().local_peer;
    let addr = Address::parse("/ip4/10.0.0.9/tcp/4001").unwrap();
    t.on_connection_established(peer.duplicate(), addr, false, 1);

    let first = t.on_metadata(peer.duplicate(), vec!["/send_msg/1.0".to_string()], vec![]);
    assert_eq!(first.len(), 1);
    assert!(matches!(
        &first[0],
        Effect::Surface { event: BehaviorEvent::MetadataReceived { .. } }
    ));
    let second = t.on_metadata(peer.duplicate(), vec!["/send_msg/1.0".to_string()], vec![]);
    assert!(second.is_empty());

    // From a peer with no tracked connection, metadata is ignored.
    let stranger = Turtle::default().local_peer;
    assert!(t.on_metadata(stranger, vec![], vec![]).is_empty());
}

#[test]
fn records_are_stored_and_found_by_key() {
    let mut t = Turtle::default();
    let origin = Turtle::default().local_peer;
    t.behavior.kad.put_record(b"key".to_vec(), b"value".to_vec(), origin.duplicate());
    let rec = t.behavior.kad.get_record(&b"key".to_vec()).expect("record should exist");
    assert_eq!(rec.value, b"value");
    assert!(t.behavior.kad.get_record(&b"other".to_vec()).is_none());

    // Same key: the stored value is replaced, not duplicated.
    t.behavior.kad.put_record(b"key".to_vec(), b"newer".to_vec(), origin);
    assert_eq!(t.behavior.kad.records.len(), 1);
    assert_eq!(t.behavior.kad.get_record(&b"key".to_vec()).unwrap().value, b"newer");
}

#[test]
fn full_bucket_replaces_the_least_recently_seen_peer() {
    let mut t = Turtle::default();
    // Synthetic identifiers whose first byte never matches the local one, so
    // they all land in the zero-distance bucket.
    for i in 1..=(KBUCKET_CAPACITY as u8 + 1) {
        let peer = PeerIdentifier { bytes: vec![i, 0xab] };
        assert_eq!(t.behavior.kad.bucket_index(&peer), 0);
        t.behavior.kad.insert_peer(peer, i as u64);
    }
    let bucket = &t.behavior.kad.buckets[0];
    assert_eq!(bucket.entries.len(), KBUCKET_CAPACITY);
    // The least-recently-seen peer made room for the newest one.
    assert!(bucket.entries.iter().all(|e| e.peer.bytes[0] != 1));
    assert!(bucket
        .entries
        .iter()
        .any(|e| e.peer.bytes[0] == KBUCKET_CAPACITY as u8 + 1));

    // Re-announcing a known peer refreshes it without growing the bucket.
    t.behavior.kad.insert_peer(PeerIdentifier { bytes: vec![2, 0xab] }, 99);
    assert_eq!(t.behavior.kad.buckets[0].entries.len(), KBUCKET_CAPACITY);
}

#[test]
fn stop_lands_only_when_the_loop_is_idle() {
    let mut t = Turtle::default();

    // Idle: the stop request lands, and the next cycle terminates at once.
    assert!(t.stop());
    // The slot is full: a second request is dropped, not queued.
    assert!(!t.stop());
    let outcome = t.run(vec![LoopInput::Command {
        tokens: vec!["SHOW".to_string(), "PEER".to_string()],
    }]);
    assert!(outcome.stopped);
    assert!(outcome.effects.is_empty());

    // Back to idle: without a new stop request the loop keeps running...
    let outcome = t.run(vec![LoopInput::Command {
        tokens: vec!["SHOW".to_string(), "PEER".to_string()],
    }]);
    assert!(!outcome.stopped);
    assert_eq!(outcome.effects.len(), 1);

    // ...and a repeated stop while idle always succeeds.
    assert!(t.stop());
    assert!(t.run(vec![]).stopped);
}

#[test]
fn termination_closes_every_connection() {
    let mut t = Turtle::default();
    let peer = Turtle::default().local_peer;
    let addr = Address::parse("/ip4/10.0.0.10/tcp/4001").unwrap();
    t.on_connection_established(peer.duplicate(), addr, false, 1);
    assert!(t.stop());
    let outcome = t.run(vec![]);
    assert!(outcome.stopped);
    assert_eq!(outcome.effects.len(), 1);
    match &outcome.effects[0] {
        Effect::Act { action: NetAction::CloseConnection { peer: p } } => {
            assert_eq!(p.bytes, peer.bytes);
        }
        other => panic!("expected a close operation, got {:?}", other),
    }
    assert!(t.connections.is_empty());
}

#[test]
fn behavior_events_in_the_slot_surface_before_termination() {
    let mut t = Turtle::default();
    let peer = Turtle::default().local_peer;
    assert!(t.send_event_not_blocking(Event::Behavior(BehaviorEvent::ConnectionEstablished {
        peer,
    })));
    let outcome = t.run(vec![]);
    assert!(!outcome.stopped);
    assert_eq!(outcome.effects.len(), 1);
    assert!(matches!(
        &outcome.effects[0],
        Effect::Surface { event: BehaviorEvent::ConnectionEstablished { .. } }
    ));
}
