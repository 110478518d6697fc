//! The composed network behavior: local discovery with stale-peer eviction,
//! liveness probing, one-shot metadata exchange, a routing table and record
//! store bucketed by identifier distance, and request/response correlation.
//! The composer owns one instance of each and forwards connection-lifecycle
//! changes to every behavior that tracks per-peer state.

use crate::identity::{Address, PeerIdentifier};
use crate::turtle::event::{BehaviorEvent, FailureReason};
use vstd::prelude::*;

verus! {

/// How long, in milliseconds, a locally-discovered peer stays in the table
/// without a fresh announcement.
pub const DISCOVERY_EXPIRY_MS: u64 = 300000;

/// How many consecutive failed liveness probes mark a connection unhealthy.
pub const LIVENESS_FAILURE_LIMIT: u64 = 3;

/// How many peers one routing-table bucket holds.
pub const KBUCKET_CAPACITY: usize = 20;

/// How many distance buckets the routing table keeps.
pub const NUM_BUCKETS: usize = 33;

/// Filtering a sequence extended by one element keeps the old filtered prefix
/// and appends the element exactly when it satisfies the predicate.
pub proof fn lemma_filter_push<A>(s: Seq<A>, pred: spec_fn(A) -> bool, x: A)
    ensures
        s.push(x).filter(pred) == if pred(x) {
            s.filter(pred).push(x)
        } else {
            s.filter(pred)
        },
{
    reveal(Seq::filter);
    assert(s.push(x).drop_last() =~= s);
    assert(s.push(x).last() == x);
}

/// Replaces the element at `i`, leaving the rest of the vector as it was.
fn vec_set<T>(v: &mut Vec<T>, i: usize, value: T)
    requires
        i < old(v)@.len(),
    ensures
        final(v)@ == old(v)@.update(i as int, value),
{
    v.remove(i);
    v.insert(i, value);
    proof {
        assert(v@ =~= old(v)@.update(i as int, value));
    }
}

/// One locally-discovered peer: where it was seen and when it last announced
/// itself.
#[derive(Debug)]
pub struct DiscoveryEntry {
    pub peer: PeerIdentifier,
    pub address: Address,
    pub last_seen: u64,
}

/// Whether an entry is still within its expiry window at time `now`.
pub open spec fn fresh_at(e: DiscoveryEntry, now: u64) -> bool {
    e.last_seen + DISCOVERY_EXPIRY_MS > now
}

/// Local-network discovery: the set of peers that announced themselves on the
/// local segment, evicted when they go stale.
#[derive(Debug)]
pub struct Mdns {
    pub entries: Vec<DiscoveryEntry>,
}

impl Mdns {
    /// No `(peer, address)` pair occurs twice.
    pub open spec fn wf(&self) -> bool {
        forall|i: int, j: int|
            0 <= i < j < self.entries@.len() ==> !(self.entries@[i].peer@ == self.entries@[j].peer@
                && self.entries@[i].address@ == self.entries@[j].address@)
    }

    /// Whether the table holds this exact `(peer, address)` pair.
    pub open spec fn has_pair(&self, peer: Seq<u8>, address: Seq<u8>) -> bool {
        exists|i: int|
            0 <= i < self.entries@.len() && self.entries@[i].peer@ == peer
                && self.entries@[i].address@ == address
    }

    /// Whether the table holds this peer under any address.
    pub open spec fn has_peer(&self, peer: Seq<u8>) -> bool {
        exists|i: int| 0 <= i < self.entries@.len() && self.entries@[i].peer@ == peer
    }

    pub fn new() -> (r: Mdns)
        ensures
            r.entries@.len() == 0,
            r.wf(),
    {
        Mdns { entries: Vec::new() }
    }

    fn find_pair(&self, peer: &PeerIdentifier, address: &Address) -> (r: Option<usize>)
        ensures
            r matches Some(i) ==> 0 <= i < self.entries@.len() && self.entries@[i as int].peer@
                == peer@ && self.entries@[i as int].address@ == address@,
            r is None ==> !self.has_pair(peer@, address@),
    {
        let mut i: usize = 0;
        while i < self.entries.len()
            invariant
                i <= self.entries@.len(),
                forall|j: int|
                    0 <= j < i ==> !(self.entries@[j].peer@ == peer@ && self.entries@[j].address@
                        == address@),
            decreases self.entries@.len() - i,
        {
            if self.entries[i].peer.same_as(peer) && crate::identity::bytes_eq(
                &self.entries[i].address.bytes,
                &address.bytes,
            ) {
                return Some(i);
            }
            i += 1;
        }
        None
    }

    /// An address this peer was last discovered under, exactly when the
    /// table lists the peer at all.
    pub fn find_peer_address(&self, peer: &PeerIdentifier) -> (r: Option<Address>)
        ensures
            r is Some <==> self.has_peer(peer@),
            r matches Some(a) ==> exists|i: int|
                0 <= i < self.entries@.len() && self.entries@[i].peer@ == peer@
                    && a@ == self.entries@[i].address@,
    {
        let mut i: usize = 0;
        while i < self.entries.len()
            invariant
                i <= self.entries@.len(),
                forall|j: int| 0 <= j < i ==> self.entries@[j].peer@ != peer@,
            decreases self.entries@.len() - i,
        {
            if self.entries[i].peer.same_as(peer) {
                return Some(Address { bytes: self.entries[i].address.bytes.clone() });
            }
            i += 1;
        }
        None
    }

    /// Records an announcement heard at time `now`. A previously-unseen
    /// `(peer, address)` pair is added and emits `DiscoveryFound`; a known
    /// pair only has its freshness renewed.
    pub fn observe_announcement(&mut self, peer: PeerIdentifier, address: Address, now: u64) -> (r:
        Option<BehaviorEvent>)
        requires
            old(self).wf(),
        ensures
            final(self).wf(),
            r is Some <==> !old(self).has_pair(peer@, address@),
            r matches Some(e) ==> (e matches BehaviorEvent::DiscoveryFound { peer: p, address: a }
                && p@ == peer@ && a@ == address@),
            !old(self).has_pair(peer@, address@) ==> final(self).entries@ == old(
                self,
            ).entries@.push((DiscoveryEntry { peer, address, last_seen: now })),
            old(self).has_pair(peer@, address@) ==> {
                &&& final(self).entries@.len() == old(self).entries@.len()
                &&& exists|k: int|
                    {
                        &&& 0 <= k < old(self).entries@.len()
                        &&& old(self).entries@[k].peer@ == peer@
                        &&& old(self).entries@[k].address@ == address@
                        &&& final(self).entries@[k].peer@ == peer@
                        &&& final(self).entries@[k].address@ == address@
                        &&& final(self).entries@[k].last_seen == now
                        &&& forall|j: int|
                            0 <= j < old(self).entries@.len() && j != k ==> final(self).entries@[j]
                                == old(self).entries@[j]
                    }
            },
            final(self).has_pair(peer@, address@),
    {
        let found = self.find_pair(&peer, &address);
        match found {
            Some(i) => {
                proof {
                    assert(old(self).has_pair(peer@, address@));
                }
                let ghost pview = peer@;
                let ghost aview = address@;
                vec_set(&mut self.entries, i, DiscoveryEntry { peer, address, last_seen: now });
                proof {
                    let k = i as int;
                    assert(0 <= k < old(self).entries@.len() && old(self).entries@[k].peer@
                        == pview && old(self).entries@[k].address@ == aview && self.entries@[k].peer@
                        == pview && self.entries@[k].address@ == aview && self.entries@[k].last_seen
                        == now && forall|j: int|
                        0 <= j < old(self).entries@.len() && j != k ==> self.entries@[j] == old(
                            self,
                        ).entries@[j]);
                    assert(self.has_pair(pview, aview));
                }
                None
            },
            None => {
                let event = BehaviorEvent::DiscoveryFound {
                    peer: peer.duplicate(),
                    address: Address { bytes: address.bytes.clone() },
                };
                let ghost pview = peer@;
                let ghost aview = address@;
                self.entries.push(DiscoveryEntry { peer, address, last_seen: now });
                proof {
                    let k = self.entries@.len() - 1;
                    assert(self.entries@[k].peer@ == pview && self.entries@[k].address@ == aview);
                    assert(self.has_pair(pview, aview));
                }
                Some(event)
            },
        }
    }

    /// Removes every entry whose expiry window has passed at time `now`.
    pub fn evict_stale(&mut self, now: u64)
        requires
            old(self).wf(),
        ensures
            final(self).wf(),
            final(self).entries@ == old(self).entries@.filter(|e: DiscoveryEntry| fresh_at(e, now)),
    {
        let ghost pred = |e: DiscoveryEntry| fresh_at(e, now);
        let ghost n = old(self).entries@.len() as int;
        let total = self.entries.len();
        proof {
            assert(n == total);
        }
        let mut kept: Vec<DiscoveryEntry> = Vec::new();
        let mut done: usize = 0;
        while self.entries.len() > 0
            invariant
                n == old(self).entries@.len(),
                n <= usize::MAX,
                done + self.entries@.len() == n,
                self.entries@ == old(self).entries@.subrange(done as int, n),
                kept@ == old(self).entries@.subrange(0, done as int).filter(pred),
                pred == (|e: DiscoveryEntry| fresh_at(e, now)),
            decreases self.entries@.len(),
        {
            let e = self.entries.remove(0);
            proof {
                assert(e == old(self).entries@[done as int]);
                assert(self.entries@ =~= old(self).entries@.subrange(done as int + 1, n));
                assert(old(self).entries@.subrange(0, done as int + 1) =~= old(
                    self,
                ).entries@.subrange(0, done as int).push(e));
                lemma_filter_push(old(self).entries@.subrange(0, done as int), pred, e);
            }
            let fresh = e.last_seen >= now || now - e.last_seen < DISCOVERY_EXPIRY_MS;
            proof {
                assert(fresh == fresh_at(e, now));
            }
            if fresh {
                kept.push(e);
            }
            done += 1;
        }
        proof {
            assert(old(self).entries@.subrange(0, n) =~= old(self).entries@);
        }
        self.entries = kept;
        proof {
            lemma_filter_distinct_by(
                old(self).entries@,
                |e: DiscoveryEntry| fresh_at(e, now),
                |e: DiscoveryEntry| (e.peer@, e.address@),
            );
        }
    }
}

/// Filtering keeps a sequence whose elements have pairwise-distinct keys that
/// way: no filter step can duplicate a key.
pub proof fn lemma_filter_distinct_by<A, K>(s: Seq<A>, pred: spec_fn(A) -> bool, key: spec_fn(
    A,
) -> K)
    requires
        forall|i: int, j: int| 0 <= i < j < s.len() ==> key(s[i]) != key(s[j]),
    ensures
        forall|i: int, j: int|
            0 <= i < j < s.filter(pred).len() ==> key(s.filter(pred)[i]) != key(s.filter(pred)[j]),
    decreases s.len(),
{
    reveal(Seq::filter);
    if s.len() > 0 {
        let rest = s.drop_last();
        lemma_filter_distinct_by(rest, pred, key);
        let f = s.filter(pred);
        let fd = rest.filter(pred);
        assert forall|i: int, j: int| 0 <= i < j < f.len() implies key(f[i]) != key(f[j]) by {
            if pred(s.last()) {
                assert(f == fd.push(s.last()));
                if j == f.len() - 1 {
                    assert(f[i] == fd[i]);
                    assert(fd.contains(fd[i]));
                    rest.lemma_filter_contains_rev(pred, fd[i]);
                    let k = rest.lemma_contains_to_index(fd[i]);
                    assert(s[k] == f[i] && s[s.len() - 1] == f[j]);
                } else {
                    assert(f[i] == fd[i] && f[j] == fd[j]);
                }
            } else {
                assert(f == fd);
            }
        }
    }
}

/// The liveness record of one established connection.
#[derive(Debug)]
pub struct LivenessState {
    pub peer: PeerIdentifier,
    pub consecutive_failures: u64,
}

/// Periodic round-trip probing of established connections: enough consecutive
/// timeouts mark a connection unhealthy and ask for its closure.
#[derive(Debug)]
pub struct Ping {
    pub probes: Vec<LivenessState>,
}

impl Ping {
    /// One record per peer, and no failure count beyond the limit.
    pub open spec fn wf(&self) -> bool {
        &&& forall|i: int, j: int|
            0 <= i < j < self.probes@.len() ==> self.probes@[i].peer@ != self.probes@[j].peer@
        &&& forall|i: int|
            0 <= i < self.probes@.len() ==> self.probes@[i].consecutive_failures
                <= LIVENESS_FAILURE_LIMIT
    }

    pub open spec fn tracks(&self, peer: Seq<u8>) -> bool {
        exists|i: int| 0 <= i < self.probes@.len() && self.probes@[i].peer@ == peer
    }

    pub fn new() -> (r: Ping)
        ensures
            r.probes@.len() == 0,
            r.wf(),
    {
        Ping { probes: Vec::new() }
    }

    fn find_peer(&self, peer: &PeerIdentifier) -> (r: Option<usize>)
        ensures
            r matches Some(i) ==> 0 <= i < self.probes@.len() && self.probes@[i as int].peer@
                == peer@,
            r is None ==> !self.tracks(peer@),
    {
        let mut i: usize = 0;
        while i < self.probes.len()
            invariant
                i <= self.probes@.len(),
                forall|j: int| 0 <= j < i ==> self.probes@[j].peer@ != peer@,
            decreases self.probes@.len() - i,
        {
            if self.probes[i].peer.same_as(peer) {
                return Some(i);
            }
            i += 1;
        }
        None
    }

    /// Records the outcome of one probe: a round trip time, or `None` for a
    /// timeout. Returns the liveness event and whether the connection just
    /// reached the failure limit and must be closed.
    pub fn record_probe(&mut self, peer: PeerIdentifier, round_trip_ms: Option<u64>) -> (r: (
        BehaviorEvent,
        bool,
    ))
        requires
            old(self).wf(),
        ensures
            final(self).wf(),
            r.0 matches BehaviorEvent::LivenessResult { peer: p, round_trip_ms: m } && p@ == peer@
                && m == round_trip_ms,
            final(self).tracks(peer@),
            exists|k: int|
                {
                    &&& 0 <= k < final(self).probes@.len()
                    &&& final(self).probes@[k].peer@ == peer@
                    &&& final(self).probes@[k].consecutive_failures == spec_next_failure_count(
                        old_failure_count(*old(self), peer@),
                        round_trip_ms is None,
                    )
                },
            r.1 == (round_trip_ms is None && old_failure_count(*old(self), peer@) + 1
                == LIVENESS_FAILURE_LIMIT),
    {
        let ghost pview = peer@;
        let found = self.find_peer(&peer);
        let failed = round_trip_ms.is_none();
        let event = BehaviorEvent::LivenessResult { peer: peer.duplicate(), round_trip_ms };
        match found {
            Some(i) => {
                let old_count = self.probes[i].consecutive_failures;
                proof {
                    assert(old_failure_count(*old(self), pview) == old_count) by {
                        assert(old(self).probes@[i as int].peer@ == pview);
                    }
                }
                let new_count = if failed {
                    if old_count < LIVENESS_FAILURE_LIMIT {
                        old_count + 1
                    } else {
                        old_count
                    }
                } else {
                    0
                };
                vec_set(
                    &mut self.probes,
                    i,
                    LivenessState { peer, consecutive_failures: new_count },
                );
                proof {
                    let k = i as int;
                    assert(self.probes@[k].peer@ == pview && self.probes@[k].consecutive_failures
                        == new_count);
                    assert(self.tracks(pview));
                }
                (event, failed && old_count + 1 == LIVENESS_FAILURE_LIMIT)
            },
            None => {
                let new_count: u64 = if failed {
                    1
                } else {
                    0
                };
                proof {
                    assert(old_failure_count(*old(self), pview) == 0);
                }
                self.probes.push(LivenessState { peer, consecutive_failures: new_count });
                proof {
                    let k = self.probes@.len() - 1;
                    assert(self.probes@[k].peer@ == pview && self.probes@[k].consecutive_failures
                        == new_count);
                    assert(self.tracks(pview));
                }
                (event, failed && 1 == LIVENESS_FAILURE_LIMIT)
            },
        }
    }

    /// The failure count currently held for a peer, zero when untracked.
    pub fn failures_of(&self, peer: &PeerIdentifier) -> (r: u64)
        requires
            self.wf(),
        ensures
            r == old_failure_count(*self, peer@),
    {
        let mut i: usize = 0;
        while i < self.probes.len()
            invariant
                self.wf(),
                i <= self.probes@.len(),
                forall|j: int| 0 <= j < i ==> self.probes@[j].peer@ != peer@,
            decreases self.probes@.len() - i,
        {
            if self.probes[i].peer.same_as(peer) {
                proof {
                    assert(self.probes@[i as int].peer@ == peer@);
                    let k = choose|k: int|
                        0 <= k < self.probes@.len() && self.probes@[k].peer@ == peer@;
                    if k != i as int {
                        assert(self.probes@[k].peer@ != self.probes@[i as int].peer@);
                    }
                }
                return self.probes[i].consecutive_failures;
            }
            i += 1;
        }
        proof {
            assert(!exists|k: int|
                0 <= k < self.probes@.len() && self.probes@[k].peer@ == peer@);
        }
        0
    }

    /// Forgets a peer whose connection is gone.
    pub fn remove_peer(&mut self, peer: &PeerIdentifier)
        requires
            old(self).wf(),
        ensures
            final(self).wf(),
            final(self).probes@ == old(self).probes@.filter(
                |s: LivenessState| s.peer@ != peer@,
            ),
    {
        let ghost pred = |s: LivenessState| s.peer@ != peer@;
        let ghost n = old(self).probes@.len() as int;
        let total = self.probes.len();
        proof {
            assert(n == total);
        }
        let mut kept: Vec<LivenessState> = Vec::new();
        let mut done: usize = 0;
        while self.probes.len() > 0
            invariant
                n == old(self).probes@.len(),
                n <= usize::MAX,
                done + self.probes@.len() == n,
                self.probes@ == old(self).probes@.subrange(done as int, n),
                kept@ == old(self).probes@.subrange(0, done as int).filter(pred),
                pred == (|s: LivenessState| s.peer@ != peer@),
            decreases self.probes@.len(),
        {
            let e = self.probes.remove(0);
            proof {
                assert(e == old(self).probes@[done as int]);
                assert(self.probes@ =~= old(self).probes@.subrange(done as int + 1, n));
                assert(old(self).probes@.subrange(0, done as int + 1) =~= old(
                    self,
                ).probes@.subrange(0, done as int).push(e));
                lemma_filter_push(old(self).probes@.subrange(0, done as int), pred, e);
            }
            if !e.peer.same_as(peer) {
                kept.push(e);
            }
            done += 1;
        }
        proof {
            assert(old(self).probes@.subrange(0, n) =~= old(self).probes@);
        }
        self.probes = kept;
        proof {
            lemma_filter_distinct_by(old(self).probes@, pred, |s: LivenessState| s.peer@);
            let f = old(self).probes@.filter(pred);
            assert forall|i: int| 0 <= i < f.len() implies f[i].consecutive_failures
                <= LIVENESS_FAILURE_LIMIT by {
                assert(f.contains(f[i]));
                old(self).probes@.lemma_filter_contains_rev(pred, f[i]);
                let k = old(self).probes@.lemma_contains_to_index(f[i]);
                assert(old(self).probes@[k].consecutive_failures <= LIVENESS_FAILURE_LIMIT);
            }
        }
    }
}

/// The failure count a liveness table holds for `peer`, zero if untracked.
pub open spec fn old_failure_count(p: Ping, peer: Seq<u8>) -> u64 {
    if exists|i: int| 0 <= i < p.probes@.len() && p.probes@[i].peer@ == peer {
        p.probes@[choose|i: int| 0 <= i < p.probes@.len() && p.probes@[i].peer@ == peer].consecutive_failures
    } else {
        0
    }
}

/// The failure count after one probe: reset on success, one more on a
/// timeout, capped at the limit.
pub open spec fn spec_next_failure_count(count: u64, failed: bool) -> u64 {
    if !failed {
        0
    } else if count < LIVENESS_FAILURE_LIMIT {
        (count + 1) as u64
    } else {
        count
    }
}

/// The metadata-exchange state of one connection: each direction happens
/// exactly once.
#[derive(Debug)]
pub struct MetaState {
    pub peer: PeerIdentifier,
    pub sent: bool,
    pub received: bool,
}

/// One-shot self-description exchange per new connection.
#[derive(Debug)]
pub struct Identify {
    pub peers: Vec<MetaState>,
}

impl Identify {
    pub open spec fn wf(&self) -> bool {
        forall|i: int, j: int|
            0 <= i < j < self.peers@.len() ==> self.peers@[i].peer@ != self.peers@[j].peer@
    }

    pub open spec fn tracks(&self, peer: Seq<u8>) -> bool {
        exists|i: int| 0 <= i < self.peers@.len() && self.peers@[i].peer@ == peer
    }

    pub fn new() -> (r: Identify)
        ensures
            r.peers@.len() == 0,
            r.wf(),
    {
        Identify { peers: Vec::new() }
    }

    fn find_peer(&self, peer: &PeerIdentifier) -> (r: Option<usize>)
        ensures
            r matches Some(i) ==> 0 <= i < self.peers@.len() && self.peers@[i as int].peer@
                == peer@,
            r is None ==> !self.tracks(peer@),
    {
        let mut i: usize = 0;
        while i < self.peers.len()
            invariant
                i <= self.peers@.len(),
                forall|j: int| 0 <= j < i ==> self.peers@[j].peer@ != peer@,
            decreases self.peers@.len() - i,
        {
            if self.peers[i].peer.same_as(peer) {
                return Some(i);
            }
            i += 1;
        }
        None
    }

    /// Notes a new connection. Returns whether the node's own metadata must
    /// be sent now: true exactly on the first sight of the peer.
    pub fn on_connection_established(&mut self, peer: PeerIdentifier) -> (send_now: bool)
        requires
            old(self).wf(),
        ensures
            final(self).wf(),
            send_now == !old(self).tracks(peer@),
            !old(self).tracks(peer@) ==> final(self).peers@ == old(self).peers@.push(
                (MetaState { peer, sent: true, received: false }),
            ),
            old(self).tracks(peer@) ==> final(self).peers@ == old(self).peers@,
            final(self).tracks(peer@),
    {
        let ghost pview = peer@;
        let found = self.find_peer(&peer);
        match found {
            Some(i) => {
                proof {
                    assert(old(self).peers@[i as int].peer@ == pview);
                    assert(self.tracks(pview));
                }
                false
            },
            None => {
                self.peers.push(MetaState { peer, sent: true, received: false });
                proof {
                    let k = self.peers@.len() - 1;
                    assert(self.peers@[k].peer@ == pview);
                    assert(self.tracks(pview));
                }
                true
            },
        }
    }

    /// Records the peer's self-description. The first receipt on a tracked
    /// connection emits `MetadataReceived`; a repeat changes nothing, and an
    /// untracked peer's description is ignored.
    pub fn record_received(
        &mut self,
        peer: PeerIdentifier,
        protocols: Vec<String>,
        addresses: Vec<Address>,
    ) -> (r: Option<BehaviorEvent>)
        requires
            old(self).wf(),
        ensures
            final(self).wf(),
            r is Some <==> exists|k: int|
                0 <= k < old(self).peers@.len() && old(self).peers@[k].peer@ == peer@ && !old(
                    self,
                ).peers@[k].received,
            r matches Some(e) ==> (e matches BehaviorEvent::MetadataReceived {
                peer: p,
                protocols: pr,
                addresses: ad,
            } && p@ == peer@ && pr == protocols && ad == addresses),
            r is None ==> final(self).peers@ == old(self).peers@,
            r is Some ==> exists|k: int|
                {
                    &&& 0 <= k < old(self).peers@.len()
                    &&& old(self).peers@[k].peer@ == peer@
                    &&& final(self).peers@ == old(self).peers@.update(
                        k,
                        (MetaState {
                            peer: final(self).peers@[k].peer,
                            sent: old(self).peers@[k].sent,
                            received: true,
                        }),
                    )
                },
    {
        let ghost pview = peer@;
        let found = self.find_peer(&peer);
        match found {
            Some(i) => {
                if self.peers[i].received {
                    proof {
                        assert(forall|k: int|
                            0 <= k < self.peers@.len() && self.peers@[k].peer@ == pview ==> k
                                == i as int);
                    }
                    None
                } else {
                    let sent = self.peers[i].sent;
                    let event = BehaviorEvent::MetadataReceived {
                        peer: peer.duplicate(),
                        protocols,
                        addresses,
                    };
                    vec_set(&mut self.peers, i, MetaState { peer, sent, received: true });
                    proof {
                        let k = i as int;
                        assert(0 <= k < old(self).peers@.len() && old(self).peers@[k].peer@
                            == pview && !old(self).peers@[k].received);
                        assert(self.peers@ =~= old(self).peers@.update(
                            k,
                            (MetaState {
                                peer: self.peers@[k].peer,
                                sent: old(self).peers@[k].sent,
                                received: true,
                            }),
                        ));
                    }
                    Some(event)
                }
            },
            None => {
                None
            },
        }
    }

    /// Forgets a peer whose connection is gone.
    pub fn remove_peer(&mut self, peer: &PeerIdentifier)
        requires
            old(self).wf(),
        ensures
            final(self).wf(),
            final(self).peers@ == old(self).peers@.filter(|s: MetaState| s.peer@ != peer@),
    {
        let ghost pred = |s: MetaState| s.peer@ != peer@;
        let ghost n = old(self).peers@.len() as int;
        let total = self.peers.len();
        proof {
            assert(n == total);
        }
        let mut kept: Vec<MetaState> = Vec::new();
        let mut done: usize = 0;
        while self.peers.len() > 0
            invariant
                n == old(self).peers@.len(),
                n <= usize::MAX,
                done + self.peers@.len() == n,
                self.peers@ == old(self).peers@.subrange(done as int, n),
                kept@ == old(self).peers@.subrange(0, done as int).filter(pred),
                pred == (|s: MetaState| s.peer@ != peer@),
            decreases self.peers@.len(),
        {
            let e = self.peers.remove(0);
            proof {
                assert(e == old(self).peers@[done as int]);
                assert(self.peers@ =~= old(self).peers@.subrange(done as int + 1, n));
                assert(old(self).peers@.subrange(0, done as int + 1) =~= old(
                    self,
                ).peers@.subrange(0, done as int).push(e));
                lemma_filter_push(old(self).peers@.subrange(0, done as int), pred, e);
            }
            if !e.peer.same_as(peer) {
                kept.push(e);
            }
            done += 1;
        }
        proof {
            assert(old(self).peers@.subrange(0, n) =~= old(self).peers@);
        }
        self.peers = kept;
        proof {
            lemma_filter_distinct_by(old(self).peers@, pred, |s: MetaState| s.peer@);
        }
    }
}

/// One known peer in a routing-table bucket, with when it was last seen.
#[derive(Debug)]
pub struct KadEntry {
    pub peer: PeerIdentifier,
    pub last_seen: u64,
}

/// One bucket: the peers at one identifier-distance range from the local
/// node.
#[derive(Debug)]
pub struct Bucket {
    pub entries: Vec<KadEntry>,
}

/// One stored record of the distributed hash table, keyed by content address.
#[derive(Debug)]
pub struct DhtRecord {
    pub key: Vec<u8>,
    pub value: Vec<u8>,
    pub origin: PeerIdentifier,
}

/// How many leading identifier bytes `a` and `b` share, counted from byte
/// `i` on and capped at `NUM_BUCKETS - 1`: the bucket a peer falls in.
pub open spec fn spec_match_len(a: Seq<u8>, b: Seq<u8>, i: int) -> int
    decreases NUM_BUCKETS - 1 - i,
    when 0 <= i <= NUM_BUCKETS - 1
{
    if i >= NUM_BUCKETS - 1 {
        NUM_BUCKETS - 1
    } else if i >= a.len() || i >= b.len() || a[i] != b[i] {
        i
    } else {
        spec_match_len(a, b, i + 1)
    }
}

/// The wide-area routing table and record store: peers bucketed by
/// identifier distance to the local node, records keyed by content address.
#[derive(Debug)]
pub struct Kad {
    pub local: PeerIdentifier,
    pub buckets: Vec<Bucket>,
    pub records: Vec<DhtRecord>,
}

impl Kad {
    /// Every bucket within capacity and free of duplicate peers, each peer in
    /// the bucket its distance selects, and record keys unique.
    pub open spec fn wf(&self) -> bool {
        &&& self.buckets@.len() == NUM_BUCKETS
        &&& forall|b: int, i: int, j: int|
            0 <= b < self.buckets@.len() && 0 <= i < j < self.buckets@[b].entries@.len()
                ==> self.buckets@[b].entries@[i].peer@ != self.buckets@[b].entries@[j].peer@
        &&& forall|b: int|
            0 <= b < self.buckets@.len() ==> self.buckets@[b].entries@.len() <= KBUCKET_CAPACITY
        &&& forall|b: int, i: int|
            0 <= b < self.buckets@.len() && 0 <= i < self.buckets@[b].entries@.len()
                ==> spec_match_len(self.local@, self.buckets@[b].entries@[i].peer@, 0) == b
        &&& forall|i: int, j: int|
            0 <= i < j < self.records@.len() ==> self.records@[i].key@ != self.records@[j].key@
    }

    /// Whether some bucket knows this peer.
    pub open spec fn knows_peer(&self, peer: Seq<u8>) -> bool {
        exists|b: int, i: int|
            0 <= b < self.buckets@.len() && 0 <= i < self.buckets@[b].entries@.len()
                && self.buckets@[b].entries@[i].peer@ == peer
    }

    /// Whether a record under this key is stored.
    pub open spec fn has_record(&self, key: Seq<u8>) -> bool {
        exists|i: int| 0 <= i < self.records@.len() && self.records@[i].key@ == key
    }

    pub fn new(local: PeerIdentifier) -> (r: Kad)
        ensures
            r.wf(),
            r.local@ == local@,
            r.records@.len() == 0,
            forall|b: int| 0 <= b < r.buckets@.len() ==> r.buckets@[b].entries@.len() == 0,
    {
        let mut buckets: Vec<Bucket> = Vec::new();
        while buckets.len() < NUM_BUCKETS
            invariant
                buckets@.len() <= NUM_BUCKETS,
                forall|b: int| 0 <= b < buckets@.len() ==> buckets@[b].entries@.len() == 0,
            decreases NUM_BUCKETS - buckets@.len(),
        {
            buckets.push(Bucket { entries: Vec::new() });
        }
        Kad { local, buckets, records: Vec::new() }
    }

    /// The bucket index of `peer`: the shared identifier prefix with the
    /// local node, capped at the last bucket.
    pub fn bucket_index(&self, peer: &PeerIdentifier) -> (r: usize)
        ensures
            r == spec_match_len(self.local@, peer@, 0),
            r < NUM_BUCKETS,
    {
        let a = &self.local.bytes;
        let b = &peer.bytes;
        let mut i: usize = 0;
        while i < NUM_BUCKETS - 1 && i < a.len() && i < b.len() && a[i] == b[i]
            invariant
                0 <= i <= NUM_BUCKETS - 1,
                spec_match_len(a@, b@, 0) == spec_match_len(a@, b@, i as int),
            decreases NUM_BUCKETS - 1 - i,
        {
            proof {
                assert(spec_match_len(a@, b@, i as int) == spec_match_len(a@, b@, i as int + 1));
            }
            i += 1;
        }
        proof {
            assert(spec_match_len(a@, b@, i as int) == i as int);
        }
        i
    }

    /// Inserts or refreshes a newly learned peer at time `now`. In a full
    /// bucket the least-recently-seen entry makes room.
    pub fn insert_peer(&mut self, peer: PeerIdentifier, now: u64)
        requires
            old(self).wf(),
        ensures
            final(self).wf(),
            final(self).knows_peer(peer@),
            final(self).local@ == old(self).local@,
            final(self).records@ == old(self).records@,
            forall|b: int|
                0 <= b < old(self).buckets@.len() && b != spec_match_len(
                    old(self).local@,
                    peer@,
                    0,
                ) ==> final(self).buckets@[b] == old(self).buckets@[b],
            ({
                let bucket = old(self).buckets@[spec_match_len(old(self).local@, peer@, 0)].entries@;
                let after = final(self).buckets@[spec_match_len(old(self).local@, peer@, 0)].entries@;
                let known = exists|k: int| 0 <= k < bucket.len() && bucket[k].peer@ == peer@;
                &&& known ==> exists|k: int|
                    0 <= k < bucket.len() && bucket[k].peer@ == peer@ && after == bucket.update(
                        k,
                        (KadEntry { peer, last_seen: now }),
                    )
                &&& !known && bucket.len() < KBUCKET_CAPACITY ==> after == bucket.push(
                    (KadEntry { peer, last_seen: now }),
                )
                &&& !known && bucket.len() >= KBUCKET_CAPACITY ==> exists|m: int|
                    {
                        &&& 0 <= m < bucket.len()
                        &&& (forall|t: int|
                            0 <= t < bucket.len() ==> bucket[m].last_seen <= bucket[t].last_seen)
                        &&& after == bucket.update(m, (KadEntry { peer, last_seen: now }))
                    }
            }),
    {
        let ghost pview = peer@;
        let b = self.bucket_index(&peer);
        let mut bucket = self.buckets.remove(b);
        let ghost bview = old(self).buckets@[b as int];
        let mut found: Option<usize> = None;
        let mut i: usize = 0;
        while i < bucket.entries.len() && found.is_none()
            invariant
                pview == peer@,
                i <= bucket.entries@.len(),
                bucket == bview,
                found matches Some(k) ==> 0 <= k < bucket.entries@.len()
                    && bucket.entries@[k as int].peer@ == pview,
                found is None ==> forall|j: int|
                    0 <= j < i ==> bucket.entries@[j].peer@ != pview,
            decreases bucket.entries@.len() - i, (if found is None { 1int } else { 0int }),
        {
            if bucket.entries[i].peer.same_as(&peer) {
                found = Some(i);
            } else {
                i += 1;
            }
        }
        let ghost mut wit: int = 0;
        match found {
            Some(k) => {
                vec_set(&mut bucket.entries, k, KadEntry { peer, last_seen: now });
                proof {
                    wit = k as int;
                    assert(bucket.entries@[wit].peer@ == pview);
                }
            },
            None => {
                if bucket.entries.len() < KBUCKET_CAPACITY {
                    bucket.entries.push(KadEntry { peer, last_seen: now });
                    proof {
                        wit = bucket.entries@.len() - 1;
                        assert(bucket.entries@[wit].peer@ == pview);
                    }
                } else {
                    let mut victim: usize = 0;
                    let mut j: usize = 1;
                    while j < bucket.entries.len()
                        invariant
                            bucket.entries@.len() > 0,
                            0 <= victim < bucket.entries@.len(),
                            j <= bucket.entries@.len(),
                            forall|t: int|
                                0 <= t < j ==> bucket.entries@[victim as int].last_seen
                                    <= bucket.entries@[t].last_seen,
                        decreases bucket.entries@.len() - j,
                    {
                        if bucket.entries[j].last_seen < bucket.entries[victim].last_seen {
                            victim = j;
                        }
                        j += 1;
                    }
                    vec_set(&mut bucket.entries, victim, KadEntry { peer, last_seen: now });
                    proof {
                        wit = victim as int;
                        assert(bucket.entries@[wit].peer@ == pview);
                    }
                }
            },
        }
        proof {
            assert(0 <= wit < bucket.entries@.len() && bucket.entries@[wit].peer@ == pview);
        }
        self.buckets.insert(b, bucket);
        proof {
            assert(self.buckets@ =~= old(self).buckets@.update(b as int, bucket));
            assert(self.buckets@[b as int] == bucket);
            assert(self.buckets@[b as int].entries@[wit].peer@ == pview);
            assert(self.knows_peer(pview));
        }
    }

    /// Stores a record, replacing any record under the same key.
    pub fn put_record(&mut self, key: Vec<u8>, value: Vec<u8>, origin: PeerIdentifier)
        requires
            old(self).wf(),
        ensures
            final(self).wf(),
            final(self).has_record(key@),
            final(self).local@ == old(self).local@,
            final(self).buckets@ == old(self).buckets@,
            !old(self).has_record(key@) ==> final(self).records@ == old(self).records@.push(
                (DhtRecord { key, value, origin }),
            ),
            old(self).has_record(key@) ==> {
                &&& final(self).records@.len() == old(self).records@.len()
                &&& forall|j: int|
                    0 <= j < old(self).records@.len() && (#[trigger] old(self).records@[j]).key@
                        != key@ ==> final(self).records@[j] == old(self).records@[j]
                &&& forall|j: int|
                    0 <= j < old(self).records@.len() && (#[trigger] old(self).records@[j]).key@
                        == key@ ==> final(self).records@[j].key@ == key@
                        && final(self).records@[j].value@ == value@
                        && final(self).records@[j].origin@ == origin@
            },
    {
        let mut i: usize = 0;
        let mut found: Option<usize> = None;
        while i < self.records.len() && found.is_none()
            invariant
                i <= self.records@.len(),
                self.records@ == old(self).records@,
                found matches Some(k) ==> 0 <= k < self.records@.len()
                    && self.records@[k as int].key@ == key@,
                found is None ==> forall|j: int| 0 <= j < i ==> self.records@[j].key@ != key@,
            decreases self.records@.len() - i, (if found is None { 1int } else { 0int }),
        {
            if crate::identity::bytes_eq(&self.records[i].key, &key) {
                found = Some(i);
            } else {
                i += 1;
            }
        }
        proof {
            assert(found is None ==> !old(self).has_record(key@));
        }
        let ghost kview = key@;
        match found {
            Some(k) => {
                proof {
                    assert(old(self).has_record(kview));
                }
                vec_set(&mut self.records, k, DhtRecord { key, value, origin });
                proof {
                    let kk = k as int;
                    assert(0 <= kk < old(self).records@.len() && old(self).records@[kk].key@
                        == kview && self.records@[kk].key@ == kview && self.records@[kk].value@
                        == value@ && self.records@[kk].origin@ == origin@ && forall|j: int|
                        0 <= j < old(self).records@.len() && j != kk ==> self.records@[j] == old(
                            self,
                        ).records@[j]);
                    assert(self.has_record(kview));
                    assert forall|j: int|
                        0 <= j < old(self).records@.len() && (#[trigger] old(
                            self,
                        ).records@[j]).key@ == kview implies j == kk by {
                        if j != kk {
                            assert(old(self).records@[j].key@ != old(self).records@[kk].key@);
                        }
                    }
                    assert forall|i2: int, j2: int|
                        0 <= i2 < j2 < self.records@.len() implies self.records@[i2].key@
                        != self.records@[j2].key@ by {
                        assert(old(self).records@[i2].key@ != old(self).records@[j2].key@);
                    }
                }
            },
            None => {
                self.records.push(DhtRecord { key, value, origin });
                proof {
                    let k = self.records@.len() - 1;
                    assert(self.records@[k].key@ == kview);
                    assert(self.has_record(kview));
                }
            },
        }
    }

    /// Looks a record up by key: a reference to it exactly when one is
    /// stored.
    pub fn get_record(&self, key: &Vec<u8>) -> (r: Option<&DhtRecord>)
        ensures
            r is Some <==> self.has_record(key@),
            r matches Some(rec) ==> rec.key@ == key@ && self.records@.contains(*rec),
    {
        let mut i: usize = 0;
        while i < self.records.len()
            invariant
                i <= self.records@.len(),
                forall|j: int| 0 <= j < i ==> self.records@[j].key@ != key@,
            decreases self.records@.len() - i,
        {
            if crate::identity::bytes_eq(&self.records[i].key, key) {
                proof {
                    assert(self.records@.contains(self.records@[i as int]));
                }
                return Some(&self.records[i]);
            }
            i += 1;
        }
        None
    }
}

/// An outbound request still waiting for its response.
#[derive(Debug)]
pub struct PendingRequest {
    pub correlation_id: u64,
    pub target_peer: PeerIdentifier,
    pub issued_at: u64,
}

/// An inbound request whose response has not been sent yet.
#[derive(Debug)]
pub struct InboundRequest {
    pub correlation_id: u64,
    pub peer: PeerIdentifier,
}

/// Request/response correlation: outbound requests recorded until their
/// response arrives or their connection dies, inbound requests recorded until
/// they are answered.
#[derive(Debug)]
pub struct RequestResponse {
    pub next_correlation_id: u64,
    pub pending: Vec<PendingRequest>,
    pub inbound: Vec<InboundRequest>,
}

/// The failure event that resolves one lost pending request.
pub open spec fn loss_event_of(r: PendingRequest) -> BehaviorEvent {
    BehaviorEvent::RequestFailed {
        correlation_id: r.correlation_id,
        reason: FailureReason::ConnectionLost,
    }
}

impl RequestResponse {
    /// Correlation identifiers are never repeated: all recorded ones are
    /// below the next free one, and pairwise distinct.
    pub open spec fn wf(&self) -> bool {
        &&& forall|i: int|
            0 <= i < self.pending@.len() ==> (#[trigger] self.pending@[i]).correlation_id
                < self.next_correlation_id
        &&& forall|i: int, j: int|
            0 <= i < j < self.pending@.len() ==> self.pending@[i].correlation_id
                != self.pending@[j].correlation_id
        &&& forall|i: int|
            0 <= i < self.inbound@.len() ==> (#[trigger] self.inbound@[i]).correlation_id
                < self.next_correlation_id
        &&& forall|i: int, j: int|
            0 <= i < j < self.inbound@.len() ==> self.inbound@[i].correlation_id
                != self.inbound@[j].correlation_id
    }

    /// Whether an outbound request with this correlation id is pending.
    pub open spec fn has_pending(&self, correlation_id: u64) -> bool {
        exists|i: int|
            0 <= i < self.pending@.len() && self.pending@[i].correlation_id == correlation_id
    }

    pub fn new() -> (r: RequestResponse)
        ensures
            r.pending@.len() == 0,
            r.inbound@.len() == 0,
            r.next_correlation_id == 0,
            r.wf(),
    {
        RequestResponse { next_correlation_id: 0, pending: Vec::new(), inbound: Vec::new() }
    }

    /// Records a freshly issued outbound request and assigns it the next
    /// correlation identifier.
    pub fn record_outbound(&mut self, peer: PeerIdentifier, now: u64) -> (corr: u64)
        requires
            old(self).wf(),
            old(self).next_correlation_id < u64::MAX,
        ensures
            final(self).wf(),
            corr == old(self).next_correlation_id,
            final(self).next_correlation_id == old(self).next_correlation_id + 1,
            final(self).pending@ == old(self).pending@.push(
                (PendingRequest { correlation_id: corr, target_peer: peer, issued_at: now }),
            ),
            final(self).inbound@ == old(self).inbound@,
    {
        let corr = self.next_correlation_id;
        self.next_correlation_id = corr + 1;
        self.pending.push(PendingRequest { correlation_id: corr, target_peer: peer, issued_at: now });
        corr
    }

    /// Records an arrived inbound request and assigns it the next correlation
    /// identifier, under which its response will be routed back.
    pub fn record_inbound(&mut self, peer: PeerIdentifier) -> (corr: u64)
        requires
            old(self).wf(),
            old(self).next_correlation_id < u64::MAX,
        ensures
            final(self).wf(),
            corr == old(self).next_correlation_id,
            final(self).next_correlation_id == old(self).next_correlation_id + 1,
            final(self).inbound@ == old(self).inbound@.push(
                (InboundRequest { correlation_id: corr, peer }),
            ),
            final(self).pending@ == old(self).pending@,
    {
        let corr = self.next_correlation_id;
        self.next_correlation_id = corr + 1;
        self.inbound.push(InboundRequest { correlation_id: corr, peer });
        corr
    }

    /// Takes the inbound request a response is being issued for: its peer,
    /// exactly when the correlation id is recorded.
    pub fn take_inbound(&mut self, correlation_id: u64) -> (r: Option<PeerIdentifier>)
        requires
            old(self).wf(),
        ensures
            final(self).wf(),
            final(self).next_correlation_id == old(self).next_correlation_id,
            final(self).pending@ == old(self).pending@,
            r is Some <==> exists|i: int|
                0 <= i < old(self).inbound@.len() && (#[trigger] old(
                    self,
                ).inbound@[i]).correlation_id == correlation_id,
            r matches Some(p) ==> exists|i: int|
                {
                    &&& 0 <= i < old(self).inbound@.len()
                    &&& old(self).inbound@[i].correlation_id == correlation_id
                    &&& p@ == old(self).inbound@[i].peer@
                    &&& final(self).inbound@ == old(self).inbound@.remove(i)
                },
            r is None ==> final(self).inbound@ == old(self).inbound@,
    {
        let mut i: usize = 0;
        let mut found: Option<usize> = None;
        while i < self.inbound.len() && found.is_none()
            invariant
                i <= self.inbound@.len(),
                self.inbound@ == old(self).inbound@,
                found matches Some(k) ==> 0 <= k < self.inbound@.len()
                    && self.inbound@[k as int].correlation_id == correlation_id,
                found is None ==> forall|j: int|
                    0 <= j < i ==> self.inbound@[j].correlation_id != correlation_id,
            decreases self.inbound@.len() - i, (if found is None {
                1int
            } else {
                0int
            }),
        {
            if self.inbound[i].correlation_id == correlation_id {
                found = Some(i);
            } else {
                i += 1;
            }
        }
        match found {
            Some(k) => {
                let entry = self.inbound.remove(k);
                proof {
                    let kk = k as int;
                    assert(0 <= kk < old(self).inbound@.len() && old(
                        self,
                    ).inbound@[kk].correlation_id == correlation_id && entry.peer@ == old(
                        self,
                    ).inbound@[kk].peer@ && self.inbound@ == old(self).inbound@.remove(kk));
                }
                Some(entry.peer)
            },
            None => None,
        }
    }

    /// Resolves the pending request a response arrived for: true exactly when
    /// the correlation id was pending, in which case that entry alone leaves.
    pub fn resolve_response(&mut self, correlation_id: u64) -> (found: bool)
        requires
            old(self).wf(),
        ensures
            final(self).wf(),
            final(self).next_correlation_id == old(self).next_correlation_id,
            final(self).inbound@ == old(self).inbound@,
            found == old(self).has_pending(correlation_id),
            found ==> exists|i: int|
                {
                    &&& 0 <= i < old(self).pending@.len()
                    &&& old(self).pending@[i].correlation_id == correlation_id
                    &&& final(self).pending@ == old(self).pending@.remove(i)
                },
            !found ==> final(self).pending@ == old(self).pending@,
    {
        let mut i: usize = 0;
        let mut found: Option<usize> = None;
        while i < self.pending.len() && found.is_none()
            invariant
                i <= self.pending@.len(),
                self.pending@ == old(self).pending@,
                found matches Some(k) ==> 0 <= k < self.pending@.len()
                    && self.pending@[k as int].correlation_id == correlation_id,
                found is None ==> forall|j: int|
                    0 <= j < i ==> self.pending@[j].correlation_id != correlation_id,
            decreases self.pending@.len() - i, (if found is None {
                1int
            } else {
                0int
            }),
        {
            if self.pending[i].correlation_id == correlation_id {
                found = Some(i);
            } else {
                i += 1;
            }
        }
        match found {
            Some(k) => {
                self.pending.remove(k);
                proof {
                    let kk = k as int;
                    assert(0 <= kk < old(self).pending@.len() && old(
                        self,
                    ).pending@[kk].correlation_id == correlation_id && self.pending@ == old(
                        self,
                    ).pending@.remove(kk));
                    assert(old(self).has_pending(correlation_id));
                }
                true
            },
            None => {
                false
            },
        }
    }

    /// Resolves every request pending toward a destroyed connection's peer as
    /// `RequestFailed(ConnectionLost)`: one failure event per entry, in
    /// order, and none of them stays pending. Inbound requests from that
    /// peer are dropped: their stream is gone.
    pub fn on_connection_closed(&mut self, peer: &PeerIdentifier) -> (r: Vec<BehaviorEvent>)
        requires
            old(self).wf(),
        ensures
            final(self).wf(),
            final(self).next_correlation_id == old(self).next_correlation_id,
            final(self).pending@ == old(self).pending@.filter(
                |p: PendingRequest| p.target_peer@ != peer@,
            ),
            r@ == old(self).pending@.filter(|p: PendingRequest| p.target_peer@ == peer@)
                .map_values(|p: PendingRequest| loss_event_of(p)),
            final(self).inbound@ == old(self).inbound@.filter(
                |q: InboundRequest| q.peer@ != peer@,
            ),
    {
        let ghost keep = |p: PendingRequest| p.target_peer@ != peer@;
        let ghost lost = |p: PendingRequest| p.target_peer@ == peer@;
        let ghost to_event = |p: PendingRequest| loss_event_of(p);
        let ghost n = old(self).pending@.len() as int;
        let total = self.pending.len();
        proof {
            assert(n == total);
        }
        let mut kept: Vec<PendingRequest> = Vec::new();
        let mut events: Vec<BehaviorEvent> = Vec::new();
        let mut done: usize = 0;
        while self.pending.len() > 0
            invariant
                n == old(self).pending@.len(),
                n <= usize::MAX,
                done + self.pending@.len() == n,
                self.pending@ == old(self).pending@.subrange(done as int, n),
                self.inbound@ == old(self).inbound@,
                self.next_correlation_id == old(self).next_correlation_id,
                kept@ == old(self).pending@.subrange(0, done as int).filter(keep),
                events@ == old(self).pending@.subrange(0, done as int).filter(lost).map_values(
                    to_event,
                ),
                keep == (|p: PendingRequest| p.target_peer@ != peer@),
                lost == (|p: PendingRequest| p.target_peer@ == peer@),
                to_event == (|p: PendingRequest| loss_event_of(p)),
            decreases self.pending@.len(),
        {
            let e = self.pending.remove(0);
            proof {
                assert(e == old(self).pending@[done as int]);
                assert(self.pending@ =~= old(self).pending@.subrange(done as int + 1, n));
                assert(old(self).pending@.subrange(0, done as int + 1) =~= old(
                    self,
                ).pending@.subrange(0, done as int).push(e));
                lemma_filter_push(old(self).pending@.subrange(0, done as int), keep, e);
                lemma_filter_push(old(self).pending@.subrange(0, done as int), lost, e);
            }
            if e.target_peer.same_as(peer) {
                let corr = e.correlation_id;
                events.push(
                    BehaviorEvent::RequestFailed {
                        correlation_id: corr,
                        reason: FailureReason::ConnectionLost,
                    },
                );
                proof {
                    let pre = old(self).pending@.subrange(0, done as int);
                    assert(events@ =~= pre.filter(lost).push(e).map_values(to_event));
                    assert(pre.filter(lost).push(e).map_values(to_event) =~= pre.filter(
                        lost,
                    ).map_values(to_event).push(loss_event_of(e)));
                    assert(events@ =~= old(self).pending@.subrange(0, done as int + 1).filter(
                        lost,
                    ).map_values(to_event));
                }
            } else {
                kept.push(e);
            }
            done += 1;
        }
        proof {
            assert(old(self).pending@.subrange(0, n) =~= old(self).pending@);
        }
        self.pending = kept;
        let ghost qkeep = |q: InboundRequest| q.peer@ != peer@;
        let ghost m = old(self).inbound@.len() as int;
        let total_q = self.inbound.len();
        proof {
            assert(m == total_q);
        }
        let mut kept_q: Vec<InboundRequest> = Vec::new();
        let mut done_q: usize = 0;
        while self.inbound.len() > 0
            invariant
                m == old(self).inbound@.len(),
                m <= usize::MAX,
                done_q + self.inbound@.len() == m,
                self.inbound@ == old(self).inbound@.subrange(done_q as int, m),
                self.next_correlation_id == old(self).next_correlation_id,
                self.pending@ == old(self).pending@.filter(keep),
                keep == (|p: PendingRequest| p.target_peer@ != peer@),
                kept_q@ == old(self).inbound@.subrange(0, done_q as int).filter(qkeep),
                qkeep == (|q: InboundRequest| q.peer@ != peer@),
            decreases self.inbound@.len(),
        {
            let q = self.inbound.remove(0);
            proof {
                assert(q == old(self).inbound@[done_q as int]);
                assert(self.inbound@ =~= old(self).inbound@.subrange(done_q as int + 1, m));
                assert(old(self).inbound@.subrange(0, done_q as int + 1) =~= old(
                    self,
                ).inbound@.subrange(0, done_q as int).push(q));
                lemma_filter_push(old(self).inbound@.subrange(0, done_q as int), qkeep, q);
            }
            if !q.peer.same_as(peer) {
                kept_q.push(q);
            }
            done_q += 1;
        }
        proof {
            assert(old(self).inbound@.subrange(0, m) =~= old(self).inbound@);
        }
        self.inbound = kept_q;
        proof {
            lemma_filter_distinct_by(
                old(self).pending@,
                keep,
                |p: PendingRequest| p.correlation_id,
            );
            lemma_filter_distinct_by(
                old(self).inbound@,
                qkeep,
                |q: InboundRequest| q.correlation_id,
            );
            let fk = old(self).pending@.filter(keep);
            assert forall|i: int| 0 <= i < fk.len() implies (#[trigger] fk[i]).correlation_id
                < self.next_correlation_id by {
                assert(fk.contains(fk[i]));
                old(self).pending@.lemma_filter_contains_rev(keep, fk[i]);
                let k = old(self).pending@.lemma_contains_to_index(fk[i]);
            }
            let fq = old(self).inbound@.filter(qkeep);
            assert forall|i: int| 0 <= i < fq.len() implies (#[trigger] fq[i]).correlation_id
                < self.next_correlation_id by {
                assert(fq.contains(fq[i]));
                old(self).inbound@.lemma_filter_contains_rev(qkeep, fq[i]);
                let k = old(self).inbound@.lemma_contains_to_index(fq[i]);
            }
        }
        events
    }
}

/// Whether no two requests of the list share a correlation identifier.
pub open spec fn distinct_correlation_ids(s: Seq<PendingRequest>) -> bool {
    forall|i: int, j: int| 0 <= i < j < s.len() ==> s[i].correlation_id != s[j].correlation_id
}

/// Whether some request of the list targets this peer.
pub open spec fn targets_peer(s: Seq<PendingRequest>, peer: Seq<u8>) -> bool {
    exists|j: int| 0 <= j < s.len() && s[j].target_peer@ == peer
}

/// Request/connection-loss coupling: when a connection is destroyed, every
/// request pending toward its peer resolves as lost exactly once -- each
/// produces one failure event carrying its correlation id, no two events
/// carry the same id, and no request to that peer stays pending.
pub proof fn lemma_request_loss_coupling(pending: Seq<PendingRequest>, peer: Seq<u8>)
    requires
        forall|i: int, j: int|
            0 <= i < j < pending.len() ==> pending[i].correlation_id != pending[j].correlation_id,
    ensures
        forall|j: int|
            0 <= j < pending.len() && (#[trigger] pending[j]).target_peer@ == peer
                ==> pending.filter(|p: PendingRequest| p.target_peer@ == peer).map_values(
                |p: PendingRequest| loss_event_of(p),
            ).contains(loss_event_of(pending[j])),
        distinct_correlation_ids(pending.filter(|p: PendingRequest| p.target_peer@ == peer)),
        !targets_peer(pending.filter(|p: PendingRequest| p.target_peer@ != peer), peer),
{
    let lost = |p: PendingRequest| p.target_peer@ == peer;
    let keep = |p: PendingRequest| p.target_peer@ != peer;
    let to_event = |p: PendingRequest| loss_event_of(p);
    lemma_filter_distinct_by(pending, lost, |p: PendingRequest| p.correlation_id);
    assert forall|j: int|
        0 <= j < pending.len() && (#[trigger] pending[j]).target_peer@ == peer implies pending.filter(
        lost,
    ).map_values(to_event).contains(loss_event_of(pending[j])) by {
        pending.lemma_filter_contains(lost, j);
        let i = pending.filter(lost).lemma_contains_to_index(pending[j]);
        assert(pending.filter(lost).map_values(to_event)[i] == loss_event_of(pending[j]));
    }
    assert forall|j: int|
        0 <= j < pending.filter(keep).len() implies (#[trigger] pending.filter(
        keep,
    )[j]).target_peer@ != peer by {
        pending.lemma_filter_pred(keep, j);
    }
}

/// The composed behavior: one instance of every sub-protocol, polled and fed
/// by the composer as one unit.
#[derive(Debug)]
pub struct Behavior {
    pub mdns: Mdns,
    pub ping: Ping,
    pub identify: Identify,
    pub kad: Kad,
    pub request_response: RequestResponse,
}

impl Behavior {
    pub open spec fn wf(&self) -> bool {
        &&& self.mdns.wf()
        &&& self.ping.wf()
        &&& self.identify.wf()
        &&& self.kad.wf()
        &&& self.request_response.wf()
    }

    /// A fresh composed behavior for the node whose identifier is `local`:
    /// every sub-protocol starts empty.
    pub fn new(local: PeerIdentifier) -> (r: Behavior)
        ensures
            r.wf(),
            r.mdns.entries@.len() == 0,
            r.ping.probes@.len() == 0,
            r.identify.peers@.len() == 0,
            r.kad.local@ == local@,
            r.kad.records@.len() == 0,
            forall|b: int| 0 <= b < r.kad.buckets@.len() ==> r.kad.buckets@[b].entries@.len() == 0,
            r.request_response.pending@.len() == 0,
            r.request_response.inbound@.len() == 0,
            r.request_response.next_correlation_id == 0,
    {
        Behavior {
            mdns: Mdns::new(),
            ping: Ping::new(),
            identify: Identify::new(),
            kad: Kad::new(local),
            request_response: RequestResponse::new(),
        }
    }
}

/// Whether any entry of a discovery table names this peer.
pub open spec fn discovery_lists_peer(s: Seq<DiscoveryEntry>, peer: Seq<u8>) -> bool {
    exists|j: int| 0 <= j < s.len() && s[j].peer@ == peer
}

/// A peer no longer announced within the expiry window is gone from the table
/// after eviction: only a fresh announcement can put it back.
pub proof fn lemma_stale_discovery_eviction(table: Seq<DiscoveryEntry>, peer: Seq<u8>, now: u64)
    requires
        forall|j: int|
            0 <= j < table.len() && table[j].peer@ == peer ==> !fresh_at(table[j], now),
    ensures
        !discovery_lists_peer(table.filter(|e: DiscoveryEntry| fresh_at(e, now)), peer),
{
    let pred = |e: DiscoveryEntry| fresh_at(e, now);
    assert forall|j: int| 0 <= j < table.filter(pred).len() implies table.filter(pred)[j].peer@
        != peer by {
        table.lemma_filter_pred(pred, j);
        assert(table.filter(pred).contains(table.filter(pred)[j]));
        table.lemma_filter_contains_rev(pred, table.filter(pred)[j]);
        let k = table.lemma_contains_to_index(table.filter(pred)[j]);
        assert(fresh_at(table[k], now));
    }
}

} // verus!
