//! Peer identity: the identifier a node is known by is the multihash of its
//! protobuf-encoded public key. The hashing, base-58 rendering and address
//! parsing are done by libp2p; their results are named here and everything
//! that works on them is verified against those names.

use vstd::prelude::*;

verus! {

/// The peer identifier bytes that a protobuf-encoded public key hashes to.
/// Named: the multihash depends on the encoded key bytes alone.
pub uninterp spec fn peer_id_of(public_key: Seq<u8>) -> Seq<u8>;

/// The base-58 text that renders a peer identifier's bytes.
pub uninterp spec fn base58_of(id: Seq<u8>) -> Seq<char>;

/// The peer identifier bytes that a base-58 string decodes to, where it
/// decodes to one.
pub uninterp spec fn peer_id_of_text(s: Seq<char>) -> Seq<u8>;

/// The binary encoding of the multi-segment address that a string spells,
/// where it spells one.
pub uninterp spec fn addr_bytes_of(s: Seq<char>) -> Seq<u8>;

/// Whether a protobuf encoding decodes as a public key: success of the
/// decoding depends on the bytes alone.
pub uninterp spec fn key_decodes(public_key: Seq<u8>) -> bool;

/// Whether identifier bytes form a well-shaped multihash and so render as
/// base-58 text: success of the rendering depends on the bytes alone.
pub uninterp spec fn id_renders(id: Seq<u8>) -> bool;

/// Whether a string is the base-58 text of some peer identifier: success of
/// the decoding depends on the text alone.
pub uninterp spec fn peer_id_parses(s: Seq<char>) -> bool;

/// Whether a string spells a well-formed multi-segment address: success of
/// the parse depends on the text alone.
pub uninterp spec fn addr_parses(s: Seq<char>) -> bool;

/// A peer's identifier, held as the plain bytes of its multihash.
#[derive(Debug)]
pub struct PeerIdentifier {
    pub bytes: Vec<u8>,
}

impl View for PeerIdentifier {
    type V = Seq<u8>;

    open spec fn view(&self) -> Seq<u8> {
        self.bytes@
    }
}

impl PeerIdentifier {
    /// An identical copy of this identifier.
    pub fn duplicate(&self) -> (r: PeerIdentifier)
        ensures
            r@ == self@,
    {
        let mut bytes: Vec<u8> = Vec::new();
        let mut i: usize = 0;
        while i < self.bytes.len()
            invariant
                i <= self.bytes.len(),
                bytes@ == self.bytes@.subrange(0, i as int),
            decreases self.bytes.len() - i,
        {
            bytes.push(self.bytes[i]);
            i += 1;
            proof {
                assert(bytes@ =~= self.bytes@.subrange(0, i as int));
            }
        }
        proof {
            assert(bytes@ =~= self.bytes@);
        }
        PeerIdentifier { bytes }
    }

    /// Whether two identifiers are byte-for-byte the same peer.
    pub fn same_as(&self, other: &PeerIdentifier) -> (r: bool)
        ensures
            r == (self@ == other@),
    {
        bytes_eq(&self.bytes, &other.bytes)
    }

    /// Derives the identifier of the peer that owns `public_key`, exactly
    /// when the bytes decode as a public key. The same key always yields the
    /// same identifier.
    pub fn from_public_key(public_key: &Vec<u8>) -> (r: Option<PeerIdentifier>)
        ensures
            r is Some <==> key_decodes(public_key@),
            r matches Some(id) ==> id@ == peer_id_of(public_key@) && id_renders(id@),
    {
        derive_peer_id(public_key)
    }

    /// The base-58 text of this identifier, exactly when its bytes form a
    /// well-shaped multihash.
    pub fn to_text(&self) -> (r: Option<String>)
        ensures
            r is Some <==> id_renders(self@),
            r matches Some(s) ==> s@ == base58_of(self@),
    {
        render_peer_id(self)
    }

    /// The identifier that a base-58 string denotes, exactly when it denotes
    /// one.
    pub fn from_text(s: &str) -> (r: Option<PeerIdentifier>)
        ensures
            r is Some <==> peer_id_parses(s@),
            r matches Some(id) ==> id@ == peer_id_of_text(s@) && id_renders(id@),
    {
        parse_peer_id(s)
    }
}

/// A structured multi-segment network address, held in its binary encoding.
#[derive(Debug)]
pub struct Address {
    pub bytes: Vec<u8>,
}

impl View for Address {
    type V = Seq<u8>;

    open spec fn view(&self) -> Seq<u8> {
        self.bytes@
    }
}

impl Address {
    /// The address that a textual multi-segment form spells, exactly when it
    /// parses.
    pub fn parse(s: &str) -> (r: Option<Address>)
        ensures
            r is Some <==> addr_parses(s@),
            r matches Some(a) ==> a@ == addr_bytes_of(s@),
    {
        parse_multiaddr(s)
    }
}

/// Whether two byte vectors hold the same bytes.
pub fn bytes_eq(a: &Vec<u8>, b: &Vec<u8>) -> (r: bool)
    ensures
        r == (a@ == b@),
{
    if a.len() != b.len() {
        proof {
            assert(a@ != b@);
        }
        return false;
    }
    let mut i: usize = 0;
    while i < a.len()
        invariant
            i <= a.len(),
            a@.len() == b@.len(),
            forall|j: int| 0 <= j < i ==> a@[j] == b@[j],
        decreases a.len() - i,
    {
        if a[i] != b[i] {
            return false;
        }
        i += 1;
    }
    proof {
        assert(a@ =~= b@);
    }
    true
}

/// Deriving an identifier from the same public key always yields the same
/// value: the identifier is a function of the encoded key bytes alone.
pub proof fn lemma_identifier_deterministic(key_a: Seq<u8>, key_b: Seq<u8>)
    requires
        key_a == key_b,
    ensures
        peer_id_of(key_a) == peer_id_of(key_b),
{
}

/// Relies on libp2p's `Keypair::generate_ed25519`, `PublicKey::encode_protobuf`
/// and `PublicKey::to_peer_id`: the generated key is random, so nothing is
/// stated of its value, but the identifier is the multihash of the encoded
/// public key, a function of those bytes alone. The encoding of a real key
/// decodes back (`try_decode_protobuf` of its own `encode_protobuf`), and the
/// bytes of a real `PeerId` parse back (`from_bytes` of its own `to_bytes`),
/// so the decode and render predicates hold of what this returns.
#[verifier::external_body]
fn generate_identity() -> (r: (Vec<u8>, PeerIdentifier))
    ensures
        r.1@ == peer_id_of(r.0@),
        key_decodes(r.0@),
        id_renders(r.1@),
{
    let key = libp2p::identity::Keypair::generate_ed25519();
    let public = key.public();
    let encoded = public.encode_protobuf();
    let id = public.to_peer_id().to_bytes();
    (encoded, PeerIdentifier { bytes: id })
}

/// A freshly generated node identity: the encoded public key and the peer
/// identifier derived from it.
pub fn generate_local_identity() -> (r: (Vec<u8>, PeerIdentifier))
    ensures
        r.1@ == peer_id_of(r.0@),
        key_decodes(r.0@),
        id_renders(r.1@),
{
    generate_identity()
}

/// Relies on libp2p's `PublicKey::try_decode_protobuf` and
/// `PublicKey::to_peer_id`: whether the bytes decode depends on them alone,
/// and on a decodable key the identifier is the multihash of the encoded key
/// bytes, a function of those bytes alone. The returned bytes come from a
/// real `PeerId`, whose own `to_bytes` parse back with `from_bytes`.
#[verifier::external_body]
fn derive_peer_id(public_key: &Vec<u8>) -> (r: Option<PeerIdentifier>)
    ensures
        r is Some <==> key_decodes(public_key@),
        r matches Some(id) ==> id@ == peer_id_of(public_key@) && id_renders(id@),
{
    match libp2p::identity::PublicKey::try_decode_protobuf(public_key.as_slice()) {
        Ok(key) => Some(PeerIdentifier { bytes: key.to_peer_id().to_bytes() }),
        Err(_) => None,
    }
}

/// Relies on libp2p's `PeerId::from_bytes` and `PeerId::to_base58`: whether
/// the bytes form a well-shaped multihash depends on them alone, and the
/// base-58 text is a function of the identifier bytes alone.
#[verifier::external_body]
fn render_peer_id(id: &PeerIdentifier) -> (r: Option<String>)
    ensures
        r is Some <==> id_renders(id@),
        r matches Some(s) ==> s@ == base58_of(id@),
{
    match libp2p::identity::PeerId::from_bytes(id.bytes.as_slice()) {
        Ok(peer) => Some(peer.to_base58()),
        Err(_) => None,
    }
}

/// Relies on libp2p's `PeerId` `FromStr`: whether the text decodes, and to
/// what, depend on the text alone. The returned bytes come from a real
/// `PeerId`, whose own `to_bytes` parse back with `from_bytes`.
#[verifier::external_body]
fn parse_peer_id(s: &str) -> (r: Option<PeerIdentifier>)
    ensures
        r is Some <==> peer_id_parses(s@),
        r matches Some(id) ==> id@ == peer_id_of_text(s@) && id_renders(id@),
{
    match s.parse::<libp2p::identity::PeerId>() {
        Ok(peer) => Some(PeerIdentifier { bytes: peer.to_bytes() }),
        Err(_) => None,
    }
}

/// Relies on libp2p's `Multiaddr` `FromStr` and `Multiaddr::to_vec`: the
/// parse is purely syntactic, so its success and the binary encoding are
/// functions of the text alone.
#[verifier::external_body]
fn parse_multiaddr(s: &str) -> (r: Option<Address>)
    ensures
        r is Some <==> addr_parses(s@),
        r matches Some(a) ==> a@ == addr_bytes_of(s@),
{
    match s.parse::<libp2p::Multiaddr>() {
        Ok(addr) => Some(Address { bytes: addr.to_vec() }),
        Err(_) => None,
    }
}

} // verus!
