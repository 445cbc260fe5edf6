//! The network side of the engine, without its sockets: how messages are framed,
//! under which names peers are announced, which peers and connections are known,
//! and the steps by which a message is sent.

use vstd::prelude::*;

use vstd::string::StringExecFns;
use vstd::string::StrSliceExecFns;

use crate::bytes::{be32, be_bytes, copied};
use crate::crypto::{derive_keys, identity_of};
use crate::encoding::{hex_decode, hex_encode, hex_text, is_hex_of, law_hex_decodes};
use crate::handshake::NetworkError;
use crate::table::Table;

verus! {

/// The type under which the service is announced.
pub const SERVICE_TYPE: &'static str = "_loom._tcp.local.";

/// The number that four big-endian bytes stand for.
pub open spec fn be32_value(bytes: Seq<u8>) -> nat {
    (bytes[0] as nat) * 0x1000000 + (bytes[1] as nat) * 0x10000 + (bytes[2] as nat) * 0x100 + (
    bytes[3] as nat)
}

/// The bytes in front of a payload on a connection: its length, modulo 2^32.
pub fn frame_header(length: usize) -> (header: [u8; 4])
    ensures
        header@ == be32(length as nat % 0x1_0000_0000),
{
    be_bytes(((length as u64) % 0x1_0000_0000) as u32)
}

/// The length that a frame's first bytes announce.
pub fn frame_length(header: &[u8; 4]) -> (length: usize)
    ensures
        length == be32_value(header@),
{
    let high: u32 = (header[0] as u32) * 0x1000000 + (header[1] as u32) * 0x10000;
    let low: u32 = (header[2] as u32) * 0x100 + (header[3] as u32);
    (high + low) as usize
}

/// The reader of a frame expects as many bytes as the writer announced, for every
/// payload shorter than 2^32 bytes.
pub proof fn law_frame_length_is_read_back(length: nat)
    requires
        length < 0x1_0000_0000,
    ensures
        be32_value(be32(length % 0x1_0000_0000)) == length,
{
    assert(length % 0x1_0000_0000 == length);
    let a = length / 0x1000000;
    let b = (length / 0x10000) % 256;
    let c = (length / 0x100) % 256;
    let d = length % 256;
    assert(a % 256 == a);
    assert(length / 0x10000 == 256 * a + b);
    assert(length / 0x100 == 256 * (length / 0x10000) + c);
    assert(length == 256 * (length / 0x100) + d);
    let bytes = be32(length);
    assert(bytes[0] as nat == a);
    assert(bytes[1] as nat == b);
    assert(bytes[2] as nat == c);
    assert(bytes[3] as nat == d);
}

/// The name under which an identity is announced.
pub open spec fn instance_name_of(identity: Seq<u8>) -> Seq<char> {
    "loom-"@ + hex_text(identity)
}

/// The names under which an identity is announced.
pub struct Advertisement {
    pub instance_name: String,
    pub host_name: String,
}

/// What is announced on the network: nothing without an identity.
pub fn advertisement(seed: Option<[u8; 32]>) -> (announced: Option<Advertisement>)
    ensures
        match seed {
            Some(seed) => {
                &&& announced matches Some(names)
                &&& names.instance_name@ == instance_name_of(identity_of(seed@))
                &&& names.host_name@ == instance_name_of(identity_of(seed@)) + ".local."@
            },
            None => announced is None,
        },
{
    let seed = match seed {
        Some(seed) => seed,
        None => {
            return None;
        },
    };
    let identity = derive_keys(&seed).identity_public();
    let instance_name = "loom-".to_owned().concat(hex_encode(&identity).as_str());
    let host_name = instance_name.clone().concat(".local.");
    Some(Advertisement { instance_name, host_name })
}

/// The place of the first `c` in a text; the length of the text if there is none.
pub open spec fn first_of(text: Seq<char>, c: char) -> int
    decreases text.len(),
{
    if text.len() == 0 || text[0] == c {
        0
    } else {
        1 + first_of(text.drop_first(), c)
    }
}

/// A place is the first one where `c` stands.
proof fn lemma_first_of(text: Seq<char>, c: char, place: int)
    requires
        0 <= place <= text.len(),
        forall|i: int| 0 <= i < place ==> text[i] != c,
        place < text.len() ==> text[place] == c,
    ensures
        first_of(text, c) == place,
    decreases text.len(),
{
    if place > 0 {
        let rest = text.drop_first();
        assert forall|i: int| 0 <= i < place - 1 implies rest[i] != c by {
            assert(rest[i] == text[i + 1]);
        }
        lemma_first_of(rest, c, place - 1);
    }
}

/// Finds the first `c` in a text.
fn find(text: &str, c: char) -> (place: usize)
    ensures
        place == first_of(text@, c),
        place <= text@.len(),
{
    let length: usize = text.unicode_len();
    let mut i: usize = 0;
    while i < length && text.get_char(i) != c
        invariant
            length == text@.len(),
            i <= length,
            forall|j: int| 0 <= j < i ==> text@[j] != c,
        decreases length - i,
    {
        i = i + 1;
    }
    proof {
        lemma_first_of(text@, c, i as int);
    }
    i
}

/// The part of a service's full name that should be a peer's key: in the first
/// label, what stands between `loom-` and the next hyphen.
pub open spec fn key_text(full_name: Seq<char>) -> Option<Seq<char>> {
    let label = full_name.take(first_of(full_name, '.'));
    let hyphen = first_of(label, '-');
    if hyphen < label.len() && label.take(hyphen) == "loom"@ {
        let rest = label.skip(hyphen + 1);
        Some(rest.take(first_of(rest, '-')))
    } else {
        None
    }
}

/// Whether a text is the service's own.
fn is_loom(text: &str) -> (same: bool)
    ensures
        same == (text@ == "loom"@),
{
    proof {
        reveal_strlit("loom");
        assert(text@ == "loom"@ <==> text@ =~= "loom"@);
    }
    text.unicode_len() == 4 && text.get_char(0) == 'l' && text.get_char(1) == 'o' && text.get_char(2)
        == 'o' && text.get_char(3) == 'm'
}

/// The peer's key in the full name of a service that was found; `None` where the
/// name holds none.
pub fn peer_key_of_service(full_name: &str) -> (key: Option<Vec<u8>>)
    ensures
        match key {
            Some(key) => {
                &&& key_text(full_name@) matches Some(text)
                &&& is_hex_of(text, key@)
            },
            None => key_text(full_name@) matches Some(text) ==> forall|key: Seq<u8>|
                !is_hex_of(text, key),
        },
{
    let dot: usize = find(full_name, '.');
    let label = full_name.substring_char(0, dot);
    assert(label@ =~= full_name@.take(dot as int));
    let hyphen: usize = find(label, '-');
    let length: usize = label.unicode_len();
    if hyphen >= length {
        return None;
    }
    let service = label.substring_char(0, hyphen);
    assert(service@ =~= label@.take(hyphen as int));
    if !is_loom(service) {
        return None;
    }
    let rest = label.substring_char(hyphen + 1, length);
    assert(rest@ =~= label@.skip(hyphen + 1));
    let text = rest.substring_char(0, find(rest, '-'));
    assert(text@ =~= rest@.take(first_of(rest@, '-')));
    match hex_decode(text) {
        Ok(key) => Some(key),
        Err(_) => None,
    }
}

/// The name under which an identity is announced leads back to it: the full name
/// that starts with it holds the identity's key and no other.
pub proof fn law_announced_name_holds_the_key(identity: Seq<u8>, domain: Seq<char>, key: Seq<u8>)
    requires
        domain.len() > 0,
        domain[0] == '.',
    ensures
        key_text(instance_name_of(identity) + domain) matches Some(text) && (is_hex_of(text, key)
            <==> key == identity),
{
    reveal_strlit("loom-");
    reveal_strlit("loom");
    let hex = hex_text(identity);
    let name = instance_name_of(identity);
    let full_name = name + domain;
    assert forall|i: int| 0 <= i < hex.len() implies #[trigger] hex[i] != '.' && hex[i] != '-' by {
        let value = if i % 2 == 0 {
            identity[i / 2] as int / 16
        } else {
            identity[i / 2] as int % 16
        };
        assert(hex[i] == crate::encoding::hex_char(value));
        assert(0 <= value < 16);
    }
    assert forall|i: int| 0 <= i < name.len() implies full_name[i] != '.' by {
        assert(full_name[i] == name[i]);
        if i >= 5 {
            assert(name[i] == hex[i - 5]);
        }
    }
    assert(full_name[name.len() as int] == domain[0]);
    lemma_first_of(full_name, '.', name.len() as int);
    assert(full_name.take(name.len() as int) =~= name);
    lemma_first_of(name, '-', 4);
    assert(name.take(4) =~= "loom"@);
    let rest = name.skip(5);
    assert(rest =~= hex);
    lemma_first_of(hex, '-', hex.len() as int);
    assert(hex.take(hex.len() as int) =~= hex);
    law_hex_decodes(identity, key);
}

/// The line that is logged when a connection has ended.
pub fn connection_closed_line(peer_identity: &[u8; 32]) -> (line: String)
    ensures
        line@ == "Connection closed for peer "@ + hex_text(peer_identity@),
{
    "Connection closed for peer ".to_owned().concat(hex_encode(peer_identity).as_str())
}

/// Where the sending of a message stands. `again` is set once the message has
/// failed on one connection.
#[derive(Debug, Clone, Copy, PartialEq, Eq, Structural)]
pub enum SendState {
    Idle,
    Dialing { again: bool },
    Writing { again: bool },
    Finished,
}

/// What happened to a message that is being sent.
pub enum SendEvent<C> {
    Start,
    Connected(C),
    Written,
    Failed,
}

/// What to do next with a message that is being sent.
#[derive(Debug, Clone, Copy, PartialEq, Eq, Structural)]
pub enum SendAction {
    /// Connect to the peer's address.
    Connect,
    /// Write the message to the peer's connection.
    Write,
    /// The message is sent.
    Done,
    /// Report the failure that has just happened.
    GiveUp,
    /// Report that the peer's address is not known.
    Offline,
}

impl SendState {
    /// The events that can happen in a state.
    pub open spec fn expects<C>(self, event: SendEvent<C>) -> bool {
        match self {
            SendState::Idle => event is Start,
            SendState::Dialing { .. } => event is Connected || event is Failed,
            SendState::Writing { .. } => event is Written || event is Failed,
            SendState::Finished => false,
        }
    }

    /// How many steps are left at most.
    pub open spec fn steps_left(self) -> nat {
        match self {
            SendState::Idle => 5,
            SendState::Dialing { again: false } => 4,
            SendState::Writing { again: false } => 3,
            SendState::Dialing { again: true } => 2,
            SendState::Writing { again: true } => 1,
            SendState::Finished => 0,
        }
    }
}

/// The peers that are known and the connections that are open. The addresses and
/// the connections themselves are the caller's.
pub struct NetworkManager<A, C> {
    local_port: u16,
    peer_addresses: Table<Vec<u8>, A>,
    active_connections: Table<Vec<u8>, C>,
}

/// The connections after a step of sending.
pub open spec fn connections_after<C>(
    connections: Map<Seq<u8>, C>,
    peer: Seq<u8>,
    state: SendState,
    event: SendEvent<C>,
) -> Map<Seq<u8>, C> {
    match (state, event) {
        (SendState::Dialing { .. }, SendEvent::Connected(connection)) => connections.insert(
            peer,
            connection,
        ),
        (SendState::Writing { again: false }, SendEvent::Failed) => connections.remove(peer),
        _ => connections,
    }
}

/// The next state and action of sending. A message goes over the open connection,
/// or else over a new one to the known address. Where that fails while writing,
/// the connection is dropped and the message is tried once more over a new one.
pub open spec fn send_step<A, C>(
    addresses: Map<Seq<u8>, A>,
    connections: Map<Seq<u8>, C>,
    peer: Seq<u8>,
    state: SendState,
    event: SendEvent<C>,
) -> (SendState, SendAction) {
    match (state, event) {
        (SendState::Idle, _) => if connections.contains_key(peer) {
            (SendState::Writing { again: false }, SendAction::Write)
        } else if addresses.contains_key(peer) {
            (SendState::Dialing { again: false }, SendAction::Connect)
        } else {
            (SendState::Finished, SendAction::Offline)
        },
        (SendState::Dialing { again }, SendEvent::Connected(_)) => (
            SendState::Writing { again },
            SendAction::Write,
        ),
        (SendState::Writing { .. }, SendEvent::Written) => (SendState::Finished, SendAction::Done),
        (SendState::Writing { again: false }, SendEvent::Failed) => if addresses.contains_key(
            peer,
        ) {
            (SendState::Dialing { again: true }, SendAction::Connect)
        } else {
            (SendState::Finished, SendAction::Offline)
        },
        _ => (SendState::Finished, SendAction::GiveUp),
    }
}

impl<A, C> NetworkManager<A, C> {
    /// The port that is listened on; zero before the network is started.
    pub closed spec fn port(self) -> u16 {
        self.local_port
    }

    /// The known addresses, by the peer's key.
    pub closed spec fn addresses(self) -> Map<Seq<u8>, A> {
        self.peer_addresses@
    }

    /// The open connections, by the peer's key.
    pub closed spec fn connections(self) -> Map<Seq<u8>, C> {
        self.active_connections@
    }

    /// A network without peers, not listening yet.
    pub fn new() -> (network: Self)
        ensures
            network.port() == 0,
            network.addresses() == Map::<Seq<u8>, A>::empty(),
            network.connections() == Map::<Seq<u8>, C>::empty(),
    {
        NetworkManager {
            local_port: 0,
            peer_addresses: Table::new(),
            active_connections: Table::new(),
        }
    }

    /// Notes the port that is listened on.
    pub fn set_port(&mut self, port: u16)
        ensures
            final(self).port() == port,
            final(self).addresses() == old(self).addresses(),
            final(self).connections() == old(self).connections(),
    {
        self.local_port = port;
    }

    /// The port that is listened on.
    pub fn get_port(&self) -> (port: u16)
        ensures
            port == self.port(),
    {
        self.local_port
    }

    /// The address of a peer.
    pub fn address(&self, peer: &[u8]) -> (address: Option<&A>)
        ensures
            match address {
                Some(address) => {
                    &&& self.addresses().contains_key(peer@)
                    &&& *address == self.addresses()[peer@]
                },
                None => !self.addresses().contains_key(peer@),
            },
    {
        self.peer_addresses.get(&copied(peer))
    }

    /// The address to send a handshake to.
    pub fn handshake_address(&self, peer: &[u8; 32]) -> (address: Result<&A, NetworkError>)
        ensures
            match address {
                Ok(address) => {
                    &&& self.addresses().contains_key(peer@)
                    &&& *address == self.addresses()[peer@]
                },
                Err(error) => {
                    &&& !self.addresses().contains_key(peer@)
                    &&& error == NetworkError::PeerOffline
                },
            },
    {
        match self.address(peer) {
            Some(address) => Ok(address),
            None => Err(NetworkError::PeerOffline),
        }
    }

    /// The open connection of a peer.
    pub fn connection(&self, peer: &[u8]) -> (connection: Option<&C>)
        ensures
            match connection {
                Some(connection) => {
                    &&& self.connections().contains_key(peer@)
                    &&& *connection == self.connections()[peer@]
                },
                None => !self.connections().contains_key(peer@),
            },
    {
        self.active_connections.get(&copied(peer))
    }

    /// Notes the address of a peer.
    pub fn peer_found(&mut self, peer: Vec<u8>, address: A)
        ensures
            final(self).addresses() == old(self).addresses().insert(peer@, address),
            final(self).connections() == old(self).connections(),
            final(self).port() == old(self).port(),
    {
        self.peer_addresses.insert(peer, address);
    }

    /// Notes the connection of a peer.
    pub fn connection_opened(&mut self, peer: Vec<u8>, connection: C)
        ensures
            final(self).connections() == old(self).connections().insert(peer@, connection),
            final(self).addresses() == old(self).addresses(),
            final(self).port() == old(self).port(),
    {
        self.active_connections.insert(peer, connection);
    }

    /// Drops the connection of a peer.
    pub fn connection_closed(&mut self, peer: &[u8])
        ensures
            final(self).connections() == old(self).connections().remove(peer@),
            final(self).addresses() == old(self).addresses(),
            final(self).port() == old(self).port(),
    {
        let _ = self.active_connections.remove(&copied(peer));
    }

    /// Sets the address of a peer by hand. An open connection to the peer is
    /// dropped, so that the next message goes to the new address.
    pub fn inject_peer_address(&mut self, peer: Vec<u8>, address: A)
        ensures
            final(self).addresses() == old(self).addresses().insert(peer@, address),
            final(self).connections() == old(self).connections().remove(peer@),
            final(self).port() == old(self).port(),
    {
        self.connection_closed(&peer);
        self.peer_found(peer, address);
    }

    /// Takes the next step in sending a message to a peer.
    pub fn send_next(&mut self, peer: &[u8; 32], state: SendState, event: SendEvent<C>) -> (next: (
        SendState,
        SendAction,
    ))
        requires
            state.expects(event),
        ensures
            next == send_step(
                old(self).addresses(),
                old(self).connections(),
                peer@,
                state,
                event,
            ),
            final(self).connections() == connections_after(
                old(self).connections(),
                peer@,
                state,
                event,
            ),
            final(self).addresses() == old(self).addresses(),
            final(self).port() == old(self).port(),
    {
        match (state, event) {
            (SendState::Idle, _) => {
                if self.connection(peer).is_some() {
                    (SendState::Writing { again: false }, SendAction::Write)
                } else if self.address(peer).is_some() {
                    (SendState::Dialing { again: false }, SendAction::Connect)
                } else {
                    (SendState::Finished, SendAction::Offline)
                }
            },
            (SendState::Dialing { again }, SendEvent::Connected(connection)) => {
                self.connection_opened(copied(peer), connection);
                (SendState::Writing { again }, SendAction::Write)
            },
            (SendState::Writing { .. }, SendEvent::Written) => {
                (SendState::Finished, SendAction::Done)
            },
            (SendState::Writing { again: false }, SendEvent::Failed) => {
                self.connection_closed(peer);
                if self.address(peer).is_some() {
                    (SendState::Dialing { again: true }, SendAction::Connect)
                } else {
                    (SendState::Finished, SendAction::Offline)
                }
            },
            _ => (SendState::Finished, SendAction::GiveUp),
        }
    }
}

/// Sending comes to an end: every step leaves fewer to go, and what is reported at
/// the end is success, the last failure, or that the peer is not known.
pub proof fn law_sending_ends<A, C>(
    addresses: Map<Seq<u8>, A>,
    connections: Map<Seq<u8>, C>,
    peer: Seq<u8>,
    state: SendState,
    event: SendEvent<C>,
)
    requires
        state.expects(event),
    ensures
        ({
            let (next, action) = send_step(addresses, connections, peer, state, event);
            &&& next.steps_left() < state.steps_left()
            &&& next is Finished <==> (action is Done || action is GiveUp || action is Offline)
            &&& action is Done <==> event is Written
        }),
{
}

/// A message is written only where the peer has a connection, and a connection is
/// made only where its address is known. Other peers' connections stay as they
/// are.
pub proof fn law_sending_uses_what_is_known<A, C>(
    addresses: Map<Seq<u8>, A>,
    connections: Map<Seq<u8>, C>,
    peer: Seq<u8>,
    state: SendState,
    event: SendEvent<C>,
)
    requires
        state.expects(event),
    ensures
        ({
            let action = send_step(addresses, connections, peer, state, event).1;
            let after = connections_after(connections, peer, state, event);
            &&& action is Write ==> after.contains_key(peer)
            &&& action is Connect ==> addresses.contains_key(peer) && !after.contains_key(peer)
            &&& forall|other: Seq<u8>|
                other != peer ==> (#[trigger] after.contains_key(other) == connections.contains_key(
                    other,
                )) && (connections.contains_key(other) ==> after[other] == connections[other])
        }),
{
}

/// After an address was set by hand, the next message to that peer is sent over a
/// new connection to it.
pub proof fn law_injected_address_is_dialed<A, C>(
    before: NetworkManager<A, C>,
    after: NetworkManager<A, C>,
    peer: Seq<u8>,
    address: A,
)
    requires
        after.addresses() == before.addresses().insert(peer, address),
        after.connections() == before.connections().remove(peer),
    ensures
        send_step(
            after.addresses(),
            after.connections(),
            peer,
            SendState::Idle,
            SendEvent::<C>::Start,
        ) == (SendState::Dialing { again: false }, SendAction::Connect),
        after.addresses()[peer] == address,
{
}

/// The bytes in front of a payload tell its length, the most significant byte
/// first.
pub proof fn law_frame_tells_the_length(length: nat, header: Seq<u8>)
    requires
        length < 0x1_0000_0000,
    ensures
        ({
            let written = be32(length % 0x1_0000_0000);
            &&& written.len() == 4
            &&& written[0] as int * 0x1000000 + written[1] as int * 0x10000 + written[2] as int
                * 0x100 + written[3] as int == length
        }),
        be32_value(header) == header[0] as int * 0x1000000 + header[1] as int * 0x10000
            + header[2] as int * 0x100 + header[3] as int,
{
    crate::ratchet_laws::law_four_bytes_tell_the_number(length as int);
    assert(length % 0x1_0000_0000 == length);
}

/// The first `c` of a text stands at its place, and none before it.
proof fn lemma_place(text: Seq<char>, c: char)
    ensures
        0 <= first_of(text, c) <= text.len(),
        forall|i: int| 0 <= i < first_of(text, c) ==> #[trigger] text[i] != c,
        first_of(text, c) < text.len() ==> text[first_of(text, c)] == c,
    decreases text.len(),
{
    if text.len() > 0 && text[0] != c {
        let rest = text.drop_first();
        lemma_place(rest, c);
        assert forall|i: int| 0 <= i < first_of(text, c) implies #[trigger] text[i] != c by {
            if i > 0 {
                assert(rest[i - 1] == text[i]);
            }
        }
    }
}

/// The name of an identity is the service's own, a hyphen, and the whole identity
/// in hexadecimal digits. Any service name that starts so holds what stands up to
/// the next hyphen or dot, whatever follows, and no other name holds a key.
pub proof fn law_service_name_holds_what_follows_the_hyphen(
    identity: Seq<u8>,
    key: Seq<char>,
    rest: Seq<char>,
    other: Seq<char>,
)
    requires
        forall|i: int| 0 <= i < key.len() ==> #[trigger] key[i] != '.' && key[i] != '-',
        rest.len() > 0 ==> rest[0] == '.' || rest[0] == '-',
    ensures
        instance_name_of(identity) == "loom-"@ + hex_text(identity),
        key_text("loom-"@ + key + rest) == Some(key),
        key_text(other) is Some ==> other.len() >= 5 && other.take(5) == "loom-"@,
{
    reveal_strlit("loom-");
    reveal_strlit("loom");
    let name = "loom-"@ + key + rest;
    let dot = first_of(name, '.');
    let length = key.len() as int;
    lemma_place(name, '.');
    assert forall|i: int| 0 <= i < 5 + length implies name[i] != '.' by {
        if i >= 5 {
            assert(name[i] == key[i - 5]);
        }
    }
    assert(dot >= 5 + length);
    let label = name.take(dot);
    assert(label[4] == '-');
    lemma_first_of(label, '-', 4);
    assert(label.take(4) =~= "loom"@);
    let behind = label.skip(5);
    assert forall|i: int| 0 <= i < length implies behind[i] != '-' by {
        assert(behind[i] == key[i]);
    }
    if dot > 5 + length {
        assert(name[5 + length] == rest[0]);
        assert(behind[length] == rest[0]);
    }
    lemma_first_of(behind, '-', length);
    assert(behind.take(length) =~= key);
    if key_text(other) is Some {
        let first = other.take(first_of(other, '.'));
        lemma_place(other, '.');
        lemma_place(first, '-');
        let hyphen = first_of(first, '-');
        assert(first.take(hyphen).len() == "loom"@.len());
        assert(hyphen == 4);
        assert(other[4] == '-');
        assert forall|i: int| 0 <= i < 4 implies other[i] == "loom"@[i] by {
            assert(first.take(4)[i] == other[i]);
        }
        assert(other.take(5) =~= "loom-"@);
    }
}

/// A message goes out whenever it can: over the open connection if there is one,
/// else over a new one if the address is known, and only a peer with neither is
/// offline. What was written is done.
pub proof fn law_message_goes_out_if_it_can<A, C>(
    addresses: Map<Seq<u8>, A>,
    connections: Map<Seq<u8>, C>,
    peer: Seq<u8>,
    again: bool,
    connection: C,
)
    ensures
        ({
            let start = SendEvent::<C>::Start;
            let (next, action) = send_step(addresses, connections, peer, SendState::Idle, start);
            &&& connections.contains_key(peer) ==> action is Write && next
                == (SendState::Writing { again: false })
            &&& !connections.contains_key(peer) && addresses.contains_key(peer) ==> action
                is Connect && next == (SendState::Dialing { again: false })
            &&& !connections.contains_key(peer) && !addresses.contains_key(peer) ==> action
                is Offline && next is Finished
            &&& connections_after(connections, peer, SendState::Idle, start) == connections
        }),
        ({
            let made = SendEvent::Connected(connection);
            let dialing = SendState::Dialing { again };
            let (next, action) = send_step(addresses, connections, peer, dialing, made);
            &&& action is Write
            &&& next == (SendState::Writing { again })
            &&& connections_after(connections, peer, dialing, made) == connections.insert(
                peer,
                connection,
            )
        }),
        ({
            let written = SendEvent::<C>::Written;
            let writing = SendState::Writing { again };
            let (next, action) = send_step(addresses, connections, peer, writing, written);
            &&& action is Done
            &&& next is Finished
            &&& connections_after(connections, peer, writing, written) == connections
        }),
{
}

/// A message that fails on a connection is tried once more over a new one, and the
/// dead connection is dropped; a second failure, or a failure to connect, is
/// reported. Each state expects what can happen in it.
pub proof fn law_failure_is_retried_once<A, C>(
    addresses: Map<Seq<u8>, A>,
    connections: Map<Seq<u8>, C>,
    peer: Seq<u8>,
    again: bool,
    event: SendEvent<C>,
)
    ensures
        ({
            let writing = SendState::Writing { again: false };
            let (next, action) = send_step(
                addresses,
                connections,
                peer,
                writing,
                SendEvent::<C>::Failed,
            );
            &&& addresses.contains_key(peer) ==> action is Connect && next
                == (SendState::Dialing { again: true })
            &&& !addresses.contains_key(peer) ==> action is Offline && next is Finished
            &&& connections_after(connections, peer, writing, SendEvent::<C>::Failed)
                == connections.remove(peer)
        }),
        ({
            let writing = SendState::Writing { again: true };
            let dialing = SendState::Dialing { again };
            let failed = SendEvent::<C>::Failed;
            &&& send_step(addresses, connections, peer, writing, failed) == (
                SendState::Finished,
                SendAction::GiveUp,
            )
            &&& connections_after(connections, peer, writing, failed) == connections
            &&& send_step(addresses, connections, peer, dialing, failed) == (
                SendState::Finished,
                SendAction::GiveUp,
            )
            &&& connections_after(connections, peer, dialing, failed) == connections
        }),
        SendState::Idle.expects(event) <==> event is Start,
        (SendState::Dialing { again }).expects(event) <==> event is Connected || event is Failed,
        (SendState::Writing { again }).expects(event) <==> event is Written || event is Failed,
        !SendState::Finished.expects(event),
{
}

} // verus!
