//! Whole conversations between nodes that live in memory: the database is a few
//! vectors, and a connection is an entry of a list.

use std::collections::HashMap;

use loom::chat::{
    identify_sender, reader_step, receive_first_chat, seal_chat_message, sent_record, ReaderStep,
    StoredSession,
};
use loom::crypto::{derive_keys, generate_master_seed, DoubleRatchetSession};
use loom::handshake::{accept_handshake, begin_handshake, finish_handshake, NewContact};
use loom::network::{NetworkManager, SendAction, SendEvent, SendState};
use loom::protocol::{EncryptedEnvelope, HandshakeInitiator, HandshakeResponder, WireMessage};
use loom::ratchet::DoubleRatchetState;
use loom::storage::MessageRecord;
use loom::token::LoomToken;
use loom::{ContactInfo, LoomEngine, LoomError, UIMessage};
use serde_json::Value;

// --- Reading JSON ---

fn bytes_of(value: &Value) -> Option<Vec<u8>> {
    let mut bytes = Vec::new();
    for item in value.as_array()? {
        bytes.push(u8::try_from(item.as_u64()?).ok()?);
    }
    Some(bytes)
}

fn array_of(value: &Value) -> Option<[u8; 32]> {
    bytes_of(value)?.try_into().ok()
}

fn number_of(value: &Value) -> Option<u32> {
    u32::try_from(value.as_u64()?).ok()
}

fn read_wire(bytes: &[u8]) -> Option<WireMessage> {
    let value: Value = serde_json::from_slice(bytes).ok()?;
    let object = value.as_object()?;
    if let Some(init) = object.get("Initiator") {
        return Some(WireMessage::Initiator(HandshakeInitiator {
            sender_identity: array_of(&init["sender_identity"])?,
            sender_dh: array_of(&init["sender_dh"])?,
            ephemeral_key: array_of(&init["ephemeral_key"])?,
            signature: bytes_of(&init["signature"])?,
        }));
    }
    if let Some(response) = object.get("Responder") {
        return Some(WireMessage::Responder(HandshakeResponder {
            ephemeral_key: array_of(&response["ephemeral_key"])?,
            signature: bytes_of(&response["signature"])?,
        }));
    }
    let chat = object.get("Chat")?;
    Some(WireMessage::Chat(EncryptedEnvelope {
        message_id: chat["message_id"].as_str()?.to_string(),
        peer_dh_pub: array_of(&chat["peer_dh_pub"])?,
        n: number_of(&chat["n"])?,
        pn: number_of(&chat["pn"])?,
        ciphertext: bytes_of(&chat["ciphertext"])?,
        nonce: bytes_of(&chat["nonce"])?.try_into().ok()?,
        signature: bytes_of(&chat["signature"])?,
    }))
}

fn read_optional(value: &Value) -> Option<Option<[u8; 32]>> {
    if value.is_null() {
        Some(None)
    } else {
        Some(Some(array_of(value)?))
    }
}

fn read_session(bytes: &[u8]) -> Option<DoubleRatchetSession> {
    let value: Value = serde_json::from_slice(bytes).ok()?;
    let mut skipped_message_keys = Vec::new();
    for entry in value["skipped_message_keys"].as_array()? {
        let slot = (bytes_of(&entry[0][0])?, number_of(&entry[0][1])?);
        skipped_message_keys.push((slot, array_of(&entry[1])?));
    }
    Some(DoubleRatchetSession::from_state(DoubleRatchetState {
        dhs_bytes: array_of(&value["dhs_bytes"])?,
        dhp_bytes: array_of(&value["dhp_bytes"])?,
        rk: array_of(&value["rk"])?,
        ck_s: read_optional(&value["ck_s"])?,
        ck_r: read_optional(&value["ck_r"])?,
        ns: number_of(&value["ns"])?,
        nr: number_of(&value["nr"])?,
        pn: number_of(&value["pn"])?,
        skipped_message_keys,
    }))
}

// --- Nodes ---

/// The two ends of a connection, each with the run of the node that it belongs
/// to, and the identity at each end once it is known.
struct Link {
    dialer: (usize, u32),
    listener: (usize, u32),
    dialer_key: Option<[u8; 32]>,
    listener_key: [u8; 32],
}

struct Node {
    engine: LoomEngine,
    network: NetworkManager<u16, usize>,
    run: u32,
    seed: Option<[u8; 32]>,
    contacts: Vec<NewContact>,
    messages: Vec<MessageRecord>,
    sessions: HashMap<[u8; 32], Vec<u8>>,
    established_sessions: Vec<Vec<u8>>,
    received_messages: Vec<(Vec<u8>, String)>,
}

fn fresh_engine() -> LoomEngine {
    LoomEngine::new("loom.db").unwrap_or_else(|_| panic!("a path"))
}

impl Node {
    fn new() -> Self {
        Node {
            engine: fresh_engine(),
            network: NetworkManager::new(),
            run: 0,
            seed: None,
            contacts: Vec::new(),
            messages: Vec::new(),
            sessions: HashMap::new(),
            established_sessions: Vec::new(),
            received_messages: Vec::new(),
        }
    }

    fn has_identity(&self) -> bool {
        LoomEngine::has_identity(Ok(self.seed)).unwrap()
    }

    fn generate_new_identity(&mut self) -> String {
        let seed = generate_master_seed();
        self.seed = Some(seed);
        LoomEngine::generate_new_identity(&seed, Ok(())).unwrap()
    }

    fn get_my_token(&self) -> Result<String, LoomError> {
        LoomEngine::get_my_token(Ok(self.seed))
    }

    fn get_my_pub_key(&self) -> [u8; 32] {
        let token_str = self.get_my_token().unwrap();
        let token = LoomToken::parse(&token_str).unwrap_or_else(|_| panic!("a token"));
        token.identity_key
    }

    fn store_contact(&mut self, contact: NewContact) {
        self.contacts.retain(|known| known.public_key != contact.public_key);
        self.contacts.insert(0, contact);
    }

    fn add_contact_token(&mut self, token: &str, name: &str) -> Result<(), LoomError> {
        let contact = LoomEngine::add_contact_token(token, name.to_string()).unwrap()?;
        self.store_contact(contact);
        Ok(())
    }

    fn contact_rows(&self) -> Vec<(Vec<u8>, String)> {
        let mut rows = Vec::new();
        for contact in &self.contacts {
            rows.push((contact.public_key.to_vec(), contact.display_name.clone()));
        }
        rows
    }

    fn get_contacts(&self) -> Vec<ContactInfo> {
        LoomEngine::get_contacts(Ok(self.contact_rows())).unwrap()
    }

    fn get_messages(&self, key: &[u8]) -> Vec<UIMessage> {
        let peer = LoomEngine::get_messages(key).unwrap();
        let mut records = Vec::new();
        for record in &self.messages {
            if record.peer_key == peer {
                records.push(MessageRecord::from_row(
                    record.id.clone(),
                    &record.peer_key,
                    &record.sender_key,
                    &record.recipient_key,
                    record.content.clone(),
                    record.timestamp,
                    loom::storage::flag_to_number(record.is_read),
                ));
            }
        }
        LoomEngine::list_messages(Ok(records)).unwrap()
    }

    fn delete_contact(&mut self, key: &[u8]) {
        let peer = LoomEngine::delete_contact(key).unwrap();
        self.contacts.retain(|known| known.public_key != peer);
        self.sessions.remove(&peer);
    }

    fn stored_session(&self, peer: &[u8; 32]) -> StoredSession {
        match self.sessions.get(peer) {
            Some(bytes) => match read_session(bytes) {
                Some(session) => StoredSession::Found(session),
                None => StoredSession::Damaged,
            },
            None => StoredSession::Missing,
        }
    }

    fn save_session(&mut self, peer: [u8; 32], session: &DoubleRatchetSession) {
        self.sessions.insert(peer, session.to_bytes().unwrap());
    }

    fn got(&self, peer: &[u8], content: &str) -> bool {
        self.received_messages
            .iter()
            .any(|(key, text)| key == peer && text == content)
    }

    fn met(&self, peer: &[u8]) -> bool {
        self.established_sessions.iter().any(|key| key == peer)
    }
}

struct World {
    nodes: Vec<Node>,
    listening: HashMap<u16, (usize, u32)>,
    links: Vec<Link>,
    next_port: u16,
    now: i64,
}

impl World {
    fn new(count: usize) -> Self {
        let mut nodes = Vec::new();
        for _ in 0..count {
            nodes.push(Node::new());
        }
        World {
            nodes,
            listening: HashMap::new(),
            links: Vec::new(),
            next_port: 40000,
            now: 0,
        }
    }

    /// Two nodes that know each other.
    fn pair() -> Self {
        let mut world = World::new(2);
        let alice_token = world.nodes[0].generate_new_identity();
        let bob_token = world.nodes[1].generate_new_identity();
        world.nodes[0].add_contact_token(&bob_token, "Bob").unwrap();
        world.nodes[1].add_contact_token(&alice_token, "Alice").unwrap();
        world
    }

    /// Two nodes with a session, begun by the first.
    fn talking() -> Self {
        let mut world = World::pair();
        world.start(0);
        world.start(1);
        world.connect_to(0, 1);
        let bob = world.key(1);
        world.initiate_chat_handshake(0, &bob).unwrap();
        let alice = world.key(0);
        assert!(world.nodes[0].met(&bob));
        assert!(world.nodes[1].met(&alice));
        world
    }

    fn key(&self, node: usize) -> [u8; 32] {
        self.nodes[node].get_my_pub_key()
    }

    fn start(&mut self, node: usize) {
        self.next_port += 1;
        let port = self.next_port;
        let run = self.nodes[node].run;
        self.listening.insert(port, (node, run));
        self.nodes[node].network = NetworkManager::new();
        self.nodes[node].network.set_port(port);
        self.nodes[node].engine.start_network(Ok(())).unwrap();
    }

    fn reboot(&mut self, node: usize) {
        self.nodes[node].run += 1;
        self.nodes[node].engine = fresh_engine();
        self.nodes[node].network = NetworkManager::new();
        let run = self.nodes[node].run;
        self.listening.retain(|_, place| place.0 != node || place.1 == run);
    }

    fn get_network_port(&self, node: usize) -> Result<u16, LoomError> {
        let node = &self.nodes[node];
        node.engine.get_network_port(node.network.get_port())
    }

    fn inject_peer_address(&mut self, node: usize, peer: &[u8], port: u16) {
        let address = self.nodes[node]
            .engine
            .inject_peer_address(peer, Ok(port))
            .unwrap();
        self.nodes[node].network.inject_peer_address(peer.to_vec(), address);
    }

    fn connect_to(&mut self, node: usize, other: usize) {
        let port = self.get_network_port(other).unwrap();
        let key = self.key(other);
        self.inject_peer_address(node, &key, port);
    }

    /// Opens a connection; nobody may be listening.
    fn dial(&mut self, node: usize, port: u16, peer: [u8; 32]) -> Option<usize> {
        let place = *self.listening.get(&port)?;
        self.links.push(Link {
            dialer: (node, self.nodes[node].run),
            listener: place,
            dialer_key: None,
            listener_key: peer,
        });
        Some(self.links.len() - 1)
    }

    fn initiate_chat_handshake(&mut self, node: usize, key: &[u8]) -> Result<(), LoomError> {
        let peer = self.nodes[node].engine.initiate_chat_handshake(key)?;
        let mut found = None;
        for contact in &self.nodes[node].contacts {
            if contact.public_key == peer {
                found = Some(contact.dh_key);
            }
        }
        let peer_dh = LoomEngine::handshake_dh_key(Ok(found))?;
        let failed = |message: String| LoomError::NetworkError { message };
        let (pending, init) = begin_handshake(self.nodes[node].seed, &peer, &peer_dh)
            .map_err(|error| failed(error.message()))?;
        let port = *self.nodes[node]
            .network
            .handshake_address(&peer)
            .map_err(|error| failed(error.message()))?;
        let link = self
            .dial(node, port, peer)
            .ok_or(failed("refused".to_string()))?;
        let payload = WireMessage::Initiator(init).to_json();
        let response = self
            .deliver(link, node, &payload)
            .ok_or(failed("no answer".to_string()))?;
        let session = finish_handshake(&pending, &read_wire(&response).unwrap())
            .map_err(|error| failed(error.message()))?;
        self.nodes[node].save_session(peer, &session);
        self.nodes[node].established_sessions.push(peer.to_vec());
        self.nodes[node].network.connection_opened(peer.to_vec(), link);
        Ok(())
    }

    /// Hands a frame to the other end of a connection; returns what it answers.
    fn deliver(&mut self, link: usize, from: usize, payload: &[u8]) -> Option<Vec<u8>> {
        let to_listener = self.links[link].dialer.0 == from;
        let (to, _) = if to_listener {
            self.links[link].listener
        } else {
            self.links[link].dialer
        };
        if !to_listener {
            let peer = self.links[link].listener_key;
            self.read(to, peer, payload);
            return None;
        }
        match self.links[link].dialer_key {
            Some(peer) => {
                self.read(to, peer, payload);
                None
            }
            None => self.handle_connection(link, to, payload),
        }
    }

    /// The first frame on a connection.
    fn handle_connection(&mut self, link: usize, to: usize, payload: &[u8]) -> Option<Vec<u8>> {
        self.now += 1;
        match read_wire(payload)? {
            WireMessage::Initiator(init) => {
                let accepted = accept_handshake(self.nodes[to].seed, &init).ok()?;
                let peer = init.sender_identity;
                self.nodes[to].save_session(peer, &accepted.session);
                self.nodes[to].store_contact(accepted.contact);
                self.nodes[to].established_sessions.push(peer.to_vec());
                self.nodes[to].network.connection_opened(peer.to_vec(), link);
                self.links[link].dialer_key = Some(peer);
                Some(WireMessage::Responder(accepted.response).to_json())
            }
            WireMessage::Chat(envelope) => {
                let peer = identify_sender(&envelope, &self.nodes[to].contact_rows()).ok()?;
                let stored = self.nodes[to].stored_session(&peer);
                let seed = self.nodes[to].seed;
                let chat = receive_first_chat(&envelope, &peer, stored, seed, self.now).ok()?;
                self.nodes[to].save_session(peer, &chat.session);
                self.nodes[to]
                    .received_messages
                    .push((peer.to_vec(), chat.record.content.clone()));
                self.nodes[to].messages.push(chat.record);
                self.nodes[to].network.connection_opened(peer.to_vec(), link);
                self.links[link].dialer_key = Some(peer);
                None
            }
            WireMessage::Responder(_) => None,
        }
    }

    /// A later frame on the connection of a peer.
    fn read(&mut self, to: usize, peer: [u8; 32], payload: &[u8]) {
        self.now += 1;
        let stored = self.nodes[to].stored_session(&peer);
        match reader_step(&peer, stored, read_wire(payload), self.now) {
            ReaderStep::Deliver(chat) => {
                self.nodes[to].save_session(peer, &chat.session);
                self.nodes[to]
                    .received_messages
                    .push((peer.to_vec(), chat.record.content.clone()));
                self.nodes[to].messages.push(chat.record);
            }
            ReaderStep::Ignore(_) => {}
            ReaderStep::Close => self.nodes[to].network.connection_closed(&peer),
            ReaderStep::Exhausted => panic!("the counters are spent"),
        }
    }

    fn alive(&self, link: usize) -> bool {
        let link = &self.links[link];
        self.nodes[link.dialer.0].run == link.dialer.1
            && self.nodes[link.listener.0].run == link.listener.1
    }

    fn send_message(&mut self, node: usize, key: &[u8], content: &str) -> Result<String, LoomError> {
        let peer = self.nodes[node].engine.send_message(key)?;
        let failed = |message: String| LoomError::NetworkError { message };
        let stored = self.nodes[node].stored_session(&peer);
        let seed = self.nodes[node].seed;
        let sealed =
            seal_chat_message(seed, stored, content).map_err(|error| failed(error.message()))?;
        self.nodes[node].save_session(peer, &sealed.session);
        let mut state = SendState::Idle;
        let mut event = SendEvent::Start;
        loop {
            let (next, action) = self.nodes[node].network.send_next(&peer, state, event);
            state = next;
            match action {
                SendAction::Connect => {
                    let port = *self.nodes[node].network.address(&peer).unwrap();
                    event = match self.dial(node, port, peer) {
                        Some(link) => SendEvent::Connected(link),
                        None => SendEvent::Failed,
                    };
                }
                SendAction::Write => {
                    let link = *self.nodes[node].network.connection(&peer).unwrap();
                    event = if self.alive(link) {
                        self.deliver(link, node, &sealed.payload);
                        SendEvent::Written
                    } else {
                        SendEvent::Failed
                    };
                }
                SendAction::Done => break,
                SendAction::GiveUp => return Err(failed("broken".to_string())),
                SendAction::Offline => return Err(failed("offline".to_string())),
            }
        }
        self.now += 1;
        let own = self.key(node);
        let id = sealed.envelope.message_id.clone();
        let record = sent_record(id.clone(), &peer, &own, content.to_string(), self.now);
        self.nodes[node].messages.push(record);
        Ok(id)
    }

    fn send_raw_bytes(&mut self, node: usize, key: &[u8], payload: &[u8]) -> Result<(), LoomError> {
        let connection = self.nodes[node].network.connection(key).copied();
        let link = self.nodes[node].engine.send_raw_bytes(connection)?;
        self.deliver(link, node, payload);
        Ok(())
    }
}

// --- Onboarding ---

#[test]
fn test_onboarding_fresh_node() {
    let mut node = Node::new();
    assert!(!node.has_identity());

    let token = node.generate_new_identity();
    assert!(node.has_identity());
    assert!(token.starts_with("LOOM-"));
}

#[test]
fn test_onboarding_idempotent_identity_generation() {
    let mut node = Node::new();
    let token1 = node.generate_new_identity();
    let token2 = node.generate_new_identity();
    assert_ne!(token1, token2);
    assert!(node.has_identity());
}

#[test]
fn test_onboarding_persistence() {
    let mut world = World::new(1);
    let token = world.nodes[0].generate_new_identity();
    assert!(world.nodes[0].has_identity());

    world.reboot(0);
    assert!(world.nodes[0].has_identity());
    assert_eq!(world.nodes[0].get_my_token().unwrap(), token);
}

#[test]
fn test_onboarding_token_components() {
    let mut node = Node::new();
    let token_str = node.generate_new_identity();

    let token = LoomToken::parse(&token_str).unwrap_or_else(|_| panic!("a token"));
    assert_eq!(token.version, 1);
    assert_eq!(token.identity_key.len(), 32);
    assert_eq!(token.dh_key.len(), 32);
}

#[test]
fn test_onboarding_network_startup() {
    let mut world = World::new(1);
    world.nodes[0].generate_new_identity();
    assert!(world.get_network_port(0).is_err());
    world.start(0);
    let port = world.get_network_port(0).unwrap();
    assert!(port > 0);
}

#[test]
fn test_onboarding_boundary_empty_db_path() {
    let engine = LoomEngine::new("");
    assert!(engine.is_err());
}

#[test]
fn test_onboarding_boundary_token_fetch_with_no_identity() {
    let node = Node::new();
    let res = node.get_my_token();
    assert!(res.is_err());
    match res {
        Err(LoomError::NoIdentity) => {}
        _ => panic!("Expected LoomError::NoIdentity"),
    }
}

#[test]
fn test_onboarding_boundary_max_concurrent_engines() {
    let mut nodes = Vec::new();
    for _ in 0..10 {
        let mut node = Node::new();
        node.generate_new_identity();
        nodes.push(node);
    }
    for node in nodes {
        assert!(node.has_identity());
    }
}

// --- Contacts ---

#[test]
fn test_contact_add_valid_token() {
    let mut node1 = Node::new();
    let mut node2 = Node::new();
    let token2 = node2.generate_new_identity();

    node1.add_contact_token(&token2, "Bob").unwrap();
    let contacts = node1.get_contacts();
    assert_eq!(contacts.len(), 1);
    assert_eq!(contacts[0].display_name, "Bob");
    assert_eq!(contacts[0].public_key, node2.get_my_pub_key());
}

#[test]
fn test_contact_display_name_preservation() {
    let mut node1 = Node::new();
    let mut node2 = Node::new();
    let token2 = node2.generate_new_identity();

    node1.add_contact_token(&token2, "Preserved Name").unwrap();
    let contacts = node1.get_contacts();
    assert_eq!(contacts[0].display_name, "Preserved Name");
}

#[test]
fn test_contact_duplicate_token() {
    let mut node1 = Node::new();
    let mut node2 = Node::new();
    let token2 = node2.generate_new_identity();

    node1.add_contact_token(&token2, "Bob First").unwrap();
    node1.add_contact_token(&token2, "Bob Second").unwrap();

    let contacts = node1.get_contacts();
    assert_eq!(contacts.len(), 1);
    assert_eq!(contacts[0].display_name, "Bob Second");
}

#[test]
fn test_contact_multiple_contacts() {
    let mut node = Node::new();
    for i in 1..=5 {
        let mut temp = Node::new();
        let token = temp.generate_new_identity();
        node.add_contact_token(&token, &format!("Contact {}", i)).unwrap();
    }

    let contacts = node.get_contacts();
    assert_eq!(contacts.len(), 5);
}

#[test]
fn test_contact_retrieve_empty() {
    let node = Node::new();
    let contacts = node.get_contacts();
    assert!(contacts.is_empty());
}

#[test]
fn test_contact_boundary_invalid_prefixes() {
    let mut node = Node::new();
    let res = node.add_contact_token("NOTLOOM-XYZ", "Name");
    assert!(res.is_err());
}

#[test]
fn test_contact_boundary_invalid_base32() {
    let mut node = Node::new();
    let res = node.add_contact_token("LOOM-BASE3289", "Name");
    assert!(res.is_err());
}

#[test]
fn test_contact_boundary_corrupt_checksums() {
    let mut node = Node::new();
    let valid_token = node.generate_new_identity();

    let mut chars: Vec<char> = valid_token.chars().collect();
    if let Some(last) = chars.last_mut() {
        *last = if *last == 'A' { 'B' } else { 'A' };
    }
    let mutated_token: String = chars.into_iter().collect();
    let res = node.add_contact_token(&mutated_token, "Name");
    assert!(res.is_err());
}

#[test]
fn test_contact_boundary_invalid_length() {
    let mut node = Node::new();
    let valid_token = node.generate_new_identity();

    let truncated = valid_token[..valid_token.len() - 5].to_string();
    let res = node.add_contact_token(&truncated, "Name");
    assert!(res.is_err());
}

#[test]
fn test_contact_boundary_huge_display_name() {
    let mut node = Node::new();
    let valid_token = node.generate_new_identity();

    let huge_name = "A".repeat(10000);
    node.add_contact_token(&valid_token, &huge_name).unwrap();
    let contacts = node.get_contacts();
    assert_eq!(contacts.len(), 1);
    assert_eq!(contacts[0].display_name, huge_name);
}

// --- Chat ---

#[test]
fn test_chat_handshake_flow() {
    let mut world = World::pair();
    world.start(0);
    world.start(1);

    world.connect_to(0, 1);
    let (alice, bob) = (world.key(0), world.key(1));
    world.initiate_chat_handshake(0, &bob).unwrap();

    assert!(world.nodes[0].met(&bob));
    assert!(world.nodes[1].met(&alice));
}

#[test]
fn test_chat_single_message_delivery() {
    let mut world = World::talking();
    let (alice, bob) = (world.key(0), world.key(1));
    world.send_message(0, &bob, "Hello Bob!").unwrap();
    assert!(world.nodes[1].got(&alice, "Hello Bob!"));
}

#[test]
fn test_chat_two_way_communication() {
    let mut world = World::talking();
    let (alice, bob) = (world.key(0), world.key(1));
    world.send_message(0, &bob, "Hello Bob!").unwrap();
    assert!(world.nodes[1].got(&alice, "Hello Bob!"));

    world.send_message(1, &alice, "Hello Alice!").unwrap();
    assert!(world.nodes[0].got(&bob, "Hello Alice!"));
}

#[test]
fn test_chat_multiple_sequential_messages() {
    let mut world = World::talking();
    let (alice, bob) = (world.key(0), world.key(1));
    for i in 1..=5 {
        world.send_message(0, &bob, &format!("Msg {}", i)).unwrap();
        assert!(world.nodes[1].got(&alice, &format!("Msg {}", i)));
    }
}

#[test]
fn test_chat_message_persistence() {
    let mut world = World::talking();
    let (alice, bob) = (world.key(0), world.key(1));
    world.send_message(0, &bob, "Persist me").unwrap();
    assert!(world.nodes[1].got(&alice, "Persist me"));

    world.reboot(1);
    let messages = world.nodes[1].get_messages(&alice);
    assert!(!messages.is_empty());
    assert_eq!(messages[0].content, "Persist me");
}

#[test]
fn test_chat_boundary_empty_message() {
    let mut world = World::talking();
    let (alice, bob) = (world.key(0), world.key(1));
    world.send_message(0, &bob, "").unwrap();
    assert!(world.nodes[1].got(&alice, ""));
}

#[test]
fn test_chat_boundary_max_message_size() {
    let mut world = World::talking();
    let (alice, bob) = (world.key(0), world.key(1));
    let large_message = "A".repeat(100000);
    world.send_message(0, &bob, &large_message).unwrap();
    assert!(world.nodes[1].got(&alice, &large_message));
}

#[test]
fn test_chat_boundary_missing_dh_key() {
    let mut world = World::new(1);
    world.nodes[0].generate_new_identity();
    world.start(0);

    let fake_pk = vec![0u8; 32];
    let res = world.initiate_chat_handshake(0, &fake_pk);
    assert!(res.is_err());
}

#[test]
fn test_chat_boundary_peer_offline_on_handshake() {
    let mut world = World::pair();
    world.start(0);
    let bob = world.key(1);
    world.inject_peer_address(0, &bob, 9999);

    let res = world.initiate_chat_handshake(0, &bob);
    assert!(res.is_err());
}

#[test]
fn test_chat_boundary_network_loss_during_session() {
    let mut world = World::talking();
    let bob = world.key(1);
    world.reboot(1);

    let res = world.send_message(0, &bob, "Offline yet?");
    assert!(res.is_err());
}

// --- Combinations ---

#[test]
fn test_cross_lifecycle_reboot_and_chat_restart() {
    let mut world = World::talking();
    let (alice, bob) = (world.key(0), world.key(1));
    world.send_message(0, &bob, "Before reboot").unwrap();
    assert!(world.nodes[1].got(&alice, "Before reboot"));

    world.reboot(0);
    world.start(0);
    world.reboot(1);
    world.start(1);

    world.connect_to(0, 1);
    world.connect_to(1, 0);

    world.send_message(0, &bob, "After reboot").unwrap();
    assert!(world.nodes[1].got(&alice, "After reboot"));
}

#[test]
fn test_cross_contact_deletion_mid_session() {
    let mut world = World::talking();
    let (alice, bob) = (world.key(0), world.key(1));
    world.send_message(0, &bob, "Hello Bob").unwrap();
    assert!(world.nodes[1].got(&alice, "Hello Bob"));

    world.nodes[0].delete_contact(&bob);

    world.send_message(1, &alice, "Hey Alice!").unwrap();
    assert!(!world.nodes[0].got(&bob, "Hey Alice!"));
}

#[test]
fn test_cross_concurrent_multi_peer_chats() {
    let mut world = World::new(3);
    let a_tok = world.nodes[0].generate_new_identity();
    let b_tok = world.nodes[1].generate_new_identity();
    let c_tok = world.nodes[2].generate_new_identity();

    world.nodes[0].add_contact_token(&b_tok, "Bob").unwrap();
    world.nodes[0].add_contact_token(&c_tok, "Charlie").unwrap();
    world.nodes[1].add_contact_token(&a_tok, "Alice").unwrap();
    world.nodes[2].add_contact_token(&a_tok, "Alice").unwrap();

    for node in 0..3 {
        world.start(node);
    }
    world.connect_to(0, 1);
    world.connect_to(0, 2);

    let (alice, bob, charlie) = (world.key(0), world.key(1), world.key(2));
    world.initiate_chat_handshake(0, &bob).unwrap();
    world.initiate_chat_handshake(0, &charlie).unwrap();
    assert!(world.nodes[0].met(&bob));
    assert!(world.nodes[0].met(&charlie));

    world.send_message(0, &bob, "Hello Bob").unwrap();
    world.send_message(0, &charlie, "Hello Charlie").unwrap();

    assert!(world.nodes[1].got(&alice, "Hello Bob"));
    assert!(world.nodes[2].got(&alice, "Hello Charlie"));
}

// --- Scenarios ---

#[test]
fn test_real_world_star_topology() {
    let mut world = World::new(4);
    let h_tok = world.nodes[0].generate_new_identity();
    for spoke in 1..4 {
        let token = world.nodes[spoke].generate_new_identity();
        world.nodes[0].add_contact_token(&token, &format!("S{}", spoke)).unwrap();
        world.nodes[spoke].add_contact_token(&h_tok, "Hub").unwrap();
    }
    for node in 0..4 {
        world.start(node);
    }
    let hub = world.key(0);
    for spoke in 1..4 {
        world.connect_to(spoke, 0);
        world.initiate_chat_handshake(spoke, &hub).unwrap();
    }
    for spoke in 1..4 {
        let key = world.key(spoke);
        assert!(world.nodes[0].met(&key));
    }

    world.send_message(1, &hub, "Hello Hub from S1").unwrap();
    world.send_message(2, &hub, "Hello Hub from S2").unwrap();
    world.send_message(3, &hub, "Hello Hub from S3").unwrap();

    let (spoke1, spoke2, spoke3) = (world.key(1), world.key(2), world.key(3));
    assert!(world.nodes[0].got(&spoke1, "Hello Hub from S1"));
    assert!(world.nodes[0].got(&spoke2, "Hello Hub from S2"));
    assert!(world.nodes[0].got(&spoke3, "Hello Hub from S3"));
}

#[test]
fn test_real_world_network_partition_recovery() {
    let mut world = World::talking();
    let (alice, bob) = (world.key(0), world.key(1));
    world.inject_peer_address(0, &bob, 9999);

    let res = world.send_message(0, &bob, "Partitioned");
    assert!(res.is_err());

    world.connect_to(0, 1);

    world.send_message(0, &bob, "Healed!").unwrap();
    assert!(world.nodes[1].got(&alice, "Healed!"));
}

#[test]
fn test_real_world_out_of_order_delivery() {
    let mut world = World::talking();
    let (alice, bob) = (world.key(0), world.key(1));

    let mut ratchet = read_session(&world.nodes[0].sessions[&bob]).unwrap();
    let alice_keys = derive_keys(&world.nodes[0].seed.unwrap());

    let msg1_id = "msg1".to_string();
    let (c1, n1, dh1, n1_val, pn1) = ratchet.encrypt(b"Message 1", msg1_id.as_bytes()).unwrap();
    let env1 = EncryptedEnvelope::sign_and_serialize(
        msg1_id,
        dh1,
        n1_val,
        pn1,
        c1,
        n1,
        &alice_keys.identity_key,
    )
    .unwrap();

    let msg2_id = "msg2".to_string();
    let (c2, n2, dh2, n2_val, pn2) = ratchet.encrypt(b"Message 2", msg2_id.as_bytes()).unwrap();
    let env2 = EncryptedEnvelope::sign_and_serialize(
        msg2_id,
        dh2,
        n2_val,
        pn2,
        c2,
        n2,
        &alice_keys.identity_key,
    )
    .unwrap();

    let msg3_id = "msg3".to_string();
    let (c3, n3, dh3, n3_val, pn3) = ratchet.encrypt(b"Message 3", msg3_id.as_bytes()).unwrap();
    let env3 = EncryptedEnvelope::sign_and_serialize(
        msg3_id,
        dh3,
        n3_val,
        pn3,
        c3,
        n3,
        &alice_keys.identity_key,
    )
    .unwrap();

    world.nodes[0].save_session(bob, &ratchet);

    world.send_raw_bytes(0, &bob, &env2).unwrap();
    assert!(world.nodes[1].got(&alice, "Message 2"));

    world.send_raw_bytes(0, &bob, &env3).unwrap();
    assert!(world.nodes[1].got(&alice, "Message 3"));

    world.send_raw_bytes(0, &bob, &env1).unwrap();
    assert!(world.nodes[1].got(&alice, "Message 1"));
}

#[test]
fn test_real_world_roaming_peer() {
    let mut world = World::talking();
    let (alice, bob) = (world.key(0), world.key(1));
    let before = world.get_network_port(1).unwrap();

    world.reboot(1);
    world.start(1);
    assert_ne!(world.get_network_port(1).unwrap(), before);

    world.connect_to(0, 1);

    world.send_message(0, &bob, "Where are you?").unwrap();
    assert!(world.nodes[1].got(&alice, "Where are you?"));
}

#[test]
fn test_real_world_malicious_handshake_replay() {
    let mut world = World::pair();
    world.start(0);
    world.start(1);
    world.connect_to(0, 1);

    let (alice, bob) = (world.key(0), world.key(1));
    let seed = world.nodes[0].seed;
    let (_, init) =
        begin_handshake(seed, &bob, &[0u8; 32]).unwrap_or_else(|_| panic!("begun"));
    let payload = WireMessage::Initiator(init).to_json();
    let bob_port = world.get_network_port(1).unwrap();

    let link = world.dial(0, bob_port, bob).unwrap();
    let response = world.deliver(link, 0, &payload).unwrap();
    assert!(matches!(read_wire(&response), Some(WireMessage::Responder(_))));

    // Whoever repeats the public message of the handshake cannot go on with it.
    let link = world.dial(0, bob_port, bob).unwrap();
    assert!(world.deliver(link, 0, &payload).is_some());
    let bad_envelope = WireMessage::Chat(EncryptedEnvelope {
        message_id: "fake".to_string(),
        peer_dh_pub: [0u8; 32],
        n: 0,
        pn: 0,
        ciphertext: vec![0u8; 32],
        nonce: [0u8; 12],
        signature: vec![0u8; 64],
    });
    let stored = world.nodes[1].sessions[&alice].clone();
    world.deliver(link, 0, &bad_envelope.to_json());

    let messages = world.nodes[1].get_messages(&alice);
    assert!(!messages.iter().any(|m| m.content == "fake"));
    assert!(messages.is_empty());
    assert_eq!(world.nodes[1].sessions[&alice], stored);
}

#[test]
fn messages_are_stored_on_both_sides() {
    let mut world = World::talking();
    let (alice, bob) = (world.key(0), world.key(1));
    let id = world.send_message(0, &bob, "Hello Bob!").unwrap();

    let sent = world.nodes[0].get_messages(&bob);
    assert_eq!(sent.len(), 1);
    assert_eq!(sent[0].id, id);
    assert_eq!(sent[0].sender, alice);
    assert_eq!(sent[0].recipient, bob);
    assert!(sent[0].is_read);

    let received = world.nodes[1].get_messages(&alice);
    assert_eq!(received.len(), 1);
    assert_eq!(received[0].id, id);
    assert_eq!(received[0].content, "Hello Bob!");
    assert!(!received[0].is_read);
}

#[test]
fn unknown_sender_opens_no_connection() {
    let mut world = World::talking();
    let bob = world.key(1);
    world.nodes[1].contacts.clear();
    world.reboot(1);
    world.start(1);
    world.connect_to(0, 1);
    world.send_message(0, &bob, "Who am I?").unwrap();
    assert!(world.nodes[1].received_messages.is_empty());
}

#[test]
fn conversation_goes_on_over_many_turns() {
    let mut world = World::talking();
    let (alice, bob) = (world.key(0), world.key(1));
    for round in 0..6 {
        let there = format!("there {}", round);
        let back = format!("back {}", round);
        world.send_message(0, &bob, &there).unwrap();
        assert!(world.nodes[1].got(&alice, &there));
        world.send_message(1, &alice, &back).unwrap();
        assert!(world.nodes[0].got(&bob, &back));
    }
}
