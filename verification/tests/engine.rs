use loom::handshake::NetworkError;
use loom::network::{
    advertisement, connection_closed_line, frame_header, frame_length, peer_key_of_service,
    NetworkManager, SendAction, SendEvent, SendState, SERVICE_TYPE,
};
use loom::profile::{db_filename_of, profile_of_args};
use loom::storage::{flag_to_number, stored_key, MessageRecord};
use loom::{LoomEngine, LoomError};

fn engine() -> LoomEngine {
    LoomEngine::new("loom.db").unwrap_or_else(|_| panic!("a path"))
}

fn text_of<T>(result: Result<T, LoomError>) -> String {
    match result {
        Ok(_) => panic!("an error was expected"),
        Err(error) => error.to_text(),
    }
}

fn words(args: &[&str]) -> Vec<String> {
    args.iter().map(|arg| arg.to_string()).collect()
}

// --- Engine ---

#[test]
fn database_path_is_not_blank() {
    assert_eq!(
        text_of(LoomEngine::new(" \t\u{2003}\n")),
        "Database error: Database path cannot be empty"
    );
    assert!(LoomEngine::new(" x ").is_ok());
}

#[test]
fn identity_is_what_the_database_has() {
    assert_eq!(LoomEngine::has_identity(Ok(None)).unwrap(), false);
    assert_eq!(LoomEngine::has_identity(Ok(Some([1u8; 32]))).unwrap(), true);
    assert_eq!(
        text_of(LoomEngine::has_identity(Err("locked".to_string()))),
        "Database error: locked"
    );
    assert_eq!(
        text_of(LoomEngine::get_my_token(Ok(None))),
        "No identity found"
    );
    assert_eq!(
        text_of(LoomEngine::get_my_token(Err("locked".to_string()))),
        "Database error: locked"
    );
    assert_eq!(
        text_of(LoomEngine::generate_new_identity(
            &[1u8; 32],
            Err("full".to_string())
        )),
        "Database error: full"
    );
    assert_eq!(
        LoomEngine::get_my_token(Ok(Some([1u8; 32]))).unwrap(),
        LoomEngine::generate_new_identity(&[1u8; 32], Ok(())).unwrap()
    );
}

#[test]
fn contact_comes_from_a_token() {
    let token = LoomEngine::generate_new_identity(&[1u8; 32], Ok(())).unwrap();
    let contact = LoomEngine::add_contact_token(&token, "Bob".to_string())
        .unwrap()
        .unwrap_or_else(|_| panic!("a token"));
    assert_eq!(contact.display_name, "Bob");
    let keys = loom::crypto::derive_keys(&[1u8; 32]);
    assert_eq!(contact.public_key, keys.identity_public());
    assert_eq!(contact.dh_key, keys.dh_public);
    assert_eq!(
        text_of(LoomEngine::add_contact_token("LOOM-A", "Bob".to_string()).unwrap()),
        "Invalid token format"
    );
}

#[test]
fn network_comes_first() {
    let engine = engine();
    let off = "Network error: Network not started";
    assert_eq!(text_of(engine.initiate_chat_handshake(&[0u8; 3])), off);
    assert_eq!(text_of(engine.send_message(&[0u8; 3])), off);
    assert_eq!(text_of(engine.get_network_port(0)), off);
    assert_eq!(
        text_of(engine.inject_peer_address::<u8>(&[0u8; 3], Err("bad".to_string()))),
        off
    );
    assert_eq!(text_of(engine.send_raw_bytes::<u8>(None)), off);
}

#[test]
fn network_may_fail_to_start() {
    let mut engine = engine();
    assert_eq!(
        text_of(engine.start_network(Err("in use".to_string()))),
        "Network error: in use"
    );
    assert!(engine.get_network_port(1).is_err());
    assert!(engine.start_network(Ok(())).is_ok());
    assert_eq!(engine.get_network_port(1).unwrap(), 1);
    assert!(engine.start_network(Err("in use".to_string())).is_err());
    assert_eq!(engine.get_network_port(1).unwrap(), 1);
}

#[test]
fn keys_have_their_length() {
    let mut engine = engine();
    engine.start_network(Ok(())).unwrap();
    assert_eq!(
        text_of(engine.initiate_chat_handshake(&[0u8; 31])),
        "Crypto error: Invalid contact public key size"
    );
    let short = "Crypto error: Invalid public key length";
    assert_eq!(text_of(engine.send_message(&[0u8; 33])), short);
    assert_eq!(text_of(LoomEngine::get_messages(&[])), short);
    assert_eq!(text_of(LoomEngine::delete_contact(&[0u8; 31])), short);
    assert_eq!(
        text_of(engine.inject_peer_address::<u8>(&[0u8; 3], Err("bad".to_string()))),
        short
    );
    assert_eq!(
        text_of(engine.inject_peer_address::<u8>(&[0u8; 32], Err("bad".to_string()))),
        "Network error: bad"
    );
    assert_eq!(engine.inject_peer_address(&[0u8; 32], Ok(7u8)).unwrap(), 7);
    assert_eq!(engine.send_message(&[5u8; 32]).unwrap(), [5u8; 32]);
    assert_eq!(engine.initiate_chat_handshake(&[5u8; 32]).unwrap(), [5u8; 32]);
    assert_eq!(LoomEngine::get_messages(&[5u8; 32]).unwrap(), [5u8; 32]);
    assert_eq!(LoomEngine::delete_contact(&[5u8; 32]).unwrap(), [5u8; 32]);
}

#[test]
fn handshake_needs_a_stored_key() {
    assert_eq!(
        text_of(LoomEngine::handshake_dh_key(Ok(None))),
        "Crypto error: Contact DH key not found"
    );
    assert_eq!(
        text_of(LoomEngine::handshake_dh_key(Err("locked".to_string()))),
        "Database error: locked"
    );
    assert_eq!(
        LoomEngine::handshake_dh_key(Ok(Some([3u8; 32]))).unwrap(),
        [3u8; 32]
    );
}

#[test]
fn raw_bytes_need_a_connection() {
    let mut engine = engine();
    engine.start_network(Ok(())).unwrap();
    assert_eq!(
        text_of(engine.send_raw_bytes::<u8>(None)),
        "Network error: No active connection"
    );
    assert_eq!(engine.send_raw_bytes(Some(4u8)).unwrap(), 4);
}

#[test]
fn rows_keep_their_order() {
    let rows = vec![
        (vec![2u8], "b".to_string()),
        (vec![1u8], "a".to_string()),
    ];
    let contacts = LoomEngine::get_contacts(Ok(rows)).unwrap();
    assert_eq!(contacts.len(), 2);
    assert_eq!(contacts[0].public_key, vec![2u8]);
    assert_eq!(contacts[0].display_name, "b");
    assert_eq!(contacts[1].display_name, "a");
    assert_eq!(
        text_of(LoomEngine::get_contacts(Err("locked".to_string()))),
        "Database error: locked"
    );
    assert_eq!(
        text_of(LoomEngine::list_messages(Err("locked".to_string()))),
        "Database error: locked"
    );
    let record = MessageRecord::from_row(
        "id".to_string(),
        &[1u8; 32],
        &[2u8; 32],
        &[3u8; 32],
        "text".to_string(),
        -5,
        2,
    );
    assert_eq!(record.peer_key, [1u8; 32]);
    let messages = LoomEngine::list_messages(Ok(vec![record])).unwrap();
    assert_eq!(messages[0].id, "id");
    assert_eq!(messages[0].sender, vec![2u8; 32]);
    assert_eq!(messages[0].recipient, vec![3u8; 32]);
    assert_eq!(messages[0].content, "text");
    assert_eq!(messages[0].timestamp, -5);
    assert!(messages[0].is_read);
}

#[test]
fn flags_are_stored_as_numbers() {
    assert_eq!(flag_to_number(true), 1);
    assert_eq!(flag_to_number(false), 0);
    assert_eq!(stored_key(&[9u8; 32]), [9u8; 32]);
    assert_eq!(loom::engine::from_database::<u8>(Ok(3)).unwrap(), 3);
}

// --- Network ---

#[test]
fn frames_announce_their_length() {
    assert_eq!(frame_header(0), [0, 0, 0, 0]);
    assert_eq!(frame_header(300), [0, 0, 1, 44]);
    assert_eq!(frame_header(0x01020304), [1, 2, 3, 4]);
    assert_eq!(frame_header(0x1_0000_0005), [0, 0, 0, 5]);
    for length in [0usize, 1, 255, 256, 65535, 65536, 0xffff_ffff] {
        assert_eq!(frame_length(&frame_header(length)), length);
    }
}

#[test]
fn identity_is_announced() {
    assert!(advertisement(None).is_none());
    let names = advertisement(Some([1u8; 32])).unwrap_or_else(|| panic!("an identity"));
    let hex = "1b0d379b59a69fe44035213437cb3f624efb15f284df54f6af2a5312631a3316";
    assert_eq!(names.instance_name, format!("loom-{}", hex));
    assert_eq!(names.host_name, format!("loom-{}.local.", hex));
    assert_eq!(SERVICE_TYPE, "_loom._tcp.local.");
    let found = peer_key_of_service(&format!("{}.{}", names.instance_name, SERVICE_TYPE));
    assert_eq!(found, Some(hex::decode(hex).unwrap()));
}

#[test]
fn service_names_without_a_key_are_passed_over() {
    assert_eq!(peer_key_of_service("loom-0AfF-rest.more-parts"), Some(vec![0x0a, 0xff]));
    assert_eq!(peer_key_of_service("loom-.local"), Some(Vec::new()));
    assert_eq!(peer_key_of_service("loom"), None);
    assert_eq!(peer_key_of_service(""), None);
    assert_eq!(peer_key_of_service("other-0aff"), None);
    assert_eq!(peer_key_of_service("-0aff"), None);
    assert_eq!(peer_key_of_service("loom-0af"), None);
    assert_eq!(peer_key_of_service("loom-0axx"), None);
    assert_eq!(peer_key_of_service("x.loom-0aff"), None);
}

#[test]
fn closed_connections_are_logged() {
    assert_eq!(
        connection_closed_line(&[0x0fu8; 32]),
        format!("Connection closed for peer {}", "0f".repeat(32))
    );
}

#[test]
fn peers_and_connections_are_kept_apart() {
    let mut network: NetworkManager<u16, &str> = NetworkManager::new();
    assert_eq!(network.get_port(), 0);
    network.set_port(4000);
    assert_eq!(network.get_port(), 4000);
    assert!(network.address(&[1u8; 32]).is_none());
    network.peer_found(vec![1u8; 32], 1);
    network.peer_found(vec![1u8; 32], 2);
    network.peer_found(vec![2u8; 32], 3);
    assert_eq!(network.address(&[1u8; 32]), Some(&2));
    assert_eq!(network.address(&[2u8; 32]), Some(&3));
    network.connection_opened(vec![1u8; 32], "open");
    assert_eq!(network.connection(&[1u8; 32]), Some(&"open"));
    assert!(network.connection(&[2u8; 32]).is_none());
    network.connection_closed(&[1u8; 32]);
    assert!(network.connection(&[1u8; 32]).is_none());
    assert_eq!(network.handshake_address(&[2u8; 32]).ok(), Some(&3));
    assert!(matches!(
        network.handshake_address(&[3u8; 32]),
        Err(NetworkError::PeerOffline)
    ));
}

#[test]
fn injected_address_drops_the_connection() {
    let mut network: NetworkManager<u16, u8> = NetworkManager::new();
    network.connection_opened(vec![1u8; 32], 9);
    network.inject_peer_address(vec![1u8; 32], 77);
    assert!(network.connection(&[1u8; 32]).is_none());
    assert_eq!(network.address(&[1u8; 32]), Some(&77));
    assert_eq!(
        network.send_next(&[1u8; 32], SendState::Idle, SendEvent::Start),
        (SendState::Dialing { again: false }, SendAction::Connect)
    );
}

#[test]
fn message_is_tried_once_more() {
    let peer = [1u8; 32];
    let mut network: NetworkManager<u16, u8> = NetworkManager::new();
    network.peer_found(peer.to_vec(), 77);
    network.connection_opened(peer.to_vec(), 1);
    let (state, action) = network.send_next(&peer, SendState::Idle, SendEvent::Start);
    assert_eq!(action, SendAction::Write);
    let (state, action) = network.send_next(&peer, state, SendEvent::Failed);
    assert_eq!(action, SendAction::Connect);
    assert!(network.connection(&peer).is_none());
    let (state, action) = network.send_next(&peer, state, SendEvent::Connected(2));
    assert_eq!(action, SendAction::Write);
    assert_eq!(network.connection(&peer), Some(&2));
    let (state, action) = network.send_next(&peer, state, SendEvent::Failed);
    assert_eq!((state, action), (SendState::Finished, SendAction::GiveUp));
    assert_eq!(network.connection(&peer), Some(&2));
}

#[test]
fn message_is_sent_over_a_new_connection() {
    let peer = [1u8; 32];
    let mut network: NetworkManager<u16, u8> = NetworkManager::new();
    network.peer_found(peer.to_vec(), 77);
    let (state, action) = network.send_next(&peer, SendState::Idle, SendEvent::Start);
    assert_eq!(action, SendAction::Connect);
    let (state, action) = network.send_next(&peer, state, SendEvent::Connected(2));
    assert_eq!(action, SendAction::Write);
    assert_eq!(
        network.send_next(&peer, state, SendEvent::Written),
        (SendState::Finished, SendAction::Done)
    );
}

#[test]
fn sending_gives_up() {
    let peer = [1u8; 32];
    let mut network: NetworkManager<u16, u8> = NetworkManager::new();
    assert_eq!(
        network.send_next(&peer, SendState::Idle, SendEvent::Start),
        (SendState::Finished, SendAction::Offline)
    );
    assert_eq!(
        network.send_next(&peer, SendState::Dialing { again: false }, SendEvent::Failed),
        (SendState::Finished, SendAction::GiveUp)
    );
    network.connection_opened(peer.to_vec(), 1);
    assert_eq!(
        network.send_next(&peer, SendState::Writing { again: false }, SendEvent::Failed),
        (SendState::Finished, SendAction::Offline)
    );
}

// --- Profiles ---

#[test]
fn last_profile_counts() {
    assert_eq!(profile_of_args(&words(&["loom"])), None);
    assert_eq!(profile_of_args(&words(&["loom", "--profile"])), None);
    assert_eq!(
        profile_of_args(&words(&["loom", "-p", "a", "--profile", "b"])),
        Some("b".to_string())
    );
    assert_eq!(
        profile_of_args(&words(&["loom", "-p", "--profile", "b"])),
        Some("b".to_string())
    );
    assert_eq!(
        profile_of_args(&words(&["loom", "-p", "-p"])),
        Some("-p".to_string())
    );
}

#[test]
fn profile_names_its_database() {
    assert_eq!(db_filename_of(&None), "loom.db");
    assert_eq!(
        db_filename_of(&Some("Work2".to_string())),
        "loom_Work2.db"
    );
    assert_eq!(
        db_filename_of(&Some("../\u{e9} x".to_string())),
        "loom______x.db"
    );
    assert_eq!(db_filename_of(&Some(String::new())), "loom_.db");
}
