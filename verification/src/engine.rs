//! The engine's decisions: what each operation checks before it touches the
//! database or the network, and what it makes of what comes back.

use vstd::prelude::*;

use vstd::string::StringExecFns;

use crate::bytes::copied;
use crate::crypto::{derive_keys, dh_public_of, identity_of};
use crate::encoding::{trim, trimmed};
use crate::handshake::NewContact;
use crate::storage::{stored_key, MessageRecord};
use crate::token::{can_decode, checksum, parses, token_body, LoomToken, TokenError};

verus! {

/// What the engine tells its host. The host implements it.
pub trait LoomCallback: Send + Sync + 'static {
    fn on_peer_discovered(&self, peer_identity: Vec<u8>, ip: String, port: u16);

    fn on_message_received(
        &self,
        sender_identity: Vec<u8>,
        message_id: String,
        content: String,
        timestamp: i64,
    );

    fn on_session_established(&self, peer_identity: Vec<u8>);

    fn on_log(&self, level: String, message: String);
}

/// A contact as the host sees it.
pub struct ContactInfo {
    pub public_key: Vec<u8>,
    pub display_name: String,
}

/// A message as the host sees it.
pub struct UIMessage {
    pub id: String,
    pub sender: Vec<u8>,
    pub recipient: Vec<u8>,
    pub content: String,
    pub timestamp: i64,
    pub is_read: bool,
}

/// Why an operation of the engine failed.
#[derive(Debug)]
pub enum LoomError {
    DatabaseError { message: String },
    NetworkError { message: String },
    CryptoError { message: String },
    InvalidToken,
    NoIdentity,
}

impl LoomError {
    /// The text of an error.
    pub open spec fn text(self) -> Seq<char> {
        match self {
            LoomError::DatabaseError { message } => "Database error: "@ + message@,
            LoomError::NetworkError { message } => "Network error: "@ + message@,
            LoomError::CryptoError { message } => "Crypto error: "@ + message@,
            LoomError::InvalidToken => "Invalid token format"@,
            LoomError::NoIdentity => "No identity found"@,
        }
    }

    /// The text of an error.
    pub fn to_text(&self) -> (text: String)
        ensures
            text@ == self.text(),
    {
        match self {
            LoomError::DatabaseError { message } => "Database error: ".to_owned().concat(
                message.as_str(),
            ),
            LoomError::NetworkError { message } => "Network error: ".to_owned().concat(
                message.as_str(),
            ),
            LoomError::CryptoError { message } => "Crypto error: ".to_owned().concat(
                message.as_str(),
            ),
            LoomError::InvalidToken => "Invalid token format".to_owned(),
            LoomError::NoIdentity => "No identity found".to_owned(),
        }
    }

    /// A database error with this message.
    pub open spec fn is_database(self, message: Seq<char>) -> bool {
        self matches LoomError::DatabaseError { message: m } && m@ == message
    }

    /// A network error with this message.
    pub open spec fn is_network(self, message: Seq<char>) -> bool {
        self matches LoomError::NetworkError { message: m } && m@ == message
    }

    /// A cryptographic error with this message.
    pub open spec fn is_crypto(self, message: Seq<char>) -> bool {
        self matches LoomError::CryptoError { message: m } && m@ == message
    }
}

/// The text of the token of a master seed.
pub open spec fn token_text(seed: Seq<u8>) -> Seq<char> {
    let body = token_body(1, identity_of(seed), dh_public_of(seed));
    "LOOM-"@ + crate::encoding::base32_text(body.push(checksum(body)))
}

/// The text of the token of a master seed.
pub fn token_of_seed(seed: &[u8; 32]) -> (token: String)
    ensures
        token@ == token_text(seed@),
{
    let keys = derive_keys(seed);
    LoomToken::new(keys.identity_public(), keys.dh_public).to_string()
}

/// The message that the host sees of a stored one.
pub open spec fn shows(message: UIMessage, record: MessageRecord) -> bool {
    &&& message.id@ == record.id@
    &&& message.sender@ == record.sender_key@
    &&& message.recipient@ == record.recipient_key@
    &&& message.content@ == record.content@
    &&& message.timestamp == record.timestamp
    &&& message.is_read == record.is_read
}

/// Passes on what the database returned, its error as an error of the engine.
pub fn from_database<T>(stored: Result<T, String>) -> (passed: Result<T, LoomError>)
    ensures
        match stored {
            Ok(value) => passed == Ok::<T, LoomError>(value),
            Err(message) => passed matches Err(error) && error.is_database(message@),
        },
{
    match stored {
        Ok(value) => Ok(value),
        Err(message) => Err(LoomError::DatabaseError { message }),
    }
}

/// A contact's key; anything but 32 bytes is refused with the given message.
fn checked_key(key: &[u8], refusal: &str) -> (checked: Result<[u8; 32], LoomError>)
    ensures
        match checked {
            Ok(array) => array@ == key@,
            Err(error) => key@.len() != 32 && error.is_crypto(refusal@),
        },
{
    if key.len() != 32 {
        Err(LoomError::CryptoError { message: refusal.to_owned() })
    } else {
        Ok(stored_key(key))
    }
}

/// Whether the engine is on the network.
pub struct LoomEngine {
    network_started: bool,
}

impl LoomEngine {
    /// Whether the network has been started.
    pub closed spec fn started(self) -> bool {
        self.network_started
    }

    /// A new engine, off the network. The path of its database may not be blank.
    pub fn new(db_path: &str) -> (engine: Result<Self, LoomError>)
        ensures
            match engine {
                Ok(engine) => trimmed(db_path@).len() > 0 && !engine.started(),
                Err(error) => {
                    &&& trimmed(db_path@).len() == 0
                    &&& error.is_database("Database path cannot be empty"@)
                },
            },
    {
        if trim(db_path).is_empty() {
            Err(
                LoomError::DatabaseError { message: "Database path cannot be empty".to_owned() },
            )
        } else {
            Ok(LoomEngine { network_started: false })
        }
    }

    /// Whether there is an identity, by what the database has of its seed.
    pub fn has_identity(seed: Result<Option<[u8; 32]>, String>) -> (found: Result<bool, LoomError>)
        ensures
            match seed {
                Ok(seed) => found == Ok::<bool, LoomError>(seed is Some),
                Err(message) => found matches Err(error) && error.is_database(message@),
            },
    {
        match seed {
            Ok(seed) => Ok(seed.is_some()),
            Err(message) => Err(LoomError::DatabaseError { message }),
        }
    }

    /// The token of a new identity, once its seed has been stored.
    pub fn generate_new_identity(seed: &[u8; 32], stored: Result<(), String>) -> (token: Result<
        String,
        LoomError,
    >)
        ensures
            match stored {
                Ok(()) => token matches Ok(text) && text@ == token_text(seed@),
                Err(message) => token matches Err(error) && error.is_database(message@),
            },
    {
        match stored {
            Ok(()) => Ok(token_of_seed(seed)),
            Err(message) => Err(LoomError::DatabaseError { message }),
        }
    }

    /// The token of the identity, by what the database has of its seed.
    pub fn get_my_token(seed: Result<Option<[u8; 32]>, String>) -> (token: Result<
        String,
        LoomError,
    >)
        ensures
            match seed {
                Ok(Some(seed)) => token matches Ok(text) && text@ == token_text(seed@),
                Ok(None) => token == Err::<String, LoomError>(LoomError::NoIdentity),
                Err(message) => token matches Err(error) && error.is_database(message@),
            },
    {
        match seed {
            Ok(Some(seed)) => Ok(token_of_seed(&seed)),
            Ok(None) => Err(LoomError::NoIdentity),
            Err(message) => Err(LoomError::DatabaseError { message }),
        }
    }

    /// The contact to store for a token; `None` where the text is too long to be
    /// decoded.
    pub fn add_contact_token(token_str: &str, display_name: String) -> (contact: Option<
        Result<NewContact, LoomError>,
    >)
        ensures
            match contact {
                Some(contact) => {
                    &&& can_decode(token_str@)
                    &&& exists|read: Result<LoomToken, TokenError>| #[trigger]
                        parses(token_str@, read) && match read {
                            Ok(token) => {
                                &&& contact matches Ok(stored)
                                &&& stored.public_key == token.identity_key
                                &&& stored.dh_key == token.dh_key
                                &&& stored.display_name@ == display_name@
                            },
                            Err(_) => contact == Err::<NewContact, LoomError>(
                                LoomError::InvalidToken,
                            ),
                        }
                },
                None => !can_decode(token_str@),
            },
    {
        match LoomToken::try_parse(token_str) {
            Some(Ok(token)) => {
                let contact = NewContact {
                    public_key: token.identity_key,
                    dh_key: token.dh_key,
                    display_name,
                };
                assert(parses(token_str@, Ok(token)));
                Some(Ok(contact))
            },
            Some(Err(error)) => {
                assert(parses(token_str@, Err(error)));
                Some(Err(LoomError::InvalidToken))
            },
            None => None,
        }
    }

    /// The contacts as the host sees them, in the order of the database.
    pub fn get_contacts(rows: Result<Vec<(Vec<u8>, String)>, String>) -> (contacts: Result<
        Vec<ContactInfo>,
        LoomError,
    >)
        ensures
            match rows {
                Ok(rows) => {
                    &&& contacts matches Ok(listed)
                    &&& listed@.len() == rows@.len()
                    &&& forall|i: int|
                        0 <= i < rows@.len() ==> (#[trigger] listed@[i]).public_key@ == rows@[i].0@
                            && listed@[i].display_name@ == rows@[i].1@
                },
                Err(message) => contacts matches Err(error) && error.is_database(message@),
            },
    {
        let rows = match rows {
            Ok(rows) => rows,
            Err(message) => {
                return Err(LoomError::DatabaseError { message });
            },
        };
        let mut listed: Vec<ContactInfo> = Vec::new();
        let mut i: usize = 0;
        while i < rows.len()
            invariant
                i <= rows@.len(),
                listed@.len() == i,
                forall|j: int|
                    0 <= j < i ==> (#[trigger] listed@[j]).public_key@ == rows@[j].0@
                        && listed@[j].display_name@ == rows@[j].1@,
            decreases rows@.len() - i,
        {
            listed.push(
                ContactInfo {
                    public_key: copied(&rows[i].0),
                    display_name: rows[i].1.clone(),
                },
            );
            i = i + 1;
        }
        Ok(listed)
    }

    /// Notes that the network was started, or passes on why it was not.
    pub fn start_network(&mut self, bound: Result<(), String>) -> (started: Result<(), LoomError>)
        ensures
            match bound {
                Ok(()) => started is Ok && final(self).started(),
                Err(message) => {
                    &&& started matches Err(error)
                    &&& error.is_network(message@)
                    &&& final(self).started() == old(self).started()
                },
            },
    {
        match bound {
            Ok(()) => {
                self.network_started = true;
                Ok(())
            },
            Err(message) => Err(LoomError::NetworkError { message }),
        }
    }

    /// Refuses where the network has not been started.
    fn on_network(&self) -> (ready: Result<(), LoomError>)
        ensures
            match ready {
                Ok(()) => self.started(),
                Err(error) => !self.started() && error.is_network("Network not started"@),
            },
    {
        if self.network_started {
            Ok(())
        } else {
            Err(LoomError::NetworkError { message: "Network not started".to_owned() })
        }
    }

    /// The identity to start a handshake with.
    pub fn initiate_chat_handshake(&self, contact_pub_key: &[u8]) -> (peer: Result<
        [u8; 32],
        LoomError,
    >)
        ensures
            match peer {
                Ok(key) => self.started() && key@ == contact_pub_key@,
                Err(error) => if !self.started() {
                    error.is_network("Network not started"@)
                } else {
                    &&& contact_pub_key@.len() != 32
                    &&& error.is_crypto("Invalid contact public key size"@)
                },
            },
    {
        match self.on_network() {
            Ok(()) => checked_key(contact_pub_key, "Invalid contact public key size"),
            Err(error) => Err(error),
        }
    }

    /// The Diffie-Hellman key to start a handshake with, by what the database has
    /// of the contact.
    pub fn handshake_dh_key(found: Result<Option<[u8; 32]>, String>) -> (key: Result<
        [u8; 32],
        LoomError,
    >)
        ensures
            match found {
                Ok(Some(stored)) => key == Ok::<[u8; 32], LoomError>(stored),
                Ok(None) => key matches Err(error) && error.is_crypto("Contact DH key not found"@),
                Err(message) => key matches Err(error) && error.is_database(message@),
            },
    {
        match found {
            Ok(Some(stored)) => Ok(stored),
            Ok(None) => Err(
                LoomError::CryptoError { message: "Contact DH key not found".to_owned() },
            ),
            Err(message) => Err(LoomError::DatabaseError { message }),
        }
    }

    /// The identity to send a message to.
    pub fn send_message(&self, contact_pub_key: &[u8]) -> (peer: Result<[u8; 32], LoomError>)
        ensures
            match peer {
                Ok(key) => self.started() && key@ == contact_pub_key@,
                Err(error) => if !self.started() {
                    error.is_network("Network not started"@)
                } else {
                    &&& contact_pub_key@.len() != 32
                    &&& error.is_crypto("Invalid public key length"@)
                },
            },
    {
        match self.on_network() {
            Ok(()) => checked_key(contact_pub_key, "Invalid public key length"),
            Err(error) => Err(error),
        }
    }

    /// The identity whose messages are asked for.
    pub fn get_messages(contact_pub_key: &[u8]) -> (peer: Result<[u8; 32], LoomError>)
        ensures
            match peer {
                Ok(key) => key@ == contact_pub_key@,
                Err(error) => {
                    &&& contact_pub_key@.len() != 32
                    &&& error.is_crypto("Invalid public key length"@)
                },
            },
    {
        checked_key(contact_pub_key, "Invalid public key length")
    }

    /// The messages as the host sees them, in the order of the database.
    pub fn list_messages(records: Result<Vec<MessageRecord>, String>) -> (messages: Result<
        Vec<UIMessage>,
        LoomError,
    >)
        ensures
            match records {
                Ok(records) => {
                    &&& messages matches Ok(listed)
                    &&& listed@.len() == records@.len()
                    &&& forall|i: int|
                        0 <= i < records@.len() ==> shows(#[trigger] listed@[i], records@[i])
                    &&& forall|i: int|
                        0 <= i < records@.len() ==> {
                            &&& (#[trigger] listed@[i]).id@ == records@[i].id@
                            &&& listed@[i].sender@ == records@[i].sender_key@
                            &&& listed@[i].recipient@ == records@[i].recipient_key@
                            &&& listed@[i].content@ == records@[i].content@
                            &&& listed@[i].timestamp == records@[i].timestamp
                            &&& listed@[i].is_read == records@[i].is_read
                        }
                },
                Err(message) => messages matches Err(error) && error.is_database(message@),
            },
    {
        let records = match records {
            Ok(records) => records,
            Err(message) => {
                return Err(LoomError::DatabaseError { message });
            },
        };
        let mut listed: Vec<UIMessage> = Vec::new();
        let mut i: usize = 0;
        while i < records.len()
            invariant
                i <= records@.len(),
                listed@.len() == i,
                forall|j: int| 0 <= j < i ==> shows(#[trigger] listed@[j], records@[j]),
            decreases records@.len() - i,
        {
            let record = &records[i];
            listed.push(
                UIMessage {
                    id: record.id.clone(),
                    sender: copied(&record.sender_key),
                    recipient: copied(&record.recipient_key),
                    content: record.content.clone(),
                    timestamp: record.timestamp,
                    is_read: record.is_read,
                },
            );
            i = i + 1;
        }
        Ok(listed)
    }

    /// The port that the network listens on.
    pub fn get_network_port(&self, local_port: u16) -> (port: Result<u16, LoomError>)
        ensures
            match port {
                Ok(port) => self.started() && port == local_port,
                Err(error) => !self.started() && error.is_network("Network not started"@),
            },
    {
        match self.on_network() {
            Ok(()) => Ok(local_port),
            Err(error) => Err(error),
        }
    }

    /// The address to set for a peer by hand, if its text could be read.
    pub fn inject_peer_address<A>(
        &self,
        peer_pub_key: &[u8],
        address: Result<A, String>,
    ) -> (checked: Result<A, LoomError>)
        ensures
            match checked {
                Ok(accepted) => {
                    &&& self.started()
                    &&& peer_pub_key@.len() == 32
                    &&& address == Ok::<A, String>(accepted)
                },
                Err(error) => if !self.started() {
                    error.is_network("Network not started"@)
                } else if peer_pub_key@.len() != 32 {
                    error.is_crypto("Invalid public key length"@)
                } else {
                    address matches Err(message) && error.is_network(message@)
                },
            },
    {
        match self.send_message(peer_pub_key) {
            Ok(_) => match address {
                Ok(accepted) => Ok(accepted),
                Err(message) => Err(LoomError::NetworkError { message }),
            },
            Err(error) => Err(error),
        }
    }

    /// The identity to delete from the contacts.
    pub fn delete_contact(contact_pub_key: &[u8]) -> (peer: Result<[u8; 32], LoomError>)
        ensures
            match peer {
                Ok(key) => key@ == contact_pub_key@,
                Err(error) => {
                    &&& contact_pub_key@.len() != 32
                    &&& error.is_crypto("Invalid public key length"@)
                },
            },
    {
        checked_key(contact_pub_key, "Invalid public key length")
    }

    /// The connection to write raw bytes to.
    pub fn send_raw_bytes<C>(&self, connection: Option<C>) -> (checked: Result<C, LoomError>)
        ensures
            match checked {
                Ok(open) => self.started() && connection == Some(open),
                Err(error) => if !self.started() {
                    error.is_network("Network not started"@)
                } else {
                    connection is None && error.is_network("No active connection"@)
                },
            },
    {
        match self.on_network() {
            Ok(()) => match connection {
                Some(open) => Ok(open),
                None => Err(
                    LoomError::NetworkError { message: "No active connection".to_owned() },
                ),
            },
            Err(error) => Err(error),
        }
    }
}

/// The token of an identity gives a contact with the identity's keys.
pub proof fn law_own_token_makes_the_contact(
    seed: [u8; 32],
    token: LoomToken,
    read: Result<LoomToken, TokenError>,
)
    requires
        token.version == 1,
        token.identity_key@ == identity_of(seed@),
        token.dh_key@ == dh_public_of(seed@),
        parses(token_text(seed@), read),
    ensures
        read matches Ok(parsed) && parsed.identity_key@ == identity_of(seed@) && parsed.dh_key@
            == dh_public_of(seed@),
{
    crate::token::law_token_text_spells(token);
    let none = Seq::<char>::empty();
    let code = token.text().skip(5);
    assert(none + "LOOM-"@ + code + none =~= token_text(seed@));
    crate::token::law_token_is_read_back(token, none, code, none, read);
}

} // verus!
