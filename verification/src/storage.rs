//! What is stored of a conversation, and how rows of the database become records.

use vstd::prelude::*;

use crate::bytes::array32;

verus! {

/// A message as it is stored.
pub struct MessageRecord {
    pub id: String,
    pub peer_key: [u8; 32],
    pub sender_key: [u8; 32],
    pub recipient_key: [u8; 32],
    pub content: String,
    pub timestamp: i64,
    pub is_read: bool,
}

/// The number that stands for a flag in the database.
pub open spec fn flag_number(flag: bool) -> i32 {
    if flag {
        1
    } else {
        0
    }
}

/// The number that stands for a flag in the database.
pub fn flag_to_number(flag: bool) -> (number: i32)
    ensures
        number == flag_number(flag),
{
    if flag {
        1
    } else {
        0
    }
}

/// A stored key; keys have 32 bytes.
pub fn stored_key(bytes: &[u8]) -> (key: [u8; 32])
    requires
        bytes@.len() == 32,
    ensures
        key@ == bytes@,
{
    assert(bytes@.subrange(0, 32) =~= bytes@);
    array32(bytes, 0)
}

impl MessageRecord {
    /// The record of a row of the message table. A flag other than zero means
    /// that the message was read.
    pub fn from_row(
        id: String,
        peer_key: &[u8],
        sender_key: &[u8],
        recipient_key: &[u8],
        content: String,
        timestamp: i64,
        is_read: i32,
    ) -> (record: Self)
        requires
            peer_key@.len() == 32,
            sender_key@.len() == 32,
            recipient_key@.len() == 32,
        ensures
            record.id@ == id@,
            record.peer_key@ == peer_key@,
            record.sender_key@ == sender_key@,
            record.recipient_key@ == recipient_key@,
            record.content@ == content@,
            record.timestamp == timestamp,
            record.is_read == (is_read != 0),
    {
        MessageRecord {
            id,
            peer_key: stored_key(peer_key),
            sender_key: stored_key(sender_key),
            recipient_key: stored_key(recipient_key),
            content,
            timestamp,
            is_read: is_read != 0,
        }
    }
}

/// The flag of a stored message is read back as it was written.
pub proof fn law_flag_is_read_back(flag: bool)
    ensures
        (flag_number(flag) != 0) == flag,
{
}

} // verus!
