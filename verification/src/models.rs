//! The rows of the database, and what is written to it.

use vstd::prelude::*;

verus! {

/// A transaction of the homeserver that was taken in.
#[derive(Debug)]
pub struct PutRequest {
    pub id: String,
}

/// Someone on the telephone network who has a room.
#[derive(Debug)]
pub struct Recipient {
    pub id: i32,
    pub phone_number: String,
    pub user_id: String,
    pub room_id: String,
}

/// What a `Recipient` holds.
pub struct RecipientView {
    pub id: i32,
    pub phone_number: Seq<char>,
    pub user_id: Seq<char>,
    pub room_id: Seq<char>,
}

impl View for Recipient {
    type V = RecipientView;

    open spec fn view(&self) -> RecipientView {
        RecipientView {
            id: self.id,
            phone_number: self.phone_number@,
            user_id: self.user_id@,
            room_id: self.room_id@,
        }
    }
}

/// A received message that has not been delivered yet.
#[derive(Debug)]
pub struct Message {
    pub id: i32,
    pub recipient_id: Option<i32>,
    pub pdu: Vec<u8>,
    pub processing: bool,
    pub failures: i32,
}

/// What a `Message` holds.
pub struct MessageView {
    pub id: i32,
    pub recipient_id: Option<i32>,
    pub pdu: Seq<u8>,
    pub processing: bool,
    pub failures: i32,
}

impl View for Message {
    type V = MessageView;

    open spec fn view(&self) -> MessageView {
        MessageView {
            id: self.id,
            recipient_id: self.recipient_id,
            pdu: self.pdu@,
            processing: self.processing,
            failures: self.failures,
        }
    }
}

/// The contents of several messages.
pub open spec fn messages_view(messages: Seq<Message>) -> Seq<MessageView> {
    Seq::new(messages.len(), |i: int| messages[i]@)
}

/// A message to be stored.
#[derive(Debug)]
pub struct NewMessage<'a> {
    pub recipient_id: Option<i32>,
    pub pdu: &'a [u8],
}

/// A recipient to be stored.
#[derive(Debug)]
pub struct NewRecipient<'a> {
    pub phone_number: &'a str,
    pub user_id: &'a str,
    pub room_id: &'a str,
}

/// Rows are taken in the order in which they stand.
pub proof fn law_rows_stand_in_order(items: Seq<Message>, i: int)
    requires
        0 <= i < items.len(),
    ensures
        messages_view(items).len() == items.len(),
        messages_view(items)[i] == items[i]@,
{
}

} // verus!
