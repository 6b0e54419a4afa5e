//! What is asked of the database, and what it answers.

use vstd::prelude::*;

use crate::models::{
    messages_view, Message, MessageView, Recipient, RecipientView,
};

verus! {

/// One operation on the database.
pub enum StoreRequest {
    /// Stores a message that is neither being processed nor failed, and gives its row back.
    CreateMessage { recipient_id: Option<i32>, pdu: Vec<u8> },
    /// Stores a recipient, and gives its row back.
    CreateRecipient { phone_number: String, user_id: String, room_id: String },
    /// Gives the messages with these identifiers to a recipient.
    SetRecipientForMessages { recipient: i32, messages: Vec<i32> },
    /// Looks for the recipient with this phone number in stored form.
    GetRecipientForAddress { phone_number: String },
    /// Looks for the recipient who has this room.
    GetRecipientForRoom { room_id: String },
    /// Lists a recipient's identifier for each of their messages that is not being processed.
    GetRecipientsWithMessages,
    /// Lists the messages that no recipient has.
    GetOrphanedMessages,
    /// Lists the messages that a recipient has.
    GetMessagesForRecipient { recipient: i32 },
    /// Fetches a recipient.
    GetRecipientById { id: i32 },
    /// Fetches a message.
    GetMessageById { id: i32 },
    /// Notes whether a message is being processed.
    MarkMessageProcessing { id: i32, processing: bool },
    /// Notes that a message failed once more and is no longer being processed, and gives the
    /// number of its failures back.
    MarkMessageFailed { id: i32 },
    /// Deletes a message.
    DeleteMessage { id: i32 },
}

/// What a `StoreRequest` holds.
pub enum StoreRequestView {
    CreateMessage { recipient_id: Option<i32>, pdu: Seq<u8> },
    CreateRecipient { phone_number: Seq<char>, user_id: Seq<char>, room_id: Seq<char> },
    SetRecipientForMessages { recipient: i32, messages: Seq<i32> },
    GetRecipientForAddress { phone_number: Seq<char> },
    GetRecipientForRoom { room_id: Seq<char> },
    GetRecipientsWithMessages,
    GetOrphanedMessages,
    GetMessagesForRecipient { recipient: i32 },
    GetRecipientById { id: i32 },
    GetMessageById { id: i32 },
    MarkMessageProcessing { id: i32, processing: bool },
    MarkMessageFailed { id: i32 },
    DeleteMessage { id: i32 },
}

impl View for StoreRequest {
    type V = StoreRequestView;

    open spec fn view(&self) -> StoreRequestView {
        match *self {
            StoreRequest::CreateMessage { recipient_id, pdu } => StoreRequestView::CreateMessage {
                recipient_id,
                pdu: pdu@,
            },
            StoreRequest::CreateRecipient {
                phone_number,
                user_id,
                room_id,
            } => StoreRequestView::CreateRecipient {
                phone_number: phone_number@,
                user_id: user_id@,
                room_id: room_id@,
            },
            StoreRequest::SetRecipientForMessages {
                recipient,
                messages,
            } => StoreRequestView::SetRecipientForMessages { recipient, messages: messages@ },
            StoreRequest::GetRecipientForAddress {
                phone_number,
            } => StoreRequestView::GetRecipientForAddress { phone_number: phone_number@ },
            StoreRequest::GetRecipientForRoom { room_id } => StoreRequestView::GetRecipientForRoom {
                room_id: room_id@,
            },
            StoreRequest::GetRecipientsWithMessages => StoreRequestView::GetRecipientsWithMessages,
            StoreRequest::GetOrphanedMessages => StoreRequestView::GetOrphanedMessages,
            StoreRequest::GetMessagesForRecipient {
                recipient,
            } => StoreRequestView::GetMessagesForRecipient { recipient },
            StoreRequest::GetRecipientById { id } => StoreRequestView::GetRecipientById { id },
            StoreRequest::GetMessageById { id } => StoreRequestView::GetMessageById { id },
            StoreRequest::MarkMessageProcessing {
                id,
                processing,
            } => StoreRequestView::MarkMessageProcessing { id, processing },
            StoreRequest::MarkMessageFailed { id } => StoreRequestView::MarkMessageFailed { id },
            StoreRequest::DeleteMessage { id } => StoreRequestView::DeleteMessage { id },
        }
    }
}

/// What the database answers.
pub enum StoreReply {
    /// It did as it was asked, and has nothing to give back.
    Done,
    /// The recipient who was looked for, if there is one.
    Found(Option<Recipient>),
    /// A recipient that was fetched or stored.
    Recipient(Recipient),
    /// The identifiers of recipients.
    RecipientIds(Vec<i32>),
    /// A message that was fetched or stored.
    Message(Message),
    /// Messages.
    Messages(Vec<Message>),
    /// How often a message has failed.
    Failures(i32),
    /// The operation failed.
    Failed,
}

/// What a `StoreReply` holds.
pub enum StoreReplyView {
    Done,
    Found(Option<RecipientView>),
    Recipient(RecipientView),
    RecipientIds(Seq<i32>),
    Message(MessageView),
    Messages(Seq<MessageView>),
    Failures(i32),
    Failed,
}

impl View for StoreReply {
    type V = StoreReplyView;

    open spec fn view(&self) -> StoreReplyView {
        match *self {
            StoreReply::Done => StoreReplyView::Done,
            StoreReply::Found(Some(recipient)) => StoreReplyView::Found(Some(recipient@)),
            StoreReply::Found(None) => StoreReplyView::Found(None),
            StoreReply::Recipient(recipient) => StoreReplyView::Recipient(recipient@),
            StoreReply::RecipientIds(ids) => StoreReplyView::RecipientIds(ids@),
            StoreReply::Message(message) => StoreReplyView::Message(message@),
            StoreReply::Messages(messages) => StoreReplyView::Messages(messages_view(messages@)),
            StoreReply::Failures(failures) => StoreReplyView::Failures(failures),
            StoreReply::Failed => StoreReplyView::Failed,
        }
    }
}

/// Whether a reply is one that the database can give to a request.
pub open spec fn answers(request: StoreRequestView, reply: StoreReplyView) -> bool {
    reply is Failed || match request {
        StoreRequestView::CreateMessage { .. } => reply is Message,
        StoreRequestView::CreateRecipient { .. } => reply is Recipient,
        StoreRequestView::SetRecipientForMessages { .. } => reply is Done,
        StoreRequestView::GetRecipientForAddress { .. } => reply is Found,
        StoreRequestView::GetRecipientForRoom { .. } => reply is Found,
        StoreRequestView::GetRecipientsWithMessages => reply is RecipientIds,
        StoreRequestView::GetOrphanedMessages => reply is Messages,
        StoreRequestView::GetMessagesForRecipient { .. } => reply is Messages,
        StoreRequestView::GetRecipientById { .. } => reply is Recipient,
        StoreRequestView::GetMessageById { .. } => reply is Message,
        StoreRequestView::MarkMessageProcessing { .. } => reply is Done,
        StoreRequestView::MarkMessageFailed { .. } => reply is Failures,
        StoreRequestView::DeleteMessage { .. } => reply is Done,
    }
}

/// What a row of the messages becomes by an operation on the database that does not fail, unless
/// it is deleted.
pub open spec fn changed_row(row: MessageView, request: StoreRequestView) -> MessageView {
    match request {
        StoreRequestView::MarkMessageProcessing { id, processing } => if row.id == id {
            MessageView { processing, ..row }
        } else {
            row
        },
        StoreRequestView::MarkMessageFailed { id } => if row.id == id {
            MessageView { processing: false, failures: (row.failures + 1) as i32, ..row }
        } else {
            row
        },
        StoreRequestView::SetRecipientForMessages { recipient, messages } => if messages.contains(
            row.id,
        ) {
            MessageView { recipient_id: Some(recipient), ..row }
        } else {
            row
        },
        _ => row,
    }
}

/// What rows of the messages become by an operation on the database that does not fail.
pub open spec fn changed_rows(rows: Seq<MessageView>, request: StoreRequestView) -> Seq<
    MessageView,
> {
    match request {
        StoreRequestView::DeleteMessage { id } => rows.filter(|row: MessageView| row.id != id),
        _ => rows.map_values(|row: MessageView| changed_row(row, request)),
    }
}

/// What rows of the messages become by several operations, one after another.
pub open spec fn rows_after(rows: Seq<MessageView>, requests: Seq<StoreRequestView>) -> Seq<
    MessageView,
>
    decreases requests.len(),
{
    if requests.len() == 0 {
        rows
    } else {
        changed_rows(rows_after(rows, requests.drop_last()), requests.last())
    }
}

} // verus!
