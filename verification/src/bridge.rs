//! How the bridge reacts to what happens, as a function from what it holds and what comes in to
//! what it holds next and what is to be done.

use vstd::arithmetic::power2::pow2;
use vstd::prelude::*;

use crate::backoff::MAX_FAILURES;
use crate::events::{
    bot_user, command_of, help_text, is_own_user, unrecognized_text, AdminCommandView,
    EventContentView, EventView, Membership, RoomEventDataView, RoomMessageView,
};
use crate::models::{MessageView, RecipientView};
use crate::pdu::{deliver_sender, AddressView};
use crate::store::{answers, StoreReplyView, StoreRequestView};
use crate::text::has_prefix;
use crate::util::{normalized, separable, un_normalized};

verus! {

/// How the modem keeps a message.
#[derive(Debug, Clone, Copy, PartialEq, Eq, Structural)]
pub enum MessageStatus {
    ReceivedUnread,
    ReceivedRead,
    StoredUnsent,
    StoredSent,
    All,
}

/// Names the one who manages a recipient's messages.
#[derive(Debug, Clone, Copy, PartialEq, Eq, Structural)]
pub struct UserHandle {
    pub ctl: u64,
}

/// A message that the modem has listed.
pub struct SmsMessageView {
    pub status: MessageStatus,
    pub raw_pdu: Seq<u8>,
    pub originating_address: AddressView,
}

/// What is sent to the bridge.
pub enum IntMessageView {
    CmglRequest,
    CmglComplete(Seq<SmsMessageView>),
    CmglFailed,
    MatrixEvent(EventView),
    RegisterHandle(AddressView, UserHandle),
    RegisterFailed(AddressView),
    SendSucceeded(RoomEventDataView),
    SendFailed(RoomEventDataView, Seq<char>),
}

/// What comes in: something unsolicited from the modem, with its name if it has one; something
/// sent to the bridge; or the answer of the database.
pub enum InputView {
    Urc(Option<Seq<char>>),
    Int(IntMessageView),
    Reply(StoreReplyView),
}

/// What is to be done, without waiting for it.
pub enum EffectView {
    ListSms,
    DeleteSms,
    StartRecipient(AddressView),
    ProcessNew(UserHandle),
    RetryListing { secs: nat },
    JoinRoom { room: Seq<char> },
    ReadReceipt { room: Seq<char>, event_id: Seq<char> },
    ReportFailure { room: Seq<char>, sender: Seq<char>, error: Seq<char> },
    SendSms { recipient: RecipientView, message: RoomMessageView, event: RoomEventDataView },
    TellRegistration { room: Seq<char> },
    TellSignal { room: Seq<char> },
    Say { room: Seq<char>, text: Seq<char> },
}

/// Why the bridge stops.
#[derive(Debug, Clone, Copy, PartialEq, Eq, Structural)]
pub enum ExitReason {
    /// The database failed.
    Store,
    /// A recipient's phone number in the database is not one.
    InvalidAddress,
}

/// What comes after the effects: the next input, an operation on the database whose answer is
/// the next input, or the end.
pub enum NextView {
    Ready,
    Store(StoreRequestView),
    Exit(ExitReason),
}

/// What is to be done.
pub struct StepView {
    pub effects: Seq<EffectView>,
    pub next: NextView,
}

/// What the bridge is in the middle of: which answer of the database it waits for.
pub enum TaskView {
    /// Nothing.
    Idle,
    /// The recipient for the sender of the first listed message.
    FindSender { rest: Seq<SmsMessageView> },
    /// The row of the first listed message.
    SaveMessage { rest: Seq<SmsMessageView>, recipient_id: Option<i32> },
    /// The recipients who have messages.
    ListPending,
    /// The first of these recipients.
    FindPending { ids: Seq<i32> },
    /// The messages that no recipient has.
    ListOrphans,
    /// The deletion of a message; these remain.
    DropOrphan { id: i32, rows: Seq<MessageView> },
    /// The recipient for an address that has got a handle.
    FindRegistered { addr: AddressView, handle: UserHandle },
    /// The messages of an address being given to its recipient.
    Parent { addr: AddressView, recipient: i32, messages: Seq<i32> },
    /// The recipient who has the room of a message.
    FindRoom { event: RoomEventDataView, room: Seq<char>, message: RoomMessageView },
    /// The bridge has stopped.
    Exited,
}

/// What the bridge holds.
#[verifier::ext_equal]
pub struct BridgeView {
    /// Who manages the messages of an address.
    pub recipients: Map<AddressView, UserHandle>,
    /// The addresses for which a recipient is being made, with the messages to give to it.
    pub inflight: Map<AddressView, Seq<i32>>,
    pub admin: Seq<char>,
    pub hs_localpart: Seq<char>,
    pub register_failures: nat,
    pub task: TaskView,
}

/// The listed messages from the first unread one on.
pub open spec fn skip_to_unread(rest: Seq<SmsMessageView>) -> Seq<SmsMessageView>
    decreases rest.len(),
{
    if rest.len() == 0 || rest[0].status == MessageStatus::ReceivedUnread {
        rest
    } else {
        skip_to_unread(rest.drop_first())
    }
}

/// A list of what is to be done, and then the next input.
pub open spec fn ready(effects: Seq<EffectView>) -> StepView {
    StepView { effects, next: NextView::Ready }
}

/// An operation on the database.
pub open spec fn ask(request: StoreRequestView) -> StepView {
    StepView { effects: seq![], next: NextView::Store(request) }
}

/// The same step with more to be done before it.
pub open spec fn after(effects: Seq<EffectView>, step: StepView) -> StepView {
    StepView { effects: effects + step.effects, next: step.next }
}

impl TaskView {
    /// The operation on the database that is waited for.
    pub open spec fn request(self) -> Option<StoreRequestView> {
        match self {
            TaskView::Idle => None,
            TaskView::FindSender { rest } => Some(
                StoreRequestView::GetRecipientForAddress {
                    phone_number: normalized(rest[0].originating_address),
                },
            ),
            TaskView::SaveMessage { rest, recipient_id } => Some(
                StoreRequestView::CreateMessage { recipient_id, pdu: rest[0].raw_pdu },
            ),
            TaskView::ListPending => Some(StoreRequestView::GetRecipientsWithMessages),
            TaskView::FindPending { ids } => Some(
                StoreRequestView::GetRecipientById { id: ids[0] },
            ),
            TaskView::ListOrphans => Some(StoreRequestView::GetOrphanedMessages),
            TaskView::DropOrphan { id, .. } => Some(StoreRequestView::DeleteMessage { id }),
            TaskView::FindRegistered { addr, .. } => Some(
                StoreRequestView::GetRecipientForAddress { phone_number: normalized(addr) },
            ),
            TaskView::Parent { recipient, messages, .. } => Some(
                StoreRequestView::SetRecipientForMessages { recipient, messages },
            ),
            TaskView::FindRoom { room, .. } => Some(
                StoreRequestView::GetRecipientForRoom { room_id: room },
            ),
            TaskView::Exited => None,
        }
    }
}

impl BridgeView {
    /// The bridge before anything has happened.
    pub open spec fn initial(admin: Seq<char>, hs_localpart: Seq<char>) -> BridgeView {
        BridgeView {
            recipients: Map::empty(),
            inflight: Map::empty(),
            admin,
            hs_localpart,
            register_failures: 0,
            task: TaskView::Idle,
        }
    }

    /// What always holds: no address has a handle while a recipient is being made for it, and
    /// what the bridge is in the middle of is there.
    pub open spec fn wf(self) -> bool {
        &&& forall|a: AddressView|
            !(#[trigger] self.recipients.contains_key(a) && self.inflight.contains_key(a))
        &&& match self.task {
            TaskView::FindSender { rest } => rest.len() > 0 && rest[0].status
                == MessageStatus::ReceivedUnread,
            TaskView::SaveMessage { rest, .. } => rest.len() > 0 && rest[0].status
                == MessageStatus::ReceivedUnread,
            TaskView::FindPending { ids } => ids.len() > 0,
            TaskView::Parent { addr, .. } => self.recipients.contains_key(addr),
            TaskView::FindRoom { event, room, .. } => event.room == Some(room),
            _ => true,
        }
    }

    /// The bridge in the middle of something else.
    pub open spec fn doing(self, task: TaskView) -> BridgeView {
        BridgeView { task, ..self }
    }

    /// The bridge in the middle of something that waits for the database.
    pub open spec fn waiting(self, task: TaskView) -> (BridgeView, StepView) {
        (self.doing(task), ask(task.request()->0))
    }

    /// The bridge stopped.
    pub open spec fn exited(self, reason: ExitReason) -> (BridgeView, StepView) {
        (
            self.doing(TaskView::Exited),
            StepView { effects: seq![], next: NextView::Exit(reason) },
        )
    }

    /// There may be a message from `addr` to deliver, and `mid` is one that no recipient has.
    ///
    /// While a recipient is being made for the address, the message waits for it. Where the
    /// address has a handle, its manager is told. Otherwise a recipient is made.
    pub open spec fn prod(self, addr: AddressView, mid: Option<i32>) -> (
        BridgeView,
        Seq<EffectView>,
    ) {
        let waiting = match mid {
            Some(id) => seq![id],
            None => seq![],
        };
        if self.inflight.contains_key(addr) {
            (
                BridgeView {
                    inflight: self.inflight.insert(addr, self.inflight[addr] + waiting),
                    ..self
                },
                seq![],
            )
        } else if self.recipients.contains_key(addr) {
            (self, seq![EffectView::ProcessNew(self.recipients[addr])])
        } else {
            (
                BridgeView { inflight: self.inflight.insert(addr, waiting), ..self },
                seq![EffectView::StartRecipient(addr)],
            )
        }
    }

    /// Goes on with the messages that the modem has listed.
    pub open spec fn list_next(self, rest: Seq<SmsMessageView>) -> (BridgeView, StepView) {
        let rest = skip_to_unread(rest);
        if rest.len() == 0 {
            self.waiting(TaskView::ListPending)
        } else {
            self.waiting(TaskView::FindSender { rest })
        }
    }

    /// Goes on with the recipients who have messages.
    pub open spec fn pending_next(self, ids: Seq<i32>) -> (BridgeView, StepView) {
        if ids.len() == 0 {
            self.waiting(TaskView::ListOrphans)
        } else {
            self.waiting(TaskView::FindPending { ids })
        }
    }

    /// Goes on with the messages that no recipient has: prods their senders, up to one whose
    /// sender cannot be read, which is deleted. After the last of them, the messages that the
    /// modem keeps and that need not be listed again are deleted.
    pub open spec fn orphans_next(self, rest: Seq<MessageView>) -> (BridgeView, StepView)
        decreases rest.len(),
    {
        if rest.len() == 0 {
            (self.doing(TaskView::Idle), ready(seq![EffectView::DeleteSms]))
        } else {
            match deliver_sender(rest[0].pdu) {
                Some(sender) => {
                    let (prodded, effects) = self.prod(sender, Some(rest[0].id));
                    let (next, step) = prodded.orphans_next(rest.drop_first());
                    (next, after(effects, step))
                },
                None => self.waiting(
                    TaskView::DropOrphan { id: rest[0].id, rows: rest.drop_first() },
                ),
            }
        }
    }

    /// Does what the one who runs the bridge asks, in `room`.
    pub open spec fn admin_command(self, room: Seq<char>, text: Seq<char>) -> (
        BridgeView,
        Seq<EffectView>,
    ) {
        match command_of(text) {
            AdminCommandView::NewConversation(addr) => self.prod(addr, None),
            AdminCommandView::GetRegistration => (
                self,
                seq![EffectView::TellRegistration { room }],
            ),
            AdminCommandView::GetSignal => (self, seq![EffectView::TellSignal { room }]),
            AdminCommandView::Help => (self, seq![EffectView::Say { room, text: help_text() }]),
            AdminCommandView::Unrecognized => (
                self,
                seq![EffectView::Say { room, text: unrecognized_text() }],
            ),
        }
    }

    /// Something happened in a room. Only invitations of the bot, and messages, that come from
    /// someone other than the bridge's own users are of interest.
    pub open spec fn matrix_event(self, event: EventView) -> (BridgeView, StepView) {
        let nothing = (self.doing(TaskView::Idle), ready(seq![]));
        match event.room_data {
            None => nothing,
            Some(rd) => match rd.room {
                None => nothing,
                Some(room) => if is_own_user(rd.sender) {
                    nothing
                } else {
                    match event.content {
                        EventContentView::RoomMember(membership) => if membership
                            == Membership::Invite && event.state_key == Some(
                            bot_user(self.hs_localpart),
                        ) {
                            (
                                self.doing(TaskView::Idle),
                                ready(seq![EffectView::JoinRoom { room }]),
                            )
                        } else {
                            nothing
                        },
                        EventContentView::RoomMessage(message) => self.waiting(
                            TaskView::FindRoom { event: rd, room, message },
                        ),
                        EventContentView::Other => nothing,
                    }
                },
            },
        }
    }

    /// The recipient who has the room of a message was looked for: their message is sent, and
    /// in any other room the one who runs the bridge may give commands.
    pub open spec fn room_message(
        self,
        recipient: Option<RecipientView>,
        event: RoomEventDataView,
        room: Seq<char>,
        message: RoomMessageView,
    ) -> (BridgeView, StepView) {
        let idle = self.doing(TaskView::Idle);
        match recipient {
            Some(recipient) => (
                idle,
                ready(seq![EffectView::SendSms { recipient, message, event }]),
            ),
            None => match message {
                RoomMessageView::Text { body } => if event.sender == self.admin && has_prefix(
                    body,
                    "!"@,
                ) {
                    let (next, effects) = idle.admin_command(room, body);
                    (next, ready(effects))
                } else {
                    (idle, ready(seq![]))
                },
                _ => (idle, ready(seq![])),
            },
        }
    }

    /// Something unsolicited came from the modem.
    pub open spec fn urc(self, param: Option<Seq<char>>) -> (BridgeView, StepView) {
        if param == Some("+CMTI"@) {
            (self, ready(seq![EffectView::ListSms]))
        } else {
            (self, ready(seq![]))
        }
    }

    /// Something was sent to the bridge.
    pub open spec fn int_message(self, message: IntMessageView) -> (BridgeView, StepView) {
        match message {
            IntMessageView::CmglRequest => (self, ready(seq![EffectView::ListSms])),
            IntMessageView::CmglComplete(listed) => self.list_next(listed),
            IntMessageView::CmglFailed => (self, ready(seq![])),
            IntMessageView::MatrixEvent(event) => self.matrix_event(event),
            IntMessageView::RegisterHandle(addr, handle) => self.waiting(
                TaskView::FindRegistered { addr, handle },
            ),
            IntMessageView::RegisterFailed(addr) => (
                BridgeView {
                    inflight: self.inflight.remove(addr),
                    register_failures: self.register_failures + 1,
                    ..self
                },
                ready(
                    seq![EffectView::RetryListing { secs: pow2(self.register_failures + 1) }],
                ),
            ),
            IntMessageView::SendSucceeded(event) => (
                self,
                ready(
                    seq![EffectView::ReadReceipt { room: event.room->0, event_id: event.event_id }],
                ),
            ),
            IntMessageView::SendFailed(event, error) => (
                self,
                ready(
                    seq![
                        EffectView::ReportFailure {
                            room: event.room->0,
                            sender: event.sender,
                            error,
                        },
                    ],
                ),
            ),
        }
    }

    /// The database answered.
    pub open spec fn store_reply(self, reply: StoreReplyView) -> (BridgeView, StepView) {
        match (self.task, reply) {
            (_, StoreReplyView::Failed) => self.exited(ExitReason::Store),
            (TaskView::FindSender { rest }, StoreReplyView::Found(recipient)) => {
                let recipient_id = match recipient {
                    Some(recipient) => Some(recipient.id),
                    None => None,
                };
                self.waiting(TaskView::SaveMessage { rest, recipient_id })
            },
            (TaskView::SaveMessage { rest, recipient_id }, StoreReplyView::Message(row)) => {
                let mid = if recipient_id is Some {
                    None
                } else {
                    Some(row.id)
                };
                let (prodded, effects) = self.prod(rest[0].originating_address, mid);
                let (next, step) = prodded.list_next(rest.drop_first());
                (next, after(effects, step))
            },
            (TaskView::ListPending, StoreReplyView::RecipientIds(ids)) => self.pending_next(ids),
            (TaskView::FindPending { ids }, StoreReplyView::Recipient(recipient)) => {
                match un_normalized(recipient.phone_number) {
                    Some(addr) => {
                        let (prodded, effects) = self.prod(addr, None);
                        let (next, step) = prodded.pending_next(ids.drop_first());
                        (next, after(effects, step))
                    },
                    None => self.exited(ExitReason::InvalidAddress),
                }
            },
            (TaskView::ListOrphans, StoreReplyView::Messages(rows)) => self.orphans_next(rows),
            (TaskView::DropOrphan { rows, .. }, StoreReplyView::Done) => self.orphans_next(rows),
            (
                TaskView::FindRegistered { addr, handle },
                StoreReplyView::Found(Some(recipient)),
            ) => {
                let registered = BridgeView {
                    recipients: self.recipients.insert(addr, handle),
                    inflight: self.inflight.remove(addr),
                    ..self
                };
                registered.waiting(
                    TaskView::Parent {
                        addr,
                        recipient: recipient.id,
                        messages: self.inflight[addr],
                    },
                )
            },
            (TaskView::Parent { addr, .. }, StoreReplyView::Done) => {
                let (next, effects) = self.doing(TaskView::Idle).prod(addr, None);
                (next, ready(effects))
            },
            (
                TaskView::FindRoom { event, room, message },
                StoreReplyView::Found(recipient),
            ) => self.room_message(recipient, event, room, message),
            _ => (self, ready(seq![])),
        }
    }

    /// Whether something can come in now.
    pub open spec fn accepts(self, input: InputView) -> bool {
        match input {
            InputView::Urc(_) => self.task is Idle,
            InputView::Int(message) => self.task is Idle && match message {
                IntMessageView::RegisterFailed(_) => self.register_failures + 1 < MAX_FAILURES,
                IntMessageView::SendSucceeded(event) => event.room is Some,
                IntMessageView::SendFailed(event, _) => event.room is Some,
                _ => true,
            },
            InputView::Reply(reply) => {
                &&& self.task.request() matches Some(request)
                &&& answers(request, reply)
                &&& match (self.task, reply) {
                    (TaskView::FindPending { .. }, StoreReplyView::Recipient(recipient)) => {
                        separable(recipient.phone_number)
                    },
                    (TaskView::FindRegistered { addr, .. }, StoreReplyView::Found(recipient)) => {
                        recipient is Some && self.inflight.contains_key(addr)
                    },
                    _ => true,
                }
            },
        }
    }

    /// What the bridge holds next and what is to be done, when something comes in.
    pub open spec fn poll(self, input: InputView) -> (BridgeView, StepView) {
        match input {
            InputView::Urc(param) => self.urc(param),
            InputView::Int(message) => self.int_message(message),
            InputView::Reply(reply) => self.store_reply(reply),
        }
    }
}

/// What is done with messages that no recipient has does not depend on what the bridge was in
/// the middle of.
pub(crate) proof fn lemma_orphans_ignore_task(
    bridge: BridgeView,
    task: TaskView,
    rest: Seq<MessageView>,
)
    ensures
        bridge.doing(task).orphans_next(rest) == bridge.orphans_next(rest),
    decreases rest.len(),
{
    if rest.len() > 0 {
        match deliver_sender(rest[0].pdu) {
            Some(sender) => {
                let prodded = bridge.prod(sender, Some(rest[0].id)).0;
                let other = bridge.doing(task).prod(sender, Some(rest[0].id)).0;
                assert(other =~= prodded.doing(task));
                lemma_orphans_ignore_task(prodded, task, rest.drop_first());
            },
            None => {},
        }
    }
}

} // verus!
