//! Managing the messages of one recipient.

use vstd::arithmetic::power2::pow2;
use vstd::prelude::*;

use crate::backoff::{backoff_secs, MAX_FAILURES};
use crate::models::{messages_view, Message, MessageView};
use crate::pdu::{deliver_sender, originating_address};
use crate::store::{answers, StoreReply, StoreReplyView, StoreRequest, StoreRequestView};

verus! {

/// What is sent to a manager.
#[derive(Debug, Clone, Copy, PartialEq, Eq, Structural)]
pub enum UserMessage {
    /// There may be new messages.
    ProcessNew,
    /// A message that failed is to be tried again.
    ProcessFailed(i32),
    /// A message has been delivered.
    NotifyComplete(i32),
    /// A message could not be delivered.
    NotifyFailed(i32),
}

/// What is to be done, without waiting for it.
pub enum UserEffect {
    /// Deliver a message, and send `NotifyComplete` or `NotifyFailed`.
    Deliver { id: i32, pdu: Vec<u8> },
    /// Send `ProcessFailed` after a while.
    RetryAfter { id: i32, secs: u64 },
}

/// What a `UserEffect` holds.
pub enum UserEffectView {
    Deliver { id: i32, pdu: Seq<u8> },
    RetryAfter { id: i32, secs: nat },
}

impl View for UserEffect {
    type V = UserEffectView;

    open spec fn view(&self) -> UserEffectView {
        match *self {
            UserEffect::Deliver { id, pdu } => UserEffectView::Deliver { id, pdu: pdu@ },
            UserEffect::RetryAfter { id, secs } => UserEffectView::RetryAfter {
                id,
                secs: secs as nat,
            },
        }
    }
}

/// Why something that was sent to a manager came to nothing.
#[derive(Debug, Clone, Copy, PartialEq, Eq, Structural)]
pub enum UserError {
    /// The database failed.
    Store,
    /// The message cannot be read.
    Malformed,
}

/// What comes after the effect.
pub enum UserNext {
    /// The next thing that is sent.
    Ready,
    /// An operation on the database, whose answer is the next input.
    Store(StoreRequest),
    /// What was sent came to nothing; the next thing that is sent.
    Failed(UserError),
}

/// What a `UserNext` holds.
pub enum UserNextView {
    Ready,
    Store(StoreRequestView),
    Failed(UserError),
}

impl View for UserNext {
    type V = UserNextView;

    open spec fn view(&self) -> UserNextView {
        match *self {
            UserNext::Ready => UserNextView::Ready,
            UserNext::Store(request) => UserNextView::Store(request@),
            UserNext::Failed(error) => UserNextView::Failed(error),
        }
    }
}

/// What is to be done.
pub struct UserStep {
    pub effect: Option<UserEffect>,
    pub next: UserNext,
}

/// What a `UserStep` holds.
pub struct UserStepView {
    pub effect: Option<UserEffectView>,
    pub next: UserNextView,
}

impl View for UserStep {
    type V = UserStepView;

    open spec fn view(&self) -> UserStepView {
        UserStepView {
            effect: match self.effect {
                Some(effect) => Some(effect@),
                None => None,
            },
            next: self.next@,
        }
    }
}

/// What comes in: something that was sent, or the answer of the database.
pub enum UserInput {
    Message(UserMessage),
    Reply(StoreReply),
}

/// What a `UserInput` holds.
pub enum UserInputView {
    Message(UserMessage),
    Reply(StoreReplyView),
}

impl View for UserInput {
    type V = UserInputView;

    open spec fn view(&self) -> UserInputView {
        match *self {
            UserInput::Message(message) => UserInputView::Message(message),
            UserInput::Reply(reply) => UserInputView::Reply(reply@),
        }
    }
}

/// What a manager is in the middle of: which answer of the database it waits for.
pub enum UserTaskView {
    /// Nothing.
    Idle,
    /// The recipient's messages.
    ListMessages,
    /// A message that failed.
    FetchMessage { id: i32 },
    /// That a message is noted as being processed; these remain.
    MarkMessage { id: i32, rest: Seq<MessageView> },
    /// The deletion of a message that cannot be read; these remain.
    DropMessage { id: i32, rest: Seq<MessageView> },
    /// The deletion of a message that has been delivered.
    CompleteMessage { id: i32 },
    /// How often a message has failed.
    FailMessage { id: i32 },
}

impl UserTaskView {
    /// The operation on the database that is waited for.
    pub open spec fn request(self, recipient: i32) -> Option<StoreRequestView> {
        match self {
            UserTaskView::Idle => None,
            UserTaskView::ListMessages => Some(
                StoreRequestView::GetMessagesForRecipient { recipient },
            ),
            UserTaskView::FetchMessage { id } => Some(StoreRequestView::GetMessageById { id }),
            UserTaskView::MarkMessage { id, .. } => Some(
                StoreRequestView::MarkMessageProcessing { id, processing: true },
            ),
            UserTaskView::DropMessage { id, .. } => Some(StoreRequestView::DeleteMessage { id }),
            UserTaskView::CompleteMessage { id } => Some(StoreRequestView::DeleteMessage { id }),
            UserTaskView::FailMessage { id } => Some(StoreRequestView::MarkMessageFailed { id }),
        }
    }
}

/// What a manager holds.
pub struct UserView {
    pub recipient_id: i32,
    pub task: UserTaskView,
}

/// Whether a message is new: it is neither being processed nor has it failed.
pub open spec fn is_new(message: MessageView) -> bool {
    !message.processing && message.failures <= 0
}

impl UserView {
    /// The manager in the middle of something that waits for the database.
    pub open spec fn waiting(self, effect: Option<UserEffectView>, task: UserTaskView) -> (
        UserView,
        UserStepView,
    ) {
        (
            UserView { task, ..self },
            UserStepView { effect, next: UserNextView::Store(task.request(self.recipient_id)->0) },
        )
    }

    /// The manager with nothing left to do.
    pub open spec fn resting(self, effect: Option<UserEffectView>, next: UserNextView) -> (
        UserView,
        UserStepView,
    ) {
        (UserView { task: UserTaskView::Idle, ..self }, UserStepView { effect, next })
    }

    /// A new message is delivered and noted as being processed, or deleted where it cannot be
    /// read; these remain.
    pub open spec fn take_new(
        self,
        row: MessageView,
        is_readable: bool,
        rest: Seq<MessageView>,
    ) -> (UserView, UserStepView) {
        if is_readable {
            self.waiting(
                Some(UserEffectView::Deliver { id: row.id, pdu: row.pdu }),
                UserTaskView::MarkMessage { id: row.id, rest },
            )
        } else {
            self.waiting(None, UserTaskView::DropMessage { id: row.id, rest })
        }
    }

    /// A message that failed is delivered and noted as being processed, where it can be read.
    pub open spec fn take_failed(self, id: i32, row: MessageView, is_readable: bool) -> (
        UserView,
        UserStepView,
    ) {
        if is_readable {
            self.waiting(
                Some(UserEffectView::Deliver { id, pdu: row.pdu }),
                UserTaskView::MarkMessage { id, rest: seq![] },
            )
        } else {
            self.resting(None, UserNextView::Failed(UserError::Malformed))
        }
    }

    /// Goes on with the recipient's messages: takes the first new one.
    pub open spec fn next_message(self, rest: Seq<MessageView>) -> (UserView, UserStepView)
        decreases rest.len(),
    {
        if rest.len() == 0 {
            self.resting(None, UserNextView::Ready)
        } else if !is_new(rest[0]) {
            self.next_message(rest.drop_first())
        } else {
            self.take_new(rest[0], deliver_sender(rest[0].pdu) is Some, rest.drop_first())
        }
    }

    /// Something was sent.
    pub open spec fn message(self, message: UserMessage) -> (UserView, UserStepView) {
        match message {
            UserMessage::ProcessNew => self.waiting(None, UserTaskView::ListMessages),
            UserMessage::ProcessFailed(id) => self.waiting(
                None,
                UserTaskView::FetchMessage { id },
            ),
            UserMessage::NotifyComplete(id) => self.waiting(
                None,
                UserTaskView::CompleteMessage { id },
            ),
            UserMessage::NotifyFailed(id) => self.waiting(None, UserTaskView::FailMessage { id }),
        }
    }

    /// The database answered.
    pub open spec fn store_reply(self, reply: StoreReplyView) -> (UserView, UserStepView) {
        match (self.task, reply) {
            (_, StoreReplyView::Failed) => self.resting(
                None,
                UserNextView::Failed(UserError::Store),
            ),
            (UserTaskView::ListMessages, StoreReplyView::Messages(rows)) => self.next_message(rows),
            (UserTaskView::FetchMessage { id }, StoreReplyView::Message(row)) => self.take_failed(
                id,
                row,
                deliver_sender(row.pdu) is Some,
            ),
            (UserTaskView::MarkMessage { rest, .. }, StoreReplyView::Done) => self.next_message(
                rest,
            ),
            (UserTaskView::DropMessage { rest, .. }, StoreReplyView::Done) => self.next_message(
                rest,
            ),
            (UserTaskView::CompleteMessage { .. }, StoreReplyView::Done) => self.resting(
                None,
                UserNextView::Ready,
            ),
            (UserTaskView::FailMessage { id }, StoreReplyView::Failures(failures)) => {
                self.resting(
                    Some(UserEffectView::RetryAfter { id, secs: pow2(failures as nat) }),
                    UserNextView::Ready,
                )
            },
            _ => self.resting(None, UserNextView::Ready),
        }
    }

    /// Whether something can come in now.
    pub open spec fn accepts(self, input: UserInputView) -> bool {
        match input {
            UserInputView::Message(_) => self.task is Idle,
            UserInputView::Reply(reply) => {
                &&& self.task.request(self.recipient_id) matches Some(request)
                &&& answers(request, reply)
                &&& reply matches StoreReplyView::Failures(failures) ==> 0 <= failures < MAX_FAILURES
            },
        }
    }

    /// What the manager holds next and what is to be done, when something comes in.
    pub open spec fn future(self, input: UserInputView) -> (UserView, UserStepView) {
        match input {
            UserInputView::Message(message) => self.message(message),
            UserInputView::Reply(reply) => self.store_reply(reply),
        }
    }
}

/// What a manager is in the middle of.
enum UserTask {
    Idle,
    ListMessages,
    FetchMessage { id: i32 },
    MarkMessage { id: i32, rest: Vec<Message> },
    DropMessage { id: i32, rest: Vec<Message> },
    CompleteMessage { id: i32 },
    FailMessage { id: i32 },
}

impl View for UserTask {
    type V = UserTaskView;

    closed spec fn view(&self) -> UserTaskView {
        match *self {
            UserTask::Idle => UserTaskView::Idle,
            UserTask::ListMessages => UserTaskView::ListMessages,
            UserTask::FetchMessage { id } => UserTaskView::FetchMessage { id },
            UserTask::MarkMessage { id, rest } => UserTaskView::MarkMessage {
                id,
                rest: messages_view(rest@),
            },
            UserTask::DropMessage { id, rest } => UserTaskView::DropMessage {
                id,
                rest: messages_view(rest@),
            },
            UserTask::CompleteMessage { id } => UserTaskView::CompleteMessage { id },
            UserTask::FailMessage { id } => UserTaskView::FailMessage { id },
        }
    }
}

/// Manages the messages of one recipient.
pub struct UserManager {
    recipient_id: i32,
    task: UserTask,
}

impl View for UserManager {
    type V = UserView;

    closed spec fn view(&self) -> UserView {
        UserView { recipient_id: self.recipient_id, task: self.task@ }
    }
}

impl UserManager {
    /// A manager to which nothing has been sent.
    pub fn new(recipient_id: i32) -> (r: UserManager)
        ensures
            r@ == (UserView { recipient_id, task: UserTaskView::Idle }),
    {
        UserManager { recipient_id, task: UserTask::Idle }
    }

    /// Goes on after an operation on the database.
    fn wait(&mut self, effect: Option<UserEffect>, task: UserTask, request: StoreRequest) -> (r:
        UserStep)
        requires
            task@.request(old(self)@.recipient_id) == Some(request@),
        ensures
            (final(self)@, r@) == old(self)@.waiting(
                match effect {
                    Some(effect) => Some(effect@),
                    None => None,
                },
                task@,
            ),
    {
        self.task = task;
        UserStep { effect, next: UserNext::Store(request) }
    }

    /// Has a message delivered, and notes that it is being processed.
    fn schedule_message(&mut self, id: i32, pdu: Vec<u8>, rest: Vec<Message>) -> (r: UserStep)
        ensures
            (final(self)@, r@) == old(self)@.waiting(
                Some(UserEffectView::Deliver { id, pdu: pdu@ }),
                UserTaskView::MarkMessage { id, rest: messages_view(rest@) },
            ),
    {
        self.wait(
            Some(UserEffect::Deliver { id, pdu }),
            UserTask::MarkMessage { id, rest },
            StoreRequest::MarkMessageProcessing { id, processing: true },
        )
    }

    /// Goes on with the recipient's messages.
    fn process_new(&mut self, rows: Vec<Message>) -> (r: UserStep)
        ensures
            (final(self)@, r@) == old(self)@.next_message(messages_view(rows@)),
    {
        let mut rest: Vec<Message> = rows;
        let ghost whole = old(self)@.next_message(messages_view(rows@));
        while rest.len() > 0
            invariant
                self@ == old(self)@,
                whole == old(self)@.next_message(messages_view(rows@)),
                self@.next_message(messages_view(rest@)) == whole,
            decreases rest@.len(),
        {
            let ghost before = messages_view(rest@);
            let row: Message = rest.remove(0);
            assert(messages_view(rest@) =~= before.drop_first());
            if row.processing || row.failures > 0 {
                continue;
            }
            let is_readable: bool = originating_address(&row.pdu).is_ok();
            return self.take_new(row, is_readable, rest);
        }
        self.rest(None, UserNext::Ready)
    }

    /// A message that failed has been fetched.
    fn process_failed(&mut self, id: i32, row: Message) -> (r: UserStep)
        ensures
            (final(self)@, r@) == old(self)@.take_failed(
                id,
                row@,
                deliver_sender(row@.pdu) is Some,
            ),
    {
        let is_readable: bool = originating_address(&row.pdu).is_ok();
        self.take_failed(id, row, is_readable)
    }

    /// Delivers a message that failed, where it can be read.
    pub fn take_failed(&mut self, id: i32, row: Message, is_readable: bool) -> (r: UserStep)
        ensures
            (final(self)@, r@) == old(self)@.take_failed(id, row@, is_readable),
    {
        if is_readable {
            let none: Vec<Message> = Vec::new();
            assert(messages_view(none@) =~= Seq::<MessageView>::empty());
            self.schedule_message(id, row.pdu, none)
        } else {
            self.rest(None, UserNext::Failed(UserError::Malformed))
        }
    }

    /// Delivers a new message, or deletes it where it cannot be read; these remain.
    pub fn take_new(&mut self, row: Message, is_readable: bool, rest: Vec<Message>) -> (r:
        UserStep)
        ensures
            (final(self)@, r@) == old(self)@.take_new(row@, is_readable, messages_view(rest@)),
    {
        if is_readable {
            self.schedule_message(row.id, row.pdu, rest)
        } else {
            self.wait(
                None,
                UserTask::DropMessage { id: row.id, rest },
                StoreRequest::DeleteMessage { id: row.id },
            )
        }
    }

    /// Has nothing left to do.
    fn rest(&mut self, effect: Option<UserEffect>, next: UserNext) -> (r: UserStep)
        ensures
            (final(self)@, r@) == old(self)@.resting(
                match effect {
                    Some(effect) => Some(effect@),
                    None => None,
                },
                next@,
            ),
    {
        self.task = UserTask::Idle;
        UserStep { effect, next }
    }

    /// A message could not be delivered, for so many times now.
    fn notify_failed(&mut self, id: i32, failures: i32) -> (r: UserStep)
        requires
            0 <= failures < MAX_FAILURES,
        ensures
            (final(self)@, r@) == old(self)@.resting(
                Some(UserEffectView::RetryAfter { id, secs: pow2(failures as nat) }),
                UserNextView::Ready,
            ),
    {
        let secs: u64 = backoff_secs(failures as u32);
        self.rest(Some(UserEffect::RetryAfter { id, secs }), UserNext::Ready)
    }

    /// Something was sent.
    fn message(&mut self, message: UserMessage) -> (r: UserStep)
        ensures
            (final(self)@, r@) == old(self)@.message(message),
    {
        match message {
            UserMessage::ProcessNew => {
                let recipient: i32 = self.recipient_id;
                self.wait(
                    None,
                    UserTask::ListMessages,
                    StoreRequest::GetMessagesForRecipient { recipient },
                )
            },
            UserMessage::ProcessFailed(id) => self.wait(
                None,
                UserTask::FetchMessage { id },
                StoreRequest::GetMessageById { id },
            ),
            UserMessage::NotifyComplete(id) => self.notify_complete(id),
            UserMessage::NotifyFailed(id) => self.wait(
                None,
                UserTask::FailMessage { id },
                StoreRequest::MarkMessageFailed { id },
            ),
        }
    }

    /// A message has been delivered.
    fn notify_complete(&mut self, id: i32) -> (r: UserStep)
        ensures
            (final(self)@, r@) == old(self)@.waiting(None, UserTaskView::CompleteMessage { id }),
    {
        self.wait(
            None,
            UserTask::CompleteMessage { id },
            StoreRequest::DeleteMessage { id },
        )
    }

    /// Whether something can come in now.
    pub fn accepts(&self, input: &UserInput) -> (r: bool)
        ensures
            r == self@.accepts(input@),
    {
        match input {
            UserInput::Message(_) => matches!(self.task, UserTask::Idle),
            UserInput::Reply(reply) => match (&self.task, reply) {
                (UserTask::Idle, _) => false,
                (_, StoreReply::Failed) => true,
                (UserTask::ListMessages, StoreReply::Messages(_)) => true,
                (UserTask::FetchMessage { .. }, StoreReply::Message(_)) => true,
                (UserTask::MarkMessage { .. }, StoreReply::Done) => true,
                (UserTask::DropMessage { .. }, StoreReply::Done) => true,
                (UserTask::CompleteMessage { .. }, StoreReply::Done) => true,
                (UserTask::FailMessage { .. }, StoreReply::Failures(failures)) => {
                    0 <= *failures && (*failures as u32) < MAX_FAILURES
                },
                _ => false,
            },
        }
    }

    /// Takes in what comes, and says what is to be done.
    pub fn future(&mut self, input: UserInput) -> (r: UserStep)
        requires
            old(self)@.accepts(input@),
        ensures
            (final(self)@, r@) == old(self)@.future(input@),
    {
        let reply: StoreReply = match input {
            UserInput::Message(message) => {
                return self.message(message);
            },
            UserInput::Reply(reply) => reply,
        };
        let mut task: UserTask = UserTask::Idle;
        std::mem::swap(&mut task, &mut self.task);
        match (task, reply) {
            (_, StoreReply::Failed) => self.rest(None, UserNext::Failed(UserError::Store)),
            (UserTask::ListMessages, StoreReply::Messages(rows)) => self.resume(
                rows,
                Ghost(old(self)@),
            ),
            (UserTask::FetchMessage { id }, StoreReply::Message(row)) => self.process_failed(
                id,
                row,
            ),
            (UserTask::MarkMessage { id: _, rest }, StoreReply::Done) => self.resume(
                rest,
                Ghost(old(self)@),
            ),
            (UserTask::DropMessage { id: _, rest }, StoreReply::Done) => self.resume(
                rest,
                Ghost(old(self)@),
            ),
            (UserTask::FailMessage { id }, StoreReply::Failures(failures)) => self.notify_failed(
                id,
                failures,
            ),
            _ => self.rest(None, UserNext::Ready),
        }
    }

    /// Goes on with the recipient's messages, whatever the manager was in the middle of.
    fn resume(&mut self, rows: Vec<Message>, Ghost(before): Ghost<UserView>) -> (r: UserStep)
        requires
            old(self)@.recipient_id == before.recipient_id,
        ensures
            (final(self)@, r@) == before.next_message(messages_view(rows@)),
    {
        proof {
            lemma_next_message_ignores_task(old(self)@, before, messages_view(rows@));
        }
        self.process_new(rows)
    }
}

proof fn lemma_next_message_ignores_task(a: UserView, b: UserView, rest: Seq<MessageView>)
    requires
        a.recipient_id == b.recipient_id,
    ensures
        a.next_message(rest) == b.next_message(rest),
    decreases rest.len(),
{
    if rest.len() > 0 {
        lemma_next_message_ignores_task(a, b, rest.drop_first());
    }
}

} // verus!
