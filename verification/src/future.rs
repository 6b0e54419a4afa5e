//! The bridge: takes in what the modem, the homeserver and the recipients' managers send, and
//! says what is to be done.

use vstd::prelude::*;
use vstd::string::*;

use crate::address_map::AddressMap;
use crate::backoff::{backoff_secs, MAX_FAILURES};
use crate::bridge::{
    after, ask, lemma_orphans_ignore_task, ready, skip_to_unread, BridgeView, EffectView,
    ExitReason, InputView, IntMessageView, MessageStatus, NextView, SmsMessageView, StepView,
    TaskView, UserHandle,
};
use crate::events::{
    bot_user_id, help, own_user, parse_admin_command, text_view, unrecognized, AdminCommand, Event,
    EventContent, Membership, RoomEventData, RoomMessage,
};
use crate::models::{messages_view, Message, Recipient};
use crate::pdu::{originating_address, AddressView, PduAddress};
use crate::store::{StoreReply, StoreRequest};
use crate::text::{copy_octets, starts_with, text_eq};
use crate::util::{
    is_separable, normalize_address, separable, un_normalize_address, un_normalized,
};

verus! {

/// A message that the modem has listed.
pub struct SmsMessage {
    pub status: MessageStatus,
    pub raw_pdu: Vec<u8>,
    pub originating_address: PduAddress,
}

impl View for SmsMessage {
    type V = SmsMessageView;

    open spec fn view(&self) -> SmsMessageView {
        SmsMessageView {
            status: self.status,
            raw_pdu: self.raw_pdu@,
            originating_address: self.originating_address@,
        }
    }
}

/// The contents of listed messages.
pub open spec fn listed_view(listed: Seq<SmsMessage>) -> Seq<SmsMessageView> {
    Seq::new(listed.len(), |i: int| listed[i]@)
}

/// What is sent to the bridge.
pub enum IntMessage {
    /// The messages that the modem keeps are to be listed.
    CmglRequest,
    /// They have been listed.
    CmglComplete(Vec<SmsMessage>),
    /// They could not be listed.
    CmglFailed,
    /// Something happened in a room.
    MatrixEvent(Event),
    /// There is a recipient for an address, and this manages its messages.
    RegisterHandle(PduAddress, UserHandle),
    /// No recipient could be made for an address.
    RegisterFailed(PduAddress),
    /// A message was sent as a text message.
    SendSucceeded(RoomEventData),
    /// A message could not be sent as a text message, and why.
    SendFailed(RoomEventData, String),
}

impl View for IntMessage {
    type V = IntMessageView;

    open spec fn view(&self) -> IntMessageView {
        match *self {
            IntMessage::CmglRequest => IntMessageView::CmglRequest,
            IntMessage::CmglComplete(listed) => IntMessageView::CmglComplete(listed_view(listed@)),
            IntMessage::CmglFailed => IntMessageView::CmglFailed,
            IntMessage::MatrixEvent(event) => IntMessageView::MatrixEvent(event@),
            IntMessage::RegisterHandle(addr, handle) => IntMessageView::RegisterHandle(
                addr@,
                handle,
            ),
            IntMessage::RegisterFailed(addr) => IntMessageView::RegisterFailed(addr@),
            IntMessage::SendSucceeded(event) => IntMessageView::SendSucceeded(event@),
            IntMessage::SendFailed(event, error) => IntMessageView::SendFailed(event@, error@),
        }
    }
}

/// What comes in.
pub enum PollInput {
    /// Something unsolicited from the modem, with its name if it has one.
    Urc(Option<String>),
    /// Something sent to the bridge.
    Int(IntMessage),
    /// The answer of the database.
    Reply(StoreReply),
}

impl View for PollInput {
    type V = InputView;

    open spec fn view(&self) -> InputView {
        match *self {
            PollInput::Urc(param) => InputView::Urc(text_view(param)),
            PollInput::Int(message) => InputView::Int(message@),
            PollInput::Reply(reply) => InputView::Reply(reply@),
        }
    }
}

/// What is to be done, without waiting for it.
pub enum Effect {
    /// List the messages that the modem keeps, and send `CmglComplete` or `CmglFailed`.
    ListSms,
    /// Delete the messages that the modem keeps, but for unread ones.
    DeleteSms,
    /// Make a recipient, and send `RegisterHandle` or `RegisterFailed`.
    StartRecipient(PduAddress),
    /// Tell a manager that there may be messages.
    ProcessNew(UserHandle),
    /// Send `CmglRequest` after a while.
    RetryListing { secs: u64 },
    /// Join a room.
    JoinRoom { room: String },
    /// Mark an event as read.
    ReadReceipt { room: String, event_id: String },
    /// Tell someone that their message could not be sent.
    ReportFailure { room: String, sender: String, error: String },
    /// Send a text message, and send `SendSucceeded` or `SendFailed`.
    SendSms { recipient: Recipient, message: RoomMessage, event: RoomEventData },
    /// Tell the modem's network registration.
    TellRegistration { room: String },
    /// Tell the signal quality.
    TellSignal { room: String },
    /// Say something in a room.
    Say { room: String, text: String },
}

impl View for Effect {
    type V = EffectView;

    open spec fn view(&self) -> EffectView {
        match *self {
            Effect::ListSms => EffectView::ListSms,
            Effect::DeleteSms => EffectView::DeleteSms,
            Effect::StartRecipient(addr) => EffectView::StartRecipient(addr@),
            Effect::ProcessNew(handle) => EffectView::ProcessNew(handle),
            Effect::RetryListing { secs } => EffectView::RetryListing { secs: secs as nat },
            Effect::JoinRoom { room } => EffectView::JoinRoom { room: room@ },
            Effect::ReadReceipt { room, event_id } => EffectView::ReadReceipt {
                room: room@,
                event_id: event_id@,
            },
            Effect::ReportFailure { room, sender, error } => EffectView::ReportFailure {
                room: room@,
                sender: sender@,
                error: error@,
            },
            Effect::SendSms { recipient, message, event } => EffectView::SendSms {
                recipient: recipient@,
                message: message@,
                event: event@,
            },
            Effect::TellRegistration { room } => EffectView::TellRegistration { room: room@ },
            Effect::TellSignal { room } => EffectView::TellSignal { room: room@ },
            Effect::Say { room, text } => EffectView::Say { room: room@, text: text@ },
        }
    }
}

/// The contents of a list of effects.
pub open spec fn effects_view(effects: Seq<Effect>) -> Seq<EffectView> {
    Seq::new(effects.len(), |i: int| effects[i]@)
}

/// What comes after the effects.
pub enum Next {
    /// The next input.
    Ready,
    /// An operation on the database, whose answer is the next input.
    Store(StoreRequest),
    /// The end.
    Exit(ExitReason),
}

impl View for Next {
    type V = NextView;

    open spec fn view(&self) -> NextView {
        match *self {
            Next::Ready => NextView::Ready,
            Next::Store(request) => NextView::Store(request@),
            Next::Exit(reason) => NextView::Exit(reason),
        }
    }
}

/// What is to be done.
pub struct PollStep {
    pub effects: Vec<Effect>,
    pub next: Next,
}

impl View for PollStep {
    type V = StepView;

    open spec fn view(&self) -> StepView {
        StepView { effects: effects_view(self.effects@), next: self.next@ }
    }
}

/// What the bridge is in the middle of.
enum Task {
    Idle,
    FindSender { rest: Vec<SmsMessage> },
    SaveMessage { rest: Vec<SmsMessage>, recipient_id: Option<i32> },
    ListPending,
    FindPending { ids: Vec<i32> },
    ListOrphans,
    DropOrphan { id: i32, rows: Vec<Message> },
    FindRegistered { addr: PduAddress, handle: UserHandle },
    Parent { addr: PduAddress, recipient: i32, messages: Ghost<Seq<i32>> },
    FindRoom { event: RoomEventData, room: String, message: RoomMessage },
    Exited,
}

impl View for Task {
    type V = TaskView;

    closed spec fn view(&self) -> TaskView {
        match *self {
            Task::Idle => TaskView::Idle,
            Task::FindSender { rest } => TaskView::FindSender { rest: listed_view(rest@) },
            Task::SaveMessage { rest, recipient_id } => TaskView::SaveMessage {
                rest: listed_view(rest@),
                recipient_id,
            },
            Task::ListPending => TaskView::ListPending,
            Task::FindPending { ids } => TaskView::FindPending { ids: ids@ },
            Task::ListOrphans => TaskView::ListOrphans,
            Task::DropOrphan { id, rows } => TaskView::DropOrphan {
                id,
                rows: messages_view(rows@),
            },
            Task::FindRegistered { addr, handle } => TaskView::FindRegistered {
                addr: addr@,
                handle,
            },
            Task::Parent { addr, recipient, messages } => TaskView::Parent {
                addr: addr@,
                recipient,
                messages: messages@,
            },
            Task::FindRoom { event, room, message } => TaskView::FindRoom {
                event: event@,
                room: room@,
                message: message@,
            },
            Task::Exited => TaskView::Exited,
        }
    }
}

/// The bridge.
pub struct MessagingFuture {
    recipients: AddressMap<UserHandle>,
    recipients_inflight: AddressMap<Vec<i32>>,
    admin: String,
    hs_localpart: String,
    register_failures: u32,
    task: Task,
}

spec fn ids_view(m: Map<AddressView, Vec<i32>>) -> Map<AddressView, Seq<i32>> {
    m.map_values(|v: Vec<i32>| v@)
}

impl View for MessagingFuture {
    type V = BridgeView;

    closed spec fn view(&self) -> BridgeView {
        BridgeView {
            recipients: self.recipients@,
            inflight: ids_view(self.recipients_inflight@),
            admin: self.admin@,
            hs_localpart: self.hs_localpart@,
            register_failures: self.register_failures as nat,
            task: self.task@,
        }
    }
}

impl MessagingFuture {
    /// What always holds of the bridge.
    pub closed spec fn wf(&self) -> bool {
        self@.wf() && self.recipients.wf() && self.recipients_inflight.wf()
    }

    /// The bridge before anything has happened.
    pub fn new(admin: String, hs_localpart: String) -> (r: MessagingFuture)
        ensures
            r.wf(),
            r@.wf(),
            r@ == BridgeView::initial(admin@, hs_localpart@),
    {
        let r = MessagingFuture {
            recipients: AddressMap::new(),
            recipients_inflight: AddressMap::new(),
            admin,
            hs_localpart,
            register_failures: 0,
            task: Task::Idle,
        };
        assert(r@ =~= BridgeView::initial(admin@, hs_localpart@));
        r
    }

    /// Tells the manager of an address that there may be a message from it, or makes a
    /// recipient, or lets the message wait while one is being made.
    pub fn prod_recipient(&mut self, addr: PduAddress, mid: Option<i32>) -> (r: Vec<Effect>)
        requires
            old(self).wf(),
        ensures
            (final(self)@, effects_view(r@)) == old(self)@.prod(addr@, mid),
            final(self).wf(),
            final(self)@.wf(),
    {
        let mut effects: Vec<Effect> = Vec::new();
        match self.recipients_inflight.remove(&addr) {
            Some(mut ids) => {
                let ghost before = ids@;
                if let Some(id) = mid {
                    ids.push(id);
                }
                self.recipients_inflight.insert(addr, ids);
                proof {
                    let waiting = match mid {
                        Some(id) => seq![id],
                        None => seq![],
                    };
                    assert(ids@ =~= before + waiting);
                    assert(ids_view(self.recipients_inflight@) =~= ids_view(
                        old(self).recipients_inflight@,
                    ).insert(addr@, before + waiting));
                    assert(self@ =~= old(self)@.prod(addr@, mid).0);
                    assert(effects_view(effects@) =~= Seq::<EffectView>::empty());
                }
            },
            None => {
                assert(self.recipients_inflight@ =~= old(self).recipients_inflight@);
                match self.recipients.get(&addr) {
                    Some(handle) => {
                        effects.push(Effect::ProcessNew(*handle));
                        proof {
                            assert(self@ =~= old(self)@.prod(addr@, mid).0);
                            assert(effects_view(effects@) =~= old(self)@.prod(addr@, mid).1);
                        }
                    },
                    None => {
                        let mut ids: Vec<i32> = Vec::new();
                        if let Some(id) = mid {
                            ids.push(id);
                        }
                        let ghost key = addr@;
                        self.recipients_inflight.insert(addr.copy(), ids);
                        effects.push(Effect::StartRecipient(addr));
                        proof {
                            let waiting = match mid {
                                Some(id) => seq![id],
                                None => seq![],
                            };
                            assert(ids@ =~= waiting);
                            assert(ids_view(self.recipients_inflight@) =~= ids_view(
                                old(self).recipients_inflight@,
                            ).insert(key, waiting));
                            assert(self@ =~= old(self)@.prod(key, mid).0);
                            assert(effects_view(effects@) =~= old(self)@.prod(key, mid).1);
                        }
                    },
                }
            },
        }
        effects
    }

    /// Leaves off what the bridge is in the middle of.
    fn take_task(&mut self) -> (r: Task)
        requires
            old(self).wf(),
        ensures
            final(self).wf(),
            final(self)@ == old(self)@.doing(TaskView::Idle),
            r@ == old(self)@.task,
    {
        let mut task: Task = Task::Idle;
        std::mem::swap(&mut task, &mut self.task);
        assert(self@ =~= old(self)@.doing(TaskView::Idle));
        task
    }

    /// Goes on with the messages that the modem has listed.
    fn list_next(&mut self, listed: Vec<SmsMessage>) -> (r: PollStep)
        requires
            old(self).wf(),
        ensures
            final(self).wf(),
            (final(self)@, r@) == old(self)@.list_next(listed_view(listed@)),
    {
        let mut rest: Vec<SmsMessage> = listed;
        let ghost start = skip_to_unread(listed_view(listed@));
        while rest.len() > 0 && rest[0].status != MessageStatus::ReceivedUnread
            invariant
                skip_to_unread(listed_view(rest@)) == start,
            decreases rest@.len(),
        {
            let ghost before = listed_view(rest@);
            rest.remove(0);
            assert(listed_view(rest@) =~= before.drop_first());
        }
        assert(start == listed_view(rest@));
        let request: StoreRequest;
        if rest.len() == 0 {
            self.task = Task::ListPending;
            request = StoreRequest::GetRecipientsWithMessages;
        } else {
            request =
            StoreRequest::GetRecipientForAddress {
                phone_number: normalize_address(&rest[0].originating_address),
            };
            self.task = Task::FindSender { rest };
        }
        let r = PollStep { effects: Vec::new(), next: Next::Store(request) };
        proof {
            assert(self@ =~= old(self)@.list_next(listed_view(listed@)).0);
            assert(effects_view(r.effects@) =~= Seq::<EffectView>::empty());
        }
        r
    }

    /// Goes on with the recipients who have messages.
    fn pending_next(&mut self, rest: Vec<i32>) -> (r: PollStep)
        requires
            old(self).wf(),
        ensures
            final(self).wf(),
            (final(self)@, r@) == old(self)@.pending_next(rest@),
    {
        let request: StoreRequest;
        let ghost ids = rest@;
        if rest.len() == 0 {
            self.task = Task::ListOrphans;
            request = StoreRequest::GetOrphanedMessages;
        } else {
            request = StoreRequest::GetRecipientById { id: rest[0] };
            self.task = Task::FindPending { ids: rest };
        }
        let r = PollStep { effects: Vec::new(), next: Next::Store(request) };
        proof {
            assert(self@ =~= old(self)@.pending_next(ids).0);
            assert(effects_view(r.effects@) =~= Seq::<EffectView>::empty());
        }
        r
    }

    /// Deletes a message that no recipient has and that cannot be read; these remain.
    pub fn drop_orphan(&mut self, id: i32, rows: Vec<Message>) -> (r: PollStep)
        requires
            old(self).wf(),
        ensures
            final(self).wf(),
            final(self)@.wf(),
            (final(self)@, r@) == old(self)@.waiting(
                TaskView::DropOrphan { id, rows: messages_view(rows@) },
            ),
    {
        let ghost task = TaskView::DropOrphan { id, rows: messages_view(rows@) };
        self.task = Task::DropOrphan { id, rows };
        assert(self@ =~= old(self)@.doing(task));
        Self::ask_store(StoreRequest::DeleteMessage { id })
    }

    /// Goes on with the messages that no recipient has.
    fn orphans_next(&mut self, rows: Vec<Message>) -> (r: PollStep)
        requires
            old(self).wf(),
        ensures
            final(self).wf(),
            (final(self)@, r@) == old(self)@.orphans_next(messages_view(rows@)),
    {
        let mut rest: Vec<Message> = rows;
        let mut effects: Vec<Effect> = Vec::new();
        let ghost whole = old(self)@.orphans_next(messages_view(rows@));
        assert(effects_view(effects@) =~= Seq::<EffectView>::empty());
        assert(effects_view(effects@) + whole.1.effects =~= whole.1.effects);
        while rest.len() > 0
            invariant
                self.wf(),
                whole == old(self)@.orphans_next(messages_view(rows@)),
                ({
                    let (next, step) = self@.orphans_next(messages_view(rest@));
                    (next, after(effects_view(effects@), step)) == whole
                }),
            decreases rest@.len(),
        {
            let ghost before = messages_view(rest@);
            let ghost bridge = self@;
            let ghost done = effects_view(effects@);
            let row: Message = rest.remove(0);
            assert(messages_view(rest@) =~= before.drop_first());
            match originating_address(&row.pdu) {
                Ok(sender) => {
                    let mut more: Vec<Effect> = self.prod_recipient(sender, Some(row.id));
                    let ghost added = effects_view(more@);
                    effects.append(&mut more);
                    proof {
                        assert(effects_view(effects@) =~= done + added);
                        let (next, step) = self@.orphans_next(messages_view(rest@));
                        assert((done + added) + step.effects =~= done + (added + step.effects));
                    }
                },
                Err(_) => {
                    let step: PollStep = self.drop_orphan(row.id, rest);
                    let r: PollStep = Self::put_before(effects, step);
                    assert(self@ =~= bridge.orphans_next(before).0);
                    return r;
                },
            }
        }
        let ghost bridge = self@;
        let ghost done = effects_view(effects@);
        self.task = Task::Idle;
        effects.push(Effect::DeleteSms);
        let r = PollStep { effects, next: Next::Ready };
        proof {
            assert(self@ =~= bridge.orphans_next(messages_view(rest@)).0);
            assert(effects_view(effects@) =~= done + seq![EffectView::DeleteSms]);
        }
        r
    }

    /// A step of effects alone.
    fn effects_only(effects: Vec<Effect>) -> (r: PollStep)
        ensures
            r@ == ready(effects_view(effects@)),
    {
        PollStep { effects, next: Next::Ready }
    }

    /// A step of one effect.
    fn one_effect(effect: Effect) -> (r: PollStep)
        ensures
            r@ == ready(seq![effect@]),
    {
        let mut effects: Vec<Effect> = Vec::new();
        effects.push(effect);
        assert(effects_view(effects@) =~= seq![effect@]);
        Self::effects_only(effects)
    }

    /// A step in which nothing is to be done.
    fn nothing() -> (r: PollStep)
        ensures
            r@ == ready(seq![]),
    {
        let effects: Vec<Effect> = Vec::new();
        assert(effects_view(effects@) =~= Seq::<EffectView>::empty());
        Self::effects_only(effects)
    }

    /// A step that asks something of the database.
    fn ask_store(request: StoreRequest) -> (r: PollStep)
        ensures
            r@ == ask(request@),
    {
        let effects: Vec<Effect> = Vec::new();
        assert(effects_view(effects@) =~= Seq::<EffectView>::empty());
        PollStep { effects, next: Next::Store(request) }
    }

    /// The same step with more to be done before it.
    fn put_before(effects: Vec<Effect>, step: PollStep) -> (r: PollStep)
        ensures
            r@ == after(effects_view(effects@), step@),
    {
        let mut first: Vec<Effect> = effects;
        let mut rest: Vec<Effect> = step.effects;
        let ghost a = effects_view(first@);
        let ghost b = effects_view(rest@);
        first.append(&mut rest);
        assert(effects_view(first@) =~= a + b);
        PollStep { effects: first, next: step.next }
    }

    /// Stops the bridge.
    fn exit(&mut self, reason: ExitReason) -> (r: PollStep)
        requires
            old(self).wf(),
        ensures
            final(self).wf(),
            (final(self)@, r@) == old(self)@.exited(reason),
    {
        self.task = Task::Exited;
        let effects: Vec<Effect> = Vec::new();
        proof {
            assert(self@ =~= old(self)@.exited(reason).0);
            assert(effects_view(effects@) =~= Seq::<EffectView>::empty());
        }
        PollStep { effects, next: Next::Exit(reason) }
    }

    /// Does what the one who runs the bridge asks, in `room`.
    pub fn process_admin_command(&mut self, room: String, text: &str) -> (r: Vec<Effect>)
        requires
            old(self).wf(),
        ensures
            final(self).wf(),
            final(self)@.wf(),
            (final(self)@, effects_view(r@)) == old(self)@.admin_command(room@, text@),
    {
        let effect: Effect = match parse_admin_command(text) {
            AdminCommand::NewConversation(addr) => {
                return self.prod_recipient(addr, None);
            },
            AdminCommand::GetRegistration => Effect::TellRegistration { room },
            AdminCommand::GetSignal => Effect::TellSignal { room },
            AdminCommand::Help => Effect::Say { room, text: help() },
            AdminCommand::Unrecognized => Effect::Say { room, text: unrecognized() },
        };
        let mut effects: Vec<Effect> = Vec::new();
        effects.push(effect);
        assert(effects_view(effects@) =~= seq![effect@]);
        effects
    }

    /// Something happened in a room.
    fn matrix_event(&mut self, event: Event) -> (r: PollStep)
        requires
            old(self).wf(),
            old(self)@.task is Idle,
        ensures
            final(self).wf(),
            (final(self)@, r@) == old(self)@.matrix_event(event@),
    {
        assert(self@ =~= self@.doing(TaskView::Idle));
        let rd: RoomEventData = match event.room_data {
            Some(rd) => rd,
            None => {
                return Self::nothing();
            },
        };
        let room: String = match &rd.room {
            Some(room) => room.clone(),
            None => {
                return Self::nothing();
            },
        };
        if own_user(rd.sender.as_str()) {
            return Self::nothing();
        }
        match event.content {
            EventContent::RoomMember(membership) => {
                if membership == Membership::Invite {
                    if let Some(state_key) = event.state_key {
                        let bot: String = bot_user_id(self.hs_localpart.as_str());
                        if text_eq(state_key.as_str(), bot.as_str()) {
                            return self.process_invite(room);
                        }
                    }
                }
                Self::nothing()
            },
            EventContent::RoomMessage(message) => {
                let request = StoreRequest::GetRecipientForRoom { room_id: room.clone() };
                self.task = Task::FindRoom { event: rd, room, message };
                assert(self@ =~= old(self)@.matrix_event(event@).0);
                Self::ask_store(request)
            },
            EventContent::Other => Self::nothing(),
        }
    }

    /// Takes up an invitation.
    fn process_invite(&self, room: String) -> (r: PollStep)
        ensures
            r@ == ready(seq![EffectView::JoinRoom { room: room@ }]),
    {
        Self::one_effect(Effect::JoinRoom { room })
    }

    /// The recipient who has the room of a message was looked for.
    fn room_message(
        &mut self,
        recipient: Option<Recipient>,
        event: RoomEventData,
        room: String,
        message: RoomMessage,
    ) -> (r: PollStep)
        requires
            old(self).wf(),
            old(self)@.task is Idle,
        ensures
            final(self).wf(),
            (final(self)@, r@) == old(self)@.room_message(
                match recipient {
                    Some(recipient) => Some(recipient@),
                    None => None,
                },
                event@,
                room@,
                message@,
            ),
    {
        assert(self@ =~= self@.doing(TaskView::Idle));
        match recipient {
            Some(recipient) => Self::one_effect(Effect::SendSms { recipient, message, event }),
            None => {
                if let RoomMessage::Text { body } = message {
                    if text_eq(event.sender.as_str(), self.admin.as_str()) && starts_with(
                        body.as_str(),
                        "!",
                    ) {
                        return Self::effects_only(
                            self.process_admin_command(room, body.as_str()),
                        );
                    }
                }
                Self::nothing()
            },
        }
    }

    /// No recipient could be made for an address.
    fn register_failed(&mut self, addr: PduAddress) -> (r: PollStep)
        requires
            old(self).wf(),
            old(self)@.register_failures + 1 < MAX_FAILURES,
            old(self)@.task is Idle,
        ensures
            final(self).wf(),
            (final(self)@, r@) == old(self)@.int_message(IntMessageView::RegisterFailed(addr@)),
    {
        self.recipients_inflight.remove(&addr);
        self.register_failures = self.register_failures + 1;
        proof {
            assert(ids_view(self.recipients_inflight@) =~= ids_view(
                old(self).recipients_inflight@,
            ).remove(addr@));
            assert(self@ =~= old(self)@.int_message(IntMessageView::RegisterFailed(addr@)).0);
        }
        Self::one_effect(Effect::RetryListing { secs: backoff_secs(self.register_failures) })
    }

    /// Something was sent to the bridge.
    fn int_message(&mut self, message: IntMessage) -> (r: PollStep)
        requires
            old(self).wf(),
            old(self)@.accepts(InputView::Int(message@)),
        ensures
            final(self).wf(),
            (final(self)@, r@) == old(self)@.int_message(message@),
    {
        match message {
            IntMessage::CmglRequest => self.cmgl(),
            IntMessage::CmglComplete(listed) => self.list_next(listed),
            IntMessage::CmglFailed => Self::nothing(),
            IntMessage::MatrixEvent(event) => self.matrix_event(event),
            IntMessage::RegisterHandle(addr, handle) => {
                let request = StoreRequest::GetRecipientForAddress {
                    phone_number: normalize_address(&addr),
                };
                self.task = Task::FindRegistered { addr, handle };
                assert(self@ =~= old(self)@.int_message(message@).0);
                Self::ask_store(request)
            },
            IntMessage::RegisterFailed(addr) => self.register_failed(addr),
            IntMessage::SendSucceeded(event) => {
                let room: String = event.room.unwrap();
                Self::one_effect(Effect::ReadReceipt { room, event_id: event.event_id })
            },
            IntMessage::SendFailed(event, error) => {
                let room: String = event.room.unwrap();
                Self::one_effect(Effect::ReportFailure { room, sender: event.sender, error })
            },
        }
    }

    /// Has the messages that the modem keeps listed.
    pub fn cmgl(&self) -> (r: PollStep)
        ensures
            r@ == ready(seq![EffectView::ListSms]),
    {
        Self::one_effect(Effect::ListSms)
    }

    /// Something unsolicited came from the modem.
    fn urc(&self, param: Option<String>) -> (r: PollStep)
        ensures
            (self@, r@) == self@.urc(text_view(param)),
    {
        if let Some(name) = param {
            if text_eq(name.as_str(), "+CMTI") {
                return self.cmgl();
            }
        }
        Self::nothing()
    }

    /// There is a row for the first listed message.
    fn message_saved(
        &mut self,
        rest: Vec<SmsMessage>,
        recipient_id: Option<i32>,
        row: Message,
    ) -> (r: PollStep)
        requires
            old(self).wf(),
            rest@.len() > 0,
        ensures
            final(self).wf(),
            (final(self)@, r@) == ({
                let mid = if recipient_id is Some {
                    None
                } else {
                    Some(row.id)
                };
                let listed = listed_view(rest@);
                let (prodded, effects) = old(self)@.prod(listed[0].originating_address, mid);
                let (next, step) = prodded.list_next(listed.drop_first());
                (next, after(effects, step))
            }),
    {
        let ghost listed = listed_view(rest@);
        let mut rest: Vec<SmsMessage> = rest;
        let first: SmsMessage = rest.remove(0);
        assert(listed_view(rest@) =~= listed.drop_first());
        let mid: Option<i32> = if recipient_id.is_some() {
            None
        } else {
            Some(row.id)
        };
        let effects: Vec<Effect> = self.prod_recipient(first.originating_address, mid);
        let step: PollStep = self.list_next(rest);
        Self::put_before(effects, step)
    }

    /// One of the recipients who have messages was fetched.
    fn pending_found(&mut self, ids: Vec<i32>, recipient: Recipient) -> (r: PollStep)
        requires
            old(self).wf(),
            ids@.len() > 0,
            separable(recipient@.phone_number),
        ensures
            final(self).wf(),
            (final(self)@, r@) == match un_normalized(recipient@.phone_number) {
                Some(addr) => {
                    let (prodded, effects) = old(self)@.prod(addr, None);
                    let (next, step) = prodded.pending_next(ids@.drop_first());
                    (next, after(effects, step))
                },
                None => old(self)@.exited(ExitReason::InvalidAddress),
            },
    {
        match un_normalize_address(recipient.phone_number.as_str()) {
            Some(addr) => {
                let ghost all = ids@;
                let mut ids: Vec<i32> = ids;
                ids.remove(0);
                assert(ids@ =~= all.drop_first());
                let effects: Vec<Effect> = self.prod_recipient(addr, None);
                let step: PollStep = self.pending_next(ids);
                Self::put_before(effects, step)
            },
            None => self.exit(ExitReason::InvalidAddress),
        }
    }

    /// The recipient for an address that has got a handle was found.
    fn registered(&mut self, addr: PduAddress, handle: UserHandle, recipient: Recipient) -> (r:
        PollStep)
        requires
            old(self).wf(),
            old(self)@.inflight.contains_key(addr@),
        ensures
            final(self).wf(),
            (final(self)@, r@) == (BridgeView {
                recipients: old(self)@.recipients.insert(addr@, handle),
                inflight: old(self)@.inflight.remove(addr@),
                ..old(self)@
            }).waiting(
                TaskView::Parent {
                    addr: addr@,
                    recipient: recipient.id,
                    messages: old(self)@.inflight[addr@],
                },
            ),
    {
        let ghost key = addr@;
        self.recipients.insert(addr.copy(), handle);
        let messages: Vec<i32> = self.recipients_inflight.remove(&addr).unwrap();
        self.task =
        Task::Parent { addr, recipient: recipient.id, messages: Ghost(messages@) };
        proof {
            assert(ids_view(self.recipients_inflight@) =~= ids_view(
                old(self).recipients_inflight@,
            ).remove(key));
            assert(self@ =~= (BridgeView {
                recipients: old(self)@.recipients.insert(key, handle),
                inflight: old(self)@.inflight.remove(key),
                ..old(self)@
            }).doing(
                TaskView::Parent {
                    addr: key,
                    recipient: recipient.id,
                    messages: old(self)@.inflight[key],
                },
            ));
        }
        Self::ask_store(
            StoreRequest::SetRecipientForMessages { recipient: recipient.id, messages },
        )
    }

    /// The database answered.
    fn store_reply(&mut self, reply: StoreReply) -> (r: PollStep)
        requires
            old(self).wf(),
            old(self)@.accepts(InputView::Reply(reply@)),
        ensures
            final(self).wf(),
            (final(self)@, r@) == old(self)@.store_reply(reply@),
    {
        let ghost bridge = self@;
        let task: Task = self.take_task();
        match (task, reply) {
            (_, StoreReply::Failed) => self.exit(ExitReason::Store),
            (Task::FindSender { rest }, StoreReply::Found(recipient)) => {
                let recipient_id: Option<i32> = match recipient {
                    Some(recipient) => Some(recipient.id),
                    None => None,
                };
                let request = StoreRequest::CreateMessage {
                    recipient_id,
                    pdu: copy_octets(&rest[0].raw_pdu),
                };
                self.task = Task::SaveMessage { rest, recipient_id };
                assert(self@ =~= bridge.store_reply(reply@).0);
                Self::ask_store(request)
            },
            (
                Task::SaveMessage { rest, recipient_id },
                StoreReply::Message(row),
            ) => self.message_saved(rest, recipient_id, row),
            (Task::ListPending, StoreReply::RecipientIds(ids)) => self.pending_next(ids),
            (
                Task::FindPending { ids },
                StoreReply::Recipient(recipient),
            ) => self.pending_found(ids, recipient),
            (Task::ListOrphans, StoreReply::Messages(rows)) => {
                proof {
                    lemma_orphans_ignore_task(bridge, TaskView::Idle, messages_view(rows@));
                }
                self.orphans_next(rows)
            },
            (Task::DropOrphan { id: _, rows }, StoreReply::Done) => {
                proof {
                    lemma_orphans_ignore_task(bridge, TaskView::Idle, messages_view(rows@));
                }
                self.orphans_next(rows)
            },
            (
                Task::FindRegistered { addr, handle },
                StoreReply::Found(Some(recipient)),
            ) => self.registered(addr, handle, recipient),
            (Task::Parent { addr, recipient: _, messages: _ }, StoreReply::Done) => {
                Self::effects_only(self.prod_recipient(addr, None))
            },
            (
                Task::FindRoom { event, room, message },
                StoreReply::Found(recipient),
            ) => self.room_message(recipient, event, room, message),
            _ => Self::nothing(),
        }
    }

    /// Whether something can come in now.
    pub fn accepts(&self, input: &PollInput) -> (r: bool)
        requires
            self.wf(),
        ensures
            r == self@.accepts(input@),
    {
        match input {
            PollInput::Urc(_) => matches!(self.task, Task::Idle),
            PollInput::Int(message) => {
                if !matches!(self.task, Task::Idle) {
                    return false;
                }
                match message {
                    IntMessage::RegisterFailed(_) => self.register_failures < MAX_FAILURES - 1,
                    IntMessage::SendSucceeded(event) => event.room.is_some(),
                    IntMessage::SendFailed(event, _) => event.room.is_some(),
                    _ => true,
                }
            },
            PollInput::Reply(reply) => match (&self.task, reply) {
                (Task::Idle, _) => false,
                (Task::Exited, _) => false,
                (_, StoreReply::Failed) => true,
                (Task::FindSender { .. }, StoreReply::Found(_)) => true,
                (Task::SaveMessage { .. }, StoreReply::Message(_)) => true,
                (Task::ListPending, StoreReply::RecipientIds(_)) => true,
                (Task::FindPending { .. }, StoreReply::Recipient(recipient)) => is_separable(
                    recipient.phone_number.as_str(),
                ),
                (Task::ListOrphans, StoreReply::Messages(_)) => true,
                (Task::DropOrphan { .. }, StoreReply::Done) => true,
                (Task::FindRegistered { addr, .. }, StoreReply::Found(recipient)) => {
                    recipient.is_some() && self.recipients_inflight.contains(addr)
                },
                (Task::Parent { .. }, StoreReply::Done) => true,
                (Task::FindRoom { .. }, StoreReply::Found(_)) => true,
                _ => false,
            },
        }
    }

    /// Takes in what comes, and says what is to be done.
    pub fn poll(&mut self, input: PollInput) -> (r: PollStep)
        requires
            old(self).wf(),
            old(self)@.accepts(input@),
        ensures
            final(self).wf(),
            final(self)@.wf(),
            (final(self)@, r@) == old(self)@.poll(input@),
    {
        match input {
            PollInput::Urc(param) => self.urc(param),
            PollInput::Int(message) => self.int_message(message),
            PollInput::Reply(reply) => self.store_reply(reply),
        }
    }
}

/// The bridge as it starts.
pub struct Startup {
    /// The bridge, before anything has happened.
    pub messaging: MessagingFuture,
    /// What is to be done first.
    pub first: PollStep,
    /// After how many seconds each `CmglRequest` is sent again and again; none are sent where
    /// this is missing.
    pub interval: Option<u64>,
}

/// Starts the bridge, for the one who runs it and the homeserver they use.
///
/// `cmgl_secs` says how often the modem's messages are listed: every so many seconds where it is
/// positive, and otherwise only when the modem indicates new ones, or is asked to.
/// `indications` says whether the modem could be set to do so. Where it could not and
/// `cmgl_secs` is negative, the bridge does not start.
pub fn attach_tokio(
    admin: String,
    hs_localpart: String,
    cmgl_secs: i64,
    indications: bool,
) -> (r: Option<Startup>)
    ensures
        r is None <==> !indications && cmgl_secs < 0,
        r matches Some(startup) ==> {
            &&& startup.messaging.wf()
            &&& startup.messaging@.wf()
            &&& startup.messaging@ == BridgeView::initial(admin@, hs_localpart@)
            &&& startup.first@ == ready(seq![EffectView::ListSms])
            &&& startup.interval == (if cmgl_secs > 0 {
                Some(cmgl_secs as u64)
            } else {
                None
            })
        },
{
    if !indications && cmgl_secs < 0 {
        return None;
    }
    let interval: Option<u64> = if cmgl_secs > 0 {
        Some(cmgl_secs as u64)
    } else {
        None
    };
    let messaging: MessagingFuture = MessagingFuture::new(admin, hs_localpart);
    let first: PollStep = messaging.cmgl();
    Some(Startup { messaging, first, interval })
}

/// What is to be done is to be done in the order in which it stands.
pub proof fn law_effects_stand_in_order(items: Seq<Effect>, i: int)
    requires
        0 <= i < items.len(),
    ensures
        effects_view(items).len() == items.len(),
        effects_view(items)[i] == items[i]@,
{
}

/// Messages are listed in the order in which they stand.
pub proof fn law_listed_messages_stand_in_order(items: Seq<SmsMessage>, i: int)
    requires
        0 <= i < items.len(),
    ensures
        listed_view(items).len() == items.len(),
        listed_view(items)[i] == items[i]@,
{
}

} // verus!
