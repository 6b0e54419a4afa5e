use matrix_appservice_sms::bridge::{ExitReason, MessageStatus, UserHandle};
use matrix_appservice_sms::events::{Event, EventContent, Membership, RoomEventData, RoomMessage};
use matrix_appservice_sms::future::{
    attach_tokio, Effect, IntMessage, MessagingFuture, Next, PollInput, PollStep, SmsMessage,
};
use matrix_appservice_sms::models::{Message, Recipient};
use matrix_appservice_sms::pdu::PduAddress;
use matrix_appservice_sms::store::{StoreReply, StoreRequest};

fn s(text: &str) -> String {
    text.to_string()
}

fn bridge() -> MessagingFuture {
    MessagingFuture::new(s("@admin:example.org"), s("example.org"))
}

fn sms(status: MessageStatus, number: &str, octet: u8) -> SmsMessage {
    SmsMessage { status, raw_pdu: vec![octet], originating_address: PduAddress::parse(number) }
}

fn recipient(id: i32, phone_number: &str) -> Recipient {
    Recipient {
        id,
        phone_number: s(phone_number),
        user_id: format!("_sms_{}", phone_number),
        room_id: format!("!{}:example.org", id),
    }
}

fn row(id: i32, pdu: Vec<u8>) -> Message {
    Message { id, recipient_id: None, pdu, processing: false, failures: 0 }
}

fn readable_pdu() -> Vec<u8> {
    vec![
        0, 4, 11, 0x91, 0x13, 0x46, 0x61, 0, 0x89, 0xF6, 0, 8, 0x20, 0x80, 0x62, 0x91, 0x73, 0x14,
        8, 2, 0, 0x48,
    ]
}

fn event_data(sender: &str) -> RoomEventData {
    RoomEventData {
        event_id: s("$1"),
        room: Some(s("!room:example.org")),
        sender: s(sender),
    }
}

fn text_event(sender: &str, body: &str) -> Event {
    Event {
        content: EventContent::RoomMessage(RoomMessage::Text { body: s(body) }),
        room_data: Some(event_data(sender)),
        state_key: None,
    }
}

fn take(b: &mut MessagingFuture, input: PollInput) -> PollStep {
    assert!(b.accepts(&input));
    b.poll(input)
}

fn sent(b: &mut MessagingFuture, message: IntMessage) -> PollStep {
    take(b, PollInput::Int(message))
}

fn reply(b: &mut MessagingFuture, reply: StoreReply) -> PollStep {
    take(b, PollInput::Reply(reply))
}

fn is_nothing(step: PollStep) -> bool {
    step.effects.is_empty() && matches!(step.next, Next::Ready)
}

fn is_list(step: PollStep) -> bool {
    step.effects.len() == 1 && matches!(step.effects[0], Effect::ListSms)
        && matches!(step.next, Next::Ready)
}

fn starts(effect: &Effect, number: &str) -> bool {
    match effect {
        Effect::StartRecipient(addr) => addr.same(&PduAddress::parse(number)),
        _ => false,
    }
}

fn register(b: &mut MessagingFuture, number: &str, stored: &str, ctl: u64) -> Vec<i32> {
    let addr = PduAddress::parse(number);
    sent(b, IntMessage::RegisterHandle(addr, UserHandle { ctl }));
    let step = reply(b, StoreReply::Found(Some(recipient(5, stored))));
    let messages = match step.next {
        Next::Store(StoreRequest::SetRecipientForMessages { recipient, messages }) => {
            assert_eq!(recipient, 5);
            messages
        },
        _ => panic!("the messages are given to the recipient"),
    };
    let step = reply(b, StoreReply::Done);
    assert_eq!(step.effects.len(), 1);
    assert!(matches!(step.effects[0], Effect::ProcessNew(handle) if handle.ctl == ctl));
    messages
}

#[test]
fn startup_lists_messages() {
    let startup = attach_tokio(s("@admin:example.org"), s("example.org"), 0, false).unwrap();
    assert!(is_list(startup.first));
    assert_eq!(startup.interval, None);
}

#[test]
fn startup_depends_on_the_interval() {
    assert_eq!(attach_tokio(s("a"), s("h"), 30, false).unwrap().interval, Some(30));
    assert_eq!(attach_tokio(s("a"), s("h"), -1, true).unwrap().interval, None);
    assert!(attach_tokio(s("a"), s("h"), -1, false).is_none());
}

#[test]
fn new_message_indication_lists_messages() {
    let mut b = bridge();
    assert!(is_list(take(&mut b, PollInput::Urc(Some(s("+CMTI"))))));
    assert!(is_nothing(take(&mut b, PollInput::Urc(Some(s("+CREG"))))));
    assert!(is_nothing(take(&mut b, PollInput::Urc(None))));
    assert!(is_list(sent(&mut b, IntMessage::CmglRequest)));
    assert!(is_nothing(sent(&mut b, IntMessage::CmglFailed)));
}

#[test]
fn listing_from_beginning_to_end() {
    let mut b = bridge();
    let listed = vec![
        sms(MessageStatus::ReceivedRead, "+441", 1),
        sms(MessageStatus::ReceivedUnread, "+442", 2),
        sms(MessageStatus::StoredSent, "+443", 3),
        sms(MessageStatus::ReceivedUnread, "+444", 4),
    ];
    let step = sent(&mut b, IntMessage::CmglComplete(listed));
    assert!(matches!(step.next, Next::Store(StoreRequest::GetRecipientForAddress { phone_number })
        if phone_number == "91442"));
    assert!(!b.accepts(&PollInput::Int(IntMessage::CmglRequest)));
    assert!(!b.accepts(&PollInput::Reply(StoreReply::Done)));
    let step = reply(&mut b, StoreReply::Found(None));
    assert!(matches!(step.next, Next::Store(StoreRequest::CreateMessage { recipient_id: None, pdu })
        if pdu == vec![2]));
    let step = reply(&mut b, StoreReply::Message(row(10, vec![2])));
    assert_eq!(step.effects.len(), 1);
    assert!(starts(&step.effects[0], "+442"));
    assert!(matches!(step.next, Next::Store(StoreRequest::GetRecipientForAddress { phone_number })
        if phone_number == "91444"));
    let step = reply(&mut b, StoreReply::Found(Some(recipient(8, "91444"))));
    assert!(matches!(step.next,
        Next::Store(StoreRequest::CreateMessage { recipient_id: Some(8), pdu }) if pdu == vec![4]));
    let step = reply(&mut b, StoreReply::Message(row(11, vec![4])));
    assert!(starts(&step.effects[0], "+444"));
    assert!(matches!(step.next, Next::Store(StoreRequest::GetRecipientsWithMessages)));
    let step = reply(&mut b, StoreReply::RecipientIds(vec![3]));
    assert!(matches!(step.next, Next::Store(StoreRequest::GetRecipientById { id: 3 })));
    let step = reply(&mut b, StoreReply::Recipient(recipient(3, "91445")));
    assert!(starts(&step.effects[0], "+445"));
    assert!(matches!(step.next, Next::Store(StoreRequest::GetOrphanedMessages)));
    let orphans = vec![row(20, readable_pdu()), row(21, vec![]), row(22, readable_pdu())];
    let step = reply(&mut b, StoreReply::Messages(orphans));
    assert_eq!(step.effects.len(), 1);
    assert!(starts(&step.effects[0], "+31641600986"));
    assert!(matches!(step.next, Next::Store(StoreRequest::DeleteMessage { id: 21 })));
    let step = reply(&mut b, StoreReply::Done);
    assert_eq!(step.effects.len(), 1);
    assert!(matches!(step.effects[0], Effect::DeleteSms));
    assert!(matches!(step.next, Next::Ready));
    assert_eq!(register(&mut b, "+31641600986", "9131641600986", 1), vec![20, 22]);
    assert_eq!(register(&mut b, "+442", "91442", 2), vec![10]);
    assert_eq!(register(&mut b, "+444", "91444", 3), Vec::<i32>::new());
}

#[test]
fn recipient_is_made_once() {
    let mut b = bridge();
    let addr = PduAddress::parse("+441");
    assert_eq!(b.prod_recipient(addr.copy(), Some(1)).len(), 1);
    assert_eq!(b.prod_recipient(addr.copy(), Some(2)).len(), 0);
    assert_eq!(b.prod_recipient(addr.copy(), None).len(), 0);
    assert_eq!(register(&mut b, "+441", "91441", 9), vec![1, 2]);
    let effects = b.prod_recipient(addr, Some(3));
    assert_eq!(effects.len(), 1);
    assert!(matches!(effects[0], Effect::ProcessNew(handle) if handle.ctl == 9));
}

#[test]
fn handle_is_only_taken_for_an_address_in_the_making() {
    let mut b = bridge();
    let message = IntMessage::RegisterHandle(PduAddress::parse("+441"), UserHandle { ctl: 1 });
    let step = sent(&mut b, message);
    assert!(matches!(step.next, Next::Store(StoreRequest::GetRecipientForAddress { phone_number })
        if phone_number == "91441"));
    let found = StoreReply::Found(Some(recipient(5, "91441")));
    assert!(!b.accepts(&PollInput::Reply(found)));
    assert!(!b.accepts(&PollInput::Reply(StoreReply::Found(None))));
    let step = reply(&mut b, StoreReply::Failed);
    assert!(matches!(step.next, Next::Exit(ExitReason::Store)));
}

#[test]
fn failed_registration_is_retried() {
    let mut b = bridge();
    let addr = PduAddress::parse("+441");
    assert!(starts(&b.prod_recipient(addr.copy(), Some(1))[0], "+441"));
    for secs in vec![2, 4, 8] {
        let step = sent(&mut b, IntMessage::RegisterFailed(addr.copy()));
        assert_eq!(step.effects.len(), 1);
        assert!(matches!(step.effects[0], Effect::RetryListing { secs: wait } if wait == secs));
    }
    assert!(starts(&b.prod_recipient(addr.copy(), None)[0], "+441"));
    for _ in 3..63 {
        sent(&mut b, IntMessage::RegisterFailed(addr.copy()));
    }
    assert!(!b.accepts(&PollInput::Int(IntMessage::RegisterFailed(addr))));
}

#[test]
fn failing_database_stops_the_bridge() {
    let mut b = bridge();
    sent(&mut b, IntMessage::CmglComplete(vec![]));
    let step = reply(&mut b, StoreReply::Failed);
    assert!(step.effects.is_empty());
    assert!(matches!(step.next, Next::Exit(ExitReason::Store)));
    assert!(!b.accepts(&PollInput::Int(IntMessage::CmglRequest)));
    assert!(!b.accepts(&PollInput::Reply(StoreReply::Failed)));
}

#[test]
fn invalid_number_in_the_database_stops_the_bridge() {
    let mut b = bridge();
    sent(&mut b, IntMessage::CmglComplete(vec![]));
    reply(&mut b, StoreReply::RecipientIds(vec![3]));
    let odd = PollInput::Reply(StoreReply::Recipient(recipient(3, "D0x")));
    assert!(!b.accepts(&odd));
    let step = reply(&mut b, StoreReply::Recipient(recipient(3, "xx123")));
    assert!(matches!(step.next, Next::Exit(ExitReason::InvalidAddress)));
}

#[test]
fn invitation_of_the_bot_is_taken_up() {
    let mut b = bridge();
    let invite = |state_key: Option<&str>, membership| Event {
        content: EventContent::RoomMember(membership),
        room_data: Some(event_data("@admin:example.org")),
        state_key: state_key.map(s),
    };
    let bot = Some("@_sms_bot:example.org");
    let step = sent(&mut b, IntMessage::MatrixEvent(invite(bot, Membership::Invite)));
    assert_eq!(step.effects.len(), 1);
    assert!(matches!(&step.effects[0], Effect::JoinRoom { room } if room == "!room:example.org"));
    assert!(is_nothing(sent(&mut b, IntMessage::MatrixEvent(invite(bot, Membership::Join)))));
    assert!(is_nothing(sent(&mut b, IntMessage::MatrixEvent(invite(None, Membership::Invite)))));
    let other = Some("@_sms_bot:example.com");
    assert!(is_nothing(sent(&mut b, IntMessage::MatrixEvent(invite(other, Membership::Invite)))));
}

#[test]
fn own_users_are_ignored() {
    let mut b = bridge();
    let event = text_event("@_sms_91441:example.org", "!help");
    assert!(is_nothing(sent(&mut b, IntMessage::MatrixEvent(event))));
}

#[test]
fn events_without_a_room_are_ignored() {
    let mut b = bridge();
    let mut event = text_event("@admin:example.org", "!help");
    event.room_data.as_mut().unwrap().room = None;
    assert!(is_nothing(sent(&mut b, IntMessage::MatrixEvent(event))));
    let mut event = text_event("@admin:example.org", "!help");
    event.room_data = None;
    assert!(is_nothing(sent(&mut b, IntMessage::MatrixEvent(event))));
    let mut event = text_event("@admin:example.org", "!help");
    event.content = EventContent::Other;
    assert!(is_nothing(sent(&mut b, IntMessage::MatrixEvent(event))));
}

#[test]
fn message_in_a_recipients_room_is_sent() {
    let mut b = bridge();
    let step = sent(&mut b, IntMessage::MatrixEvent(text_event("@x:example.org", "!help")));
    assert!(matches!(step.next, Next::Store(StoreRequest::GetRecipientForRoom { room_id })
        if room_id == "!room:example.org"));
    let step = reply(&mut b, StoreReply::Found(Some(recipient(4, "91441"))));
    assert_eq!(step.effects.len(), 1);
    match &step.effects[0] {
        Effect::SendSms { recipient, message, event } => {
            assert_eq!(recipient.id, 4);
            assert!(matches!(message, RoomMessage::Text { body } if body == "!help"));
            assert_eq!(event.event_id, "$1");
            assert_eq!(event.room, Some(s("!room:example.org")));
        },
        _ => panic!("the message is sent"),
    }
}

fn command(sender: &str, body: &str) -> Vec<Effect> {
    let mut b = bridge();
    sent(&mut b, IntMessage::MatrixEvent(text_event(sender, body)));
    let step = reply(&mut b, StoreReply::Found(None));
    assert!(matches!(step.next, Next::Ready));
    step.effects
}

#[test]
fn commands_of_the_admin_are_obeyed() {
    let admin = "@admin:example.org";
    assert!(starts(&command(admin, "!sms +441")[0], "+441"));
    assert!(matches!(&command(admin, "!reg")[0], Effect::TellRegistration { room }
        if room == "!room:example.org"));
    assert!(matches!(&command(admin, "!csq")[0], Effect::TellSignal { room }
        if room == "!room:example.org"));
    assert!(matches!(&command(admin, "!help")[0], Effect::Say { text, .. }
        if text.starts_with("This is an instance")));
    assert!(matches!(&command(admin, "!what")[0], Effect::Say { room, text }
        if room == "!room:example.org" && text.starts_with("Unrecognized command.")));
}

#[test]
fn only_the_admin_gives_commands() {
    assert!(command("@x:example.org", "!help").is_empty());
    assert!(command("@admin:example.org", "help").is_empty());
    let mut b = bridge();
    let mut event = text_event("@admin:example.org", "");
    event.content = EventContent::RoomMessage(RoomMessage::Notice { body: s("!help") });
    sent(&mut b, IntMessage::MatrixEvent(event));
    assert!(is_nothing(reply(&mut b, StoreReply::Found(None))));
}

#[test]
fn outcome_of_sending_is_told() {
    let mut b = bridge();
    let step = sent(&mut b, IntMessage::SendSucceeded(event_data("@x:example.org")));
    assert!(matches!(&step.effects[0], Effect::ReadReceipt { room, event_id }
        if room == "!room:example.org" && event_id == "$1"));
    let step = sent(&mut b, IntMessage::SendFailed(event_data("@x:example.org"), s("no signal")));
    assert!(matches!(&step.effects[0], Effect::ReportFailure { room, sender, error }
        if room == "!room:example.org" && sender == "@x:example.org" && error == "no signal"));
    let mut nowhere = event_data("@x:example.org");
    nowhere.room = None;
    assert!(!b.accepts(&PollInput::Int(IntMessage::SendSucceeded(nowhere))));
}

#[test]
fn orphan_that_cannot_be_read_is_deleted() {
    let mut b = bridge();
    let step = b.drop_orphan(4, vec![row(5, readable_pdu())]);
    assert!(step.effects.is_empty());
    assert!(matches!(step.next, Next::Store(StoreRequest::DeleteMessage { id: 4 })));
    let step = reply(&mut b, StoreReply::Done);
    assert_eq!(step.effects.len(), 2);
    assert!(starts(&step.effects[0], "+31641600986"));
    assert!(matches!(step.effects[1], Effect::DeleteSms));
}

fn clearings(listed: Vec<SmsMessage>, replies: Vec<StoreReply>) -> usize {
    let mut b = bridge();
    let mut steps = vec![sent(&mut b, IntMessage::CmglComplete(listed))];
    for answer in replies {
        steps.push(reply(&mut b, answer));
    }
    steps.iter().filter(|step| step.effects.iter().any(|e| matches!(e, Effect::DeleteSms))).count()
}

#[test]
fn modem_is_cleared_once_and_last() {
    let listed = || vec![sms(MessageStatus::ReceivedUnread, "+442", 2)];
    let stored = || vec![StoreReply::Found(None), StoreReply::Message(row(10, vec![2]))];
    assert_eq!(clearings(listed(), stored()), 0);
    let mut failing = stored();
    failing.push(StoreReply::Failed);
    assert_eq!(clearings(listed(), failing), 0);
    let mut whole = stored();
    whole.push(StoreReply::RecipientIds(vec![]));
    whole.push(StoreReply::Messages(vec![row(20, readable_pdu()), row(21, vec![])]));
    whole.push(StoreReply::Done);
    assert_eq!(clearings(listed(), whole), 1);
}

#[test]
fn failures_of_others_do_not_stop_the_bridge() {
    let mut b = bridge();
    assert!(matches!(sent(&mut b, IntMessage::CmglFailed).next, Next::Ready));
    let failed = IntMessage::RegisterFailed(PduAddress::parse("+441"));
    assert!(matches!(sent(&mut b, failed).next, Next::Ready));
    let failed = IntMessage::SendFailed(event_data("@x:example.org"), s("no signal"));
    assert!(matches!(sent(&mut b, failed).next, Next::Ready));
    assert!(b.accepts(&PollInput::Int(IntMessage::CmglRequest)));
}

#[test]
fn listing_leaves_no_one_out() {
    let mut b = bridge();
    b.prod_recipient(PduAddress::parse("+445"), None);
    register(&mut b, "+445", "91445", 7);
    sent(&mut b, IntMessage::CmglComplete(vec![]));
    reply(&mut b, StoreReply::RecipientIds(vec![3, 4]));
    let step = reply(&mut b, StoreReply::Recipient(recipient(3, "91445")));
    assert!(matches!(step.effects[0], Effect::ProcessNew(handle) if handle.ctl == 7));
    assert!(matches!(step.next, Next::Store(StoreRequest::GetRecipientById { id: 4 })));
    let step = reply(&mut b, StoreReply::Recipient(recipient(4, "91446")));
    assert!(starts(&step.effects[0], "+446"));
    let orphans = vec![row(20, vec![]), row(21, vec![]), row(22, readable_pdu())];
    let step = reply(&mut b, StoreReply::Messages(orphans));
    assert!(matches!(step.next, Next::Store(StoreRequest::DeleteMessage { id: 20 })));
    let step = reply(&mut b, StoreReply::Done);
    assert!(matches!(step.next, Next::Store(StoreRequest::DeleteMessage { id: 21 })));
    let step = reply(&mut b, StoreReply::Done);
    assert!(starts(&step.effects[0], "+31641600986"));
    assert!(matches!(step.effects[1], Effect::DeleteSms));
    assert_eq!(register(&mut b, "+31641600986", "9131641600986", 8), vec![22]);
}
