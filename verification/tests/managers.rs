use matrix_appservice_sms::models::Message;
use matrix_appservice_sms::store::{StoreReply, StoreRequest};
use matrix_appservice_sms::users::{
    UserEffect, UserError, UserInput, UserManager, UserMessage, UserNext, UserStep,
};

fn readable_pdu(octet: u8) -> Vec<u8> {
    vec![
        0, 4, 11, 0x91, 0x13, 0x46, 0x61, 0, 0x89, 0xF6, 0, 8, 0x20, 0x80, 0x62, 0x91, 0x73, 0x14,
        8, 2, 0, octet,
    ]
}

fn row(id: i32, pdu: Vec<u8>) -> Message {
    Message { id, recipient_id: Some(7), pdu, processing: false, failures: 0 }
}

fn send(m: &mut UserManager, message: UserMessage) -> UserStep {
    let input = UserInput::Message(message);
    assert!(m.accepts(&input));
    m.future(input)
}

fn reply(m: &mut UserManager, reply: StoreReply) -> UserStep {
    let input = UserInput::Reply(reply);
    assert!(m.accepts(&input));
    m.future(input)
}

fn is_request_of_list(step: UserStep) -> bool {
    step.effect.is_none()
        && matches!(step.next, UserNext::Store(StoreRequest::GetMessagesForRecipient { recipient: 7 }))
}

fn is_delivery(step: &UserStep, message: i32, octets: &Vec<u8>) -> bool {
    let delivers = match &step.effect {
        Some(UserEffect::Deliver { id, pdu }) => *id == message && pdu == octets,
        _ => false,
    };
    let marks = match &step.next {
        UserNext::Store(StoreRequest::MarkMessageProcessing { id, processing }) => {
            *id == message && *processing
        },
        _ => false,
    };
    delivers && marks
}

#[test]
fn new_messages_are_delivered_in_order() {
    let mut m = UserManager::new(7);
    assert!(is_request_of_list(send(&mut m, UserMessage::ProcessNew)));
    let mut processing = row(2, readable_pdu(2));
    processing.processing = true;
    let mut failed = row(3, readable_pdu(3));
    failed.failures = 1;
    let rows = vec![
        row(1, readable_pdu(1)),
        processing,
        failed,
        row(4, vec![]),
        row(5, readable_pdu(5)),
    ];
    let step = reply(&mut m, StoreReply::Messages(rows));
    assert!(is_delivery(&step, 1, &readable_pdu(1)));
    let step = reply(&mut m, StoreReply::Done);
    assert!(step.effect.is_none());
    assert!(matches!(step.next, UserNext::Store(StoreRequest::DeleteMessage { id: 4 })));
    let step = reply(&mut m, StoreReply::Done);
    assert!(is_delivery(&step, 5, &readable_pdu(5)));
    let step = reply(&mut m, StoreReply::Done);
    assert!(step.effect.is_none());
    assert!(matches!(step.next, UserNext::Ready));
}

#[test]
fn messages_being_processed_are_not_delivered_again() {
    let mut m = UserManager::new(7);
    send(&mut m, UserMessage::ProcessNew);
    let mut rows = vec![row(1, readable_pdu(1)), row(2, readable_pdu(2))];
    for row in rows.iter_mut() {
        row.processing = true;
    }
    let step = reply(&mut m, StoreReply::Messages(rows));
    assert!(step.effect.is_none());
    assert!(matches!(step.next, UserNext::Ready));
}

#[test]
fn delivered_message_is_deleted() {
    let mut m = UserManager::new(7);
    let step = send(&mut m, UserMessage::NotifyComplete(3));
    assert!(step.effect.is_none());
    assert!(matches!(step.next, UserNext::Store(StoreRequest::DeleteMessage { id: 3 })));
    let step = reply(&mut m, StoreReply::Done);
    assert!(step.effect.is_none());
    assert!(matches!(step.next, UserNext::Ready));
}

#[test]
fn failed_message_is_retried_after_a_wait() {
    let mut m = UserManager::new(7);
    for failures in 1..6 {
        let step = send(&mut m, UserMessage::NotifyFailed(3));
        assert!(matches!(step.next, UserNext::Store(StoreRequest::MarkMessageFailed { id: 3 })));
        let step = reply(&mut m, StoreReply::Failures(failures));
        assert!(matches!(step.effect, Some(UserEffect::RetryAfter { id: 3, secs })
            if secs == 1 << failures));
        assert!(matches!(step.next, UserNext::Ready));
        let step = send(&mut m, UserMessage::ProcessFailed(3));
        assert!(matches!(step.next, UserNext::Store(StoreRequest::GetMessageById { id: 3 })));
        let mut failed = row(3, readable_pdu(9));
        failed.failures = failures;
        let step = reply(&mut m, StoreReply::Message(failed));
        assert!(is_delivery(&step, 3, &readable_pdu(9)));
        assert!(matches!(reply(&mut m, StoreReply::Done).next, UserNext::Ready));
    }
}

#[test]
fn failed_message_that_cannot_be_read_is_given_up() {
    let mut m = UserManager::new(7);
    send(&mut m, UserMessage::ProcessFailed(3));
    let step = reply(&mut m, StoreReply::Message(row(3, vec![1])));
    assert!(step.effect.is_none());
    assert!(matches!(step.next, UserNext::Failed(UserError::Malformed)));
}

#[test]
fn failing_database_ends_what_was_sent() {
    let mut m = UserManager::new(7);
    send(&mut m, UserMessage::ProcessNew);
    let rows = vec![row(1, readable_pdu(1)), row(2, readable_pdu(2))];
    assert!(is_delivery(&reply(&mut m, StoreReply::Messages(rows)), 1, &readable_pdu(1)));
    let step = reply(&mut m, StoreReply::Failed);
    assert!(step.effect.is_none());
    assert!(matches!(step.next, UserNext::Failed(UserError::Store)));
    assert!(is_request_of_list(send(&mut m, UserMessage::ProcessNew)));
}

#[test]
fn manager_takes_in_only_what_it_waits_for() {
    let mut m = UserManager::new(7);
    assert!(!m.accepts(&UserInput::Reply(StoreReply::Failed)));
    send(&mut m, UserMessage::NotifyFailed(3));
    assert!(!m.accepts(&UserInput::Message(UserMessage::ProcessNew)));
    assert!(!m.accepts(&UserInput::Reply(StoreReply::Done)));
    assert!(!m.accepts(&UserInput::Reply(StoreReply::Failures(64))));
    assert!(!m.accepts(&UserInput::Reply(StoreReply::Failures(-1))));
    assert!(m.accepts(&UserInput::Reply(StoreReply::Failures(63))));
}

#[test]
fn new_message_is_taken_by_whether_it_can_be_read() {
    let mut m = UserManager::new(7);
    let step = m.take_new(row(1, vec![9]), true, vec![]);
    assert!(is_delivery(&step, 1, &vec![9]));
    assert!(matches!(reply(&mut m, StoreReply::Done).next, UserNext::Ready));
    let step = m.take_new(row(2, vec![9]), false, vec![row(3, readable_pdu(3))]);
    assert!(step.effect.is_none());
    assert!(matches!(step.next, UserNext::Store(StoreRequest::DeleteMessage { id: 2 })));
    assert!(is_delivery(&reply(&mut m, StoreReply::Done), 3, &readable_pdu(3)));
}

#[test]
fn failed_message_is_taken_by_whether_it_can_be_read() {
    let mut m = UserManager::new(7);
    assert!(is_delivery(&m.take_failed(1, row(1, vec![9]), true), 1, &vec![9]));
    let step = m.take_failed(1, row(1, vec![9]), false);
    assert!(step.effect.is_none());
    assert!(matches!(step.next, UserNext::Failed(UserError::Malformed)));
}
