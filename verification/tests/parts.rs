use matrix_appservice_sms::pdu::ConcatenatedSmsData;
use matrix_appservice_sms::sms_processor::{
    csms_state_type, process_message, process_text, state_kept, CsmsData, ReceivedPart, SmsStep,
    StateReply,
};

fn part(reference: u16, parts: u8, sequence: u8) -> ConcatenatedSmsData {
    ConcatenatedSmsData { reference, parts, sequence }
}

fn s(text: &str) -> String {
    text.to_string()
}

fn fetch(text: &str, data: ConcatenatedSmsData) -> ReceivedPart {
    match process_text(s(text), Some(data)) {
        SmsStep::GetState(part) => part,
        _ => panic!("what is kept is fetched first"),
    }
}

#[test]
fn whole_message_is_sent() {
    match process_text(s("hi"), None) {
        SmsStep::Send(text) => assert_eq!(text, "hi"),
        _ => panic!("a whole message is sent"),
    }
}

#[test]
fn received_message_is_decoded_and_sent() {
    let pdu: Vec<u8> = vec![
        0, 4, 11, 0x91, 0x13, 0x46, 0x61, 0, 0x89, 0xF6, 0, 8, 0x20, 0x80, 0x62, 0x91, 0x73, 0x14,
        8, 4, 4, 0x36, 0, 0x49,
    ];
    match process_message(&pdu) {
        SmsStep::Send(text) => assert_eq!(text, "\u{436}I"),
        _ => panic!("a whole message is sent"),
    }
}

#[test]
fn received_part_is_looked_up_by_its_reference() {
    let pdu: Vec<u8> = vec![
        0, 0x44, 11, 0x91, 0x13, 0x46, 0x61, 0, 0x89, 0xF6, 0, 8, 0x20, 0x80, 0x62, 0x91, 0x73,
        0x14, 8, 8, 5, 0, 3, 42, 2, 1, 0, 0x48,
    ];
    match process_message(&pdu) {
        SmsStep::GetState(part) => {
            assert_eq!(part.state_key, "ref-42");
            assert_eq!(part.text, "H");
            assert_eq!(part.data.parts, 2);
            assert_eq!(part.data.sequence, 1);
        },
        _ => panic!("what is kept is fetched first"),
    }
    assert_eq!(csms_state_type(), "org.eu.theta.sms.concatenated");
    assert_eq!(fetch("x", part(65535, 1, 1)).state_key, "ref-65535");
}

#[test]
fn first_part_is_kept() {
    let reply = StateReply::Error(Some(s("M_NOT_FOUND")));
    match fetch("two", part(7, 2, 2)).state_fetched(reply) {
        SmsStep::SetState(kept) => {
            assert_eq!(kept.state_key, "ref-7");
            assert_eq!(kept.state.parts.len(), 1);
            assert_eq!(kept.state.parts.get(&2), Some(&s("two")));
            assert_eq!(kept.state.total_parts, 2);
            assert!(!kept.state.finished);
            assert!(kept.text.is_none());
            assert!(matches!(state_kept(kept.text, true), SmsStep::Done));
        },
        _ => panic!("the part is kept"),
    }
}

#[test]
fn last_part_completes_the_message() {
    let mut state = CsmsData::fresh(2);
    assert!(state.add_part(part(7, 2, 2), s("two")).is_none());
    match fetch("one ", part(7, 2, 1)).state_fetched(StateReply::Found(state)) {
        SmsStep::SetState(kept) => {
            assert!(kept.state.finished);
            assert_eq!(kept.text, Some(s("one two")));
            match state_kept(kept.text, true) {
                SmsStep::Send(text) => assert_eq!(text, "one two"),
                _ => panic!("the whole message is sent"),
            }
        },
        _ => panic!("the part is kept"),
    }
}

#[test]
fn parts_come_in_any_order() {
    let texts = vec!["a", "b", "c"];
    let orders = vec![
        vec![0, 1, 2],
        vec![0, 2, 1],
        vec![1, 0, 2],
        vec![1, 2, 0],
        vec![2, 0, 1],
        vec![2, 1, 0],
    ];
    for order in orders {
        let mut state = CsmsData::fresh(3);
        for k in 0..3 {
            let i: usize = order[k];
            let whole = state.add_part(part(1, 3, i as u8 + 1), s(texts[i]));
            assert_eq!(whole, if k == 2 { Some(s("abc")) } else { None });
        }
    }
}

#[test]
fn next_message_with_the_same_reference_starts_anew() {
    let mut state = CsmsData::fresh(1);
    assert_eq!(state.add_part(part(1, 1, 1), s("old")), Some(s("old")));
    assert_eq!(state.add_part(part(1, 2, 1), s("new ")), None);
    assert_eq!(state.parts.len(), 1);
    assert_eq!(state.total_parts, 2);
    assert_eq!(state.add_part(part(1, 2, 2), s("one")), Some(s("new one")));
    assert_eq!(state.add_part(part(1, 2, 2), s("again")), None);
    assert_eq!(state.parts.get(&2), Some(&s("again")));
}

#[test]
fn message_in_another_number_of_parts_starts_anew() {
    let mut state = CsmsData::fresh(3);
    assert_eq!(state.add_part(part(1, 3, 1), s("old")), None);
    assert_eq!(state.add_part(part(1, 2, 2), s("new")), None);
    assert_eq!(state.parts.len(), 1);
    assert!(state.parts.get(&1).is_none());
}

#[test]
fn repeated_part_does_not_count() {
    let mut state = CsmsData::fresh(2);
    assert_eq!(state.add_part(part(1, 2, 1), s("x")), None);
    assert_eq!(state.add_part(part(1, 2, 1), s("y")), None);
    assert_eq!(state.parts.len(), 1);
    assert_eq!(state.add_part(part(1, 2, 2), s("z")), Some(s("yz")));
}

#[test]
fn message_in_no_parts_is_complete_at_once() {
    let mut state = CsmsData::fresh(0);
    assert_eq!(state.add_part(part(1, 0, 9), s("x")), Some(s("x")));
}

#[test]
fn errors_end_the_delivery() {
    let reply = StateReply::Error(Some(s("M_FORBIDDEN")));
    assert!(matches!(fetch("x", part(1, 2, 1)).state_fetched(reply), SmsStep::Fail));
    let reply = StateReply::Error(None);
    assert!(matches!(fetch("x", part(1, 2, 1)).state_fetched(reply), SmsStep::Fail));
    assert!(matches!(state_kept(Some(s("x")), false), SmsStep::Fail));
    assert!(matches!(state_kept(None, false), SmsStep::Fail));
}

#[test]
fn message_in_parts_is_sent_whole_and_once() {
    let mut kept: Option<CsmsData> = None;
    let mut sent: Vec<String> = vec![];
    for (sequence, text) in vec![(3, "c"), (1, "a"), (2, "b"), (1, "x"), (2, "y"), (3, "z")] {
        let reply = match kept.take() {
            Some(state) => StateReply::Found(state),
            None => StateReply::Error(Some(s("M_NOT_FOUND"))),
        };
        match fetch(text, part(9, 3, sequence)).state_fetched(reply) {
            SmsStep::SetState(parts) => {
                kept = Some(parts.state);
                if let SmsStep::Send(text) = state_kept(parts.text, true) {
                    sent.push(text);
                }
            },
            _ => panic!("the part is kept"),
        }
    }
    assert_eq!(sent, vec![s("abc"), s("xyz")]);
}
