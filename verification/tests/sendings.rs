use matrix_appservice_sms::events::RoomMessage;
use matrix_appservice_sms::models::Recipient;
use matrix_appservice_sms::pdu::{submit_pdus, PduAddress};
use matrix_appservice_sms::sending::{process_sending_message, SendAction, SendError, Sending};

fn s(text: &str) -> String {
    text.to_string()
}

fn recipient(phone_number: &str) -> Recipient {
    Recipient {
        id: 1,
        phone_number: s(phone_number),
        user_id: s("_sms_1"),
        room_id: s("!1:example.org"),
    }
}

fn start(message: RoomMessage) -> (Sending, SendAction) {
    process_sending_message(recipient("914412"), s("@x:example.org"), message)
}

#[test]
fn text_is_sent_to_the_recipient() {
    let (sending, action) = start(RoomMessage::Text { body: s("hellohello") });
    match action {
        SendAction::Transmit(pdu) => {
            assert_eq!(pdu.number(), &vec![4, 4, 1, 2]);
            assert_eq!(pdu.user_data(), &vec![0xE8, 0x32, 0x9B, 0xFD, 0x46, 0x97, 0xD9, 0xEC, 0x37]);
        },
        _ => panic!("the text is sent"),
    }
    let (_, action) = sending.transmitted(true);
    assert!(matches!(action, SendAction::Done));
}

#[test]
fn parts_are_sent_one_after_another() {
    let pdus = submit_pdus(&PduAddress::parse("+4412"), &"a".repeat(400)).unwrap();
    let (mut sending, mut action) = Sending::transmit(pdus);
    for number in 1..4 {
        match action {
            SendAction::Transmit(pdu) => assert_eq!(pdu.user_data()[5], number),
            _ => panic!("each part is sent"),
        }
        (sending, action) = sending.transmitted(true);
    }
    assert!(matches!(action, SendAction::Done));
}

#[test]
fn failing_modem_ends_the_sending() {
    let (sending, action) = start(RoomMessage::Text { body: "a".repeat(400) });
    assert!(matches!(action, SendAction::Transmit(_)));
    let (_, action) = sending.transmitted(false);
    assert!(matches!(action, SendAction::Fail(SendError::Modem)));
}

#[test]
fn emote_is_sent_with_the_name() {
    let (sending, action) = start(RoomMessage::Emote { body: s("waves") });
    assert!(matches!(action, SendAction::GetDisplayname { user } if user == "@x:example.org"));
    let expected = submit_pdus(&PduAddress::parse("+4412"), "* Xi waves").unwrap();
    match sending.named(Some(s("Xi"))).1 {
        SendAction::Transmit(pdu) => assert_eq!(pdu.user_data(), expected[0].user_data()),
        _ => panic!("the emote is sent"),
    }
}

#[test]
fn emote_without_a_name_is_not_sent() {
    let (sending, _) = start(RoomMessage::Emote { body: s("waves") });
    let (_, action) = sending.named(None);
    assert!(matches!(action, SendAction::Fail(SendError::Displayname)));
}

#[test]
fn too_long_text_is_refused() {
    let (_, action) = start(RoomMessage::Text { body: "a".repeat(460) });
    assert!(matches!(action, SendAction::Fail(SendError::TooLong)));
    assert_eq!(
        SendError::TooLong.text(),
        Some("Message is greater than 3 SMSes in length; refusing to transmit such a long message.")
    );
}

#[test]
fn invalid_number_is_refused() {
    let message = RoomMessage::Text { body: s("x") };
    let (_, action) = process_sending_message(recipient("zz1"), s("@x:example.org"), message);
    assert!(matches!(action, SendAction::Fail(SendError::InvalidAddress)));
    assert_eq!(
        SendError::InvalidAddress.text(),
        Some("Invalid address in database - this shouldn't really ever happen")
    );
    assert_eq!(SendError::Displayname.text(), None);
    assert_eq!(SendError::Modem.text(), None);
}

fn sent_to_the_modem(action: SendAction) -> (u8, Vec<u8>, Vec<u8>) {
    match action {
        SendAction::Transmit(pdu) => {
            let pdu = pdu.as_pdu();
            let to = pdu.destination.clone();
            (to.type_addr.into(), to.number.0, pdu.user_data.clone())
        },
        _ => panic!("a data unit is sent"),
    }
}

fn octets(text: &str) -> Vec<u8> {
    let pdus = submit_pdus(&PduAddress::parse("1"), text).unwrap();
    assert_eq!(pdus.len(), 1);
    pdus[0].as_pdu().user_data.clone()
}

#[test]
fn image_goes_out_as_its_text() {
    let message = RoomMessage::Image { body: s("cat.png"), url: s("mxc://hs/abc") };
    let (sending, action) = process_sending_message(recipient("91441234"), s("@eta:hs"), message);
    let (type_addr, number, data) = sent_to_the_modem(action);
    assert_eq!(type_addr, 0x91);
    assert_eq!(number, vec![4, 4, 1, 2, 3, 4]);
    assert_eq!(data, octets("[Image 'cat.png' - download at mxc://hs/abc]"));
    assert!(sending.is_transmitting());
    assert!(matches!(sending.transmitted(true).1, SendAction::Done));
}

#[test]
fn emote_goes_out_with_the_display_name() {
    let message = RoomMessage::Emote { body: s("waves") };
    let (sending, action) = process_sending_message(recipient("91441234"), s("@eta:hs"), message);
    assert!(matches!(action, SendAction::GetDisplayname { user } if user == "@eta:hs"));
    assert!(sending.is_naming() && !sending.is_transmitting());
    let (sending, action) = sending.named(Some(s("Eta")));
    let (type_addr, number, data) = sent_to_the_modem(action);
    assert_eq!(type_addr, 0x91);
    assert_eq!(number, vec![4, 4, 1, 2, 3, 4]);
    assert_eq!(data, octets("* Eta waves"));
    assert!(!sending.is_naming() && sending.is_transmitting());
    assert!(matches!(sending.transmitted(true).1, SendAction::Done));
}
