use matrix_appservice_sms::pdu::{
    address_parts, encode_text, originating_address, readable, received_text, submit_pdus,
    ConcatenatedSmsData, DecodedMessage, MalformedPdu, PduAddress, TooLong, UdhComponent,
};

fn unhex(s: &str) -> Vec<u8> {
    (0..s.len() / 2).map(|i| u8::from_str_radix(&s[2 * i..2 * i + 2], 16).unwrap()).collect()
}

const HOW_ARE_YOU: &str =
    "07911326040000F0040B911346610089F60000208062917314080CC8F71D14969741F977FD07";

fn deliver(first_octet: u8, coding: u8, len: u8, user_data: &[u8]) -> Vec<u8> {
    let mut pdu = vec![0, first_octet];
    pdu.extend(unhex("0B911346610089F600"));
    pdu.push(coding);
    pdu.extend(unhex("20806291731408"));
    pdu.push(len);
    pdu.extend(user_data);
    pdu
}

#[test]
fn sender_of_a_message_is_read() {
    let sender = originating_address(&unhex(HOW_ARE_YOU)).unwrap();
    assert_eq!(sender.type_addr(), 0x91);
    assert_eq!(sender.number(), &vec![3, 1, 6, 4, 1, 6, 0, 0, 9, 8, 6]);
    assert_eq!(sender.display(), "+31641600986");
}

#[test]
fn alphanumeric_sender_of_a_message_is_read() {
    let mut pdu = vec![0, 4];
    pdu.extend(unhex("04D0C834000020806291731408"));
    pdu.extend(unhex("01C1"));
    let sender = originating_address(&pdu).unwrap();
    assert_eq!(sender.type_addr(), 0xD0);
    assert_eq!(sender.display(), "Hi");
}

#[test]
fn malformed_messages_have_no_sender() {
    assert_eq!(originating_address(&vec![]).err(), Some(MalformedPdu));
    assert_eq!(originating_address(&vec![0]).err(), Some(MalformedPdu));
    assert_eq!(originating_address(&unhex(&HOW_ARE_YOU[0..30])).err(), Some(MalformedPdu));
}

#[test]
fn text_of_a_message_is_decoded() {
    let (text, data) = received_text(&unhex(HOW_ARE_YOU));
    assert_eq!(text, "How are you?");
    assert!(data.is_none());
}

#[test]
fn text_in_ucs2_is_decoded() {
    let (text, data) = received_text(&deliver(4, 8, 4, &unhex("04360049")));
    assert_eq!(text, "\u{436}I");
    assert!(data.is_none());
}

#[test]
fn concatenation_data_is_read() {
    let (text, data) = received_text(&deliver(0x44, 8, 8, &unhex("0500032A02010048")));
    assert_eq!(text, "H");
    assert_eq!(data, Some(ConcatenatedSmsData { reference: 42, parts: 2, sequence: 1 }));
}

#[test]
fn text_of_unknown_coding_says_so() {
    let (text, data) = received_text(&deliver(4, 4, 2, &[1, 2]));
    assert_eq!(text, "[Error decoding: Data of unknown encoding EightBit: [1, 2]]");
    assert!(data.is_none());
}

#[test]
fn readable_takes_the_first_concatenation_data() {
    let components = vec![
        UdhComponent { id: 0, data: vec![1] },
        UdhComponent { id: 5, data: vec![1, 2, 3, 4] },
        UdhComponent { id: 8, data: vec![1, 2, 3, 4] },
        UdhComponent { id: 0, data: vec![9, 9, 9] },
    ];
    let decoded = DecodedMessage { text: "x".to_string(), udh: Some(components) };
    let (text, data) = readable(Ok(decoded));
    assert_eq!(text, "x");
    assert_eq!(data, Some(ConcatenatedSmsData { reference: 258, parts: 3, sequence: 4 }));
}

#[test]
fn readable_without_concatenation_data() {
    let udh = Some(vec![UdhComponent { id: 1, data: vec![0, 0, 0] }]);
    let (text, data) = readable(Ok(DecodedMessage { text: "y".to_string(), udh }));
    assert_eq!(text, "y");
    assert!(data.is_none());
    let (text, data) = readable(Err("no".to_string()));
    assert_eq!(text, "[Error decoding: no]");
    assert!(data.is_none());
}

#[test]
fn short_text_is_one_data_unit() {
    let to = PduAddress::parse("+4412345");
    let pdus = submit_pdus(&to, "hellohello").unwrap();
    assert_eq!(pdus.len(), 1);
    assert_eq!(pdus[0].user_data(), &unhex("E8329BFD4697D9EC37"));
    assert_eq!(pdus[0].number(), to.number());
    assert_eq!(pdus[0].as_pdu().user_data_len, 10);
}

#[test]
fn text_beyond_the_gsm_alphabet_is_ucs2() {
    let pdus = submit_pdus(&PduAddress::parse("1"), "\u{436}I").unwrap();
    assert_eq!(pdus.len(), 1);
    assert_eq!(pdus[0].user_data(), &unhex("04360049"));
}

#[test]
fn empty_text_is_one_data_unit() {
    let pdus = submit_pdus(&PduAddress::parse("1"), "").unwrap();
    assert_eq!(pdus.len(), 1);
    assert!(pdus[0].user_data().is_empty());
}

#[test]
fn long_text_is_split_under_one_reference() {
    let pdus = submit_pdus(&PduAddress::parse("+441"), &"a".repeat(161)).unwrap();
    assert_eq!(pdus.len(), 2);
    let reference = pdus[0].user_data()[3];
    assert_eq!(&pdus[0].user_data()[0..6], &[5, 0, 3, reference, 2, 1]);
    assert_eq!(&pdus[1].user_data()[0..6], &[5, 0, 3, reference, 2, 2]);
}

#[test]
fn text_of_three_short_messages_is_the_longest() {
    let to = PduAddress::parse("+441");
    assert_eq!(submit_pdus(&to, &"a".repeat(160)).unwrap().len(), 1);
    assert_eq!(submit_pdus(&to, &"a".repeat(459)).unwrap().len(), 3);
    assert_eq!(submit_pdus(&to, &"a".repeat(460)).err(), Some(TooLong));
    assert_eq!(submit_pdus(&to, &"\u{1f600}".repeat(100)).unwrap().len(), 3);
    assert_eq!(submit_pdus(&to, &"\u{1f600}".repeat(101)).err(), Some(TooLong));
    assert_eq!(submit_pdus(&to, &"a".repeat(8543)).err(), Some(TooLong));
}

#[test]
fn far_too_long_text_is_not_encoded() {
    assert_eq!(encode_text(&"\u{1f600}".repeat(8542)).unwrap().len(), 255);
    assert_eq!(encode_text(&"a".repeat(8543)).err(), Some(TooLong));
}

#[test]
fn parts_are_addressed_in_order() {
    let to = PduAddress::parse("+4412");
    let parts = encode_text(&"a".repeat(400)).unwrap();
    assert_eq!(parts.len(), 3);
    let pdus = address_parts(&to, parts).unwrap();
    for i in 0..3 {
        assert_eq!(pdus[i].number(), to.number());
        assert_eq!(pdus[i].user_data()[5] as usize, i + 1);
    }
    let parts = encode_text(&"a".repeat(460)).unwrap();
    assert_eq!(address_parts(&to, parts).err(), Some(TooLong));
}

#[test]
fn data_unit_for_the_modem_holds_number_and_text() {
    let to = PduAddress::parse("+441234");
    let pdus = submit_pdus(&to, "hellohello").unwrap();
    let pdu = pdus[0].as_pdu();
    let type_addr: u8 = pdu.destination.type_addr.into();
    assert_eq!(type_addr, 0x91);
    assert_eq!(pdu.destination.number.0, vec![4, 4, 1, 2, 3, 4]);
    assert_eq!(pdu.user_data, unhex("E8329BFD4697D9EC37"));
    assert_eq!(pdu.user_data_len, 10);
    assert!(pdu.sca.is_none());
    assert_eq!(pdu.message_id, 0);
    assert_eq!(pdu.validity_period, 0);
    let first_octet: u8 = pdu.first_octet.into();
    assert_eq!(first_octet, 0x01);
    let coding: u8 = pdu.dcs.into();
    assert_eq!(coding, 0x11);
}

#[test]
fn data_units_of_several_pieces_have_the_header_flag() {
    let to = PduAddress::parse("07700");
    let pdus = submit_pdus(&to, &"\u{436}".repeat(71)).unwrap();
    assert_eq!(pdus.len(), 2);
    for pdu in pdus {
        let type_addr: u8 = pdu.as_pdu().destination.type_addr.into();
        assert_eq!(type_addr, 0x81);
        assert_eq!(&pdu.as_pdu().destination.number.0, to.number());
        let first_octet: u8 = pdu.as_pdu().first_octet.into();
        assert_eq!(first_octet, 0x41);
        let coding: u8 = pdu.as_pdu().dcs.into();
        assert_eq!(coding, 0x19);
        assert_eq!(pdu.as_pdu().user_data_len as usize, pdu.as_pdu().user_data.len());
        assert_eq!(pdu.user_data(), &pdu.as_pdu().user_data);
        assert_eq!(pdu.number(), &pdu.as_pdu().destination.number.0);
    }
}
