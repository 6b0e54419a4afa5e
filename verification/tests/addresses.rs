use matrix_appservice_sms::address_map::AddressMap;
use matrix_appservice_sms::pdu::PduAddress;
use matrix_appservice_sms::util::{is_separable, normalize_address, un_normalize_address};

#[test]
fn international_number_is_parsed() {
    let addr = PduAddress::parse("+440123456789");
    assert_eq!(addr.type_addr(), 0x91);
    assert_eq!(addr.number(), &vec![4, 4, 0, 1, 2, 3, 4, 5, 6, 7, 8, 9]);
    assert_eq!(addr.display(), "+440123456789");
}

#[test]
fn number_of_unknown_type_is_parsed() {
    let addr = PduAddress::parse("07700 900-123");
    assert_eq!(addr.type_addr(), 0x81);
    assert_eq!(addr.number(), &vec![0, 7, 7, 0, 0, 9, 0, 0, 1, 2, 3]);
    assert_eq!(addr.display(), "07700900123");
}

#[test]
fn anything_else_in_a_number_is_left_out() {
    let addr = PduAddress::parse("abc");
    assert_eq!(addr.type_addr(), 0x81);
    assert!(addr.number().is_empty());
    assert_eq!(addr.display(), "");
}

#[test]
fn alphanumeric_sender_is_shown_in_letters() {
    let addr = PduAddress::new(0xD0, vec![72, 105]).unwrap();
    assert_eq!(addr.display(), "Hi");
}

#[test]
fn address_types_with_unassigned_codes_are_refused() {
    assert!(PduAddress::new(0xC1, vec![1]).is_none());
    assert!(PduAddress::new(0x92, vec![1]).is_none());
    assert!(PduAddress::new(0x9F, vec![1]).is_none());
    assert_eq!(PduAddress::new(0x11, vec![1]).unwrap().type_addr(), 0x91);
    assert_eq!(PduAddress::new(0xF9, vec![1]).unwrap().type_addr(), 0xF9);
}

#[test]
fn addresses_are_compared_by_type_and_number() {
    let addr = PduAddress::parse("+4412");
    assert!(addr.same(&addr.copy()));
    assert!(!addr.same(&PduAddress::parse("4412")));
    assert!(!addr.same(&PduAddress::parse("+4413")));
}

#[test]
fn stored_form_is_type_and_digits() {
    assert_eq!(normalize_address(&PduAddress::parse("+440123456789")), "91440123456789");
    assert_eq!(normalize_address(&PduAddress::parse("07700")), "8107700");
    assert_eq!(normalize_address(&PduAddress::parse("")), "81");
    assert_eq!(normalize_address(&PduAddress::new(0xD0, vec![72, 105]).unwrap()), "D072105");
}

#[test]
fn stored_form_reads_back() {
    for number in vec!["+440123456789", "07700900123", "5"] {
        let addr = PduAddress::parse(number);
        let stored = normalize_address(&addr);
        assert!(is_separable(&stored));
        assert!(un_normalize_address(&stored).unwrap().same(&addr));
    }
}

#[test]
fn different_numbers_are_stored_differently() {
    let stored = normalize_address(&PduAddress::parse("+4412"));
    assert_ne!(stored, normalize_address(&PduAddress::parse("4412")));
    assert_ne!(stored, normalize_address(&PduAddress::parse("+4421")));
    assert_ne!(stored, normalize_address(&PduAddress::parse("+441")));
}

#[test]
fn stored_forms_without_a_type_are_refused() {
    for stored in vec!["", "9", "91", "zz123", "-1123", "C1123", "921"] {
        assert!(is_separable(stored));
        assert!(un_normalize_address(stored).is_none());
    }
}

#[test]
fn stored_type_may_have_small_letters_or_a_plus_sign() {
    let addr = un_normalize_address("d0123").unwrap();
    assert_eq!(addr.type_addr(), 0xD0);
    assert_eq!(addr.number(), &vec![2, 3]);
    let addr = un_normalize_address("+1234").unwrap();
    assert_eq!(addr.type_addr(), 0x81);
    assert_eq!(addr.number(), &vec![3, 4]);
}

#[test]
fn stored_type_with_a_letter_takes_digits_along() {
    let addr = un_normalize_address("D072105").unwrap();
    assert_eq!(addr.type_addr(), 0xD0);
    assert_eq!(addr.number(), &vec![2, 1, 0, 5]);
}

#[test]
fn stored_forms_that_cannot_be_taken_apart() {
    assert!(!is_separable("9\u{e9}1"));
    assert!(!is_separable("D0a"));
    assert!(!is_separable("A9-"));
    assert!(is_separable("\u{e9}123"));
    assert!(un_normalize_address("\u{e9}123").is_none());
}

#[test]
fn address_map_keeps_one_entry_for_an_address() {
    let mut map: AddressMap<u32> = AddressMap::new();
    let a = PduAddress::parse("+441");
    let b = PduAddress::parse("+442");
    map.insert(a.copy(), 1);
    map.insert(b.copy(), 2);
    map.insert(a.copy(), 3);
    assert_eq!(map.get(&a), Some(&3));
    assert_eq!(map.get(&b), Some(&2));
    assert_eq!(map.remove(&a), Some(3));
    assert_eq!(map.remove(&a), None);
    assert!(!map.contains(&a));
    assert!(map.contains(&b));
}
