//! The form in which phone numbers are stored and named: the type-of-address octet in
//! hexadecimal, then the digits.

use vstd::prelude::*;
use vstd::string::*;
use vstd::utf8::*;

use crate::pdu::{
    digits_of, known_address_type, number_text, valid_address_type, written_address_type,
    AddressView, PduAddress,
};
use crate::text::{
    decimal, digit_char, hex_octet, law_octet_is_two_hex_digits, push_decimal, push_hex_octet,
};

verus! {

/// An address in stored form.
pub open spec fn normalized(addr: AddressView) -> Seq<char> {
    hex_octet(addr.type_addr) + number_text(addr.number)
}

/// The value of an octet that is a hexadecimal digit in ASCII.
pub open spec fn hex_value(b: u8) -> Option<int> {
    if 48 <= b <= 57 {
        Some(b - 48)
    } else if 65 <= b <= 70 {
        Some(b - 55)
    } else if 97 <= b <= 102 {
        Some(b - 87)
    } else {
        None
    }
}

/// The number that two octets of ASCII write in hexadecimal, where a plus sign may stand in
/// place of the first digit.
pub open spec fn hex_pair(first: u8, second: u8) -> Option<u8> {
    match (hex_value(first), hex_value(second)) {
        (Some(high), Some(low)) => Some((16 * high + low) as u8),
        (None, Some(low)) => if first == 43 {
            Some(low as u8)
        } else {
            None
        },
        (_, None) => None,
    }
}

/// The type-of-address octet that a stored form begins with; none where the form is too short
/// or does not begin with one.
pub open spec fn stored_type(s: Seq<char>) -> Option<u8> {
    let bytes = encode_utf8(s);
    if bytes.len() < 3 {
        None
    } else {
        match hex_pair(bytes[0], bytes[1]) {
            Some(b) => if known_address_type(b) {
                Some(written_address_type(b))
            } else {
                None
            },
            None => None,
        }
    }
}

/// The address that a stored form stands for.
///
/// The digits are those of the whole form but for the first two, so a type-of-address octet
/// with a letter in it takes digits of the number away with it.
pub open spec fn un_normalized(s: Seq<char>) -> Option<AddressView> {
    match stored_type(s) {
        Some(type_addr) => Some(AddressView { type_addr, number: digits_of(s).skip(2) }),
        None => None,
    }
}

/// Whether a stored form can be taken apart: it can be cut after two octets, and where it
/// begins with a type-of-address octet it holds two decimal digits to take away.
pub open spec fn separable(s: Seq<char>) -> bool {
    let bytes = encode_utf8(s);
    bytes.len() < 3 || (is_char_boundary(bytes, 2) && (stored_type(s) is Some ==> digits_of(s).len()
        >= 2))
}

/// The stored form of an address.
pub fn normalize_address(addr: &PduAddress) -> (r: String)
    ensures
        r@ == normalized(addr@),
{
    let mut ret: String = String::new();
    push_hex_octet(&mut ret, addr.type_addr());
    let number: &Vec<u8> = addr.number();
    let mut i: usize = 0;
    assert(number@.subrange(0, 0) =~= Seq::<u8>::empty());
    assert(ret@ =~= hex_octet(addr@.type_addr) + number_text(number@.subrange(0, 0)));
    while i < number.len()
        invariant
            i <= number@.len(),
            number@ == addr@.number,
            ret@ == hex_octet(addr@.type_addr) + number_text(number@.subrange(0, i as int)),
        decreases number.len() - i,
    {
        let ghost before = number@.subrange(0, i as int);
        let ghost after = number@.subrange(0, i as int + 1);
        push_decimal(&mut ret, number[i] as u32);
        proof {
            assert(after.drop_last() =~= before);
            assert(after.last() == number@[i as int]);
            assert(ret@ =~= hex_octet(addr@.type_addr) + number_text(after));
        }
        i = i + 1;
    }
    assert(number@.subrange(0, i as int) =~= addr@.number);
    ret
}

/// Reads one hexadecimal digit.
fn read_hex(b: u8) -> (r: Option<u8>)
    ensures
        r is Some <==> hex_value(b) is Some,
        r matches Some(v) ==> Some(v as int) == hex_value(b) && v < 16,
{
    if 48 <= b && b <= 57 {
        Some(b - 48)
    } else if 65 <= b && b <= 70 {
        Some(b - 55)
    } else if 97 <= b && b <= 102 {
        Some(b - 87)
    } else {
        None
    }
}

/// Reads two hexadecimal digits.
fn read_hex_pair(first: u8, second: u8) -> (r: Option<u8>)
    ensures
        r == hex_pair(first, second),
{
    match (read_hex(first), read_hex(second)) {
        (Some(high), Some(low)) => Some(16 * high + low),
        (None, Some(low)) => if first == 43 {
            Some(low)
        } else {
            None
        },
        (_, None) => None,
    }
}

/// Whether a stored form can be taken apart.
pub fn is_separable(addr: &str) -> (r: bool)
    ensures
        r == separable(addr@),
{
    let bytes: &[u8] = addr.as_bytes();
    if bytes.len() < 3 {
        return true;
    }
    if !addr.is_char_boundary(2) {
        return false;
    }
    let digits: PduAddress = PduAddress::parse(addr);
    match read_hex_pair(bytes[0], bytes[1]) {
        Some(b) => match PduAddress::new(b, Vec::new()) {
            Some(_) => digits.number().len() >= 2,
            None => true,
        },
        None => true,
    }
}

/// The address that a stored form stands for; none where it does not begin with an assigned
/// type.
pub fn un_normalize_address(addr: &str) -> (r: Option<PduAddress>)
    requires
        separable(addr@),
    ensures
        r is Some <==> un_normalized(addr@) is Some,
        r matches Some(a) ==> un_normalized(addr@) == Some(a@),
{
    let bytes: &[u8] = addr.as_bytes();
    if bytes.len() < 3 {
        return None;
    }
    match read_hex_pair(bytes[0], bytes[1]) {
        Some(b) => {
            let parsed: PduAddress = PduAddress::parse(addr);
            let mut number: Vec<u8> = parsed.into_number();
            match PduAddress::new(b, Vec::new()) {
                Some(empty) => {
                    number.remove(0);
                    number.remove(0);
                    assert(number@ =~= digits_of(addr@).skip(2));
                    Some(empty.with_number(number))
                },
                None => None,
            }
        },
        None => None,
    }
}

/// Whether every entry of a number is a decimal digit.
pub open spec fn all_decimal(number: Seq<u8>) -> bool {
    forall|i: int| 0 <= i < number.len() ==> #[trigger] number[i] < 10
}

/// Whether an octet is written in hexadecimal without a letter.
pub open spec fn letterless(b: u8) -> bool {
    b < 160 && b as int % 16 < 10
}

proof fn lemma_number_text_len(number: Seq<u8>)
    requires
        all_decimal(number),
    ensures
        number_text(number).len() == number.len(),
        forall|i: int|
            0 <= i < number.len() ==> #[trigger] number_text(number)[i] == digit_char(
                number[i] as int,
            ),
    decreases number.len(),
{
    if number.len() > 0 {
        lemma_number_text_len(number.drop_last());
        assert(decimal(number.last() as nat) =~= seq![digit_char(number.last() as int)]);
    }
}

proof fn lemma_digits_of_number(prefix: Seq<char>, number: Seq<u8>)
    requires
        all_decimal(number),
    ensures
        digits_of(prefix + number_text(number)) == digits_of(prefix) + number,
    decreases number.len(),
{
    let whole = prefix + number_text(number);
    if number.len() == 0 {
        assert(whole =~= prefix);
        assert(digits_of(prefix) + number =~= digits_of(prefix));
    } else {
        let front = number.drop_last();
        let c = digit_char(number.last() as int);
        assert(decimal(number.last() as nat) =~= seq![c]);
        assert(whole.drop_last() =~= prefix + number_text(front));
        assert(whole.last() == c);
        lemma_digits_of_number(prefix, front);
        assert(digits_of(prefix) + number =~= (digits_of(prefix) + front).push(number.last()));
    }
}

/// A stored form cut after its two hexadecimal digits is cut between characters.
proof fn lemma_ascii_boundary(s: Seq<char>)
    requires
        is_ascii_chars(s),
        s.len() >= 2,
    ensures
        is_char_boundary(encode_utf8(s), 2),
{
    let bytes = encode_utf8(s);
    is_ascii_chars_encode_utf8(s);
    encode_utf8_valid_utf8(s);
    assert(s[0] as u8 == bytes[0] && s[1] as u8 == bytes[1]);
    assert(bytes[0] < 128 && bytes[1] < 128);
    let tail = pop_first_scalar(bytes);
    assert(tail[0] == bytes[1]);
    reveal_with_fuel(is_char_boundary, 3);
    reveal_with_fuel(valid_utf8, 3);
    assert(is_char_boundary(tail, 1));
}

/// An address read back from its stored form is the address that was stored.
///
/// It holds of addresses whose type is written without a letter and whose number is made up of
/// at least one decimal digit and nothing else: telephone numbers of unknown and of
/// international type are such.
pub proof fn law_stored_address_reads_back(addr: AddressView)
    requires
        valid_address_type(addr.type_addr),
        letterless(addr.type_addr),
        addr.number.len() > 0,
        all_decimal(addr.number),
    ensures
        separable(normalized(addr)),
        un_normalized(normalized(addr)) == Some(addr),
{
    let s = normalized(addr);
    let prefix = hex_octet(addr.type_addr);
    let bytes = encode_utf8(s);
    lemma_number_text_len(addr.number);
    assert forall|i: int| 0 <= i < s.len() implies '\0' <= #[trigger] s[i] <= '\u{7f}' by {
        if i >= 2 {
            assert(s[i] == number_text(addr.number)[i - 2]);
        }
    }
    is_ascii_chars_encode_utf8(s);
    assert(s[0] as u8 == bytes[0] && s[1] as u8 == bytes[1]);
    assert(hex_pair(bytes[0], bytes[1]) == Some(addr.type_addr));
    lemma_ascii_boundary(s);
    lemma_digits_of_number(prefix, addr.number);
    let high = (addr.type_addr as int / 16) as u8;
    let low = (addr.type_addr as int % 16) as u8;
    assert(digits_of(prefix) =~= seq![high, low]) by {
        reveal_with_fuel(digits_of, 3);
        assert(prefix.drop_last().drop_last() =~= Seq::<char>::empty());
        assert(prefix.drop_last().last() == prefix[0]);
    }
    assert(digits_of(s).skip(2) =~= addr.number);
}

/// Two addresses whose numbers are made up of decimal digits have different stored forms, unless
/// they are the same address.
pub proof fn law_stored_form_is_unique(a: AddressView, b: AddressView)
    requires
        all_decimal(a.number),
        all_decimal(b.number),
        normalized(a) == normalized(b),
    ensures
        a == b,
{
    lemma_number_text_len(a.number);
    lemma_number_text_len(b.number);
    let s = normalized(a);
    assert(s[0] == digit_char(a.type_addr as int / 16));
    assert(s[1] == digit_char(a.type_addr as int % 16));
    assert(normalized(b)[0] == digit_char(b.type_addr as int / 16));
    assert(normalized(b)[1] == digit_char(b.type_addr as int % 16));
    assert(s.len() == 2 + a.number.len());
    assert forall|i: int| 0 <= i < a.number.len() implies a.number[i] == b.number[i] by {
        assert(s[i + 2] == number_text(a.number)[i]);
        assert(normalized(b)[i + 2] == number_text(b.number)[i]);
    }
    assert(a.number =~= b.number);
}

/// The stored form of an address is its type in two hexadecimal digits, with the digits of the
/// number behind them.
pub proof fn law_stored_form_is_type_and_digits(addr: AddressView)
    ensures
        normalized(addr) == seq![
            "0123456789ABCDEF"@[addr.type_addr as int / 16],
            "0123456789ABCDEF"@[addr.type_addr as int % 16],
        ] + number_text(addr.number),
{
    law_octet_is_two_hex_digits(addr.type_addr);
}

/// Which octets are hexadecimal digits, and what they stand for.
pub proof fn law_hex_digits(b: u8, v: int)
    ensures
        hex_value(b) == Some(v) <==> 0 <= v < 16 && (b as int == "0123456789ABCDEF"@[v] as int || b
            as int == "0123456789abcdef"@[v] as int),
{
    reveal_strlit("0123456789ABCDEF");
    reveal_strlit("0123456789abcdef");
    if 0 <= v < 16 {
        assert(v == 0 || v == 1 || v == 2 || v == 3 || v == 4 || v == 5 || v == 6 || v == 7 || v
            == 8 || v == 9 || v == 10 || v == 11 || v == 12 || v == 13 || v == 14 || v == 15);
    }
}

/// Which stored forms stand for an address, and for which: the first two octets give its type,
/// where a plus sign counts as a zero in front, and the digits but for the first two its number.
pub proof fn law_stored_form_is_read_by_its_type(s: Seq<char>)
    ensures
        ({
            let bytes = encode_utf8(s);
            let high = if bytes[0] == 43 {
                Some(0int)
            } else {
                hex_value(bytes[0])
            };
            let low = hex_value(bytes[1]);
            let octet = 16 * high->0 + low->0;
            let assigned = bytes.len() >= 3 && high is Some && low is Some && known_address_type(
                octet as u8,
            );
            &&& un_normalized(s) == (if assigned {
                Some(
                    AddressView {
                        type_addr: (if octet >= 128 {
                            octet
                        } else {
                            octet + 128
                        }) as u8,
                        number: digits_of(s).skip(2),
                    },
                )
            } else {
                None
            })
            &&& separable(s) <==> bytes.len() < 3 || (is_char_boundary(bytes, 2) && (assigned
                ==> digits_of(s).len() >= 2))
        }),
{
}

} // verus!
