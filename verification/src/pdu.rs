//! Phone numbers and SMS protocol data units, as plain values over the `huawei_modem` crate.

use huawei_modem::errors::HuaweiError;
use huawei_modem::gsm_encoding::GsmMessageData;
use huawei_modem::pdu::Pdu;
use vstd::prelude::*;
use vstd::string::*;

use crate::text::{copy_octets, decimal, has_char};

verus! {

/// The modem crate's error.
#[verifier::external_type_specification]
#[verifier::external_body]
pub struct ExHuaweiError(huawei_modem::errors::HuaweiError);

/// One encoded piece of an outgoing text.
#[verifier::external_type_specification]
#[verifier::external_body]
pub struct ExGsmMessageData(huawei_modem::gsm_encoding::GsmMessageData);

/// An SMS-SUBMIT data unit, as the modem takes it.
#[verifier::external_type_specification]
#[verifier::external_body]
pub struct ExPdu(huawei_modem::pdu::Pdu);

/// What a `PduAddress` holds.
pub struct AddressView {
    pub type_addr: u8,
    pub number: Seq<u8>,
}

/// The type-of-number code of a type-of-address octet.
pub open spec fn type_of_number(b: u8) -> int {
    (b as int / 16) % 8
}

/// The numbering-plan code of a type-of-address octet.
pub open spec fn numbering_plan(b: u8) -> int {
    b as int % 16
}

/// International numbers, shown with a leading plus sign.
pub open spec fn is_international(b: u8) -> bool {
    type_of_number(b) == 1
}

/// Alphanumeric senders, whose digits are GSM 7-bit characters.
pub open spec fn is_alphanumeric(b: u8) -> bool {
    type_of_number(b) == 5
}

/// Whether both codes of a type-of-address octet are assigned.
pub open spec fn known_address_type(b: u8) -> bool {
    let plan = numbering_plan(b);
    &&& type_of_number(b) != 4
    &&& plan == 0 || plan == 1 || plan == 3 || plan == 4 || plan == 8 || plan == 9 || plan == 10
}

/// A type-of-address octet as it is written: assigned codes, and the top bit set.
pub open spec fn valid_address_type(b: u8) -> bool {
    b >= 128 && known_address_type(b)
}

/// The octet that stands for the same codes as `b`, with the top bit set.
pub open spec fn written_address_type(b: u8) -> u8 {
    (128 + b as int % 128) as u8
}

/// Whether `c` is one of the ten decimal digits.
pub open spec fn is_digit(c: char) -> bool {
    '0' <= c <= '9'
}

/// The decimal digits of `s`, in order, as numbers.
pub open spec fn digits_of(s: Seq<char>) -> Seq<u8>
    decreases s.len(),
{
    if s.len() == 0 {
        Seq::empty()
    } else if is_digit(s.last()) {
        digits_of(s.drop_last()).push((s.last() as int - 48) as u8)
    } else {
        digits_of(s.drop_last())
    }
}

/// The address that a phone number in text form stands for.
pub open spec fn parsed_address(s: Seq<char>) -> AddressView {
    AddressView { type_addr: if has_char(s, '+') { 0x91 } else { 0x81 }, number: digits_of(s) }
}

/// The digits of a number written out one after the other, each in decimal.
pub open spec fn number_text(number: Seq<u8>) -> Seq<char>
    decreases number.len(),
{
    if number.len() == 0 {
        Seq::empty()
    } else {
        number_text(number.drop_last()) + decimal(number.last() as nat)
    }
}

/// What the modem crate displays for an address.
pub uninterp spec fn address_display(addr: AddressView) -> Seq<char>;

/// An address in text form: the digits, with a plus sign in front of an international number;
/// for an alphanumeric sender, what the modem crate displays.
pub open spec fn shown_address(addr: AddressView) -> Seq<char> {
    if is_alphanumeric(addr.type_addr) {
        address_display(addr)
    } else if is_international(addr.type_addr) {
        seq!['+'] + number_text(addr.number)
    } else {
        number_text(addr.number)
    }
}

/// `<AddressType as TryFrom<u8>>::try_from`, and back through its `Into<u8>`: the codes are
/// accepted exactly where both are assigned, and come back with the top bit set.
#[verifier::external_body]
fn try_address_type(b: u8) -> (r: Result<u8, HuaweiError>)
    ensures
        r is Ok <==> known_address_type(b),
        r matches Ok(t) ==> t == written_address_type(b),
{
    let t = huawei_modem::pdu::AddressType::try_from(b)?;
    Ok(t.into())
}

/// `<PduAddress as FromStr>::from_str`, which never fails: the decimal digits are kept and all
/// else is left out; a plus sign anywhere makes the number international, and otherwise its
/// type is unknown; the numbering plan is the telephone one.
#[verifier::external_body]
fn address_from_str(st: &str) -> (r: (u8, Vec<u8>))
    ensures
        r.0 == parsed_address(st@).type_addr,
        r.1@ == parsed_address(st@).number,
{
    let addr: huawei_modem::pdu::PduAddress = st.parse().unwrap();
    (addr.type_addr.into(), addr.number.0)
}

/// `<PduAddress as Display>::fmt`. For all but alphanumeric senders it is the digits, with a
/// plus sign in front of an international number. What characters an alphanumeric sender is
/// shown by is given a name only.
#[verifier::external_body]
fn address_to_string(type_addr: u8, number: &Vec<u8>) -> (r: String)
    requires
        valid_address_type(type_addr),
    ensures
        r@ == address_display(AddressView { type_addr, number: number@ }),
        r@ == shown_address(AddressView { type_addr, number: number@ }),
{
    let type_addr = huawei_modem::pdu::AddressType::try_from(type_addr).unwrap();
    let number = huawei_modem::pdu::PhoneNumber(number.clone());
    huawei_modem::pdu::PduAddress { type_addr, number }.to_string()
}

/// A phone number with its type.
///
/// The type is the type-of-address octet; its codes are always assigned ones.
pub struct PduAddress {
    type_addr: u8,
    number: Vec<u8>,
}

impl View for PduAddress {
    type V = AddressView;

    closed spec fn view(&self) -> AddressView {
        AddressView { type_addr: self.type_addr, number: self.number@ }
    }
}

impl PduAddress {
    #[verifier::type_invariant]
    spec fn type_is_valid(self) -> bool {
        valid_address_type(self.type_addr)
    }

    /// An address of the type that `type_addr` encodes; none where a code is unassigned.
    pub fn new(type_addr: u8, number: Vec<u8>) -> (r: Option<PduAddress>)
        ensures
            r is Some <==> known_address_type(type_addr),
            r matches Some(a) ==> a@ == (AddressView {
                type_addr: written_address_type(type_addr),
                number: number@,
            }),
    {
        match try_address_type(type_addr) {
            Ok(type_addr) => Some(PduAddress { type_addr, number }),
            Err(_) => None,
        }
    }

    /// Reads a phone number in text form, such as `+440123456789`.
    pub fn parse(st: &str) -> (r: PduAddress)
        ensures
            r@ == parsed_address(st@),
    {
        let (type_addr, number) = address_from_str(st);
        PduAddress { type_addr, number }
    }

    /// The type-of-address octet.
    pub fn type_addr(&self) -> (r: u8)
        ensures
            r == self@.type_addr,
            valid_address_type(r),
    {
        proof {
            use_type_invariant(self);
        }
        self.type_addr
    }

    /// The digits.
    pub fn number(&self) -> (r: &Vec<u8>)
        ensures
            r@ == self@.number,
    {
        &self.number
    }

    /// The digits, taken out.
    pub fn into_number(self) -> (r: Vec<u8>)
        ensures
            r@ == self@.number,
    {
        self.number
    }

    /// An address of the same type with other digits.
    pub fn with_number(&self, number: Vec<u8>) -> (r: PduAddress)
        ensures
            r@ == (AddressView { type_addr: self@.type_addr, number: number@ }),
    {
        proof {
            use_type_invariant(self);
        }
        PduAddress { type_addr: self.type_addr, number }
    }

    /// The number in text form.
    pub fn display(&self) -> (r: String)
        ensures
            r@ == shown_address(self@),
    {
        proof {
            use_type_invariant(self);
        }
        address_to_string(self.type_addr, &self.number)
    }

    /// Whether two addresses are the same.
    pub fn same(&self, other: &PduAddress) -> (r: bool)
        ensures
            r == (self@ == other@),
    {
        let same_number: bool = self.number == other.number;
        assert(same_number ==> self.number@ =~= other.number@);
        self.type_addr == other.type_addr && same_number
    }

    /// Another address with the same contents.
    pub fn copy(&self) -> (r: PduAddress)
        ensures
            r@ == self@,
    {
        proof {
            use_type_invariant(self);
        }
        PduAddress { type_addr: self.type_addr, number: copy_octets(&self.number) }
    }
}

/// A received data unit does not have the form of an SMS-DELIVER.
#[derive(Debug, Clone, Copy, PartialEq, Eq, Structural)]
pub struct MalformedPdu;

/// One component of a user data header.
pub struct UdhComponent {
    pub id: u8,
    pub data: Vec<u8>,
}

impl View for UdhComponent {
    type V = (u8, Seq<u8>);

    open spec fn view(&self) -> (u8, Seq<u8>) {
        (self.id, self.data@)
    }
}

/// A decoded text, with the components of its user data header if it has one.
pub struct DecodedMessage {
    pub text: String,
    pub udh: Option<Vec<UdhComponent>>,
}

/// What a `DecodedMessage` holds.
pub struct DecodedView {
    pub text: Seq<char>,
    pub udh: Option<Seq<(u8, Seq<u8>)>>,
}

/// The contents of user data header components.
pub open spec fn components_view(components: Seq<UdhComponent>) -> Seq<(u8, Seq<u8>)> {
    Seq::new(components.len(), |i: int| components[i]@)
}

impl View for DecodedMessage {
    type V = DecodedView;

    open spec fn view(&self) -> DecodedView {
        DecodedView {
            text: self.text@,
            udh: match self.udh {
                Some(components) => Some(components_view(components@)),
                None => None,
            },
        }
    }
}

/// The contents of the outcome of a decoding.
pub open spec fn decoding_view(r: Result<DecodedMessage, String>) -> Result<
    DecodedView,
    Seq<char>,
> {
    match r {
        Ok(m) => Ok(m@),
        Err(e) => Err(e@),
    }
}

/// Which part of which concatenated message a short message is.
#[derive(Debug, Clone, Copy, PartialEq, Eq, Structural)]
pub struct ConcatenatedSmsData {
    pub reference: u16,
    pub parts: u8,
    pub sequence: u8,
}

/// The first component that holds concatenation data: identifier 0 with an octet of reference,
/// or identifier 8 with two, each followed by the number of parts and the part's own number.
pub open spec fn concatenation_of(components: Seq<(u8, Seq<u8>)>) -> Option<ConcatenatedSmsData>
    decreases components.len(),
{
    if components.len() == 0 {
        None
    } else {
        let (id, data) = components[0];
        if id == 0 && data.len() == 3 {
            Some(
                ConcatenatedSmsData { reference: data[0] as u16, parts: data[1], sequence: data[2] },
            )
        } else if id == 8 && data.len() == 4 {
            Some(
                ConcatenatedSmsData {
                    reference: (data[0] as int * 256 + data[1] as int) as u16,
                    parts: data[2],
                    sequence: data[3],
                },
            )
        } else {
            concatenation_of(components.drop_first())
        }
    }
}

/// The sender that the modem crate reads in a received data unit; none where it refuses it.
pub uninterp spec fn deliver_sender(raw: Seq<u8>) -> Option<AddressView>;

/// The text that the modem crate decodes from a received data unit, or the words in which it
/// says why it cannot.
pub uninterp spec fn deliver_text(raw: Seq<u8>) -> Result<DecodedView, Seq<char>>;

/// `<DeliverPdu as TryFrom<&[u8]>>::try_from`, and the originating address it found. Which
/// octets it takes, and what address is in them, depends on the octets alone and has a name;
/// the address has an assigned type.
#[verifier::external_body]
fn deliver_originating_address(raw: &[u8]) -> (r: Result<(u8, Vec<u8>), HuaweiError>)
    ensures
        r is Ok <==> deliver_sender(raw@) is Some,
        r matches Ok(a) ==> deliver_sender(raw@) == Some(
            AddressView { type_addr: a.0, number: a.1@ },
        ) && valid_address_type(a.0),
{
    let pdu = huawei_modem::pdu::DeliverPdu::try_from(raw)?;
    let addr = pdu.originating_address;
    Ok((addr.type_addr.into(), addr.number.0))
}

/// `GsmMessageData::decode_message` on the message data of a received data unit, with an error
/// turned into its text; where `DeliverPdu::try_from` refuses the octets, the text of its error.
/// The outcome depends on the octets alone and has a name.
#[verifier::external_body]
fn decode_message(raw: &[u8]) -> (r: Result<DecodedMessage, String>)
    ensures
        decoding_view(r) == deliver_text(raw@),
{
    let pdu = huawei_modem::pdu::DeliverPdu::try_from(raw).map_err(|e| e.to_string())?;
    let msg = pdu.get_message_data().decode_message().map_err(|e| e.to_string())?;
    let udh = match msg.udh {
        Some(h) => Some(
            h.components.into_iter().map(|c| UdhComponent { id: c.id, data: c.data }).collect(),
        ),
        None => None,
    };
    Ok(DecodedMessage { text: msg.text, udh })
}

/// `UserDataHeader::get_concatenated_sms_data`: the data of the first component that has the
/// identifier and the length of concatenation data.
#[verifier::external_body]
fn concatenated_sms_data(components: Vec<UdhComponent>) -> (r: Option<ConcatenatedSmsData>)
    ensures
        r == concatenation_of(components_view(components@)),
{
    let components = components.into_iter().map(
        |c| huawei_modem::gsm_encoding::udh::UdhComponent { id: c.id, data: c.data },
    ).collect();
    let header = huawei_modem::gsm_encoding::udh::UserDataHeader { components };
    match header.get_concatenated_sms_data() {
        Some(d) => Some(
            ConcatenatedSmsData { reference: d.reference, parts: d.parts, sequence: d.sequence },
        ),
        None => None,
    }
}

/// Who sent a received data unit.
pub fn originating_address(raw: &Vec<u8>) -> (r: Result<PduAddress, MalformedPdu>)
    ensures
        r is Ok <==> deliver_sender(raw@) is Some,
        r matches Ok(a) ==> deliver_sender(raw@) == Some(a@),
{
    match deliver_originating_address(raw.as_slice()) {
        Ok((type_addr, number)) => Ok(PduAddress { type_addr, number }),
        Err(_) => Err(MalformedPdu),
    }
}

/// The text and the concatenation data that a decoding gives. Where it failed, the text says
/// so, and the message counts as a whole one.
pub open spec fn readable_text(
    decoded: Result<DecodedView, Seq<char>>,
) -> (Seq<char>, Option<ConcatenatedSmsData>) {
    match decoded {
        Ok(m) => (
            m.text,
            match m.udh {
                Some(components) => concatenation_of(components),
                None => None,
            },
        ),
        Err(e) => ("[Error decoding: "@ + e + "]"@, None),
    }
}

/// Turns the outcome of a decoding into a text and its concatenation data.
pub fn readable(decoded: Result<DecodedMessage, String>) -> (r: (
    String,
    Option<ConcatenatedSmsData>,
))
    ensures
        (r.0@, r.1) == readable_text(decoding_view(decoded)),
{
    match decoded {
        Ok(m) => {
            let data = match m.udh {
                Some(components) => concatenated_sms_data(components),
                None => None,
            };
            (m.text, data)
        },
        Err(e) => {
            let text: String = "[Error decoding: ".to_owned().concat(e.as_str()).concat("]");
            (text, None)
        },
    }
}

/// The text of a received data unit, and its concatenation data.
pub fn received_text(raw: &Vec<u8>) -> (r: (String, Option<ConcatenatedSmsData>))
    ensures
        (r.0@, r.1) == readable_text(deliver_text(raw@)),
{
    readable(decode_message(raw.as_slice()))
}

/// How many short messages a text may take up.
pub const MAX_PARTS: usize = 3;

/// The longest text that is handed to the encoder, in characters. Even at four octets a
/// character it splits into parts whose numbers fit in an octet.
pub const MAX_ENCODABLE_CHARS: usize = 8542;

/// A text of up to so many characters takes up no more than `MAX_PARTS` short messages, whatever
/// the characters are.
pub const SHORT_CHARS: usize = 100;

/// A text of more than so many characters takes up more than `MAX_PARTS` short messages,
/// whatever the characters are.
pub const LONG_CHARS: usize = 459;

/// A text takes up more short messages than may be sent for it.
#[derive(Debug, Clone, Copy, PartialEq, Eq, Structural)]
pub struct TooLong;

/// What one encoded piece of a text holds: how its octets are coded, whether they begin with a
/// user data header, and the octets with the length that is given for them.
pub struct PartView {
    pub encoding: u8,
    pub has_header: bool,
    pub user_data_len: u8,
    pub bytes: Seq<u8>,
}

/// What one data unit for the modem holds, with its first octet and its coding as octets.
pub struct SubmitView {
    pub service_centre: Option<AddressView>,
    pub first_octet: u8,
    pub message_id: u8,
    pub destination: AddressView,
    pub coding: u8,
    pub validity_period: u8,
    pub user_data_len: u8,
    pub user_data: Seq<u8>,
}

/// The fields of the modem crate's `GsmMessageData`.
pub uninterp spec fn piece_contents(data: GsmMessageData) -> PartView;

/// The fields of the modem crate's `Pdu`.
pub uninterp spec fn submit_contents(pdu: Pdu) -> SubmitView;

/// The first octet of a data unit to be sent, with the flag for a user data header or without.
pub open spec fn submit_octet(has_header: bool) -> u8 {
    if has_header {
        0x41
    } else {
        0x01
    }
}

/// The data unit that carries a piece to an address: it names no service centre and no validity
/// period, and its message is one that the recipient stores.
pub open spec fn simple_message(destination: AddressView, part: PartView) -> SubmitView {
    SubmitView {
        service_centre: None,
        first_octet: submit_octet(part.has_header),
        message_id: 0,
        destination,
        coding: (0x11 + part.encoding) as u8,
        validity_period: 0,
        user_data_len: part.user_data_len,
        user_data: part.bytes,
    }
}

/// The pieces into which the modem crate encodes a text. Where there are several, the octet
/// that says to which message they belong is taken as zero.
pub uninterp spec fn encoded_sms(text: Seq<char>) -> Seq<PartView>;

/// Where there are several pieces, gives all of them the same reference octet: the fourth one,
/// after the lengths and the identifier of the user data header.
pub open spec fn with_reference(parts: Seq<PartView>, reference: u8) -> Seq<PartView> {
    if parts.len() <= 1 {
        parts
    } else {
        Seq::new(
            parts.len(),
            |i: int| PartView { bytes: parts[i].bytes.update(3, reference), ..parts[i] },
        )
    }
}

/// The data units that carry `parts` to `destination`, in order.
pub open spec fn addressed(destination: AddressView, parts: Seq<PartView>) -> Seq<SubmitView> {
    Seq::new(parts.len(), |i: int| simple_message(destination, parts[i]))
}

/// One encoded piece of a text.
pub struct SmsPart {
    data: GsmMessageData,
}

impl View for SmsPart {
    type V = PartView;

    closed spec fn view(&self) -> PartView {
        piece_contents(self.data)
    }
}

/// The contents of encoded pieces.
pub open spec fn parts_view(parts: Seq<SmsPart>) -> Seq<PartView> {
    Seq::new(parts.len(), |i: int| parts[i]@)
}

/// A data unit for the modem: one piece of a text, addressed to its recipient.
pub struct SubmitPdu {
    pdu: Pdu,
}

impl View for SubmitPdu {
    type V = SubmitView;

    closed spec fn view(&self) -> SubmitView {
        submit_contents(self.pdu)
    }
}

impl SubmitPdu {
    /// The data unit in the modem crate's own form.
    pub fn as_pdu(&self) -> (r: &Pdu)
        ensures
            submit_contents(*r) == self@,
    {
        &self.pdu
    }

    /// The digits of the number it goes to.
    pub fn number(&self) -> (r: &Vec<u8>)
        ensures
            r@ == self@.destination.number,
    {
        destination_number(&self.pdu)
    }

    /// The encoded piece of text.
    pub fn user_data(&self) -> (r: &Vec<u8>)
        ensures
            r@ == self@.user_data,
    {
        submitted_octets(&self.pdu)
    }
}

/// The number of the `destination` field of a `Pdu`.
#[verifier::external_body]
fn destination_number(pdu: &Pdu) -> (r: &Vec<u8>)
    ensures
        r@ == submit_contents(*pdu).destination.number,
{
    &pdu.destination.number.0
}

/// The `user_data` field of a `Pdu`.
#[verifier::external_body]
fn submitted_octets(pdu: &Pdu) -> (r: &Vec<u8>)
    ensures
        r@ == submit_contents(*pdu).user_data,
{
    &pdu.user_data
}

/// The contents of data units for the modem.
pub open spec fn submits_view(pdus: Seq<SubmitPdu>) -> Seq<SubmitView> {
    Seq::new(pdus.len(), |i: int| pdus[i]@)
}

/// `GsmMessageData::encode_message`. The pieces depend on the text alone, but for the reference
/// octet of a text that takes up several: it is drawn at random and the same in all of them.
/// There is always a piece. A character takes up one or two septets, or two or four octets; one
/// piece alone holds up to 160 septets, and each of several holds 153 septets or 134 octets,
/// with only the last one perhaps less full. Several pieces have a user data header each, and one
/// alone has none.
/// Texts that would take up more than 255 pieces are left out, since their numbering overflows.
#[verifier::external_body]
fn encode_message(text: &str) -> (r: Vec<SmsPart>)
    requires
        text@.len() <= MAX_ENCODABLE_CHARS,
    ensures
        exists|reference: u8|
            parts_view(r@) == #[trigger] with_reference(encoded_sms(text@), reference),
        r@.len() >= 1,
        r@.len() > 1 ==> 134 * (r@.len() - 1) < 4 * text@.len(),
        text@.len() > 160 ==> text@.len() <= 153 * r@.len(),
        forall|i: int| 0 <= i < r@.len() ==> (#[trigger] r@[i]@).has_header == (r@.len() > 1),
{
    GsmMessageData::encode_message(text).into_iter().map(|data| SmsPart { data }).collect()
}

/// `Pdu::make_simple_message`: the data unit goes to the recipient, its user data and their
/// length are those of the piece, its coding is that of the piece with the class of messages that
/// are stored, and its first octet has the flag for a user data header where the piece has one.
/// The other fields are empty or zero.
#[verifier::external_body]
fn make_simple_message(type_addr: u8, number: &Vec<u8>, part: SmsPart) -> (r: SubmitPdu)
    requires
        valid_address_type(type_addr),
    ensures
        submit_contents(r.pdu) == simple_message(
            AddressView { type_addr, number: number@ },
            piece_contents(part.data),
        ),
{
    let type_addr = huawei_modem::pdu::AddressType::try_from(type_addr).unwrap();
    let number = huawei_modem::pdu::PhoneNumber(number.clone());
    let to = huawei_modem::pdu::PduAddress { type_addr, number };
    SubmitPdu { pdu: Pdu::make_simple_message(to, part.data) }
}

/// Encodes a text into pieces, unless it is far too long to be sent.
pub fn encode_text(text: &str) -> (r: Result<Vec<SmsPart>, TooLong>)
    ensures
        r is Err <==> text@.len() > MAX_ENCODABLE_CHARS,
        r matches Ok(parts) ==> exists|reference: u8|
            parts_view(parts@) == #[trigger] with_reference(encoded_sms(text@), reference),
        r matches Ok(parts) ==> parts@.len() >= 1,
        r matches Ok(parts) ==> forall|i: int|
            0 <= i < parts@.len() ==> (#[trigger] parts@[i]@).has_header == (parts@.len() > 1),
        text@.len() <= SHORT_CHARS ==> (r matches Ok(parts) && parts@.len() <= MAX_PARTS),
        text@.len() > LONG_CHARS ==> (r matches Ok(parts) ==> parts@.len() > MAX_PARTS),
{
    if text.unicode_len() > MAX_ENCODABLE_CHARS {
        Err(TooLong)
    } else {
        Ok(encode_message(text))
    }
}

/// Addresses the pieces of a text to a recipient; refuses a text of too many of them.
pub fn address_parts(recipient: &PduAddress, parts: Vec<SmsPart>) -> (r: Result<
    Vec<SubmitPdu>,
    TooLong,
>)
    ensures
        r is Err <==> parts@.len() > MAX_PARTS,
        r matches Ok(pdus) ==> submits_view(pdus@) == addressed(recipient@, parts_view(parts@)),
{
    if parts.len() > MAX_PARTS {
        return Err(TooLong);
    }
    let ghost all = parts@;
    let mut rest: Vec<SmsPart> = parts;
    let mut pdus: Vec<SubmitPdu> = Vec::new();
    while rest.len() > 0
        invariant
            pdus@.len() + rest@.len() == all.len(),
            rest@ == all.subrange(pdus@.len() as int, all.len() as int),
            forall|i: int|
                0 <= i < pdus@.len() ==> #[trigger] pdus@[i]@ == simple_message(
                    recipient@,
                    all[i]@,
                ),
        decreases rest@.len(),
    {
        let part: SmsPart = rest.remove(0);
        let pdu = make_simple_message(recipient.type_addr(), &recipient.number, part);
        pdus.push(pdu);
    }
    assert(submits_view(pdus@) =~= addressed(recipient@, parts_view(all)));
    Ok(pdus)
}

/// The data units that carry a text to a recipient; none where it takes up too many.
pub fn submit_pdus(recipient: &PduAddress, text: &str) -> (r: Result<Vec<SubmitPdu>, TooLong>)
    ensures
        r is Err <==> text@.len() > MAX_ENCODABLE_CHARS || encoded_sms(text@).len() > MAX_PARTS,
        text@.len() <= SHORT_CHARS ==> r is Ok,
        text@.len() > LONG_CHARS ==> r is Err,
        r matches Ok(pdus) ==> 1 <= pdus@.len() <= MAX_PARTS,
        r matches Ok(pdus) ==> forall|i: int|
            0 <= i < pdus@.len() ==> (#[trigger] pdus@[i]@).first_octet == submit_octet(
                pdus@.len() > 1,
            ),
        r matches Ok(pdus) ==> exists|reference: u8|
            submits_view(pdus@) == addressed(
                recipient@,
                #[trigger] with_reference(encoded_sms(text@), reference),
            ),
{
    match encode_text(text) {
        Ok(parts) => {
            let ghost reference = choose|reference: u8|
                parts_view(parts@) == #[trigger] with_reference(encoded_sms(text@), reference);
            assert(parts_view(parts@).len() == with_reference(encoded_sms(text@), reference).len());
            let pdus: Result<Vec<SubmitPdu>, TooLong> = address_parts(recipient, parts);
            proof {
                if pdus is Ok {
                    let made = pdus->Ok_0@;
                    let units = addressed(recipient@, parts_view(parts@));
                    assert(submits_view(made).len() == units.len());
                    assert forall|i: int| 0 <= i < made.len() implies (
                    #[trigger] made[i]@).first_octet == submit_octet(made.len() > 1) by {
                        assert(submits_view(made)[i] == units[i]);
                        assert(parts@[i]@.has_header == (parts@.len() > 1));
                    }
                }
            }
            pdus
        },
        Err(e) => Err(e),
    }
}

/// The digits of a number are written one after the other, each in decimal.
pub proof fn law_number_is_written_digit_by_digit(a: Seq<u8>, b: Seq<u8>, digit: u8)
    ensures
        number_text(Seq::empty()) == Seq::<char>::empty(),
        number_text(seq![digit]) == decimal(digit as nat),
        number_text(a + b) == number_text(a) + number_text(b),
    decreases b.len(),
{
    assert(seq![digit].drop_last() =~= Seq::<u8>::empty());
    assert(number_text(seq![digit]) =~= decimal(digit as nat)) by {
        reveal_with_fuel(number_text, 2);
    }
    if b.len() == 0 {
        assert(a + b =~= a);
        assert(number_text(a) + number_text(b) =~= number_text(a));
    } else {
        law_number_is_written_digit_by_digit(a, b.drop_last(), digit);
        assert((a + b).drop_last() =~= a + b.drop_last());
        assert(number_text(a + b) =~= number_text(a) + number_text(b));
    }
}

/// A phone number in text form is read character by character: digits count, all else is left
/// out, and a plus sign makes it international.
pub proof fn law_number_is_read_digit_by_digit(a: Seq<char>, b: Seq<char>, c: char)
    ensures
        digits_of(Seq::empty()) == Seq::<u8>::empty(),
        digits_of(seq![c]) == (if '0' <= c <= '9' {
            seq![(c as int - 48) as u8]
        } else {
            seq![]
        }),
        digits_of(a + b) == digits_of(a) + digits_of(b),
        parsed_address(a) == (AddressView {
            type_addr: if a.contains('+') {
                0x91
            } else {
                0x81
            },
            number: digits_of(a),
        }),
    decreases b.len(),
{
    assert(seq![c].drop_last() =~= Seq::<char>::empty());
    assert(digits_of(seq![c]) =~= if '0' <= c <= '9' {
        seq![(c as int - 48) as u8]
    } else {
        Seq::<u8>::empty()
    }) by {
        reveal_with_fuel(digits_of, 2);
    }
    if b.len() == 0 {
        assert(a + b =~= a);
        assert(digits_of(a) + digits_of(b) =~= digits_of(a));
    } else {
        law_number_is_read_digit_by_digit(a, b.drop_last(), c);
        assert((a + b).drop_last() =~= a + b.drop_last());
        assert(digits_of(a + b) =~= digits_of(a) + digits_of(b));
    }
}

/// A phone number is shown by its digits, with a plus sign in front exactly where it is
/// international.
pub proof fn law_number_is_shown_by_its_digits(addr: AddressView)
    requires
        valid_address_type(addr.type_addr),
        !(0xD0 <= addr.type_addr <= 0xDF),
    ensures
        shown_address(addr) == (if 0x90 <= addr.type_addr <= 0x9F {
            seq!['+']
        } else {
            Seq::<char>::empty()
        }) + number_text(addr.number),
{
    assert(Seq::<char>::empty() + number_text(addr.number) =~= number_text(addr.number));
}

/// Which type-of-address octets have assigned codes, and how these are written.
pub proof fn law_assigned_address_types(b: u8)
    ensures
        known_address_type(b) <==> b as int / 16 != 4 && b as int / 16 != 12 && (seq![
            0int,
            1,
            3,
            4,
            8,
            9,
            10,
        ]).contains(b as int % 16),
        valid_address_type(b) <==> b >= 128 && known_address_type(b),
        written_address_type(b) == (if b >= 128 {
            b as int
        } else {
            b + 128
        }),
{
    let plans = seq![0int, 1, 3, 4, 8, 9, 10];
    let plan = b as int % 16;
    assert(plans[0] == 0 && plans[1] == 1 && plans[2] == 3 && plans[3] == 4 && plans[4] == 8
        && plans[5] == 9 && plans[6] == 10);
    if plans.contains(plan) {
        let i = choose|i: int| 0 <= i < plans.len() && plans[i] == plan;
        assert(i == 0 || i == 1 || i == 2 || i == 3 || i == 4 || i == 5 || i == 6);
    }
}

/// The concatenation data of a message are those of its first header component that holds such
/// data, and there are none where no component does.
pub proof fn law_first_concatenation_data_count(
    component: (u8, Seq<u8>),
    rest: Seq<(u8, Seq<u8>)>,
)
    ensures
        concatenation_of(Seq::empty()) is None,
        concatenation_of(seq![component] + rest) == (if component.0 == 0 && component.1.len() == 3 {
            Some(
                ConcatenatedSmsData {
                    reference: component.1[0] as u16,
                    parts: component.1[1],
                    sequence: component.1[2],
                },
            )
        } else if component.0 == 8 && component.1.len() == 4 {
            Some(
                ConcatenatedSmsData {
                    reference: (256 * component.1[0] + component.1[1]) as u16,
                    parts: component.1[2],
                    sequence: component.1[3],
                },
            )
        } else {
            concatenation_of(rest)
        }),
{
    assert((seq![component] + rest).drop_first() =~= rest);
}

/// A text that was decoded is delivered as it is, in parts exactly where its header says so; one
/// that could not be is delivered whole, as the words for what went wrong.
pub proof fn law_text_is_delivered_as_decoded(decoded: DecodedView, error: Seq<char>)
    ensures
        readable_text(Ok(decoded)).0 == decoded.text,
        decoded.udh is None ==> readable_text(Ok(decoded)).1 is None,
        decoded.udh matches Some(components) ==> readable_text(Ok(decoded)).1 == concatenation_of(
            components,
        ),
        readable_text(Err(error)) == ("[Error decoding: "@ + error + "]"@, None::<ConcatenatedSmsData>),
{
}

/// The pieces of one text differ from those of the same text at another time in the reference
/// octet alone, which is the same in all of them; a single piece has none.
pub proof fn law_pieces_share_a_reference(parts: Seq<PartView>, reference: u8, i: int, j: int)
    requires
        0 <= i < parts.len(),
        forall|k: int| 0 <= k < parts.len() ==> (#[trigger] parts[k]).bytes.len() > 3,
    ensures
        with_reference(parts, reference).len() == parts.len(),
        parts.len() == 1 ==> with_reference(parts, reference) == parts,
        parts.len() > 1 ==> {
            let piece = with_reference(parts, reference)[i];
            &&& piece.bytes[3] == reference
            &&& piece.bytes.len() == parts[i].bytes.len()
            &&& 0 <= j < piece.bytes.len() && j != 3 ==> piece.bytes[j] == parts[i].bytes[j]
            &&& piece.encoding == parts[i].encoding
            &&& piece.has_header == parts[i].has_header
            &&& piece.user_data_len == parts[i].user_data_len
        },
{
}

/// Each piece of a text goes to the address in a data unit of its own, in order, and unchanged.
pub proof fn law_pieces_go_to_the_address(destination: AddressView, parts: Seq<PartView>, i: int)
    requires
        0 <= i < parts.len(),
        parts[i].encoding == 0 || parts[i].encoding == 8,
    ensures
        addressed(destination, parts).len() == parts.len(),
        addressed(destination, parts)[i] == (SubmitView {
            service_centre: None,
            first_octet: if parts[i].has_header {
                0x41
            } else {
                0x01
            },
            message_id: 0,
            destination,
            coding: if parts[i].encoding == 0 {
                0x11
            } else {
                0x19
            },
            validity_period: 0,
            user_data_len: parts[i].user_data_len,
            user_data: parts[i].bytes,
        }),
{
}

/// Data units are sent in the order in which they stand.
pub proof fn law_data_units_stand_in_order(items: Seq<SubmitPdu>, i: int)
    requires
        0 <= i < items.len(),
    ensures
        submits_view(items).len() == items.len(),
        submits_view(items)[i] == items[i]@,
{
}

/// Pieces are addressed in the order in which they stand.
pub proof fn law_pieces_stand_in_order(items: Seq<SmsPart>, i: int)
    requires
        0 <= i < items.len(),
    ensures
        parts_view(items).len() == items.len(),
        parts_view(items)[i] == items[i]@,
{
}

/// Header components are read in the order in which they stand.
pub proof fn law_components_stand_in_order(items: Seq<UdhComponent>, i: int)
    requires
        0 <= i < items.len(),
    ensures
        components_view(items).len() == items.len(),
        components_view(items)[i] == items[i]@,
{
}

} // verus!
