//! Sending what is said in a recipient's room as text messages.

use vstd::prelude::*;
use vstd::string::*;

use crate::events::{emote_text, plain_text, sms_text, RoomMessage, RoomMessageView};
use crate::models::{Recipient, RecipientView};
use crate::pdu::{
    addressed, encoded_sms, submit_octet, submit_pdus, submits_view, valid_address_type,
    with_reference, AddressView, PduAddress, SubmitPdu, SubmitView, LONG_CHARS,
    MAX_ENCODABLE_CHARS, MAX_PARTS, SHORT_CHARS,
};
use crate::util::{
    all_decimal, law_stored_address_reads_back, letterless, normalized, separable,
    un_normalize_address, un_normalized,
};

verus! {

/// Why a message could not be sent.
#[derive(Debug, Clone, Copy, PartialEq, Eq, Structural)]
pub enum SendError {
    /// The recipient's phone number in the database is not one.
    InvalidAddress,
    /// The sender's name could not be found out.
    Displayname,
    /// The message takes up too many short messages.
    TooLong,
    /// The modem did not send it.
    Modem,
}

/// The words for an error; none where it has a cause with words of its own.
pub open spec fn error_text(error: SendError) -> Option<Seq<char>> {
    match error {
        SendError::InvalidAddress => Some(
            "Invalid address in database - this shouldn't really ever happen"@,
        ),
        SendError::TooLong => Some(
            "Message is greater than 3 SMSes in length; refusing to transmit such a long message."@,
        ),
        SendError::Displayname => None,
        SendError::Modem => None,
    }
}

impl SendError {
    /// The words for the error; none where it has a cause with words of its own.
    pub fn text(self) -> (r: Option<&'static str>)
        ensures
            r is Some <==> error_text(self) is Some,
            r matches Some(text) ==> error_text(self) == Some(text@),
    {
        match self {
            SendError::InvalidAddress => Some(
                "Invalid address in database - this shouldn't really ever happen",
            ),
            SendError::TooLong => Some(
                "Message is greater than 3 SMSes in length; refusing to transmit such a long message.",
            ),
            SendError::Displayname => None,
            SendError::Modem => None,
        }
    }
}

/// What is to be done next.
pub enum SendAction {
    /// Find out a user's name.
    GetDisplayname { user: String },
    /// Have the modem send a data unit.
    Transmit(SubmitPdu),
    /// Nothing; the message has been sent.
    Done,
    /// Nothing; the message could not be sent.
    Fail(SendError),
}

/// What a `SendAction` holds.
pub enum SendActionView {
    GetDisplayname { user: Seq<char> },
    Transmit(SubmitView),
    Done,
    Fail(SendError),
}

impl View for SendAction {
    type V = SendActionView;

    open spec fn view(&self) -> SendActionView {
        match *self {
            SendAction::GetDisplayname { user } => SendActionView::GetDisplayname { user: user@ },
            SendAction::Transmit(pdu) => SendActionView::Transmit(pdu@),
            SendAction::Done => SendActionView::Done,
            SendAction::Fail(error) => SendActionView::Fail(error),
        }
    }
}

/// How far the sending of a message has come.
pub enum SendingView {
    /// The name of the one who sent this emote is being found out.
    Naming { destination: AddressView, body: Seq<char> },
    /// A data unit is being sent; these remain.
    Transmitting { rest: Seq<SubmitView> },
    /// There is nothing left to do.
    Ended,
}

/// The sending given up.
pub open spec fn given_up(error: SendError) -> (SendingView, SendActionView) {
    (SendingView::Ended, SendActionView::Fail(error))
}

/// Goes on with the first of these data units.
pub open spec fn transmit_next(rest: Seq<SubmitView>) -> (SendingView, SendActionView) {
    if rest.len() == 0 {
        (SendingView::Ended, SendActionView::Done)
    } else {
        (
            SendingView::Transmitting { rest: rest.drop_first() },
            SendActionView::Transmit(rest[0]),
        )
    }
}

/// Whether these are the data units that carry a text to an address, under some reference. There
/// is at least one, and they have user data headers exactly where there are several.
pub open spec fn carries(pdus: Seq<SubmitView>, destination: AddressView, text: Seq<char>) -> bool {
    &&& exists|reference: u8|
        pdus == addressed(destination, #[trigger] with_reference(encoded_sms(text), reference))
    &&& pdus.len() > 0
    &&& forall|i: int|
        0 <= i < pdus.len() ==> (#[trigger] pdus[i]).first_octet == submit_octet(pdus.len() > 1)
}

/// Whether a text takes up too many short messages.
pub open spec fn is_too_long(text: Seq<char>) -> bool {
    text.len() > MAX_ENCODABLE_CHARS || encoded_sms(text).len() > MAX_PARTS
}

/// Whether this is a way for a text to start on its way to an address: the first of the data
/// units that carry it goes first, and a text that is too long is refused. A text of up to
/// `SHORT_CHARS` characters never is, and one of more than `LONG_CHARS` always is.
pub open spec fn text_starts(
    destination: AddressView,
    text: Seq<char>,
    start: (SendingView, SendActionView),
) -> bool {
    &&& text.len() <= SHORT_CHARS ==> !is_too_long(text)
    &&& text.len() > LONG_CHARS ==> is_too_long(text)
    &&& if is_too_long(text) {
        start == given_up(SendError::TooLong)
    } else {
        exists|pdus: Seq<SubmitView>|
            #[trigger] carries(pdus, destination, text) && start == transmit_next(pdus)
    }
}

/// Whether this is a way for a message to start on its way to a recipient: the number must be
/// one, and an emote needs the name of who sent it.
pub open spec fn message_starts(
    recipient: RecipientView,
    sender: Seq<char>,
    message: RoomMessageView,
    start: (SendingView, SendActionView),
) -> bool {
    match un_normalized(recipient.phone_number) {
        None => start == given_up(SendError::InvalidAddress),
        Some(destination) => match message {
            RoomMessageView::Emote { body } => start == (
                SendingView::Naming { destination, body },
                SendActionView::GetDisplayname { user: sender },
            ),
            _ => text_starts(destination, sms_text(message, seq![]), start),
        },
    }
}

enum SendStage {
    Naming { destination: PduAddress, body: String },
    Transmitting { rest: Vec<SubmitPdu> },
    Ended,
}

/// A message on its way to a recipient.
pub struct Sending {
    stage: SendStage,
}

impl View for Sending {
    type V = SendingView;

    closed spec fn view(&self) -> SendingView {
        match self.stage {
            SendStage::Naming { destination, body } => SendingView::Naming {
                destination: destination@,
                body: body@,
            },
            SendStage::Transmitting { rest } => SendingView::Transmitting {
                rest: submits_view(rest@),
            },
            SendStage::Ended => SendingView::Ended,
        }
    }
}

impl Sending {
    fn give_up(error: SendError) -> (r: (Sending, SendAction))
        ensures
            (r.0@, r.1@) == given_up(error),
    {
        (Sending { stage: SendStage::Ended }, SendAction::Fail(error))
    }

    /// Starts sending data units, one after another.
    pub fn transmit(pdus: Vec<SubmitPdu>) -> (r: (Sending, SendAction))
        ensures
            (r.0@, r.1@) == transmit_next(submits_view(pdus@)),
    {
        let mut rest: Vec<SubmitPdu> = pdus;
        if rest.len() == 0 {
            (Sending { stage: SendStage::Ended }, SendAction::Done)
        } else {
            let first: SubmitPdu = rest.remove(0);
            assert(submits_view(rest@) =~= submits_view(pdus@).drop_first());
            (Sending { stage: SendStage::Transmitting { rest } }, SendAction::Transmit(first))
        }
    }

    fn start_text(destination: &PduAddress, text: &str) -> (r: (Sending, SendAction))
        ensures
            text_starts(destination@, text@, (r.0@, r.1@)),
    {
        match submit_pdus(destination, text) {
            Ok(pdus) => {
                assert(carries(submits_view(pdus@), destination@, text@));
                Self::transmit(pdus)
            },
            Err(_) => Self::give_up(SendError::TooLong),
        }
    }

    /// Whether the name of the one who sent an emote is being found out.
    pub fn is_naming(&self) -> (r: bool)
        ensures
            r == (self@ is Naming),
    {
        matches!(self.stage, SendStage::Naming { .. })
    }

    /// Whether a data unit is being sent.
    pub fn is_transmitting(&self) -> (r: bool)
        ensures
            r == (self@ is Transmitting),
    {
        matches!(self.stage, SendStage::Transmitting { .. })
    }

    /// The name of the one who sent an emote has been found out, or could not be.
    pub fn named(self, displayname: Option<String>) -> (r: (Sending, SendAction))
        requires
            self@ is Naming,
        ensures
            match displayname {
                None => (r.0@, r.1@) == given_up(SendError::Displayname),
                Some(displayname) => text_starts(
                    self@->destination,
                    sms_text(RoomMessageView::Emote { body: self@->body }, displayname@),
                    (r.0@, r.1@),
                ),
            },
    {
        match (self.stage, displayname) {
            (SendStage::Naming { destination, body }, Some(displayname)) => {
                let text: String = emote_text(displayname.as_str(), body.as_str());
                Self::start_text(&destination, text.as_str())
            },
            _ => Self::give_up(SendError::Displayname),
        }
    }

    /// The modem has sent a data unit, or could not send it.
    pub fn transmitted(self, done: bool) -> (r: (Sending, SendAction))
        requires
            self@ is Transmitting,
        ensures
            (r.0@, r.1@) == self@.transmitted(done),
    {
        match self.stage {
            SendStage::Transmitting { rest } => {
                if done {
                    Self::transmit(rest)
                } else {
                    Self::give_up(SendError::Modem)
                }
            },
            _ => Self::give_up(SendError::Modem),
        }
    }
}

impl SendingView {
    /// How far the sending comes, and what is to be done, once the modem has sent a data unit or
    /// could not send it. After one that could not be sent, no other one is.
    pub open spec fn transmitted(self, done: bool) -> (SendingView, SendActionView) {
        if done {
            transmit_next(self->rest)
        } else {
            given_up(SendError::Modem)
        }
    }
}

/// Starts sending a message to a recipient.
pub fn process_sending_message(recv: Recipient, sender: String, rm: RoomMessage) -> (r: (
    Sending,
    SendAction,
))
    requires
        separable(recv@.phone_number),
    ensures
        message_starts(recv@, sender@, rm@, (r.0@, r.1@)),
{
    match un_normalize_address(recv.phone_number.as_str()) {
        None => Sending::give_up(SendError::InvalidAddress),
        Some(destination) => match rm {
            RoomMessage::Emote { body } => (
                Sending { stage: SendStage::Naming { destination, body } },
                SendAction::GetDisplayname { user: sender },
            ),
            rm => {
                let text: String = plain_text(rm);
                assert(text@ == sms_text(rm@, seq![]));
                Sending::start_text(&destination, text.as_str())
            },
        },
    }
}

/// What is to be done after the modem has sent so many data units one after another.
pub open spec fn after_successes(start: (SendingView, SendActionView), successes: nat) -> (
    SendingView,
    SendActionView,
)
    decreases successes,
{
    if successes == 0 {
        start
    } else {
        after_successes(start.0.transmitted(true), (successes - 1) as nat)
    }
}

/// The data units of a message are sent in order, each once and after the one before it, and the
/// message has been sent once all of them have. After one that could not be sent, no other is.
pub proof fn law_parts_are_sent_in_order(pdus: Seq<SubmitView>, sent: nat)
    requires
        sent <= pdus.len(),
    ensures
        ({
            let (sending, action) = after_successes(transmit_next(pdus), sent);
            if sent < pdus.len() {
                &&& action == SendActionView::Transmit(pdus[sent as int])
                &&& sending == (SendingView::Transmitting { rest: pdus.skip(sent as int + 1) })
                &&& sending.transmitted(false) == given_up(SendError::Modem)
            } else {
                (sending, action) == (SendingView::Ended, SendActionView::Done)
            }
        }),
    decreases sent,
{
    if sent == 0 {
        if pdus.len() > 0 {
            assert(pdus.drop_first() =~= pdus.skip(1));
        }
    } else {
        assert(transmit_next(pdus).0.transmitted(true) == transmit_next(pdus.drop_first()));
        law_parts_are_sent_in_order(pdus.drop_first(), (sent - 1) as nat);
        if sent < pdus.len() {
            assert(pdus.drop_first().skip(sent as int) =~= pdus.skip(sent as int + 1));
        }
    }
}

/// What is said in the room that was made for an address goes to that address, where the address
/// reads back from its stored form.
pub proof fn law_replies_go_to_the_address(
    addr: AddressView,
    recipient: RecipientView,
    sender: Seq<char>,
    message: RoomMessageView,
    start: (SendingView, SendActionView),
)
    requires
        valid_address_type(addr.type_addr),
        letterless(addr.type_addr),
        addr.number.len() > 0,
        all_decimal(addr.number),
        recipient.phone_number == normalized(addr),
        message_starts(recipient, sender, message, start),
    ensures
        start.1 matches SendActionView::Transmit(pdu) ==> pdu.destination == addr,
        start.0 matches SendingView::Transmitting { rest } ==> forall|i: int|
            0 <= i < rest.len() ==> (#[trigger] rest[i]).destination == addr,
        start.0 matches SendingView::Naming { destination, .. } ==> destination == addr,
        start != given_up(SendError::InvalidAddress),
{
    law_stored_address_reads_back(addr);
}

/// Whether what is to be done next is what the sending waits for.
pub open spec fn waits_for(start: (SendingView, SendActionView)) -> bool {
    match start.1 {
        SendActionView::GetDisplayname { .. } => start.0 is Naming,
        SendActionView::Transmit(_) => start.0 is Transmitting,
        SendActionView::Done => start.0 is Ended,
        SendActionView::Fail(_) => start.0 is Ended,
    }
}

/// A sending waits for what is to be done next: for a name where one is to be found out, for the
/// modem where it is to send a data unit, and otherwise for nothing.
pub proof fn law_sending_waits_for_what_it_asked(
    recipient: RecipientView,
    sender: Seq<char>,
    message: RoomMessageView,
    destination: AddressView,
    text: Seq<char>,
    sending: SendingView,
    done: bool,
    start: (SendingView, SendActionView),
)
    ensures
        message_starts(recipient, sender, message, start) ==> waits_for(start),
        text_starts(destination, text, start) ==> waits_for(start),
        waits_for(sending.transmitted(done)),
{
}

/// What is said of each error that has no words of its own.
pub proof fn law_errors_have_words()
    ensures
        error_text(SendError::InvalidAddress) == Some(
            "Invalid address in database - this shouldn't really ever happen"@,
        ),
        error_text(SendError::TooLong) == Some(
            "Message is greater than 3 SMSes in length; refusing to transmit such a long message."@,
        ),
        error_text(SendError::Displayname) is None,
        error_text(SendError::Modem) is None,
{
}

/// A text goes out to an address in as many data units as there are pieces of it, the first of
/// them at once and the others waiting; one that takes up more than three is not sent at all.
/// One of up to 100 characters always is, and one of more than 459 never.
pub proof fn law_text_goes_out_in_pieces(
    destination: AddressView,
    text: Seq<char>,
    start: (SendingView, SendActionView),
)
    requires
        text_starts(destination, text, start),
    ensures
        ({
            let too_long = text.len() > 8542 || encoded_sms(text).len() > 3;
            &&& too_long ==> start == (
                SendingView::Ended,
                SendActionView::Fail(SendError::TooLong),
            )
            &&& !too_long ==> exists|reference: u8|
                {
                    let pieces = #[trigger] with_reference(encoded_sms(text), reference);
                    let pdus = addressed(destination, pieces);
                    &&& pdus.len() == encoded_sms(text).len()
                    &&& start == (
                        SendingView::Transmitting { rest: pdus.skip(1) },
                        SendActionView::Transmit(pdus[0]),
                    )
                }
            &&& text.len() <= 100 ==> !too_long
            &&& text.len() > 459 ==> too_long
        }),
{
    if !is_too_long(text) {
        let pdus = choose|pdus: Seq<SubmitView>|
            #[trigger] carries(pdus, destination, text) && start == transmit_next(pdus);
        let reference = choose|reference: u8|
            pdus == addressed(destination, #[trigger] with_reference(encoded_sms(text), reference));
        let pieces = with_reference(encoded_sms(text), reference);
        assert(addressed(destination, pieces).len() == encoded_sms(text).len());
        assert(pdus.drop_first() =~= pdus.skip(1));
    }
}

/// What is said in a recipient's room goes out to the number that the database has for them,
/// as the text for that kind of message; an emote waits for the name of who sent it, and where
/// the number is none nothing is sent.
pub proof fn law_message_goes_out_as_its_text(
    recipient: RecipientView,
    sender: Seq<char>,
    message: RoomMessageView,
    start: (SendingView, SendActionView),
)
    requires
        message_starts(recipient, sender, message, start),
    ensures
        un_normalized(recipient.phone_number) is None ==> start == (
            SendingView::Ended,
            SendActionView::Fail(SendError::InvalidAddress),
        ),
        un_normalized(recipient.phone_number) matches Some(destination) ==> {
            &&& message matches RoomMessageView::Emote { body } ==> start == (
                SendingView::Naming { destination, body },
                SendActionView::GetDisplayname { user: sender },
            )
            &&& !(message is Emote) ==> forall|name: Seq<char>|
                text_starts(destination, #[trigger] sms_text(message, name), start)
        },
{
    if un_normalized(recipient.phone_number) is Some && !(message is Emote) {
        assert forall|name: Seq<char>| #[trigger] sms_text(message, name) == sms_text(
            message,
            seq![],
        ) by {}
    }
}

/// After a data unit that could not be sent, no other is, and the sending has failed; after one
/// that was sent the next one is, and after the last the sending is done.
pub proof fn law_modem_decides_how_sending_goes_on(rest: Seq<SubmitView>)
    ensures
        ({
            let sending = SendingView::Transmitting { rest };
            &&& sending.transmitted(false) == (
                SendingView::Ended,
                SendActionView::Fail(SendError::Modem),
            )
            &&& rest.len() == 0 ==> sending.transmitted(true) == (
                SendingView::Ended,
                SendActionView::Done,
            )
            &&& rest.len() > 0 ==> sending.transmitted(true) == (
                SendingView::Transmitting { rest: rest.skip(1) },
                SendActionView::Transmit(rest[0]),
            )
        }),
        transmit_next(rest) == (SendingView::Transmitting { rest }).transmitted(true),
        forall|error: SendError| #[trigger]
            given_up(error) == (SendingView::Ended, SendActionView::Fail(error)),
{
    if rest.len() > 0 {
        assert(rest.drop_first() =~= rest.skip(1));
    }
}

} // verus!
