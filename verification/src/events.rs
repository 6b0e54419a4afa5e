//! What happens in Matrix rooms, and the texts that go back and forth.

use vstd::prelude::*;
use vstd::string::*;

use crate::pdu::{parsed_address, AddressView, PduAddress};
use crate::text::{
    contains_char, decimal, has_char, has_prefix, join2, law_prefix_is_in_front, push_decimal,
    starts_with, text_eq,
};

verus! {

/// A message that was sent to a room.
pub enum RoomMessage {
    Text { body: String },
    Notice { body: String },
    Image { body: String, url: String },
    File { body: String, url: String },
    Location { body: String, geo_uri: String },
    Audio { body: String, url: String },
    Video { body: String, url: String },
    Emote { body: String },
}

/// What a `RoomMessage` holds.
pub enum RoomMessageView {
    Text { body: Seq<char> },
    Notice { body: Seq<char> },
    Image { body: Seq<char>, url: Seq<char> },
    File { body: Seq<char>, url: Seq<char> },
    Location { body: Seq<char>, geo_uri: Seq<char> },
    Audio { body: Seq<char>, url: Seq<char> },
    Video { body: Seq<char>, url: Seq<char> },
    Emote { body: Seq<char> },
}

impl View for RoomMessage {
    type V = RoomMessageView;

    open spec fn view(&self) -> RoomMessageView {
        match *self {
            RoomMessage::Text { body } => RoomMessageView::Text { body: body@ },
            RoomMessage::Notice { body } => RoomMessageView::Notice { body: body@ },
            RoomMessage::Image { body, url } => RoomMessageView::Image { body: body@, url: url@ },
            RoomMessage::File { body, url } => RoomMessageView::File { body: body@, url: url@ },
            RoomMessage::Location { body, geo_uri } => RoomMessageView::Location {
                body: body@,
                geo_uri: geo_uri@,
            },
            RoomMessage::Audio { body, url } => RoomMessageView::Audio { body: body@, url: url@ },
            RoomMessage::Video { body, url } => RoomMessageView::Video { body: body@, url: url@ },
            RoomMessage::Emote { body } => RoomMessageView::Emote { body: body@ },
        }
    }
}

/// Where a user stands towards a room.
#[derive(Debug, Clone, Copy, PartialEq, Eq, Structural)]
pub enum Membership {
    Invite,
    Join,
    Leave,
    Ban,
}

/// What an event is about.
pub enum EventContent {
    RoomMember(Membership),
    RoomMessage(RoomMessage),
    Other,
}

/// What an `EventContent` holds.
pub enum EventContentView {
    RoomMember(Membership),
    RoomMessage(RoomMessageView),
    Other,
}

impl View for EventContent {
    type V = EventContentView;

    open spec fn view(&self) -> EventContentView {
        match *self {
            EventContent::RoomMember(m) => EventContentView::RoomMember(m),
            EventContent::RoomMessage(m) => EventContentView::RoomMessage(m@),
            EventContent::Other => EventContentView::Other,
        }
    }
}

/// The contents of a string that may be missing.
pub open spec fn text_view(s: Option<String>) -> Option<Seq<char>> {
    match s {
        Some(s) => Some(s@),
        None => None,
    }
}

/// Where an event happened, and who brought it about.
pub struct RoomEventData {
    pub event_id: String,
    pub room: Option<String>,
    pub sender: String,
}

/// What a `RoomEventData` holds.
pub struct RoomEventDataView {
    pub event_id: Seq<char>,
    pub room: Option<Seq<char>>,
    pub sender: Seq<char>,
}

impl View for RoomEventData {
    type V = RoomEventDataView;

    open spec fn view(&self) -> RoomEventDataView {
        RoomEventDataView {
            event_id: self.event_id@,
            room: text_view(self.room),
            sender: self.sender@,
        }
    }
}

/// An event from the homeserver. State events have a state key.
pub struct Event {
    pub content: EventContent,
    pub room_data: Option<RoomEventData>,
    pub state_key: Option<String>,
}

/// What an `Event` holds.
pub struct EventView {
    pub content: EventContentView,
    pub room_data: Option<RoomEventDataView>,
    pub state_key: Option<Seq<char>>,
}

impl View for Event {
    type V = EventView;

    open spec fn view(&self) -> EventView {
        EventView {
            content: self.content@,
            room_data: match self.room_data {
                Some(rd) => Some(rd@),
                None => None,
            },
            state_key: text_view(self.state_key),
        }
    }
}

/// Whether a user identifier is one of the bridge's own.
pub open spec fn is_own_user(user: Seq<char>) -> bool {
    has_prefix(user, "@_sms"@)
}

/// The user identifier of the bridge's bot.
pub open spec fn bot_user(hs_localpart: Seq<char>) -> Seq<char> {
    "@_sms_bot:"@ + hs_localpart
}

/// The name, on the homeserver, of the user who stands for a phone number in stored form.
pub open spec fn phone_localpart(phone_number: Seq<char>) -> Seq<char> {
    "_sms_"@ + phone_number
}

/// The user identifier that a name on the homeserver has.
pub open spec fn full_user(localpart: Seq<char>, hs_localpart: Seq<char>) -> Seq<char> {
    "@"@ + localpart + ":"@ + hs_localpart
}

/// The bot, and every user who stands for a phone number, is one of the bridge's own users.
pub proof fn law_bridge_users_are_own(phone_number: Seq<char>, hs_localpart: Seq<char>)
    ensures
        is_own_user(bot_user(hs_localpart)),
        is_own_user(full_user(phone_localpart(phone_number), hs_localpart)),
{
    reveal_strlit("@_sms");
    reveal_strlit("@_sms_bot:");
    reveal_strlit("_sms_");
    reveal_strlit("@");
    let own = "@_sms"@;
    let bot = bot_user(hs_localpart);
    let user = full_user(phone_localpart(phone_number), hs_localpart);
    assert(bot.subrange(0, 5) =~= own);
    assert(user.subrange(0, 5) =~= own) by {
        assert(user[0] == '@');
        assert(user[1] == "_sms_"@[0]);
        assert(user[2] == "_sms_"@[1]);
        assert(user[3] == "_sms_"@[2]);
        assert(user[4] == "_sms_"@[3]);
    }
}

/// Whether a user identifier is one of the bridge's own.
pub fn own_user(user: &str) -> (r: bool)
    ensures
        r == is_own_user(user@),
{
    starts_with(user, "@_sms")
}

/// The user identifier of the bridge's bot.
pub fn bot_user_id(hs_localpart: &str) -> (r: String)
    ensures
        r@ == bot_user(hs_localpart@),
{
    join2("@_sms_bot:", hs_localpart)
}

/// The user identifier that a name on the homeserver has.
pub fn full_user_id(localpart: &str, hs_localpart: &str) -> (r: String)
    ensures
        r@ == full_user(localpart@, hs_localpart@),
{
    join2("@", localpart).concat(":").concat(hs_localpart)
}

/// What the one who runs the bridge asks of it.
pub enum AdminCommand {
    /// Start or resume a conversation with a phone number.
    NewConversation(PduAddress),
    /// Tell the modem's network registration.
    GetRegistration,
    /// Tell the signal quality.
    GetSignal,
    /// Tell the commands.
    Help,
    /// Something that is not a command.
    Unrecognized,
}

/// What an `AdminCommand` holds.
pub enum AdminCommandView {
    NewConversation(AddressView),
    GetRegistration,
    GetSignal,
    Help,
    Unrecognized,
}

impl View for AdminCommand {
    type V = AdminCommandView;

    open spec fn view(&self) -> AdminCommandView {
        match *self {
            AdminCommand::NewConversation(addr) => AdminCommandView::NewConversation(addr@),
            AdminCommand::GetRegistration => AdminCommandView::GetRegistration,
            AdminCommand::GetSignal => AdminCommandView::GetSignal,
            AdminCommand::Help => AdminCommandView::Help,
            AdminCommand::Unrecognized => AdminCommandView::Unrecognized,
        }
    }
}

/// The command that a text is: a command word that takes nothing stands alone, and the one that
/// takes a phone number is followed by one space and a number without spaces.
pub open spec fn command_of(text: Seq<char>) -> AdminCommandView {
    let word = "!sms "@;
    if has_prefix(text, word) && !has_char(text.skip(word.len() as int), ' ') {
        AdminCommandView::NewConversation(parsed_address(text.skip(word.len() as int)))
    } else if text == "!help"@ {
        AdminCommandView::Help
    } else if text == "!reg"@ {
        AdminCommandView::GetRegistration
    } else if text == "!csq"@ {
        AdminCommandView::GetSignal
    } else {
        AdminCommandView::Unrecognized
    }
}

/// Reads a command.
pub fn parse_admin_command(text: &str) -> (r: AdminCommand)
    ensures
        r@ == command_of(text@),
{
    let word: &str = "!sms ";
    if starts_with(text, word) {
        let from: usize = word.unicode_len();
        let number: &str = text.substring_char(from, text.unicode_len());
        assert(number@ =~= text@.skip(word@.len() as int));
        if !contains_char(number, ' ') {
            return AdminCommand::NewConversation(PduAddress::parse(number));
        }
    }
    if text_eq(text, "!help") {
        AdminCommand::Help
    } else if text_eq(text, "!reg") {
        AdminCommand::GetRegistration
    } else if text_eq(text, "!csq") {
        AdminCommand::GetSignal
    } else {
        AdminCommand::Unrecognized
    }
}

/// What is said when help is asked for.
pub open spec fn help_text() -> Seq<char> {
    "This is an instance of matrix-appservice-sms (https://github.com/eeeeeta/matrix-appservice-sms/).\nCurrently supported commands:\n- !sms <num>: start or resume an SMS conversation with a given phone number\n- !csq: check signal quality\n- !reg: get the modem's network registration status\n- !help: display this text"@
}

/// What is said to something that is not a command.
pub open spec fn unrecognized_text() -> Seq<char> {
    "Unrecognized command. Try !help for more information."@
}

/// What is said when help is asked for.
pub fn help() -> (r: String)
    ensures
        r@ == help_text(),
{
    "This is an instance of matrix-appservice-sms (https://github.com/eeeeeta/matrix-appservice-sms/).\nCurrently supported commands:\n- !sms <num>: start or resume an SMS conversation with a given phone number\n- !csq: check signal quality\n- !reg: get the modem's network registration status\n- !help: display this text".to_owned()
}

/// What is said to something that is not a command.
pub fn unrecognized() -> (r: String)
    ensures
        r@ == unrecognized_text(),
{
    "Unrecognized command. Try !help for more information.".to_owned()
}

/// What is said of the modem's network registration.
pub fn registration_text(state: &str) -> (r: String)
    ensures
        r@ == "Registration status: "@ + state@,
{
    join2("Registration status: ", state)
}

/// What is said of the signal quality.
pub fn signal_text(rssi: u32, ber: u32) -> (r: String)
    ensures
        r@ == "RSSI: "@ + decimal(rssi as nat) + "\nBER: "@ + decimal(ber as nat),
{
    let mut ret: String = "RSSI: ".to_owned();
    push_decimal(&mut ret, rssi);
    ret.append("\nBER: ");
    push_decimal(&mut ret, ber);
    ret
}

/// The text message that stands for something shared in a room.
pub open spec fn shared_text(what: Seq<char>, body: Seq<char>, link: Seq<char>) -> Seq<char> {
    "["@ + what + " '"@ + body + "' - download at "@ + link + "]"@
}

/// The text message that stands for a message sent to a room by someone with this name.
pub open spec fn sms_text(message: RoomMessageView, displayname: Seq<char>) -> Seq<char> {
    match message {
        RoomMessageView::Text { body } => body,
        RoomMessageView::Notice { body } => body,
        RoomMessageView::Image { body, url } => shared_text("Image"@, body, url),
        RoomMessageView::File { body, url } => shared_text("File"@, body, url),
        RoomMessageView::Location { body, geo_uri } => "[Location "@ + body + " - geo URI "@
            + geo_uri + "]"@,
        RoomMessageView::Audio { body, url } => shared_text("Audio file"@, body, url),
        RoomMessageView::Video { body, url } => shared_text("Video file"@, body, url),
        RoomMessageView::Emote { body } => "* "@ + displayname + " "@ + body,
    }
}

fn shared(what: &str, body: &str, link: &str) -> (r: String)
    ensures
        r@ == shared_text(what@, body@, link@),
{
    join2("[", what).concat(" '").concat(body).concat("' - download at ").concat(link).concat("]")
}

/// The text message that stands for a message of any kind but an emote.
pub fn plain_text(message: RoomMessage) -> (r: String)
    requires
        !(message is Emote),
    ensures
        forall|displayname: Seq<char>| r@ == #[trigger] sms_text(message@, displayname),
{
    match message {
        RoomMessage::Text { body } => body,
        RoomMessage::Notice { body } => body,
        RoomMessage::Image { body, url } => shared("Image", body.as_str(), url.as_str()),
        RoomMessage::File { body, url } => shared("File", body.as_str(), url.as_str()),
        RoomMessage::Location { body, geo_uri } => {
            join2("[Location ", body.as_str()).concat(" - geo URI ").concat(
                geo_uri.as_str(),
            ).concat("]")
        },
        RoomMessage::Audio { body, url } => shared("Audio file", body.as_str(), url.as_str()),
        RoomMessage::Video { body, url } => shared("Video file", body.as_str(), url.as_str()),
        RoomMessage::Emote { body } => body,
    }
}

/// The text message that stands for an emote.
pub fn emote_text(displayname: &str, body: &str) -> (r: String)
    ensures
        r@ == sms_text(RoomMessageView::Emote { body: body@ }, displayname@),
{
    join2("* ", displayname).concat(" ").concat(body)
}

/// A message to a room, with its text in HTML as well.
pub struct Notice {
    pub body: String,
    pub format: String,
    pub formatted_body: String,
}

/// Tells someone that their message could not be sent, and why.
pub fn failure_notice(sender: &str, displayname: &str, error: &str) -> (r: Notice)
    ensures
        r.body@ == displayname@ + ": error sending message: "@ + error@,
        r.format@ == "org.matrix.custom.html"@,
        r.formatted_body@ == "<a href=\"https://matrix.to/#/"@ + sender@ + "\">"@ + displayname@
            + "</a>: error sending message: <pre>"@ + error@ + "</pre>"@,
{
    let body: String = join2(displayname, ": error sending message: ").concat(error);
    let formatted_body: String = join2("<a href=\"https://matrix.to/#/", sender).concat(
        "\">",
    ).concat(displayname).concat("</a>: error sending message: <pre>").concat(error).concat(
        "</pre>",
    );
    Notice { body, format: "org.matrix.custom.html".to_owned(), formatted_body }
}

/// How the bridge's users are named, and which users are its own.
pub proof fn law_users_are_known_by_their_names(
    phone_number: Seq<char>,
    localpart: Seq<char>,
    hs_localpart: Seq<char>,
    user: Seq<char>,
)
    ensures
        bot_user(hs_localpart) == "@_sms_bot:"@ + hs_localpart,
        phone_localpart(phone_number) == "_sms_"@ + phone_number,
        full_user(localpart, hs_localpart) == "@"@ + localpart + ":"@ + hs_localpart,
        is_own_user(user) <==> exists|rest: Seq<char>| user == #[trigger] ("@_sms"@ + rest),
{
    law_prefix_is_in_front(user, "@_sms"@);
}

/// Different phone numbers have different users.
pub proof fn law_numbers_have_users_of_their_own(
    a: Seq<char>,
    b: Seq<char>,
    hs_localpart: Seq<char>,
)
    requires
        full_user(phone_localpart(a), hs_localpart) == full_user(phone_localpart(b), hs_localpart),
    ensures
        a == b,
{
    let front = "@"@ + "_sms_"@;
    let back = ":"@ + hs_localpart;
    let x = full_user(phone_localpart(a), hs_localpart);
    let y = full_user(phone_localpart(b), hs_localpart);
    assert(x =~= front + a + back);
    assert(y =~= front + b + back);
    assert(x.len() == front.len() + a.len() + back.len());
    assert(y.len() == front.len() + b.len() + back.len());
    assert(a =~= x.subrange(front.len() as int, front.len() as int + a.len()));
    assert(b =~= y.subrange(front.len() as int, front.len() as int + b.len()));
}

/// Which texts are which commands. A conversation is started by a number with no space in it,
/// one space behind the word; the other commands are one word each; all else is no command.
pub proof fn law_commands_are_told_apart(text: Seq<char>, addr: AddressView)
    ensures
        command_of(text) == AdminCommandView::NewConversation(addr) <==> exists|number: Seq<char>|
            text == #[trigger] ("!sms "@ + number) && !number.contains(' ') && addr
                == parsed_address(number),
        command_of(text) is Help <==> text == "!help"@,
        command_of(text) is GetRegistration <==> text == "!reg"@,
        command_of(text) is GetSignal <==> text == "!csq"@,
{
    let word = "!sms "@;
    reveal_strlit("!sms ");
    reveal_strlit("!help");
    reveal_strlit("!reg");
    reveal_strlit("!csq");
    law_prefix_is_in_front(text, word);
    if has_prefix(text, word) {
        assert(text[1] == 's');
        assert(text =~= word + text.skip(5));
    }
    assert("!help"@[1] == 'h' && "!reg"@[1] == 'r' && "!csq"@[1] == 'c');
    assert forall|number: Seq<char>| text == #[trigger] (word + number) implies text.skip(5)
        =~= number by {}
    assert(command_of(text) is NewConversation ==> has_prefix(text, word) && !text.skip(
        5,
    ).contains(' '));
}

/// The text message that stands for each kind of message. Only an emote tells who sent it.
pub proof fn law_messages_become_texts(body: Seq<char>, link: Seq<char>, name: Seq<char>)
    ensures
        sms_text(RoomMessageView::Text { body }, name) == body,
        sms_text(RoomMessageView::Notice { body }, name) == body,
        sms_text(RoomMessageView::Image { body, url: link }, name) == "["@ + "Image"@ + " '"@ + body
            + "' - download at "@ + link + "]"@,
        sms_text(RoomMessageView::File { body, url: link }, name) == "["@ + "File"@ + " '"@ + body
            + "' - download at "@ + link + "]"@,
        sms_text(RoomMessageView::Audio { body, url: link }, name) == "["@ + "Audio file"@ + " '"@
            + body + "' - download at "@ + link + "]"@,
        sms_text(RoomMessageView::Video { body, url: link }, name) == "["@ + "Video file"@ + " '"@
            + body + "' - download at "@ + link + "]"@,
        sms_text(RoomMessageView::Location { body, geo_uri: link }, name) == "[Location "@ + body
            + " - geo URI "@ + link + "]"@,
        sms_text(RoomMessageView::Emote { body }, name) == "* "@ + name + " "@ + body,
{
}

/// A string that may be missing is missing, or has its contents.
pub proof fn law_missing_text_is_missing(text: String)
    ensures
        text_view(None) is None,
        text_view(Some(text)) == Some(text@),
{
}

} // verus!
