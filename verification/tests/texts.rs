use matrix_appservice_sms::backoff::backoff_secs;
use matrix_appservice_sms::events::{
    bot_user_id, emote_text, failure_notice, full_user_id, help, own_user, parse_admin_command,
    plain_text, registration_text, signal_text, unrecognized, AdminCommand, RoomMessage,
};
use matrix_appservice_sms::home;
use matrix_appservice_sms::pool::{connection, DbError};

#[test]
fn front_page() {
    assert_eq!(home(), "matrix-appservice-sms here, alive and well!");
}

#[test]
fn users_of_the_bridge() {
    assert_eq!(bot_user_id("example.org"), "@_sms_bot:example.org");
    assert_eq!(full_user_id("_sms_9144", "example.org"), "@_sms_9144:example.org");
    assert!(own_user(&bot_user_id("example.org")));
    assert!(own_user(&full_user_id("_sms_9144", "example.org")));
    assert!(!own_user("@eta:example.org"));
    assert!(!own_user("_sms_bot"));
}

#[test]
fn commands_are_read() {
    assert!(matches!(parse_admin_command("!help"), AdminCommand::Help));
    assert!(matches!(parse_admin_command("!reg"), AdminCommand::GetRegistration));
    assert!(matches!(parse_admin_command("!csq"), AdminCommand::GetSignal));
    match parse_admin_command("!sms +440123456789") {
        AdminCommand::NewConversation(addr) => assert_eq!(addr.display(), "+440123456789"),
        _ => panic!("a command to start a conversation"),
    }
}

#[test]
fn other_words_are_not_commands() {
    for text in vec!["!", "!sms", "!help me", "!sms 1 2", "!smsx 1", " !help", "!sms 1 ", "!HELP"] {
        assert!(matches!(parse_admin_command(text), AdminCommand::Unrecognized));
    }
}

#[test]
fn command_without_a_number_starts_a_conversation() {
    match parse_admin_command("!sms ") {
        AdminCommand::NewConversation(addr) => assert!(addr.number().is_empty()),
        _ => panic!("a command to start a conversation"),
    }
}

#[test]
fn answers_to_commands() {
    assert_eq!(
        help(),
        "This is an instance of matrix-appservice-sms (https://github.com/eeeeeta/matrix-appservice-sms/).
Currently supported commands:
- !sms <num>: start or resume an SMS conversation with a given phone number
- !csq: check signal quality
- !reg: get the modem's network registration status
- !help: display this text"
    );
    assert_eq!(unrecognized(), "Unrecognized command. Try !help for more information.");
    assert_eq!(
        registration_text("Registered; roaming"),
        "Registration status: Registered; roaming"
    );
    assert_eq!(signal_text(31, 0), "RSSI: 31\nBER: 0");
    assert_eq!(signal_text(4294967295, 99), "RSSI: 4294967295\nBER: 99");
}

fn s(text: &str) -> String {
    text.to_string()
}

#[test]
fn messages_become_texts() {
    assert_eq!(plain_text(RoomMessage::Text { body: s("hi") }), "hi");
    assert_eq!(plain_text(RoomMessage::Notice { body: s("note") }), "note");
    assert_eq!(
        plain_text(RoomMessage::Image { body: s("cat"), url: s("mxc://a/b") }),
        "[Image 'cat' - download at mxc://a/b]"
    );
    assert_eq!(
        plain_text(RoomMessage::File { body: s("f"), url: s("u") }),
        "[File 'f' - download at u]"
    );
    assert_eq!(
        plain_text(RoomMessage::Location { body: s("Big Ben"), geo_uri: s("geo:1,2") }),
        "[Location Big Ben - geo URI geo:1,2]"
    );
    assert_eq!(
        plain_text(RoomMessage::Audio { body: s("a"), url: s("u") }),
        "[Audio file 'a' - download at u]"
    );
    assert_eq!(
        plain_text(RoomMessage::Video { body: s("v"), url: s("u") }),
        "[Video file 'v' - download at u]"
    );
    assert_eq!(emote_text("eta", "waves"), "* eta waves");
}

#[test]
fn failure_is_reported_in_text_and_html() {
    let notice = failure_notice("@eta:example.org", "eta", "no signal");
    assert_eq!(notice.body, "eta: error sending message: no signal");
    assert_eq!(notice.format, "org.matrix.custom.html");
    assert_eq!(
        notice.formatted_body,
        "<a href=\"https://matrix.to/#/@eta:example.org\">eta</a>: error sending message: <pre>no signal</pre>"
    );
}

#[test]
fn wait_doubles_with_each_failure() {
    assert_eq!(backoff_secs(0), 1);
    assert_eq!(backoff_secs(1), 2);
    assert_eq!(backoff_secs(10), 1024);
    assert_eq!(backoff_secs(63), 9223372036854775808);
    for failures in 0..63 {
        assert_eq!(backoff_secs(failures + 1), 2 * backoff_secs(failures));
    }
}

#[test]
fn request_gets_a_connection_if_there_is_one() {
    assert_eq!(connection(Some(Some(7))), Ok(7));
    assert_eq!(connection::<u8>(Some(None)), Err(DbError::NoConnection));
    assert_eq!(connection::<u8>(None), Err(DbError::NoPool));
    assert_eq!(DbError::NoPool.status(), 500);
    assert_eq!(DbError::NoConnection.status(), 503);
}
