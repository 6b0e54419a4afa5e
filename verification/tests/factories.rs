use matrix_appservice_sms::models::Recipient;
use matrix_appservice_sms::pdu::PduAddress;
use matrix_appservice_sms::recipient_factory::{
    FactoryAction, FactoryError, FactoryInput, FactoryStep, RecipientFactory, Registration,
    RoomPreset, RoomVisibility,
};
use matrix_appservice_sms::store::{StoreReply, StoreRequest};

fn s(text: &str) -> String {
    text.to_string()
}

fn factory() -> RecipientFactory {
    let addr = PduAddress::parse("+4412");
    RecipientFactory::new(addr, s("@admin:example.org"), s("example.org"))
}

fn stored() -> Recipient {
    Recipient {
        id: 6,
        phone_number: s("914412"),
        user_id: s("_sms_914412"),
        room_id: s("!6:example.org"),
    }
}

fn run(f: &mut RecipientFactory, input: FactoryInput) -> FactoryStep {
    assert!(f.accepts(&input));
    f.run(input)
}

fn started() -> RecipientFactory {
    let mut f = factory();
    let step = run(&mut f, FactoryInput::Start);
    assert!(step.act_as.is_none());
    assert!(matches!(step.action,
        FactoryAction::Store(StoreRequest::GetRecipientForAddress { phone_number })
        if phone_number == "914412"));
    f
}

fn entered() -> RecipientFactory {
    let mut f = started();
    let step = run(&mut f, FactoryInput::Store(StoreReply::Found(Some(stored()))));
    assert_eq!(step.act_as, Some(s("@_sms_914412:example.org")));
    assert!(matches!(step.action, FactoryAction::Members { room_id } if room_id == "!6:example.org"));
    f
}

fn is_failure(step: FactoryStep, error: FactoryError) -> bool {
    matches!(step.action, FactoryAction::Fail(e) if e == error)
}

fn is_finish(step: FactoryStep) -> bool {
    matches!(step.action, FactoryAction::Finish { recipient_id: 6, room_id }
        if room_id == "!6:example.org")
}

#[test]
fn user_and_room_are_made() {
    let mut f = started();
    let step = run(&mut f, FactoryInput::Store(StoreReply::Found(None)));
    assert!(matches!(step.action, FactoryAction::Register { localpart }
        if localpart == "_sms_914412"));
    let step = run(&mut f, FactoryInput::Register(Registration::Done));
    match step.action {
        FactoryAction::CreateRoom(options) => {
            assert_eq!(options.preset, RoomPreset::TrustedPrivateChat);
            assert_eq!(options.visibility, RoomVisibility::Private);
            assert!(options.is_direct);
            assert_eq!(options.invite, "@_sms_914412:example.org");
            assert_eq!(options.room_alias_name, "_sms_914412");
            assert_eq!(options.name, "+4412 (SMS)");
        },
        _ => panic!("a room is made"),
    }
    let step = run(&mut f, FactoryInput::CreateRoom(Some(s("!6:example.org"))));
    assert_eq!(step.act_as, Some(s("@_sms_914412:example.org")));
    assert!(matches!(step.action, FactoryAction::JoinRoom { room_id }
        if room_id == "!6:example.org"));
    let step = run(&mut f, FactoryInput::JoinRoom(true));
    match step.action {
        FactoryAction::Store(StoreRequest::CreateRecipient { phone_number, user_id, room_id }) => {
            assert_eq!(phone_number, "914412");
            assert_eq!(user_id, "_sms_914412");
            assert_eq!(room_id, "!6:example.org");
        },
        _ => panic!("the recipient is stored"),
    }
    let step = run(&mut f, FactoryInput::Store(StoreReply::Recipient(stored())));
    assert_eq!(step.act_as, Some(s("@_sms_914412:example.org")));
    assert!(matches!(step.action, FactoryAction::Members { .. }));
    let step = run(&mut f, FactoryInput::Members(Some(vec![s("@_sms_914412:example.org")])));
    assert!(matches!(step.action, FactoryAction::Invite { room_id, user }
        if room_id == "!6:example.org" && user == "@admin:example.org"));
    let step = run(&mut f, FactoryInput::Invite(false));
    assert!(matches!(step.action, FactoryAction::PowerLevel { room_id, user }
        if room_id == "!6:example.org" && user == "@admin:example.org"));
    let step = run(&mut f, FactoryInput::PowerLevel(Some(99)));
    assert!(matches!(step.action, FactoryAction::PowerLevels { room_id }
        if room_id == "!6:example.org"));
    let step = run(&mut f, FactoryInput::PowerLevels(true));
    assert!(matches!(step.action, FactoryAction::SetPowerLevel { room_id, user, level: 100 }
        if room_id == "!6:example.org" && user == "@admin:example.org"));
    assert!(is_finish(run(&mut f, FactoryInput::SetPowerLevel(false))));
    assert!(!f.accepts(&FactoryInput::Start));
}

#[test]
fn known_recipient_keeps_user_and_room() {
    let mut f = entered();
    let members = vec![s("@x:example.org"), s("@admin:example.org")];
    let step = run(&mut f, FactoryInput::Members(Some(members)));
    assert!(matches!(step.action, FactoryAction::PowerLevel { .. }));
    assert!(is_finish(run(&mut f, FactoryInput::PowerLevel(Some(100)))));
}

#[test]
fn power_levels_that_cannot_be_fetched_are_left_alone() {
    let mut f = entered();
    run(&mut f, FactoryInput::Members(Some(vec![s("@admin:example.org")])));
    run(&mut f, FactoryInput::PowerLevel(Some(0)));
    assert!(is_finish(run(&mut f, FactoryInput::PowerLevels(false))));
}

#[test]
fn user_may_be_registered_already() {
    let mut f = started();
    run(&mut f, FactoryInput::Store(StoreReply::Found(None)));
    let refused = Registration::Refused { errcode: s("M_USER_IN_USE") };
    let step = run(&mut f, FactoryInput::Register(refused));
    assert!(matches!(step.action, FactoryAction::CreateRoom(_)));
}

#[test]
fn failures_end_the_making_of_a_recipient() {
    let mut f = started();
    let step = run(&mut f, FactoryInput::Store(StoreReply::Failed));
    assert!(is_failure(step, FactoryError::Store));

    for registration in
        vec![Registration::Failed, Registration::Refused { errcode: s("M_EXCLUSIVE") }]
    {
        let mut f = started();
        run(&mut f, FactoryInput::Store(StoreReply::Found(None)));
        let step = run(&mut f, FactoryInput::Register(registration));
        assert!(is_failure(step, FactoryError::Register));
    }

    let mut f = started();
    run(&mut f, FactoryInput::Store(StoreReply::Found(None)));
    run(&mut f, FactoryInput::Register(Registration::Done));
    assert!(is_failure(run(&mut f, FactoryInput::CreateRoom(None)), FactoryError::CreateRoom));

    let mut f = started();
    run(&mut f, FactoryInput::Store(StoreReply::Found(None)));
    run(&mut f, FactoryInput::Register(Registration::Done));
    run(&mut f, FactoryInput::CreateRoom(Some(s("!6:example.org"))));
    assert!(is_failure(run(&mut f, FactoryInput::JoinRoom(false)), FactoryError::JoinRoom));

    let mut f = entered();
    assert!(is_failure(run(&mut f, FactoryInput::Members(None)), FactoryError::Members));

    let mut f = entered();
    run(&mut f, FactoryInput::Members(Some(vec![])));
    run(&mut f, FactoryInput::Invite(true));
    assert!(is_failure(run(&mut f, FactoryInput::PowerLevel(None)), FactoryError::PowerLevel));
}

#[test]
fn factory_takes_in_only_what_it_waits_for() {
    let f = factory();
    assert!(!f.accepts(&FactoryInput::Members(None)));
    assert!(!f.accepts(&FactoryInput::Store(StoreReply::Found(None))));
    let f = started();
    assert!(!f.accepts(&FactoryInput::Start));
    assert!(!f.accepts(&FactoryInput::Store(StoreReply::Done)));
}
