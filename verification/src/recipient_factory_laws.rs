//! What holds of the making of users and rooms, over several inputs.

use vstd::prelude::*;

use crate::bridge::{SmsMessageView, TaskView, UserHandle};
use crate::events::{is_own_user, law_bridge_users_are_own};
use crate::models::RecipientView;
use crate::pdu::shown_address;
use crate::recipient_factory::{
    address_user, FactoryActionView, FactoryError, FactoryInputView, FactoryStepView, FactoryView,
    RegistrationView, RoomOptionsView, RoomPreset, RoomVisibility, StageView, ADMIN_LEVEL,
};
use crate::store::{StoreReplyView, StoreRequestView};
use crate::util::normalized;

verus! {

/// How many steps there are at most before a factory that has come this far ends.
pub open spec fn steps_left(stage: StageView) -> nat {
    match stage {
        StageView::New => 11,
        StageView::Finding => 10,
        StageView::Registering => 9,
        StageView::CreatingRoom => 8,
        StageView::Joining { .. } => 7,
        StageView::Saving { .. } => 6,
        StageView::ListingMembers { .. } => 5,
        StageView::Inviting { .. } => 4,
        StageView::ReadingLevel { .. } => 3,
        StageView::ReadingLevels { .. } => 2,
        StageView::SettingLevel { .. } => 1,
        StageView::Ended => 0,
    }
}

/// A factory comes to an end: whatever comes in, it gets closer to it, and it has ended exactly
/// when it finishes or gives up.
pub proof fn law_factory_ends(factory: FactoryView, input: FactoryInputView)
    requires
        factory.accepts(input),
    ensures
        ({
            let (next, step) = factory.run(input);
            &&& steps_left(next.stage) < steps_left(factory.stage)
            &&& next.stage is Ended <==> (step.action is Finish || step.action is Fail)
        }),
{
}

/// What a factory is about stays the same.
pub proof fn law_factory_keeps_its_address(factory: FactoryView, input: FactoryInputView)
    ensures
        ({
            let next = factory.run(input).0;
            &&& next.addr == factory.addr
            &&& next.admin == factory.admin
            &&& next.hs_localpart == factory.hs_localpart
        }),
{
}

/// The users that a factory makes and acts as are the bridge's own, so what they do in a room is
/// never taken for a message to send.
pub proof fn law_factory_acts_as_own_user(factory: FactoryView, room_id: Seq<char>)
    requires
        factory.stage is CreatingRoom,
    ensures
        ({
            let step = factory.run(FactoryInputView::CreateRoom(Some(room_id))).1;
            &&& step.act_as == Some(address_user(factory.addr, factory.hs_localpart))
            &&& is_own_user(step.act_as->0)
        }),
{
    law_bridge_users_are_own(normalized(factory.addr), factory.hs_localpart);
}

/// A recipient that a factory stores is entered as the very user that was made for it, whether
/// it has just been stored or is found later.
pub proof fn law_stored_recipient_is_the_user_made(
    factory: FactoryView,
    room_id: Seq<char>,
    recipient: RecipientView,
)
    requires
        factory.stage == (StageView::Joining { room_id }),
        factory.run(FactoryInputView::JoinRoom(true)).1.action == FactoryActionView::Store(
            StoreRequestView::CreateRecipient {
                phone_number: recipient.phone_number,
                user_id: recipient.user_id,
                room_id: recipient.room_id,
            },
        ),
    ensures
        ({
            let saving = factory.run(FactoryInputView::JoinRoom(true)).0;
            let finding = FactoryView { stage: StageView::Finding, ..factory };
            let entered = saving.run(
                FactoryInputView::Store(StoreReplyView::Recipient(recipient)),
            );
            &&& entered.1.act_as == Some(address_user(factory.addr, factory.hs_localpart))
            &&& entered.1.action == FactoryActionView::Members { room_id }
            &&& finding.run(FactoryInputView::Store(StoreReplyView::Found(Some(recipient))))
                == entered
        }),
{
}

/// A recipient is stored under the phone number by which it is looked for: by a factory for the
/// same address, for the sender of a message, and once it has got a handle.
pub proof fn law_recipient_is_found_again(
    factory: FactoryView,
    room_id: Seq<char>,
    other: FactoryView,
    message: SmsMessageView,
    handle: UserHandle,
)
    requires
        factory.stage == (StageView::Joining { room_id }),
        other.stage is New,
        other.addr == factory.addr,
        message.originating_address == factory.addr,
    ensures
        ({
            let lookup = StoreRequestView::GetRecipientForAddress {
                phone_number: normalized(factory.addr),
            };
            &&& factory.run(FactoryInputView::JoinRoom(true)).1.action
                matches FactoryActionView::Store(StoreRequestView::CreateRecipient {
                phone_number,
                ..
            }) && phone_number == normalized(factory.addr)
            &&& other.run(FactoryInputView::Start).1.action == FactoryActionView::Store(lookup)
            &&& (TaskView::FindSender { rest: seq![message] }).request() == Some(lookup)
            &&& (TaskView::FindRegistered { addr: factory.addr, handle }).request() == Some(lookup)
        }),
{
}

/// That a user is registered already makes no difference.
pub proof fn law_user_may_be_registered_already(factory: FactoryView)
    requires
        factory.stage is Registering,
    ensures
        factory.run(
            FactoryInputView::Register(RegistrationView::Refused { errcode: "M_USER_IN_USE"@ }),
        ) == factory.run(FactoryInputView::Register(RegistrationView::Done)),
{
}

/// Whether a factory is at work in the room of this recipient.
pub open spec fn at_work_for(stage: StageView, recipient: RecipientView) -> bool {
    ||| stage == (StageView::ListingMembers { recipient })
    ||| stage == (StageView::Inviting { recipient })
    ||| stage == (StageView::ReadingLevel { recipient })
    ||| stage == (StageView::ReadingLevels { recipient })
    ||| stage == (StageView::SettingLevel { recipient })
}

/// Whether something to be done concerns only who is in a room and what they may do there.
pub open spec fn is_upkeep(action: FactoryActionView, room: Seq<char>) -> bool {
    match action {
        FactoryActionView::Members { room_id } => room_id == room,
        FactoryActionView::Invite { room_id, .. } => room_id == room,
        FactoryActionView::PowerLevel { room_id, .. } => room_id == room,
        FactoryActionView::PowerLevels { room_id } => room_id == room,
        FactoryActionView::SetPowerLevel { room_id, .. } => room_id == room,
        _ => false,
    }
}

/// For a recipient who is there, no user or room is made: everything that is done concerns their
/// room, and what is finished in the end is the management of their messages in it.
pub proof fn law_known_recipient_is_kept(
    factory: FactoryView,
    recipient: RecipientView,
    input: FactoryInputView,
)
    requires
        at_work_for(factory.stage, recipient) || (factory.stage is Finding && input
            == FactoryInputView::Store(StoreReplyView::Found(Some(recipient)))),
        factory.accepts(input),
    ensures
        ({
            let (next, step) = factory.run(input);
            ||| at_work_for(next.stage, recipient) && is_upkeep(step.action, recipient.room_id)
            ||| next.stage is Ended && step.action == FactoryActionView::Finish {
                recipient_id: recipient.id,
                room_id: recipient.room_id,
            }
            ||| next.stage is Ended && step.action is Fail
        }),
{
}

/// The one who runs the bridge is in the room, or has been invited to it, before their power
/// level is looked at.
pub proof fn law_admin_is_let_in(factory: FactoryView, input: FactoryInputView)
    requires
        factory.accepts(input),
        factory.run(input).1.action is PowerLevel,
    ensures
        match factory.stage {
            StageView::ListingMembers { .. } => input matches FactoryInputView::Members(
                Some(members),
            ) && members.contains(factory.admin),
            StageView::Inviting { .. } => true,
            _ => false,
        },
{
}

/// A factory finishes only where the one who runs the bridge may do everything in the room, or
/// where giving them that has been tried.
pub proof fn law_admin_may_do_everything(factory: FactoryView, input: FactoryInputView)
    requires
        factory.accepts(input),
        factory.run(input).1.action is Finish,
    ensures
        match factory.stage {
            StageView::ReadingLevel { .. } => input matches FactoryInputView::PowerLevel(
                Some(level),
            ) && level >= ADMIN_LEVEL,
            StageView::ReadingLevels { .. } => input == FactoryInputView::PowerLevels(false),
            StageView::SettingLevel { .. } => true,
            _ => false,
        },
{
}

/// Whether a factory has come this far with this to be done, as the same user as before.
pub open spec fn has_come_to(
    before: FactoryView,
    after: (FactoryView, FactoryStepView),
    stage: StageView,
    action: FactoryActionView,
) -> bool {
    &&& after.0 == FactoryView { stage, ..before }
    &&& after.1 == FactoryStepView { act_as: None, action }
}

/// A factory first looks for a recipient with its number. Where there is none, and only there, a
/// user is registered; where there is one, their room is entered as their user; and where the
/// database fails the factory gives up.
pub proof fn law_user_is_registered_for_a_new_number(
    factory: FactoryView,
    recipient: RecipientView,
)
    ensures
        factory.stage is New ==> has_come_to(
            factory,
            factory.run(FactoryInputView::Start),
            StageView::Finding,
            FactoryActionView::Store(
                StoreRequestView::GetRecipientForAddress { phone_number: normalized(factory.addr) },
            ),
        ),
        factory.stage is Finding ==> {
            &&& has_come_to(
                factory,
                factory.run(FactoryInputView::Store(StoreReplyView::Found(None))),
                StageView::Registering,
                FactoryActionView::Register { localpart: "_sms_"@ + normalized(factory.addr) },
            )
            &&& factory.run(FactoryInputView::Store(StoreReplyView::Found(Some(recipient)))) == (
                FactoryView { stage: StageView::ListingMembers { recipient }, ..factory },
                FactoryStepView {
                    act_as: Some("@"@ + recipient.user_id + ":"@ + factory.hs_localpart),
                    action: FactoryActionView::Members { room_id: recipient.room_id },
                },
            )
            &&& has_come_to(
                factory,
                factory.run(FactoryInputView::Store(StoreReplyView::Failed)),
                StageView::Ended,
                FactoryActionView::Fail(FactoryError::Store),
            )
        },
{
}

/// Once a user is registered, now or before, a room is made for the number: a private one that
/// the user is invited to, known by the number. A registration that went wrong in another way
/// ends the factory.
pub proof fn law_room_is_made_for_a_registered_user(
    factory: FactoryView,
    registration: RegistrationView,
)
    requires
        factory.stage is Registering,
    ensures
        ({
            let after = factory.run(FactoryInputView::Register(registration));
            let localpart = "_sms_"@ + normalized(factory.addr);
            if registration is Done || registration == (RegistrationView::Refused {
                errcode: "M_USER_IN_USE"@,
            }) {
                has_come_to(
                    factory,
                    after,
                    StageView::CreatingRoom,
                    FactoryActionView::CreateRoom(
                        RoomOptionsView {
                            preset: RoomPreset::TrustedPrivateChat,
                            visibility: RoomVisibility::Private,
                            is_direct: true,
                            invite: "@"@ + localpart + ":"@ + factory.hs_localpart,
                            room_alias_name: localpart,
                            name: shown_address(factory.addr) + " (SMS)"@,
                        },
                    ),
                )
            } else {
                has_come_to(
                    factory,
                    after,
                    StageView::Ended,
                    FactoryActionView::Fail(FactoryError::Register),
                )
            }
        }),
{
}

/// The user joins the room that was made, and is then stored as a recipient with the number and
/// the room; a failure of either ends the factory.
pub proof fn law_user_joins_the_room_and_is_stored(
    factory: FactoryView,
    room_id: Seq<char>,
    recipient: RecipientView,
)
    ensures
        factory.stage is CreatingRoom ==> {
            &&& factory.run(FactoryInputView::CreateRoom(Some(room_id))) == (
                FactoryView { stage: StageView::Joining { room_id }, ..factory },
                FactoryStepView {
                    act_as: Some(
                        "@"@ + ("_sms_"@ + normalized(factory.addr)) + ":"@ + factory.hs_localpart,
                    ),
                    action: FactoryActionView::JoinRoom { room_id },
                },
            )
            &&& has_come_to(
                factory,
                factory.run(FactoryInputView::CreateRoom(None)),
                StageView::Ended,
                FactoryActionView::Fail(FactoryError::CreateRoom),
            )
        },
        factory.stage == (StageView::Joining { room_id }) ==> {
            &&& has_come_to(
                factory,
                factory.run(FactoryInputView::JoinRoom(true)),
                StageView::Saving { room_id },
                FactoryActionView::Store(
                    StoreRequestView::CreateRecipient {
                        phone_number: normalized(factory.addr),
                        user_id: "_sms_"@ + normalized(factory.addr),
                        room_id,
                    },
                ),
            )
            &&& has_come_to(
                factory,
                factory.run(FactoryInputView::JoinRoom(false)),
                StageView::Ended,
                FactoryActionView::Fail(FactoryError::JoinRoom),
            )
        },
        factory.stage is Saving ==> {
            &&& factory.run(FactoryInputView::Store(StoreReplyView::Recipient(recipient))) == (
                FactoryView { stage: StageView::ListingMembers { recipient }, ..factory },
                FactoryStepView {
                    act_as: Some("@"@ + recipient.user_id + ":"@ + factory.hs_localpart),
                    action: FactoryActionView::Members { room_id: recipient.room_id },
                },
            )
            &&& has_come_to(
                factory,
                factory.run(FactoryInputView::Store(StoreReplyView::Failed)),
                StageView::Ended,
                FactoryActionView::Fail(FactoryError::Store),
            )
        },
{
}

/// Whoever is in the room, the one who runs the bridge is invited exactly where they are not among
/// them, and however that went their power level is read next; the factory gives up here only
/// where it could not be found out who is in the room.
pub proof fn law_admin_is_invited_unless_there(
    factory: FactoryView,
    recipient: RecipientView,
    members: Seq<Seq<char>>,
    done: bool,
)
    ensures
        ({
            let read = FactoryActionView::PowerLevel {
                room_id: recipient.room_id,
                user: factory.admin,
            };
            &&& factory.stage == (StageView::ListingMembers { recipient }) ==> {
                let after = factory.run(FactoryInputView::Members(Some(members)));
                &&& members.contains(factory.admin) ==> has_come_to(
                    factory,
                    after,
                    StageView::ReadingLevel { recipient },
                    read,
                )
                &&& !members.contains(factory.admin) ==> has_come_to(
                    factory,
                    after,
                    StageView::Inviting { recipient },
                    FactoryActionView::Invite { room_id: recipient.room_id, user: factory.admin },
                )
                &&& has_come_to(
                    factory,
                    factory.run(FactoryInputView::Members(None)),
                    StageView::Ended,
                    FactoryActionView::Fail(FactoryError::Members),
                )
            }
            &&& factory.stage == (StageView::Inviting { recipient }) ==> has_come_to(
                factory,
                factory.run(FactoryInputView::Invite(done)),
                StageView::ReadingLevel { recipient },
                read,
            )
        }),
{
}

/// A power level of less than 100 is raised to 100 in those of the room, where they can be
/// fetched; and however that goes, the recipient's messages are managed from then on.
pub proof fn law_admin_is_raised_to_a_hundred(
    factory: FactoryView,
    recipient: RecipientView,
    level: u32,
    done: bool,
)
    ensures
        ({
            let finish = FactoryActionView::Finish {
                recipient_id: recipient.id,
                room_id: recipient.room_id,
            };
            &&& factory.stage == (StageView::ReadingLevel { recipient }) ==> {
                let after = factory.run(FactoryInputView::PowerLevel(Some(level)));
                &&& level < 100 ==> has_come_to(
                    factory,
                    after,
                    StageView::ReadingLevels { recipient },
                    FactoryActionView::PowerLevels { room_id: recipient.room_id },
                )
                &&& level >= 100 ==> has_come_to(factory, after, StageView::Ended, finish)
                &&& has_come_to(
                    factory,
                    factory.run(FactoryInputView::PowerLevel(None)),
                    StageView::Ended,
                    FactoryActionView::Fail(FactoryError::PowerLevel),
                )
            }
            &&& factory.stage == (StageView::ReadingLevels { recipient }) ==> {
                &&& has_come_to(
                    factory,
                    factory.run(FactoryInputView::PowerLevels(true)),
                    StageView::SettingLevel { recipient },
                    FactoryActionView::SetPowerLevel {
                        room_id: recipient.room_id,
                        user: factory.admin,
                        level: 100,
                    },
                )
                &&& has_come_to(
                    factory,
                    factory.run(FactoryInputView::PowerLevels(false)),
                    StageView::Ended,
                    finish,
                )
            }
            &&& factory.stage == (StageView::SettingLevel { recipient }) ==> has_come_to(
                factory,
                factory.run(FactoryInputView::SetPowerLevel(done)),
                StageView::Ended,
                finish,
            )
        }),
{
}

/// Whether something that comes in tells of a failure that a factory cannot go on after.
pub open spec fn is_fatal(input: FactoryInputView) -> bool {
    match input {
        FactoryInputView::Store(reply) => reply is Failed,
        FactoryInputView::Register(registration) => registration is Failed || (
        registration matches RegistrationView::Refused { errcode } && errcode
            != "M_USER_IN_USE"@),
        FactoryInputView::CreateRoom(room) => room is None,
        FactoryInputView::JoinRoom(done) => !done,
        FactoryInputView::Members(members) => members is None,
        FactoryInputView::PowerLevel(level) => level is None,
        _ => false,
    }
}

/// A factory gives up exactly where something failed that it cannot do without: the database,
/// the registration, the room, joining it, its members, or the power level.
pub proof fn law_factory_gives_up_only_on_failure(factory: FactoryView, input: FactoryInputView)
    requires
        factory.accepts(input),
    ensures
        factory.run(input).1.action is Fail <==> is_fatal(input),
{
}

/// What a factory takes in: how the thing that it last asked for went.
pub proof fn law_factory_takes_in_outcomes(factory: FactoryView, input: FactoryInputView)
    ensures
        factory.accepts(input) <==> match factory.stage {
            StageView::New => input is Start,
            StageView::Finding => input matches FactoryInputView::Store(reply) && (reply is Failed
                || reply is Found),
            StageView::Registering => input is Register,
            StageView::CreatingRoom => input is CreateRoom,
            StageView::Joining { .. } => input is JoinRoom,
            StageView::Saving { .. } => input matches FactoryInputView::Store(reply) && (
            reply is Failed || reply is Recipient),
            StageView::ListingMembers { .. } => input is Members,
            StageView::Inviting { .. } => input is Invite,
            StageView::ReadingLevel { .. } => input is PowerLevel,
            StageView::ReadingLevels { .. } => input is PowerLevels,
            StageView::SettingLevel { .. } => input is SetPowerLevel,
            StageView::Ended => false,
        },
{
}

} // verus!
