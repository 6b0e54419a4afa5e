//! What the bridge does about each thing that comes in, whatever it holds.

use vstd::arithmetic::power2::pow2;
use vstd::prelude::*;

use crate::bridge::{
    lemma_orphans_ignore_task, skip_to_unread, BridgeView, EffectView, ExitReason, InputView,
    IntMessageView, MessageStatus, NextView, SmsMessageView, StepView, TaskView, UserHandle,
};
use crate::bridge_laws::{lemma_skip_to_unread, unread};
use crate::events::{
    command_of, law_commands_are_told_apart, law_users_are_known_by_their_names, AdminCommandView,
    EventContentView, EventView, Membership, RoomEventDataView, RoomMessageView,
};
use crate::models::{MessageView, RecipientView};
use crate::pdu::{deliver_sender, parsed_address, AddressView};
use crate::store::{StoreReplyView, StoreRequestView};
use crate::text::{has_prefix, law_prefix_is_in_front};
use crate::util::{normalized, separable, un_normalized};

verus! {

/// Whether the bridge stays as it is, with this to be done, and takes in anything next.
pub open spec fn does(
    bridge: BridgeView,
    after: (BridgeView, StepView),
    effects: Seq<EffectView>,
) -> bool {
    after == (bridge, StepView { effects, next: NextView::Ready })
}

/// Whether the bridge does nothing but ask the database for something, in the middle of this.
pub open spec fn asks(
    bridge: BridgeView,
    after: (BridgeView, StepView),
    task: TaskView,
    request: StoreRequestView,
) -> bool {
    after == (
        BridgeView { task, ..bridge },
        StepView { effects: Seq::empty(), next: NextView::Store(request) },
    )
}

/// The bridge before anything has happened knows no one and has failed at nothing.
pub proof fn law_bridge_starts_with_nothing(
    admin: Seq<char>,
    hs_localpart: Seq<char>,
    addr: AddressView,
)
    ensures
        ({
            let bridge = BridgeView::initial(admin, hs_localpart);
            &&& !bridge.recipients.contains_key(addr)
            &&& !bridge.inflight.contains_key(addr)
            &&& bridge.admin == admin
            &&& bridge.hs_localpart == hs_localpart
            &&& bridge.register_failures == 0
            &&& bridge.task is Idle
        }),
{
}

/// Whatever the bridge holds, the modem's messages are listed on request, and when the modem
/// tells of a new one; nothing else that it tells, and no listing that failed, has any effect.
pub proof fn law_messages_are_listed_on_request(bridge: BridgeView, param: Option<Seq<char>>)
    requires
        bridge.task is Idle,
    ensures
        does(
            bridge,
            bridge.poll(InputView::Int(IntMessageView::CmglRequest)),
            seq![EffectView::ListSms],
        ),
        does(
            bridge,
            bridge.poll(InputView::Urc(param)),
            if param == Some("+CMTI"@) {
                seq![EffectView::ListSms]
            } else {
                Seq::empty()
            },
        ),
        does(bridge, bridge.poll(InputView::Int(IntMessageView::CmglFailed)), Seq::empty()),
{
}

/// Where no recipient could be made for an address, none is being made for it any more, and the
/// modem's messages are listed again after a wait of two to the power of all such failures so
/// far, in seconds: the request that comes then does list them.
pub proof fn law_failed_making_leads_to_another_listing(bridge: BridgeView, addr: AddressView)
    requires
        bridge.task is Idle,
    ensures
        ({
            let (next, step) = bridge.poll(InputView::Int(IntMessageView::RegisterFailed(addr)));
            let again = next.poll(InputView::Int(IntMessageView::CmglRequest));
            &&& next == BridgeView {
                inflight: bridge.inflight.remove(addr),
                register_failures: bridge.register_failures + 1,
                ..bridge
            }
            &&& step == StepView {
                effects: seq![
                    EffectView::RetryListing { secs: pow2(bridge.register_failures + 1) },
                ],
                next: NextView::Ready,
            }
            &&& does(next, again, seq![EffectView::ListSms])
        }),
{
}

/// A prod for an address makes a recipient for it, unless there is a handle, whose manager is told
/// instead, or one is being made. In the meantime a message that no recipient has waits, behind
/// those that do already. No other address is affected, nor anything else.
pub proof fn law_prod_reaches_the_address(
    bridge: BridgeView,
    addr: AddressView,
    mid: Option<i32>,
    other: AddressView,
)
    ensures
        ({
            let (next, effects) = bridge.prod(addr, mid);
            let making = bridge.inflight.contains_key(addr);
            let known = bridge.recipients.contains_key(addr);
            &&& next == BridgeView { inflight: next.inflight, ..bridge }
            &&& effects == (if making {
                Seq::empty()
            } else if known {
                seq![EffectView::ProcessNew(bridge.recipients[addr])]
            } else {
                seq![EffectView::StartRecipient(addr)]
            })
            &&& next.inflight.contains_key(addr) <==> making || !known
            &&& making || !known ==> next.inflight[addr] == (if making {
                bridge.inflight[addr]
            } else {
                Seq::empty()
            }) + (match mid {
                Some(id) => seq![id],
                None => Seq::empty(),
            })
            &&& other != addr ==> (next.inflight.contains_key(other)
                <==> bridge.inflight.contains_key(other))
            &&& other != addr && bridge.inflight.contains_key(other) ==> next.inflight[other]
                == bridge.inflight[other]
        }),
{
    let waiting = match mid {
        Some(id) => seq![id],
        None => Seq::empty(),
    };
    assert(Seq::<i32>::empty() + waiting =~= waiting);
}

/// A listing begins with the first unread message, whose sender's recipient is looked for; without
/// one, with the recipients who have messages in the database.
pub proof fn law_listing_begins_with_unread_messages(
    bridge: BridgeView,
    listed: Seq<SmsMessageView>,
)
    requires
        bridge.task is Idle,
    ensures
        ({
            let after = bridge.poll(InputView::Int(IntMessageView::CmglComplete(listed)));
            let task = after.0.task;
            &&& unread(listed).len() == 0 ==> asks(
                bridge,
                after,
                TaskView::ListPending,
                StoreRequestView::GetRecipientsWithMessages,
            )
            &&& unread(listed).len() > 0 ==> {
                &&& task is FindSender
                &&& task->FindSender_rest.len() > 0
                &&& task->FindSender_rest[0] == unread(listed)[0]
                &&& unread(task->FindSender_rest) == unread(listed)
                &&& asks(
                    bridge,
                    after,
                    task,
                    StoreRequestView::GetRecipientForAddress {
                        phone_number: normalized(unread(listed)[0].originating_address),
                    },
                )
            }
        }),
{
    lemma_skip_to_unread(listed);
    lemma_listing_skips_to_unread(listed);
}

proof fn lemma_listing_skips_to_unread(listed: Seq<SmsMessageView>)
    ensures
        ({
            let rest = skip_to_unread(listed);
            &&& rest.len() == 0 <==> unread(listed).len() == 0
            &&& rest.len() > 0 ==> rest[0] == unread(listed)[0]
        }),
    decreases listed.len(),
{
    if listed.len() > 0 {
        if listed[0].status == MessageStatus::ReceivedUnread {
            assert(unread(listed)[0] == listed[0]);
        } else {
            lemma_listing_skips_to_unread(listed.drop_first());
            assert(Seq::<SmsMessageView>::empty() + unread(listed.drop_first()) =~= unread(
                listed.drop_first(),
            ));
        }
    }
}

/// Once it is known whether the sender of an unread message has a recipient, the message is stored
/// as it was received, for that recipient if there is one.
pub proof fn law_unread_message_is_stored(
    bridge: BridgeView,
    rest: Seq<SmsMessageView>,
    recipient: Option<RecipientView>,
)
    requires
        bridge.task == (TaskView::FindSender { rest }),
    ensures
        ({
            let recipient_id = match recipient {
                Some(recipient) => Some(recipient.id),
                None => None,
            };
            asks(
                bridge,
                bridge.poll(InputView::Reply(StoreReplyView::Found(recipient))),
                TaskView::SaveMessage { rest, recipient_id },
                StoreRequestView::CreateMessage { recipient_id, pdu: rest[0].raw_pdu },
            )
        }),
{
}

/// Once an unread message is stored its sender is prodded, with the message where no recipient was
/// found, and the bridge goes on with those behind it as with messages that have just been
/// listed.
pub proof fn law_listing_goes_on_after_a_message(
    bridge: BridgeView,
    rest: Seq<SmsMessageView>,
    recipient_id: Option<i32>,
    row: MessageView,
)
    requires
        bridge.task == (TaskView::SaveMessage { rest, recipient_id }),
    ensures
        ({
            let (next, step) = bridge.poll(InputView::Reply(StoreReplyView::Message(row)));
            let idle = BridgeView { task: TaskView::Idle, ..bridge };
            let (prodded, effects) = idle.prod(
                rest[0].originating_address,
                if recipient_id is Some {
                    None
                } else {
                    Some(row.id)
                },
            );
            let (others, more) = prodded.poll(
                InputView::Int(IntMessageView::CmglComplete(rest.drop_first())),
            );
            &&& next == others
            &&& step == StepView { effects: effects + more.effects, next: more.next }
        }),
{
    let mid = if recipient_id is Some {
        None
    } else {
        Some(row.id)
    };
    let idle = BridgeView { task: TaskView::Idle, ..bridge };
    let addr = rest[0].originating_address;
    assert(idle.prod(addr, mid).0 =~= bridge.prod(addr, mid).0.doing(TaskView::Idle));
    lemma_skip_to_unread(rest.drop_first());
}

/// The recipients who have messages in the database are fetched one after another, and after the
/// last of them the messages that no recipient has are.
pub proof fn law_pending_recipients_are_fetched(bridge: BridgeView, ids: Seq<i32>)
    requires
        bridge.task is ListPending,
    ensures
        ({
            let after = bridge.poll(InputView::Reply(StoreReplyView::RecipientIds(ids)));
            &&& ids.len() == 0 ==> asks(
                bridge,
                after,
                TaskView::ListOrphans,
                StoreRequestView::GetOrphanedMessages,
            )
            &&& ids.len() > 0 ==> asks(
                bridge,
                after,
                TaskView::FindPending { ids },
                StoreRequestView::GetRecipientById { id: ids[0] },
            )
        }),
{
}

/// A recipient who has messages is prodded, and the bridge goes on with those behind them as with
/// recipients who have just been listed.
pub proof fn law_pending_recipient_is_prodded(
    bridge: BridgeView,
    ids: Seq<i32>,
    recipient: RecipientView,
    addr: AddressView,
)
    requires
        bridge.task == (TaskView::FindPending { ids }),
        un_normalized(recipient.phone_number) == Some(addr),
    ensures
        ({
            let (next, step) = bridge.poll(InputView::Reply(StoreReplyView::Recipient(recipient)));
            let listing = BridgeView { task: TaskView::ListPending, ..bridge };
            let (prodded, effects) = listing.prod(addr, None);
            let (others, more) = prodded.poll(
                InputView::Reply(StoreReplyView::RecipientIds(ids.drop_first())),
            );
            &&& next == others
            &&& step == StepView { effects: effects + more.effects, next: more.next }
        }),
{
    let listing = BridgeView { task: TaskView::ListPending, ..bridge };
    assert(listing.prod(addr, None).0 =~= bridge.prod(addr, None).0.doing(TaskView::ListPending));
}

/// What becomes of the messages that no recipient has, one by one. Of one that can be read the
/// sender is prodded with it, and the bridge goes on with those behind it; one that cannot be read
/// is deleted first. After the last of them the modem's messages are deleted, and the bridge waits
/// for nothing.
pub proof fn law_orphans_are_taken_one_by_one(
    bridge: BridgeView,
    row: MessageView,
    rest: Seq<MessageView>,
)
    requires
        bridge.task is ListOrphans,
    ensures
        bridge.poll(InputView::Reply(StoreReplyView::Messages(Seq::empty()))) == (
            BridgeView { task: TaskView::Idle, ..bridge },
            StepView { effects: seq![EffectView::DeleteSms], next: NextView::Ready },
        ),
        ({
            let after = bridge.poll(InputView::Reply(StoreReplyView::Messages(seq![row] + rest)));
            match deliver_sender(row.pdu) {
                None => asks(
                    bridge,
                    after,
                    TaskView::DropOrphan { id: row.id, rows: rest },
                    StoreRequestView::DeleteMessage { id: row.id },
                ),
                Some(sender) => {
                    let (prodded, effects) = bridge.prod(sender, Some(row.id));
                    let (others, more) = prodded.poll(
                        InputView::Reply(StoreReplyView::Messages(rest)),
                    );
                    &&& after.0 == others
                    &&& after.1 == StepView { effects: effects + more.effects, next: more.next }
                },
            }
        }),
{
    assert((seq![row] + rest).drop_first() =~= rest);
}

/// Once a message that cannot be read is deleted, the bridge goes on with those behind it as with
/// messages that have just been listed.
pub proof fn law_orphans_are_gone_on_with(bridge: BridgeView, id: i32, rest: Seq<MessageView>)
    ensures
        (BridgeView { task: TaskView::DropOrphan { id, rows: rest }, ..bridge }).poll(
            InputView::Reply(StoreReplyView::Done),
        ) == (BridgeView { task: TaskView::ListOrphans, ..bridge }).poll(
            InputView::Reply(StoreReplyView::Messages(rest)),
        ),
{
    lemma_orphans_ignore_task(
        bridge,
        TaskView::DropOrphan { id, rows: rest },
        rest,
    );
    lemma_orphans_ignore_task(bridge, TaskView::ListOrphans, rest);
}

/// When there is a manager for an address, its recipient is looked for, and is given the messages
/// that have been waiting; from then on the address has the handle, and the manager is told that
/// there may be messages.
pub proof fn law_handle_is_taken_for_its_address(
    bridge: BridgeView,
    addr: AddressView,
    handle: UserHandle,
    recipient: RecipientView,
)
    requires
        bridge.task is Idle,
        bridge.inflight.contains_key(addr),
    ensures
        ({
            let finding = bridge.poll(InputView::Int(IntMessageView::RegisterHandle(addr, handle)));
            let (parenting, parent) = finding.0.poll(
                InputView::Reply(StoreReplyView::Found(Some(recipient))),
            );
            let registered = BridgeView {
                recipients: bridge.recipients.insert(addr, handle),
                inflight: bridge.inflight.remove(addr),
                ..bridge
            };
            &&& asks(
                bridge,
                finding,
                TaskView::FindRegistered { addr, handle },
                StoreRequestView::GetRecipientForAddress { phone_number: normalized(addr) },
            )
            &&& asks(
                registered,
                (parenting, parent),
                TaskView::Parent {
                    addr,
                    recipient: recipient.id,
                    messages: bridge.inflight[addr],
                },
                StoreRequestView::SetRecipientForMessages {
                    recipient: recipient.id,
                    messages: bridge.inflight[addr],
                },
            )
            &&& does(
                registered,
                parenting.poll(InputView::Reply(StoreReplyView::Done)),
                seq![EffectView::ProcessNew(handle)],
            )
        }),
{
    let registered = BridgeView {
        recipients: bridge.recipients.insert(addr, handle),
        inflight: bridge.inflight.remove(addr),
        ..bridge
    };
    assert(registered.doing(TaskView::Idle) =~= registered);
}

/// What became of a message that was to be sent is told in the room that it came from: that it
/// was read, or to whom who sent it that it failed and why.
pub proof fn law_outcome_is_told_in_the_room(
    bridge: BridgeView,
    event: RoomEventDataView,
    room: Seq<char>,
    error: Seq<char>,
)
    requires
        bridge.task is Idle,
        event.room == Some(room),
    ensures
        does(
            bridge,
            bridge.poll(InputView::Int(IntMessageView::SendSucceeded(event))),
            seq![EffectView::ReadReceipt { room, event_id: event.event_id }],
        ),
        does(
            bridge,
            bridge.poll(InputView::Int(IntMessageView::SendFailed(event, error))),
            seq![EffectView::ReportFailure { room, sender: event.sender, error }],
        ),
{
}

/// Which events are of interest: those that happen in a room and that one of the bridge's own
/// users did not bring about.
pub open spec fn concerns(event: EventView, room: Seq<char>) -> bool {
    event.room_data matches Some(rd) && rd.room == Some(room) && !exists|rest: Seq<char>|
        rd.sender == #[trigger] ("@_sms"@ + rest)
}

/// An invitation of the bot to a room is taken up, whoever it comes from; no other change of
/// someone's membership has any effect, nor has an event of another kind.
pub proof fn law_invitation_of_the_bot_is_taken_up(
    bridge: BridgeView,
    event: EventView,
    room: Seq<char>,
)
    requires
        bridge.task is Idle,
        concerns(event, room),
        !(event.content is RoomMessage),
    ensures
        does(
            bridge,
            bridge.poll(InputView::Int(IntMessageView::MatrixEvent(event))),
            if event.content == EventContentView::RoomMember(Membership::Invite) && event.state_key
                == Some("@_sms_bot:"@ + bridge.hs_localpart) {
                seq![EffectView::JoinRoom { room }]
            } else {
                Seq::empty()
            },
        ),
{
    assert(bridge.doing(TaskView::Idle) =~= bridge);
    law_users_are_known_by_their_names(
        seq![],
        seq![],
        bridge.hs_localpart,
        event.room_data->0.sender,
    );
}

/// What one of the bridge's own users does, or what does not happen in a room, has no effect.
pub proof fn law_other_events_have_no_effect(bridge: BridgeView, event: EventView)
    requires
        bridge.task is Idle,
        forall|room: Seq<char>| !#[trigger] concerns(event, room),
    ensures
        does(
            bridge,
            bridge.poll(InputView::Int(IntMessageView::MatrixEvent(event))),
            Seq::empty(),
        ),
{
    assert(bridge.doing(TaskView::Idle) =~= bridge);
    if let Some(rd) = event.room_data {
        law_users_are_known_by_their_names(seq![], seq![], bridge.hs_localpart, rd.sender);
        if let Some(room) = rd.room {
            assert(!concerns(event, room));
        }
    }
}

/// Whatever is said in a recipient's room, in whatever way and by whomever but one of the bridge's
/// own users, is sent to that recipient as a text message: once, as it was said, and with nothing
/// else being done.
pub proof fn law_what_is_said_to_a_recipient_is_sent(
    bridge: BridgeView,
    event: EventView,
    room: Seq<char>,
    message: RoomMessageView,
    recipient: RecipientView,
)
    requires
        bridge.task is Idle,
        concerns(event, room),
        event.content == EventContentView::RoomMessage(message),
    ensures
        ({
            let data = event.room_data->0;
            let finding = bridge.poll(InputView::Int(IntMessageView::MatrixEvent(event)));
            &&& asks(
                bridge,
                finding,
                TaskView::FindRoom { event: data, room, message },
                StoreRequestView::GetRecipientForRoom { room_id: room },
            )
            &&& does(
                bridge,
                finding.0.poll(InputView::Reply(StoreReplyView::Found(Some(recipient)))),
                seq![EffectView::SendSms { recipient, message, event: data }],
            )
        }),
{
    assert(bridge.doing(TaskView::Idle) =~= bridge);
    law_users_are_known_by_their_names(
        seq![],
        seq![],
        bridge.hs_localpart,
        event.room_data->0.sender,
    );
    let finding = bridge.poll(InputView::Int(IntMessageView::MatrixEvent(event))).0;
    assert(finding.doing(TaskView::Idle) =~= bridge);
}

/// In a room that no recipient has, only a text of the one who runs the bridge that begins with
/// an exclamation mark has any effect: it is a command. One that starts a conversation prods the
/// number; the others are answered in the room, and so is one that is not known.
pub proof fn law_commands_are_obeyed(
    bridge: BridgeView,
    event: RoomEventDataView,
    room: Seq<char>,
    message: RoomMessageView,
    number: Seq<char>,
)
    requires
        bridge.task == (TaskView::FindRoom { event, room, message }),
    ensures
        ({
            let after = bridge.poll(InputView::Reply(StoreReplyView::Found(None)));
            let idle = BridgeView { task: TaskView::Idle, ..bridge };
            let body = message->Text_body;
            let is_command = message is Text && event.sender == bridge.admin && exists|
                rest: Seq<char>,
            | body == #[trigger] ("!"@ + rest);
            &&& !is_command ==> does(idle, after, Seq::empty())
            &&& is_command && body == "!sms "@ + number && !number.contains(' ') ==> after == (
                idle.prod(parsed_address(number), None).0,
                StepView {
                    effects: idle.prod(parsed_address(number), None).1,
                    next: NextView::Ready,
                },
            )
            &&& is_command && body == "!help"@ ==> does(
                idle,
                after,
                seq![
                    EffectView::Say {
                        room,
                        text:
                            "This is an instance of matrix-appservice-sms (https://github.com/eeeeeta/matrix-appservice-sms/).\nCurrently supported commands:\n- !sms <num>: start or resume an SMS conversation with a given phone number\n- !csq: check signal quality\n- !reg: get the modem's network registration status\n- !help: display this text"@,
                    },
                ],
            )
            &&& is_command && body == "!reg"@ ==> does(
                idle,
                after,
                seq![EffectView::TellRegistration { room }],
            )
            &&& is_command && body == "!csq"@ ==> does(
                idle,
                after,
                seq![EffectView::TellSignal { room }],
            )
            &&& is_command && body != "!help"@ && body != "!reg"@ && body != "!csq"@ && !(exists|
                any: Seq<char>,
            | body == #[trigger] ("!sms "@ + any) && !any.contains(' ')) ==> does(
                idle,
                after,
                seq![
                    EffectView::Say {
                        room,
                        text: "Unrecognized command. Try !help for more information."@,
                    },
                ],
            )
        }),
{
    let body = message->Text_body;
    law_prefix_is_in_front(body, "!"@);
    law_commands_are_told_apart(body, parsed_address(number));
    let word = "!sms "@;
    reveal_strlit("!sms ");
    law_prefix_is_in_front(body, word);
    if has_prefix(body, word) {
        assert(body == word + body.skip(5));
    }
    assert(body == word + number ==> body.skip(5) =~= number);
}

/// Where the database fails, or where the number of a recipient who has messages is none, the
/// bridge stops, with nothing more being done; all that it held is as before.
pub proof fn law_bridge_stops_at_once(
    bridge: BridgeView,
    ids: Seq<i32>,
    recipient: RecipientView,
)
    ensures
        bridge.poll(InputView::Reply(StoreReplyView::Failed)) == (
            BridgeView { task: TaskView::Exited, ..bridge },
            StepView { effects: Seq::empty(), next: NextView::Exit(ExitReason::Store) },
        ),
        bridge.task == (TaskView::FindPending { ids }) && un_normalized(recipient.phone_number)
            is None ==> bridge.poll(InputView::Reply(StoreReplyView::Recipient(recipient))) == (
            BridgeView { task: TaskView::Exited, ..bridge },
            StepView { effects: Seq::empty(), next: NextView::Exit(ExitReason::InvalidAddress) },
        ),
{
}

/// What the bridge takes in. While it waits for nothing that is anything that comes from the
/// modem or is sent to it, but for the outcome of a sending in no room and for one failure more
/// than there is a wait for; and else it is the answer to what it has asked, where a number can be
/// taken apart, and an address that has got a handle has a recipient and is one that was being
/// made.
pub proof fn law_bridge_takes_in_answers(
    bridge: BridgeView,
    param: Option<Seq<char>>,
    message: IntMessageView,
    reply: StoreReplyView,
)
    ensures
        bridge.accepts(InputView::Urc(param)) <==> bridge.task is Idle,
        bridge.accepts(InputView::Int(message)) <==> bridge.task is Idle && match message {
            IntMessageView::RegisterFailed(_) => bridge.register_failures < 63,
            IntMessageView::SendSucceeded(event) => event.room is Some,
            IntMessageView::SendFailed(event, _) => event.room is Some,
            _ => true,
        },
        bridge.accepts(InputView::Reply(reply)) <==> match bridge.task {
            TaskView::Idle => false,
            TaskView::Exited => false,
            TaskView::FindSender { .. } => reply is Failed || reply is Found,
            TaskView::SaveMessage { .. } => reply is Failed || reply is Message,
            TaskView::ListPending => reply is Failed || reply is RecipientIds,
            TaskView::FindPending { .. } => reply is Failed || (
            reply matches StoreReplyView::Recipient(recipient) && separable(
                recipient.phone_number,
            )),
            TaskView::ListOrphans => reply is Failed || reply is Messages,
            TaskView::DropOrphan { .. } => reply is Failed || reply is Done,
            TaskView::FindRegistered { addr, .. } => reply is Failed || (
            reply matches StoreReplyView::Found(recipient) && recipient is Some
                && bridge.inflight.contains_key(addr)),
            TaskView::Parent { .. } => reply is Failed || reply is Done,
            TaskView::FindRoom { .. } => reply is Failed || reply is Found,
        },
{
}

/// What is done about each command, in any room and whatever the bridge is in the middle of.
pub proof fn law_each_command_is_done(
    bridge: BridgeView,
    room: Seq<char>,
    text: Seq<char>,
    number: Seq<char>,
)
    ensures
        !number.contains(' ') ==> bridge.admin_command(room, "!sms "@ + number) == bridge.prod(
            parsed_address(number),
            None,
        ),
        bridge.admin_command(room, "!reg"@) == (bridge, seq![EffectView::TellRegistration { room }]),
        bridge.admin_command(room, "!csq"@) == (bridge, seq![EffectView::TellSignal { room }]),
        ({
            let (next, effects) = bridge.admin_command(room, "!help"@);
            &&& next == bridge
            &&& effects.len() == 1
            &&& effects[0] matches EffectView::Say { room: place, .. } && place == room
        }),
        text != "!help"@ && text != "!reg"@ && text != "!csq"@ && !(exists|any: Seq<char>|
            text == #[trigger] ("!sms "@ + any) && !any.contains(' ')) ==> bridge.admin_command(
            room,
            text,
        ) == (
            bridge,
            seq![
                EffectView::Say {
                    room,
                    text: "Unrecognized command. Try !help for more information."@,
                },
            ],
        ),
{
    let addr = parsed_address(number);
    law_commands_are_told_apart("!sms "@ + number, addr);
    law_commands_are_told_apart("!reg"@, addr);
    law_commands_are_told_apart("!csq"@, addr);
    law_commands_are_told_apart("!help"@, addr);
    law_commands_are_told_apart(text, addr);
    if let AdminCommandView::NewConversation(other) = command_of(text) {
        law_commands_are_told_apart(text, other);
    }
}

/// A message that cannot be read is deleted, whatever the bridge was in the middle of, and those
/// behind it are left for later.
pub proof fn law_unreadable_orphan_is_deleted(
    bridge: BridgeView,
    id: i32,
    rows: Seq<MessageView>,
)
    ensures
        asks(
            bridge,
            bridge.waiting(TaskView::DropOrphan { id, rows }),
            TaskView::DropOrphan { id, rows },
            StoreRequestView::DeleteMessage { id },
        ),
{
}

} // verus!
