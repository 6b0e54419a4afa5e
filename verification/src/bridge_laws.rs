//! What holds of the bridge over several inputs, and of every state it can be in.

use vstd::arithmetic::power2::pow2;
use vstd::prelude::*;

use crate::backoff::{law_wait_doubles, MAX_FAILURES};
use crate::bridge::{
    skip_to_unread, BridgeView, EffectView, InputView, IntMessageView, MessageStatus, NextView,
    SmsMessageView, TaskView, UserHandle,
};
use crate::events::{
    command_of, is_own_user, AdminCommandView, EventView, RoomEventDataView, RoomMessageView,
};
use crate::models::{MessageView, RecipientView};
use crate::pdu::{deliver_sender, parsed_address, AddressView};
use crate::store::{changed_row, StoreReplyView, StoreRequestView};
use crate::text::has_char;
use crate::util::un_normalized;

verus! {

proof fn lemma_prod_keeps_disjoint(bridge: BridgeView, addr: AddressView, mid: Option<i32>)
    requires
        bridge.wf(),
    ensures
        bridge.prod(addr, mid).0.wf(),
{
    let next = bridge.prod(addr, mid).0;
    assert forall|a: AddressView|
        !(#[trigger] next.recipients.contains_key(a) && next.inflight.contains_key(a)) by {
        assert(next.recipients == bridge.recipients);
        assert(!(bridge.recipients.contains_key(a) && bridge.inflight.contains_key(a)));
    }
}

pub(crate) proof fn lemma_orphans_keep_wf(bridge: BridgeView, rest: Seq<MessageView>)
    requires
        bridge.doing(TaskView::Idle).wf(),
    ensures
        bridge.orphans_next(rest).0.wf(),
    decreases rest.len(),
{
    if rest.len() > 0 {
        match deliver_sender(rest[0].pdu) {
            Some(sender) => {
                let prodded = bridge.prod(sender, Some(rest[0].id)).0;
                lemma_prod_keeps_disjoint(bridge.doing(TaskView::Idle), sender, Some(rest[0].id));
                assert(prodded.doing(TaskView::Idle) =~= bridge.doing(TaskView::Idle).prod(
                    sender,
                    Some(rest[0].id),
                ).0);
                lemma_orphans_keep_wf(prodded, rest.drop_first());
            },
            None => {},
        }
    }
}

pub(crate) proof fn lemma_skip_to_unread(rest: Seq<SmsMessageView>)
    ensures
        skip_to_unread(rest).len() > 0 ==> skip_to_unread(rest)[0].status
            == MessageStatus::ReceivedUnread,
        unread(skip_to_unread(rest)) == unread(rest),
    decreases rest.len(),
{
    if rest.len() > 0 && rest[0].status != MessageStatus::ReceivedUnread {
        lemma_skip_to_unread(rest.drop_first());
        assert(Seq::<SmsMessageView>::empty() + unread(rest.drop_first()) =~= unread(
            rest.drop_first(),
        ));
    }
}

/// Whatever comes in, no address comes to have a handle while a recipient is being made for it.
pub proof fn law_state_stays_valid(bridge: BridgeView, input: InputView)
    requires
        bridge.wf(),
        bridge.accepts(input),
    ensures
        bridge.poll(input).0.wf(),
{
    match input {
        InputView::Urc(_) => {},
        InputView::Int(message) => match message {
            IntMessageView::CmglComplete(listed) => {
                lemma_skip_to_unread(listed);
            },
            _ => {},
        },
        InputView::Reply(reply) => match (bridge.task, reply) {
            (_, StoreReplyView::Failed) => {},
            (TaskView::SaveMessage { rest, recipient_id }, StoreReplyView::Message(row)) => {
                lemma_skip_to_unread(rest.drop_first());
            },
            (TaskView::ListOrphans, StoreReplyView::Messages(rows)) => {
                lemma_orphans_keep_wf(bridge, rows);
            },
            (TaskView::DropOrphan { rows, .. }, StoreReplyView::Done) => {
                lemma_orphans_keep_wf(bridge, rows);
            },
            _ => {},
        },
    }
}

proof fn lemma_orphans_wait(bridge: BridgeView, rest: Seq<MessageView>)
    ensures
        ({
            let (next, step) = bridge.orphans_next(rest);
            match step.next {
                NextView::Ready => next.task is Idle,
                NextView::Store(request) => next.task.request() == Some(request),
                NextView::Exit(_) => false,
            }
        }),
    decreases rest.len(),
{
    if rest.len() > 0 {
        match deliver_sender(rest[0].pdu) {
            Some(sender) => {
                let prodded = bridge.prod(sender, Some(rest[0].id)).0;
                lemma_orphans_wait(prodded, rest.drop_first());
            },
            None => {},
        }
    }
}

/// What the bridge waits for is what it has asked for: after an operation on the database it
/// waits for its answer, and otherwise it takes in anything, unless it has stopped.
pub proof fn law_waits_for_what_it_asked(bridge: BridgeView, input: InputView)
    requires
        bridge.wf(),
        bridge.accepts(input),
    ensures
        ({
            let (next, step) = bridge.poll(input);
            match step.next {
                NextView::Ready => next.task is Idle,
                NextView::Store(request) => next.task.request() == Some(request),
                NextView::Exit(_) => next.task is Exited,
            }
        }),
{
    match input {
        InputView::Reply(reply) => match (bridge.task, reply) {
            (_, StoreReplyView::Failed) => {},
            (TaskView::ListOrphans, StoreReplyView::Messages(rows)) => {
                lemma_orphans_wait(bridge, rows);
            },
            (TaskView::DropOrphan { rows, .. }, StoreReplyView::Done) => {
                lemma_orphans_wait(bridge, rows);
            },
            _ => {},
        },
        _ => {},
    }
}

/// The unread messages of a listing, in order.
pub open spec fn unread(listed: Seq<SmsMessageView>) -> Seq<SmsMessageView>
    decreases listed.len(),
{
    if listed.len() == 0 {
        seq![]
    } else {
        let first = if listed[0].status == MessageStatus::ReceivedUnread {
            seq![listed[0]]
        } else {
            seq![]
        };
        first + unread(listed.drop_first())
    }
}

/// The messages that are stored while these answers of the database come in.
pub open spec fn stored_during(bridge: BridgeView, replies: Seq<StoreReplyView>) -> Seq<
    StoreRequestView,
>
    decreases replies.len(),
{
    if replies.len() == 0 {
        seq![]
    } else {
        let (next, step) = bridge.poll(InputView::Reply(replies[0]));
        let stored = match step.next {
            NextView::Store(request) => if request is CreateMessage {
                seq![request]
            } else {
                seq![]
            },
            _ => seq![],
        };
        stored + stored_during(next, replies.drop_first())
    }
}

/// The bridge after these answers of the database have come in.
pub open spec fn after_replies(bridge: BridgeView, replies: Seq<StoreReplyView>) -> BridgeView
    decreases replies.len(),
{
    if replies.len() == 0 {
        bridge
    } else {
        after_replies(bridge.poll(InputView::Reply(replies[0])).0, replies.drop_first())
    }
}

/// Whether the database answers each look for a sender, and each message to be stored, in turn.
pub open spec fn answers_listing(replies: Seq<StoreReplyView>) -> bool {
    forall|i: int|
        0 <= i < replies.len() ==> if i % 2 == 0 {
            #[trigger] replies[i] is Found
        } else {
            replies[i] is Message
        }
}

/// The identifier of a recipient who was looked for.
pub open spec fn found_id(reply: StoreReplyView) -> Option<i32> {
    match reply {
        StoreReplyView::Found(Some(recipient)) => Some(recipient.id),
        _ => None,
    }
}

/// The storing of each unread message of a listing, with the recipient that was found.
pub open spec fn storing_of(
    messages: Seq<SmsMessageView>,
    replies: Seq<StoreReplyView>,
) -> Seq<StoreRequestView> {
    Seq::new(
        messages.len(),
        |i: int|
            StoreRequestView::CreateMessage {
                recipient_id: found_id(replies[2 * i]),
                pdu: messages[i].raw_pdu,
            },
    )
}

proof fn lemma_listing(bridge: BridgeView, rest: Seq<SmsMessageView>, replies: Seq<StoreReplyView>)
    requires
        answers_listing(replies),
        replies.len() == 2 * unread(rest).len(),
    ensures
        ({
            let listing = bridge.list_next(rest).0;
            &&& stored_during(listing, replies) == storing_of(unread(rest), replies)
            &&& after_replies(listing, replies).task is ListPending
        }),
    decreases rest.len(),
{
    lemma_skip_to_unread(rest);
    let listing = bridge.list_next(rest).0;
    let left = skip_to_unread(rest);
    if left.len() == 0 {
        assert(unread(rest).len() == 0);
        assert(storing_of(unread(rest), replies) =~= Seq::<StoreRequestView>::empty());
    } else {
        lemma_skip_shrinks(rest);
        let tail = left.drop_first();
        assert(unread(left) =~= seq![left[0]] + unread(tail));
        assert(replies[0] is Found);
        assert(replies[1] is Message);
        let (saving, step0) = listing.poll(InputView::Reply(replies[0]));
        let after0 = replies.drop_first();
        assert(after0[0] == replies[1]);
        let (going, step1) = saving.poll(InputView::Reply(after0[0]));
        let after1 = after0.drop_first();
        let mid = if saving.task->SaveMessage_recipient_id is Some {
            None
        } else {
            Some(replies[1]->Message_0.id)
        };
        let prodded = saving.prod(left[0].originating_address, mid).0;
        assert(going == prodded.list_next(tail).0);
        assert(answers_listing(after1)) by {
            assert forall|i: int| 0 <= i < after1.len() implies if i % 2 == 0 {
                #[trigger] after1[i] is Found
            } else {
                after1[i] is Message
            } by {
                assert(after1[i] == replies[i + 2]);
            }
        }
        lemma_listing(prodded, tail, after1);
        let first = StoreRequestView::CreateMessage {
            recipient_id: found_id(replies[0]),
            pdu: left[0].raw_pdu,
        };
        assert(stored_during(saving, after0) =~= stored_during(going, after1));
        assert(stored_during(listing, replies) =~= seq![first] + stored_during(going, after1));
        assert(after_replies(saving, after0) == after_replies(going, after1));
        assert(after_replies(listing, replies) == after_replies(going, after1));
        let left_side = seq![first] + storing_of(unread(tail), after1);
        let right_side = storing_of(unread(rest), replies);
        assert forall|i: int| 0 <= i < right_side.len() implies left_side[i] == right_side[i] by {
            if i > 0 {
                assert(after1[2 * (i - 1)] == replies[2 * i]);
                assert(unread(rest)[i] == unread(tail)[i - 1]);
            }
        }
        assert(left_side =~= right_side);
    }
}

pub(crate) proof fn lemma_skip_shrinks(rest: Seq<SmsMessageView>)
    ensures
        skip_to_unread(rest).len() <= rest.len(),
    decreases rest.len(),
{
    if rest.len() > 0 && rest[0].status != MessageStatus::ReceivedUnread {
        lemma_skip_shrinks(rest.drop_first());
    }
}

/// After a listing every unread message is stored once, in order, as it was received, with the
/// recipient that was found for its sender, and no other message is.
pub proof fn law_every_unread_message_is_stored(
    bridge: BridgeView,
    listed: Seq<SmsMessageView>,
    replies: Seq<StoreReplyView>,
)
    requires
        bridge.task is Idle,
        answers_listing(replies),
        replies.len() == 2 * unread(listed).len(),
    ensures
        ({
            let listing = bridge.poll(InputView::Int(IntMessageView::CmglComplete(listed))).0;
            &&& stored_during(listing, replies) == storing_of(unread(listed), replies)
            &&& after_replies(listing, replies).task is ListPending
        }),
{
    lemma_listing(bridge, listed, replies);
}

/// The bridge after it has been prodded for an address with each of these messages.
pub open spec fn prodded_with(bridge: BridgeView, addr: AddressView, ids: Seq<i32>) -> BridgeView
    decreases ids.len(),
{
    if ids.len() == 0 {
        bridge
    } else {
        prodded_with(bridge, addr, ids.drop_last()).prod(addr, Some(ids.last())).0
    }
}

proof fn lemma_prodded_waits(bridge: BridgeView, addr: AddressView, ids: Seq<i32>)
    requires
        bridge.inflight.contains_key(addr),
    ensures
        ({
            let prodded = prodded_with(bridge, addr, ids);
            &&& prodded.inflight.contains_key(addr)
            &&& prodded.inflight[addr] == bridge.inflight[addr] + ids
            &&& prodded.task == bridge.task
            &&& prodded.recipients == bridge.recipients
        }),
    decreases ids.len(),
{
    if ids.len() == 0 {
        assert(bridge.inflight[addr] + ids =~= bridge.inflight[addr]);
    } else {
        lemma_prodded_waits(bridge, addr, ids.drop_last());
        assert((bridge.inflight[addr] + ids.drop_last()) + seq![ids.last()]
            =~= bridge.inflight[addr] + ids);
    }
}

/// Every message that came up while a recipient was being made for its sender is given to that
/// recipient once there is one, and then its manager is told.
pub proof fn law_waiting_messages_reach_recipient(
    bridge: BridgeView,
    addr: AddressView,
    ids: Seq<i32>,
    handle: UserHandle,
    recipient: RecipientView,
)
    requires
        bridge.wf(),
        bridge.task is Idle,
        bridge.inflight.contains_key(addr),
    ensures
        ({
            let prodded = prodded_with(bridge, addr, ids);
            let found = prodded.poll(InputView::Int(IntMessageView::RegisterHandle(addr, handle))).0;
            let (parenting, step) = found.poll(
                InputView::Reply(StoreReplyView::Found(Some(recipient))),
            );
            let (done, last) = parenting.poll(InputView::Reply(StoreReplyView::Done));
            let waiting = bridge.inflight[addr] + ids;
            let request = StoreRequestView::SetRecipientForMessages {
                recipient: recipient.id,
                messages: waiting,
            };
            &&& step.next == NextView::Store(request)
            &&& forall|row: MessageView|
                waiting.contains(row.id) ==> (#[trigger] changed_row(row, request)).recipient_id
                    == Some(recipient.id)
            &&& last.effects == seq![EffectView::ProcessNew(handle)]
            &&& done.recipients == bridge.recipients.insert(addr, handle)
            &&& !done.inflight.contains_key(addr)
        }),
{
    lemma_prodded_waits(bridge, addr, ids);
}

/// Whether an effect starts the making of a recipient.
pub open spec fn starts(effects: Seq<EffectView>, addr: AddressView, i: int) -> bool {
    0 <= i < effects.len() && effects[i] == EffectView::StartRecipient(addr)
}

/// What it takes for effects to start the making of recipients properly.
pub open spec fn starts_properly(
    before: BridgeView,
    effects: Seq<EffectView>,
    next: BridgeView,
) -> bool {
    &&& forall|addr: AddressView, i: int| #[trigger]
        starts(effects, addr, i) ==> !before.inflight.contains_key(addr)
            && !before.recipients.contains_key(addr) && next.inflight.contains_key(addr)
    &&& forall|addr: AddressView, i: int, j: int| #[trigger]
        starts(effects, addr, i) && #[trigger] starts(effects, addr, j) ==> i == j
    &&& forall|addr: AddressView| #[trigger]
        before.inflight.contains_key(addr) ==> next.inflight.contains_key(addr)
    &&& next.recipients == before.recipients
}

proof fn lemma_prod_starts_properly(bridge: BridgeView, addr: AddressView, mid: Option<i32>)
    ensures
        starts_properly(bridge, bridge.prod(addr, mid).1, bridge.prod(addr, mid).0),
{
}

proof fn lemma_orphans_start_properly(bridge: BridgeView, rest: Seq<MessageView>)
    ensures
        starts_properly(bridge, bridge.orphans_next(rest).1.effects, bridge.orphans_next(rest).0),
    decreases rest.len(),
{
    let (next, step) = bridge.orphans_next(rest);
    if rest.len() > 0 {
        match deliver_sender(rest[0].pdu) {
            Some(sender) => {
                let (prodded, effects) = bridge.prod(sender, Some(rest[0].id));
                let (last, more) = prodded.orphans_next(rest.drop_first());
                lemma_prod_starts_properly(bridge, sender, Some(rest[0].id));
                lemma_orphans_start_properly(prodded, rest.drop_first());
                assert(step.effects == effects + more.effects);
                let n = effects.len() as int;
                assert forall|addr: AddressView, i: int| #[trigger] starts(step.effects, addr, i)
                    implies !bridge.inflight.contains_key(addr)
                    && !bridge.recipients.contains_key(addr) && next.inflight.contains_key(addr) by {
                    if i < n {
                        assert(starts(effects, addr, i));
                    } else {
                        assert(starts(more.effects, addr, i - n));
                    }
                }
                assert forall|addr: AddressView, i: int, j: int| #[trigger]
                    starts(step.effects, addr, i) && #[trigger] starts(
                    step.effects,
                    addr,
                    j,
                ) implies i == j by {
                    if i < n {
                        assert(starts(effects, addr, i));
                    } else {
                        assert(starts(more.effects, addr, i - n));
                    }
                    if j < n {
                        assert(starts(effects, addr, j));
                    } else {
                        assert(starts(more.effects, addr, j - n));
                    }
                }
            },
            None => {},
        }
    }
}

/// The making of a recipient is started only for an address that has no handle and for which
/// none is being made, and never twice: from then on one is being made for it.
pub proof fn law_recipient_is_made_once(bridge: BridgeView, input: InputView)
    requires
        bridge.wf(),
        bridge.accepts(input),
    ensures
        ({
            let (next, step) = bridge.poll(input);
            &&& forall|addr: AddressView, i: int| #[trigger]
                starts(step.effects, addr, i) ==> !bridge.inflight.contains_key(addr)
                    && !bridge.recipients.contains_key(addr) && next.inflight.contains_key(addr)
            &&& forall|addr: AddressView, i: int, j: int| #[trigger]
                starts(step.effects, addr, i) && #[trigger] starts(step.effects, addr, j) ==> i
                    == j
        }),
{
    let (next, step) = bridge.poll(input);
    match input {
        InputView::Reply(reply) => match (bridge.task, reply) {
            (_, StoreReplyView::Failed) => {},
            (TaskView::SaveMessage { rest, recipient_id }, StoreReplyView::Message(row)) => {
                let mid = if recipient_id is Some {
                    None
                } else {
                    Some(row.id)
                };
                let effects = bridge.prod(rest[0].originating_address, mid).1;
                lemma_prod_starts_properly(bridge, rest[0].originating_address, mid);
                assert(step.effects =~= effects);
            },
            (TaskView::FindPending { ids }, StoreReplyView::Recipient(recipient)) => {
                match un_normalized(recipient.phone_number) {
                    Some(addr) => {
                        lemma_prod_starts_properly(bridge, addr, None);
                        assert(step.effects =~= bridge.prod(addr, None).1);
                    },
                    None => {},
                }
            },
            (TaskView::ListOrphans, StoreReplyView::Messages(rows)) => {
                lemma_orphans_start_properly(bridge, rows);
            },
            (TaskView::DropOrphan { rows, .. }, StoreReplyView::Done) => {
                lemma_orphans_start_properly(bridge, rows);
            },
            _ => {},
        },
        _ => {},
    }
}

/// What the bridge's own users do is not taken notice of.
pub proof fn law_own_users_are_ignored(bridge: BridgeView, event: EventView)
    requires
        bridge.task is Idle,
        event.room_data matches Some(rd) && is_own_user(rd.sender),
    ensures
        ({
            let (next, step) = bridge.poll(InputView::Int(IntMessageView::MatrixEvent(event)));
            next == bridge && step.effects == Seq::<EffectView>::empty() && step.next is Ready
        }),
{
    assert(bridge.doing(TaskView::Idle) =~= bridge);
}

/// In a room that no recipient has, a message from anyone but the one who runs the bridge comes
/// to nothing.
pub proof fn law_only_admin_commands(
    bridge: BridgeView,
    event: RoomEventDataView,
    room: Seq<char>,
    message: RoomMessageView,
)
    requires
        bridge.task == (TaskView::FindRoom { event, room, message }),
        event.sender != bridge.admin,
    ensures
        ({
            let (next, step) = bridge.poll(InputView::Reply(StoreReplyView::Found(None)));
            next == bridge.doing(TaskView::Idle) && step.effects == Seq::<EffectView>::empty()
                && step.next is Ready
        }),
{
}

/// Where no recipient could be made, the next prod starts anew, and each failure in a row
/// doubles the wait before the modem's messages are listed again.
pub proof fn law_failed_registration_is_retried(
    bridge: BridgeView,
    addr: AddressView,
    other: AddressView,
)
    requires
        bridge.wf(),
        bridge.task is Idle,
        bridge.inflight.contains_key(addr),
        bridge.register_failures + 2 < MAX_FAILURES,
    ensures
        ({
            let (next, step) = bridge.poll(InputView::Int(IntMessageView::RegisterFailed(addr)));
            let (_, again) = next.poll(InputView::Int(IntMessageView::RegisterFailed(other)));
            let secs = pow2(bridge.register_failures + 1);
            &&& step.effects == seq![EffectView::RetryListing { secs }]
            &&& again.effects == seq![EffectView::RetryListing { secs: 2 * secs }]
            &&& next.prod(addr, None).1 == seq![EffectView::StartRecipient(addr)]
        }),
{
    law_wait_doubles(bridge.register_failures + 1);
    assert(bridge.register_failures + 1 + 1 == bridge.register_failures + 2);
}

/// A text message is only ever sent for an event in a room, so what became of it can be told
/// there.
pub proof fn law_sent_messages_have_a_room(
    bridge: BridgeView,
    input: InputView,
    recipient: RecipientView,
    message: RoomMessageView,
    event: RoomEventDataView,
)
    requires
        bridge.wf(),
        bridge.accepts(input),
        bridge.poll(input).1.effects.contains(EffectView::SendSms { recipient, message, event }),
    ensures
        event.room is Some,
{
    let (next, step) = bridge.poll(input);
    let sent = EffectView::SendSms { recipient, message, event };
    let at = choose|i: int| 0 <= i < step.effects.len() && step.effects[i] == sent;
    match input {
        InputView::Reply(reply) => match (bridge.task, reply) {
            (_, StoreReplyView::Failed) => {},
            (TaskView::ListOrphans, StoreReplyView::Messages(rows)) => {
                lemma_orphans_send_nothing(bridge, rows, sent);
            },
            (TaskView::DropOrphan { rows, .. }, StoreReplyView::Done) => {
                lemma_orphans_send_nothing(bridge, rows, sent);
            },
            _ => {
                assert(step.effects[at] == sent);
            },
        },
        _ => {},
    }
}

proof fn lemma_orphans_send_nothing(
    bridge: BridgeView,
    rest: Seq<MessageView>,
    sent: EffectView,
)
    requires
        sent is SendSms,
    ensures
        !bridge.orphans_next(rest).1.effects.contains(sent),
    decreases rest.len(),
{
    if rest.len() > 0 {
        match deliver_sender(rest[0].pdu) {
            Some(sender) => {
                let (prodded, effects) = bridge.prod(sender, Some(rest[0].id));
                lemma_orphans_send_nothing(prodded, rest.drop_first(), sent);
                let more = prodded.orphans_next(rest.drop_first()).1.effects;
                assert forall|i: int| 0 <= i < (effects + more).len() implies (effects + more)[i]
                    != sent by {
                    if i >= effects.len() {
                        assert((effects + more)[i] == more[i - effects.len()]);
                    }
                }
            },
            None => {},
        }
    }
}

/// Whether the sender of a message is seen to: their manager is told that there may be new
/// messages, or a recipient is being made for them, and the message waits for it if need be.
pub open spec fn is_seen_to(
    next: BridgeView,
    effects: Seq<EffectView>,
    sender: AddressView,
    waits: Option<i32>,
) -> bool {
    if next.recipients.contains_key(sender) {
        effects.contains(EffectView::ProcessNew(next.recipients[sender]))
    } else {
        &&& next.inflight.contains_key(sender)
        &&& waits matches Some(id) ==> next.inflight[sender].contains(id)
    }
}

pub(crate) proof fn lemma_prod_sees_to(bridge: BridgeView, sender: AddressView, waits: Option<i32>)
    requires
        !(bridge.recipients.contains_key(sender) && bridge.inflight.contains_key(sender)),
    ensures
        ({
            let (next, effects) = bridge.prod(sender, waits);
            &&& is_seen_to(next, effects, sender, waits)
            &&& next.recipients == bridge.recipients
        }),
{
    let (next, effects) = bridge.prod(sender, waits);
    if bridge.inflight.contains_key(sender) {
        if let Some(id) = waits {
            let n = bridge.inflight[sender].len() as int;
            assert(next.inflight[sender][n] == id);
        }
    } else if bridge.recipients.contains_key(sender) {
        assert(effects[0] == EffectView::ProcessNew(next.recipients[sender]));
    } else {
        if let Some(id) = waits {
            assert(next.inflight[sender][0] == id);
        }
    }
}

/// Once a message is stored, its sender is seen to; the message itself waits where no recipient
/// was found for its sender.
pub proof fn law_stored_message_is_seen_to(
    bridge: BridgeView,
    rest: Seq<SmsMessageView>,
    recipient_id: Option<i32>,
    row: MessageView,
)
    requires
        bridge.wf(),
        bridge.task == (TaskView::SaveMessage { rest, recipient_id }),
    ensures
        ({
            let (next, step) = bridge.poll(InputView::Reply(StoreReplyView::Message(row)));
            is_seen_to(
                next,
                step.effects,
                rest[0].originating_address,
                if recipient_id is Some {
                    None
                } else {
                    Some(row.id)
                },
            )
        }),
{
    let waits = if recipient_id is Some {
        None
    } else {
        Some(row.id)
    };
    let sender = rest[0].originating_address;
    let (next, step) = bridge.poll(InputView::Reply(StoreReplyView::Message(row)));
    let (prodded, effects) = bridge.prod(sender, waits);
    lemma_prod_sees_to(bridge, sender, waits);
    assert(step.effects =~= effects);
    assert(next.inflight == prodded.inflight && next.recipients == prodded.recipients);
}

/// How many of these messages can be read before the first that cannot.
pub open spec fn readable_count(rows: Seq<MessageView>) -> nat
    decreases rows.len(),
{
    if rows.len() == 0 || deliver_sender(rows[0].pdu) is None {
        0
    } else {
        1 + readable_count(rows.drop_first())
    }
}

/// What a message that was seen to before more senders are prodded comes to.
proof fn lemma_stays_seen_to(
    bridge: BridgeView,
    effects: Seq<EffectView>,
    rest: Seq<MessageView>,
    sender: AddressView,
    id: i32,
)
    requires
        is_seen_to(bridge, effects, sender, Some(id)),
    ensures
        ({
            let (next, step) = bridge.orphans_next(rest);
            is_seen_to(next, effects + step.effects, sender, Some(id))
        }),
    decreases rest.len(),
{
    let (next, step) = bridge.orphans_next(rest);
    let told = EffectView::ProcessNew(bridge.recipients[sender]);
    if effects.contains(told) {
        let i = choose|i: int| 0 <= i < effects.len() && effects[i] == told;
        assert((effects + step.effects)[i] == told);
    }
    if rest.len() > 0 {
        match deliver_sender(rest[0].pdu) {
            Some(other) => {
                let (prodded, more) = bridge.prod(other, Some(rest[0].id));
                if bridge.inflight.contains_key(sender) {
                    let waiting = bridge.inflight[sender];
                    if waiting.contains(id) {
                        let i = choose|i: int| 0 <= i < waiting.len() && waiting[i] == id;
                        assert(prodded.inflight[sender][i] == id);
                    }
                }
                assert(is_seen_to(prodded, effects + more, sender, Some(id))) by {
                    if effects.contains(told) {
                        let i = choose|i: int| 0 <= i < effects.len() && effects[i] == told;
                        assert((effects + more)[i] == told);
                    }
                }
                lemma_stays_seen_to(prodded, effects + more, rest.drop_first(), sender, id);
                let last = prodded.orphans_next(rest.drop_first()).1.effects;
                assert((effects + more) + last =~= effects + step.effects);
            },
            None => {
                assert(effects + step.effects =~= effects);
            },
        }
    }
}

pub(crate) proof fn lemma_orphans_are_seen_to(bridge: BridgeView, rows: Seq<MessageView>)
    requires
        forall|a: AddressView|
            !(#[trigger] bridge.recipients.contains_key(a) && bridge.inflight.contains_key(a)),
    ensures
        ({
            let (next, step) = bridge.orphans_next(rows);
            let n = readable_count(rows) as int;
            &&& n <= rows.len()
            &&& forall|i: int|
                0 <= i < n ==> deliver_sender((#[trigger] rows[i]).pdu) is Some && is_seen_to(
                    next,
                    step.effects,
                    deliver_sender(rows[i].pdu)->0,
                    Some(rows[i].id),
                )
            &&& if n < rows.len() {
                &&& deliver_sender(rows[n].pdu) is None
                &&& step.next == NextView::Store(StoreRequestView::DeleteMessage { id: rows[n].id })
                &&& next.task == (TaskView::DropOrphan { id: rows[n].id, rows: rows.skip(n + 1) })
            } else {
                &&& step.next is Ready
                &&& step.effects.len() > 0 && step.effects.last() == EffectView::DeleteSms
            }
        }),
    decreases rows.len(),
{
    let (next, step) = bridge.orphans_next(rows);
    let n = readable_count(rows) as int;
    if rows.len() > 0 {
        let rest = rows.drop_first();
        match deliver_sender(rows[0].pdu) {
            Some(sender) => {
                let (prodded, effects) = bridge.prod(sender, Some(rows[0].id));
                lemma_prod_sees_to(bridge, sender, Some(rows[0].id));
                assert forall|a: AddressView|
                    !(#[trigger] prodded.recipients.contains_key(a)
                        && prodded.inflight.contains_key(a)) by {
                    assert(!(bridge.recipients.contains_key(a) && bridge.inflight.contains_key(a)));
                }
                lemma_stays_seen_to(prodded, effects, rest, sender, rows[0].id);
                lemma_orphans_are_seen_to(prodded, rest);
                let last = prodded.orphans_next(rest).1;
                assert forall|i: int| 0 <= i < n implies deliver_sender((#[trigger] rows[i]).pdu)
                    is Some && is_seen_to(
                    next,
                    step.effects,
                    deliver_sender(rows[i].pdu)->0,
                    Some(rows[i].id),
                ) by {
                    if i > 0 {
                        assert(rest[i - 1] == rows[i]);
                        let other = deliver_sender(rows[i].pdu)->0;
                        let told = EffectView::ProcessNew(next.recipients[other]);
                        if last.effects.contains(told) {
                            let j = choose|j: int|
                                0 <= j < last.effects.len() && last.effects[j] == told;
                            assert(step.effects[j + effects.len()] == told);
                        }
                    }
                }
                if n < rows.len() {
                    assert(rest[n - 1] == rows[n]);
                    assert(rest.skip(n) =~= rows.skip(n + 1));
                } else {
                    assert(step.effects.last() == last.effects.last());
                }
            },
            None => {
                assert(rest =~= rows.skip(1));
            },
        }
    }
}

/// The messages that no recipient has are not forgotten: of those that can be read each sender is
/// seen to, with the message waiting for a recipient that is being made, and the first one that
/// cannot be read is deleted before the bridge goes on with those behind it.
pub proof fn law_orphans_are_seen_to(bridge: BridgeView, rows: Seq<MessageView>)
    requires
        bridge.wf(),
        bridge.task is ListOrphans || (bridge.task matches TaskView::DropOrphan { rows: left, .. }
            && left == rows),
    ensures
        ({
            let reply = if bridge.task is ListOrphans {
                StoreReplyView::Messages(rows)
            } else {
                StoreReplyView::Done
            };
            let (next, step) = bridge.poll(InputView::Reply(reply));
            let n = readable_count(rows) as int;
            &&& n <= rows.len()
            &&& forall|i: int|
                0 <= i < n ==> deliver_sender((#[trigger] rows[i]).pdu) is Some && is_seen_to(
                    next,
                    step.effects,
                    deliver_sender(rows[i].pdu)->0,
                    Some(rows[i].id),
                )
            &&& if n < rows.len() {
                &&& deliver_sender(rows[n].pdu) is None
                &&& step.next == NextView::Store(StoreRequestView::DeleteMessage { id: rows[n].id })
                &&& next.task == (TaskView::DropOrphan { id: rows[n].id, rows: rows.skip(n + 1) })
            } else {
                &&& step.next is Ready
                &&& step.effects.last() == EffectView::DeleteSms
            }
        }),
{
    lemma_orphans_are_seen_to(bridge, rows);
}

/// The modem's messages are deleted only in a step that takes in an answer of the database on the
/// messages that no recipient has, and after which the bridge takes in anything.
pub proof fn law_modem_is_cleared_after_the_orphans(bridge: BridgeView, input: InputView)
    requires
        bridge.accepts(input),
        bridge.poll(input).1.effects.contains(EffectView::DeleteSms),
    ensures
        input matches InputView::Reply(reply) && !(reply is Failed),
        bridge.task is ListOrphans || bridge.task is DropOrphan,
        bridge.poll(input).1.next is Ready,
{
    let (next, step) = bridge.poll(input);
    let at = choose|i: int|
        0 <= i < step.effects.len() && step.effects[i] == EffectView::DeleteSms;
    match input {
        InputView::Reply(reply) => match (bridge.task, reply) {
            (_, StoreReplyView::Failed) => {},
            (TaskView::ListOrphans, StoreReplyView::Messages(rows)) => {
                lemma_cleared_last(bridge, rows);
            },
            (TaskView::DropOrphan { rows, .. }, StoreReplyView::Done) => {
                lemma_cleared_last(bridge, rows);
            },
            _ => {
                assert(step.effects[at] == EffectView::DeleteSms);
            },
        },
        _ => {},
    }
}

proof fn lemma_cleared_last(bridge: BridgeView, rest: Seq<MessageView>)
    ensures
        ({
            let (next, step) = bridge.orphans_next(rest);
            if step.effects.contains(EffectView::DeleteSms) {
                next.task is Idle && step.next is Ready
            } else {
                next.task is DropOrphan && !(step.next is Ready)
            }
        }),
    decreases rest.len(),
{
    let step = bridge.orphans_next(rest).1;
    if rest.len() == 0 {
        assert(step.effects[0] == EffectView::DeleteSms);
    } else {
        match deliver_sender(rest[0].pdu) {
            Some(sender) => {
                let (prodded, effects) = bridge.prod(sender, Some(rest[0].id));
                lemma_cleared_last(prodded, rest.drop_first());
                let more = prodded.orphans_next(rest.drop_first()).1.effects;
                if step.effects.contains(EffectView::DeleteSms) {
                    let i = choose|i: int|
                        0 <= i < step.effects.len() && step.effects[i] == EffectView::DeleteSms;
                    assert(i >= effects.len());
                    assert(more[i - effects.len()] == EffectView::DeleteSms);
                }
                if more.contains(EffectView::DeleteSms) {
                    let i = choose|i: int|
                        0 <= i < more.len() && more[i] == EffectView::DeleteSms;
                    assert(step.effects[i + effects.len()] == EffectView::DeleteSms);
                }
            },
            None => {},
        }
    }
}

/// Whether the bridge takes in these answers of the database, one after another.
pub open spec fn accepts_replies(bridge: BridgeView, replies: Seq<StoreReplyView>) -> bool
    decreases replies.len(),
{
    replies.len() == 0 || {
        let input = InputView::Reply(replies[0]);
        bridge.accepts(input) && accepts_replies(bridge.poll(input).0, replies.drop_first())
    }
}

/// In how many steps the modem's messages are deleted, while these answers of the database come
/// in.
pub open spec fn clearings_during(bridge: BridgeView, replies: Seq<StoreReplyView>) -> nat
    decreases replies.len(),
{
    if replies.len() == 0 {
        0
    } else {
        let (next, step) = bridge.poll(InputView::Reply(replies[0]));
        let here: nat = if step.effects.contains(EffectView::DeleteSms) {
            1
        } else {
            0
        };
        here + clearings_during(next, replies.drop_first())
    }
}

/// Whether a listing has got past its messages.
spec fn past_listing(task: TaskView) -> bool {
    task is ListPending || task is FindPending || task is ListOrphans || task is DropOrphan
}

pub(crate) proof fn lemma_stopped_takes_nothing(bridge: BridgeView, replies: Seq<StoreReplyView>)
    requires
        bridge.task is Idle || bridge.task is Exited,
        accepts_replies(bridge, replies),
    ensures
        replies.len() == 0,
        clearings_during(bridge, replies) == 0,
        stored_during(bridge, replies) == Seq::<StoreRequestView>::empty(),
        after_replies(bridge, replies) == bridge,
{
}

proof fn lemma_prod_clears_nothing(bridge: BridgeView, addr: AddressView, mid: Option<i32>)
    ensures
        !bridge.prod(addr, mid).1.contains(EffectView::DeleteSms),
{
}

proof fn lemma_past_listing(bridge: BridgeView, replies: Seq<StoreReplyView>)
    requires
        past_listing(bridge.task),
        accepts_replies(bridge, replies),
    ensures
        clearings_during(bridge, replies) == (if after_replies(bridge, replies).task is Idle {
            1nat
        } else {
            0
        }),
        stored_during(bridge, replies) == Seq::<StoreRequestView>::empty(),
        bridge.task is ListPending && after_replies(bridge, replies).task is Idle ==> replies.len()
            >= 2,
    decreases replies.len(), 1nat,
{
    if replies.len() > 0 {
        let reply = replies[0];
        let rest = replies.drop_first();
        let (next, step) = bridge.poll(InputView::Reply(reply));
        match (bridge.task, reply) {
            (_, StoreReplyView::Failed) => {
                lemma_stopped_takes_nothing(next, rest);
            },
            (TaskView::ListPending, StoreReplyView::RecipientIds(ids)) => {
                lemma_past_listing(next, rest);
            },
            (TaskView::FindPending { ids }, StoreReplyView::Recipient(recipient)) => {
                match un_normalized(recipient.phone_number) {
                    Some(addr) => {
                        lemma_prod_clears_nothing(bridge, addr, None);
                        assert(step.effects =~= bridge.prod(addr, None).1);
                        lemma_past_listing(next, rest);
                    },
                    None => {
                        lemma_stopped_takes_nothing(next, rest);
                    },
                }
            },
            (TaskView::ListOrphans, StoreReplyView::Messages(rows)) => {
                lemma_past_orphans(bridge, rows, replies);
            },
            (TaskView::DropOrphan { rows, .. }, StoreReplyView::Done) => {
                lemma_past_orphans(bridge, rows, replies);
            },
            _ => {},
        }
        assert(Seq::<StoreRequestView>::empty() + stored_during(next, rest)
            =~= Seq::<StoreRequestView>::empty());
    }
}

proof fn lemma_past_orphans(
    bridge: BridgeView,
    rows: Seq<MessageView>,
    replies: Seq<StoreReplyView>,
)
    requires
        replies.len() > 0,
        accepts_replies(bridge, replies),
        bridge.poll(InputView::Reply(replies[0])) == bridge.orphans_next(rows),
    ensures
        clearings_during(bridge, replies) == (if after_replies(bridge, replies).task is Idle {
            1nat
        } else {
            0
        }),
        stored_during(bridge, replies) == Seq::<StoreRequestView>::empty(),
        stored_during(bridge.orphans_next(rows).0, replies.drop_first())
            == Seq::<StoreRequestView>::empty(),
    decreases replies.len(), 0nat,
{
    let rest = replies.drop_first();
    let next = bridge.orphans_next(rows).0;
    lemma_cleared_last(bridge, rows);
    lemma_orphans_wait(bridge, rows);
    if next.task is Idle {
        lemma_stopped_takes_nothing(next, rest);
    } else {
        lemma_past_listing(next, rest);
    }
    assert(Seq::<StoreRequestView>::empty() + stored_during(next, rest)
        =~= Seq::<StoreRequestView>::empty());
}

proof fn lemma_listing_clears_last(
    bridge: BridgeView,
    rest: Seq<SmsMessageView>,
    replies: Seq<StoreReplyView>,
)
    requires
        accepts_replies(bridge.list_next(rest).0, replies),
    ensures
        ({
            let listing = bridge.list_next(rest).0;
            let last = after_replies(listing, replies);
            &&& clearings_during(listing, replies) == (if last.task is Idle {
                1nat
            } else {
                0
            })
            &&& last.task is Idle ==> {
                &&& replies.len() >= 2 * unread(rest).len() + 2
                &&& stored_during(listing, replies) == storing_of(unread(rest), replies)
            }
        }),
    decreases rest.len(),
{
    lemma_skip_to_unread(rest);
    let listing = bridge.list_next(rest).0;
    let left = skip_to_unread(rest);
    if left.len() == 0 {
        assert(unread(rest).len() == 0);
        lemma_past_listing(listing, replies);
        assert(storing_of(unread(rest), replies) =~= Seq::<StoreRequestView>::empty());
    } else if replies.len() > 0 {
        lemma_skip_shrinks(rest);
        let tail = left.drop_first();
        assert(unread(left) =~= seq![left[0]] + unread(tail));
        let (saving, step0) = listing.poll(InputView::Reply(replies[0]));
        let after0 = replies.drop_first();
        assert(accepts_replies(saving, after0));
        assert(step0.effects.len() == 0);
        assert(clearings_during(listing, replies) == clearings_during(saving, after0));
        assert(after_replies(listing, replies) == after_replies(saving, after0));
        if replies[0] is Failed {
            lemma_stopped_takes_nothing(saving, after0);
        } else if after0.len() > 0 {
            assert(after0[0] == replies[1]);
            let (going, step) = saving.poll(InputView::Reply(after0[0]));
            let after1 = after0.drop_first();
            assert(saving.accepts(InputView::Reply(after0[0])));
            assert(accepts_replies(going, after1));
            if after0[0] is Failed {
                lemma_stopped_takes_nothing(going, after1);
                assert(step.effects.len() == 0);
                assert(after_replies(saving, after0) == going);
                assert(clearings_during(saving, after0) == 0);
            } else {
                let mid = if saving.task->SaveMessage_recipient_id is Some {
                    None
                } else {
                    Some(replies[1]->Message_0.id)
                };
                let sender = left[0].originating_address;
                let prodded = saving.prod(sender, mid).0;
                lemma_prod_clears_nothing(saving, sender, mid);
                assert(step.effects =~= saving.prod(sender, mid).1);
                assert(going == prodded.list_next(tail).0);
                lemma_listing_clears_last(prodded, tail, after1);
                let first = StoreRequestView::CreateMessage {
                    recipient_id: found_id(replies[0]),
                    pdu: left[0].raw_pdu,
                };
                assert(stored_during(saving, after0) =~= stored_during(going, after1));
                assert(stored_during(listing, replies) =~= seq![first] + stored_during(
                    going,
                    after1,
                ));
                assert(after_replies(saving, after0) == after_replies(going, after1));
                assert(clearings_during(saving, after0) == clearings_during(going, after1));
                if after_replies(listing, replies).task is Idle {
                    let left_side = seq![first] + storing_of(unread(tail), after1);
                    let right_side = storing_of(unread(rest), replies);
                    assert forall|i: int| 0 <= i < right_side.len() implies left_side[i]
                        == right_side[i] by {
                        if i > 0 {
                            assert(after1[2 * (i - 1)] == replies[2 * i]);
                            assert(unread(rest)[i] == unread(tail)[i - 1]);
                        }
                    }
                    assert(left_side =~= right_side);
                }
            }
        }
    }
}

/// The modem's messages are deleted once for a listing, in the step that ends it, and by then
/// every unread message of the listing has been stored. Until as many answers have come in as it
/// takes to store them, or where the database fails or the bridge stops, they are not deleted.
pub proof fn law_modem_is_cleared_last(
    bridge: BridgeView,
    listed: Seq<SmsMessageView>,
    replies: Seq<StoreReplyView>,
)
    requires
        bridge.task is Idle,
        ({
            let listing = bridge.poll(InputView::Int(IntMessageView::CmglComplete(listed))).0;
            accepts_replies(listing, replies)
        }),
    ensures
        ({
            let (listing, step) = bridge.poll(InputView::Int(IntMessageView::CmglComplete(listed)));
            let last = after_replies(listing, replies);
            &&& !step.effects.contains(EffectView::DeleteSms)
            &&& replies.len() <= 2 * unread(listed).len() ==> clearings_during(listing, replies)
                == 0
            &&& !(last.task is Idle) ==> clearings_during(listing, replies) == 0
            &&& last.task is Idle ==> {
                &&& clearings_during(listing, replies) == 1
                &&& stored_during(listing, replies) == storing_of(unread(listed), replies)
            }
        }),
{
    lemma_listing_clears_last(bridge, listed, replies);
}

/// The one who runs the bridge starts or resumes a conversation by giving a phone number, in any
/// room that is not a recipient's: the number's manager is told, or a user and a room are made
/// for it unless that is under way.
pub proof fn law_conversation_starts_on_command(
    bridge: BridgeView,
    event: RoomEventDataView,
    room: Seq<char>,
    number: Seq<char>,
)
    requires
        bridge.wf(),
        bridge.task == (TaskView::FindRoom {
            event,
            room,
            message: RoomMessageView::Text { body: "!sms "@ + number },
        }),
        event.sender == bridge.admin,
        !has_char(number, ' '),
    ensures
        ({
            let (next, step) = bridge.poll(InputView::Reply(StoreReplyView::Found(None)));
            let addr = parsed_address(number);
            &&& step.next is Ready
            &&& is_seen_to(next, step.effects, addr, None)
            &&& !bridge.recipients.contains_key(addr) && !bridge.inflight.contains_key(addr)
                ==> step.effects == seq![EffectView::StartRecipient(addr)]
        }),
{
    let body = "!sms "@ + number;
    reveal_strlit("!sms ");
    reveal_strlit("!");
    assert(body.subrange(0, 5) =~= "!sms "@);
    assert(body.subrange(0, 1) =~= "!"@);
    assert(body.skip(5) =~= number);
    assert(command_of(body) == AdminCommandView::NewConversation(parsed_address(number)));
    lemma_prod_sees_to(bridge.doing(TaskView::Idle), parsed_address(number), None);
}

/// The bridge stops for two reasons only: the database failed, or the phone number in the
/// database of a recipient who has messages is not one. Nothing that the modem, the homeserver, a
/// factory or a manager sends stops it, nor does a failure of theirs.
pub proof fn law_bridge_stops_only_for_the_database(bridge: BridgeView, input: InputView)
    requires
        bridge.wf(),
        bridge.accepts(input),
    ensures
        bridge.poll(input).1.next is Exit <==> {
            ||| input == InputView::Reply(StoreReplyView::Failed)
            ||| bridge.task is FindPending && (input matches InputView::Reply(
                StoreReplyView::Recipient(recipient),
            ) && un_normalized(recipient.phone_number) is None)
        },
        bridge.poll(input).1.next is Exit ==> bridge.poll(input).1.effects.len() == 0,
{
    match input {
        InputView::Reply(reply) => match (bridge.task, reply) {
            (_, StoreReplyView::Failed) => {},
            (TaskView::ListOrphans, StoreReplyView::Messages(rows)) => {
                lemma_orphans_wait(bridge, rows);
            },
            (TaskView::DropOrphan { rows, .. }, StoreReplyView::Done) => {
                lemma_orphans_wait(bridge, rows);
            },
            _ => {},
        },
        _ => {},
    }
}

} // verus!
