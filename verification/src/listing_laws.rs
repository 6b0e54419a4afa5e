//! What holds of a listing of the modem's messages as a whole: no one who has a message is left
//! out.

use vstd::prelude::*;

use crate::bridge::{
    skip_to_unread, BridgeView, EffectView, InputView, IntMessageView, NextView, SmsMessageView,
    StepView, TaskView,
};
use crate::bridge_laws::{
    accepts_replies, after_replies, found_id, is_seen_to, lemma_orphans_are_seen_to,
    lemma_orphans_keep_wf, lemma_prod_sees_to, lemma_skip_shrinks, lemma_skip_to_unread,
    lemma_stopped_takes_nothing, readable_count, unread,
};
use crate::models::MessageView;
use crate::pdu::{deliver_sender, AddressView};
use crate::store::{StoreReplyView, StoreRequestView};
use crate::util::un_normalized;

verus! {

/// What is to be done, all in all, while these answers of the database come in.
pub open spec fn effects_during(bridge: BridgeView, replies: Seq<StoreReplyView>) -> Seq<EffectView>
    decreases replies.len(),
{
    if replies.len() == 0 {
        seq![]
    } else {
        let (next, step) = bridge.poll(InputView::Reply(replies[0]));
        step.effects + effects_during(next, replies.drop_first())
    }
}

/// What a step asks of the database, if anything.
pub open spec fn requests_of(step: StepView) -> Seq<StoreRequestView> {
    match step.next {
        NextView::Store(request) => seq![request],
        _ => seq![],
    }
}

/// What is asked of the database while these answers of it come in.
pub open spec fn requests_during(bridge: BridgeView, replies: Seq<StoreReplyView>) -> Seq<
    StoreRequestView,
>
    decreases replies.len(),
{
    if replies.len() == 0 {
        seq![]
    } else {
        let (next, step) = bridge.poll(InputView::Reply(replies[0]));
        requests_of(step) + requests_during(next, replies.drop_first())
    }
}

/// Whether the sender of a listed message is seen to, given the answers to the look for their
/// recipient and to the storing of the message.
pub open spec fn is_message_seen_to(
    last: BridgeView,
    effects: Seq<EffectView>,
    message: SmsMessageView,
    found: StoreReplyView,
    stored: StoreReplyView,
) -> bool {
    &&& found is Found
    &&& stored matches StoreReplyView::Message(row) && is_seen_to(
        last,
        effects,
        message.originating_address,
        if found_id(found) is Some {
            None
        } else {
            Some(row.id)
        },
    )
}

/// Whether the phone number of a recipient who was fetched is seen to.
pub open spec fn is_recipient_seen_to(
    last: BridgeView,
    effects: Seq<EffectView>,
    fetched: StoreReplyView,
) -> bool {
    fetched matches StoreReplyView::Recipient(recipient) && un_normalized(recipient.phone_number)
        matches Some(addr) && is_seen_to(last, effects, addr, None)
}

/// Whether a message that no recipient has is seen to: its sender is, or it is deleted where it
/// cannot be read.
pub open spec fn is_orphan_seen_to(
    last: BridgeView,
    effects: Seq<EffectView>,
    requests: Seq<StoreRequestView>,
    row: MessageView,
) -> bool {
    match deliver_sender(row.pdu) {
        Some(sender) => is_seen_to(last, effects, sender, Some(row.id)),
        None => requests.contains(StoreRequestView::DeleteMessage { id: row.id }),
    }
}

/// Whether one state of the bridge comes after another in a listing: the handles are the same,
/// and no address for which a recipient is being made, and no message that waits for one, is gone.
spec fn grows(before: BridgeView, after: BridgeView) -> bool {
    &&& before.recipients == after.recipients
    &&& forall|addr: AddressView| #[trigger]
        before.inflight.contains_key(addr) ==> after.inflight.contains_key(addr)
    &&& forall|addr: AddressView, id: i32|
        before.inflight.contains_key(addr) && #[trigger] before.inflight[addr].contains(id)
            ==> after.inflight[addr].contains(id)
}

proof fn lemma_grows_on(a: BridgeView, b: BridgeView, c: BridgeView)
    requires
        grows(a, b),
        grows(b, c),
    ensures
        grows(a, c),
{
    assert forall|addr: AddressView, id: i32|
        a.inflight.contains_key(addr) && #[trigger] a.inflight[addr].contains(
            id,
        ) implies c.inflight[addr].contains(id) by {
        assert(b.inflight[addr].contains(id));
    }
}

proof fn lemma_prod_grows(bridge: BridgeView, addr: AddressView, mid: Option<i32>)
    ensures
        grows(bridge, bridge.prod(addr, mid).0),
        bridge.prod(addr, mid).0.task == bridge.task,
{
    let next = bridge.prod(addr, mid).0;
    assert forall|a: AddressView, id: i32|
        bridge.inflight.contains_key(a) && #[trigger] bridge.inflight[a].contains(
            id,
        ) implies next.inflight[a].contains(id) by {
        let waiting = bridge.inflight[a];
        let i = choose|i: int| 0 <= i < waiting.len() && waiting[i] == id;
        assert(next.inflight[a][i] == id);
    }
}

proof fn lemma_orphans_grow(bridge: BridgeView, rest: Seq<MessageView>)
    ensures
        grows(bridge, bridge.orphans_next(rest).0),
        bridge.orphans_next(rest).0.task is Idle || bridge.orphans_next(rest).0.task is DropOrphan,
    decreases rest.len(),
{
    if rest.len() > 0 {
        match deliver_sender(rest[0].pdu) {
            Some(sender) => {
                let prodded = bridge.prod(sender, Some(rest[0].id)).0;
                lemma_prod_grows(bridge, sender, Some(rest[0].id));
                lemma_orphans_grow(prodded, rest.drop_first());
                lemma_grows_on(bridge, prodded, bridge.orphans_next(rest).0);
            },
            None => {},
        }
    }
}

/// Whether the bridge is in the middle of a listing, or has come to the end of one.
spec fn in_listing(task: TaskView) -> bool {
    ||| task is FindSender
    ||| task is SaveMessage
    ||| task is ListPending
    ||| task is FindPending
    ||| task is ListOrphans
    ||| task is DropOrphan
    ||| task is Idle
    ||| task is Exited
}

proof fn lemma_step_grows(bridge: BridgeView, reply: StoreReplyView)
    requires
        in_listing(bridge.task),
        bridge.accepts(InputView::Reply(reply)),
    ensures
        grows(bridge, bridge.poll(InputView::Reply(reply)).0),
        in_listing(bridge.poll(InputView::Reply(reply)).0.task),
{
    let next = bridge.poll(InputView::Reply(reply)).0;
    match (bridge.task, reply) {
        (_, StoreReplyView::Failed) => {},
        (TaskView::SaveMessage { rest, recipient_id }, StoreReplyView::Message(row)) => {
            let mid = if recipient_id is Some {
                None
            } else {
                Some(row.id)
            };
            lemma_prod_grows(bridge, rest[0].originating_address, mid);
            lemma_grows_on(bridge, bridge.prod(rest[0].originating_address, mid).0, next);
        },
        (TaskView::FindPending { ids }, StoreReplyView::Recipient(recipient)) => {
            match un_normalized(recipient.phone_number) {
                Some(addr) => {
                    lemma_prod_grows(bridge, addr, None);
                    lemma_grows_on(bridge, bridge.prod(addr, None).0, next);
                },
                None => {},
            }
        },
        (TaskView::ListOrphans, StoreReplyView::Messages(rows)) => {
            lemma_orphans_grow(bridge, rows);
        },
        (TaskView::DropOrphan { rows, .. }, StoreReplyView::Done) => {
            lemma_orphans_grow(bridge, rows);
        },
        _ => {},
    }
}

/// Whoever is seen to stays so as the bridge goes on, and with more that is done after it.
proof fn lemma_seen_to_grows(
    bridge: BridgeView,
    next: BridgeView,
    effects: Seq<EffectView>,
    more: Seq<EffectView>,
    sender: AddressView,
    waits: Option<i32>,
)
    requires
        is_seen_to(bridge, effects, sender, waits),
        grows(bridge, next),
    ensures
        is_seen_to(next, effects + more, sender, waits),
{
    if bridge.recipients.contains_key(sender) {
        let told = EffectView::ProcessNew(bridge.recipients[sender]);
        let i = choose|i: int| 0 <= i < effects.len() && effects[i] == told;
        assert((effects + more)[i] == told);
    }
}

/// Whoever is seen to stays so with more that is done before it.
proof fn lemma_seen_to_after(
    bridge: BridgeView,
    before: Seq<EffectView>,
    effects: Seq<EffectView>,
    sender: AddressView,
    waits: Option<i32>,
)
    requires
        is_seen_to(bridge, effects, sender, waits),
    ensures
        is_seen_to(bridge, before + effects, sender, waits),
{
    if bridge.recipients.contains_key(sender) {
        let told = EffectView::ProcessNew(bridge.recipients[sender]);
        let i = choose|i: int| 0 <= i < effects.len() && effects[i] == told;
        assert((before + effects)[i + before.len()] == told);
    }
}

proof fn lemma_rest_grows(bridge: BridgeView, replies: Seq<StoreReplyView>)
    requires
        in_listing(bridge.task),
        accepts_replies(bridge, replies),
    ensures
        grows(bridge, after_replies(bridge, replies)),
    decreases replies.len(),
{
    if replies.len() > 0 {
        let next = bridge.poll(InputView::Reply(replies[0])).0;
        lemma_step_grows(bridge, replies[0]);
        lemma_rest_grows(next, replies.drop_first());
        lemma_grows_on(bridge, next, after_replies(bridge, replies));
    }
}

/// Whoever is seen to in the middle of a listing is so at its end.
proof fn lemma_seen_to_lasts(
    bridge: BridgeView,
    effects: Seq<EffectView>,
    replies: Seq<StoreReplyView>,
    sender: AddressView,
    waits: Option<i32>,
)
    requires
        in_listing(bridge.task),
        accepts_replies(bridge, replies),
        is_seen_to(bridge, effects, sender, waits),
    ensures
        is_seen_to(
            after_replies(bridge, replies),
            effects + effects_during(bridge, replies),
            sender,
            waits,
        ),
{
    lemma_rest_grows(bridge, replies);
    lemma_seen_to_grows(
        bridge,
        after_replies(bridge, replies),
        effects,
        effects_during(bridge, replies),
        sender,
        waits,
    );
}

/// A listing that is to end has an answer to come, and it is no failure.
proof fn lemma_goes_on(bridge: BridgeView, replies: Seq<StoreReplyView>)
    requires
        accepts_replies(bridge, replies),
        !(bridge.task is Idle),
        after_replies(bridge, replies).task is Idle,
    ensures
        replies.len() > 0,
        bridge.accepts(InputView::Reply(replies[0])),
        !(replies[0] is Failed),
        accepts_replies(bridge.poll(InputView::Reply(replies[0])).0, replies.drop_first()),
        after_replies(bridge, replies) == after_replies(
            bridge.poll(InputView::Reply(replies[0])).0,
            replies.drop_first(),
        ),
        !(bridge.poll(InputView::Reply(replies[0])).0.task is Exited),
{
    let next = bridge.poll(InputView::Reply(replies[0])).0;
    if next.task is Exited {
        lemma_stopped_takes_nothing(next, replies.drop_first());
    }
}

proof fn lemma_orphans_run(bridge: BridgeView, rows: Seq<MessageView>, replies: Seq<StoreReplyView>)
    requires
        bridge.doing(TaskView::Idle).wf(),
        accepts_replies(bridge.orphans_next(rows).0, replies),
        after_replies(bridge.orphans_next(rows).0, replies).task is Idle,
    ensures
        ({
            let (next, step) = bridge.orphans_next(rows);
            let last = after_replies(next, replies);
            let effects = step.effects + effects_during(next, replies);
            let requests = requests_of(step) + requests_during(next, replies);
            forall|j: int|
                0 <= j < rows.len() ==> is_orphan_seen_to(
                    last,
                    effects,
                    requests,
                    #[trigger] rows[j],
                )
        }),
    decreases rows.len(),
{
    let (next, step) = bridge.orphans_next(rows);
    let last = after_replies(next, replies);
    let effects = step.effects + effects_during(next, replies);
    let requests = requests_of(step) + requests_during(next, replies);
    let n = readable_count(rows) as int;
    assert forall|a: AddressView|
        !(#[trigger] bridge.recipients.contains_key(a) && bridge.inflight.contains_key(a)) by {
        let idle = bridge.doing(TaskView::Idle);
        assert(!(idle.recipients.contains_key(a) && idle.inflight.contains_key(a)));
    }
    lemma_orphans_are_seen_to(bridge, rows);
    lemma_orphans_grow(bridge, rows);
    assert forall|j: int| 0 <= j < n implies is_orphan_seen_to(
        last,
        effects,
        requests,
        #[trigger] rows[j],
    ) by {
        let sender = deliver_sender(rows[j].pdu)->0;
        lemma_seen_to_lasts(next, step.effects, replies, sender, Some(rows[j].id));
    }
    if n < rows.len() {
        let left = rows.skip(n + 1);
        lemma_goes_on(next, replies);
        lemma_orphans_keep_wf(bridge, rows);
        let (next2, step2) = next.poll(InputView::Reply(replies[0]));
        let rest = replies.drop_first();
        assert((next2, step2) == next.orphans_next(left));
        assert(next.doing(TaskView::Idle).wf()) by {
            let idle = next.doing(TaskView::Idle);
            assert forall|a: AddressView|
                !(#[trigger] idle.recipients.contains_key(a) && idle.inflight.contains_key(a)) by {
                assert(!(next.recipients.contains_key(a) && next.inflight.contains_key(a)));
            }
        }
        lemma_orphans_run(next, left, rest);
        let later = step2.effects + effects_during(next2, rest);
        let asked = requests_of(step2) + requests_during(next2, rest);
        assert(effects == step.effects + later);
        assert(requests == requests_of(step) + asked);
        assert(requests[0] == StoreRequestView::DeleteMessage { id: rows[n].id });
        assert forall|j: int| n <= j < rows.len() implies is_orphan_seen_to(
            last,
            effects,
            requests,
            #[trigger] rows[j],
        ) by {
            if j > n {
                assert(left[j - n - 1] == rows[j]);
                lemma_orphan_after(last, step.effects, later, requests_of(step), asked, rows[j]);
            }
        }
    }
}

/// A message that is seen to stays so with more that is done and asked before it.
proof fn lemma_orphan_after(
    last: BridgeView,
    before: Seq<EffectView>,
    effects: Seq<EffectView>,
    asked_before: Seq<StoreRequestView>,
    requests: Seq<StoreRequestView>,
    row: MessageView,
)
    requires
        is_orphan_seen_to(last, effects, requests, row),
    ensures
        is_orphan_seen_to(last, before + effects, asked_before + requests, row),
{
    match deliver_sender(row.pdu) {
        Some(sender) => lemma_seen_to_after(last, before, effects, sender, Some(row.id)),
        None => {
            let delete = StoreRequestView::DeleteMessage { id: row.id };
            let i = choose|i: int| 0 <= i < requests.len() && requests[i] == delete;
            assert((asked_before + requests)[i + asked_before.len()] == delete);
        },
    }
}

/// Whether all is well with the end of a listing, from the fetching of the recipients who have
/// messages on: each of them is fetched and seen to, and so is each message that no recipient has.
pub open spec fn end_is_seen_to(
    last: BridgeView,
    effects: Seq<EffectView>,
    requests: Seq<StoreRequestView>,
    ids: Seq<i32>,
    replies: Seq<StoreReplyView>,
) -> bool {
    &&& ids.len() < replies.len()
    &&& ids.len() < requests.len()
    &&& forall|i: int|
        0 <= i < ids.len() ==> #[trigger] requests[i] == StoreRequestView::GetRecipientById {
            id: ids[i],
        }
    &&& forall|i: int|
        0 <= i < ids.len() ==> is_recipient_seen_to(last, effects, #[trigger] replies[i])
    &&& requests[ids.len() as int] == StoreRequestView::GetOrphanedMessages
    &&& replies[ids.len() as int] matches StoreReplyView::Messages(rows) && forall|j: int|
        0 <= j < rows.len() ==> is_orphan_seen_to(last, effects, requests, #[trigger] rows[j])
}

proof fn lemma_pending_run(bridge: BridgeView, ids: Seq<i32>, replies: Seq<StoreReplyView>)
    requires
        bridge.doing(TaskView::Idle).wf(),
        accepts_replies(bridge.pending_next(ids).0, replies),
        after_replies(bridge.pending_next(ids).0, replies).task is Idle,
    ensures
        ({
            let (next, step) = bridge.pending_next(ids);
            end_is_seen_to(
                after_replies(next, replies),
                effects_during(next, replies),
                requests_of(step) + requests_during(next, replies),
                ids,
                replies,
            )
        }),
    decreases ids.len(),
{
    let (next, step) = bridge.pending_next(ids);
    let last = after_replies(next, replies);
    let effects = effects_during(next, replies);
    let requests = requests_of(step) + requests_during(next, replies);
    lemma_goes_on(next, replies);
    let (next2, step2) = next.poll(InputView::Reply(replies[0]));
    let rest = replies.drop_first();
    let asked = requests_of(step2) + requests_during(next2, rest);
    assert(requests == requests_of(step) + asked);
    assert(effects == step2.effects + effects_during(next2, rest));
    if ids.len() == 0 {
        let rows = replies[0]->Messages_0;
        assert((next2, step2) == next.orphans_next(rows));
        assert(next.doing(TaskView::Idle) =~= bridge.doing(TaskView::Idle));
        lemma_orphans_run(next, rows, rest);
        assert forall|j: int| 0 <= j < rows.len() implies is_orphan_seen_to(
            last,
            effects,
            requests,
            #[trigger] rows[j],
        ) by {
            assert(is_orphan_seen_to(last, effects, asked, rows[j]));
            lemma_orphan_after(last, seq![], effects, requests_of(step), asked, rows[j]);
            assert(Seq::<EffectView>::empty() + effects =~= effects);
        }
    } else {
        let recipient = replies[0]->Recipient_0;
        let addr = un_normalized(recipient.phone_number)->0;
        let (prodded, told) = next.prod(addr, None);
        let left = ids.drop_first();
        assert(next2 == prodded.pending_next(left).0);
        assert(step2.effects =~= told);
        assert(requests_of(step2) == requests_of(prodded.pending_next(left).1));
        lemma_prod_stays_disjoint(bridge, next, addr);
        lemma_pending_run(prodded, left, rest);
        lemma_prod_sees_to(next, addr, None);
        assert(is_seen_to(next2, told, addr, None));
        lemma_seen_to_lasts(next2, told, rest, addr, None);
        let later = effects_during(next2, rest);
        assert(effects == told + later);
        assert forall|i: int| 0 <= i < ids.len() implies is_recipient_seen_to(
            last,
            effects,
            #[trigger] replies[i],
        ) by {
            if i > 0 {
                assert(rest[i - 1] == replies[i]);
                assert(is_recipient_seen_to(last, later, rest[i - 1]));
                let other = un_normalized(replies[i]->Recipient_0.phone_number)->0;
                lemma_seen_to_after(last, told, later, other, None);
            }
        }
        assert forall|i: int| 0 <= i < ids.len() implies #[trigger] requests[i] == (
        StoreRequestView::GetRecipientById { id: ids[i] }) by {
            if i > 0 {
                assert(requests[i] == asked[i - 1]);
                assert(left[i - 1] == ids[i]);
            }
        }
        assert(requests[ids.len() as int] == asked[left.len() as int]);
        assert(replies[ids.len() as int] == rest[left.len() as int]);
        let rows = rest[left.len() as int]->Messages_0;
        assert forall|j: int| 0 <= j < rows.len() implies is_orphan_seen_to(
            last,
            effects,
            requests,
            #[trigger] rows[j],
        ) by {
            lemma_orphan_after(last, told, later, requests_of(step), asked, rows[j]);
        }
    }
}

proof fn lemma_prod_stays_disjoint(bridge: BridgeView, next: BridgeView, addr: AddressView)
    requires
        bridge.doing(TaskView::Idle).wf(),
        next.recipients == bridge.recipients,
        next.inflight == bridge.inflight,
    ensures
        !(next.recipients.contains_key(addr) && next.inflight.contains_key(addr)),
        forall|mid: Option<i32>|
            (#[trigger] next.prod(addr, mid)).0.doing(TaskView::Idle).wf(),
{
    let idle = bridge.doing(TaskView::Idle);
    assert(!(idle.recipients.contains_key(addr) && idle.inflight.contains_key(addr)));
    assert forall|mid: Option<i32>|
        (#[trigger] next.prod(addr, mid)).0.doing(TaskView::Idle).wf() by {
        let after = next.prod(addr, mid).0.doing(TaskView::Idle);
        assert forall|a: AddressView|
            !(#[trigger] after.recipients.contains_key(a) && after.inflight.contains_key(a)) by {
            assert(!(idle.recipients.contains_key(a) && idle.inflight.contains_key(a)));
        }
    }
}

/// Whether everyone who has a message is seen to in a listing: the senders of the unread messages
/// of which it tells, the recipients who have messages in the database, and the senders of the
/// messages there that no recipient has.
pub open spec fn all_are_seen_to(
    last: BridgeView,
    effects: Seq<EffectView>,
    requests: Seq<StoreRequestView>,
    messages: Seq<SmsMessageView>,
    replies: Seq<StoreReplyView>,
) -> bool {
    let n = 2 * messages.len();
    &&& n < replies.len()
    &&& n < requests.len()
    &&& forall|i: int|
        0 <= i < messages.len() ==> is_message_seen_to(
            last,
            effects,
            #[trigger] messages[i],
            replies[2 * i],
            replies[2 * i + 1],
        )
    &&& replies[n as int] matches StoreReplyView::RecipientIds(ids) && end_is_seen_to(
        last,
        effects,
        requests.skip(n as int),
        ids,
        replies.skip(n as int + 1),
    )
}

/// What is seen to at the end of a listing stays so with more that is done before it.
proof fn lemma_end_after(
    last: BridgeView,
    before: Seq<EffectView>,
    effects: Seq<EffectView>,
    requests: Seq<StoreRequestView>,
    ids: Seq<i32>,
    replies: Seq<StoreReplyView>,
)
    requires
        end_is_seen_to(last, effects, requests, ids, replies),
    ensures
        end_is_seen_to(last, before + effects, requests, ids, replies),
{
    let all = before + effects;
    assert forall|i: int| 0 <= i < ids.len() implies is_recipient_seen_to(
        last,
        all,
        #[trigger] replies[i],
    ) by {
        assert(is_recipient_seen_to(last, effects, replies[i]));
        let addr = un_normalized(replies[i]->Recipient_0.phone_number)->0;
        lemma_seen_to_after(last, before, effects, addr, None);
    }
    let rows = replies[ids.len() as int]->Messages_0;
    assert forall|j: int| 0 <= j < rows.len() implies is_orphan_seen_to(
        last,
        all,
        requests,
        #[trigger] rows[j],
    ) by {
        lemma_orphan_after(last, before, effects, seq![], requests, rows[j]);
        assert(Seq::<StoreRequestView>::empty() + requests =~= requests);
    }
}

proof fn lemma_listing_run(
    bridge: BridgeView,
    rest: Seq<SmsMessageView>,
    replies: Seq<StoreReplyView>,
)
    requires
        bridge.doing(TaskView::Idle).wf(),
        accepts_replies(bridge.list_next(rest).0, replies),
        after_replies(bridge.list_next(rest).0, replies).task is Idle,
    ensures
        ({
            let listing = bridge.list_next(rest).0;
            all_are_seen_to(
                after_replies(listing, replies),
                effects_during(listing, replies),
                requests_during(listing, replies),
                unread(rest),
                replies,
            )
        }),
    decreases rest.len(),
{
    lemma_skip_to_unread(rest);
    let listing = bridge.list_next(rest).0;
    let last = after_replies(listing, replies);
    let effects = effects_during(listing, replies);
    let requests = requests_during(listing, replies);
    let left = skip_to_unread(rest);
    lemma_goes_on(listing, replies);
    let (next, step) = listing.poll(InputView::Reply(replies[0]));
    let after0 = replies.drop_first();
    if left.len() == 0 {
        let ids = replies[0]->RecipientIds_0;
        assert((next, step) == listing.pending_next(ids));
        assert(listing.doing(TaskView::Idle) =~= bridge.doing(TaskView::Idle));
        lemma_pending_run(listing, ids, after0);
        assert(effects =~= effects_during(next, after0));
        assert(unread(rest).len() == 0);
        assert(requests.skip(0) =~= requests);
        assert(replies.skip(1) =~= after0);
    } else {
        lemma_skip_shrinks(rest);
        let message = left[0];
        let tail = left.drop_first();
        assert(unread(left) =~= seq![message] + unread(tail));
        lemma_goes_on(next, after0);
        assert(after0[0] == replies[1]);
        let (going, step1) = next.poll(InputView::Reply(after0[0]));
        let after1 = after0.drop_first();
        let row = replies[1]->Message_0;
        let mid = if found_id(replies[0]) is Some {
            None
        } else {
            Some(row.id)
        };
        let sender = message.originating_address;
        let (prodded, told) = next.prod(sender, mid);
        assert(going == prodded.list_next(tail).0);
        assert(step1.effects =~= told);
        lemma_prod_stays_disjoint(bridge, next, sender);
        lemma_listing_run(prodded, tail, after1);
        lemma_prod_sees_to(next, sender, mid);
        assert(is_seen_to(going, told, sender, mid));
        lemma_seen_to_lasts(going, told, after1, sender, mid);
        let later = effects_during(going, after1);
        let asked = requests_during(going, after1);
        assert(effects_during(next, after0) == told + later);
        assert(effects =~= told + later);
        assert(requests_during(next, after0) == requests_of(step1) + asked);
        assert(requests =~= requests_of(step) + requests_of(step1) + asked);
        assert(requests_of(step).len() == 1 && requests_of(step1).len() == 1);
        let messages = unread(rest);
        let n = 2 * unread(tail).len();
        assert(messages.len() == unread(tail).len() + 1);
        assert forall|i: int| 0 <= i < messages.len() implies is_message_seen_to(
            last,
            effects,
            #[trigger] messages[i],
            replies[2 * i],
            replies[2 * i + 1],
        ) by {
            if i > 0 {
                let k = i - 1;
                assert(messages[i] == unread(tail)[k]);
                assert(after1[2 * k] == replies[2 * i]);
                assert(after1[2 * k + 1] == replies[2 * i + 1]);
                assert(is_message_seen_to(
                    last,
                    later,
                    unread(tail)[k],
                    after1[2 * k],
                    after1[2 * k + 1],
                ));
                let waits = if found_id(replies[2 * i]) is Some {
                    None
                } else {
                    Some(replies[2 * i + 1]->Message_0.id)
                };
                lemma_seen_to_after(last, told, later, messages[i].originating_address, waits);
            } else {
                assert(messages[0] == message);
            }
        }
        let ids = after1[n as int]->RecipientIds_0;
        assert(replies[n as int + 2] == after1[n as int]);
        assert(requests.skip(n as int + 2) =~= asked.skip(n as int));
        assert(replies.skip(n as int + 3) =~= after1.skip(n as int + 1));
        lemma_end_after(last, told, later, asked.skip(n as int), ids, after1.skip(n as int + 1));
    }
}

/// In a listing that comes to its end no one who has a message is left out. The sender of each
/// unread message is seen to once it is stored; each recipient who has messages in the database
/// is fetched and seen to; and of the messages there that no recipient has, each one that can be
/// read has its sender seen to, with the message waiting for a recipient that is being made, and
/// each one that cannot be read is deleted.
pub proof fn law_listing_leaves_no_one_out(
    bridge: BridgeView,
    listed: Seq<SmsMessageView>,
    replies: Seq<StoreReplyView>,
)
    requires
        bridge.wf(),
        bridge.task is Idle,
        ({
            let listing = bridge.poll(InputView::Int(IntMessageView::CmglComplete(listed))).0;
            accepts_replies(listing, replies) && after_replies(listing, replies).task is Idle
        }),
    ensures
        ({
            let listing = bridge.poll(InputView::Int(IntMessageView::CmglComplete(listed))).0;
            all_are_seen_to(
                after_replies(listing, replies),
                effects_during(listing, replies),
                requests_during(listing, replies),
                unread(listed),
                replies,
            )
        }),
{
    assert(bridge.doing(TaskView::Idle) =~= bridge);
    lemma_listing_run(bridge, listed, replies);
}

} // verus!
