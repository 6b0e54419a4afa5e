//! What holds of the one who manages a recipient's messages, over several inputs.

use vstd::arithmetic::power2::pow2;
use vstd::prelude::*;

use crate::backoff::MAX_FAILURES;
use crate::models::MessageView;
use crate::pdu::deliver_sender;
use crate::store::{changed_row, rows_after, StoreReplyView, StoreRequestView};
use crate::users::{
    UserEffectView, UserError, UserInputView, UserMessage, UserNextView, UserStepView, UserTaskView,
    UserView,
};

verus! {

/// What a manager has done and asked for, over several steps.
pub struct UserRun {
    pub user: UserView,
    pub next: UserNextView,
    pub effects: Seq<UserEffectView>,
    pub requests: Seq<StoreRequestView>,
}

/// The effect of a step, if there is one.
pub open spec fn effects_of(step: UserStepView) -> Seq<UserEffectView> {
    match step.effect {
        Some(effect) => seq![effect],
        None => seq![],
    }
}

/// What comes of a step when the database does the next so many things that it is asked to.
pub open spec fn run_of(user: UserView, step: UserStepView, successes: nat) -> UserRun
    decreases successes,
{
    match step.next {
        UserNextView::Store(request) if successes > 0 => {
            let (user2, step2) = user.future(UserInputView::Reply(StoreReplyView::Done));
            let run = run_of(user2, step2, (successes - 1) as nat);
            UserRun {
                effects: effects_of(step) + run.effects,
                requests: seq![request] + run.requests,
                ..run
            }
        },
        _ => UserRun { user, next: step.next, effects: effects_of(step), requests: seq![] },
    }
}

/// Whether a message awaits its first delivery: it is not being processed and has never failed.
pub open spec fn awaits_delivery(message: MessageView) -> bool {
    !message.processing && message.failures <= 0
}

/// Whether a message is new and can be read.
pub open spec fn is_deliverable(message: MessageView) -> bool {
    awaits_delivery(message) && deliver_sender(message.pdu) is Some
}

/// The delivery of a message.
pub open spec fn delivery(message: MessageView) -> UserEffectView {
    UserEffectView::Deliver { id: message.id, pdu: message.pdu }
}

/// What is asked of the database for a new message: that it be noted as being processed, or
/// deleted where it cannot be read.
pub open spec fn note_of(message: MessageView) -> StoreRequestView {
    if deliver_sender(message.pdu) is Some {
        StoreRequestView::MarkMessageProcessing { id: message.id, processing: true }
    } else {
        StoreRequestView::DeleteMessage { id: message.id }
    }
}

/// The deliveries of those messages that are new and can be read.
pub open spec fn deliveries(rows: Seq<MessageView>) -> Seq<UserEffectView> {
    rows.filter(|row: MessageView| is_deliverable(row)).map_values(
        |row: MessageView| delivery(row),
    )
}

/// What is asked of the database for those messages that are new.
pub open spec fn notes(rows: Seq<MessageView>) -> Seq<StoreRequestView> {
    rows.filter(|row: MessageView| awaits_delivery(row)).map_values(|row: MessageView| note_of(row))
}

proof fn lemma_first(rows: Seq<MessageView>)
    requires
        rows.len() > 0,
    ensures
        deliveries(rows) == (if is_deliverable(rows[0]) {
            seq![delivery(rows[0])]
        } else {
            seq![]
        }) + deliveries(rows.drop_first()),
        notes(rows) == (if awaits_delivery(rows[0]) {
            seq![note_of(rows[0])]
        } else {
            seq![]
        }) + notes(rows.drop_first()),
{
    let first = seq![rows[0]];
    let rest = rows.drop_first();
    assert(rows =~= first + rest);
    reveal_with_fuel(Seq::filter, 2);
    let deliverable = |row: MessageView| is_deliverable(row);
    let new = |row: MessageView| awaits_delivery(row);
    Seq::filter_distributes_over_add(first, rest, deliverable);
    Seq::filter_distributes_over_add(first, rest, new);
    assert(first.drop_last() =~= Seq::<MessageView>::empty());
    assert(first.filter(deliverable) =~= if is_deliverable(rows[0]) {
        first
    } else {
        Seq::<MessageView>::empty()
    });
    assert(first.filter(new) =~= if awaits_delivery(rows[0]) {
        first
    } else {
        Seq::<MessageView>::empty()
    });
    assert(deliveries(rows) =~= (if is_deliverable(rows[0]) {
        seq![delivery(rows[0])]
    } else {
        seq![]
    }) + deliveries(rest));
    assert(notes(rows) =~= (if awaits_delivery(rows[0]) {
        seq![note_of(rows[0])]
    } else {
        seq![]
    }) + notes(rest));
}

proof fn lemma_run(user: UserView, rows: Seq<MessageView>, successes: nat)
    requires
        rows.len() <= successes,
    ensures
        ({
            let (next, step) = user.next_message(rows);
            run_of(next, step, successes) == UserRun {
                user: UserView { task: UserTaskView::Idle, ..user },
                next: UserNextView::Ready,
                effects: deliveries(rows),
                requests: notes(rows),
            }
        }),
    decreases rows.len(),
{
    let idle = UserView { task: UserTaskView::Idle, ..user };
    let (next, step) = user.next_message(rows);
    if rows.len() == 0 {
        assert(rows =~= Seq::<MessageView>::empty());
        reveal_with_fuel(Seq::filter, 1);
        assert(deliveries(rows) =~= Seq::<UserEffectView>::empty());
        assert(notes(rows) =~= Seq::<StoreRequestView>::empty());
    } else {
        lemma_first(rows);
        let rest = rows.drop_first();
        if !awaits_delivery(rows[0]) {
            lemma_run(user, rest, successes);
            assert(Seq::<UserEffectView>::empty() + deliveries(rest) =~= deliveries(rest));
            assert(Seq::<StoreRequestView>::empty() + notes(rest) =~= notes(rest));
        } else {
            lemma_run(next, rest, (successes - 1) as nat);
        }
    }
}

/// Told that there may be new messages, a manager delivers every new message that can be read,
/// in order and once, and notes that it is being processed; it deletes every new message that
/// cannot be read, and leaves the others alone.
pub proof fn law_every_new_message_is_delivered(user: UserView, rows: Seq<MessageView>)
    requires
        user.task is Idle,
    ensures
        ({
            let (asked, ask) = user.future(UserInputView::Message(UserMessage::ProcessNew));
            let (listed, step) = asked.future(
                UserInputView::Reply(StoreReplyView::Messages(rows)),
            );
            &&& ask == UserStepView {
                effect: None,
                next: UserNextView::Store(
                    StoreRequestView::GetMessagesForRecipient { recipient: user.recipient_id },
                ),
            }
            &&& run_of(listed, step, rows.len()) == UserRun {
                user,
                next: UserNextView::Ready,
                effects: deliveries(rows),
                requests: notes(rows),
            }
        }),
{
    let asked = user.future(UserInputView::Message(UserMessage::ProcessNew)).0;
    lemma_run(asked, rows, rows.len());
}

proof fn lemma_notes_hold(rows: Seq<MessageView>, row: MessageView)
    requires
        rows.contains(row),
        awaits_delivery(row),
    ensures
        notes(rows).contains(note_of(row)),
    decreases rows.len(),
{
    lemma_first(rows);
    let rest = rows.drop_first();
    let i = choose|i: int| 0 <= i < rows.len() && rows[i] == row;
    if i == 0 {
        assert(notes(rows)[0] == note_of(row));
    } else {
        assert(rest[i - 1] == row);
        lemma_notes_hold(rest, row);
        let j = choose|j: int| 0 <= j < notes(rest).len() && notes(rest)[j] == note_of(row);
        if awaits_delivery(rows[0]) {
            assert(notes(rows)[j + 1] == note_of(row));
        } else {
            assert(notes(rows)[j] == note_of(row));
        }
    }
}

proof fn lemma_only_notes(rows: Seq<MessageView>)
    ensures
        forall|i: int|
            0 <= i < notes(rows).len() ==> {
                ||| (#[trigger] notes(rows)[i]) matches StoreRequestView::MarkMessageProcessing {
                    processing,
                    ..
                } && processing
                ||| notes(rows)[i] is DeleteMessage
            },
{
}

/// Where a row of the messages comes from, after operations that note messages as being
/// processed or delete them.
proof fn lemma_origin(rows: Seq<MessageView>, requests: Seq<StoreRequestView>, row: MessageView)
    requires
        rows_after(rows, requests).contains(row),
        forall|i: int|
            0 <= i < requests.len() ==> {
                ||| (#[trigger] requests[i]) matches StoreRequestView::MarkMessageProcessing {
                    processing,
                    ..
                } && processing
                ||| requests[i] is DeleteMessage
            },
    ensures
        !requests.contains(StoreRequestView::DeleteMessage { id: row.id }),
        requests.contains(
            StoreRequestView::MarkMessageProcessing { id: row.id, processing: true },
        ) ==> row.processing,
        row.processing || rows.contains(row),
    decreases requests.len(),
{
    if requests.len() > 0 {
        let before = rows_after(rows, requests.drop_last());
        let last = requests.last();
        let delete = StoreRequestView::DeleteMessage { id: row.id };
        let mark = StoreRequestView::MarkMessageProcessing { id: row.id, processing: true };
        match last {
            StoreRequestView::DeleteMessage { id } => {
                let kept = |row: MessageView| row.id != id;
                before.lemma_filter_contains_rev(kept, row);
                lemma_filter_sound(before, kept, row);
                lemma_origin(rows, requests.drop_last(), row);
                lemma_contains_last(requests, delete);
                lemma_contains_last(requests, mark);
            },
            _ => {
                let change = |row: MessageView| changed_row(row, last);
                let i = choose|i: int|
                    0 <= i < before.map_values(change).len() && before.map_values(change)[i]
                        == row;
                let origin = before[i];
                assert(before.contains(origin));
                lemma_origin(rows, requests.drop_last(), origin);
                lemma_contains_last(requests, delete);
                lemma_contains_last(requests, mark);
            },
        }
    }
}

proof fn lemma_filter_sound(
    rows: Seq<MessageView>,
    kept: spec_fn(MessageView) -> bool,
    row: MessageView,
)
    requires
        rows.filter(kept).contains(row),
    ensures
        rows.contains(row),
        kept(row),
{
    rows.lemma_filter_contains_rev(kept, row);
    rows.lemma_filter_pred(kept, choose|i: int|
        0 <= i < rows.filter(kept).len() && rows.filter(kept)[i] == row);
}

proof fn lemma_contains_last(requests: Seq<StoreRequestView>, request: StoreRequestView)
    requires
        requests.len() > 0,
    ensures
        requests.contains(request) ==> requests.last() == request
            || requests.drop_last().contains(request),
{
    if requests.contains(request) {
        let i = choose|i: int| 0 <= i < requests.len() && requests[i] == request;
        if i < requests.len() - 1 {
            assert(requests.drop_last()[i] == request);
        }
    }
}

proof fn lemma_none_new(user: UserView, rows: Seq<MessageView>)
    requires
        forall|i: int| 0 <= i < rows.len() ==> !awaits_delivery(#[trigger] rows[i]),
    ensures
        user.next_message(rows) == user.resting(None, UserNextView::Ready),
    decreases rows.len(),
{
    if rows.len() > 0 {
        let rest = rows.drop_first();
        assert forall|i: int| 0 <= i < rest.len() implies !awaits_delivery(#[trigger] rest[i]) by {
            assert(rest[i] == rows[i + 1]);
        }
        lemma_none_new(user, rest);
    }
}

/// No message is delivered twice: once a manager has gone through the messages, and the database
/// has done what it was asked, none of them is delivered or deleted when the manager is told
/// again that there may be new ones.
pub proof fn law_no_message_is_delivered_twice(user: UserView, rows: Seq<MessageView>)
    requires
        user.task is Idle,
    ensures
        ({
            let asked = user.future(UserInputView::Message(UserMessage::ProcessNew)).0;
            asked.future(
                UserInputView::Reply(StoreReplyView::Messages(rows_after(rows, notes(rows)))),
            ) == (user, UserStepView { effect: None, next: UserNextView::Ready })
        }),
{
    let asked = user.future(UserInputView::Message(UserMessage::ProcessNew)).0;
    let later = rows_after(rows, notes(rows));
    lemma_only_notes(rows);
    assert forall|i: int| 0 <= i < later.len() implies !awaits_delivery(#[trigger] later[i]) by {
        let row = later[i];
        assert(later.contains(row));
        lemma_origin(rows, notes(rows), row);
        if awaits_delivery(row) {
            assert(rows.contains(row));
            lemma_notes_hold(rows, row);
        }
    }
    lemma_none_new(asked, later);
}

/// A message that could not be delivered is delivered again, after a wait that doubles with
/// every failure, and until then it does not count as new.
pub proof fn law_failed_message_is_retried(user: UserView, row: MessageView)
    requires
        user.task is Idle,
        0 <= row.failures < MAX_FAILURES - 1,
        deliver_sender(row.pdu) is Some,
    ensures
        ({
            let (failed, report) = user.future(
                UserInputView::Message(UserMessage::NotifyFailed(row.id)),
            );
            let request = StoreRequestView::MarkMessageFailed { id: row.id };
            let later = changed_row(row, request);
            let (waiting, wait) = failed.future(
                UserInputView::Reply(StoreReplyView::Failures(later.failures)),
            );
            let (fetched, fetch) = waiting.future(
                UserInputView::Message(UserMessage::ProcessFailed(row.id)),
            );
            let (retried, retry) = fetched.future(
                UserInputView::Reply(StoreReplyView::Message(later)),
            );
            let (done, end) = retried.future(UserInputView::Reply(StoreReplyView::Done));
            &&& report == UserStepView { effect: None, next: UserNextView::Store(request) }
            &&& !awaits_delivery(later)
            &&& waiting == user
            &&& wait == UserStepView {
                effect: Some(
                    UserEffectView::RetryAfter {
                        id: row.id,
                        secs: pow2((row.failures + 1) as nat),
                    },
                ),
                next: UserNextView::Ready,
            }
            &&& fetch == UserStepView {
                effect: None,
                next: UserNextView::Store(StoreRequestView::GetMessageById { id: row.id }),
            }
            &&& retry == UserStepView {
                effect: Some(UserEffectView::Deliver { id: row.id, pdu: row.pdu }),
                next: UserNextView::Store(
                    StoreRequestView::MarkMessageProcessing { id: row.id, processing: true },
                ),
            }
            &&& done == user
            &&& end == UserStepView { effect: None, next: UserNextView::Ready }
        }),
{
}

proof fn lemma_only_unreadable_are_deleted(user: UserView, rows: Seq<MessageView>)
    ensures
        ({
            let (next, step) = user.next_message(rows);
            forall|id: i32|
                step.next == UserNextView::Store(StoreRequestView::DeleteMessage { id })
                    ==> exists|i: int|
                    0 <= i < rows.len() && (#[trigger] rows[i]).id == id && awaits_delivery(rows[i])
                        && deliver_sender(rows[i].pdu) is None
        }),
    decreases rows.len(),
{
    if rows.len() > 0 && !awaits_delivery(rows[0]) {
        let rest = rows.drop_first();
        lemma_only_unreadable_are_deleted(user, rest);
        let step = user.next_message(rows).1;
        assert forall|id: i32|
            step.next == UserNextView::Store(
                StoreRequestView::DeleteMessage { id },
            ) implies exists|i: int|
            0 <= i < rows.len() && (#[trigger] rows[i]).id == id && awaits_delivery(rows[i])
                && deliver_sender(rows[i].pdu) is None by {
            let i = choose|i: int|
                0 <= i < rest.len() && (#[trigger] rest[i]).id == id && awaits_delivery(rest[i])
                    && deliver_sender(rest[i].pdu) is None;
            assert(rows[i + 1].id == id);
        }
    }
}

/// The messages that a manager goes on with when the database answers.
pub open spec fn rows_to_go(user: UserView, input: UserInputView) -> Seq<MessageView> {
    match (user.task, input) {
        (
            UserTaskView::ListMessages,
            UserInputView::Reply(StoreReplyView::Messages(rows)),
        ) => rows,
        (UserTaskView::MarkMessage { rest, .. }, _) => rest,
        (UserTaskView::DropMessage { rest, .. }, _) => rest,
        _ => seq![],
    }
}

/// No message is lost: a message is deleted only after it has been delivered, or where it cannot
/// be read.
pub proof fn law_only_delivered_messages_are_deleted(
    user: UserView,
    input: UserInputView,
    id: i32,
)
    requires
        user.accepts(input),
        user.future(input).1.next == UserNextView::Store(StoreRequestView::DeleteMessage { id }),
    ensures
        input == UserInputView::Message(UserMessage::NotifyComplete(id)) || exists|i: int|
            0 <= i < rows_to_go(user, input).len() && (#[trigger] rows_to_go(user, input)[i]).id
                == id && deliver_sender(rows_to_go(user, input)[i].pdu) is None,
{
    lemma_only_unreadable_are_deleted(user, rows_to_go(user, input));
}

proof fn lemma_next_waits(user: UserView, rows: Seq<MessageView>)
    ensures
        ({
            let (next, step) = user.next_message(rows);
            &&& next.recipient_id == user.recipient_id
            &&& match step.next {
                UserNextView::Store(request) => next.task.request(next.recipient_id) == Some(
                    request,
                ),
                _ => next.task is Idle,
            }
        }),
    decreases rows.len(),
{
    if rows.len() > 0 && !awaits_delivery(rows[0]) {
        lemma_next_waits(user, rows.drop_first());
    }
}

/// What a manager waits for is what it has asked for: after an operation on the database it waits
/// for its answer, and otherwise it takes in whatever is sent to it.
pub proof fn law_manager_waits_for_what_it_asked(user: UserView, input: UserInputView)
    requires
        user.accepts(input),
    ensures
        ({
            let (next, step) = user.future(input);
            &&& next.recipient_id == user.recipient_id
            &&& match step.next {
                UserNextView::Store(request) => next.task.request(next.recipient_id) == Some(
                    request,
                ),
                _ => next.task is Idle,
            }
        }),
{
    lemma_next_waits(user, rows_to_go(user, input));
}

/// What each thing that is sent to a manager makes it ask of the database, at once and without
/// anything else being done.
pub proof fn law_manager_asks_what_it_needs(user: UserView, id: i32)
    requires
        user.task is Idle,
    ensures
        user.future(UserInputView::Message(UserMessage::ProcessNew)) == (
            UserView { task: UserTaskView::ListMessages, ..user },
            UserStepView {
                effect: None,
                next: UserNextView::Store(
                    StoreRequestView::GetMessagesForRecipient { recipient: user.recipient_id },
                ),
            },
        ),
        user.future(UserInputView::Message(UserMessage::ProcessFailed(id))) == (
            UserView { task: UserTaskView::FetchMessage { id }, ..user },
            UserStepView {
                effect: None,
                next: UserNextView::Store(StoreRequestView::GetMessageById { id }),
            },
        ),
        user.future(UserInputView::Message(UserMessage::NotifyComplete(id))) == (
            UserView { task: UserTaskView::CompleteMessage { id }, ..user },
            UserStepView {
                effect: None,
                next: UserNextView::Store(StoreRequestView::DeleteMessage { id }),
            },
        ),
        user.future(UserInputView::Message(UserMessage::NotifyFailed(id))) == (
            UserView { task: UserTaskView::FailMessage { id }, ..user },
            UserStepView {
                effect: None,
                next: UserNextView::Store(StoreRequestView::MarkMessageFailed { id }),
            },
        ),
{
}

/// A message that has been delivered is deleted, and no other is: once the database has done so
/// the manager is as it was, and there is no message to deliver again.
pub proof fn law_delivered_message_is_gone(user: UserView, id: i32, rows: Seq<MessageView>)
    requires
        user.task is Idle,
    ensures
        ({
            let (completing, ask) = user.future(
                UserInputView::Message(UserMessage::NotifyComplete(id)),
            );
            let (done, end) = completing.future(UserInputView::Reply(StoreReplyView::Done));
            let request = StoreRequestView::DeleteMessage { id };
            let later = rows_after(rows, seq![request]);
            &&& ask == UserStepView { effect: None, next: UserNextView::Store(request) }
            &&& done == user
            &&& end == UserStepView { effect: None, next: UserNextView::Ready }
            &&& forall|i: int| 0 <= i < later.len() ==> (#[trigger] later[i]).id != id
            &&& forall|row: MessageView|
                row.id != id ==> (#[trigger] later.contains(row) <==> rows.contains(row))
        }),
{
    let request = StoreRequestView::DeleteMessage { id };
    let requests = seq![request];
    let kept = |row: MessageView| row.id != id;
    assert(requests.drop_last() =~= Seq::<StoreRequestView>::empty());
    let later = rows_after(rows, requests);
    assert(rows_after(rows, requests.drop_last()) == rows);
    assert(later == rows.filter(kept));
    assert forall|i: int| 0 <= i < later.len() implies (#[trigger] later[i]).id != id by {
        assert(later.contains(later[i]));
        lemma_filter_sound(rows, kept, later[i]);
    }
    assert forall|row: MessageView| row.id != id implies (#[trigger] later.contains(row)
        <==> rows.contains(row)) by {
        if later.contains(row) {
            lemma_filter_sound(rows, kept, row);
        }
        if rows.contains(row) {
            let i = choose|i: int| 0 <= i < rows.len() && rows[i] == row;
            rows.lemma_filter_contains(kept, i);
        }
    }
}

/// A message that could not be delivered is retried after two to the power of its failures, in
/// seconds.
pub proof fn law_wait_is_by_failures(user: UserView, id: i32, failures: i32)
    requires
        user.task == (UserTaskView::FailMessage { id }),
        0 <= failures < MAX_FAILURES,
    ensures
        user.future(UserInputView::Reply(StoreReplyView::Failures(failures))) == (
            UserView { task: UserTaskView::Idle, ..user },
            UserStepView {
                effect: Some(UserEffectView::RetryAfter { id, secs: pow2(failures as nat) }),
                next: UserNextView::Ready,
            },
        ),
{
}

/// What becomes of the messages of a recipient, one by one. One that is being processed or has
/// failed makes no difference. One that awaits delivery and can be read is delivered and noted as
/// being processed, and one that cannot be read is deleted, before the others are gone on with.
pub proof fn law_messages_are_taken_one_by_one(
    user: UserView,
    row: MessageView,
    rest: Seq<MessageView>,
)
    requires
        user.task is ListMessages,
    ensures
        ({
            let none = UserInputView::Reply(StoreReplyView::Messages(Seq::empty()));
            let all = UserInputView::Reply(StoreReplyView::Messages(seq![row] + rest));
            let others = UserInputView::Reply(StoreReplyView::Messages(rest));
            &&& user.future(none) == (
                UserView { task: UserTaskView::Idle, ..user },
                UserStepView { effect: None, next: UserNextView::Ready },
            )
            &&& user.future(all) == (if row.processing || row.failures > 0 {
                user.future(others)
            } else if deliver_sender(row.pdu) is Some {
                (
                    UserView { task: UserTaskView::MarkMessage { id: row.id, rest }, ..user },
                    UserStepView {
                        effect: Some(UserEffectView::Deliver { id: row.id, pdu: row.pdu }),
                        next: UserNextView::Store(
                            StoreRequestView::MarkMessageProcessing {
                                id: row.id,
                                processing: true,
                            },
                        ),
                    },
                )
            } else {
                (
                    UserView { task: UserTaskView::DropMessage { id: row.id, rest }, ..user },
                    UserStepView {
                        effect: None,
                        next: UserNextView::Store(StoreRequestView::DeleteMessage { id: row.id }),
                    },
                )
            })
        }),
{
    assert((seq![row] + rest).drop_first() =~= rest);
}

proof fn lemma_next_ignores_task(user: UserView, task: UserTaskView, rest: Seq<MessageView>)
    ensures
        user.next_message(rest) == (UserView { task, ..user }).next_message(rest),
    decreases rest.len(),
{
    if rest.len() > 0 {
        lemma_next_ignores_task(user, task, rest.drop_first());
    }
}

/// Once a message has been noted as being processed, or deleted, the manager goes on with those
/// behind it as with messages that have just been listed.
pub proof fn law_other_messages_are_gone_on_with(
    user: UserView,
    id: i32,
    rest: Seq<MessageView>,
)
    ensures
        ({
            let done = UserInputView::Reply(StoreReplyView::Done);
            let listing = UserView { task: UserTaskView::ListMessages, ..user };
            let listed = listing.future(UserInputView::Reply(StoreReplyView::Messages(rest)));
            let marking = UserView { task: UserTaskView::MarkMessage { id, rest }, ..user };
            let dropping = UserView { task: UserTaskView::DropMessage { id, rest }, ..user };
            marking.future(done) == listed && dropping.future(done) == listed
        }),
{
    lemma_next_ignores_task(user, UserTaskView::ListMessages, rest);
    lemma_next_ignores_task(user, UserTaskView::MarkMessage { id, rest }, rest);
    lemma_next_ignores_task(user, UserTaskView::DropMessage { id, rest }, rest);
}

/// A message that failed and has been fetched is delivered and noted as being processed, where it
/// can be read; otherwise nothing is done about it.
pub proof fn law_fetched_message_is_delivered(user: UserView, id: i32, row: MessageView)
    requires
        user.task == (UserTaskView::FetchMessage { id }),
    ensures
        user.future(UserInputView::Reply(StoreReplyView::Message(row))) == (if deliver_sender(
            row.pdu,
        ) is Some {
            (
                UserView {
                    task: UserTaskView::MarkMessage { id, rest: Seq::empty() },
                    ..user
                },
                UserStepView {
                    effect: Some(UserEffectView::Deliver { id, pdu: row.pdu }),
                    next: UserNextView::Store(
                        StoreRequestView::MarkMessageProcessing { id, processing: true },
                    ),
                },
            )
        } else {
            (
                UserView { task: UserTaskView::Idle, ..user },
                UserStepView {
                    effect: None,
                    next: UserNextView::Failed(UserError::Malformed),
                },
            )
        }),
{
}

/// Whether a message can be read decides alone what is done about one that awaits delivery or
/// that failed.
pub proof fn law_readable_messages_are_delivered(
    user: UserView,
    id: i32,
    row: MessageView,
    rest: Seq<MessageView>,
)
    ensures
        ({
            let (next, step) = user.take_new(row, true, rest);
            &&& next == UserView {
                task: UserTaskView::MarkMessage { id: row.id, rest },
                ..user
            }
            &&& step.effect == Some(UserEffectView::Deliver { id: row.id, pdu: row.pdu })
            &&& step.next == UserNextView::Store(
                StoreRequestView::MarkMessageProcessing { id: row.id, processing: true },
            )
        }),
        ({
            let (next, step) = user.take_new(row, false, rest);
            &&& next == UserView {
                task: UserTaskView::DropMessage { id: row.id, rest },
                ..user
            }
            &&& step.effect is None
            &&& step.next == UserNextView::Store(StoreRequestView::DeleteMessage { id: row.id })
        }),
        ({
            let (next, step) = user.take_failed(id, row, true);
            &&& next == UserView {
                task: UserTaskView::MarkMessage { id, rest: Seq::empty() },
                ..user
            }
            &&& step.effect == Some(UserEffectView::Deliver { id, pdu: row.pdu })
            &&& step.next == UserNextView::Store(
                StoreRequestView::MarkMessageProcessing { id, processing: true },
            )
        }),
        ({
            let (next, step) = user.take_failed(id, row, false);
            &&& next == UserView { task: UserTaskView::Idle, ..user }
            &&& step.effect is None
            &&& step.next == UserNextView::Failed(UserError::Malformed)
        }),
{
}

/// Where the database fails, what the manager was in the middle of comes to nothing, nothing is
/// delivered, and the manager takes in what is sent to it next.
pub proof fn law_manager_survives_the_database(user: UserView)
    requires
        !(user.task is Idle),
    ensures
        user.accepts(UserInputView::Reply(StoreReplyView::Failed)),
        user.future(UserInputView::Reply(StoreReplyView::Failed)) == (
            UserView { task: UserTaskView::Idle, ..user },
            UserStepView { effect: None, next: UserNextView::Failed(UserError::Store) },
        ),
{
}

/// What a manager takes in: anything that is sent to it while it waits for nothing, and else the
/// answer to what it has asked.
pub proof fn law_manager_takes_in_answers(
    user: UserView,
    message: UserMessage,
    reply: StoreReplyView,
)
    ensures
        user.accepts(UserInputView::Message(message)) <==> user.task is Idle,
        user.accepts(UserInputView::Reply(reply)) <==> match user.task {
            UserTaskView::Idle => false,
            UserTaskView::ListMessages => reply is Failed || reply is Messages,
            UserTaskView::FetchMessage { .. } => reply is Failed || reply is Message,
            UserTaskView::MarkMessage { .. } => reply is Failed || reply is Done,
            UserTaskView::DropMessage { .. } => reply is Failed || reply is Done,
            UserTaskView::CompleteMessage { .. } => reply is Failed || reply is Done,
            UserTaskView::FailMessage { .. } => reply is Failed || (
            reply matches StoreReplyView::Failures(failures) && 0 <= failures < 64),
        },
{
}

proof fn lemma_only_listed_are_delivered(user: UserView, rows: Seq<MessageView>)
    ensures
        ({
            let step = user.next_message(rows).1;
            step.effect matches Some(effect) ==> exists|i: int|
                0 <= i < rows.len() && awaits_delivery(#[trigger] rows[i]) && deliver_sender(
                    rows[i].pdu,
                ) is Some && effect == delivery(rows[i])
        }),
    decreases rows.len(),
{
    if rows.len() > 0 {
        if awaits_delivery(rows[0]) {
            assert(rows[0] == rows[0]);
        } else {
            let rest = rows.drop_first();
            lemma_only_listed_are_delivered(user, rest);
            if let Some(effect) = user.next_message(rows).1.effect {
                let i = choose|i: int|
                    0 <= i < rest.len() && awaits_delivery(#[trigger] rest[i]) && deliver_sender(
                        rest[i].pdu,
                    ) is Some && effect == delivery(rest[i]);
                assert(rows[i + 1] == rest[i]);
            }
        }
    }
}

/// Only a message that the database holds is delivered: one that awaits delivery, or one that
/// failed and has been fetched again.
pub proof fn law_only_stored_messages_are_delivered(
    user: UserView,
    input: UserInputView,
    id: i32,
    pdu: Seq<u8>,
)
    requires
        user.accepts(input),
        user.future(input).1.effect == Some(UserEffectView::Deliver { id, pdu }),
    ensures
        ({
            let rows = rows_to_go(user, input);
            ||| exists|i: int|
                0 <= i < rows.len() && awaits_delivery(#[trigger] rows[i]) && rows[i].id == id
                    && rows[i].pdu == pdu
            ||| user.task == (UserTaskView::FetchMessage { id }) && (input matches UserInputView::Reply(
                StoreReplyView::Message(row),
            ) && row.pdu == pdu)
        }),
{
    lemma_only_listed_are_delivered(user, rows_to_go(user, input));
}

} // verus!
