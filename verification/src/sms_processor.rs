//! Delivering received text messages to rooms, and putting together those that come in parts.

use std::collections::BTreeMap;

use vstd::prelude::*;
use vstd::string::*;

use crate::events::text_view;
use crate::pdu::{
    deliver_text, readable_text, received_text, ConcatenatedSmsData,
};
use crate::text::{decimal, law_decimal_is_unique, push_decimal, text_eq};

verus! {

/// The parts of a message that have come so far, by their numbers. It is kept in the room.
pub struct CsmsData {
    pub parts: BTreeMap<u8, String>,
    pub total_parts: u8,
    pub finished: bool,
}

/// What a `CsmsData` holds.
#[verifier::ext_equal]
pub struct CsmsView {
    pub parts: Map<u8, Seq<char>>,
    pub total_parts: u8,
    pub finished: bool,
}

impl View for CsmsData {
    type V = CsmsView;

    open spec fn view(&self) -> CsmsView {
        CsmsView {
            parts: self.parts@.map_values(|s: String| s@),
            total_parts: self.total_parts,
            finished: self.finished,
        }
    }
}

/// The parts with numbers below `n`, put together in the order of their numbers.
pub open spec fn joined_below(parts: Map<u8, Seq<char>>, n: nat) -> Seq<char>
    decreases n,
{
    if n == 0 {
        seq![]
    } else {
        let number = (n - 1) as u8;
        joined_below(parts, (n - 1) as nat) + if parts.contains_key(number) {
            parts[number]
        } else {
            seq![]
        }
    }
}

/// All parts, put together in the order of their numbers.
pub open spec fn joined(parts: Map<u8, Seq<char>>) -> Seq<char> {
    joined_below(parts, 256)
}

impl CsmsView {
    /// No part of a message has come yet.
    pub open spec fn fresh(total_parts: u8) -> CsmsView {
        CsmsView { parts: Map::empty(), total_parts, finished: false }
    }

    /// One part more has come: what is kept now and, once as many parts have come as there are,
    /// the whole text. Parts of a message with another number of them, or of one that was put
    /// together before, are thrown away first.
    pub open spec fn add_part(self, data: ConcatenatedSmsData, text: Seq<char>) -> (
        CsmsView,
        Option<Seq<char>>,
    ) {
        let kept = if self.total_parts != data.parts || self.finished {
            CsmsView::fresh(data.parts)
        } else {
            self
        };
        let parts = kept.parts.insert(data.sequence, text);
        let complete = parts.len() >= kept.total_parts;
        (
            CsmsView { parts, total_parts: kept.total_parts, finished: complete },
            if complete {
                Some(joined(parts))
            } else {
                None
            },
        )
    }
}

impl CsmsData {
    /// No part of a message has come yet.
    pub fn fresh(total_parts: u8) -> (r: CsmsData)
        ensures
            r@ == CsmsView::fresh(total_parts),
    {
        let r = CsmsData { parts: BTreeMap::new(), total_parts, finished: false };
        assert(r@ =~= CsmsView::fresh(total_parts));
        r
    }

    /// All parts, put together in the order of their numbers.
    fn join(&self) -> (r: String)
        ensures
            r@ == joined(self@.parts),
    {
        let mut ret: String = String::new();
        let mut n: u16 = 0;
        while n < 256
            invariant
                n <= 256,
                ret@ == joined_below(self@.parts, n as nat),
            decreases 256 - n,
        {
            let number: u8 = n as u8;
            match self.parts.get(&number) {
                Some(text) => {
                    ret.append(text.as_str());
                },
                None => {},
            }
            assert(ret@ =~= joined_below(self@.parts, (n + 1) as nat));
            n = n + 1;
        }
        ret
    }

    /// Takes in one part more, and gives the whole text back once there is one.
    pub fn add_part(&mut self, data: ConcatenatedSmsData, text: String) -> (r: Option<String>)
        ensures
            (final(self)@, text_view(r)) == old(self)@.add_part(data, text@),
    {
        if self.total_parts != data.parts || self.finished {
            *self = CsmsData::fresh(data.parts);
        }
        let ghost kept = self@;
        self.parts.insert(data.sequence, text);
        proof {
            assert(self@.parts =~= kept.parts.insert(data.sequence, text@));
            assert(self@.parts.dom() =~= self.parts@.dom());
        }
        if self.parts.len() >= self.total_parts as usize {
            let whole: String = self.join();
            self.finished = true;
            assert(self@ =~= old(self)@.add_part(data, text@).0);
            Some(whole)
        } else {
            assert(self@ =~= old(self)@.add_part(data, text@).0);
            None
        }
    }
}

/// What comes of a look at the state of a room: what is kept there, or an error with the code
/// that the homeserver gave, if it gave one.
pub enum StateReply {
    Found(CsmsData),
    Error(Option<String>),
}

/// What a `StateReply` holds.
pub enum StateReplyView {
    Found(CsmsView),
    Error(Option<Seq<char>>),
}

impl View for StateReply {
    type V = StateReplyView;

    open spec fn view(&self) -> StateReplyView {
        match *self {
            StateReply::Found(state) => StateReplyView::Found(state@),
            StateReply::Error(code) => StateReplyView::Error(text_view(code)),
        }
    }
}

/// A part of a message, which waits for the parts before it to be fetched.
pub struct ReceivedPart {
    pub state_key: String,
    pub data: ConcatenatedSmsData,
    pub text: String,
}

/// The parts of a message, to be kept in the room; once it is kept, the whole text may be sent.
pub struct KeptParts {
    pub state_key: String,
    pub state: CsmsData,
    pub text: Option<String>,
}

/// What is to be done about a received message.
pub enum SmsStep {
    /// Fetch what is kept in the room.
    GetState(ReceivedPart),
    /// Keep this in the room.
    SetState(KeptParts),
    /// Send this to the room.
    Send(String),
    /// Nothing more.
    Done,
    /// Give up with the error that came.
    Fail,
}

/// What an `SmsStep` holds.
pub enum SmsStepView {
    GetState { state_key: Seq<char>, data: ConcatenatedSmsData, text: Seq<char> },
    SetState { state_key: Seq<char>, state: CsmsView, whole: Option<Seq<char>> },
    Send(Seq<char>),
    Done,
    Fail,
}

impl View for SmsStep {
    type V = SmsStepView;

    open spec fn view(&self) -> SmsStepView {
        match *self {
            SmsStep::GetState(part) => SmsStepView::GetState {
                state_key: part.state_key@,
                data: part.data,
                text: part.text@,
            },
            SmsStep::SetState(kept) => SmsStepView::SetState {
                state_key: kept.state_key@,
                state: kept.state@,
                whole: text_view(kept.text),
            },
            SmsStep::Send(text) => SmsStepView::Send(text@),
            SmsStep::Done => SmsStepView::Done,
            SmsStep::Fail => SmsStepView::Fail,
        }
    }
}

/// Under which type the parts of messages are kept in a room.
pub fn csms_state_type() -> (r: &'static str)
    ensures
        r@ == "org.eu.theta.sms.concatenated"@,
{
    "org.eu.theta.sms.concatenated"
}

/// The first step for a message with this text: one that is whole is sent, and for a part what
/// is kept of its message is fetched.
pub open spec fn first_step(text: Seq<char>, data: Option<ConcatenatedSmsData>) -> SmsStepView {
    match data {
        Some(data) => SmsStepView::GetState {
            state_key: "ref-"@ + decimal(data.reference as nat),
            data,
            text,
        },
        None => SmsStepView::Send(text),
    }
}

/// The step after what is kept of a message has been fetched, or could not be. Where the
/// homeserver has nothing, no part has come yet; other errors end the delivery.
pub open spec fn fetched_step(
    state_key: Seq<char>,
    data: ConcatenatedSmsData,
    text: Seq<char>,
    reply: StateReplyView,
) -> SmsStepView {
    let kept = match reply {
        StateReplyView::Found(state) => Some(state),
        StateReplyView::Error(code) => if code == Some("M_NOT_FOUND"@) {
            Some(CsmsView::fresh(data.parts))
        } else {
            None
        },
    };
    match kept {
        Some(kept) => {
            let (state, whole) = kept.add_part(data, text);
            SmsStepView::SetState { state_key, state, whole }
        },
        None => SmsStepView::Fail,
    }
}

/// Begins to deliver a text.
pub fn process_text(text: String, data: Option<ConcatenatedSmsData>) -> (r: SmsStep)
    ensures
        r@ == first_step(text@, data),
{
    match data {
        Some(data) => {
            let mut state_key: String = "ref-".to_owned();
            push_decimal(&mut state_key, data.reference as u32);
            SmsStep::GetState(ReceivedPart { state_key, data, text })
        },
        None => SmsStep::Send(text),
    }
}

/// Begins to deliver a received message.
pub fn process_message(pdu: &Vec<u8>) -> (r: SmsStep)
    ensures
        r@ == ({
            let (text, data) = readable_text(deliver_text(pdu@));
            first_step(text, data)
        }),
{
    let (text, data) = received_text(pdu);
    process_text(text, data)
}

impl ReceivedPart {
    /// Goes on once what is kept of the message has been fetched, or could not be.
    pub fn state_fetched(self, reply: StateReply) -> (r: SmsStep)
        ensures
            r@ == fetched_step(self.state_key@, self.data, self.text@, reply@),
    {
        let mut state: CsmsData = match reply {
            StateReply::Found(state) => state,
            StateReply::Error(code) => {
                let missing: bool = match code {
                    Some(code) => text_eq(code.as_str(), "M_NOT_FOUND"),
                    None => false,
                };
                if !missing {
                    return SmsStep::Fail;
                }
                CsmsData::fresh(self.data.parts)
            },
        };
        let text: Option<String> = state.add_part(self.data, self.text);
        SmsStep::SetState(KeptParts { state_key: self.state_key, state, text })
    }
}

/// The step after the parts of a message have been kept, or could not be: the whole text is sent
/// if there is one.
pub open spec fn kept_step(whole: Option<Seq<char>>, kept: bool) -> SmsStepView {
    match whole {
        _ if !kept => SmsStepView::Fail,
        Some(text) => SmsStepView::Send(text),
        None => SmsStepView::Done,
    }
}

/// Goes on once the parts of a message have been kept, or could not be.
pub fn state_kept(whole: Option<String>, kept: bool) -> (r: SmsStep)
    ensures
        r@ == kept_step(text_view(whole), kept),
        r@ == (if !kept {
            SmsStepView::Fail
        } else {
            match text_view(whole) {
                Some(text) => SmsStepView::Send(text),
                None => SmsStepView::Done,
            }
        }),
{
    if !kept {
        return SmsStep::Fail;
    }
    match whole {
        Some(text) => SmsStep::Send(text),
        None => SmsStep::Done,
    }
}

/// Texts put together in order.
pub open spec fn concat(texts: Seq<Seq<char>>) -> Seq<char>
    decreases texts.len(),
{
    if texts.len() == 0 {
        seq![]
    } else {
        concat(texts.drop_last()) + texts.last()
    }
}

/// What says of the part at `i` of a message in `total` parts which one it is. Parts are
/// numbered from one.
pub open spec fn part_at(reference: u16, total: nat, i: int) -> ConcatenatedSmsData {
    ConcatenatedSmsData { reference, parts: total as u8, sequence: (i + 1) as u8 }
}

/// What is kept of a message after `k` of its parts have come, in this order.
pub open spec fn kept_after(
    texts: Seq<Seq<char>>,
    order: Seq<int>,
    reference: u16,
    k: nat,
) -> CsmsView
    decreases k,
{
    if k == 0 {
        CsmsView::fresh(texts.len() as u8)
    } else {
        let i = order[k - 1];
        kept_after(texts, order, reference, (k - 1) as nat).add_part(
            part_at(reference, texts.len(), i),
            texts[i],
        ).0
    }
}

/// Whether `order` names each of `n` parts once.
pub open spec fn is_order(order: Seq<int>, n: nat) -> bool {
    &&& order.len() == n
    &&& order.no_duplicates()
    &&& forall|k: int| 0 <= k < n ==> 0 <= #[trigger] order[k] < n
}

proof fn lemma_kept(texts: Seq<Seq<char>>, order: Seq<int>, reference: u16, k: nat)
    requires
        texts.len() <= 255,
        is_order(order, texts.len()),
        k < texts.len(),
    ensures
        ({
            let kept = kept_after(texts, order, reference, k);
            &&& kept.total_parts == texts.len()
            &&& !kept.finished
            &&& kept.parts.dom().finite()
            &&& kept.parts.len() == k
            &&& forall|q: u8| #[trigger]
                kept.parts.contains_key(q) <==> order.take(k as int).contains(q as int - 1)
            &&& forall|q: u8| #[trigger]
                kept.parts.contains_key(q) ==> kept.parts[q] == texts[q as int - 1]
        }),
    decreases k,
{
    let kept = kept_after(texts, order, reference, k);
    if k == 0 {
        assert(kept.parts.dom() =~= Set::empty());
        assert(order.take(0).len() == 0);
    } else {
        let j = (k - 1) as nat;
        lemma_kept(texts, order, reference, j);
        let before = kept_after(texts, order, reference, j);
        let i = order[j as int];
        let number = (i + 1) as u8;
        assert(0 <= i < texts.len());
        assert(!before.parts.contains_key(number)) by {
            if before.parts.contains_key(number) {
                let m = choose|m: int| 0 <= m < order.take(j as int).len() && order.take(j as int)[m]
                    == i;
                assert(order[m] == order[j as int]);
            }
        }
        assert(order.take(k as int) =~= order.take(j as int).push(i));
        assert(kept.parts == before.parts.insert(number, texts[i]));
        assert forall|q: u8| #[trigger]
            kept.parts.contains_key(q) <==> order.take(k as int).contains(q as int - 1) by {
            let front = order.take(j as int);
            let whole = order.take(k as int);
            if front.contains(q as int - 1) {
                let m = choose|m: int| 0 <= m < front.len() && front[m] == q as int - 1;
                assert(whole[m] == q as int - 1);
            }
            assert(whole[j as int] == i);
            if whole.contains(q as int - 1) {
                let m = choose|m: int| 0 <= m < whole.len() && whole[m] == q as int - 1;
                if m < j {
                    assert(front[m] == q as int - 1);
                }
            }
        }
    }
}

proof fn lemma_order_names_all(order: Seq<int>, n: nat, i: int)
    requires
        is_order(order, n),
        0 <= i < n,
    ensures
        order.contains(i),
{
    order.unique_seq_to_set();
    vstd::set_lib::lemma_int_range(0, n as int);
    let named = order.to_set();
    let all = vstd::set_lib::set_int_range(0, n as int);
    assert(named.subset_of(all));
    vstd::set_lib::lemma_subset_equality(named, all);
    assert(named.contains(i));
}

proof fn lemma_joined(texts: Seq<Seq<char>>, parts: Map<u8, Seq<char>>, n: nat)
    requires
        texts.len() <= 255,
        n <= 256,
        forall|q: u8| #[trigger] parts.contains_key(q) <==> 1 <= q <= texts.len(),
        forall|q: u8| #[trigger] parts.contains_key(q) ==> parts[q] == texts[q as int - 1],
    ensures
        joined_below(parts, n) == concat(
            texts.take(
                if n == 0 {
                    0
                } else if n - 1 <= texts.len() {
                    n - 1
                } else {
                    texts.len() as int
                },
            ),
        ),
    decreases n,
{
    if n == 0 {
        assert(texts.take(0) =~= Seq::empty());
    } else {
        lemma_joined(texts, parts, (n - 1) as nat);
        let q = (n - 1) as u8;
        if n == 1 {
            assert(!parts.contains_key(q));
            assert(texts.take(0) =~= Seq::empty());
            assert(joined_below(parts, n) =~= seq![]);
        } else if n - 1 <= texts.len() {
            assert(parts.contains_key(q));
            assert(texts.take(n - 1).drop_last() =~= texts.take(n - 2));
            assert(texts.take(n - 1).last() == texts[n - 2]);
        } else {
            assert(!parts.contains_key(q));
            assert(joined_below(parts, n) =~= joined_below(parts, (n - 1) as nat));
        }
    }
}

/// The parts of a message may come in any order: until the last of them has come there is no
/// text, and then it is all of them in the order of their numbers.
pub proof fn law_parts_come_in_any_order(
    texts: Seq<Seq<char>>,
    order: Seq<int>,
    reference: u16,
    k: nat,
)
    requires
        texts.len() <= 255,
        is_order(order, texts.len()),
        k < texts.len(),
    ensures
        kept_after(texts, order, reference, k).add_part(
            part_at(reference, texts.len(), order[k as int]),
            texts[order[k as int]],
        ).1 == (if k + 1 == texts.len() {
            Some(concat(texts))
        } else {
            None
        }),
{
    let kept = kept_after(texts, order, reference, k);
    let i = order[k as int];
    let number = (i + 1) as u8;
    lemma_kept(texts, order, reference, k);
    assert(!kept.parts.contains_key(number)) by {
        if kept.parts.contains_key(number) {
            let m = choose|m: int| 0 <= m < order.take(k as int).len() && order.take(k as int)[m]
                == i;
            assert(order[m] == order[k as int]);
        }
    }
    let parts = kept.parts.insert(number, texts[i]);
    assert(parts.len() == k + 1);
    if k + 1 == texts.len() {
        assert forall|q: u8| #[trigger] parts.contains_key(q) <==> 1 <= q <= texts.len() by {
            if parts.contains_key(q) && q != number {
                let m = choose|m: int|
                    0 <= m < order.take(k as int).len() && order.take(k as int)[m] == q as int - 1;
                assert(order[m] == q as int - 1);
            }
            if 1 <= q <= texts.len() {
                lemma_order_names_all(order, texts.len(), q as int - 1);
                let m = choose|m: int| 0 <= m < order.len() && order[m] == q as int - 1;
                if m < k {
                    assert(order.take(k as int)[m] == q as int - 1);
                    assert(kept.parts.contains_key(q));
                }
            }
        }
        lemma_joined(texts, parts, 256);
        assert(texts.take(texts.len() as int) =~= texts);
    }
}

/// What is kept of a message that was put together before, or of one in another number of parts,
/// has no bearing on the next message with the same reference.
pub proof fn law_next_message_starts_anew(
    kept: CsmsView,
    data: ConcatenatedSmsData,
    text: Seq<char>,
)
    requires
        kept.finished || kept.total_parts != data.parts,
    ensures
        kept.add_part(data, text) == CsmsView::fresh(data.parts).add_part(data, text),
{
}

/// A part that comes once more does not bring its message nearer to being complete.
pub proof fn law_repeated_part_does_not_count(
    kept: CsmsView,
    data: ConcatenatedSmsData,
    text: Seq<char>,
)
    requires
        kept.total_parts == data.parts,
        !kept.finished,
        kept.parts.dom().finite(),
        kept.parts.contains_key(data.sequence),
    ensures
        kept.add_part(data, text).0.parts.len() == kept.parts.len(),
{
    assert(kept.parts.insert(data.sequence, text).dom() =~= kept.parts.dom());
}

/// Whether nothing that a room keeps has a bearing on a message in so many parts.
pub open spec fn is_clear(kept: StateReplyView, total: nat) -> bool {
    match kept {
        StateReplyView::Found(state) => state.finished || state.total_parts != total,
        StateReplyView::Error(code) => code == Some("M_NOT_FOUND"@),
    }
}

/// What is fetched from a room after `k` parts of a message have come, in this order, where this
/// was there before.
pub open spec fn fetched_after(
    before: StateReplyView,
    texts: Seq<Seq<char>>,
    order: Seq<int>,
    reference: u16,
    k: nat,
) -> StateReplyView {
    if k == 0 {
        before
    } else {
        StateReplyView::Found(kept_after(texts, order, reference, k))
    }
}

/// A message that comes in parts is sent once, when the last of its parts has come, and whole,
/// in whichever order they come: each part before it is only kept, for the next one to be added
/// to.
pub proof fn law_message_in_parts_is_sent_whole(
    before: StateReplyView,
    texts: Seq<Seq<char>>,
    order: Seq<int>,
    reference: u16,
    k: nat,
    state_key: Seq<char>,
)
    requires
        texts.len() <= 255,
        is_order(order, texts.len()),
        k < texts.len(),
        is_clear(before, texts.len()),
    ensures
        fetched_step(
            state_key,
            part_at(reference, texts.len(), order[k as int]),
            texts[order[k as int]],
            fetched_after(before, texts, order, reference, k),
        ) == (SmsStepView::SetState {
            state_key,
            state: kept_after(texts, order, reference, k + 1),
            whole: if k + 1 == texts.len() {
                Some(concat(texts))
            } else {
                None
            },
        }),
{
    law_parts_come_in_any_order(texts, order, reference, k);
    if k == 0 {
        if let StateReplyView::Found(state) = before {
            law_next_message_starts_anew(
                state,
                part_at(reference, texts.len(), order[0]),
                texts[order[0]],
            );
        }
    }
    reveal_with_fuel(kept_after, 2);
}

proof fn lemma_joined_with_last(
    parts: Map<u8, Seq<char>>,
    number: u8,
    text: Seq<char>,
    n: nat,
)
    requires
        n <= 256,
        forall|q: u8| #[trigger] parts.contains_key(q) ==> q < number,
    ensures
        joined_below(parts.insert(number, text), n) == (if n <= number {
            joined_below(parts, n)
        } else {
            joined_below(parts, n) + text
        }),
    decreases n,
{
    if n > 0 {
        lemma_joined_with_last(parts, number, text, (n - 1) as nat);
        let q = (n - 1) as u8;
        let more = parts.insert(number, text);
        assert(more.contains_key(q) <==> parts.contains_key(q) || q == number);
        if q >= number {
            assert(!parts.contains_key(q));
            assert(joined_below(parts, n) =~= joined_below(parts, (n - 1) as nat));
        }
        if q > number {
            assert(joined_below(more, n) =~= joined_below(more, (n - 1) as nat));
        }
    }
}

proof fn lemma_joined_none(n: nat)
    requires
        n <= 256,
    ensures
        joined_below(Map::empty(), n) == Seq::<char>::empty(),
    decreases n,
{
    if n > 0 {
        lemma_joined_none((n - 1) as nat);
        assert(!Map::<u8, Seq<char>>::empty().contains_key((n - 1) as u8));
    }
}

/// Whatever numbers the parts of a message have, the one with the greatest number comes last.
pub proof fn law_parts_are_joined_by_number(
    parts: Map<u8, Seq<char>>,
    number: u8,
    text: Seq<char>,
)
    requires
        forall|q: u8| #[trigger] parts.contains_key(q) ==> q < number,
    ensures
        joined(Map::empty()) == Seq::<char>::empty(),
        joined(parts.insert(number, text)) == joined(parts) + text,
{
    lemma_joined_none(256);
    lemma_joined_with_last(parts, number, text, 256);
}

/// A part is added to those of the same message that have come, in place of one with its number;
/// of a message that was put together before, or that is in another number of parts, none is
/// left. There is a text exactly where no part is missing, by their number, and then the message
/// counts as put together.
pub proof fn law_part_is_added_to_its_message(
    kept: CsmsView,
    data: ConcatenatedSmsData,
    text: Seq<char>,
)
    ensures
        ({
            let (state, whole) = kept.add_part(data, text);
            &&& state.total_parts == data.parts
            &&& state.parts.contains_key(data.sequence) && state.parts[data.sequence] == text
            &&& forall|q: u8|
                q != data.sequence ==> (#[trigger] state.parts.contains_key(q) <==> !kept.finished
                    && kept.total_parts == data.parts && kept.parts.contains_key(q))
            &&& forall|q: u8|
                q != data.sequence && #[trigger] state.parts.contains_key(q) ==> state.parts[q]
                    == kept.parts[q]
            &&& state.finished <==> state.parts.len() >= data.parts
            &&& whole is Some <==> state.finished
            &&& whole matches Some(text) ==> text == joined(state.parts)
        }),
{
}

/// A text that is whole is sent at once. Of a part, whatever message it is of, what the room
/// keeps of that message is fetched first, under a key that only that reference has.
pub proof fn law_every_part_is_looked_up(
    text: Seq<char>,
    data: ConcatenatedSmsData,
    other: ConcatenatedSmsData,
    other_text: Seq<char>,
)
    ensures
        first_step(text, None) == SmsStepView::Send(text),
        first_step(text, Some(data)) == (SmsStepView::GetState {
            state_key: "ref-"@ + decimal(data.reference as nat),
            data,
            text,
        }),
        first_step(text, Some(data))->GetState_state_key == first_step(
            other_text,
            Some(other),
        )->GetState_state_key
            <==> data.reference == other.reference,
{
    let front = "ref-"@;
    let a = decimal(data.reference as nat);
    let b = decimal(other.reference as nat);
    if front + a == front + b {
        assert((front + a).skip(front.len() as int) =~= a);
        assert((front + b).skip(front.len() as int) =~= b);
        law_decimal_is_unique(data.reference as nat, other.reference as nat);
    }
}

/// What is fetched is added to, and kept under the same key; that nothing is there counts as
/// no part having come, and any other error ends the delivery.
pub proof fn law_fetched_parts_are_added_to(
    state_key: Seq<char>,
    data: ConcatenatedSmsData,
    text: Seq<char>,
    state: CsmsView,
    code: Option<Seq<char>>,
)
    ensures
        fetched_step(state_key, data, text, StateReplyView::Found(state))
            == (SmsStepView::SetState {
            state_key,
            state: state.add_part(data, text).0,
            whole: state.add_part(data, text).1,
        }),
        ({
            let none = CsmsView {
                parts: Map::empty(),
                total_parts: data.parts,
                finished: false,
            };
            fetched_step(state_key, data, text, StateReplyView::Error(code)) == (if code == Some(
                "M_NOT_FOUND"@,
            ) {
                SmsStepView::SetState {
                    state_key,
                    state: none.add_part(data, text).0,
                    whole: none.add_part(data, text).1,
                }
            } else {
                SmsStepView::Fail
            })
        }),
        forall|whole: Option<Seq<char>>|
            (#[trigger] kept_step(whole, false)) is Fail && kept_step(whole, true) == (
            match whole {
                Some(text) => SmsStepView::Send(text),
                None => SmsStepView::Done,
            }),
{
}

/// What a room keeps, by key, and what is sent to it, when a text has been delivered and nothing
/// failed.
pub open spec fn delivered(
    room: Map<Seq<char>, CsmsView>,
    text: Seq<char>,
    data: Option<ConcatenatedSmsData>,
) -> (Map<Seq<char>, CsmsView>, Seq<Seq<char>>) {
    match first_step(text, data) {
        SmsStepView::Send(text) => (room, seq![text]),
        SmsStepView::GetState { state_key, data, text } => {
            let reply = if room.contains_key(state_key) {
                StateReplyView::Found(room[state_key])
            } else {
                StateReplyView::Error(Some("M_NOT_FOUND"@))
            };
            match fetched_step(state_key, data, text, reply) {
                SmsStepView::SetState { state_key, state, whole } => (
                    room.insert(state_key, state),
                    match kept_step(whole, true) {
                        SmsStepView::Send(text) => seq![text],
                        _ => seq![],
                    },
                ),
                _ => (room, seq![]),
            }
        },
        _ => (room, seq![]),
    }
}

/// What a room keeps and what has been sent to it after `k` parts of a message have been
/// delivered, in this order.
pub open spec fn delivered_parts(
    room: Map<Seq<char>, CsmsView>,
    texts: Seq<Seq<char>>,
    order: Seq<int>,
    reference: u16,
    k: nat,
) -> (Map<Seq<char>, CsmsView>, Seq<Seq<char>>)
    decreases k,
{
    if k == 0 {
        (room, seq![])
    } else {
        let (before, sent) = delivered_parts(room, texts, order, reference, (k - 1) as nat);
        let i = order[k - 1];
        let data = part_at(reference, texts.len(), i);
        let (after, more) = delivered(before, texts[i], Some(data));
        (after, sent + more)
    }
}

/// Of a message in parts, however many, nothing is sent to the room until the last of them has
/// been delivered, in whichever order they come; and then one message is, made up of all of them
/// in the order of their numbers.
pub proof fn law_parts_become_one_message(
    room: Map<Seq<char>, CsmsView>,
    texts: Seq<Seq<char>>,
    order: Seq<int>,
    reference: u16,
    k: nat,
)
    requires
        1 <= texts.len() <= 255,
        is_order(order, texts.len()),
        k <= texts.len(),
        ({
            let key = "ref-"@ + decimal(reference as nat);
            room.contains_key(key) ==> room[key].finished || room[key].total_parts != texts.len()
        }),
    ensures
        ({
            let (after, sent) = delivered_parts(room, texts, order, reference, k);
            let key = "ref-"@ + decimal(reference as nat);
            &&& sent == (if k == texts.len() {
                seq![concat(texts)]
            } else {
                seq![]
            })
            &&& after == (if k == 0 {
                room
            } else {
                room.insert(key, kept_after(texts, order, reference, k))
            })
        }),
    decreases k,
{
    if k > 0 {
        let j = (k - 1) as nat;
        law_parts_become_one_message(room, texts, order, reference, j);
        let key = "ref-"@ + decimal(reference as nat);
        let (before, sent) = delivered_parts(room, texts, order, reference, j);
        let i = order[j as int];
        let data = part_at(reference, texts.len(), i);
        law_every_part_is_looked_up(texts[i], data, data, texts[i]);
        let first = if room.contains_key(key) {
            StateReplyView::Found(room[key])
        } else {
            StateReplyView::Error(Some("M_NOT_FOUND"@))
        };
        law_message_in_parts_is_sent_whole(first, texts, order, reference, j, key);
        let (after, more) = delivered(before, texts[i], Some(data));
        assert(after == before.insert(key, kept_after(texts, order, reference, k)));
        assert(after =~= room.insert(key, kept_after(texts, order, reference, k)));
        assert(sent + more =~= if k == texts.len() {
            seq![concat(texts)]
        } else {
            seq![]
        });
    }
}

/// Messages with different references do not get mixed up: a part changes nothing that is kept of
/// another message, and a text that is whole changes nothing at all.
pub proof fn law_messages_are_kept_apart(
    room: Map<Seq<char>, CsmsView>,
    text: Seq<char>,
    data: ConcatenatedSmsData,
    other: u16,
)
    requires
        other != data.reference,
    ensures
        ({
            let after = delivered(room, text, Some(data)).0;
            let key = "ref-"@ + decimal(other as nat);
            &&& after.contains_key(key) <==> room.contains_key(key)
            &&& room.contains_key(key) ==> after[key] == room[key]
        }),
        delivered(room, text, None) == (room, seq![text]),
{
    let elsewhere = ConcatenatedSmsData { reference: other, ..data };
    law_every_part_is_looked_up(text, data, elsewhere, text);
}

} // verus!
