//! A session as a chain of records.

use crate::message::{
    EntryView, MessageEntry, MessageRow, MessageView, OpencodeMessage, PartEntry, PartEntryView,
    PartRow,
};
use crate::record::{RecordView, SessionRecord};
use crate::session::OpencodeSession;
use crate::time::Timestamp;
use crate::{message, paths, time};
use vstd::prelude::*;

verus! {

/// A record paired with its position and timestamp.
pub type MaterializedRecord = (SessionRecord, usize, Option<Timestamp>);

/// The record of the message at `i`, which follows the message before it.
pub open spec fn link(messages: Seq<MessageView>, i: int) -> (
    RecordView,
    usize,
    Option<Timestamp>,
) {
    (
        RecordView::Message {
            role: messages[i].role,
            content_blocks: messages[i].content_blocks,
            uuid: Some(messages[i].id),
            parent_uuid: if i == 0 {
                None
            } else {
                Some(messages[i - 1].id)
            },
            is_sidechain: false,
        },
        i as usize,
        Some(messages[i].created_at),
    )
}

/// The records of the messages, each following the one before it.
pub open spec fn chained(messages: Seq<MessageView>) -> Seq<
    (RecordView, usize, Option<Timestamp>),
> {
    Seq::new(messages.len(), |i: int| link(messages, i))
}

/// In the order of time, what stands at `a` comes before what stands at `b`: it has fewer
/// milliseconds or, if both have the same, is listed before it.
pub open spec fn precedes(millis: Seq<i64>, a: int, b: int) -> bool {
    millis[a] < millis[b] || (millis[a] == millis[b] && a < b)
}

/// `order` names each position once, in the order of time.
pub open spec fn is_time_order(order: Seq<int>, millis: Seq<i64>) -> bool {
    &&& order.len() == millis.len()
    &&& forall|i: int| 0 <= i < order.len() ==> 0 <= #[trigger] order[i] < millis.len()
    &&& forall|k: int| 0 <= k < millis.len() ==> #[trigger] order.contains(k)
    &&& forall|i: int, j: int|
        0 <= i < j < order.len() ==> precedes(millis, #[trigger] order[i], #[trigger] order[j])
}

/// The messages in the given order.
pub open spec fn arranged(messages: Seq<MessageView>, order: Seq<int>) -> Seq<MessageView> {
    order.map_values(|k: int| messages[k])
}

/// `sorted` are the messages in the order of time. `millis` are the milliseconds at which they
/// count as created.
pub open spec fn is_sorted_from(
    sorted: Seq<MessageView>,
    messages: Seq<MessageView>,
    millis: Seq<i64>,
) -> bool {
    exists|order: Seq<int>| #[trigger]
        is_time_order(order, millis) && sorted == arranged(messages, order)
}

proof fn lemma_insert_in_time_order(order: Seq<int>, millis: Seq<i64>, more: Seq<i64>, at: int)
    requires
        more.len() == millis.len() + 1,
        more.drop_last() == millis,
        is_time_order(order, millis),
        0 <= at <= order.len(),
        forall|i: int| 0 <= i < at ==> millis[#[trigger] order[i]] <= more.last(),
        forall|i: int| at <= i < order.len() ==> more.last() < millis[#[trigger] order[i]],
    ensures
        is_time_order(order.insert(at, millis.len() as int), more),
{
    let n = millis.len() as int;
    let longer = order.insert(at, n);
    assert(forall|k: int| 0 <= k < n ==> more[k] == millis[k]);
    assert forall|k: int| 0 <= k < more.len() implies #[trigger] longer.contains(k) by {
        if k == n {
            assert(longer[at] == n);
        } else {
            assert(order.contains(k));
            let i = choose|i: int| 0 <= i < order.len() && order[i] == k;
            assert(longer[if i < at { i } else { i + 1 }] == k);
        }
    }
    assert forall|i: int, j: int| 0 <= i < j < longer.len() implies precedes(
        more,
        #[trigger] longer[i],
        #[trigger] longer[j],
    ) by {
        let a = if i < at { i } else { i - 1 };
        let b = if j < at { j } else { j - 1 };
        if i != at && j != at {
            assert(longer[i] == order[a] && longer[j] == order[b]);
        } else if i == at {
            assert(longer[j] == order[b]);
        } else {
            assert(longer[i] == order[a]);
        }
    }
}

/// Puts messages in the order of the milliseconds at which they count as created. Messages of
/// the same milliseconds stay in the order in which they are given.
fn sort_messages(messages: Vec<OpencodeMessage>, millis: Vec<i64>) -> (sorted: Vec<
    OpencodeMessage,
>)
    requires
        millis.len() == messages.len(),
    ensures
        is_sorted_from(sorted.deep_view(), messages.deep_view(), millis@),
{
    let mut sorted: Vec<OpencodeMessage> = Vec::new();
    let mut keys: Vec<i64> = Vec::new();
    let ghost all = messages.deep_view();
    let ghost mut order: Seq<int> = Seq::empty();
    for message in it: messages
        invariant
            all == messages.deep_view(),
            it.seq() == messages@,
            millis.len() == messages.len(),
            sorted.len() == it.index(),
            keys.len() == it.index(),
            is_time_order(order, millis@.take(it.index() as int)),
            keys@ == order.map_values(|k: int| millis@[k]),
            sorted.deep_view() == arranged(all, order),
    {
        let ghost k = it.index() as int;
        let ghost before = sorted.deep_view();
        let ms = millis[sorted.len()];
        let mut at = keys.len();
        while at > 0 && ms < keys[at - 1]
            invariant
                at <= keys.len(),
                forall|i: int| at <= i < keys.len() ==> ms < keys[i],
            decreases at,
        {
            at = at - 1;
        }
        let ghost longer = order.insert(at as int, k);
        proof {
            let some = millis@.take(k);
            let more = millis@.take(k + 1);
            assert(all[k] == message.deep_view());
            assert(more.drop_last() =~= some);
            assert(forall|i: int| 0 <= i < order.len() ==> keys@[i] == some[#[trigger] order[i]]);
            assert forall|i: int| 0 <= i < at implies some[#[trigger] order[i]] <= ms by {
                if i < at - 1 {
                    assert(precedes(some, order[i], order[at - 1]));
                }
                assert(some[order[at - 1]] == keys@[at - 1]);
            }
            lemma_insert_in_time_order(order, some, more, at as int);
            assert(arranged(all, longer) =~= before.insert(at as int, all[k]));
            assert(longer.map_values(|k: int| millis@[k]) =~= keys@.insert(at as int, ms));
        }
        keys.insert(at, ms);
        sorted.insert(at, message);
        assert(sorted.deep_view() =~= before.insert(at as int, all[k]));
        proof {
            order = longer;
        }
    }
    assert(millis@.take(millis@.len() as int) == millis@);
    sorted
}

/// Links every message to the one before it.
///
/// The parent that a message itself names is not used: all turns of an assistant name the same
/// message of the user, which would make no chain.
pub fn chain_messages(messages: Vec<OpencodeMessage>) -> (records: Vec<MaterializedRecord>)
    ensures
        records.deep_view() == chained(messages.deep_view()),
{
    let mut records: Vec<MaterializedRecord> = Vec::new();
    let mut previous: Option<String> = None;
    let ghost all = messages.deep_view();
    for message in it: messages
        invariant
            all == messages.deep_view(),
            it.seq() == messages@,
            records.len() == it.index(),
            records.deep_view() == chained(all).take(it.index() as int),
            previous.deep_view() == if it.index() == 0 {
                None
            } else {
                Some(all[it.index() - 1].id)
            },
    {
        let ghost k = it.index() as int;
        let ghost before = records.deep_view();
        assert(all[k] == message.deep_view());
        let position = records.len();
        let record = SessionRecord::Message {
            role: message.role,
            content_blocks: message.content_blocks,
            uuid: Some(message.id.clone()),
            parent_uuid: previous,
            is_sidechain: false,
        };
        let entry = (record, position, Some(message.created_at));
        records.push(entry);
        assert(records.deep_view() =~= before.push(entry.deep_view()));
        assert(chained(all).take(k + 1) =~= chained(all).take(k).push(link(all, k)));
        previous = Some(message.id);
    }
    assert(chained(all).take(all.len() as int) =~= chained(all));
    records
}

/// `records` are those of the messages that the entries tell, each following the one before it
/// in the order of time.
pub open spec fn materialize(
    records: Seq<(RecordView, usize, Option<Timestamp>)>,
    entries: Seq<EntryView>,
    parts: Seq<PartEntryView>,
) -> bool {
    exists|messages: Seq<MessageView>, sorted: Seq<MessageView>|
        {
            &&& message::tell(messages, entries, parts)
            &&& #[trigger] is_sorted_from(sorted, messages, message::spoken_millis(entries))
            &&& records == chained(sorted)
        }
}

/// The records of the messages that the entries tell, in the order in which these count as
/// created. That need not be the order of the entries.
///
/// A message counts as created at the milliseconds that its JSON text records, if these name an
/// instant, and else at those of its row, even if these name none and the clock has set the
/// instant that it is shown with.
pub fn materialize_entries(entries: Vec<MessageEntry>, parts: Vec<PartEntry>) -> (records: Vec<
    MaterializedRecord,
>)
    ensures
        materialize(records.deep_view(), entries.deep_view(), parts.deep_view()),
{
    let millis = message::created_millis(&entries);
    let messages = message::assemble_messages(entries, parts);
    let sorted = sort_messages(messages, millis);
    chain_messages(sorted)
}

/// Materializes a session as an ordered list of records, from the rows that `MESSAGES_SQL` and
/// `PARTS_SQL` give for it. Returns `None` if the session's path is not that of a session.
pub fn materialize_session(
    session: &OpencodeSession,
    message_rows: Vec<Option<MessageRow>>,
    part_rows: Vec<Option<PartRow>>,
) -> (materialized: Option<(String, Vec<MaterializedRecord>)>)
    ensures
        match materialized {
            Some(materialized) => {
                &&& exists|db_path: Seq<char>, session_id: Seq<char>|
                    paths::is_path_of(session.session_file@, db_path, session_id)
                &&& materialized.0@ == session.id@
                &&& materialize(
                    materialized.1.deep_view(),
                    message::entries_of(message_rows.deep_view()),
                    message::part_entries_of(part_rows.deep_view()),
                )
            },
            None => forall|db_path: Seq<char>, session_id: Seq<char>|
                !paths::is_path_of(session.session_file@, db_path, session_id),
        },
{
    if paths::parse_session_path(session.session_file.as_str()).is_none() {
        return None;
    }
    let parts = message::read_part_entries(part_rows);
    let entries = message::read_entries(message_rows);
    let records = materialize_entries(entries, parts);
    Some((session.id.clone(), records))
}

/// Sorting loses no message and makes up none.
pub proof fn law_sorting_keeps_the_messages(
    sorted: Seq<MessageView>,
    messages: Seq<MessageView>,
    millis: Seq<i64>,
    message: MessageView,
)
    requires
        millis.len() == messages.len(),
        is_sorted_from(sorted, messages, millis),
    ensures
        sorted.len() == messages.len(),
        sorted.contains(message) <==> messages.contains(message),
{
    let order = choose|order: Seq<int>| #[trigger]
        is_time_order(order, millis) && sorted == arranged(messages, order);
    if messages.contains(message) {
        let k = choose|k: int| 0 <= k < messages.len() && messages[k] == message;
        assert(order.contains(k));
        let i = choose|i: int| 0 <= i < order.len() && order[i] == k;
        assert(sorted[i] == message);
    }
    if sorted.contains(message) {
        let i = choose|i: int| 0 <= i < sorted.len() && sorted[i] == message;
        assert(messages[order[i]] == message);
    }
}

/// There is one way to sort messages.
pub proof fn law_sorting_is_settled(
    a: Seq<MessageView>,
    b: Seq<MessageView>,
    messages: Seq<MessageView>,
    millis: Seq<i64>,
)
    requires
        is_sorted_from(a, messages, millis),
        is_sorted_from(b, messages, millis),
    ensures
        a == b,
{
    let order_a = choose|order: Seq<int>| #[trigger]
        is_time_order(order, millis) && a == arranged(messages, order);
    let order_b = choose|order: Seq<int>| #[trigger]
        is_time_order(order, millis) && b == arranged(messages, order);
    lemma_time_orders_agree(order_a, order_b, millis, millis.len() as int);
    assert(order_a =~= order_b);
}

proof fn lemma_time_orders_agree(a: Seq<int>, b: Seq<int>, millis: Seq<i64>, n: int)
    requires
        is_time_order(a, millis),
        is_time_order(b, millis),
        0 <= n <= millis.len(),
    ensures
        forall|i: int| 0 <= i < n ==> a[i] == b[i],
    decreases n,
{
    if n > 0 {
        let last = n - 1;
        lemma_time_orders_agree(a, b, millis, last);
        assert(b.contains(a[last]));
        let j = choose|j: int| 0 <= j < b.len() && b[j] == a[last];
        assert(a.contains(b[last]));
        let i = choose|i: int| 0 <= i < a.len() && a[i] == b[last];
        if j < last {
            assert(precedes(millis, a[j], a[last]));
        }
        if i < last {
            assert(precedes(millis, b[i], b[last]));
        }
        if j > last && i > last {
            assert(precedes(millis, a[last], a[i]));
            assert(precedes(millis, b[last], b[j]));
        }
    }
}

/// A session is materialized in chronological order: of two records whose messages fix their
/// instants, the later one is of no earlier instant.
pub proof fn law_chain_is_chronological(
    messages: Seq<MessageView>,
    entries: Seq<EntryView>,
    parts: Seq<PartEntryView>,
    order: Seq<int>,
    i: int,
    j: int,
)
    requires
        message::tell(messages, entries, parts),
        is_time_order(order, message::spoken_millis(entries)),
        0 <= i <= j < order.len(),
        message::fixes_instant(message::speaking(entries)[order[i]]),
        message::fixes_instant(message::speaking(entries)[order[j]]),
    ensures
        chained(arranged(messages, order))[i].2 matches Some(earlier)
            && chained(arranged(messages, order))[j].2 matches Some(later)
            && earlier.total_nanos() <= later.total_nanos(),
{
    let spoken = message::speaking(entries);
    let millis = message::spoken_millis(entries);
    let a = order[i];
    let b = order[j];
    assert(message::tells(messages[a], spoken[a], message::blocks_at(spoken, a, parts)));
    assert(message::tells(messages[b], spoken[b], message::blocks_at(spoken, b, parts)));
    if i < j {
        assert(precedes(millis, a, b));
    }
    time::law_counted_millis_name_the_instant(spoken[a].meta.created, spoken[a].time_created);
    time::law_counted_millis_name_the_instant(spoken[b].meta.created, spoken[b].time_created);
    time::law_millis_order(millis[b], millis[a]);
}

/// Messages that are in the order of time already stay as they are.
pub proof fn law_chronological_messages_keep_their_order(
    sorted: Seq<MessageView>,
    messages: Seq<MessageView>,
    millis: Seq<i64>,
)
    requires
        millis.len() == messages.len(),
        is_sorted_from(sorted, messages, millis),
        forall|i: int, j: int| 0 <= i < j < millis.len() ==> millis[i] <= millis[j],
    ensures
        sorted == messages,
{
    let order = Seq::new(messages.len(), |i: int| i);
    assert forall|k: int| 0 <= k < messages.len() implies #[trigger] order.contains(k) by {
        assert(order[k] == k);
    }
    assert(is_time_order(order, millis));
    assert(arranged(messages, order) =~= messages);
    law_sorting_is_settled(sorted, messages, messages, millis);
}

/// The uuid of a record.
pub open spec fn uuid(record: RecordView) -> Option<Seq<char>> {
    match record {
        RecordView::Message { uuid, .. } => uuid,
    }
}

/// The uuid of the record that a record follows.
pub open spec fn parent_uuid(record: RecordView) -> Option<Seq<char>> {
    match record {
        RecordView::Message { parent_uuid, .. } => parent_uuid,
    }
}

/// The chain is linear: the first record follows none, and each other one follows the record
/// right before it.
pub proof fn law_chain_is_linear(messages: Seq<MessageView>, i: int)
    requires
        0 <= i < messages.len(),
    ensures
        chained(messages).len() == messages.len(),
        uuid(chained(messages)[i].0) == Some(messages[i].id),
        parent_uuid(chained(messages)[0].0) is None,
        i > 0 ==> parent_uuid(chained(messages)[i].0) == uuid(chained(messages)[i - 1].0),
{
}

/// The chain rests on the order of the messages, not on the parents that they name.
pub proof fn law_chain_ignores_recorded_parents(a: Seq<MessageView>, b: Seq<MessageView>)
    requires
        a.len() == b.len(),
        forall|i: int|
            0 <= i < a.len() ==> #[trigger] a[i] == (MessageView {
                parent_id: a[i].parent_id,
                ..b[i]
            }),
    ensures
        chained(a) == chained(b),
{
    assert forall|i: int| 0 <= i < a.len() implies chained(a)[i] == chained(b)[i] by {
        assert(a[i].id == b[i].id);
        if i > 0 {
            assert(a[i - 1].id == b[i - 1].id);
        }
    }
    assert(chained(a) =~= chained(b));
}

/// Each record carries its message: the role, all content blocks, the id and the instant, with
/// its place in the chain. The first one follows none, each other one the message right before
/// it, and none is a sidechain.
pub proof fn law_records_carry_their_messages(messages: Seq<MessageView>, i: int)
    requires
        0 <= i < messages.len(),
    ensures
        chained(messages).len() == messages.len(),
        chained(messages)[i].0->role == messages[i].role,
        chained(messages)[i].0->content_blocks == messages[i].content_blocks,
        chained(messages)[i].0->uuid == Some(messages[i].id),
        i == 0 ==> chained(messages)[i].0->parent_uuid is None,
        i > 0 ==> chained(messages)[i].0->parent_uuid == Some(messages[i - 1].id),
        !chained(messages)[i].0->is_sidechain,
        i <= usize::MAX ==> chained(messages)[i].1 == i,
        chained(messages)[i].2 == Some(messages[i].created_at),
{
}

/// A session is materialized with one record for each message that its entries tell. The
/// records stand in the order of the milliseconds that count for the entries, those of the same
/// milliseconds in the order of the entries, and each carries its message and follows the record
/// before it. The messages and their places in that order are what is returned.
pub proof fn law_sessions_are_materialized_in_order(
    records: Seq<(RecordView, usize, Option<Timestamp>)>,
    entries: Seq<EntryView>,
    parts: Seq<PartEntryView>,
) -> (told: (Seq<MessageView>, Seq<int>))
    requires
        materialize(records, entries, parts),
    ensures
        message::tell(told.0, entries, parts),
        records.len() == message::speaking(entries).len(),
        told.0.len() == records.len(),
        told.1.len() == records.len(),
        forall|i: int| 0 <= i < records.len() ==> 0 <= #[trigger] told.1[i] < told.0.len(),
        forall|k: int| 0 <= k < records.len() ==> #[trigger] told.1.contains(k),
        forall|i: int, j: int|
            0 <= i < j < records.len() ==> {
                let a = message::speaking(entries)[#[trigger] told.1[i]];
                let b = message::speaking(entries)[#[trigger] told.1[j]];
                let early = time::counted_millis(a.meta.created, a.time_created);
                let late = time::counted_millis(b.meta.created, b.time_created);
                early < late || (early == late && told.1[i] < told.1[j])
            },
        forall|i: int|
            0 <= i < records.len() ==> {
                let message = told.0[told.1[i]];
                &&& (#[trigger] records[i]).0->role == message.role
                &&& records[i].0->content_blocks == message.content_blocks
                &&& records[i].0->uuid == Some(message.id)
                &&& i == 0 ==> records[i].0->parent_uuid is None
                &&& i > 0 ==> records[i].0->parent_uuid == Some(told.0[told.1[i - 1]].id)
                &&& !records[i].0->is_sidechain
                &&& i <= usize::MAX ==> records[i].1 == i
                &&& records[i].2 == Some(message.created_at)
            },
{
    let millis = message::spoken_millis(entries);
    let (messages, sorted) = choose|messages: Seq<MessageView>, sorted: Seq<MessageView>|
        {
            &&& message::tell(messages, entries, parts)
            &&& #[trigger] is_sorted_from(sorted, messages, millis)
            &&& records == chained(sorted)
        };
    let order = choose|order: Seq<int>| #[trigger]
        is_time_order(order, millis) && sorted == arranged(messages, order);
    assert forall|i: int, j: int| 0 <= i < j < records.len() implies {
        let a = message::speaking(entries)[#[trigger] order[i]];
        let b = message::speaking(entries)[#[trigger] order[j]];
        let early = time::counted_millis(a.meta.created, a.time_created);
        let late = time::counted_millis(b.meta.created, b.time_created);
        early < late || (early == late && order[i] < order[j])
    } by {
        assert(precedes(millis, order[i], order[j]));
    }
    (messages, order)
}

} // verus!
