//! The messages of a session.

use crate::buckets::Buckets;
use crate::part::{Part, PartView};
use crate::record::{BlockView, ContentBlock, MessageRole};
use crate::time::Timestamp;
use crate::{json, order, part, text, time};
use vstd::prelude::*;

verus! {

/// A row of the `message` table.
#[derive(Debug, Clone, PartialEq, Eq)]
pub struct MessageRow {
    pub id: String,
    pub session_id: String,
    pub time_created: i64,
    pub data: String,
}

/// A row of the `part` table, without the columns that only order the rows.
#[derive(Debug, Clone, PartialEq, Eq)]
pub struct PartRow {
    pub message_id: String,
    pub data: String,
}

/// The rows of the messages of one session, in the order of their creation.
pub const MESSAGES_SQL: &'static str = "SELECT id, session_id, data, time_created FROM message WHERE session_id = ?1 ORDER BY time_created ASC, id ASC";

/// The rows of the parts of one session, by message and in the order of their creation.
pub const PARTS_SQL: &'static str = "SELECT message_id, data FROM part WHERE session_id = ?1 ORDER BY message_id ASC, time_created ASC, id ASC";

/// The row of one message.
pub const MESSAGE_SQL: &'static str = "SELECT data, time_created FROM message WHERE id = ?1";

/// What the JSON document of a message says.
#[derive(Debug, Clone, PartialEq, Eq)]
pub struct MessageMeta {
    /// The string under `role`.
    pub role: Option<String>,
    /// The string under `parentID`.
    pub parent_id: Option<String>,
    /// The milliseconds under `created`, under `time`.
    pub created: Option<i64>,
}

/// A row of the `message` table with its JSON document read.
#[derive(Debug, Clone, PartialEq, Eq)]
pub struct MessageEntry {
    pub id: String,
    pub session_id: String,
    pub time_created: i64,
    pub meta: MessageMeta,
}

/// A row of the `part` table with its JSON document read.
#[derive(Debug, Clone, PartialEq, Eq)]
pub struct PartEntry {
    pub message_id: String,
    pub part: Part,
}

/// A single rendered message from an Opencode session.
#[derive(Debug, Clone, PartialEq, Eq)]
pub struct OpencodeMessage {
    pub id: String,
    pub session_id: String,
    pub role: MessageRole,
    pub parent_id: Option<String>,
    pub created_at: Timestamp,
    pub content_blocks: Vec<ContentBlock>,
}

/// What a `MessageRow` stands for.
pub struct MessageRowView {
    pub id: Seq<char>,
    pub session_id: Seq<char>,
    pub time_created: i64,
    pub data: Seq<char>,
}

/// What a `PartRow` stands for.
pub struct PartRowView {
    pub message_id: Seq<char>,
    pub data: Seq<char>,
}

/// What a `MessageMeta` stands for.
pub struct MetaView {
    pub role: Option<Seq<char>>,
    pub parent_id: Option<Seq<char>>,
    pub created: Option<i64>,
}

/// What a `MessageEntry` stands for.
pub struct EntryView {
    pub id: Seq<char>,
    pub session_id: Seq<char>,
    pub time_created: i64,
    pub meta: MetaView,
}

/// What a `PartEntry` stands for.
pub struct PartEntryView {
    pub message_id: Seq<char>,
    pub part: PartView,
}

/// What an `OpencodeMessage` stands for.
pub struct MessageView {
    pub id: Seq<char>,
    pub session_id: Seq<char>,
    pub role: MessageRole,
    pub parent_id: Option<Seq<char>>,
    pub created_at: Timestamp,
    pub content_blocks: Seq<BlockView>,
}

impl DeepView for MessageRow {
    type V = MessageRowView;

    open spec fn deep_view(&self) -> MessageRowView {
        MessageRowView {
            id: self.id@,
            session_id: self.session_id@,
            time_created: self.time_created,
            data: self.data@,
        }
    }
}

impl DeepView for PartRow {
    type V = PartRowView;

    open spec fn deep_view(&self) -> PartRowView {
        PartRowView { message_id: self.message_id@, data: self.data@ }
    }
}

impl DeepView for MessageMeta {
    type V = MetaView;

    open spec fn deep_view(&self) -> MetaView {
        MetaView {
            role: self.role.deep_view(),
            parent_id: self.parent_id.deep_view(),
            created: self.created,
        }
    }
}

impl DeepView for MessageEntry {
    type V = EntryView;

    open spec fn deep_view(&self) -> EntryView {
        EntryView {
            id: self.id@,
            session_id: self.session_id@,
            time_created: self.time_created,
            meta: self.meta.deep_view(),
        }
    }
}

impl DeepView for PartEntry {
    type V = PartEntryView;

    open spec fn deep_view(&self) -> PartEntryView {
        PartEntryView { message_id: self.message_id@, part: self.part.deep_view() }
    }
}

impl DeepView for OpencodeMessage {
    type V = MessageView;

    open spec fn deep_view(&self) -> MessageView {
        MessageView {
            id: self.id@,
            session_id: self.session_id@,
            role: self.role,
            parent_id: self.parent_id.deep_view(),
            created_at: self.created_at,
            content_blocks: self.content_blocks.deep_view(),
        }
    }
}

/// What the document of a message says, which holds `held`.
pub open spec fn meta_in(held: Map<Seq<Seq<char>>, json::Node>) -> MetaView {
    MetaView {
        role: json::string_at(held, seq!["role"@]),
        parent_id: json::string_at(held, seq!["parentID"@]),
        created: json::integer_at(held, seq!["time"@, "created"@]),
    }
}

/// What a text says of a message, if the text is a JSON document.
pub open spec fn meta_written(data: Seq<char>) -> Option<MetaView> {
    match json::parsed(data) {
        Some(held) => Some(meta_in(held)),
        None => None,
    }
}

/// Reads what a document says of a message.
pub(crate) fn read_meta(document: &serde_json::Value) -> (meta: MessageMeta)
    ensures
        meta.deep_view() == meta_in(json::contents(*document)),
{
    let created = match json::get(document, "time") {
        Some(time) => json::get_integer(time, "created"),
        None => None,
    };
    proof {
        let held = json::contents(*document);
        assert(seq!["time"@] + seq!["created"@] =~= seq!["time"@, "created"@]);
        assert(json::under(held, "time"@).contains_key(seq!["created"@]) == held.contains_key(
            seq!["time"@, "created"@],
        ));
    }
    MessageMeta {
        role: json::get_string(document, "role"),
        parent_id: json::get_string(document, "parentID"),
        created,
    }
}

/// Reads what a message's `data` column says. `None` if that is no JSON document.
pub fn parse_meta(data: &str) -> (meta: Option<MessageMeta>)
    ensures
        meta.deep_view() == meta_written(data@),
{
    match json::parse(data) {
        Some(document) => Some(read_meta(&document)),
        None => None,
    }
}

/// The role of that name. Only users and assistants speak.
pub open spec fn role_named(name: Option<Seq<char>>) -> Option<MessageRole> {
    if name == Some("user"@) {
        Some(MessageRole::User)
    } else if name == Some("assistant"@) {
        Some(MessageRole::Assistant)
    } else {
        None
    }
}

/// The role that a message names, if it is one that is shown.
pub fn message_role(meta: &MessageMeta) -> (role: Option<MessageRole>)
    ensures
        role == role_named(meta.deep_view().role),
{
    let Some(name) = &meta.role else {
        return None;
    };
    if text::same(name.as_str(), "user") {
        proof {
            reveal_strlit("user");
            reveal_strlit("assistant");
        }
        Some(MessageRole::User)
    } else if text::same(name.as_str(), "assistant") {
        Some(MessageRole::Assistant)
    } else {
        None
    }
}

/// The entry of a row. A row that could not be read, or whose text is no JSON document, has
/// none.
pub open spec fn entry_of(row: Option<MessageRowView>) -> Option<EntryView> {
    if row is Some && meta_written(row->0.data) is Some {
        Some(
            EntryView {
                id: row->0.id,
                session_id: row->0.session_id,
                time_created: row->0.time_created,
                meta: meta_written(row->0.data)->0,
            },
        )
    } else {
        None
    }
}

/// The entry of a part's row. A row that could not be read, or whose text is no JSON
/// document, has none.
pub open spec fn part_entry_of(row: Option<PartRowView>) -> Option<PartEntryView> {
    if row is Some && part::part_written(row->0.data) is Some {
        Some(
            PartEntryView {
                message_id: row->0.message_id,
                part: part::part_written(row->0.data)->0,
            },
        )
    } else {
        None
    }
}

/// The entries of the rows, in their order.
pub open spec fn entries_of(rows: Seq<Option<MessageRowView>>) -> Seq<EntryView> {
    rows.filter_map(|row: Option<MessageRowView>| entry_of(row))
}

/// The entries of the parts' rows, in their order.
pub open spec fn part_entries_of(rows: Seq<Option<PartRowView>>) -> Seq<PartEntryView> {
    rows.filter_map(|row: Option<PartRowView>| part_entry_of(row))
}

/// The blocks that the parts of the message `id` show, in the order of the parts.
pub open spec fn blocks_of(id: Seq<char>, parts: Seq<PartEntryView>) -> Seq<BlockView> {
    parts.flat_map(
        |entry: PartEntryView|
            if entry.message_id == id {
                part::part_blocks(entry.part)
            } else {
                Seq::empty()
            },
    )
}

/// The entries of users and assistants, in their order.
pub open spec fn speaking(entries: Seq<EntryView>) -> Seq<EntryView> {
    entries.filter(|entry: EntryView| role_named(entry.meta.role) is Some)
}

/// The milliseconds since 1970 at which an entry counts as created, which may be none that
/// name an instant.
pub open spec fn millis_of(entry: EntryView) -> i64 {
    time::counted_millis(entry.meta.created, entry.time_created)
}

/// The milliseconds at which the entries of users and assistants count as created, in the order
/// of the entries.
pub open spec fn spoken_millis(entries: Seq<EntryView>) -> Seq<i64> {
    speaking(entries).map_values(|entry: EntryView| millis_of(entry))
}

/// One of the entries bears `id`.
pub open spec fn names(entries: Seq<EntryView>, id: Seq<char>) -> bool {
    exists|i: int| 0 <= i < entries.len() && (#[trigger] entries[i]).id == id
}

/// The blocks that the entry at `i` is shown with. Should several entries bear one id, the
/// first has the blocks of that id and the others have none.
pub open spec fn blocks_at(
    spoken: Seq<EntryView>,
    i: int,
    parts: Seq<PartEntryView>,
) -> Seq<BlockView> {
    if names(spoken.take(i), spoken[i].id) {
        Seq::empty()
    } else {
        blocks_of(spoken[i].id, parts)
    }
}

/// `message` is what `entry` says, shown with `blocks`.
pub open spec fn tells(message: MessageView, entry: EntryView, blocks: Seq<BlockView>) -> bool {
    &&& message.id == entry.id
    &&& message.session_id == entry.session_id
    &&& role_named(entry.meta.role) == Some(message.role)
    &&& message.parent_id == entry.meta.parent_id
    &&& time::settles(
        message.created_at,
        time::fixed_instant(entry.meta.created, entry.time_created),
    )
    &&& message.content_blocks == blocks
}

/// `messages` are what the entries of users and assistants say, one for each and in their
/// order, shown with the blocks of their parts.
pub open spec fn tell(
    messages: Seq<MessageView>,
    entries: Seq<EntryView>,
    parts: Seq<PartEntryView>,
) -> bool {
    &&& messages.len() == speaking(entries).len()
    &&& forall|i: int|
        0 <= i < messages.len() ==> tells(
            #[trigger] messages[i],
            speaking(entries)[i],
            blocks_at(speaking(entries), i, parts),
        )
}

/// Gathers the blocks of the parts by message.
fn gather(parts: Vec<PartEntry>) -> (buckets: Buckets)
    ensures
        buckets.valid(),
        forall|id: Seq<char>| #[trigger] buckets.of(id) == blocks_of(id, parts.deep_view()),
{
    let mut buckets = Buckets::new();
    let ghost all = parts.deep_view();
    for entry in it: parts
        invariant
            all == parts.deep_view(),
            it.seq() == parts@,
            buckets.valid(),
            forall|id: Seq<char>| #[trigger]
                buckets.of(id) == blocks_of(id, all.take(it.index() as int)),
    {
        let ghost k = it.index() as int;
        proof {
            assert(all[k] == entry.deep_view());
            assert forall|id: Seq<char>| true implies #[trigger] blocks_of(id, all.take(k + 1))
                == blocks_of(id, all.take(k)) + if entry.message_id@ == id {
                part::part_blocks(entry.part.deep_view())
            } else {
                Seq::empty()
            } by {
                all.lemma_flat_map_take_append(
                    |entry: PartEntryView|
                        if entry.message_id == id {
                            part::part_blocks(entry.part)
                        } else {
                            Seq::empty()
                        },
                    k,
                );
            }
        }
        let ghost before = buckets;
        buckets.add_part(entry.message_id, &entry.part);
        proof {
            assert forall|id: Seq<char>| #[trigger]
                buckets.of(id) == blocks_of(id, all.take(k + 1)) by {
                assert(before.of(id) == blocks_of(id, all.take(k)));
            }
        }
    }
    assert(all.take(all.len() as int) == all);
    buckets
}

/// The role and the instant of a message. `now` stands in for the instant where the message
/// records none. `None` unless a user or an assistant speaks.
pub fn role_and_time(meta: &MessageMeta, time_created: i64, now: Timestamp) -> (found: Option<
    (MessageRole, Timestamp),
>)
    ensures
        found == match role_named(meta.deep_view().role) {
            Some(role) => Some(
                (role, time::instant_or(time::fixed_instant(meta.created, time_created), now)),
            ),
            None => None,
        },
{
    let role = message_role(meta)?;
    let instant = match time::recorded_instant(meta.created, time_created) {
        Some(instant) => instant,
        None => now,
    };
    Some((role, instant))
}

/// The message of an entry, shown with `blocks`. `now` stands in for the instant where the
/// entry records none. `None` unless a user or an assistant speaks.
pub fn message_of(entry: MessageEntry, blocks: Vec<ContentBlock>, now: Timestamp) -> (message:
    Option<OpencodeMessage>)
    ensures
        match message {
            Some(message) => {
                let entry = entry.deep_view();
                let fixed = time::fixed_instant(entry.meta.created, entry.time_created);
                &&& role_named(entry.meta.role) is Some
                &&& message.deep_view() == MessageView {
                    id: entry.id,
                    session_id: entry.session_id,
                    role: role_named(entry.meta.role)->0,
                    parent_id: entry.meta.parent_id,
                    created_at: time::instant_or(fixed, now),
                    content_blocks: blocks.deep_view(),
                }
            },
            None => role_named(entry.deep_view().meta.role) is None,
        },
{
    let (role, created_at) = role_and_time(&entry.meta, entry.time_created, now)?;
    Some(
        OpencodeMessage {
            id: entry.id,
            session_id: entry.session_id,
            role,
            parent_id: entry.meta.parent_id,
            created_at,
            content_blocks: blocks,
        },
    )
}

/// The milliseconds at which the messages that the entries tell count as created.
pub fn created_millis(entries: &Vec<MessageEntry>) -> (millis: Vec<i64>)
    ensures
        millis@ == spoken_millis(entries.deep_view()),
{
    let mut millis: Vec<i64> = Vec::new();
    let ghost all = entries.deep_view();
    for i in 0..entries.len()
        invariant
            all == entries.deep_view(),
            millis@ == spoken_millis(all.take(i as int)),
    {
        let entry = &entries[i];
        proof {
            assert(all[i as int] == entry.deep_view());
            assert(all.take(i + 1).drop_last() =~= all.take(i as int));
            reveal(Seq::filter);
        }
        if message_role(&entry.meta).is_some() {
            millis.push(time::recorded_millis(entry.meta.created, entry.time_created));
        }
        assert(millis@ =~= spoken_millis(all.take(i + 1)));
    }
    assert(all.take(all.len() as int) == all);
    millis
}

/// The messages that the entries tell, shown with the blocks of their parts.
///
/// Entries of other roles than user and assistant are left out.
pub fn assemble_messages(entries: Vec<MessageEntry>, parts: Vec<PartEntry>) -> (messages: Vec<
    OpencodeMessage,
>)
    ensures
        tell(messages.deep_view(), entries.deep_view(), parts.deep_view()),
{
    let mut buckets = gather(parts);
    let mut messages: Vec<OpencodeMessage> = Vec::new();
    let ghost all = entries.deep_view();
    let ghost parts = parts.deep_view();
    for entry in it: entries
        invariant
            all == entries.deep_view(),
            it.seq() == entries@,
            buckets.valid(),
            tell(messages.deep_view(), all.take(it.index() as int), parts),
            forall|id: Seq<char>| #[trigger]
                buckets.of(id) == if names(speaking(all.take(it.index() as int)), id) {
                    Seq::empty()
                } else {
                    blocks_of(id, parts)
                },
    {
        let ghost k = it.index() as int;
        let ghost spoken = speaking(all.take(k));
        let ghost view = entry.deep_view();
        proof {
            assert(all[k] == view);
            assert(all.take(k + 1).drop_last() =~= all.take(k));
            reveal(Seq::filter);
            assert(speaking(all.take(k + 1)) == if role_named(view.meta.role) is Some {
                spoken.push(view)
            } else {
                spoken
            });
        }
        if message_role(&entry.meta).is_some() {
            let ghost more = spoken.push(view);
            proof {
                assert(more[spoken.len() as int] == view);
                assert(more.take(spoken.len() as int) =~= spoken);
                assert forall|id: Seq<char>| #[trigger]
                    names(more, id) == (names(spoken, id) || view.id == id) by {
                    if names(spoken, id) {
                        let i = choose|i: int|
                            0 <= i < spoken.len() && (#[trigger] spoken[i]).id == id;
                        assert(more[i].id == id);
                    }
                }
                assert forall|i: int| 0 <= i < spoken.len() implies #[trigger] blocks_at(
                    more,
                    i,
                    parts,
                ) == blocks_at(spoken, i, parts) by {
                    assert(more.take(i) =~= spoken.take(i));
                }
            }
            let fixed = time::recorded_instant(entry.meta.created, entry.time_created);
            let ghost before = messages.deep_view();
            let blocks = buckets.remove(entry.id.as_str());
            let now = time::instant_or_now(fixed);
            if let Some(message) = message_of(entry, blocks, now) {
                messages.push(message);
                assert(messages.deep_view() =~= before.push(message.deep_view()));
            }
        }
    }
    assert(all.take(all.len() as int) == all);
    messages
}

/// Reads the entries of the rows.
pub fn read_entries(rows: Vec<Option<MessageRow>>) -> (entries: Vec<MessageEntry>)
    ensures
        entries.deep_view() == entries_of(rows.deep_view()),
{
    let mut entries: Vec<MessageEntry> = Vec::new();
    let ghost all = rows.deep_view();
    for row in it: rows
        invariant
            all == rows.deep_view(),
            it.seq() == rows@,
            entries.deep_view() == entries_of(all.take(it.index() as int)),
    {
        let ghost before = entries.deep_view();
        proof {
            assert(all[it.index() as int] == row.deep_view());
            all.lemma_filter_map_take_succ(
                |row: Option<MessageRowView>| entry_of(row),
                it.index() as int,
            );
        }
        if let Some(row) = row {
            if let Some(meta) = parse_meta(row.data.as_str()) {
                let entry = MessageEntry {
                    id: row.id,
                    session_id: row.session_id,
                    time_created: row.time_created,
                    meta,
                };
                entries.push(entry);
                assert(entries.deep_view() =~= before + seq![entry.deep_view()]);
            }
        }
    }
    assert(all.take(all.len() as int) == all);
    entries
}

/// Reads the entries of the parts' rows.
pub fn read_part_entries(rows: Vec<Option<PartRow>>) -> (entries: Vec<PartEntry>)
    ensures
        entries.deep_view() == part_entries_of(rows.deep_view()),
{
    let mut entries: Vec<PartEntry> = Vec::new();
    let ghost all = rows.deep_view();
    for row in it: rows
        invariant
            all == rows.deep_view(),
            it.seq() == rows@,
            entries.deep_view() == part_entries_of(all.take(it.index() as int)),
    {
        let ghost before = entries.deep_view();
        proof {
            assert(all[it.index() as int] == row.deep_view());
            all.lemma_filter_map_take_succ(
                |row: Option<PartRowView>| part_entry_of(row),
                it.index() as int,
            );
        }
        if let Some(row) = row {
            if let Some(part) = part::parse_part(row.data.as_str()) {
                let entry = PartEntry { message_id: row.message_id, part };
                entries.push(entry);
                assert(entries.deep_view() =~= before + seq![entry.deep_view()]);
            }
        }
    }
    assert(all.take(all.len() as int) == all);
    entries
}

/// Loads the messages of a session from the rows that `MESSAGES_SQL` and `PARTS_SQL` give for
/// it. A row that could not be read stands as `None` and is left out.
///
/// The messages come in the order of their rows, and the blocks within a message in the order
/// of the parts' rows.
pub fn load_messages(
    message_rows: Vec<Option<MessageRow>>,
    part_rows: Vec<Option<PartRow>>,
) -> (messages: Vec<OpencodeMessage>)
    ensures
        tell(
            messages.deep_view(),
            entries_of(message_rows.deep_view()),
            part_entries_of(part_rows.deep_view()),
        ),
{
    let parts = read_part_entries(part_rows);
    let entries = read_entries(message_rows);
    assemble_messages(entries, parts)
}

/// The role and the instant of a message, from the `data` and `time_created` columns of its
/// row and without its parts. `None` if the data is no JSON document or names no role that
/// is shown.
pub fn read_message_role_and_time(data: &str, time_created: i64) -> (found: Option<
    (MessageRole, Timestamp),
>)
    ensures
        match found {
            Some(found) => {
                &&& meta_written(data@) is Some
                &&& role_named(meta_written(data@)->0.role) == Some(found.0)
                &&& time::settles(
                    found.1,
                    time::fixed_instant(meta_written(data@)->0.created, time_created),
                )
            },
            None => meta_written(data@) is None || role_named(meta_written(data@)->0.role) is None,
        },
{
    let meta = parse_meta(data)?;
    if message_role(&meta).is_none() {
        return None;
    }
    let now = time::instant_or_now(time::recorded_instant(meta.created, time_created));
    role_and_time(&meta, time_created, now)
}

/// A message that is looked up by itself has the role that it is loaded with and, if it
/// records an instant, that instant.
pub proof fn law_lookup_agrees_with_load(
    row: MessageRowView,
    message: MessageView,
    blocks: Seq<BlockView>,
    role: MessageRole,
    instant: Timestamp,
)
    requires
        entry_of(Some(row)) is Some,
        tells(message, entry_of(Some(row))->0, blocks),
        role_named(meta_written(row.data)->0.role) == Some(role),
        time::settles(
            instant,
            time::fixed_instant(meta_written(row.data)->0.created, row.time_created),
        ),
    ensures
        message.role == role,
        time::fixed_instant(meta_written(row.data)->0.created, row.time_created) is Some
            ==> message.created_at == instant,
{
}

/// A message that is looked up by itself is found exactly if it has an entry and its entry is
/// one of those that are shown.
pub proof fn law_lookup_finds_what_is_loaded(row: MessageRowView)
    ensures
        (meta_written(row.data) is Some && role_named(meta_written(row.data)->0.role) is Some)
            == (speaking(entries_of(seq![Some(row)])).len() == 1),
{
    let rows = seq![Some(row)];
    assert(rows.drop_last() =~= Seq::<Option<MessageRowView>>::empty());
    reveal_with_fuel(Seq::filter_map, 2);
    reveal_with_fuel(Seq::filter, 2);
    if entry_of(Some(row)) is Some {
        let entry = entry_of(Some(row))->0;
        assert(entries_of(rows) =~= seq![entry]);
        assert(seq![entry].drop_last() =~= Seq::<EntryView>::empty());
        assert(seq![entry].last() == entry);
    } else {
        assert(entries_of(rows) =~= Seq::<EntryView>::empty());
    }
}

/// No block is shown twice: of two messages with one id, the later has no blocks.
pub proof fn law_blocks_are_shown_once(
    messages: Seq<MessageView>,
    entries: Seq<EntryView>,
    parts: Seq<PartEntryView>,
    i: int,
    j: int,
)
    requires
        tell(messages, entries, parts),
        0 <= i < j < messages.len(),
        messages[i].id == messages[j].id,
    ensures
        messages[j].content_blocks == Seq::<BlockView>::empty(),
{
    let spoken = speaking(entries);
    assert(tells(messages[i], spoken[i], blocks_at(spoken, i, parts)));
    assert(tells(messages[j], spoken[j], blocks_at(spoken, j, parts)));
    assert(spoken.take(j)[i].id == spoken[j].id);
}

/// A message whose id no earlier message bears is shown with all blocks of its parts.
pub proof fn law_message_has_the_blocks_of_its_parts(
    messages: Seq<MessageView>,
    entries: Seq<EntryView>,
    parts: Seq<PartEntryView>,
    i: int,
)
    requires
        tell(messages, entries, parts),
        0 <= i < messages.len(),
        forall|j: int| 0 <= j < i ==> (#[trigger] messages[j]).id != messages[i].id,
    ensures
        messages[i].content_blocks == blocks_of(messages[i].id, parts),
{
    let spoken = speaking(entries);
    assert(tells(messages[i], spoken[i], blocks_at(spoken, i, parts)));
    assert forall|j: int| 0 <= j < i implies (#[trigger] spoken.take(i)[j]).id != spoken[i].id by {
        assert(tells(messages[j], spoken[j], blocks_at(spoken, j, parts)));
    }
}

/// The entry fixes the instant of its message, which is then none of the clock's.
pub open spec fn fixes_instant(entry: EntryView) -> bool {
    time::fixed_instant(entry.meta.created, entry.time_created) is Some
}

/// The entries fix instants, and none of them one before that of an earlier entry.
pub open spec fn is_chronological(entries: Seq<EntryView>) -> bool {
    &&& forall|i: int|
        0 <= i < entries.len() ==> time::fixed_instant(
            (#[trigger] entries[i]).meta.created,
            entries[i].time_created,
        ) is Some
    &&& forall|i: int, j: int|
        0 <= i <= j < entries.len() ==> time::fixed_instant(
            (#[trigger] entries[i]).meta.created,
            entries[i].time_created,
        )->0.total_nanos() <= time::fixed_instant(
            (#[trigger] entries[j]).meta.created,
            entries[j].time_created,
        )->0.total_nanos()
}

proof fn lemma_speaking_is_chronological(entries: Seq<EntryView>)
    requires
        is_chronological(entries),
    ensures
        is_chronological(speaking(entries)),
    decreases entries.len(),
{
    reveal(Seq::filter);
    if entries.len() > 0 {
        let init = entries.drop_last();
        let spoken = speaking(init);
        assert forall|i: int, j: int| 0 <= i <= j < init.len() implies time::fixed_instant(
            (#[trigger] init[i]).meta.created,
            init[i].time_created,
        )->0.total_nanos() <= time::fixed_instant(
            (#[trigger] init[j]).meta.created,
            init[j].time_created,
        )->0.total_nanos() by {
            assert(init[i] == entries[i] && init[j] == entries[j]);
        }
        assert forall|i: int| 0 <= i < init.len() implies time::fixed_instant(
            (#[trigger] init[i]).meta.created,
            init[i].time_created,
        ) is Some by {
            assert(init[i] == entries[i]);
        }
        lemma_speaking_is_chronological(init);
        let last = entries.last();
        assert forall|i: int| 0 <= i < spoken.len() implies time::fixed_instant(
            (#[trigger] spoken[i]).meta.created,
            spoken[i].time_created,
        )->0.total_nanos() <= time::fixed_instant(
            last.meta.created,
            last.time_created,
        )->0.total_nanos() by {
            assert(spoken.contains(spoken[i]));
            init.lemma_filter_contains_rev(
                |entry: EntryView| role_named(entry.meta.role) is Some,
                spoken[i],
            );
            let k = choose|k: int| 0 <= k < init.len() && init[k] == spoken[i];
            assert(entries[k] == spoken[i]);
            assert(entries[entries.len() - 1] == last);
        }
    }
}

/// Messages come in chronological order if the rows do.
pub proof fn law_messages_are_chronological(
    messages: Seq<MessageView>,
    entries: Seq<EntryView>,
    parts: Seq<PartEntryView>,
    i: int,
    j: int,
)
    requires
        tell(messages, entries, parts),
        is_chronological(entries),
        0 <= i <= j < messages.len(),
    ensures
        messages[i].created_at.total_nanos() <= messages[j].created_at.total_nanos(),
{
    lemma_speaking_is_chronological(entries);
    let spoken = speaking(entries);
    assert(tells(messages[i], spoken[i], blocks_at(spoken, i, parts)));
    assert(tells(messages[j], spoken[j], blocks_at(spoken, j, parts)));
}

/// The rows and entries of messages and parts, and the messages, stand for all that they hold.
pub proof fn law_rows_and_messages_stand_for_all_they_hold(
    row: MessageRow,
    part_row: PartRow,
    entry: MessageEntry,
    part_entry: PartEntry,
    message: OpencodeMessage,
)
    ensures
        row.deep_view().id == row.id@,
        row.deep_view().session_id == row.session_id@,
        row.deep_view().time_created == row.time_created,
        row.deep_view().data == row.data@,
        part_row.deep_view().message_id == part_row.message_id@,
        part_row.deep_view().data == part_row.data@,
        entry.deep_view().id == entry.id@,
        entry.deep_view().session_id == entry.session_id@,
        entry.deep_view().time_created == entry.time_created,
        entry.deep_view().meta == entry.meta.deep_view(),
        entry.meta.deep_view().role == entry.meta.role.deep_view(),
        entry.meta.deep_view().parent_id == entry.meta.parent_id.deep_view(),
        entry.meta.deep_view().created == entry.meta.created,
        part_entry.deep_view().message_id == part_entry.message_id@,
        part_entry.deep_view().part == part_entry.part.deep_view(),
        message.deep_view().id == message.id@,
        message.deep_view().session_id == message.session_id@,
        message.deep_view().role == message.role,
        message.deep_view().parent_id == message.parent_id.deep_view(),
        message.deep_view().created_at == message.created_at,
        message.deep_view().content_blocks == message.content_blocks.deep_view(),
{
}

/// What is known of a message is what its document holds under `role`, `parentID` and
/// `created` under `time`. Of a text that is no document nothing is known.
pub proof fn law_metas_are_read_from_their_keys(data: Seq<char>)
    ensures
        meta_written(data) is Some <==> json::parsed(data) is Some,
        json::parsed(data) matches Some(held) ==> {
            let meta = meta_written(data)->0;
            &&& meta.role == json::string_at(held, seq!["role"@])
            &&& meta.parent_id == json::string_at(held, seq!["parentID"@])
            &&& meta.created == json::integer_at(held, seq!["time"@, "created"@])
        },
{
}

/// `user` and `assistant` name roles, and nothing else does.
pub proof fn law_users_and_assistants_speak(name: Option<Seq<char>>)
    ensures
        role_named(name) == Some(MessageRole::User) <==> name == Some("user"@),
        role_named(name) == Some(MessageRole::Assistant) <==> name == Some("assistant"@),
        role_named(name) is None <==> name != Some("user"@) && name != Some("assistant"@),
{
    reveal_strlit("user");
    reveal_strlit("assistant");
    assert("user"@.len() == 4 && "assistant"@.len() == 9);
}

/// A message's row that can be read, and whose text is a document, has an entry with the row's
/// columns and what the document says. No other row has one.
pub proof fn law_rows_with_documents_have_entries(row: MessageRowView, part_row: PartRowView)
    ensures
        entry_of(None) is None,
        entry_of(Some(row)) is Some <==> json::parsed(row.data) is Some,
        entry_of(Some(row)) matches Some(entry) ==> entry.id == row.id && entry.session_id
            == row.session_id && entry.time_created == row.time_created && Some(entry.meta)
            == meta_written(row.data),
        part_entry_of(None) is None,
        part_entry_of(Some(part_row)) is Some <==> json::parsed(part_row.data) is Some,
        part_entry_of(Some(part_row)) matches Some(entry) ==> entry.message_id
            == part_row.message_id && Some(entry.part) == part::part_written(part_row.data),
{
}

/// The entries keep the order of the rows, and each row that has one gives its own: the
/// positions of their rows rise, and no row with an entry is passed over.
pub proof fn law_entries_keep_the_order_of_the_rows(rows: Seq<Option<MessageRowView>>) -> (at: Seq<
    int,
>)
    ensures
        at.len() == entries_of(rows).len(),
        forall|i: int|
            0 <= i < at.len() ==> 0 <= #[trigger] at[i] < rows.len() && entry_of(rows[at[i]])
                == Some(entries_of(rows)[i]),
        forall|i: int, j: int| 0 <= i < j < at.len() ==> #[trigger] at[i] < #[trigger] at[j],
        forall|k: int|
            0 <= k < rows.len() && entry_of(#[trigger] rows[k]) is Some ==> at.contains(k),
{
    let f = |row: Option<MessageRowView>| entry_of(row);
    let at = order::lemma_selected_positions(rows, f);
    assert(forall|k: int| 0 <= k < rows.len() ==> f(#[trigger] rows[k]) == entry_of(rows[k]));
    at
}

/// The parts' entries keep the order of their rows, and each row that has one gives its own.
pub proof fn law_part_entries_keep_the_order_of_the_rows(rows: Seq<Option<PartRowView>>) -> (at:
    Seq<int>)
    ensures
        at.len() == part_entries_of(rows).len(),
        forall|i: int|
            0 <= i < at.len() ==> 0 <= #[trigger] at[i] < rows.len() && part_entry_of(rows[at[i]])
                == Some(part_entries_of(rows)[i]),
        forall|i: int, j: int| 0 <= i < j < at.len() ==> #[trigger] at[i] < #[trigger] at[j],
        forall|k: int|
            0 <= k < rows.len() && part_entry_of(#[trigger] rows[k]) is Some ==> at.contains(k),
{
    let f = |row: Option<PartRowView>| part_entry_of(row);
    let at = order::lemma_selected_positions(rows, f);
    assert(forall|k: int| 0 <= k < rows.len() ==> f(#[trigger] rows[k]) == part_entry_of(rows[k]));
    at
}

/// Of the entries, those of users and assistants are kept, all of them and in their order, and
/// each counts as created at the milliseconds that count for it.
pub proof fn law_speaking_entries_keep_their_order(entries: Seq<EntryView>) -> (at: Seq<int>)
    ensures
        at.len() == speaking(entries).len(),
        forall|i: int|
            0 <= i < at.len() ==> 0 <= #[trigger] at[i] < entries.len() && speaking(entries)[i]
                == entries[at[i]] && (entries[at[i]].meta.role == Some("user"@)
                || entries[at[i]].meta.role == Some("assistant"@)),
        forall|i: int, j: int| 0 <= i < j < at.len() ==> #[trigger] at[i] < #[trigger] at[j],
        forall|k: int|
            0 <= k < entries.len() && ((#[trigger] entries[k]).meta.role == Some("user"@)
                || entries[k].meta.role == Some("assistant"@)) ==> at.contains(k),
        spoken_millis(entries).len() == at.len(),
        forall|i: int|
            0 <= i < at.len() ==> spoken_millis(entries)[i] == time::counted_millis(
                entries[#[trigger] at[i]].meta.created,
                entries[at[i]].time_created,
            ),
    decreases entries.len(),
{
    reveal(Seq::filter);
    if entries.len() == 0 {
        Seq::empty()
    } else {
        let n = entries.len() - 1;
        let init = entries.drop_last();
        let before = law_speaking_entries_keep_their_order(init);
        assert(forall|k: int| 0 <= k < n ==> init[k] == entries[k]);
        law_users_and_assistants_speak(entries.last().meta.role);
        if role_named(entries.last().meta.role) is Some {
            let at = before.push(n);
            assert(speaking(entries) == speaking(init).push(entries.last()));
            assert forall|k: int|
                0 <= k < entries.len() && ((#[trigger] entries[k]).meta.role == Some("user"@)
                    || entries[k].meta.role == Some("assistant"@)) implies at.contains(k) by {
                if k == n {
                    assert(at[before.len() as int] == k);
                } else {
                    assert(init[k].meta.role == entries[k].meta.role);
                    assert(before.contains(k));
                    let i = choose|i: int| 0 <= i < before.len() && before[i] == k;
                    assert(at[i] == k);
                }
            }
            assert forall|i: int| 0 <= i < at.len() implies spoken_millis(entries)[i]
                == time::counted_millis(
                entries[#[trigger] at[i]].meta.created,
                entries[at[i]].time_created,
            ) by {
                if i < before.len() {
                    assert(spoken_millis(init)[i] == time::counted_millis(
                        init[before[i]].meta.created,
                        init[before[i]].time_created,
                    ));
                }
            }
            at
        } else {
            assert(speaking(entries) == speaking(init));
            assert forall|k: int|
                0 <= k < entries.len() && ((#[trigger] entries[k]).meta.role == Some("user"@)
                    || entries[k].meta.role == Some("assistant"@)) implies before.contains(k) by {
                assert(init[k].meta.role == entries[k].meta.role);
            }
            before
        }
    }
}

/// One more part adds its blocks behind those of the parts before it, to its own message and to
/// no other.
pub proof fn law_parts_add_their_blocks(
    id: Seq<char>,
    parts: Seq<PartEntryView>,
    more: PartEntryView,
)
    ensures
        blocks_of(id, Seq::empty()) == Seq::<BlockView>::empty(),
        more.message_id == id ==> blocks_of(id, parts.push(more)) == blocks_of(id, parts)
            + part::part_blocks(more.part),
        more.message_id != id ==> blocks_of(id, parts.push(more)) == blocks_of(id, parts),
{
    let f = |entry: PartEntryView|
        if entry.message_id == id {
            part::part_blocks(entry.part)
        } else {
            Seq::empty()
        };
    parts.lemma_flat_map_push(f, more);
    assert(blocks_of(id, parts) + Seq::<BlockView>::empty() =~= blocks_of(id, parts));
    assert(Seq::<PartEntryView>::empty().map_values(f) =~= Seq::<Seq<BlockView>>::empty());
}

/// There is one message for each entry of a user or an assistant, in their order, and it says
/// what its entry says: the ids, the role, the parent and the instant that the entry fixes.
pub proof fn law_messages_say_what_their_entries_say(
    messages: Seq<MessageView>,
    entries: Seq<EntryView>,
    parts: Seq<PartEntryView>,
    i: int,
)
    requires
        tell(messages, entries, parts),
        0 <= i < messages.len(),
    ensures
        messages.len() == speaking(entries).len(),
        messages[i].id == speaking(entries)[i].id,
        messages[i].session_id == speaking(entries)[i].session_id,
        messages[i].role is User <==> speaking(entries)[i].meta.role == Some("user"@),
        messages[i].role is Assistant <==> speaking(entries)[i].meta.role == Some("assistant"@),
        messages[i].parent_id == speaking(entries)[i].meta.parent_id,
        time::fixed_instant(
            speaking(entries)[i].meta.created,
            speaking(entries)[i].time_created,
        ) matches Some(instant) ==> messages[i].created_at == instant,
        messages[i].created_at.valid(),
{
    let spoken = speaking(entries);
    assert(tells(messages[i], spoken[i], blocks_at(spoken, i, parts)));
    law_users_and_assistants_speak(spoken[i].meta.role);
}

/// No message is made up where nobody speaks, and none is lost where someone does.
pub proof fn law_as_many_messages_as_speaking_entries(
    messages: Seq<MessageView>,
    entries: Seq<EntryView>,
    parts: Seq<PartEntryView>,
)
    requires
        tell(messages, entries, parts),
    ensures
        messages.len() == speaking(entries).len(),
{
}

/// An entry fixes the instant of its message if the milliseconds that count for it name one.
pub proof fn law_entries_that_fix_instants(entry: EntryView)
    ensures
        fixes_instant(entry) <==> 0 <= time::counted_millis(entry.meta.created, entry.time_created)
            && time::counted_millis(entry.meta.created, entry.time_created) / 1000
            <= time::MAX_UTC_SECS,
{
}

/// The messages of one session are asked for in the order of their creation, and its parts in
/// that order within each message. One message is asked for by its id.
pub proof fn law_messages_are_asked_for_by_time()
    ensures
        text::ends_with(
            MESSAGES_SQL@,
            " FROM message WHERE session_id = ?1 ORDER BY time_created ASC, id ASC"@,
        ),
        text::ends_with(
            PARTS_SQL@,
            " FROM part WHERE session_id = ?1 ORDER BY message_id ASC, time_created ASC, id ASC"@,
        ),
        text::ends_with(
            MESSAGE_SQL@,
            " FROM message WHERE id = ?1"@,
        ),
{
    reveal_strlit(
        "SELECT id, session_id, data, time_created FROM message WHERE session_id = ?1 ORDER BY time_created ASC, id ASC",
    );
    reveal_strlit(" FROM message WHERE session_id = ?1 ORDER BY time_created ASC, id ASC");
    assert(MESSAGES_SQL@.len() == 110 && " FROM message WHERE session_id = ?1 ORDER BY time_created ASC, id ASC"@.len() == 69);
    assert(MESSAGES_SQL@.subrange(41, 110) =~= " FROM message WHERE session_id = ?1 ORDER BY time_created ASC, id ASC"@);
    reveal_strlit(
        "SELECT message_id, data FROM part WHERE session_id = ?1 ORDER BY message_id ASC, time_created ASC, id ASC",
    );
    reveal_strlit(" FROM part WHERE session_id = ?1 ORDER BY message_id ASC, time_created ASC, id ASC");
    assert(PARTS_SQL@.len() == 105 && " FROM part WHERE session_id = ?1 ORDER BY message_id ASC, time_created ASC, id ASC"@.len() == 82);
    assert(PARTS_SQL@.subrange(23, 105) =~= " FROM part WHERE session_id = ?1 ORDER BY message_id ASC, time_created ASC, id ASC"@);
    reveal_strlit(
        "SELECT data, time_created FROM message WHERE id = ?1",
    );
    reveal_strlit(" FROM message WHERE id = ?1");
    assert(MESSAGE_SQL@.len() == 52 && " FROM message WHERE id = ?1"@.len() == 27);
    assert(MESSAGE_SQL@.subrange(25, 52) =~= " FROM message WHERE id = ?1"@);
}

/// No block of a part is lost: every block that a part shows is among those of its message, if
/// that is the first one of its id.
pub proof fn law_messages_show_all_their_parts(
    messages: Seq<MessageView>,
    entries: Seq<EntryView>,
    parts: Seq<PartEntryView>,
    i: int,
    k: int,
    block: BlockView,
)
    requires
        tell(messages, entries, parts),
        0 <= i < messages.len(),
        forall|j: int| 0 <= j < i ==> (#[trigger] messages[j]).id != messages[i].id,
        0 <= k < parts.len(),
        parts[k].message_id == messages[i].id,
        part::part_blocks(parts[k].part).contains(block),
    ensures
        messages[i].content_blocks.contains(block),
{
    law_message_has_the_blocks_of_its_parts(messages, entries, parts, i);
    lemma_blocks_hold_each_part(messages[i].id, parts, k, block);
}

proof fn lemma_blocks_hold_each_part(
    id: Seq<char>,
    parts: Seq<PartEntryView>,
    k: int,
    block: BlockView,
)
    requires
        0 <= k < parts.len(),
        parts[k].message_id == id,
        part::part_blocks(parts[k].part).contains(block),
    ensures
        blocks_of(id, parts).contains(block),
    decreases parts.len(),
{
    let init = parts.drop_last();
    let last = parts.last();
    let before = blocks_of(id, init);
    assert(init.push(last) =~= parts);
    law_parts_add_their_blocks(id, init, last);
    if k == parts.len() - 1 {
        let shown = part::part_blocks(last.part);
        let at = choose|at: int| 0 <= at < shown.len() && shown[at] == block;
        assert(blocks_of(id, parts)[before.len() + at] == block);
    } else {
        lemma_blocks_hold_each_part(id, init, k, block);
        let at = choose|at: int| 0 <= at < before.len() && before[at] == block;
        assert(blocks_of(id, parts)[at] == block);
    }
}

} // verus!
