//! The records that a session is shown as.

use vstd::prelude::*;

verus! {

/// Who speaks in a message.
#[derive(Debug, Clone, Copy, PartialEq, Eq, Structural)]
pub enum MessageRole {
    User,
    Assistant,
}

/// A piece of a message that a reader sees.
#[derive(Debug, Clone, PartialEq, Eq)]
pub enum ContentBlock {
    Text(String),
    Thinking(String),
    ToolUse { name: String, input: String },
    ToolResult(String),
}

/// What a `ContentBlock` stands for.
pub enum BlockView {
    Text(Seq<char>),
    Thinking(Seq<char>),
    ToolUse { name: Seq<char>, input: Seq<char> },
    ToolResult(Seq<char>),
}

impl DeepView for ContentBlock {
    type V = BlockView;

    open spec fn deep_view(&self) -> BlockView {
        match self {
            ContentBlock::Text(text) => BlockView::Text(text@),
            ContentBlock::Thinking(text) => BlockView::Thinking(text@),
            ContentBlock::ToolUse { name, input } => BlockView::ToolUse {
                name: name@,
                input: input@,
            },
            ContentBlock::ToolResult(text) => BlockView::ToolResult(text@),
        }
    }
}

/// A step of a session, with the step that it follows.
#[derive(Debug, Clone, PartialEq, Eq)]
pub enum SessionRecord {
    Message {
        role: MessageRole,
        content_blocks: Vec<ContentBlock>,
        uuid: Option<String>,
        parent_uuid: Option<String>,
        is_sidechain: bool,
    },
}

/// What a `SessionRecord` stands for.
pub enum RecordView {
    Message {
        role: MessageRole,
        content_blocks: Seq<BlockView>,
        uuid: Option<Seq<char>>,
        parent_uuid: Option<Seq<char>>,
        is_sidechain: bool,
    },
}

impl DeepView for SessionRecord {
    type V = RecordView;

    open spec fn deep_view(&self) -> RecordView {
        match self {
            SessionRecord::Message { role, content_blocks, uuid, parent_uuid, is_sidechain } =>
                RecordView::Message {
                role: *role,
                content_blocks: content_blocks.deep_view(),
                uuid: uuid.deep_view(),
                parent_uuid: parent_uuid.deep_view(),
                is_sidechain: *is_sidechain,
            },
        }
    }
}

/// A block stands for its kind and its texts.
pub proof fn law_blocks_stand_for_their_texts(a: String, b: String)
    ensures
        ContentBlock::Text(a).deep_view() == BlockView::Text(a@),
        ContentBlock::Thinking(a).deep_view() == BlockView::Thinking(a@),
        (ContentBlock::ToolUse { name: a, input: b }).deep_view() == (BlockView::ToolUse {
            name: a@,
            input: b@,
        }),
        ContentBlock::ToolResult(a).deep_view() == BlockView::ToolResult(a@),
{
}

/// A record stands for all that it holds.
pub proof fn law_records_stand_for_all_they_hold(record: SessionRecord)
    ensures
        record.deep_view()->role == record->role,
        record.deep_view()->content_blocks == record->content_blocks.deep_view(),
        record.deep_view()->uuid == record->uuid.deep_view(),
        record.deep_view()->parent_uuid == record->parent_uuid.deep_view(),
        record.deep_view()->is_sidechain == record->is_sidechain,
{
}

} // verus!
