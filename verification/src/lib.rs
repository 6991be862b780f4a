//! Reading Opencode's session storage.
//!
//! Opencode keeps all state of its sessions in one SQLite database,
//! `<opencode_home>/opencode.db`. The part of its schema that matters here:
//!
//! ```sql
//! CREATE TABLE session (
//!     id, project_id, slug, directory, title,
//!     time_created INTEGER, time_updated INTEGER
//! );
//! CREATE TABLE message (
//!     id, session_id, time_created INTEGER, time_updated INTEGER,
//!     data TEXT  -- JSON: {role, parentID?, time:{created,...}, ...}
//! );
//! CREATE TABLE part (
//!     id, message_id, session_id, time_created INTEGER, time_updated INTEGER,
//!     data TEXT  -- JSON: {type, text?, state?, ...}
//! );
//! CREATE TABLE project ( id, worktree, vcs, name );
//! ```
//!
//! The library states which rows to ask for and says what they mean: sessions, messages,
//! chains of records and search hits. Opening the database and running the statements is left
//! to the caller. A row whose columns could not be read is handed over as `None`.

mod buckets;
mod order;
mod seen;

pub mod chain;
pub mod json;
pub mod message;
pub mod part;
pub mod paths;
pub mod record;
pub mod search;
pub mod session;
pub mod text;
pub mod time;

pub use chain::{chain_messages, materialize_entries, materialize_session, MaterializedRecord};
pub use message::{
    assemble_messages, created_millis, load_messages, message_of, message_role, parse_meta,
    read_entries, read_message_role_and_time, read_part_entries, role_and_time, MessageEntry,
    MessageMeta, MessageRow, OpencodeMessage, PartEntry, PartRow, MESSAGES_SQL, MESSAGE_SQL,
    PARTS_SQL,
};
pub use part::{
    parse_part, push_blocks_from_part, push_tool_blocks, render_part_text, Part, ToolState,
};
pub use paths::{
    database_uri, is_opencode_session_path, opencode_database_path, opencode_storage_root,
    parse_session_path, synthetic_session_path, Candidate, DATA_DIR_VARIABLE, DB_FILENAME,
    MACOS_SUPPORT_DIR, XDG_DATA_DIR,
};
pub use record::{ContentBlock, MessageRole, SessionRecord};
pub use search::{
    collapse_hits, contains_text, escape_like, find_hits, like_pattern, search_parts,
    search_statement, OpencodeSearchHit, SearchMode, SearchRow, SearchStatement, FIXED_SEARCH_SQL,
    LONGEST_PATTERN, SCAN_SQL,
};
pub use session::{
    list_sessions, project_label, read_project_label, read_project_worktree, OpencodeSession,
    ProjectRow, SessionRow, PROJECT_SQL, SESSIONS_SQL, SESSION_SQL, WORKTREE_SQL,
};
pub use time::{
    instant_or_now, millis_to_datetime, recorded_instant, recorded_millis, Timestamp, MAX_UTC_SECS,
};
