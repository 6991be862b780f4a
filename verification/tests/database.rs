//! The library on rows of a real database.

use opencode_sessions::{
    database_uri, is_opencode_session_path, list_sessions, load_messages, materialize_session,
    parse_session_path, read_message_role_and_time, read_project_label, read_project_worktree,
    search_parts, search_statement, synthetic_session_path, ContentBlock, MessageRole, MessageRow,
    OpencodeMessage, OpencodeSearchHit, OpencodeSession, PartRow, ProjectRow, SearchMode,
    SearchRow, SessionRecord, SessionRow, Timestamp, MESSAGES_SQL, MESSAGE_SQL, PARTS_SQL,
    PROJECT_SQL, SESSIONS_SQL, SESSION_SQL, WORKTREE_SQL,
};
use rusqlite::{Connection, OpenFlags, Row};
use tempfile::TempDir;

fn build_db_fixture() -> (TempDir, String) {
    let dir = TempDir::new().unwrap();
    let db_path = dir.path().join("opencode.db");
    let conn = Connection::open(&db_path).unwrap();
    conn.execute_batch(
        r#"
        CREATE TABLE project (
            id TEXT PRIMARY KEY,
            worktree TEXT NOT NULL,
            vcs TEXT,
            name TEXT,
            time_created INTEGER NOT NULL,
            time_updated INTEGER NOT NULL
        );
        CREATE TABLE session (
            id TEXT PRIMARY KEY,
            project_id TEXT NOT NULL,
            slug TEXT NOT NULL DEFAULT '',
            directory TEXT,
            title TEXT NOT NULL,
            time_created INTEGER NOT NULL,
            time_updated INTEGER NOT NULL
        );
        CREATE TABLE message (
            id TEXT PRIMARY KEY,
            session_id TEXT NOT NULL,
            time_created INTEGER NOT NULL,
            time_updated INTEGER NOT NULL,
            data TEXT NOT NULL
        );
        CREATE TABLE part (
            id TEXT PRIMARY KEY,
            message_id TEXT NOT NULL,
            session_id TEXT NOT NULL,
            time_created INTEGER NOT NULL,
            time_updated INTEGER NOT NULL,
            data TEXT NOT NULL
        );
        "#,
    )
    .unwrap();

    // One project with two sessions. One of them has no directory and must be skipped.
    conn.execute(
        "INSERT INTO project VALUES ('projAAA', '/tmp/myproj', 'git', 'myproj', 1, 2)",
        [],
    )
    .unwrap();
    conn.execute(
        "INSERT INTO session VALUES ('ses_TEST', 'projAAA', 'curious-star', '/tmp/myproj', \
         'Test conversation', 1769762431585, 1769762509666)",
        [],
    )
    .unwrap();
    conn.execute(
        "INSERT INTO session VALUES ('ses_GLOBAL', 'projAAA', 'g', '', 'global noise', 1, 2)",
        [],
    )
    .unwrap();

    conn.execute(
        "INSERT INTO message VALUES ('msg_user1', 'ses_TEST', 1769762431591, 1769762431591, ?1)",
        [r#"{"role":"user","time":{"created":1769762431591}}"#],
    )
    .unwrap();
    conn.execute(
        "INSERT INTO message VALUES ('msg_asst1', 'ses_TEST', 1769762431596, 1769762431596, ?1)",
        [r#"{"role":"assistant","parentID":"msg_user1","time":{"created":1769762431596}}"#],
    )
    .unwrap();

    conn.execute(
        "INSERT INTO part VALUES ('prt_001', 'msg_user1', 'ses_TEST', 1, 1, ?1)",
        [r#"{"type":"text","text":"Hello opencode"}"#],
    )
    .unwrap();
    conn.execute(
        "INSERT INTO part VALUES ('prt_002', 'msg_asst1', 'ses_TEST', 2, 2, ?1)",
        [r#"{"type":"step-start","snapshot":"abc"}"#],
    )
    .unwrap();
    conn.execute(
        "INSERT INTO part VALUES ('prt_003', 'msg_asst1', 'ses_TEST', 3, 3, ?1)",
        [r#"{"type":"text","text":"Sure thing"}"#],
    )
    .unwrap();
    conn.execute(
        "INSERT INTO part VALUES ('prt_004', 'msg_asst1', 'ses_TEST', 4, 4, ?1)",
        [r#"{"type":"tool","tool":"grep","state":{"input":{"pattern":"foo"},"output":"matched 3 lines"}}"#],
    )
    .unwrap();

    (dir, db_path.to_str().unwrap().to_string())
}

fn open(db: &str) -> Connection {
    Connection::open_with_flags(
        database_uri(db),
        OpenFlags::SQLITE_OPEN_READ_ONLY | OpenFlags::SQLITE_OPEN_URI,
    )
    .unwrap()
}

fn session_row(row: &Row<'_>) -> rusqlite::Result<SessionRow> {
    Ok(SessionRow {
        id: row.get("id")?,
        project_id: row.get("project_id")?,
        title: row.get("title")?,
        directory: row.get("directory")?,
        time_created: row.get("time_created")?,
        time_updated: row.get("time_updated")?,
    })
}

fn sessions_in(db: &str) -> Vec<OpencodeSession> {
    let conn = open(db);
    let mut stmt = conn.prepare(SESSIONS_SQL).unwrap();
    let rows: Vec<Option<SessionRow>> =
        stmt.query_map([], session_row).unwrap().map(|row| row.ok()).collect();
    list_sessions(rows, db)
}

fn session_from_file(path: &str) -> Option<OpencodeSession> {
    let (db, session_id) = parse_session_path(path)?;
    let row = open(&db).query_row(SESSION_SQL, [session_id], session_row).ok();
    OpencodeSession::from_file(path, row)
}

fn project_row(db: &str, project_id: &str) -> Option<ProjectRow> {
    open(db)
        .query_row(PROJECT_SQL, [project_id], |row| {
            Ok(ProjectRow { name: row.get("name").ok(), worktree: row.get("worktree").ok() })
        })
        .ok()
}

fn message_rows(db: &str, session_id: &str) -> Vec<Option<MessageRow>> {
    let conn = open(db);
    let mut stmt = conn.prepare(MESSAGES_SQL).unwrap();
    let rows = stmt
        .query_map([session_id], |row| {
            Ok(MessageRow {
                id: row.get("id")?,
                session_id: row.get("session_id")?,
                time_created: row.get("time_created")?,
                data: row.get("data")?,
            })
        })
        .unwrap();
    rows.map(|row| row.ok()).collect()
}

fn part_rows(db: &str, session_id: &str) -> Vec<Option<PartRow>> {
    let conn = open(db);
    let mut stmt = conn.prepare(PARTS_SQL).unwrap();
    let rows = stmt
        .query_map([session_id], |row| {
            Ok(PartRow { message_id: row.get("message_id")?, data: row.get("data")? })
        })
        .unwrap();
    rows.map(|row| row.ok()).collect()
}

fn messages_in(db: &str, session_id: &str) -> Vec<OpencodeMessage> {
    load_messages(message_rows(db, session_id), part_rows(db, session_id))
}

fn add_part(db: &str, session_id: &str, message_id: &str, time_created: i64, data: &str) {
    let conn = Connection::open(db).unwrap();
    let id = format!("prt_{}_{}_{}", session_id, message_id, time_created);
    conn.execute(
        "INSERT INTO part VALUES (?1, ?2, ?3, ?4, ?4, ?5)",
        (id, message_id, session_id, time_created, data),
    )
    .unwrap();
}

fn search_rows(db: &str, query: &str, mode: SearchMode<'_>) -> Vec<Option<SearchRow>> {
    let conn = open(db);
    let statement = search_statement(query, mode);
    let mut stmt = conn.prepare(statement.sql).unwrap();
    let rows: Vec<Option<SearchRow>> = stmt
        .query_map(rusqlite::params_from_iter(statement.params.iter()), |row| {
            Ok(SearchRow {
                session_id: row.get("session_id")?,
                message_id: row.get("message_id")?,
                data: row.get("data")?,
            })
        })
        .unwrap()
        .map(|row| row.ok())
        .collect();
    rows
}

fn hits_in(db: &str, query: &str, mode: SearchMode<'_>) -> Vec<OpencodeSearchHit> {
    search_parts(search_rows(db, query, mode), query, mode)
}

#[test]
fn test_is_opencode_session_path_detects_db() {
    assert!(is_opencode_session_path("/home/u/.local/share/opencode/opencode.db#ses_x"));
    assert!(is_opencode_session_path("/home/u/.local/share/opencode/opencode.db"));
    assert!(!is_opencode_session_path("/home/u/.config/projects/foo/abc.jsonl"));
}

#[test]
fn test_parse_session_path_round_trip() {
    let db = "/x/opencode.db";
    let synth = synthetic_session_path(db, "ses_42");
    let (parsed_db, sid) = parse_session_path(&synth).unwrap();
    assert_eq!(parsed_db, db);
    assert_eq!(sid, "ses_42");
    assert!(parse_session_path("/not/even/a/db.jsonl#abc").is_none());
}

#[test]
fn test_list_sessions_skips_empty_directory() {
    let (_dir, db) = build_db_fixture();
    let sessions = sessions_in(&db);
    assert_eq!(sessions.len(), 1);
    assert_eq!(sessions[0].id, "ses_TEST");
    assert_eq!(sessions[0].title, "Test conversation");
    assert_eq!(sessions[0].directory.as_deref(), Some("/tmp/myproj"));
}

#[test]
fn test_session_from_file_uses_synthetic_path() {
    let (_dir, db) = build_db_fixture();
    let synth = synthetic_session_path(&db, "ses_TEST");
    let session = session_from_file(&synth).unwrap();
    assert_eq!(session.id, "ses_TEST");
    assert_eq!(session.project_id, "projAAA");
    assert_eq!(session.title, "Test conversation");
}

#[test]
fn test_read_project_label_prefers_name() {
    let (_dir, db) = build_db_fixture();
    // The name wins over the basename of the worktree.
    let row = project_row(&db, "projAAA").unwrap();
    assert_eq!(read_project_label(row).as_deref(), Some("myproj"));
}

#[test]
fn test_load_messages_orders_by_time_and_renders_parts() {
    let (_dir, db) = build_db_fixture();
    let messages = messages_in(&db, "ses_TEST");
    assert_eq!(messages.len(), 2);
    assert_eq!(messages[0].id, "msg_user1");
    assert_eq!(messages[0].role, MessageRole::User);
    assert_eq!(
        messages[0].content_blocks,
        vec![ContentBlock::Text("Hello opencode".to_string())]
    );
    assert_eq!(messages[1].id, "msg_asst1");
    assert!(matches!(messages[1].content_blocks.first(), Some(ContentBlock::Text(_))));
    // A tool part makes a call and a result.
    assert!(messages[1]
        .content_blocks
        .iter()
        .any(|b| matches!(b, ContentBlock::ToolUse { name, .. } if name == "grep")));
    assert!(messages[1]
        .content_blocks
        .iter()
        .any(|b| matches!(b, ContentBlock::ToolResult(_))));
}

#[test]
fn test_materialize_session_builds_linear_chain() {
    let (_dir, db) = build_db_fixture();
    let session = session_from_file(&synthetic_session_path(&db, "ses_TEST")).unwrap();
    let (sid, records) = materialize_session(
        &session,
        message_rows(&db, &session.id),
        part_rows(&db, &session.id),
    )
    .unwrap();
    assert_eq!(sid, "ses_TEST");
    assert_eq!(records.len(), 2);

    match &records[1].0 {
        SessionRecord::Message { uuid, parent_uuid, .. } => {
            assert_eq!(uuid.as_deref(), Some("msg_asst1"));
            assert_eq!(
                parent_uuid.as_deref(),
                Some("msg_user1"),
                "second message must chain to the first"
            );
        }
        #[allow(unreachable_patterns)]
        other => panic!("expected Message, got {:?}", other),
    }
}

#[test]
fn test_search_parts_returns_text_hits() {
    let (_dir, db) = build_db_fixture();
    let hits = hits_in(&db, "Hello opencode", SearchMode::Fixed);
    assert_eq!(hits.len(), 1);
    assert_eq!(hits[0].session_id, "ses_TEST");
    assert_eq!(hits[0].message_id, "msg_user1");
    assert!(hits[0].text.contains("Hello opencode"));
}

#[test]
fn test_search_parts_finds_tool_output() {
    let (_dir, db) = build_db_fixture();
    let hits = hits_in(&db, "matched 3 lines", SearchMode::Fixed);
    assert_eq!(hits.len(), 1);
    assert_eq!(hits[0].message_id, "msg_asst1");
}

#[test]
fn test_search_parts_ignores_structural_match() {
    // The step-start part holds abc, so LIKE finds it, but nobody is shown that text.
    let (_dir, db) = build_db_fixture();
    let hits = hits_in(&db, "abc", SearchMode::Fixed);
    assert!(hits.is_empty());
}

#[test]
fn test_search_parts_case_insensitive() {
    let (_dir, db) = build_db_fixture();
    let hits = hits_in(&db, "HELLO OPENCODE", SearchMode::Fixed);
    assert_eq!(hits.len(), 1);
}

#[test]
fn test_search_parts_regex_matches_whitespace_pattern() {
    // As a LIKE pattern this expression would never match the space in the text.
    let (_dir, db) = build_db_fixture();
    let re = regex::RegexBuilder::new(r"hello\s+opencode")
        .case_insensitive(true)
        .build()
        .unwrap();
    let hits = hits_in(&db, r"hello\s+opencode", SearchMode::Regex(&re));
    assert_eq!(hits.len(), 1, "regex must match across the whitespace");
    assert_eq!(hits[0].session_id, "ses_TEST");
}

#[test]
fn test_search_parts_regex_does_not_short_circuit_on_envelope() {
    // The expression has to match the text that a reader sees, not the JSON around it.
    let (_dir, db) = build_db_fixture();
    let re = regex::Regex::new("^Hello").unwrap();
    let hits = hits_in(&db, "^Hello", SearchMode::Regex(&re));
    assert_eq!(hits.len(), 1);
    assert_eq!(hits[0].message_id, "msg_user1");
}

#[test]
fn session_keeps_its_columns_and_its_path() {
    let (_dir, db) = build_db_fixture();
    let path = synthetic_session_path(&db, "ses_TEST");
    let session = session_from_file(&path).unwrap();
    assert_eq!(session.created_at, Timestamp { secs: 1769762431, nanos: 585_000_000 });
    assert_eq!(session.updated_at, Timestamp { secs: 1769762509, nanos: 666_000_000 });
    assert_eq!(session.session_file, path);
    assert!(session_from_file(&synthetic_session_path(&db, "ses_NONE")).is_none());
}

#[test]
fn session_without_directory_is_still_found_by_id() {
    let (_dir, db) = build_db_fixture();
    let session = session_from_file(&synthetic_session_path(&db, "ses_GLOBAL")).unwrap();
    assert_eq!(session.directory, None);
    assert_eq!(session.title, "global noise");
}

#[test]
fn worktree_and_missing_project() {
    let (_dir, db) = build_db_fixture();
    let row = open(&db)
        .query_row(WORKTREE_SQL, ["projAAA"], |row| {
            Ok(ProjectRow { name: None, worktree: row.get("worktree").ok() })
        })
        .unwrap();
    assert_eq!(read_project_worktree(row).as_deref(), Some("/tmp/myproj"));
    assert!(project_row(&db, "projBBB").is_none());
}

#[test]
fn role_and_time_of_one_message() {
    let (_dir, db) = build_db_fixture();
    let (data, time_created): (String, i64) = open(&db)
        .query_row(MESSAGE_SQL, ["msg_asst1"], |row| {
            Ok((row.get("data")?, row.get("time_created")?))
        })
        .unwrap();
    assert_eq!(
        read_message_role_and_time(&data, time_created),
        Some((MessageRole::Assistant, Timestamp { secs: 1769762431, nanos: 596_000_000 }))
    );
}

#[test]
fn like_wildcards_in_a_query_are_literal() {
    let (_dir, db) = build_db_fixture();
    assert!(hits_in(&db, "Hello%opencode", SearchMode::Fixed).is_empty());
    assert!(hits_in(&db, "Hello_opencode", SearchMode::Fixed).is_empty());
    assert_eq!(hits_in(&db, "hello open", SearchMode::Fixed).len(), 1);
}

#[test]
fn database_is_opened_for_reading_only() {
    let (_dir, db) = build_db_fixture();
    assert!(open(&db).execute("DELETE FROM session", []).is_err());
    assert_eq!(sessions_in(&db).len(), 1);
}

#[test]
fn escaped_characters_are_found() {
    let (_dir, db) = build_db_fixture();
    add_part(&db, "s", "m", 10, r#"{"type":"text","text":"say \"hi\""}"#);
    let hits = hits_in(&db, r#"say "hi""#, SearchMode::Fixed);
    assert_eq!(hits.len(), 1);
    assert_eq!(hits[0].message_id, "m");
    assert_eq!(hits[0].text, r#"say "hi""#);
    add_part(&db, "s", "n", 11, r#"{"type":"reasoning","text":"two\nlines \u0041"}"#);
    assert_eq!(hits_in(&db, "TWO\nlines a", SearchMode::Fixed).len(), 1);
    add_part(&db, "s", "o", 12, r#"{"\u0074ype":"text","text":"spelled"}"#);
    assert_eq!(hits_in(&db, "spelled", SearchMode::Fixed).len(), 1);
}

#[test]
fn case_beyond_ascii_is_folded() {
    let (_dir, db) = build_db_fixture();
    add_part(&db, "s", "m", 10, "{\"type\":\"text\",\"text\":\"\u{c9}COLE\"}");
    for query in ["\u{e9}cole", "\u{c9}COLE", "COLE", "cole"] {
        let hits = hits_in(&db, query, SearchMode::Fixed);
        assert_eq!(hits.len(), 1, "{}", query);
        assert_eq!(hits[0].text, "\u{c9}COLE");
    }
    // The lowercase form of the Kelvin sign is an ASCII letter.
    add_part(&db, "s", "n", 11, r#"{"type":"text","text":"273 K"}"#);
    add_part(&db, "s", "o", 12, "{\"type\":\"text\",\"text\":\"273 \u{212a}\"}");
    for query in ["273 k", "273 K", "273 \u{212a}"] {
        assert_eq!(hits_in(&db, query, SearchMode::Fixed).len(), 2, "{}", query);
    }
}

#[test]
fn what_is_written_anew_is_found() {
    let (_dir, db) = build_db_fixture();
    let data = r#"{ "state" : { "input" : { "b" : 1 , "a" : 2 } , "output" : "done" } , "type" : "tool" }"#;
    add_part(&db, "s", "m", 10, data);
    for query in [r#"{"A":2,"b":1}"#, "1}\nDONE"] {
        assert_eq!(hits_in(&db, query, SearchMode::Fixed).len(), 1, "{}", query);
    }
}

#[test]
fn statement_narrows_the_rows() {
    let (_dir, db) = build_db_fixture();
    let rows = |query: &str| search_rows(&db, query, SearchMode::Fixed);
    // The part of the tool is always looked at.
    assert_eq!(rows("hello").len(), 2);
    assert_eq!(rows("nowhere").len(), 1);
    assert_eq!(rows("\u{e9}").len(), 1);
    add_part(&db, "s", "m", 10, "{\"type\":\"text\",\"text\":\"\u{e9}\"}");
    add_part(&db, "s", "n", 11, r#"{"type":"text","text":"\t"}"#);
    add_part(&db, "s", "o", 12, "{\"type\":\"text\",\n\"text\":\"~\"}");
    add_part(&db, "s", "p", 13, r#"{"type":"text","text":"! ~"}"#);
    assert_eq!(rows("nowhere").len(), 4);
    let re = regex::Regex::new("nowhere").unwrap();
    assert_eq!(search_rows(&db, "nowhere", SearchMode::Regex(&re)).len(), 8);
}

#[test]
fn long_queries_are_searched_for() {
    let (_dir, db) = build_db_fixture();
    for n in [12_498, 12_499, 60_000] {
        let long = "a".repeat(n);
        let wide = "\u{1d11e}".repeat(n);
        for text in [long, wide] {
            let data = format!("{{\"type\":\"text\",\"text\":\"{}\"}}", text);
            add_part(&db, &format!("s{}{}", n, text.len()), "m", 10, &data);
            let hits = hits_in(&db, &text, SearchMode::Fixed);
            assert!(hits.iter().any(|hit| hit.text == text));
        }
    }
}

#[test]
fn newest_parts_come_first_and_pairs_stay_apart() {
    let (_dir, db) = build_db_fixture();
    add_part(&db, "a:b", "c", 10, r#"{"type":"text","text":"hit"}"#);
    add_part(&db, "a", "b:c", 11, r#"{"type":"text","text":"hit"}"#);
    let hits = hits_in(&db, "hit", SearchMode::Fixed);
    let pairs: Vec<(&str, &str, &str)> = hits
        .iter()
        .map(|hit| (hit.session_id.as_str(), hit.message_id.as_str(), hit.text.as_str()))
        .collect();
    assert_eq!(pairs, vec![("a", "b:c", "hit"), ("a:b", "c", "hit")]);
}

#[test]
fn chain_goes_by_the_recorded_instants() {
    let (_dir, db) = build_db_fixture();
    let conn = Connection::open(&db).unwrap();
    // The row says that this message was created last, its JSON text that it was created first.
    conn.execute(
        "INSERT INTO message VALUES ('msg_early', 'ses_TEST', 1769762439999, 1769762439999, ?1)",
        [r#"{"role":"user","time":{"created":1769762431000}}"#],
    )
    .unwrap();
    let session = session_from_file(&synthetic_session_path(&db, "ses_TEST")).unwrap();
    let (_, records) = materialize_session(
        &session,
        message_rows(&db, &session.id),
        part_rows(&db, &session.id),
    )
    .unwrap();
    let uuids: Vec<Option<&str>> = records
        .iter()
        .map(|(SessionRecord::Message { uuid, .. }, _, _)| uuid.as_deref())
        .collect();
    assert_eq!(uuids, vec![Some("msg_early"), Some("msg_user1"), Some("msg_asst1")]);
}
