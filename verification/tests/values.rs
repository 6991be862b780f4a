//! The library on plain values.

use opencode_sessions::{
    assemble_messages, chain_messages, collapse_hits, contains_text, created_millis, database_uri,
    escape_like, find_hits, instant_or_now, is_opencode_session_path, like_pattern, list_sessions,
    load_messages, materialize_entries, materialize_session,
    message_of, message_role, millis_to_datetime, opencode_database_path, opencode_storage_root,
    parse_meta, parse_part, parse_session_path, project_label, push_blocks_from_part,
    push_tool_blocks, read_message_role_and_time, read_project_label, recorded_instant,
    recorded_millis, render_part_text, role_and_time, search_parts, search_statement,
    synthetic_session_path, Candidate, ContentBlock, MaterializedRecord, MessageEntry, MessageMeta, MessageRole, MessageRow, OpencodeSearchHit,
    OpencodeSession, Part, PartEntry, PartRow, ProjectRow, SearchMode, SearchRow, SessionRecord,
    SessionRow, Timestamp, ToolState, FIXED_SEARCH_SQL, LONGEST_PATTERN, MAX_UTC_SECS, SCAN_SQL,
};

fn some(text: &str) -> Option<String> {
    Some(text.to_string())
}

fn at(secs: i64, nanos: u32) -> Timestamp {
    Timestamp { secs, nanos }
}

fn candidate(path: &str, exists: bool) -> Option<Candidate<String>> {
    Some(Candidate { path: path.to_string(), exists })
}

fn text_part(text: &str) -> Part {
    Part { part_type: some("text"), text: some(text), tool: None, state: None }
}

fn tool_part(state: Option<ToolState>) -> Part {
    Part { part_type: some("tool"), text: None, tool: some("grep"), state }
}

fn blocks(part: &Part) -> Vec<ContentBlock> {
    let mut blocks = Vec::new();
    push_blocks_from_part(part, &mut blocks);
    blocks
}

fn session_row(id: &str, directory: Option<&str>, created: i64, updated: i64) -> SessionRow {
    SessionRow {
        id: id.to_string(),
        project_id: "p".to_string(),
        title: "t".to_string(),
        directory: directory.map(|d| d.to_string()),
        time_created: created,
        time_updated: updated,
    }
}

fn message_row(id: &str, time_created: i64, data: &str) -> Option<MessageRow> {
    Some(MessageRow {
        id: id.to_string(),
        session_id: "s".to_string(),
        time_created,
        data: data.to_string(),
    })
}

fn part_row(message_id: &str, data: &str) -> Option<PartRow> {
    Some(PartRow { message_id: message_id.to_string(), data: data.to_string() })
}

fn search_row(session_id: &str, message_id: &str, data: &str) -> Option<SearchRow> {
    Some(SearchRow {
        session_id: session_id.to_string(),
        message_id: message_id.to_string(),
        data: data.to_string(),
    })
}

fn hit(session_id: &str, message_id: &str, text: &str) -> OpencodeSearchHit {
    OpencodeSearchHit {
        session_id: session_id.to_string(),
        message_id: message_id.to_string(),
        text: text.to_string(),
    }
}

fn entry(id: &str, role: Option<&str>, created: Option<i64>) -> MessageEntry {
    MessageEntry {
        id: id.to_string(),
        session_id: "s".to_string(),
        time_created: 5000,
        meta: MessageMeta { role: role.map(|r| r.to_string()), parent_id: None, created },
    }
}

fn part_entry(message_id: &str, part: Part) -> PartEntry {
    PartEntry { message_id: message_id.to_string(), part }
}

#[test]
fn storage_root_precedence() {
    let root = |c, x, m| opencode_storage_root(c, x, m);
    let (c, x, m) = ("/c", "/x", "/m");
    assert_eq!(
        root(candidate(c, true), candidate(x, true), candidate(m, true)).as_deref(),
        Some("/c")
    );
    assert_eq!(
        root(candidate(c, false), candidate(x, true), candidate(m, true)).as_deref(),
        Some("/x")
    );
    assert_eq!(root(None, candidate(x, false), candidate(m, true)).as_deref(), Some("/m"));
    assert_eq!(root(None, candidate(x, false), candidate(m, false)), None);
    assert_eq!(root(candidate(c, false), None, None), None);
}

#[test]
fn database_path_needs_the_file() {
    assert_eq!(
        opencode_database_path(candidate("/h/opencode.db", true)).as_deref(),
        Some("/h/opencode.db")
    );
    assert_eq!(opencode_database_path(candidate("/h/opencode.db", false)), None);
    assert_eq!(opencode_database_path(None::<Candidate<String>>), None);
}

#[test]
fn session_paths_with_backslashes_are_recognised() {
    assert!(is_opencode_session_path(r"C:\Users\u\opencode\opencode.db#ses_x"));
    assert!(!is_opencode_session_path("opencode.db#ses_x"));
    assert!(!is_opencode_session_path(""));
    assert!(is_opencode_session_path("/a\u{e9}/opencode.db"));
}

#[test]
fn session_path_splits_at_the_last_separator() {
    assert_eq!(
        parse_session_path("/a#b/opencode.db#s"),
        Some(("/a#b/opencode.db".to_string(), "s".to_string()))
    );
    assert_eq!(
        parse_session_path("opencode.db#"),
        Some(("opencode.db".to_string(), String::new()))
    );
    assert_eq!(parse_session_path("/x/opencode.db"), None);
    assert_eq!(parse_session_path("/x/opencode.db#a#b"), None);
    assert_eq!(parse_session_path("#s"), None);
    assert_eq!(
        parse_session_path(r"C:\x\opencode.db#s"),
        Some((r"C:\x\opencode.db".to_string(), "s".to_string()))
    );
    for path in ["/x/notopencode.db#ses_1", "notopencode.db#s", "/opencode.db/x#s", ".db#s"] {
        assert_eq!(parse_session_path(path), None, "{}", path);
    }
    assert_eq!(synthetic_session_path("/x/opencode.db", "s"), "/x/opencode.db#s");
}

#[test]
fn uri_asks_for_reading_only() {
    assert_eq!(database_uri("/x/opencode.db"), "file:/x/opencode.db?mode=ro");
}

#[test]
fn milliseconds_to_instants() {
    assert_eq!(millis_to_datetime(1769762431585), Some(at(1769762431, 585_000_000)));
    assert_eq!(millis_to_datetime(0), Some(at(0, 0)));
    assert_eq!(millis_to_datetime(999), Some(at(0, 999_000_000)));
    assert_eq!(millis_to_datetime(-1), None);
    assert_eq!(millis_to_datetime(i64::MIN), None);
    assert_eq!(millis_to_datetime(i64::MAX), None);
}

#[test]
fn instants_end_with_the_calendar() {
    let last = MAX_UTC_SECS * 1000 + 999;
    assert_eq!(millis_to_datetime(last), Some(at(MAX_UTC_SECS, 999_000_000)));
    assert_eq!(millis_to_datetime(last + 1), None);
    assert_eq!(chrono::DateTime::<chrono::Utc>::MAX_UTC.timestamp(), MAX_UTC_SECS);
}

#[test]
fn recorded_instant_falls_back_to_the_row() {
    assert_eq!(recorded_instant(Some(1500), 9000), Some(at(1, 500_000_000)));
    assert_eq!(recorded_instant(Some(-1), 9000), Some(at(9, 0)));
    assert_eq!(recorded_instant(None, 9000), Some(at(9, 0)));
    assert_eq!(recorded_instant(Some(-1), -1), None);
}

#[test]
fn clock_stands_in_for_a_missing_instant() {
    let before = chrono::Utc::now().timestamp();
    let instant = instant_or_now(None);
    let after = chrono::Utc::now().timestamp();
    assert!(before <= instant.secs && instant.secs <= after);
    assert_eq!(instant_or_now(Some(at(7, 8))), at(7, 8));
}

#[test]
fn part_is_read_from_json() {
    let part = parse_part(
        r#"{"type":"tool","text":"t","tool":"grep","state":{"input":{"b":[1,null],"a":"x"},"output":"out"}}"#,
    )
    .unwrap();
    assert_eq!(part.part_type.as_deref(), Some("tool"));
    assert_eq!(part.text.as_deref(), Some("t"));
    assert_eq!(part.tool.as_deref(), Some("grep"));
    let state = part.state.unwrap();
    assert_eq!(state.input.as_deref(), Some(r#"{"a":"x","b":[1,null]}"#));
    assert_eq!(state.output.as_deref(), Some("out"));
}

#[test]
fn part_fields_of_other_types_are_missing() {
    let part = parse_part(r#"{"type":1,"text":null,"state":"s"}"#).unwrap();
    assert_eq!(part.part_type, None);
    assert_eq!(part.text, None);
    assert_eq!(part.tool, None);
    assert_eq!(part.state, Some(ToolState { input: None, output: None }));
    assert_eq!(
        parse_part("[]"),
        Some(Part { part_type: None, text: None, tool: None, state: None })
    );
    assert_eq!(parse_part("{"), None);
    assert_eq!(parse_part(""), None);
}

#[test]
fn blocks_of_text_and_reasoning() {
    assert_eq!(blocks(&text_part("hi")), vec![ContentBlock::Text("hi".to_string())]);
    assert_eq!(blocks(&text_part(" \n\t\u{3000}")), vec![]);
    assert_eq!(blocks(&text_part("")), vec![]);
    let mut part = text_part(" why ");
    part.part_type = some("reasoning");
    assert_eq!(blocks(&part), vec![ContentBlock::Thinking(" why ".to_string())]);
    part.text = None;
    assert_eq!(blocks(&part), vec![]);
}

#[test]
fn blocks_of_a_tool() {
    let call = |input: &str| ContentBlock::ToolUse {
        name: "grep".to_string(),
        input: input.to_string(),
    };
    let full = tool_part(Some(ToolState { input: some("i"), output: some("o") }));
    assert_eq!(blocks(&full), vec![call("i"), ContentBlock::ToolResult("o".to_string())]);
    let blank = tool_part(Some(ToolState { input: some("i"), output: some(" ") }));
    assert_eq!(blocks(&blank), vec![call("i")]);
    assert_eq!(blocks(&tool_part(None)), vec![call("")]);
    let mut unnamed = tool_part(None);
    unnamed.tool = None;
    let mut pushed = vec![ContentBlock::Text("before".to_string())];
    push_tool_blocks(&unnamed, &mut pushed);
    assert_eq!(
        pushed,
        vec![
            ContentBlock::Text("before".to_string()),
            ContentBlock::ToolUse { name: "tool".to_string(), input: String::new() },
        ]
    );
}

#[test]
fn structural_parts_are_hidden() {
    for kind in ["step-start", "step-finish", "snapshot", "patch", "Text", ""] {
        let mut part = text_part("shown?");
        part.part_type = some(kind);
        assert_eq!(blocks(&part), vec![]);
        assert_eq!(render_part_text(&part), None);
    }
    let mut part = text_part("shown?");
    part.part_type = None;
    assert_eq!(blocks(&part), vec![]);
    assert_eq!(render_part_text(&part), None);
}

#[test]
fn rendered_text_of_parts() {
    assert_eq!(render_part_text(&text_part(" ")).as_deref(), Some(" "));
    let render = |input: Option<String>, output: Option<String>| {
        render_part_text(&tool_part(Some(ToolState { input, output })))
    };
    assert_eq!(render(some("i"), some("o")).as_deref(), Some("i\no"));
    assert_eq!(render(None, some("o")).as_deref(), Some("o"));
    assert_eq!(render(some("i"), None).as_deref(), Some("i"));
    assert_eq!(render(some("i"), some("")).as_deref(), Some("i\n"));
    assert_eq!(render(some(""), some("")), None);
    assert_eq!(render(None, None), None);
    assert_eq!(render_part_text(&tool_part(None)), None);
}

#[test]
fn session_of_a_row() {
    let session =
        OpencodeSession::from_row_at(session_row("s1", Some(""), 1000, -1), "/x/opencode.db", at(9, 9));
    assert_eq!(session.directory, None);
    assert_eq!(session.created_at, at(1, 0));
    assert_eq!(session.updated_at, at(1, 0));
    assert_eq!(session.session_file, "/x/opencode.db#s1");
    let session =
        OpencodeSession::from_row_at(session_row("s1", Some("/d"), -1, 2000), "d", at(9, 9));
    assert_eq!(session.directory.as_deref(), Some("/d"));
    assert_eq!(session.created_at, at(9, 9));
    assert_eq!(session.updated_at, at(2, 0));
    let session = OpencodeSession::from_row_at(session_row("s1", None, -1, -1), "d", at(9, 9));
    assert_eq!(session.created_at, at(9, 9));
    assert_eq!(session.updated_at, at(9, 9));
}

#[test]
fn session_of_a_lookup() {
    let row = session_row("s1", None, 1000, 2000);
    let session = OpencodeSession::from_db("/x/opencode.db", Some(row.clone())).unwrap();
    assert_eq!(session, OpencodeSession::from_row(row.clone(), "/x/opencode.db"));
    assert_eq!(OpencodeSession::from_db("/x/opencode.db", None), None);
    assert_eq!(
        OpencodeSession::from_file("/x/opencode.db#s1", Some(row.clone())),
        Some(session)
    );
    assert_eq!(OpencodeSession::from_file("/x/other.db#s1", Some(row.clone())), None);
    assert_eq!(OpencodeSession::from_file("/x/notopencode.db#s1", Some(row)), None);
    assert_eq!(OpencodeSession::from_file("/x/opencode.db#s1", None), None);
}

#[test]
fn listed_sessions_keep_their_order() {
    let rows = vec![
        Some(session_row("b", Some("/b"), 1, 9)),
        None,
        Some(session_row("none", None, 1, 8)),
        Some(session_row("empty", Some(""), 1, 7)),
        Some(session_row("a", Some("/a"), 1, 6)),
    ];
    let sessions = list_sessions(rows, "/x/opencode.db");
    let ids: Vec<&str> = sessions.iter().map(|s| s.id.as_str()).collect();
    assert_eq!(ids, vec!["b", "a"]);
}

#[test]
fn label_of_a_project() {
    let row = |name: Option<&str>, worktree: Option<&str>| ProjectRow {
        name: name.map(|n| n.to_string()),
        worktree: worktree.map(|w| w.to_string()),
    };
    assert_eq!(read_project_label(row(Some("n"), None)).as_deref(), Some("n"));
    assert_eq!(read_project_label(row(None, Some("/tmp/myproj"))).as_deref(), Some("myproj"));
    assert_eq!(read_project_label(row(Some(""), Some("/tmp/p//"))).as_deref(), Some("p"));
    assert_eq!(read_project_label(row(None, Some("proj"))).as_deref(), Some("proj"));
    assert_eq!(read_project_label(row(None, Some("/"))).as_deref(), Some("/"));
    assert_eq!(read_project_label(row(None, Some("/a/.."))).as_deref(), Some("/a/.."));
    assert_eq!(read_project_label(row(None, Some(""))).as_deref(), Some(""));
    for worktree in ["/srv/app/.", "/srv/app/./", "/srv/app/.//./", "app/.", "./app"] {
        assert_eq!(read_project_label(row(None, Some(worktree))).as_deref(), Some("app"));
    }
    for worktree in ["/srv/a:b", "/srv/a:b/.", "C:/a:b", "x/a:b", "C:x/a:b/"] {
        assert_eq!(read_project_label(row(None, Some(worktree))).as_deref(), Some("a:b"));
    }
    assert_eq!(read_project_label(row(None, Some("/C:"))).as_deref(), Some("C:"));
    assert_eq!(read_project_label(row(None, Some("ab:c"))).as_deref(), Some("ab:c"));
    for worktree in ["/a/../", "/a/../.", "..", ".", "./.", "/.", "/./"] {
        assert_eq!(read_project_label(row(None, Some(worktree))).as_deref(), Some(worktree));
    }
    assert_eq!(read_project_label(row(None, Some("/a/..."))).as_deref(), Some("..."));
    assert_eq!(read_project_label(row(None, Some("/a/b."))).as_deref(), Some("b."));
    assert_eq!(read_project_label(row(Some(""), None)), None);
    assert_eq!(project_label(row(None, Some("w")), some("b")).as_deref(), Some("b"));
    assert_eq!(project_label(row(None, Some("w")), some("")).as_deref(), Some("w"));
    assert_eq!(project_label(row(None, None), some("b")), None);
}

#[test]
fn meta_is_read_from_json() {
    assert_eq!(
        parse_meta(r#"{"role":"user","parentID":"m0","time":{"created":12}}"#),
        Some(MessageMeta { role: some("user"), parent_id: some("m0"), created: Some(12) })
    );
    assert_eq!(
        parse_meta(r#"{"role":1,"time":{"created":1.5}}"#),
        Some(MessageMeta { role: None, parent_id: None, created: None })
    );
    assert_eq!(
        parse_meta(r#"{"time":{"created":9223372036854775808}}"#).unwrap().created,
        None
    );
    for created in ["1.0", "-0", "1e3", "\"1\"", "null"] {
        let data = format!("{{\"time\":{{\"created\":{}}}}}", created);
        assert_eq!(parse_meta(&data).unwrap().created, None, "{}", created);
    }
    assert_eq!(parse_meta(r#"{"time":{"created":-7}}"#).unwrap().created, Some(-7));
    assert_eq!(parse_meta(r#"{"time":3}"#).unwrap().created, None);
    assert_eq!(parse_meta("nope"), None);
}

#[test]
fn roles() {
    let meta = |role: Option<&str>| MessageMeta {
        role: role.map(|r| r.to_string()),
        parent_id: None,
        created: None,
    };
    assert_eq!(message_role(&meta(Some("user"))), Some(MessageRole::User));
    assert_eq!(message_role(&meta(Some("assistant"))), Some(MessageRole::Assistant));
    assert_eq!(message_role(&meta(Some("system"))), None);
    assert_eq!(message_role(&meta(Some("User"))), None);
    assert_eq!(message_role(&meta(None)), None);
    assert_eq!(
        role_and_time(&meta(Some("user")), -1, at(3, 4)),
        Some((MessageRole::User, at(3, 4)))
    );
    assert_eq!(role_and_time(&meta(None), 1000, at(3, 4)), None);
}

#[test]
fn role_and_time_of_a_row() {
    assert_eq!(
        read_message_role_and_time(r#"{"role":"user"}"#, 2500),
        Some((MessageRole::User, at(2, 500_000_000)))
    );
    assert_eq!(
        read_message_role_and_time(r#"{"role":"assistant","time":{"created":-4}}"#, 2500),
        Some((MessageRole::Assistant, at(2, 500_000_000)))
    );
    assert_eq!(read_message_role_and_time(r#"{"role":"tool"}"#, 2500), None);
    assert_eq!(read_message_role_and_time("{}", 2500), None);
    assert_eq!(read_message_role_and_time("{", 2500), None);
}

#[test]
fn lookup_agrees_with_load() {
    let data = r#"{"role":"assistant","time":{"created":7000}}"#;
    let messages = load_messages(vec![message_row("m", 1, data)], vec![]);
    assert_eq!(
        read_message_role_and_time(data, 1),
        Some((messages[0].role, messages[0].created_at))
    );
}

#[test]
fn message_of_an_entry() {
    let message = message_of(entry("m", Some("user"), None), vec![], at(1, 1)).unwrap();
    assert_eq!(message.created_at, at(5, 0));
    assert_eq!(message.id, "m");
    assert_eq!(message.session_id, "s");
    let mut undated = entry("m", Some("user"), Some(-1));
    undated.time_created = -1;
    assert_eq!(message_of(undated, vec![], at(1, 1)).unwrap().created_at, at(1, 1));
    assert_eq!(message_of(entry("m", Some("other"), None), vec![], at(1, 1)), None);
}

#[test]
fn messages_take_the_blocks_of_their_parts() {
    let entries = vec![
        entry("b", Some("assistant"), None),
        entry("x", Some("system"), None),
        entry("a", Some("user"), None),
        entry("b", Some("user"), None),
    ];
    let parts = vec![
        part_entry("a", text_part("a1")),
        part_entry("b", text_part("b1")),
        part_entry("lost", text_part("lost")),
        part_entry("a", text_part("a2")),
        part_entry("a", text_part("  ")),
    ];
    let messages = assemble_messages(entries, parts);
    let text = |t: &str| ContentBlock::Text(t.to_string());
    assert_eq!(messages.len(), 3);
    assert_eq!(messages[0].content_blocks, vec![text("b1")]);
    assert_eq!(messages[1].content_blocks, vec![text("a1"), text("a2")]);
    assert_eq!(messages[2].id, "b");
    assert_eq!(messages[2].content_blocks, vec![]);
}

#[test]
fn unshown_entry_leaves_the_blocks_to_a_later_one() {
    let entries = vec![entry("b", Some("system"), None), entry("b", Some("user"), None)];
    let messages = assemble_messages(entries, vec![part_entry("b", text_part("b1"))]);
    assert_eq!(messages.len(), 1);
    assert_eq!(messages[0].content_blocks, vec![ContentBlock::Text("b1".to_string())]);
}

#[test]
fn unreadable_rows_are_left_out() {
    let messages = load_messages(
        vec![
            None,
            message_row("bad", 1, "{"),
            message_row("m", 1, r#"{"role":"user","parentID":"p"}"#),
        ],
        vec![
            None,
            part_row("m", "not json"),
            part_row("m", r#"{"type":"text","text":"kept"}"#),
        ],
    );
    assert_eq!(messages.len(), 1);
    assert_eq!(messages[0].parent_id.as_deref(), Some("p"));
    assert_eq!(messages[0].created_at, at(0, 1_000_000));
    assert_eq!(messages[0].content_blocks, vec![ContentBlock::Text("kept".to_string())]);
}

#[test]
fn loaded_message_without_instant_has_the_current_one() {
    let before = chrono::Utc::now().timestamp();
    let messages = load_messages(vec![message_row("m", -1, r#"{"role":"user"}"#)], vec![]);
    assert!(messages[0].created_at.secs >= before);
}

#[test]
fn chain_follows_the_order() {
    let entries = vec![
        entry("a", Some("user"), None),
        entry("b", Some("assistant"), Some(6000)),
        entry("c", Some("assistant"), None),
    ];
    let records = chain_messages(assemble_messages(entries, vec![]));
    assert_eq!(records.len(), 3);
    let expected = [("a", None), ("b", Some("a")), ("c", Some("b"))];
    for (i, (record, position, instant)) in records.iter().enumerate() {
        assert_eq!(*position, i);
        assert_eq!(*instant, Some(at(if i == 1 { 6 } else { 5 }, 0)));
        let SessionRecord::Message { uuid, parent_uuid, is_sidechain, .. } = record;
        assert_eq!(uuid.as_deref(), Some(expected[i].0));
        assert_eq!(parent_uuid.as_deref(), expected[i].1);
        assert!(!is_sidechain);
    }
}

fn uuids_and_parents(records: &[MaterializedRecord]) -> Vec<(Option<&str>, Option<&str>)> {
    records
        .iter()
        .map(|(SessionRecord::Message { uuid, parent_uuid, .. }, _, _)| {
            (uuid.as_deref(), parent_uuid.as_deref())
        })
        .collect()
}

#[test]
fn chain_is_in_the_order_of_creation() {
    let session = OpencodeSession::from_row(session_row("s", None, 1, 1), "/x/opencode.db");
    let rows = vec![
        message_row("a", 1, r#"{"role":"user","time":{"created":20}}"#),
        message_row("b", 2, r#"{"role":"user","time":{"created":10}}"#),
    ];
    let (id, records) = materialize_session(&session, rows, vec![]).unwrap();
    assert_eq!(id, "s");
    assert_eq!(
        uuids_and_parents(&records),
        vec![(Some("b"), None), (Some("a"), Some("b"))]
    );
    assert_eq!(records[0].1, 0);
    assert_eq!(records[1].1, 1);
    assert_eq!(records[0].2, Some(at(0, 10_000_000)));
    assert_eq!(records[1].2, Some(at(0, 20_000_000)));
}

#[test]
fn sorting_keeps_the_order_of_one_instant() {
    let entries = vec![
        entry("a", Some("user"), Some(9000)),
        entry("b", Some("user"), Some(7000)),
        entry("x", Some("system"), Some(1)),
        entry("c", Some("user"), Some(9000)),
        entry("d", Some("user"), Some(6999)),
        entry("e", Some("user"), Some(7000)),
        entry("f", Some("user"), Some(9000)),
    ];
    assert_eq!(created_millis(&entries), vec![9000, 7000, 9000, 6999, 7000, 9000]);
    // Loading alone goes by the rows.
    assert_eq!(assemble_messages(entries.clone(), vec![])[0].id, "a");
    let records = materialize_entries(entries, vec![]);
    assert_eq!(
        uuids_and_parents(&records),
        vec![
            (Some("d"), None),
            (Some("b"), Some("d")),
            (Some("e"), Some("b")),
            (Some("a"), Some("e")),
            (Some("c"), Some("a")),
            (Some("f"), Some("c")),
        ]
    );
    assert_eq!(materialize_entries(vec![], vec![]), vec![]);
}

#[test]
fn milliseconds_that_name_no_instant_still_order_the_chain() {
    let session = OpencodeSession::from_row(session_row("s", None, 1, 1), "/x/opencode.db");
    let rows = vec![
        message_row("late", i64::MAX, r#"{"role":"user"}"#),
        message_row("plain", 1000, r#"{"role":"user"}"#),
        message_row("early", -5, r#"{"role":"assistant"}"#),
        message_row("unusable", 500, r#"{"role":"user","time":{"created":-9}}"#),
        message_row("usable", i64::MIN, r#"{"role":"user","time":{"created":700}}"#),
        message_row("earliest", -6, r#"{"role":"user","time":{"created":9223372036854775807}}"#),
    ];
    let (_, records) = materialize_session(&session, rows, vec![]).unwrap();
    let uuids: Vec<&str> = uuids_and_parents(&records).iter().map(|r| r.0.unwrap()).collect();
    assert_eq!(uuids, vec!["earliest", "early", "unusable", "usable", "plain", "late"]);
    assert_eq!(records[2].2, Some(at(0, 500_000_000)));
    assert_eq!(records[3].2, Some(at(0, 700_000_000)));
    assert_eq!(records[4].2, Some(at(1, 0)));
}

#[test]
fn milliseconds_that_count() {
    assert_eq!(recorded_millis(Some(1500), 9000), 1500);
    assert_eq!(recorded_millis(Some(-1), 9000), 9000);
    assert_eq!(recorded_millis(Some(i64::MAX), -3), -3);
    assert_eq!(recorded_millis(None, -3), -3);
}

#[test]
fn session_with_a_foreign_path_is_not_materialized() {
    let session = OpencodeSession::from_row(session_row("s1", None, 1, 1), "/x/other.db");
    assert_eq!(materialize_session(&session, vec![], vec![]), None);
    let session = OpencodeSession::from_row(session_row("s1", None, 1, 1), "/x/notopencode.db");
    assert_eq!(materialize_session(&session, vec![], vec![]), None);
    let session = OpencodeSession::from_row(session_row("s1", None, 1, 1), "/x/opencode.db");
    assert_eq!(
        materialize_session(&session, vec![], vec![]),
        Some(("s1".to_string(), vec![]))
    );
}

#[test]
fn like_characters_are_escaped() {
    assert_eq!(escape_like(r"50%_\x"), r"50\%\_\\x");
    assert_eq!(escape_like("plain"), "plain");
    assert_eq!(escape_like(""), "");
}

#[test]
fn patterns_and_substrings() {
    assert_eq!(like_pattern("a%"), r"%a\%%");
    assert!(contains_text("abc", "bc"));
    assert!(contains_text("abc", ""));
    assert!(!contains_text("abc", "cb"));
    assert!(!contains_text("", "a"));
}

#[test]
fn blank_texts_are_those_of_white_space() {
    for ch in '\0'..=char::MAX {
        let shown = !blocks(&text_part(&ch.to_string())).is_empty();
        assert_eq!(shown, !ch.to_string().trim().is_empty(), "{:?}", ch);
    }
}

#[test]
fn statements_of_the_searches() {
    let statement = search_statement("A_b", SearchMode::Fixed);
    assert_eq!(statement.sql, FIXED_SEARCH_SQL);
    assert_eq!(statement.params, vec![r"%a\_b%".to_string()]);
    assert_eq!(
        FIXED_SEARCH_SQL,
        r"SELECT session_id, message_id, data FROM part WHERE LOWER(data) LIKE ?1 ESCAPE '\' OR INSTR(data, '\') > 0 OR data GLOB '*[^ -~]*' OR INSTR(data, 'tool') > 0 ORDER BY time_created DESC"
    );
    let longest = "a".repeat(LONGEST_PATTERN - 2);
    assert_eq!(
        search_statement(&longest, SearchMode::Fixed).params,
        vec![format!("%{}%", longest)]
    );
    let statement = search_statement(&format!("{}a", longest), SearchMode::Fixed);
    assert_eq!(statement.sql, SCAN_SQL);
    assert!(statement.params.is_empty());
    let re = regex::Regex::new("a").unwrap();
    let statement = search_statement("A_b", SearchMode::Regex(&re));
    assert_eq!(statement.sql, SCAN_SQL);
    assert!(statement.params.is_empty());
}

#[test]
fn hits_of_one_message_collapse_to_the_first() {
    let hits = vec![hit("s", "m", "1"), hit("s", "n", "2"), hit("s", "m", "3"), hit("t", "m", "4")];
    assert_eq!(
        collapse_hits(hits),
        vec![hit("s", "m", "1"), hit("s", "n", "2"), hit("t", "m", "4")]
    );
    let apart = vec![hit("a:b", "c", "1"), hit("a", "b:c", "2"), hit("", "a", "3"), hit("a", "", "4")];
    assert_eq!(collapse_hits(apart.clone()), apart);
    assert_eq!(collapse_hits(vec![]), vec![]);
}

#[test]
fn search_looks_at_what_is_shown() {
    let rows = || {
        vec![
            search_row("s", "m1", r#"{"type":"text","text":"Find ME"}"#),
            None,
            search_row("s", "m2", "not json find me"),
            search_row("s", "m3", r#"{"type":"patch","text":"find me"}"#),
            search_row("s", "m4", r#"{"type":"tool","state":{"input":{"q":"find me"}}}"#),
            search_row("s", "m1", r#"{"type":"reasoning","text":"find me again"}"#),
        ]
    };
    assert_eq!(find_hits(rows(), "FIND me", SearchMode::Fixed).len(), 3);
    let hits = search_parts(rows(), "FIND me", SearchMode::Fixed);
    assert_eq!(hits, vec![hit("s", "m1", "Find ME"), hit("s", "m4", r#"{"q":"find me"}"#)]);
    assert_eq!(search_parts(rows(), "find me", SearchMode::Fixed), hits);
    assert_eq!(search_parts(rows(), "", SearchMode::Fixed).len(), 2);
    assert!(search_parts(rows(), "type", SearchMode::Fixed).is_empty());
}

#[test]
fn all_ascii_letters_are_folded() {
    let data = r#"{"type":"text","text":"ABCDEFGHIJKLMNOPQRSTUVWXYZ[]@_0"}"#;
    let rows = || vec![search_row("s", "m", data)];
    let found = |query: &str| !search_parts(rows(), query, SearchMode::Fixed).is_empty();
    assert!(found("abcdefghijklmnopqrstuvwxyz[]@_0"));
    assert!(found("xYz["));
    assert!(!found("xyz{"));
    assert!(!found("az"));
}

#[test]
fn case_is_folded_beyond_ascii() {
    let rows = vec![search_row("s", "m", "{\"type\":\"text\",\"text\":\"\u{c9}T\u{c9}\"}")];
    assert_eq!(search_parts(rows, "\u{e9}t\u{e9}", SearchMode::Fixed).len(), 1);
}

#[test]
fn regex_search_ignores_the_query() {
    let rows = || vec![search_row("s", "m", r#"{"type":"text","text":"abc 42"}"#)];
    let re = regex::Regex::new(r"\d+$").unwrap();
    assert_eq!(search_parts(rows(), "nothing", SearchMode::Regex(&re)).len(), 1);
    let re = regex::Regex::new("^ABC").unwrap();
    assert!(search_parts(rows(), "abc", SearchMode::Regex(&re)).is_empty());
}
