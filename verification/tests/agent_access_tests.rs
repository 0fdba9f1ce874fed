use std::cell::RefCell;
use std::collections::BTreeMap;

use scrybe_core::agent_access::protocol::{
    handle_request, RpcReply, RpcRequest, ToolOutcome, ToolPayload, INVALID_PARAMS,
    METHOD_NOT_FOUND, PROTOCOL_VERSION, SCHEMA_VERSION,
};
use scrybe_core::agent_access::wire::{handle_message, result_line, Answer};
use scrybe_core::agent_access::reader::{
    check_id, clamp_limit, get_meeting, get_meeting_notes, get_meeting_transcript,
    list_recent_meetings, list_sessions, resolve_meeting_folder, resolve_name, search_sessions,
    sort_recent_first, AgentAccessError, MeetingSummary, MetaSnapshot, ReadOnlyFs,
    SessionStatus,
};

const ROOT: &str = "/scrybe";

/// An in-memory storage root: directories and files by full path.
#[derive(Default)]
struct MemFs {
    dirs: Vec<String>,
    files: BTreeMap<String, String>,
    reads: RefCell<usize>,
}

impl MemFs {
    fn new() -> Self {
        let mut fs = MemFs::default();
        fs.dirs.push(ROOT.to_string());
        fs
    }

    fn dir(&mut self, path: &str) {
        if !self.dirs.iter().any(|d| d == path) {
            self.dirs.push(path.to_string());
        }
    }

    fn file(&mut self, path: &str, body: &str) {
        self.files.insert(path.to_string(), body.to_string());
    }

    fn finished(&mut self, folder: &str, title: &str, duration_secs: u64, notes: &str, transcript: &str) {
        let dir = format!("{ROOT}/{folder}");
        self.dir(&dir);
        let meta = format!(
            "session_id = \"{folder}\"\ntitle = \"{title}\"\nstarted_at = \"2026-01-01T09:00:00Z\"\nended_at = \"2026-01-01T09:00:00Z\"\nduration_secs = {duration_secs}\n"
        );
        self.file(&format!("{dir}/meta.toml"), &meta);
        self.file(&format!("{dir}/notes.md"), notes);
        self.file(&format!("{dir}/transcript.md"), transcript);
    }

    fn unfinished(&mut self, folder: &str) {
        let dir = format!("{ROOT}/{folder}");
        self.dir(&dir);
        self.dir(&format!("{dir}/journal"));
        self.file(&format!("{dir}/journal/mic.f32"), "\0\0\0\0\0\0\0\0");
    }

    fn snapshot(&self) -> (Vec<String>, BTreeMap<String, String>) {
        (self.dirs.clone(), self.files.clone())
    }
}

impl ReadOnlyFs for MemFs {
    fn subdirectories(&self, dir: &str) -> Result<Vec<String>, String> {
        if !self.dirs.iter().any(|d| d == dir) {
            return Err("No such file or directory (os error 2)".to_string());
        }
        let prefix = format!("{dir}/");
        Ok(self
            .dirs
            .iter()
            .filter_map(|d| d.strip_prefix(&prefix))
            .filter(|rest| !rest.contains('/'))
            .map(str::to_string)
            .collect())
    }

    fn path_exists(&self, path: &str) -> bool {
        self.dirs.iter().any(|d| d == path) || self.files.contains_key(path)
    }

    fn read_to_string(&self, path: &str) -> Result<String, String> {
        *self.reads.borrow_mut() += 1;
        self.files
            .get(path)
            .cloned()
            .ok_or_else(|| "No such file or directory (os error 2)".to_string())
    }
}

fn parse_meta(body: &str) -> Result<MetaSnapshot, String> {
    let table: toml::Table = body.parse().map_err(|e: toml::de::Error| e.to_string())?;
    let text = |key: &str| table.get(key).and_then(|v| v.as_str()).map(str::to_string);
    Ok(MetaSnapshot {
        session_id: text("session_id").ok_or("missing field `session_id`")?,
        title: text("title"),
        started_at: text("started_at").ok_or("missing field `started_at`")?,
        ended_at: text("ended_at"),
        duration_secs: table
            .get("duration_secs")
            .and_then(|v| v.as_integer())
            .map(|v| v as u64),
    })
}

fn request(method: &str) -> RpcRequest {
    RpcRequest {
        method: Some(method.to_string()),
        has_id: true,
        tool_name: None,
        query: None,
        meeting_id: None,
        limit: None,
    }
}

fn tool_call(name: &str) -> RpcRequest {
    RpcRequest {
        tool_name: Some(name.to_string()),
        ..request("tools/call")
    }
}

#[test]
fn test_list_sessions_reports_finished_and_unfinished_rows() {
    let mut fs = MemFs::new();
    fs.finished("2026-01-01-0900-standup-01AAA", "Standup", 120, "notes body", "transcript body");
    fs.unfinished("2026-01-02-0900-crashed-01BBB");
    let mut rows = list_sessions(&fs, &parse_meta, ROOT).unwrap();
    rows.sort_by(|a, b| a.folder.cmp(&b.folder));
    assert_eq!(rows.len(), 2);
    assert_eq!(rows[0].status, SessionStatus::Finished);
    assert_eq!(rows[0].title.as_deref(), Some("Standup"));
    assert_eq!(rows[0].duration_secs, Some(120));
    assert_eq!(rows[1].status, SessionStatus::Unfinished);
    assert_eq!(rows[1].session_id, None);
}

#[test]
fn test_list_sessions_skips_folder_with_neither_meta_nor_journal() {
    let mut fs = MemFs::new();
    fs.dir("/scrybe/stray-empty-dir");
    let rows = list_sessions(&fs, &parse_meta, ROOT).unwrap();
    assert!(rows.is_empty());
}

#[test]
fn test_list_sessions_errors_when_root_missing() {
    let fs = MemFs::new();
    let err = list_sessions(&fs, &parse_meta, "/scrybe/does-not-exist").unwrap_err();
    assert!(matches!(err, AgentAccessError::RootMissing { .. }));
}

#[test]
fn test_list_recent_meetings_orders_most_recent_first_and_respects_limit() {
    let mut fs = MemFs::new();
    fs.finished("2026-01-01-0900-first-01AAA", "First", 10, "", "");
    fs.finished("2026-01-03-0900-third-01CCC", "Third", 10, "", "");
    fs.finished("2026-01-02-0900-second-01BBB", "Second", 10, "", "");
    let rows = list_recent_meetings(&fs, &parse_meta, ROOT, 2).unwrap();
    assert_eq!(rows.len(), 2);
    assert_eq!(rows[0].title.as_deref(), Some("Third"));
    assert_eq!(rows[1].title.as_deref(), Some("Second"));
}

#[test]
fn test_search_sessions_matches_title_case_insensitively() {
    let mut fs = MemFs::new();
    fs.finished("2026-01-01-0900-acme-01AAA", "Acme Discovery", 10, "", "");
    fs.finished("2026-01-02-0900-other-01BBB", "Unrelated", 10, "", "");
    let hits = search_sessions(&fs, &parse_meta, ROOT, "ACME", 10).unwrap();
    assert_eq!(hits.len(), 1);
    assert_eq!(hits[0].title.as_deref(), Some("Acme Discovery"));
}

#[test]
fn test_search_sessions_matches_notes_content() {
    let mut fs = MemFs::new();
    fs.finished("2026-01-01-0900-standup-01AAA", "Standup", 10, "Action item: renew the widget contract.", "");
    let hits = search_sessions(&fs, &parse_meta, ROOT, "widget contract", 10).unwrap();
    assert_eq!(hits.len(), 1);
    assert_eq!(hits[0].folder, "2026-01-01-0900-standup-01AAA");
}

#[test]
fn test_search_sessions_matches_unfinished_folder_name_without_content() {
    let mut fs = MemFs::new();
    fs.unfinished("2026-01-01-0900-crashed-call-01AAA");
    let hits = search_sessions(&fs, &parse_meta, ROOT, "crashed-call", 10).unwrap();
    assert_eq!(hits.len(), 1);
    assert_eq!(hits[0].status, SessionStatus::Unfinished);
}

#[test]
fn search_never_reads_unfinished_content() {
    let mut fs = MemFs::new();
    fs.unfinished("2026-01-01-0900-crashed-01AAA");
    fs.file("/scrybe/2026-01-01-0900-crashed-01AAA/notes.md", "secret widget");
    let hits = search_sessions(&fs, &parse_meta, ROOT, "widget", 10).unwrap();
    assert!(hits.is_empty());
    assert_eq!(*fs.reads.borrow(), 0);
}

#[test]
fn test_get_meeting_returns_finished_metadata() {
    let mut fs = MemFs::new();
    fs.finished("2026-01-01-0900-standup-01AAA", "Standup", 60, "", "");
    let meeting = get_meeting(&fs, &parse_meta, ROOT, "2026-01-01-0900-standup-01AAA").unwrap();
    assert_eq!(meeting.status, SessionStatus::Finished);
    assert_eq!(meeting.session_id.as_deref(), Some("2026-01-01-0900-standup-01AAA"));
    assert_eq!(meeting.duration_secs, Some(60));
}

#[test]
fn test_get_meeting_reports_unfinished_status_without_serving_meta_fields() {
    let mut fs = MemFs::new();
    fs.unfinished("2026-01-01-0900-crashed-01AAA");
    let meeting = get_meeting(&fs, &parse_meta, ROOT, "2026-01-01-0900-crashed-01AAA").unwrap();
    assert_eq!(meeting.status, SessionStatus::Unfinished);
    assert_eq!(meeting.session_id, None);
    assert_eq!(meeting.title, None);
    assert_eq!(meeting.started_at, None);
    assert_eq!(meeting.duration_secs, None);
}

#[test]
fn test_get_meeting_errors_not_found_for_unknown_id() {
    let fs = MemFs::new();
    let err = get_meeting(&fs, &parse_meta, ROOT, "nothing-here").unwrap_err();
    assert!(matches!(err, AgentAccessError::NotFound { .. }));
}

#[test]
fn test_get_meeting_errors_not_found_for_empty_directory() {
    let mut fs = MemFs::new();
    fs.dir("/scrybe/empty-dir");
    let err = get_meeting(&fs, &parse_meta, ROOT, "empty-dir").unwrap_err();
    assert!(matches!(err, AgentAccessError::NotFound { .. }));
}

#[test]
fn test_get_meeting_notes_returns_content_for_finished_session() {
    let mut fs = MemFs::new();
    fs.finished("2026-01-01-0900-standup-01AAA", "Standup", 10, "# Notes\n\nDiscussed roadmap.", "");
    let notes = get_meeting_notes(&fs, &parse_meta, ROOT, "2026-01-01-0900-standup-01AAA").unwrap();
    assert_eq!(notes.status, SessionStatus::Finished);
    assert_eq!(notes.content.as_deref(), Some("# Notes\n\nDiscussed roadmap."));
}

#[test]
fn test_get_meeting_notes_returns_none_content_for_unfinished_session() {
    let mut fs = MemFs::new();
    fs.unfinished("2026-01-01-0900-crashed-01AAA");
    let notes = get_meeting_notes(&fs, &parse_meta, ROOT, "2026-01-01-0900-crashed-01AAA").unwrap();
    assert_eq!(notes.status, SessionStatus::Unfinished);
    assert_eq!(notes.content, None);
}

#[test]
fn test_get_meeting_notes_returns_none_when_file_missing_on_finished_session() {
    let mut fs = MemFs::new();
    fs.dir("/scrybe/2026-01-01-0900-standup-01AAA");
    fs.file(
        "/scrybe/2026-01-01-0900-standup-01AAA/meta.toml",
        "session_id = \"01AAA\"\nstarted_at = \"2026-01-01T09:00:00Z\"\n",
    );
    let notes = get_meeting_notes(&fs, &parse_meta, ROOT, "2026-01-01-0900-standup-01AAA").unwrap();
    assert_eq!(notes.status, SessionStatus::Finished);
    assert_eq!(notes.content, None);
}

#[test]
fn test_get_meeting_transcript_returns_content_for_finished_session() {
    let mut fs = MemFs::new();
    fs.finished("2026-01-01-0900-standup-01AAA", "Standup", 10, "", "**Me** [00:00:01]: hello\n");
    let transcript =
        get_meeting_transcript(&fs, &parse_meta, ROOT, "2026-01-01-0900-standup-01AAA").unwrap();
    assert_eq!(transcript.content.as_deref(), Some("**Me** [00:00:01]: hello\n"));
}

#[test]
fn test_resolve_meeting_folder_rejects_path_separators() {
    let fs = MemFs::new();
    let err = resolve_meeting_folder(&fs, ROOT, "../etc/passwd").unwrap_err();
    assert!(matches!(err, AgentAccessError::InvalidId { .. }));
}

#[test]
fn test_resolve_meeting_folder_rejects_dot_dot() {
    let fs = MemFs::new();
    let err = resolve_meeting_folder(&fs, ROOT, "..").unwrap_err();
    assert!(matches!(err, AgentAccessError::InvalidId { .. }));
}

#[test]
fn test_resolve_meeting_folder_errors_on_ambiguous_prefix() {
    let mut fs = MemFs::new();
    fs.finished("2026-01-01-0900-alpha-01AAA", "Alpha", 10, "", "");
    fs.finished("2026-01-02-0900-alpha-01BBB", "Alpha 2", 10, "", "");
    let err = resolve_meeting_folder(&fs, ROOT, "alpha").unwrap_err();
    assert!(matches!(err, AgentAccessError::Ambiguous { count: 2, .. }));
}

#[test]
fn test_resolve_meeting_folder_matches_ulid_suffix_uniquely() {
    let mut fs = MemFs::new();
    fs.finished("2026-01-01-0900-standup-01AAAUNIQUE", "Standup", 10, "", "");
    let folder = resolve_meeting_folder(&fs, ROOT, "01AAAUNIQUE").unwrap();
    assert_eq!(folder, "/scrybe/2026-01-01-0900-standup-01AAAUNIQUE");
}

#[test]
fn check_id_rejects_empty_backslash_and_dot() {
    assert!(matches!(check_id(""), Err(AgentAccessError::InvalidId { .. })));
    assert!(matches!(check_id("a\\b"), Err(AgentAccessError::InvalidId { .. })));
    assert!(matches!(check_id("."), Err(AgentAccessError::InvalidId { .. })));
    assert!(check_id("...").is_ok());
    assert!(check_id("01AAA").is_ok());
}

#[test]
fn resolve_name_prefers_exact_name_over_substring_hits() {
    let names = vec!["standup".to_string(), "standup-2".to_string()];
    assert_eq!(resolve_name(&names, "standup").unwrap(), "standup");
    assert!(matches!(
        resolve_name(&names, "stand"),
        Err(AgentAccessError::Ambiguous { count: 2, .. })
    ));
    assert!(matches!(resolve_name(&names, "zzz"), Err(AgentAccessError::NotFound { .. })));
}

#[test]
fn agent_access_error_messages() {
    let e = AgentAccessError::Ambiguous { id: "alpha".to_string(), count: 2 };
    assert_eq!(e.to_string(), "\"alpha\" matches 2 meetings; use the full folder name or ULID");
    let e = AgentAccessError::NotFound { id: "x".to_string() };
    assert_eq!(e.to_string(), "no meeting matches \"x\"");
    let e = AgentAccessError::RootMissing { root: "/r".to_string() };
    assert_eq!(e.to_string(), "storage root does not exist: /r");
}

#[test]
fn clamp_limit_bounds() {
    assert_eq!(clamp_limit(0), 1);
    assert_eq!(clamp_limit(7), 7);
    assert_eq!(clamp_limit(10_000), 200);
}

#[test]
fn sort_recent_first_orders_by_folder_descending() {
    let rows: Vec<MeetingSummary> = ["b", "c", "a"]
        .iter()
        .map(|f| MeetingSummary::unfinished(f.to_string()))
        .collect();
    let sorted = sort_recent_first(rows);
    let folders: Vec<&str> = sorted.iter().map(|r| r.folder.as_str()).collect();
    assert_eq!(folders, vec!["c", "b", "a"]);
}

#[test]
fn test_initialize_returns_schema_version_and_protocol_version() {
    let fs = MemFs::new();
    assert_eq!(handle_request(&fs, &parse_meta, ROOT, &request("initialize")), RpcReply::Initialize);
    assert_eq!(SCHEMA_VERSION, 1);
    assert_eq!(PROTOCOL_VERSION, "2024-11-05");
}

#[test]
fn test_ping_returns_schema_version() {
    let fs = MemFs::new();
    assert_eq!(handle_request(&fs, &parse_meta, ROOT, &request("ping")), RpcReply::Ping);
}

#[test]
fn test_tools_list_returns_exactly_the_five_required_tools_with_schema_version() {
    let fs = MemFs::new();
    assert_eq!(handle_request(&fs, &parse_meta, ROOT, &request("tools/list")), RpcReply::ToolsList);
}

#[test]
fn test_tools_call_list_recent_meetings_returns_versioned_envelope_with_meeting() {
    let mut fs = MemFs::new();
    fs.finished("2026-01-01-0900-standup-01AAA", "Standup", 60, "", "");
    match handle_request(&fs, &parse_meta, ROOT, &tool_call("list_recent_meetings")) {
        RpcReply::Tool(ToolOutcome::Success(ToolPayload::Meetings(rows))) => {
            assert_eq!(rows[0].title.as_deref(), Some("Standup"));
        }
        other => panic!("unexpected reply {other:?}"),
    }
}

#[test]
fn test_tools_call_get_meeting_unfinished_reports_status_not_complete() {
    let mut fs = MemFs::new();
    fs.unfinished("2026-01-01-0900-crashed-01AAA");
    let req = RpcRequest {
        meeting_id: Some("2026-01-01-0900-crashed-01AAA".to_string()),
        ..tool_call("get_meeting")
    };
    match handle_request(&fs, &parse_meta, ROOT, &req) {
        RpcReply::Tool(ToolOutcome::Success(ToolPayload::Meeting(m))) => {
            assert_eq!(m.status.as_str(), "unfinished");
            assert!(m.title.is_none());
        }
        other => panic!("unexpected reply {other:?}"),
    }
}

#[test]
fn test_tools_call_get_meeting_not_found_sets_is_error_true() {
    let fs = MemFs::new();
    let req = RpcRequest {
        meeting_id: Some("missing".to_string()),
        ..tool_call("get_meeting")
    };
    match handle_request(&fs, &parse_meta, ROOT, &req) {
        RpcReply::Tool(ToolOutcome::Failure(msg)) => assert_eq!(msg, "no meeting matches \"missing\""),
        other => panic!("unexpected reply {other:?}"),
    }
}

#[test]
fn test_tools_call_unknown_tool_name_sets_is_error_true_not_protocol_error() {
    let fs = MemFs::new();
    assert_eq!(
        handle_request(&fs, &parse_meta, ROOT, &tool_call("delete_meeting")),
        RpcReply::Tool(ToolOutcome::Failure("unknown tool: delete_meeting".to_string()))
    );
}

#[test]
fn test_tools_call_missing_name_is_a_protocol_invalid_params_error() {
    let fs = MemFs::new();
    match handle_request(&fs, &parse_meta, ROOT, &request("tools/call")) {
        RpcReply::Error { code, message } => {
            assert_eq!(code, INVALID_PARAMS);
            assert_eq!(message, "missing required params.name");
        }
        other => panic!("unexpected reply {other:?}"),
    }
}

#[test]
fn tools_call_missing_query_is_invalid_params() {
    let fs = MemFs::new();
    match handle_request(&fs, &parse_meta, ROOT, &tool_call("search_meetings")) {
        RpcReply::Error { code, message } => {
            assert_eq!(code, INVALID_PARAMS);
            assert_eq!(message, "missing or non-string params.arguments.query");
        }
        other => panic!("unexpected reply {other:?}"),
    }
}

#[test]
fn test_unknown_method_returns_method_not_found_error() {
    let fs = MemFs::new();
    match handle_request(&fs, &parse_meta, ROOT, &request("shutdown")) {
        RpcReply::Error { code, message } => {
            assert_eq!(code, METHOD_NOT_FOUND);
            assert_eq!(message, "method not found: shutdown");
        }
        other => panic!("unexpected reply {other:?}"),
    }
}

#[test]
fn missing_method_is_an_invalid_request_even_without_id() {
    let fs = MemFs::new();
    let req = RpcRequest { method: None, has_id: false, ..request("x") };
    match handle_request(&fs, &parse_meta, ROOT, &req) {
        RpcReply::Error { code, .. } => assert_eq!(code, -32_600),
        other => panic!("unexpected reply {other:?}"),
    }
}

#[test]
fn test_notification_produces_no_response() {
    let fs = MemFs::new();
    let req = RpcRequest { has_id: false, ..request("notifications/initialized") };
    assert_eq!(handle_request(&fs, &parse_meta, ROOT, &req), RpcReply::Silent);
    let with_id = request("notifications/initialized");
    assert_eq!(handle_request(&fs, &parse_meta, ROOT, &with_id), RpcReply::Silent);
}

#[test]
fn test_request_with_no_id_produces_no_response() {
    let fs = MemFs::new();
    let req = RpcRequest { has_id: false, ..request("ping") };
    assert_eq!(handle_request(&fs, &parse_meta, ROOT, &req), RpcReply::Silent);
}

#[test]
fn test_dispatch_never_mutates_fixture_tree_across_every_method_and_tool() {
    let mut fs = MemFs::new();
    fs.finished("2026-01-01-0900-standup-01AAA", "Standup", 120, "notes body", "transcript body");
    fs.unfinished("2026-01-02-0900-crashed-01BBB");
    let before = fs.snapshot();
    let mut requests = vec![
        request("initialize"),
        RpcRequest { has_id: false, ..request("notifications/initialized") },
        request("ping"),
        request("tools/list"),
        tool_call("list_recent_meetings"),
        RpcRequest { query: Some("standup".to_string()), ..tool_call("search_meetings") },
        tool_call("not_a_real_tool"),
        request("unsupported_method"),
    ];
    for (tool, id) in [
        ("get_meeting", "2026-01-01-0900-standup-01AAA"),
        ("get_meeting", "2026-01-02-0900-crashed-01BBB"),
        ("get_meeting_notes", "2026-01-01-0900-standup-01AAA"),
        ("get_meeting_transcript", "2026-01-01-0900-standup-01AAA"),
        ("get_meeting", "nonexistent"),
    ] {
        requests.push(RpcRequest { meeting_id: Some(id.to_string()), ..tool_call(tool) });
    }
    for req in &requests {
        let _ = handle_request(&fs, &parse_meta, ROOT, req);
    }
    assert_eq!(before, fs.snapshot(), "agent_access dispatch must never mutate the served tree");
}

fn error_line_of(answer: Option<Answer>) -> String {
    match answer {
        Some(Answer::ErrorLine(l)) => l,
        other => panic!("expected an error line, got {other:?}"),
    }
}

#[test]
fn message_that_is_not_json_gets_parse_error_with_null_id() {
    let fs = MemFs::new();
    let line = error_line_of(handle_message(&fs, &parse_meta, ROOT, "{not json"));
    assert!(line.starts_with(r#"{"jsonrpc":"2.0","id":null,"error":{"code":-32700,"message":"parse error: "#));
    assert!(line.ends_with("\"}}"));
}

#[test]
fn message_without_method_is_invalid_request_with_null_id() {
    let fs = MemFs::new();
    let line = error_line_of(handle_message(&fs, &parse_meta, ROOT, r#"{"jsonrpc":"2.0","id":5}"#));
    assert_eq!(
        line,
        r#"{"jsonrpc":"2.0","id":null,"error":{"code":-32600,"message":"invalid request: missing or non-string \"method\""}}"#
    );
}

#[test]
fn message_with_null_id_or_no_id_is_a_notification() {
    let fs = MemFs::new();
    assert!(handle_message(&fs, &parse_meta, ROOT, r#"{"jsonrpc":"2.0","id":null,"method":"ping"}"#).is_none());
    assert!(handle_message(&fs, &parse_meta, ROOT, r#"{"jsonrpc":"2.0","method":"ping"}"#).is_none());
}

#[test]
fn message_answers_echo_the_request_id() {
    let fs = MemFs::new();
    match handle_message(&fs, &parse_meta, ROOT, r#"{"jsonrpc":"2.0","id":"a-1","method":"ping"}"#) {
        Some(Answer::Result { id, reply }) => {
            assert_eq!(id, "\"a-1\"");
            assert_eq!(reply, RpcReply::Ping);
        }
        other => panic!("unexpected answer {other:?}"),
    }
    let line = error_line_of(handle_message(&fs, &parse_meta, ROOT, r#"{"jsonrpc":"2.0","id":7,"method":"nope"}"#));
    assert_eq!(line, r#"{"jsonrpc":"2.0","id":7,"error":{"code":-32601,"message":"method not found: nope"}}"#);
    assert_eq!(result_line("7", "{}"), r#"{"jsonrpc":"2.0","id":7,"result":{}}"#);
}

#[test]
fn message_tool_call_reads_arguments_and_runs_the_named_tool() {
    let mut fs = MemFs::new();
    fs.finished("2026-01-01-0900-standup-01AAA", "Standup", 120, "notes body", "transcript body");
    let line = r#"{"jsonrpc":"2.0","id":3,"method":"tools/call","params":{"name":"get_meeting_notes","arguments":{"id":"standup"}}}"#;
    match handle_message(&fs, &parse_meta, ROOT, line) {
        Some(Answer::Result { id, reply: RpcReply::Tool(ToolOutcome::Success(ToolPayload::Content(c))) }) => {
            assert_eq!(id, "3");
            assert_eq!(c.content.as_deref(), Some("notes body"));
        }
        other => panic!("unexpected answer {other:?}"),
    }
    let missing = r#"{"jsonrpc":"2.0","id":4,"method":"tools/call","params":{"arguments":{}}}"#;
    assert_eq!(
        error_line_of(handle_message(&fs, &parse_meta, ROOT, missing)),
        r#"{"jsonrpc":"2.0","id":4,"error":{"code":-32602,"message":"missing required params.name"}}"#
    );
    let unknown = r#"{"jsonrpc":"2.0","id":5,"method":"tools/call","params":{"name":"get_meeting","arguments":{"id":"nothing-here"}}}"#;
    match handle_message(&fs, &parse_meta, ROOT, unknown) {
        Some(Answer::Result { reply: RpcReply::Tool(ToolOutcome::Failure(m)), .. }) => {
            assert_eq!(m, "no meeting matches \"nothing-here\"");
        }
        other => panic!("unexpected answer {other:?}"),
    }
}

#[test]
fn message_limit_argument_is_read_as_unsigned_integer() {
    let mut fs = MemFs::new();
    fs.finished("2026-01-01-0900-a-01AAA", "A", 60, "", "");
    fs.finished("2026-01-02-0900-b-01BBB", "B", 60, "", "");
    let line = r#"{"jsonrpc":"2.0","id":1,"method":"tools/call","params":{"name":"list_recent_meetings","arguments":{"limit":1}}}"#;
    match handle_message(&fs, &parse_meta, ROOT, line) {
        Some(Answer::Result { reply: RpcReply::Tool(ToolOutcome::Success(ToolPayload::Meetings(rows))), .. }) => {
            assert_eq!(rows.len(), 1);
            assert_eq!(rows[0].folder, "2026-01-02-0900-b-01BBB");
        }
        other => panic!("unexpected answer {other:?}"),
    }
}
