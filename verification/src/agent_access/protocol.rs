//! JSON-RPC 2.0 / Model Context Protocol request handling: which
//! method a message calls, which tool a `tools/call` runs with which
//! arguments, and which error code answers a malformed request.
//!
//! Messages arrive as JSON lines; the fields the handler reads are
//! extracted into [`RpcRequest`] and the [`RpcReply`] is rendered back
//! to JSON outside the library.

use vstd::prelude::*;

use crate::agent_access::reader::{
    clamp_spec, fetched, get_meeting, get_meeting_notes, get_meeting_transcript,
    list_recent_meetings, looked_up, most_recent, search_sessions, searched, walked,
    AgentAccessError, MeetingContent, MeetingSummary, MetaSnapshot, ReadOnlyFs,
    DEFAULT_LIST_LIMIT, MAX_LIST_LIMIT,
};
use crate::text::str_lowercase;
use crate::text::{push_str, starts_with, str_eq, string_from_chars};

verus! {

/// Schema version stamped on every result.
pub const SCHEMA_VERSION: u32 = 1;

/// The protocol version answered to `initialize`.
pub const PROTOCOL_VERSION: &'static str = "2024-11-05";

/// Unparseable JSON.
pub const PARSE_ERROR: i64 = -32_700;

/// JSON without a string `method`.
pub const INVALID_REQUEST: i64 = -32_600;

/// A method this server does not have.
pub const METHOD_NOT_FOUND: i64 = -32_601;

/// A `tools/call` without the parameters its tool needs.
pub const INVALID_PARAMS: i64 = -32_602;

/// What the handler reads of one message.
#[derive(Clone, Debug, PartialEq, Eq)]
pub struct RpcRequest {
    /// `method`, when it is a string.
    pub method: Option<String>,
    /// Whether the message has an `id` other than `null`.
    pub has_id: bool,
    /// `params.name`, when it is a string.
    pub tool_name: Option<String>,
    /// `params.arguments.query`, when it is a string.
    pub query: Option<String>,
    /// `params.arguments.id`, when it is a string.
    pub meeting_id: Option<String>,
    /// `params.arguments.limit`, when it is an unsigned integer.
    pub limit: Option<u64>,
}

/// What a tool call produced.
#[derive(Clone, Debug, PartialEq, Eq)]
pub enum ToolPayload {
    Meetings(Vec<MeetingSummary>),
    Meeting(MeetingSummary),
    Content(MeetingContent),
}

/// A tool call's result: its payload, or the error text it is answered
/// with (an `isError` result, not a JSON-RPC error).
#[derive(Clone, Debug, PartialEq, Eq)]
pub enum ToolOutcome {
    Success(ToolPayload),
    Failure(String),
}

/// The answer to one message.
#[derive(Clone, Debug, PartialEq, Eq)]
pub enum RpcReply {
    /// A notification: nothing is written back.
    Silent,
    /// A JSON-RPC error.
    Error { code: i64, message: String },
    Initialize,
    Ping,
    ToolsList,
    Tool(ToolOutcome),
}

/// The tools `tools/call` runs.
pub open spec fn is_tool(name: Seq<char>) -> bool {
    ||| name == "list_recent_meetings"@
    ||| name == "search_meetings"@
    ||| name == "get_meeting"@
    ||| name == "get_meeting_notes"@
    ||| name == "get_meeting_transcript"@
}

/// The row count a tool call asks for: `limit` when given (and
/// representable), else the default, clamped to `[1, MAX_LIST_LIMIT]`.
pub open spec fn requested_limit(limit: Option<u64>) -> usize {
    let asked: int = match limit {
        Some(v) => if v <= usize::MAX {
            v as int
        } else {
            DEFAULT_LIST_LIMIT as int
        },
        None => DEFAULT_LIST_LIMIT as int,
    };
    if asked < 1 {
        1
    } else if asked > MAX_LIST_LIMIT {
        MAX_LIST_LIMIT
    } else {
        asked as usize
    }
}

/// The row count of a tool call: without a `limit` the default twenty
/// rows; a `limit` from 1 to `MAX_LIST_LIMIT` is taken as given, a
/// larger one is capped at `MAX_LIST_LIMIT`, and every answer lies in
/// that range.
pub proof fn absent_limit_means_twenty_rows(limit: Option<u64>)
    ensures
        requested_limit(None) == 20,
        limit matches Some(v) ==> (1 <= v <= MAX_LIST_LIMIT ==> requested_limit(limit) == v),
        limit matches Some(v) ==> (MAX_LIST_LIMIT < v <= usize::MAX ==> requested_limit(limit)
            == MAX_LIST_LIMIT),
        1 <= requested_limit(limit) <= MAX_LIST_LIMIT,
{
}

/// `requested_limit`.
pub fn read_limit(limit: Option<u64>) -> (n: usize)
    ensures
        n == requested_limit(limit),
{
    let asked: usize = match limit {
        Some(v) => if v <= usize::MAX as u64 {
            v as usize
        } else {
            DEFAULT_LIST_LIMIT
        },
        None => DEFAULT_LIST_LIMIT,
    };
    if asked < 1 {
        1
    } else if asked > MAX_LIST_LIMIT {
        MAX_LIST_LIMIT
    } else {
        asked
    }
}

fn text(s: &str) -> (r: String)
    ensures
        r@ == s@,
{
    let mut cs: Vec<char> = Vec::new();
    push_str(&mut cs, s);
    string_from_chars(cs.as_slice())
}

fn missing_argument(key: &str) -> (r: RpcReply)
    ensures
        r matches RpcReply::Error { code, message } && code == INVALID_PARAMS && message@
            == "missing or non-string params.arguments."@ + key@,
{
    let mut cs: Vec<char> = Vec::new();
    push_str(&mut cs, "missing or non-string params.arguments.");
    push_str(&mut cs, key);
    RpcReply::Error { code: INVALID_PARAMS, message: string_from_chars(cs.as_slice()) }
}

fn failure(e: AgentAccessError) -> (o: ToolOutcome)
    ensures
        o matches ToolOutcome::Failure(m) && m@ == e.message(),
{
    ToolOutcome::Failure(e.to_string())
}

/// The reply to a `tools/call` whose tool is `name`.
pub open spec fn tool_call_shape(req: RpcRequest, name: Seq<char>) -> Option<(i64, Seq<char>)> {
    if name == "search_meetings"@ && req.query is None {
        Some((INVALID_PARAMS, "missing or non-string params.arguments.query"@))
    } else if (name == "get_meeting"@ || name == "get_meeting_notes"@ || name
        == "get_meeting_transcript"@) && req.meeting_id is None {
        Some((INVALID_PARAMS, "missing or non-string params.arguments.id"@))
    } else {
        None
    }
}

/// `o` answers a tool call with `res`: its payload, or the error's
/// message as an error result.
pub open spec fn outcome_of(o: ToolOutcome, res: Result<ToolPayload, AgentAccessError>) -> bool {
    match res {
        Ok(p) => o == ToolOutcome::Success(p),
        Err(e) => o matches ToolOutcome::Failure(m) && m@ == e.message(),
    }
}

/// `o` is what a rows tool may answer when listing `root` fails: the
/// listing's error message as an error result.
pub open spec fn listing_failed<F: ReadOnlyFs, P: Fn(&str) -> Result<MetaSnapshot, String>>(
    fs: F,
    parse_meta: P,
    root: Seq<char>,
    o: ToolOutcome,
) -> bool {
    o matches ToolOutcome::Failure(m) && exists|e: AgentAccessError|
        #[trigger] walked(fs, parse_meta, root, Err(e)) && m@ == e.message()
}

/// The most recent `limit` (clamped) rows under `root` may be `v`.
pub open spec fn recent_rows<F: ReadOnlyFs, P: Fn(&str) -> Result<MetaSnapshot, String>>(
    fs: F,
    parse_meta: P,
    root: Seq<char>,
    limit: usize,
    v: Seq<MeetingSummary>,
) -> bool {
    exists|all: Seq<MeetingSummary>|
        #[trigger] walked(fs, parse_meta, root, Ok(all)) && most_recent(
            all,
            clamp_spec(limit) as nat,
            v,
        )
}

/// `o` is what fetching `file` of the meeting `id` names may answer.
pub open spec fn content_answered<F: ReadOnlyFs, P: Fn(&str) -> Result<MetaSnapshot, String>>(
    fs: F,
    parse_meta: P,
    root: Seq<char>,
    id: Seq<char>,
    file: Seq<char>,
    o: ToolOutcome,
) -> bool {
    exists|res: Result<MeetingContent, AgentAccessError>|
        #[trigger] fetched(fs, parse_meta, root, id, file, res) && outcome_of(
            o,
            match res {
                Ok(c) => Ok(ToolPayload::Content(c)),
                Err(e) => Err(e),
            },
        )
}

/// `o` is what the known tool `name` may answer for `req` under `root`,
/// with answers `fs` may give: each tool runs its reader call (the rows
/// tools with `requested_limit`), and answers its result or, when it
/// fails, the error's message as an error result.
pub open spec fn tool_answered<F: ReadOnlyFs, P: Fn(&str) -> Result<MetaSnapshot, String>>(
    fs: F,
    parse_meta: P,
    root: Seq<char>,
    req: RpcRequest,
    name: Seq<char>,
    o: ToolOutcome,
) -> bool {
    let limit = requested_limit(req.limit);
    if name == "list_recent_meetings"@ {
        ||| (o matches ToolOutcome::Success(ToolPayload::Meetings(v)) && recent_rows(
            fs,
            parse_meta,
            root,
            limit,
            v@,
        ))
        ||| listing_failed(fs, parse_meta, root, o)
    } else if name == "search_meetings"@ {
        ||| (o matches ToolOutcome::Success(ToolPayload::Meetings(v)) && searched(
            fs,
            parse_meta,
            root,
            str_lowercase(req.query->0@),
            limit,
            v@,
        ))
        ||| listing_failed(fs, parse_meta, root, o)
    } else if name == "get_meeting"@ {
        exists|res: Result<MeetingSummary, AgentAccessError>|
            #[trigger] looked_up(fs, parse_meta, root, req.meeting_id->0@, res) && outcome_of(
                o,
                match res {
                    Ok(m) => Ok(ToolPayload::Meeting(m)),
                    Err(e) => Err(e),
                },
            )
    } else if name == "get_meeting_notes"@ {
        content_answered(fs, parse_meta, root, req.meeting_id->0@, "notes.md"@, o)
    } else {
        content_answered(fs, parse_meta, root, req.meeting_id->0@, "transcript.md"@, o)
    }
}

/// Runs `tools/call`: a missing tool name or a missing argument is a
/// JSON-RPC error; an unknown tool, and any failure of the tool itself,
/// is an error result.
fn call_tool<F: ReadOnlyFs, P: Fn(&str) -> Result<MetaSnapshot, String>>(
    fs: &F,
    parse_meta: &P,
    root: &str,
    req: &RpcRequest,
) -> (r: RpcReply)
    requires
        forall|body: &str| parse_meta.requires((body,)),
    ensures
        match req.tool_name {
            None => r matches RpcReply::Error { code, message } && code == INVALID_PARAMS
                && message@ == "missing required params.name"@,
            Some(n) => match tool_call_shape(*req, n@) {
                Some((c, m)) => r matches RpcReply::Error { code, message } && code == c
                    && message@ == m,
                None => if is_tool(n@) {
                    r matches RpcReply::Tool(o) && tool_answered(
                        *fs,
                        *parse_meta,
                        root@,
                        *req,
                        n@,
                        o,
                    )
                } else {
                    r matches RpcReply::Tool(ToolOutcome::Failure(m)) && m@ == "unknown tool: "@
                        + n@
                },
            },
        },
{
    proof {
        reveal_strlit("list_recent_meetings");
        reveal_strlit("search_meetings");
        reveal_strlit("get_meeting");
        reveal_strlit("get_meeting_notes");
        reveal_strlit("get_meeting_transcript");
        assert("list_recent_meetings"@.len() == 20);
        assert("search_meetings"@.len() == 15);
        assert("get_meeting"@.len() == 11);
        assert("get_meeting_notes"@.len() == 17);
        assert("get_meeting_transcript"@.len() == 22);
        reveal_strlit("missing or non-string params.arguments.");
        reveal_strlit("missing or non-string params.arguments.query");
        reveal_strlit("missing or non-string params.arguments.id");
        reveal_strlit("query");
        reveal_strlit("id");
        assert("missing or non-string params.arguments."@ + "query"@
            =~= "missing or non-string params.arguments.query"@);
        assert("missing or non-string params.arguments."@ + "id"@
            =~= "missing or non-string params.arguments.id"@);
    }
    let name = match &req.tool_name {
        Some(n) => n.as_str(),
        None => {
            return RpcReply::Error { code: INVALID_PARAMS, message: text("missing required params.name") };
        },
    };
    let limit = read_limit(req.limit);
    if str_eq(name, "list_recent_meetings") {
        let res = list_recent_meetings(fs, parse_meta, root, limit);
        let ghost gres = res;
        let out = match res {
            Ok(v) => ToolOutcome::Success(ToolPayload::Meetings(v)),
            Err(e) => failure(e),
        };
        proof {
            match gres {
                Ok(v) => {
                    assert(out == ToolOutcome::Success(ToolPayload::Meetings(v)));
                },
                Err(e) => {
                    assert(walked(*fs, *parse_meta, root@, Err(e)));
                },
            }
            assert(tool_answered(*fs, *parse_meta, root@, *req, name@, out));
        }
        RpcReply::Tool(out)
    } else if str_eq(name, "search_meetings") {
        let query = match &req.query {
            Some(q) => q.as_str(),
            None => {
                return missing_argument("query");
            },
        };
        let res = search_sessions(fs, parse_meta, root, query, limit);
        let ghost gres = res;
        let out = match res {
            Ok(v) => ToolOutcome::Success(ToolPayload::Meetings(v)),
            Err(e) => failure(e),
        };
        proof {
            match gres {
                Ok(v) => {
                    assert(out == ToolOutcome::Success(ToolPayload::Meetings(v)));
                },
                Err(e) => {
                    assert(walked(*fs, *parse_meta, root@, Err(e)));
                },
            }
            assert(tool_answered(*fs, *parse_meta, root@, *req, name@, out));
        }
        RpcReply::Tool(out)
    } else if str_eq(name, "get_meeting") || str_eq(name, "get_meeting_notes") || str_eq(
        name,
        "get_meeting_transcript",
    ) {
        let id = match &req.meeting_id {
            Some(i) => i.as_str(),
            None => {
                return missing_argument("id");
            },
        };
        let out = if str_eq(name, "get_meeting") {
            let res = get_meeting(fs, parse_meta, root, id);
            let ghost gres = res;
            let o = match res {
                Ok(m) => ToolOutcome::Success(ToolPayload::Meeting(m)),
                Err(e) => failure(e),
            };
            proof {
                assert(looked_up(*fs, *parse_meta, root@, id@, gres));
                assert(outcome_of(
                    o,
                    match gres {
                        Ok(m) => Ok(ToolPayload::Meeting(m)),
                        Err(e) => Err(e),
                    },
                ));
                assert(tool_answered(*fs, *parse_meta, root@, *req, name@, o));
            }
            o
        } else if str_eq(name, "get_meeting_notes") {
            let res = get_meeting_notes(fs, parse_meta, root, id);
            let ghost gres = res;
            let o = match res {
                Ok(c) => ToolOutcome::Success(ToolPayload::Content(c)),
                Err(e) => failure(e),
            };
            proof {
                assert(fetched(*fs, *parse_meta, root@, id@, "notes.md"@, gres));
                assert(outcome_of(
                    o,
                    match gres {
                        Ok(c) => Ok(ToolPayload::Content(c)),
                        Err(e) => Err(e),
                    },
                ));
                assert(tool_answered(*fs, *parse_meta, root@, *req, name@, o));
            }
            o
        } else {
            let res = get_meeting_transcript(fs, parse_meta, root, id);
            let ghost gres = res;
            let o = match res {
                Ok(c) => ToolOutcome::Success(ToolPayload::Content(c)),
                Err(e) => failure(e),
            };
            proof {
                assert(fetched(*fs, *parse_meta, root@, id@, "transcript.md"@, gres));
                assert(outcome_of(
                    o,
                    match gres {
                        Ok(c) => Ok(ToolPayload::Content(c)),
                        Err(e) => Err(e),
                    },
                ));
                assert(tool_answered(*fs, *parse_meta, root@, *req, name@, o));
            }
            o
        };
        proof {
            assert(tool_answered(*fs, *parse_meta, root@, *req, name@, out));
        }
        RpcReply::Tool(out)
    } else {
        let mut cs: Vec<char> = Vec::new();
        push_str(&mut cs, "unknown tool: ");
        push_str(&mut cs, name);
        RpcReply::Tool(ToolOutcome::Failure(string_from_chars(cs.as_slice())))
    }
}

/// `r` answers the message `req` under `root`, with answers `fs` may
/// give. A message without a string `method` is an invalid request
/// (answered even without an `id`); one without an `id` (or with `id:
/// null`), or a `notifications/` method, is a notification and gets no
/// answer; `initialize`, `ping` and `tools/list` get their results; a
/// `tools/call` runs its tool (see `tool_answered`); other methods are
/// `method not found`.
pub open spec fn answered<F: ReadOnlyFs, P: Fn(&str) -> Result<MetaSnapshot, String>>(
    fs: F,
    parse_meta: P,
    root: Seq<char>,
    req: RpcRequest,
    r: RpcReply,
) -> bool {
    match req.method {
        None => r matches RpcReply::Error { code, message } && code == INVALID_REQUEST
            && message@ == "invalid request: missing or non-string \"method\""@,
        Some(m) => if !req.has_id || starts_with(m@, "notifications/"@) {
            r is Silent
        } else if m@ == "initialize"@ {
            r is Initialize
        } else if m@ == "ping"@ {
            r is Ping
        } else if m@ == "tools/list"@ {
            r is ToolsList
        } else if m@ == "tools/call"@ {
            match req.tool_name {
                None => r matches RpcReply::Error { code, message } && code == INVALID_PARAMS
                    && message@ == "missing required params.name"@,
                Some(n) => match tool_call_shape(req, n@) {
                    Some((c, msg)) => r matches RpcReply::Error { code, message } && code
                        == c && message@ == msg,
                    None => if is_tool(n@) {
                        r matches RpcReply::Tool(o) && tool_answered(
                            fs,
                            parse_meta,
                            root,
                            req,
                            n@,
                            o,
                        )
                    } else {
                        r matches RpcReply::Tool(ToolOutcome::Failure(t)) && t@
                            == "unknown tool: "@ + n@
                    },
                },
            }
        } else {
            r matches RpcReply::Error { code, message } && code == METHOD_NOT_FOUND && message@
                == "method not found: "@ + m@
        },
    }
}

/// Answers one message (see `answered`).
pub fn handle_request<F: ReadOnlyFs, P: Fn(&str) -> Result<MetaSnapshot, String>>(
    fs: &F,
    parse_meta: &P,
    root: &str,
    req: &RpcRequest,
) -> (r: RpcReply)
    requires
        forall|body: &str| parse_meta.requires((body,)),
    ensures
        answered(*fs, *parse_meta, root@, *req, r),
{
    let method = match &req.method {
        Some(m) => m.as_str(),
        None => {
            return RpcReply::Error {
                code: INVALID_REQUEST,
                message: text("invalid request: missing or non-string \"method\""),
            };
        },
    };
    if !req.has_id {
        return RpcReply::Silent;
    }
    let mcs = crate::text::chars_of(method);
    let mut prefix: Vec<char> = Vec::new();
    push_str(&mut prefix, "notifications/");
    if prefix.len() <= mcs.len() && crate::text::matches_at_exec(&mcs, 0, mcs.len(), &prefix, 0) {
        proof {
            assert(mcs@.subrange(0, mcs@.len() as int) == mcs@);
        }
        return RpcReply::Silent;
    }
    proof {
        assert(mcs@.subrange(0, mcs@.len() as int) == mcs@);
    }
    if str_eq(method, "initialize") {
        RpcReply::Initialize
    } else if str_eq(method, "ping") {
        RpcReply::Ping
    } else if str_eq(method, "tools/list") {
        RpcReply::ToolsList
    } else if str_eq(method, "tools/call") {
        call_tool(fs, parse_meta, root, req)
    } else {
        let mut cs: Vec<char> = Vec::new();
        push_str(&mut cs, "method not found: ");
        push_str(&mut cs, method);
        RpcReply::Error { code: METHOD_NOT_FOUND, message: string_from_chars(cs.as_slice()) }
    }
}

} // verus!
