//! The newline-delimited JSON-RPC framing of the agent-access surface:
//! one line in, parsed with `serde_json`, read into an [`RpcRequest`],
//! answered by `handle_request`; error replies are framed here, results
//! are rendered by the caller and framed with [`result_line`].

use vstd::prelude::*;

use crate::agent_access::protocol::{
    answered, handle_request, RpcReply, RpcRequest, PARSE_ERROR,
};
use crate::agent_access::reader::{MetaSnapshot, ReadOnlyFs};
use crate::text::{dec, push_dec, push_str, str_eq, string_from_chars};
use serde_json::Value;

verus! {

/// A parsed JSON value, one level deep: the items of an array and the
/// members of an object are kept as their JSON text, in the order
/// `serde_json` keeps them. A number keeps its text and, when it is a
/// non-negative integer that fits, its `u64` value.
#[derive(Clone, Debug, PartialEq, Eq)]
pub enum JsonNode {
    Null,
    Bool(bool),
    Number { text: String, unsigned: Option<u64> },
    Str(String),
    Array(Vec<String>),
    Object(Vec<(String, String)>),
}

/// What `serde_json` parses `text` into (one level deep, see
/// `JsonNode`), or its error message.
pub uninterp spec fn json_parse(text: Seq<char>) -> Result<JsonNode, Seq<char>>;

/// `serde_json::from_str::<serde_json::Value>`, with the value converted
/// one level deep: each variant to its `JsonNode` counterpart, a number
/// to its text and `as_u64`, items and members to their JSON text
/// (`Value::to_string`). Claims only that the result is `serde_json`'s
/// for this text.
#[verifier::external_body]
fn parse_json(text: &str) -> (r: Result<JsonNode, String>)
    ensures
        match json_parse(text@) {
            Ok(j) => r == Ok::<JsonNode, String>(j),
            Err(m) => r matches Err(s) && s@ == m,
        },
{
    match serde_json::from_str(text) {
        Ok(Value::Null) => Ok(JsonNode::Null),
        Ok(Value::Bool(b)) => Ok(JsonNode::Bool(b)),
        Ok(Value::Number(n)) => Ok(JsonNode::Number { text: n.to_string(), unsigned: n.as_u64() }),
        Ok(Value::String(s)) => Ok(JsonNode::Str(s)),
        Ok(Value::Array(a)) => Ok(JsonNode::Array(a.iter().map(|v| v.to_string()).collect())),
        Ok(Value::Object(m)) => Ok(JsonNode::Object(m.into_iter().map(|(k, v)| (k, v.to_string())).collect())),
        Err(e) => Err(e.to_string()),
    }
}

/// The JSON escape of one character, as `serde_json` writes it: `"` and
/// `\` and the control characters below U+0020 escaped (with the short
/// forms for backspace, tab, line feed, form feed and carriage return,
/// `\u00xx` in lowercase hex otherwise), every other character as is.
pub open spec fn json_escape(c: char) -> Seq<char> {
    if c == '"' {
        seq!['\\', '"']
    } else if c == '\\' {
        seq!['\\', '\\']
    } else if c == '\u{8}' {
        seq!['\\', 'b']
    } else if c == '\t' {
        seq!['\\', 't']
    } else if c == '\n' {
        seq!['\\', 'n']
    } else if c == '\u{c}' {
        seq!['\\', 'f']
    } else if c == '\r' {
        seq!['\\', 'r']
    } else if (c as int) < 0x20 {
        seq![
            '\\',
            'u',
            '0',
            '0',
            "0123456789abcdef"@[(c as int) / 16],
            "0123456789abcdef"@[(c as int) % 16],
        ]
    } else {
        seq![c]
    }
}

/// The escaped characters of `s`.
pub open spec fn json_escaped(s: Seq<char>) -> Seq<char>
    decreases s.len(),
{
    if s.len() == 0 {
        Seq::empty()
    } else {
        json_escaped(s.drop_last()) + json_escape(s.last())
    }
}

/// `s` as a JSON string literal.
pub open spec fn json_quoted(s: Seq<char>) -> Seq<char> {
    seq!['"'] + json_escaped(s) + seq!['"']
}

/// `serde_json::to_string` of a string slice: the string as a JSON
/// literal (see `json_quoted`). Serializing a `str` into memory does not
/// fail.
#[verifier::external_body]
fn quote_json(s: &str) -> (q: String)
    ensures
        q@ == json_quoted(s@),
{
    serde_json::to_string(s).unwrap_or_default()
}

/// A string, as a sequence.
pub open spec fn opt_view(o: Option<String>) -> Option<Seq<char>> {
    match o {
        Some(s) => Some(s@),
        None => None,
    }
}

/// The JSON text of the first member of `ms` named `key`.
pub open spec fn first_member(ms: Seq<(String, String)>, key: Seq<char>) -> Option<Seq<char>>
    decreases ms.len(),
{
    if ms.len() == 0 {
        None
    } else if ms[0].0@ == key {
        Some(ms[0].1@)
    } else {
        first_member(ms.drop_first(), key)
    }
}

/// The JSON text of member `key` of `j`, when `j` is an object that has
/// one.
pub open spec fn member_text(j: JsonNode, key: Seq<char>) -> Option<Seq<char>> {
    match j {
        JsonNode::Object(ms) => first_member(ms@, key),
        _ => None,
    }
}

/// Member `key` of `j`, parsed.
pub open spec fn member(j: JsonNode, key: Seq<char>) -> Option<JsonNode> {
    match member_text(j, key) {
        Some(t) => match json_parse(t) {
            Ok(c) => Some(c),
            Err(_) => None,
        },
        None => None,
    }
}

/// Member `key` of `j`, when `j` is there.
pub open spec fn member_of_opt(j: Option<JsonNode>, key: Seq<char>) -> Option<JsonNode> {
    match j {
        Some(v) => member(v, key),
        None => None,
    }
}

/// The text of a string value.
pub open spec fn string_of(j: Option<JsonNode>) -> Option<Seq<char>> {
    match j {
        Some(JsonNode::Str(s)) => Some(s@),
        _ => None,
    }
}

/// `req` holds what the handler reads of the message `j`: `method`,
/// whether an `id` other than `null` is there, `params.name`, and the
/// `query`, `id` and `limit` of `params.arguments`, each only when it
/// has the expected type.
pub open spec fn reads_as(req: RpcRequest, j: JsonNode) -> bool {
    let params = member(j, "params"@);
    let args = member_of_opt(params, "arguments"@);
    &&& opt_view(req.method) == string_of(member(j, "method"@))
    &&& req.has_id == (member(j, "id"@) matches Some(i) && !(i is Null))
    &&& opt_view(req.tool_name) == string_of(member_of_opt(params, "name"@))
    &&& opt_view(req.query) == string_of(member_of_opt(args, "query"@))
    &&& opt_view(req.meeting_id) == string_of(member_of_opt(args, "id"@))
    &&& req.limit == match member_of_opt(args, "limit"@) {
        Some(JsonNode::Number { unsigned, .. }) => unsigned,
        _ => None,
    }
}

/// An integer in decimal, with a leading `-` when negative.
pub open spec fn int_text(v: int) -> Seq<char> {
    if v < 0 {
        seq!['-'] + dec((-v) as nat)
    } else {
        dec(v as nat)
    }
}

/// A JSON-RPC error line for the request whose id has JSON text `id`.
pub open spec fn error_text(id: Seq<char>, code: int, message: Seq<char>) -> Seq<char> {
    "{\"jsonrpc\":\"2.0\",\"id\":"@ + id + ",\"error\":{\"code\":"@ + int_text(code)
        + ",\"message\":"@ + json_quoted(message) + "}}"@
}

/// A JSON-RPC result line for the request whose id has JSON text `id`,
/// with the result's JSON text `result`.
pub open spec fn result_text(id: Seq<char>, result: Seq<char>) -> Seq<char> {
    "{\"jsonrpc\":\"2.0\",\"id\":"@ + id + ",\"result\":"@ + result + "}"@
}

/// The id an answer to `j` carries: the message's own `id` when it has a
/// string `method`, `null` otherwise.
pub open spec fn echoed_id(j: JsonNode) -> Seq<char> {
    if string_of(member(j, "method"@)) is Some {
        match member_text(j, "id"@) {
            Some(t) => t,
            None => "null"@,
        }
    } else {
        "null"@
    }
}

/// How one message is answered.
#[derive(Debug)]
pub enum Answer {
    /// A JSON-RPC error line, ready to write.
    ErrorLine(String),
    /// A result for the request whose id has JSON text `id`: the caller
    /// renders `reply` and frames it with `result_line`.
    Result { id: String, reply: RpcReply },
}

/// `r` delivers `reply` to the message `j`: nothing for a notification,
/// an error line for an error, the reply with the echoed id otherwise.
pub open spec fn delivered(j: JsonNode, reply: RpcReply, r: Option<Answer>) -> bool {
    match reply {
        RpcReply::Silent => r is None,
        RpcReply::Error { code, message } => r matches Some(Answer::ErrorLine(l)) && l@
            == error_text(echoed_id(j), code as int, message@),
        _ => r matches Some(Answer::Result { id, reply: x }) && id@ == echoed_id(j) && x == reply,
    }
}

fn push_int(out: &mut Vec<char>, v: i64)
    ensures
        final(out)@ == old(out)@ + int_text(v as int),
{
    if v < 0 {
        push_str(out, "-");
        let mag: u64 = (0i128 - v as i128) as u64;
        assert(mag as int == -(v as int));
        push_dec(out, mag);
        proof {
            reveal_strlit("-");
        }
        assert(out@ =~= old(out)@ + int_text(v as int));
    } else {
        push_dec(out, v as u64);
    }
}

/// Frames an error line for the request whose id has JSON text `id`.
pub fn error_line(id: &str, code: i64, message: &str) -> (l: String)
    ensures
        l@ == error_text(id@, code as int, message@),
{
    let mut out: Vec<char> = Vec::new();
    push_str(&mut out, "{\"jsonrpc\":\"2.0\",\"id\":");
    push_str(&mut out, id);
    push_str(&mut out, ",\"error\":{\"code\":");
    push_int(&mut out, code);
    push_str(&mut out, ",\"message\":");
    push_str(&mut out, quote_json(message).as_str());
    push_str(&mut out, "}}");
    string_from_chars(out.as_slice())
}

/// Frames a result line for the request whose id has JSON text `id`,
/// with the result's JSON text.
pub fn result_line(id: &str, result: &str) -> (l: String)
    ensures
        l@ == result_text(id@, result@),
{
    let mut out: Vec<char> = Vec::new();
    push_str(&mut out, "{\"jsonrpc\":\"2.0\",\"id\":");
    push_str(&mut out, id);
    push_str(&mut out, ",\"result\":");
    push_str(&mut out, result);
    push_str(&mut out, "}");
    string_from_chars(out.as_slice())
}

fn copy_str(s: &str) -> (r: String)
    ensures
        r@ == s@,
{
    let mut out: Vec<char> = Vec::new();
    push_str(&mut out, s);
    string_from_chars(out.as_slice())
}

fn first_member_text(ms: &Vec<(String, String)>, key: &str) -> (r: Option<String>)
    ensures
        opt_view(r) == first_member(ms@, key@),
{
    let mut i: usize = 0;
    assert(ms@.skip(0) =~= ms@);
    while i < ms.len()
        invariant
            i <= ms@.len(),
            first_member(ms@, key@) == first_member(ms@.skip(i as int), key@),
        decreases ms@.len() - i,
    {
        let ghost rest = ms@.skip(i as int);
        assert(rest.drop_first() =~= ms@.skip(i + 1));
        assert(rest[0] == ms@[i as int]);
        if str_eq(ms[i].0.as_str(), key) {
            return Some(copy_str(ms[i].1.as_str()));
        }
        i = i + 1;
    }
    assert(ms@.skip(i as int).len() == 0);
    None
}

fn member_exec(j: &JsonNode, key: &str) -> (r: Option<JsonNode>)
    ensures
        r == member(*j, key@),
{
    match j {
        JsonNode::Object(ms) => match first_member_text(ms, key) {
            Some(t) => match parse_json(t.as_str()) {
                Ok(c) => Some(c),
                Err(_) => None,
            },
            None => None,
        },
        _ => None,
    }
}

fn member_opt_exec(j: &Option<JsonNode>, key: &str) -> (r: Option<JsonNode>)
    ensures
        r == member_of_opt(*j, key@),
{
    match j {
        Some(v) => member_exec(v, key),
        None => None,
    }
}

fn string_exec(j: Option<JsonNode>) -> (r: Option<String>)
    ensures
        opt_view(r) == string_of(j),
{
    match j {
        Some(JsonNode::Str(s)) => Some(s),
        _ => None,
    }
}

/// Reads what the handler needs of the message `j` (see `reads_as`).
pub fn request_from(j: &JsonNode) -> (req: RpcRequest)
    ensures
        reads_as(req, *j),
{
    let params = member_exec(j, "params");
    let args = member_opt_exec(&params, "arguments");
    let has_id = match member_exec(j, "id") {
        Some(JsonNode::Null) => false,
        Some(_) => true,
        None => false,
    };
    let limit = match member_opt_exec(&args, "limit") {
        Some(JsonNode::Number { unsigned, .. }) => unsigned,
        _ => None,
    };
    RpcRequest {
        method: string_exec(member_exec(j, "method")),
        has_id,
        tool_name: string_exec(member_opt_exec(&params, "name")),
        query: string_exec(member_opt_exec(&args, "query")),
        meeting_id: string_exec(member_opt_exec(&args, "id")),
        limit,
    }
}

/// Answers one newline-delimited JSON-RPC line: nothing for a
/// notification, an error line (a line that is not JSON gets the parse
/// error with a `null` id, a message without a string `method` its error
/// with a `null` id), or a result for the caller to render with the id
/// to echo (see `answered`).
pub fn handle_message<F: ReadOnlyFs, P: Fn(&str) -> Result<MetaSnapshot, String>>(
    fs: &F,
    parse_meta: &P,
    root: &str,
    line: &str,
) -> (r: Option<Answer>)
    requires
        forall|body: &str| parse_meta.requires((body,)),
    ensures
        match json_parse(line@) {
            Err(m) => r matches Some(Answer::ErrorLine(l)) && l@ == error_text(
                "null"@,
                PARSE_ERROR as int,
                "parse error: "@ + m,
            ),
            Ok(j) => exists|req: RpcRequest, reply: RpcReply|
                #![trigger reads_as(req, j), answered(*fs, *parse_meta, root@, req, reply)]
                reads_as(req, j) && answered(*fs, *parse_meta, root@, req, reply) && delivered(
                    j,
                    reply,
                    r,
                ),
        },
{
    let j = match parse_json(line) {
        Ok(j) => j,
        Err(m) => {
            let mut msg: Vec<char> = Vec::new();
            push_str(&mut msg, "parse error: ");
            push_str(&mut msg, m.as_str());
            let text = string_from_chars(msg.as_slice());
            return Some(Answer::ErrorLine(error_line("null", PARSE_ERROR, text.as_str())));
        },
    };
    let req = request_from(&j);
    let reply = handle_request(fs, parse_meta, root, &req);
    let ghost greply = reply;
    let id = match &req.method {
        Some(_) => match &j {
            JsonNode::Object(ms) => match first_member_text(ms, "id") {
                Some(t) => t,
                None => copy_str("null"),
            },
            _ => copy_str("null"),
        },
        None => copy_str("null"),
    };
    assert(id@ == echoed_id(j));
    let r = match reply {
        RpcReply::Silent => None,
        RpcReply::Error { code, message } => Some(
            Answer::ErrorLine(error_line(id.as_str(), code, message.as_str())),
        ),
        other => Some(Answer::Result { id, reply: other }),
    };
    assert(reads_as(req, j) && answered(*fs, *parse_meta, root@, req, greply));
    assert(delivered(j, greply, r));
    r
}

} // verus!
