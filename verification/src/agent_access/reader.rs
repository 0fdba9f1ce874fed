//! Read-only walk over the session folders under the storage root.
//!
//! A folder is a *finished* meeting once `meta.toml` exists, and an
//! *unfinished* one when `journal/` exists with neither `audio.opus` nor
//! `meta.toml` (a capture that never completed). A folder of neither
//! shape is not a meeting: it is left out of listings and reported as
//! not found. Meeting identifiers are folder names or an unambiguous
//! substring of one, never a path, so nothing outside the root is read.

use vstd::prelude::*;

use crate::notes::{debug_quoted, str_debug};
use crate::paths::{join_path, path_join};
use crate::text::{
    lemma_text_le_total, lemma_text_le_trans, text_le, text_le_exec,
    contains, contains_str, dec, has_char, push_dec, push_str, str_eq, str_lowercase,
    string_from_chars, to_lowercase, views,
};

verus! {

/// Rows `list_recent_meetings` and `search_meetings` return when the
/// caller gives no limit.
pub const DEFAULT_LIST_LIMIT: usize = 20;

/// The most rows one call returns, whatever limit is asked for.
pub const MAX_LIST_LIMIT: usize = 200;

/// Access to the storage root, read-only. Each implementation says, by
/// three relations, which answers it may give: the storage may change
/// between two calls, so an answer is one the storage gave, not a
/// function of the path. An implementation that does not define a
/// relation allows every answer.
pub trait ReadOnlyFs {
    /// `dir` may be listed as `r`: the names of its direct
    /// subdirectories, or the error's message.
    open spec fn lists(&self, dir: Seq<char>, r: Result<Seq<Seq<char>>, Seq<char>>) -> bool {
        true
    }

    /// `path` may be reported present (`b`) or absent.
    open spec fn has(&self, path: Seq<char>, b: bool) -> bool {
        true
    }

    /// The file at `path` may read as `r`: its text, or the error's
    /// message.
    open spec fn reads(&self, path: Seq<char>, r: Result<Seq<char>, Seq<char>>) -> bool {
        true
    }

    /// Names of the direct subdirectories of `dir`, in the order the
    /// filesystem reports them; the error's message when `dir` cannot
    /// be read.
    fn subdirectories(&self, dir: &str) -> (r: Result<Vec<String>, String>)
        ensures
            self.lists(
                dir@,
                match r {
                    Ok(v) => Ok(views(v@)),
                    Err(m) => Err(m@),
                },
            ),
    ;

    /// Whether `path` exists (file or directory).
    fn path_exists(&self, path: &str) -> (b: bool)
        ensures
            self.has(path@, b),
    ;

    /// The UTF-8 contents of the file at `path`; the error's message
    /// when it cannot be read.
    fn read_to_string(&self, path: &str) -> (r: Result<String, String>)
        ensures
            self.reads(
                path@,
                match r {
                    Ok(t) => Ok(t@),
                    Err(m) => Err(m@),
                },
            ),
    ;
}

/// The fields of `meta.toml` this surface reads; timestamps are kept in
/// the text form they are served in.
#[derive(Clone, Debug, PartialEq, Eq)]
pub struct MetaSnapshot {
    pub session_id: String,
    pub title: Option<String>,
    pub started_at: String,
    pub ended_at: Option<String>,
    pub duration_secs: Option<u64>,
}

/// Whether a session folder reached the normal end of a session.
#[derive(Clone, Copy, Debug, PartialEq, Eq, Structural)]
pub enum SessionStatus {
    Finished,
    Unfinished,
}

impl SessionStatus {
    /// `finished` / `unfinished`.
    pub fn as_str(&self) -> (s: &'static str)
        ensures
            s@ == (match self {
                SessionStatus::Finished => "finished"@,
                SessionStatus::Unfinished => "unfinished"@,
            }),
    {
        match self {
            SessionStatus::Finished => "finished",
            SessionStatus::Unfinished => "unfinished",
        }
    }
}

/// One row of a listing or search, and the payload of `get_meeting`.
/// Unfinished rows carry no metadata.
#[derive(Clone, Debug, PartialEq, Eq)]
pub struct MeetingSummary {
    pub folder: String,
    pub status: SessionStatus,
    pub session_id: Option<String>,
    pub title: Option<String>,
    pub started_at: Option<String>,
    pub ended_at: Option<String>,
    pub duration_secs: Option<u64>,
}

impl MeetingSummary {
    /// The row of an unfinished meeting.
    pub fn unfinished(folder: String) -> (m: MeetingSummary)
        ensures
            m.folder == folder,
            m.status == SessionStatus::Unfinished,
            m.session_id is None,
            m.title is None,
            m.started_at is None,
            m.ended_at is None,
            m.duration_secs is None,
    {
        MeetingSummary {
            folder,
            status: SessionStatus::Unfinished,
            session_id: None,
            title: None,
            started_at: None,
            ended_at: None,
            duration_secs: None,
        }
    }

    /// The row of a finished meeting with metadata `meta`.
    pub fn finished(folder: String, meta: MetaSnapshot) -> (m: MeetingSummary)
        ensures
            m.folder == folder,
            m.status == SessionStatus::Finished,
            m.session_id == Some(meta.session_id),
            m.title == meta.title,
            m.started_at == Some(meta.started_at),
            m.ended_at == meta.ended_at,
            m.duration_secs == meta.duration_secs,
    {
        MeetingSummary {
            folder,
            status: SessionStatus::Finished,
            session_id: Some(meta.session_id),
            title: meta.title,
            started_at: Some(meta.started_at),
            ended_at: meta.ended_at,
            duration_secs: meta.duration_secs,
        }
    }
}

/// Payload of `get_meeting_notes` / `get_meeting_transcript`: no
/// content for an unfinished meeting, nor for a finished one missing the
/// file.
#[derive(Clone, Debug, PartialEq, Eq)]
pub struct MeetingContent {
    pub folder: String,
    pub status: SessionStatus,
    pub content: Option<String>,
}

/// Why a request could not be served.
#[derive(Clone, Debug, PartialEq, Eq)]
pub enum AgentAccessError {
    RootMissing { root: String },
    NotFound { id: String },
    Ambiguous { id: String, count: usize },
    InvalidId { id: String },
    /// Reading `path` failed with `message`.
    Io { path: String, message: String },
    /// `path` is not a readable `meta.toml`: `message` says why.
    Meta { path: String, message: String },
}

impl AgentAccessError {
    pub open spec fn message(&self) -> Seq<char> {
        match self {
            AgentAccessError::RootMissing { root } => "storage root does not exist: "@ + root@,
            AgentAccessError::NotFound { id } => "no meeting matches "@ + str_debug(id@),
            AgentAccessError::Ambiguous { id, count } => str_debug(id@) + " matches "@ + dec(
                *count as nat,
            ) + " meetings; use the full folder name or ULID"@,
            AgentAccessError::InvalidId { id } =>
                "meeting identifier must not contain a path separator: "@ + str_debug(id@),
            AgentAccessError::Io { path, message } => "reading "@ + path@ + ": "@ + message@,
            AgentAccessError::Meta { path, message } => "parsing "@ + path@ + ": "@ + message@,
        }
    }

    /// The user-facing rendering of this error.
    pub fn to_string(&self) -> (s: String)
        ensures
            s@ == self.message(),
    {
        let mut out: Vec<char> = Vec::new();
        match self {
            AgentAccessError::RootMissing { root } => {
                push_str(&mut out, "storage root does not exist: ");
                push_str(&mut out, root.as_str());
            },
            AgentAccessError::NotFound { id } => {
                push_str(&mut out, "no meeting matches ");
                let q = debug_quoted(id.as_str());
                push_str(&mut out, q.as_str());
            },
            AgentAccessError::Ambiguous { id, count } => {
                let q = debug_quoted(id.as_str());
                push_str(&mut out, q.as_str());
                push_str(&mut out, " matches ");
                push_dec(&mut out, *count as u64);
                push_str(&mut out, " meetings; use the full folder name or ULID");
            },
            AgentAccessError::InvalidId { id } => {
                push_str(&mut out, "meeting identifier must not contain a path separator: ");
                let q = debug_quoted(id.as_str());
                push_str(&mut out, q.as_str());
            },
            AgentAccessError::Io { path, message } => {
                push_str(&mut out, "reading ");
                push_str(&mut out, path.as_str());
                push_str(&mut out, ": ");
                push_str(&mut out, message.as_str());
            },
            AgentAccessError::Meta { path, message } => {
                push_str(&mut out, "parsing ");
                push_str(&mut out, path.as_str());
                push_str(&mut out, ": ");
                push_str(&mut out, message.as_str());
            },
        }
        string_from_chars(out.as_slice())
    }
}

fn owned(s: &str) -> (r: String)
    ensures
        r@ == s@,
{
    let mut cs: Vec<char> = Vec::new();
    push_str(&mut cs, s);
    string_from_chars(cs.as_slice())
}

// ---------------------------------------------------------------------
// Identifiers and folder resolution
// ---------------------------------------------------------------------

/// An identifier that could name something outside the root: empty, a
/// path separator in it, or `.` / `..`.
pub open spec fn is_invalid_id(id: Seq<char>) -> bool {
    ||| id.len() == 0
    ||| id.contains('/')
    ||| id.contains('\\')
    ||| id == "."@
    ||| id == ".."@
}

/// Refuses an identifier that could name something outside the root.
pub fn check_id(id: &str) -> (r: Result<(), AgentAccessError>)
    ensures
        is_invalid_id(id@) ==> (r matches Err(AgentAccessError::InvalidId { id: e }) && e@
            == id@),
        !is_invalid_id(id@) ==> r is Ok,
{
    proof {
        reveal_strlit("");
        assert(""@ =~= Seq::<char>::empty());
    }
    if str_eq(id, "") || has_char(id, '/') || has_char(id, '\\') || str_eq(id, ".") || str_eq(
        id,
        "..",
    ) {
        proof {
            if id@.len() == 0 {
            } else if exists|i: int| 0 <= i < id@.len() && id@[i] == '/' {
                let i = choose|i: int| 0 <= i < id@.len() && id@[i] == '/';
                assert(id@.contains('/'));
            } else if exists|i: int| 0 <= i < id@.len() && id@[i] == '\\' {
                let i = choose|i: int| 0 <= i < id@.len() && id@[i] == '\\';
                assert(id@.contains('\\'));
            }
        }
        return Err(AgentAccessError::InvalidId { id: owned(id) });
    }
    proof {
        if id@.len() == 0 {
            assert(id@ =~= ""@);
        }
        if id@.contains('/') {
            let k = choose|k: int| 0 <= k < id@.len() && #[trigger] id@[k] == '/';
            assert(id@[k] == '/');
        }
        if id@.contains('\\') {
            let k = choose|k: int| 0 <= k < id@.len() && #[trigger] id@[k] == '\\';
            assert(id@[k] == '\\');
        }
    }
    Ok(())
}

/// The names in `ns` that contain `id`, in order.
pub open spec fn matching_names(ns: Seq<Seq<char>>, id: Seq<char>) -> Seq<Seq<char>>
    decreases ns.len(),
{
    if ns.len() == 0 {
        Seq::empty()
    } else {
        let m = matching_names(ns.drop_last(), id);
        if contains(ns.last(), id) {
            m.push(ns.last())
        } else {
            m
        }
    }
}

/// The folder `id` names among the root's subdirectories `names`: the
/// name equal to it, else the one name containing it; no match and
/// several matches are errors.
pub open spec fn resolved(names: Seq<Seq<char>>, id: Seq<char>) -> Result<Seq<char>, Option<nat>> {
    let hits = matching_names(names, id);
    if names.contains(id) {
        Ok(id)
    } else if hits.len() == 1 {
        Ok(hits[0])
    } else if hits.len() == 0 {
        Err(None)
    } else {
        Err(Some(hits.len()))
    }
}

/// Picks the folder `id` names among `names` (see `resolved`).
pub fn resolve_name(names: &Vec<String>, id: &str) -> (r: Result<String, AgentAccessError>)
    ensures
        match resolved(views(names@), id@) {
            Ok(n) => r matches Ok(s) && s@ == n,
            Err(None) => r matches Err(AgentAccessError::NotFound { id: e }) && e@ == id@,
            Err(Some(c)) => r matches Err(AgentAccessError::Ambiguous { id: e, count }) && e@
                == id@ && count == c,
        },
{
    let ghost ns = views(names@);
    let mut i: usize = 0;
    let mut count: usize = 0;
    let mut first: usize = 0;
    let mut exact = false;
    while i < names.len()
        invariant
            i <= names@.len(),
            ns == views(names@),
            count == matching_names(ns.take(i as int), id@).len(),
            count <= i,
            count > 0 ==> first < names@.len() && names@[first as int]@ == matching_names(
                ns.take(i as int),
                id@,
            )[0],
            exact == ns.take(i as int).contains(id@),
        decreases names@.len() - i,
    {
        let ghost before = ns.take(i as int);
        let ghost after = ns.take(i + 1);
        assert(after.drop_last() =~= before);
        assert(after.last() == names@[i as int]@);
        if str_eq(names[i].as_str(), id) {
            exact = true;
            assert(after[i as int] == id@);
        } else {
            assert(exact == after.contains(id@)) by {
                if exact {
                    let k = choose|k: int| 0 <= k < before.len() && #[trigger] before[k] == id@;
                    assert(after[k] == id@);
                }
                if after.contains(id@) {
                    let k = choose|k: int| 0 <= k < after.len() && #[trigger] after[k] == id@;
                    assert(before[k] == id@);
                }
            }
        }
        if contains_str(names[i].as_str(), id) {
            if count == 0 {
                first = i;
            }
            count = count + 1;
        }
        i = i + 1;
    }
    assert(ns.take(names@.len() as int) =~= ns);
    if exact {
        return Ok(owned(id));
    }
    if count == 1 {
        Ok(names[first].clone())
    } else if count == 0 {
        Err(AgentAccessError::NotFound { id: owned(id) })
    } else {
        Err(AgentAccessError::Ambiguous { id: owned(id), count })
    }
}


// ---------------------------------------------------------------------
// Ordering and limits
// ---------------------------------------------------------------------

/// Rows ordered by folder name, last first: folder names begin with the
/// start time (`YYYY-MM-DD-HHMM-`), so this is most recent first.
pub open spec fn recent_first(rows: Seq<MeetingSummary>) -> bool {
    forall|i: int, j: int|
        0 <= i < j < rows.len() ==> text_le(#[trigger] rows[j].folder@, #[trigger] rows[i].folder@)
}

/// Sorts `rows` most recent first.
pub fn sort_recent_first(rows: Vec<MeetingSummary>) -> (r: Vec<MeetingSummary>)
    ensures
        recent_first(r@),
        r@.to_multiset() == rows@.to_multiset(),
{
    let mut out: Vec<MeetingSummary> = Vec::new();
    let mut rest = rows;
    let ghost orig = rest@;
    proof {
        broadcast use vstd::multiset::group_multiset_axioms;
        vstd::seq_lib::to_multiset_len(out@);
        assert(out@.to_multiset() =~= vstd::multiset::Multiset::empty());
        assert(out@.to_multiset().add(rest@.to_multiset()) =~= orig.to_multiset());
    }
    while rest.len() > 0
        invariant
            recent_first(out@),
            out@.to_multiset().add(rest@.to_multiset()) =~= orig.to_multiset(),
        decreases rest@.len(),
    {
        let ghost rest0 = rest@;
        let x = rest.pop().unwrap();
        proof {
            assert(rest0 =~= rest@.push(x));
            vstd::seq_lib::to_multiset_build(rest@, x);
        }
        let mut p: usize = 0;
        while p < out.len() && text_le_exec(x.folder.as_str(), out[p].folder.as_str())
            invariant
                p <= out@.len(),
                forall|j: int| 0 <= j < p ==> text_le(x.folder@, #[trigger] out@[j].folder@),
            decreases out@.len() - p,
        {
            p = p + 1;
        }
        let ghost before = out@;
        proof {
            if p < before.len() {
                lemma_text_le_total(x.folder@, before[p as int].folder@);
            }
            assert forall|i: int, j: int|
                0 <= i < j < before.len() + 1 implies text_le(
                #[trigger] before.insert(p as int, x)[j].folder@,
                #[trigger] before.insert(p as int, x)[i].folder@,
            ) by {
                if i == p && j - 1 > p {
                    lemma_text_le_trans(before[j - 1].folder@, before[p as int].folder@, x.folder@);
                }
            }
            vstd::seq_lib::to_multiset_insert(before, p as int, x);
        }
        out.insert(p, x);
        proof {
            broadcast use vstd::multiset::group_multiset_axioms;
            assert(out@.to_multiset().add(rest@.to_multiset()) =~= orig.to_multiset());
        }
    }
    proof {
        broadcast use vstd::multiset::group_multiset_axioms;
        vstd::seq_lib::to_multiset_len(rest@);
        assert(rest@.to_multiset() =~= vstd::multiset::Multiset::empty());
        assert(out@.to_multiset() =~= orig.to_multiset());
    }
    out
}

/// `limit` clamped to `[1, MAX_LIST_LIMIT]`.
pub open spec fn clamp_spec(limit: usize) -> usize {
    if limit < 1 {
        1
    } else if limit > MAX_LIST_LIMIT {
        MAX_LIST_LIMIT
    } else {
        limit
    }
}

/// A requested row count clamped to `[1, MAX_LIST_LIMIT]`.
pub fn clamp_limit(limit: usize) -> (r: usize)
    ensures
        r == (if limit < 1 {
            1
        } else if limit > MAX_LIST_LIMIT {
            MAX_LIST_LIMIT
        } else {
            limit
        }),
{
    if limit < 1 {
        1
    } else if limit > MAX_LIST_LIMIT {
        MAX_LIST_LIMIT
    } else {
        limit
    }
}

/// The first `n` rows (all of them when there are fewer).
fn truncated(rows: Vec<MeetingSummary>, n: usize) -> (r: Vec<MeetingSummary>)
    ensures
        r@ == (if rows@.len() <= n {
            rows@
        } else {
            rows@.take(n as int)
        }),
{
    let mut rows = rows;
    rows.truncate(n);
    rows
}


// ---------------------------------------------------------------------
// Folder shapes
// ---------------------------------------------------------------------

/// What a session folder holds.
#[derive(Clone, Copy, Debug, PartialEq, Eq, Structural)]
pub enum FolderShape {
    /// `meta.toml` exists.
    Finished,
    /// `journal/` exists and neither `audio.opus` nor `meta.toml` does.
    Unfinished,
    /// Neither: not a meeting.
    NotAMeeting,
}

/// The shape of a folder given which of its entries exist.
pub open spec fn shape_of(meta_exists: bool, journal_exists: bool, audio_exists: bool) -> FolderShape {
    if meta_exists {
        FolderShape::Finished
    } else if journal_exists && !audio_exists {
        FolderShape::Unfinished
    } else {
        FolderShape::NotAMeeting
    }
}

/// A meeting folder as classified: finished with its metadata, or
/// unfinished.
#[derive(Clone, Debug, PartialEq, Eq)]
pub enum Classification {
    Finished(MetaSnapshot),
    Unfinished,
}

/// A row as the surface serves it: an unfinished meeting carries no
/// metadata, a finished one at least its identifier and start.
pub open spec fn well_shaped(m: MeetingSummary) -> bool {
    match m.status {
        SessionStatus::Unfinished => m.session_id is None && m.title is None && m.started_at is None
            && m.ended_at is None && m.duration_secs is None,
        SessionStatus::Finished => m.session_id is Some && m.started_at is Some,
    }
}

/// `meta.toml` of the folder `name` under `root`.
pub open spec fn meta_path_of(root: Seq<char>, name: Seq<char>) -> Seq<char> {
    path_join(path_join(root, name), "meta.toml"@)
}

/// The failures a walk over `root` can end with: the root is missing or
/// unlistable, or some folder's `meta.toml` cannot be read or parsed.
pub open spec fn listing_error(e: AgentAccessError, root: Seq<char>) -> bool {
    match e {
        AgentAccessError::RootMissing { root: r } => r@ == root,
        AgentAccessError::Io { path, .. } => path@ == root || exists|n: Seq<char>|
            path@ == #[trigger] meta_path_of(root, n),
        AgentAccessError::Meta { path, .. } => exists|n: Seq<char>|
            path@ == #[trigger] meta_path_of(root, n),
        _ => false,
    }
}

/// `parse_meta` may turn the text `body` into `res`.
pub open spec fn parsed_as<P: Fn(&str) -> Result<MetaSnapshot, String>>(
    parse_meta: P,
    body: Seq<char>,
    res: Result<MetaSnapshot, String>,
) -> bool {
    exists|b: &str| b@ == body && #[trigger] parse_meta.ensures((b,), res)
}

/// `r` is how `folder` is classified given answers `fs` may give: with a
/// `meta.toml`, the meeting is finished with what `parse_meta` makes of
/// the file (a file that cannot be read or parsed is an error); without
/// one, it is unfinished when `journal/` is there and `audio.opus` is
/// not, and not a meeting otherwise.
pub open spec fn classified<F: ReadOnlyFs, P: Fn(&str) -> Result<MetaSnapshot, String>>(
    fs: F,
    parse_meta: P,
    folder: Seq<char>,
    r: Result<Option<Classification>, AgentAccessError>,
) -> bool {
    let mp = path_join(folder, "meta.toml"@);
    let jp = path_join(folder, "journal"@);
    let ap = path_join(folder, "audio.opus"@);
    ||| fs.has(mp, true) && exists|m: Seq<char>|
        #[trigger] fs.reads(mp, Err(m)) && (r matches Err(AgentAccessError::Io { path, message })
            && path@ == mp && message@ == m)
    ||| fs.has(mp, true) && exists|body: Seq<char>, res: Result<MetaSnapshot, String>|
        #[trigger] fs.reads(mp, Ok(body)) && #[trigger] parsed_as(parse_meta, body, res) && match res {
            Ok(meta) => r == Ok::<Option<Classification>, AgentAccessError>(
                Some(Classification::Finished(meta)),
            ),
            Err(msg) => (r matches Err(AgentAccessError::Meta { path, message }) && path@ == mp
                && message == msg),
        }
    ||| fs.has(mp, false) && fs.has(jp, false) && r == Ok::<
        Option<Classification>,
        AgentAccessError,
    >(None)
    ||| fs.has(mp, false) && fs.has(jp, true) && fs.has(ap, true) && r == Ok::<
        Option<Classification>,
        AgentAccessError,
    >(None)
    ||| fs.has(mp, false) && fs.has(jp, true) && fs.has(ap, false) && r == Ok::<
        Option<Classification>,
        AgentAccessError,
    >(Some(Classification::Unfinished))
}

/// Classifies `folder`: `Ok(None)` when it is not a meeting. A
/// `meta.toml` that cannot be read or parsed is an error, never taken
/// for an unfinished meeting.
pub fn classify<F: ReadOnlyFs, P: Fn(&str) -> Result<MetaSnapshot, String>>(
    fs: &F,
    parse_meta: &P,
    folder: &str,
) -> (r: Result<Option<Classification>, AgentAccessError>)
    requires
        forall|body: &str| parse_meta.requires((body,)),
    ensures
        classified(*fs, *parse_meta, folder@, r),
        r matches Err(e) ==> match e {
            AgentAccessError::Io { path, .. } => path@ == path_join(folder@, "meta.toml"@),
            AgentAccessError::Meta { path, .. } => path@ == path_join(folder@, "meta.toml"@),
            _ => false,
        },
{
    let meta_path = join_path(folder, "meta.toml");
    if fs.path_exists(meta_path.as_str()) {
        let body = match fs.read_to_string(meta_path.as_str()) {
            Ok(b) => b,
            Err(message) => {
                let r = Err(AgentAccessError::Io { path: meta_path, message });
                proof {
                    assert(fs.reads(path_join(folder@, "meta.toml"@), Err(message@)));
                }
                return r;
            },
        };
        let parsed = parse_meta(body.as_str());
        proof {
            assert(parsed_as(*parse_meta, body@, parsed));
            assert(fs.reads(path_join(folder@, "meta.toml"@), Ok(body@)));
        }
        return match parsed {
            Ok(meta) => Ok(Some(Classification::Finished(meta))),
            Err(message) => Err(AgentAccessError::Meta { path: meta_path, message }),
        };
    }
    let journal = join_path(folder, "journal");
    let audio = join_path(folder, "audio.opus");
    if fs.path_exists(journal.as_str()) && !fs.path_exists(audio.as_str()) {
        return Ok(Some(Classification::Unfinished));
    }
    Ok(None)
}

/// `row` is the row of folder `name` classified as `c`.
pub open spec fn row_for(row: MeetingSummary, name: Seq<char>, c: Classification) -> bool {
    &&& row.folder@ == name
    &&& match c {
        Classification::Finished(meta) => {
            &&& row.status == SessionStatus::Finished
            &&& row.session_id == Some(meta.session_id)
            &&& row.title == meta.title
            &&& row.started_at == Some(meta.started_at)
            &&& row.ended_at == meta.ended_at
            &&& row.duration_secs == meta.duration_secs
        },
        Classification::Unfinished => {
            &&& row.status == SessionStatus::Unfinished
            &&& row.session_id is None
            &&& row.title is None
            &&& row.started_at is None
            &&& row.ended_at is None
            &&& row.duration_secs is None
        },
    }
}

/// `rows` are the rows of the folders `names` classified as `classes`
/// (one class per name), in order, folders that are not meetings left
/// out.
pub open spec fn rows_match(
    rows: Seq<MeetingSummary>,
    names: Seq<Seq<char>>,
    classes: Seq<Option<Classification>>,
) -> bool
    decreases names.len(),
{
    if names.len() == 0 || classes.len() == 0 {
        rows.len() == 0
    } else {
        match classes.last() {
            None => rows_match(rows, names.drop_last(), classes.drop_last()),
            Some(c) => rows.len() > 0 && row_for(rows.last(), names.last(), c) && rows_match(
                rows.drop_last(),
                names.drop_last(),
                classes.drop_last(),
            ),
        }
    }
}

/// The walk over the folders `names` listed under `root` ends with `r`:
/// each folder classified in turn, stopping at the first failure.
pub open spec fn walk_done<F: ReadOnlyFs, P: Fn(&str) -> Result<MetaSnapshot, String>>(
    fs: F,
    parse_meta: P,
    root: Seq<char>,
    names: Seq<Seq<char>>,
    classes: Seq<Option<Classification>>,
    r: Result<Seq<MeetingSummary>, AgentAccessError>,
) -> bool {
    &&& fs.lists(root, Ok(names))
    &&& classes.len() <= names.len()
    &&& forall|k: int|
        0 <= k < classes.len() ==> classified(
            fs,
            parse_meta,
            path_join(root, names[k]),
            Ok(#[trigger] classes[k]),
        )
    &&& if classes.len() == names.len() {
        r matches Ok(rows) && rows_match(rows, names, classes)
    } else {
        r matches Err(e) && classified(
            fs,
            parse_meta,
            path_join(root, names[classes.len() as int]),
            Err(e),
        )
    }
}

/// `r` is what listing `root` gives, with answers `fs` may give: a
/// missing root, an unlistable one, or the walk over its folders.
pub open spec fn walked<F: ReadOnlyFs, P: Fn(&str) -> Result<MetaSnapshot, String>>(
    fs: F,
    parse_meta: P,
    root: Seq<char>,
    r: Result<Seq<MeetingSummary>, AgentAccessError>,
) -> bool {
    ||| fs.has(root, false) && (r matches Err(AgentAccessError::RootMissing { root: x }) && x@
        == root)
    ||| fs.has(root, true) && exists|m: Seq<char>|
        #[trigger] fs.lists(root, Err(m)) && (r matches Err(AgentAccessError::Io { path, message })
            && path@ == root && message@ == m)
    ||| fs.has(root, true) && exists|names: Seq<Seq<char>>, classes: Seq<Option<Classification>>|
        #[trigger] walk_done(fs, parse_meta, root, names, classes, r)
}

/// A listing result with its rows as a sequence.
pub open spec fn listing_view(r: Result<Vec<MeetingSummary>, AgentAccessError>) -> Result<
    Seq<MeetingSummary>,
    AgentAccessError,
> {
    match r {
        Ok(v) => Ok(v@),
        Err(e) => Err(e),
    }
}

proof fn lemma_rows_match_step(
    rows: Seq<MeetingSummary>,
    names: Seq<Seq<char>>,
    classes: Seq<Option<Classification>>,
    i: int,
    c: Option<Classification>,
    rows2: Seq<MeetingSummary>,
)
    requires
        0 <= i < names.len(),
        classes.len() == i,
        rows_match(rows, names.take(i), classes),
        match c {
            None => rows2 == rows,
            Some(cl) => rows2.len() == rows.len() + 1 && rows2.drop_last() == rows && row_for(
                rows2.last(),
                names[i],
                cl,
            ),
        },
    ensures
        rows_match(rows2, names.take(i + 1), classes.push(c)),
{
    assert(names.take(i + 1).drop_last() =~= names.take(i));
    assert(classes.push(c).drop_last() =~= classes);
    assert(names.take(i + 1).last() == names[i]);
}

/// Every meeting folder directly under `root`, in the order the
/// filesystem lists them.
pub fn list_sessions<F: ReadOnlyFs, P: Fn(&str) -> Result<MetaSnapshot, String>>(
    fs: &F,
    parse_meta: &P,
    root: &str,
) -> (r: Result<Vec<MeetingSummary>, AgentAccessError>)
    requires
        forall|body: &str| parse_meta.requires((body,)),
    ensures
        walked(*fs, *parse_meta, root@, listing_view(r)),
        match r {
            Ok(v) => forall|k: int| 0 <= k < v@.len() ==> well_shaped(#[trigger] v@[k]),
            Err(e) => listing_error(e, root@),
        },
{
    if !fs.path_exists(root) {
        return Err(AgentAccessError::RootMissing { root: owned(root) });
    }
    let names = match fs.subdirectories(root) {
        Ok(n) => n,
        Err(message) => {
            proof {
                assert(fs.lists(root@, Err(message@)));
            }
            return Err(AgentAccessError::Io { path: owned(root), message });
        },
    };
    let ghost nv = views(names@);
    assert(fs.lists(root@, Ok(nv)));
    let ghost mut classes: Seq<Option<Classification>> = Seq::empty();
    let mut out: Vec<MeetingSummary> = Vec::new();
    let mut i: usize = 0;
    assert(nv.take(0) =~= Seq::<Seq<char>>::empty());
    while i < names.len()
        invariant
            i <= names@.len(),
            nv == views(names@),
            fs.lists(root@, Ok(nv)),
            fs.has(root@, true),
            classes.len() == i,
            forall|body: &str| parse_meta.requires((body,)),
            forall|k: int| 0 <= k < out@.len() ==> well_shaped(#[trigger] out@[k]),
            forall|k: int|
                0 <= k < classes.len() ==> classified(
                    *fs,
                    *parse_meta,
                    path_join(root@, nv[k]),
                    Ok(#[trigger] classes[k]),
                ),
            rows_match(out@, nv.take(i as int), classes),
        decreases names@.len() - i,
    {
        let name = names[i].clone();
        let folder = join_path(root, name.as_str());
        let res = classify(fs, parse_meta, folder.as_str());
        let ghost gres = res;
        let ghost before = out@;
        assert(name@ == nv[i as int]);
        match res {
            Err(e) => {
                proof {
                    assert(meta_path_of(root@, name@) == path_join(folder@, "meta.toml"@));
                    assert(walk_done(*fs, *parse_meta, root@, nv, classes, Err(e)));
                }
                return Err(e);
            },
            Ok(Some(Classification::Finished(meta))) => out.push(
                MeetingSummary::finished(name, meta),
            ),
            Ok(Some(Classification::Unfinished)) => out.push(MeetingSummary::unfinished(name)),
            Ok(None) => {},
        }
        proof {
            let c = gres->Ok_0;
            if c is Some {
                assert(out@.drop_last() =~= before);
            }
            lemma_rows_match_step(before, nv, classes, i as int, c, out@);
            classes = classes.push(c);
        }
        i = i + 1;
    }
    proof {
        assert(nv.take(i as int) =~= nv);
        assert(walk_done(*fs, *parse_meta, root@, nv, classes, Ok(out@)));
    }
    Ok(out)
}

/// `v` holds the `n` most recently started of `all` (all of them when
/// there are fewer), most recent first.
pub open spec fn most_recent(all: Seq<MeetingSummary>, n: nat, v: Seq<MeetingSummary>) -> bool {
    exists|sorted: Seq<MeetingSummary>|
        #[trigger] recent_first(sorted) && sorted.to_multiset() == all.to_multiset() && v == (if sorted.len()
            <= n {
            sorted
        } else {
            sorted.take(n as int)
        })
}

proof fn lemma_shaped_permutation(a: Seq<MeetingSummary>, b: Seq<MeetingSummary>)
    requires
        forall|k: int| 0 <= k < a.len() ==> well_shaped(#[trigger] a[k]),
        b.to_multiset() == a.to_multiset(),
    ensures
        forall|k: int| 0 <= k < b.len() ==> well_shaped(#[trigger] b[k]),
{
    assert forall|k: int| 0 <= k < b.len() implies well_shaped(#[trigger] b[k]) by {
        vstd::seq_lib::to_multiset_contains(b, b[k]);
        vstd::seq_lib::to_multiset_contains(a, b[k]);
        assert(b.contains(b[k]));
        let m = choose|m: int| 0 <= m < a.len() && a[m] == b[k];
        assert(well_shaped(a[m]));
    }
}

/// The `limit` (clamped) most recently started meetings under `root`,
/// most recent first.
pub fn list_recent_meetings<F: ReadOnlyFs, P: Fn(&str) -> Result<MetaSnapshot, String>>(
    fs: &F,
    parse_meta: &P,
    root: &str,
    limit: usize,
) -> (r: Result<Vec<MeetingSummary>, AgentAccessError>)
    requires
        forall|body: &str| parse_meta.requires((body,)),
    ensures
        r matches Ok(v) ==> recent_first(v@) && v@.len() <= (if limit < 1 {
            1
        } else if limit > MAX_LIST_LIMIT {
            MAX_LIST_LIMIT
        } else {
            limit
        }) && forall|k: int| 0 <= k < v@.len() ==> well_shaped(#[trigger] v@[k]),
        r matches Err(e) ==> listing_error(e, root@),
        match r {
            Ok(v) => exists|all: Seq<MeetingSummary>|
                #[trigger] walked(*fs, *parse_meta, root@, Ok(all)) && most_recent(
                    all,
                    clamp_spec(limit) as nat,
                    v@,
                ),
            Err(e) => walked(*fs, *parse_meta, root@, Err(e)),
        },
{
    let all = list_sessions(fs, parse_meta, root)?;
    let ghost all_rows = all@;
    let sorted = sort_recent_first(all);
    proof {
        lemma_shaped_permutation(all_rows, sorted@);
    }
    let n = clamp_limit(limit);
    let out = truncated(sorted, n);
    proof {
        assert(walked(*fs, *parse_meta, root@, Ok(all_rows)));
        assert(most_recent(all_rows, n as nat, out@));
        if sorted@.len() > n {
            assert forall|k: int| 0 <= k < out@.len() implies well_shaped(#[trigger] out@[k]) by {
                assert(out@[k] == sorted@[k]);
            }
            assert forall|i: int, j: int| 0 <= i < j < out@.len() implies text_le(
                #[trigger] out@[j].folder@,
                #[trigger] out@[i].folder@,
            ) by {
                assert(out@[i] == sorted@[i] && out@[j] == sorted@[j]);
            }
        }
    }
    Ok(out)
}

/// What a row returned by a search for `needle` (already lowercased)
/// satisfies: its folder name or title contains the needle, or it is a
/// finished meeting (whose notes or transcript may have matched).
pub open spec fn search_candidate(row: MeetingSummary, needle: Seq<char>) -> bool {
    ||| contains(str_lowercase(row.folder@), needle)
    ||| (row.title matches Some(t) && contains(str_lowercase(t@), needle))
    ||| row.status == SessionStatus::Finished
}

/// An unfinished meeting is found by its folder name only: a search hit
/// that is unfinished has a folder name containing the query.
pub proof fn unfinished_hits_match_by_folder(row: MeetingSummary, needle: Seq<char>)
    requires
        search_candidate(row, needle),
        well_shaped(row),
        row.status == SessionStatus::Unfinished,
    ensures
        contains(str_lowercase(row.folder@), needle),
{
}

/// `b` says whether the file at `path`, read as `fs` may read it, is
/// text whose lowercase form contains `needle`; a file that cannot be
/// read contains nothing.
pub open spec fn file_found<F: ReadOnlyFs>(fs: F, path: Seq<char>, needle: Seq<char>, b: bool) -> bool {
    exists|r: Result<Seq<char>, Seq<char>>|
        #[trigger] fs.reads(path, r) && b == (r matches Ok(body) && contains(
            str_lowercase(body),
            needle,
        ))
}

/// `c` says whether the content of `row` matched: never for an unfinished
/// meeting, whose files are not read; for a finished one, its notes, or
/// else its transcript.
pub open spec fn content_seen<F: ReadOnlyFs>(
    fs: F,
    root: Seq<char>,
    row: MeetingSummary,
    needle: Seq<char>,
    c: bool,
) -> bool {
    let dir = path_join(root, row.folder@);
    if row.status == SessionStatus::Unfinished {
        !c
    } else {
        ||| c && file_found(fs, path_join(dir, "notes.md"@), needle, true)
        ||| file_found(fs, path_join(dir, "notes.md"@), needle, false) && file_found(
            fs,
            path_join(dir, "transcript.md"@),
            needle,
            c,
        )
    }
}

/// `b` says whether `row` is a hit of a search for `needle`: by folder
/// name, by title, or by content.
pub open spec fn search_hit<F: ReadOnlyFs>(
    fs: F,
    root: Seq<char>,
    row: MeetingSummary,
    needle: Seq<char>,
    b: bool,
) -> bool {
    exists|c: bool|
        #[trigger] content_seen(fs, root, row, needle, c) && b == (contains(
            str_lowercase(row.folder@),
            needle,
        ) || (row.title matches Some(t) && contains(str_lowercase(t@), needle)) || c)
}

/// The rows of `all` whose flag is set, in order.
pub open spec fn selected(all: Seq<MeetingSummary>, flags: Seq<bool>) -> Seq<MeetingSummary>
    decreases all.len(),
{
    if all.len() == 0 || flags.len() == 0 {
        Seq::empty()
    } else {
        (if flags[0] {
            seq![all[0]]
        } else {
            Seq::empty()
        }) + selected(all.drop_first(), flags.drop_first())
    }
}

/// A search for `needle` under `root` listed `all`, flagged each row as
/// a hit or not, and answered `v`: the most recent hits, at most `limit`
/// (clamped).
pub open spec fn search_done<F: ReadOnlyFs, P: Fn(&str) -> Result<MetaSnapshot, String>>(
    fs: F,
    parse_meta: P,
    root: Seq<char>,
    needle: Seq<char>,
    limit: usize,
    all: Seq<MeetingSummary>,
    flags: Seq<bool>,
    v: Seq<MeetingSummary>,
) -> bool {
    &&& walked(fs, parse_meta, root, Ok(all))
    &&& flags.len() == all.len()
    &&& forall|k: int| 0 <= k < all.len() ==> search_hit(fs, root, #[trigger] all[k], needle, flags[k])
    &&& most_recent(selected(all, flags), clamp_spec(limit) as nat, v)
}

/// `v` is what a search for `needle` under `root` may answer.
pub open spec fn searched<F: ReadOnlyFs, P: Fn(&str) -> Result<MetaSnapshot, String>>(
    fs: F,
    parse_meta: P,
    root: Seq<char>,
    needle: Seq<char>,
    limit: usize,
    v: Seq<MeetingSummary>,
) -> bool {
    exists|all: Seq<MeetingSummary>, flags: Seq<bool>|
        #[trigger] search_done(fs, parse_meta, root, needle, limit, all, flags, v)
}

/// Whether the file at `path` reads and, lowercased, contains `needle`.
fn file_contains<F: ReadOnlyFs>(fs: &F, path: &str, needle: &str) -> (b: bool)
    ensures
        file_found(*fs, path@, needle@, b),
{
    let r = fs.read_to_string(path);
    let ghost rv = match &r {
        Ok(t) => Ok(t@),
        Err(m) => Err(m@),
    };
    assert(fs.reads(path@, rv));
    match r {
        Ok(body) => {
            let lower = to_lowercase(body.as_str());
            contains_str(lower.as_str(), needle)
        },
        Err(_) => false,
    }
}

/// Case-insensitive substring search over folder names and titles and,
/// for finished meetings only, over `notes.md` and `transcript.md`;
/// matches most recent first, at most `limit` (clamped) of them. An
/// unfinished meeting can match by folder name but its content is never
/// read.
pub fn search_sessions<F: ReadOnlyFs, P: Fn(&str) -> Result<MetaSnapshot, String>>(
    fs: &F,
    parse_meta: &P,
    root: &str,
    query: &str,
    limit: usize,
) -> (r: Result<Vec<MeetingSummary>, AgentAccessError>)
    requires
        forall|body: &str| parse_meta.requires((body,)),
    ensures
        r matches Ok(v) ==> recent_first(v@) && v@.len() <= (if limit < 1 {
            1
        } else if limit > MAX_LIST_LIMIT {
            MAX_LIST_LIMIT
        } else {
            limit
        }) && forall|i: int|
            0 <= i < v@.len() ==> search_candidate(#[trigger] v@[i], str_lowercase(query@))
                && well_shaped(v@[i]),
        r matches Err(e) ==> listing_error(e, root@),
        match r {
            Ok(v) => searched(*fs, *parse_meta, root@, str_lowercase(query@), limit, v@),
            Err(e) => walked(*fs, *parse_meta, root@, Err(e)),
        },
{
    let needle = to_lowercase(query);
    let mut all = match list_sessions(fs, parse_meta, root) {
        Ok(v) => v,
        Err(e) => {
            return Err(e);
        },
    };
    let ghost all0 = all@;
    let ghost mut flags: Seq<bool> = Seq::empty();
    let mut hits: Vec<MeetingSummary> = Vec::new();
    proof {
        assert(all0.take(all0.len() as int) =~= all0);
        assert(all0.skip(all0.len() as int) =~= Seq::<MeetingSummary>::empty());
        assert(hits@.to_multiset() =~= selected(Seq::empty(), flags).to_multiset());
    }
    while all.len() > 0
        invariant
            needle@ == str_lowercase(query@),
            forall|k: int| 0 <= k < hits@.len() ==> search_candidate(#[trigger] hits@[k], needle@),
            forall|k: int| 0 <= k < hits@.len() ==> well_shaped(#[trigger] hits@[k]),
            forall|k: int| 0 <= k < all@.len() ==> well_shaped(#[trigger] all@[k]),
            all@.len() <= all0.len(),
            all@ == all0.take(all@.len() as int),
            flags.len() == all0.len() - all@.len(),
            forall|k: int|
                0 <= k < flags.len() ==> search_hit(
                    *fs,
                    root@,
                    #[trigger] all0[all@.len() + k],
                    needle@,
                    flags[k],
                ),
            hits@.to_multiset() == selected(all0.skip(all@.len() as int), flags).to_multiset(),
        decreases all@.len(),
    {
        let ghost before = all@;
        let ghost hits_before = hits@;
        let row = all.pop().unwrap();
        proof {
            assert(row == before[before.len() - 1]);
            assert(row == all0[all@.len() as int]);
            assert forall|k: int| 0 <= k < all@.len() implies well_shaped(#[trigger] all@[k]) by {
                assert(all@[k] == before[k]);
            }
            assert(all@ =~= all0.take(all@.len() as int));
        }
        let folder_lower = to_lowercase(row.folder.as_str());
        let folder_hit = contains_str(folder_lower.as_str(), needle.as_str());
        let title_hit = match &row.title {
            Some(t) => {
                let tl = to_lowercase(t.as_str());
                contains_str(tl.as_str(), needle.as_str())
            },
            None => false,
        };
        let content_hit = match row.status {
            SessionStatus::Finished => {
                let folder = join_path(root, row.folder.as_str());
                let notes = join_path(folder.as_str(), "notes.md");
                if file_contains(fs, notes.as_str(), needle.as_str()) {
                    true
                } else {
                    let transcript = join_path(folder.as_str(), "transcript.md");
                    file_contains(fs, transcript.as_str(), needle.as_str())
                }
            },
            SessionStatus::Unfinished => false,
        };
        let hit = folder_hit || title_hit || content_hit;
        proof {
            assert(content_seen(*fs, root@, row, needle@, content_hit));
            assert(search_hit(*fs, root@, row, needle@, hit));
            let rest = all0.skip(before.len() as int);
            let suffix = all0.skip(all@.len() as int);
            assert(suffix =~= seq![row] + rest);
            let nflags = seq![hit] + flags;
            assert(suffix.drop_first() =~= rest);
            assert(nflags.drop_first() =~= flags);
            assert(selected(suffix, nflags) == (if hit {
                seq![row]
            } else {
                Seq::empty()
            }) + selected(rest, flags));
            assert forall|k: int| 0 <= k < nflags.len() implies search_hit(
                *fs,
                root@,
                #[trigger] all0[all@.len() + k],
                needle@,
                nflags[k],
            ) by {
                if k > 0 {
                    assert(all0[all@.len() + k] == all0[before.len() + (k - 1)]);
                }
            }
            vstd::seq_lib::lemma_multiset_commutative(
                if hit {
                    seq![row]
                } else {
                    Seq::empty()
                },
                selected(rest, flags),
            );
            flags = nflags;
        }
        if hit {
            hits.push(row);
            proof {
                assert(hits@ =~= hits_before.push(row));
                vstd::seq_lib::lemma_multiset_commutative(hits_before, seq![row]);
                assert(hits_before.push(row) =~= hits_before + seq![row]);
                vstd::seq_lib::lemma_multiset_commutative(seq![row], hits_before);
            }
        } else {
            proof {
                assert(Seq::<MeetingSummary>::empty().to_multiset() =~= vstd::multiset::Multiset::empty()) by {
                    broadcast use vstd::seq_lib::group_to_multiset_ensures;
                }
            }
        }
    }
    proof {
        assert(all0.skip(0) =~= all0);
        assert(hits@.to_multiset() == selected(all0, flags).to_multiset());
        assert forall|k: int| 0 <= k < all0.len() implies search_hit(
            *fs,
            root@,
            #[trigger] all0[k],
            needle@,
            flags[k],
        ) by {
            assert(all0[all@.len() + k] == all0[k]);
        }
    }
    let ghost hit_rows = hits@;
    let sorted = sort_recent_first(hits);
    proof {
        lemma_shaped_permutation(hit_rows, sorted@);
        assert forall|k: int| 0 <= k < sorted@.len() implies search_candidate(
            #[trigger] sorted@[k],
            needle@,
        ) by {
            vstd::seq_lib::to_multiset_contains(sorted@, sorted@[k]);
            vstd::seq_lib::to_multiset_contains(hits@, sorted@[k]);
            assert(sorted@.contains(sorted@[k]));
            let m = choose|m: int| 0 <= m < hits@.len() && hits@[m] == sorted@[k];
            assert(search_candidate(hits@[m], needle@));
        }
    }
    let n = clamp_limit(limit);
    let out = truncated(sorted, n);
    proof {
        assert(walked(*fs, *parse_meta, root@, Ok(all0)));
        assert(sorted@.to_multiset() == selected(all0, flags).to_multiset());
        assert(most_recent(selected(all0, flags), n as nat, out@));
        assert(search_done(*fs, *parse_meta, root@, needle@, limit, all0, flags, out@));
        assert(search_done(
            *fs,
            *parse_meta,
            root@,
            str_lowercase(query@),
            limit,
            all0,
            flags,
            out@,
        ));
        if sorted@.len() > n {
            assert forall|i: int, j: int| 0 <= i < j < out@.len() implies text_le(
                #[trigger] out@[j].folder@,
                #[trigger] out@[i].folder@,
            ) by {
                assert(out@[i] == sorted@[i] && out@[j] == sorted@[j]);
            }
            assert forall|k: int| 0 <= k < out@.len() implies search_candidate(
                #[trigger] out@[k],
                needle@,
            ) && well_shaped(out@[k]) by {
                assert(out@[k] == sorted@[k]);
            }
        }
    }
    assert(searched(*fs, *parse_meta, root@, str_lowercase(query@), limit, out@));
    Ok(out)
}


/// The failures of resolving `id` under `root`.
pub open spec fn resolve_error(e: AgentAccessError, root: Seq<char>, id: Seq<char>) -> bool {
    match e {
        AgentAccessError::InvalidId { id: i } => i@ == id && is_invalid_id(id),
        AgentAccessError::RootMissing { root: r } => r@ == root,
        AgentAccessError::Io { path, .. } => path@ == root,
        AgentAccessError::NotFound { id: i } => i@ == id,
        AgentAccessError::Ambiguous { id: i, count } => i@ == id && count >= 2,
        _ => false,
    }
}

/// The failures of looking up the meeting `id` names under `root`: those
/// of resolving it, a folder of neither shape (not found), or its
/// `meta.toml` failing to read or parse.
pub open spec fn lookup_error(e: AgentAccessError, root: Seq<char>, id: Seq<char>) -> bool {
    ||| resolve_error(e, root, id)
    ||| (e matches AgentAccessError::Io { path, .. } && exists|n: Seq<char>|
        path@ == #[trigger] meta_path_of(root, n))
    ||| (e matches AgentAccessError::Meta { path, .. } && exists|n: Seq<char>|
        path@ == #[trigger] meta_path_of(root, n))
}

/// A resolution result with the folder as a sequence.
pub open spec fn folder_view(r: Result<String, AgentAccessError>) -> Result<Seq<char>, AgentAccessError> {
    match r {
        Ok(f) => Ok(f@),
        Err(e) => Err(e),
    }
}

/// `r` is what resolving `id` under `root` gives, with answers `fs` may
/// give: an identifier that could leave the root is refused; otherwise a
/// missing or unlistable root is an error, and else the folder is
/// `root/<name>` for the name `resolved` picks among the listed
/// subdirectories (none or several is an error).
pub open spec fn resolved_in<F: ReadOnlyFs>(
    fs: F,
    root: Seq<char>,
    id: Seq<char>,
    r: Result<Seq<char>, AgentAccessError>,
) -> bool {
    if is_invalid_id(id) {
        r matches Err(AgentAccessError::InvalidId { id: e }) && e@ == id
    } else {
        ||| fs.has(root, false) && (r matches Err(AgentAccessError::RootMissing { root: x }) && x@
            == root)
        ||| fs.has(root, true) && exists|m: Seq<char>|
            #[trigger] fs.lists(root, Err(m)) && (r matches Err(
                AgentAccessError::Io { path, message },
            ) && path@ == root && message@ == m)
        ||| fs.has(root, true) && exists|names: Seq<Seq<char>>|
            #[trigger] fs.lists(root, Ok(names)) && match resolved(names, id) {
                Ok(n) => r == Ok::<Seq<char>, AgentAccessError>(path_join(root, n)),
                Err(None) => r matches Err(AgentAccessError::NotFound { id: e }) && e@ == id,
                Err(Some(c)) => r matches Err(AgentAccessError::Ambiguous { id: e, count }) && e@
                    == id && count == c,
            }
    }
}

/// The folder under `root` that `id` names (see `resolved_in`).
pub fn resolve_meeting_folder<F: ReadOnlyFs>(fs: &F, root: &str, id: &str) -> (r: Result<
    String,
    AgentAccessError,
>)
    ensures
        resolved_in(*fs, root@, id@, folder_view(r)),
        is_invalid_id(id@) ==> (r matches Err(AgentAccessError::InvalidId { id: e }) && e@
            == id@),
        r matches Ok(f) ==> exists|n: Seq<char>| f@ == path_join(root@, n),
        r matches Err(e) ==> resolve_error(e, root@, id@),
{
    match check_id(id) {
        Err(e) => {
            return Err(e);
        },
        Ok(()) => {},
    }
    if !fs.path_exists(root) {
        return Err(AgentAccessError::RootMissing { root: owned(root) });
    }
    let names = match fs.subdirectories(root) {
        Ok(n) => n,
        Err(message) => {
            proof {
                assert(fs.lists(root@, Err(message@)));
            }
            return Err(AgentAccessError::Io { path: owned(root), message });
        },
    };
    proof {
        assert(fs.lists(root@, Ok(views(names@))));
    }
    match resolve_name(&names, id) {
        Ok(name) => Ok(join_path(root, name.as_str())),
        Err(e) => Err(e),
    }
}

/// The last component of `folder`, or `fallback` when it has none.
fn folder_name(folder: &str, fallback: &str) -> (r: String)
    ensures
        r@ == shown_folder(folder@, fallback@),
{
    match crate::paths::file_name_of(folder) {
        Some(n) => n,
        None => owned(fallback),
    }
}

/// The folder name a lookup reports for `folder`: its last component, or
/// the identifier asked for when it has none.
pub open spec fn shown_folder(folder: Seq<char>, id: Seq<char>) -> Seq<char> {
    match crate::paths::path_file_name(folder) {
        Some(n) => n,
        None => id,
    }
}

/// `r` is what looking up the meeting `id` names under `root` gives, with
/// answers `fs` may give: a resolution failure as it is; otherwise the
/// folder is classified, and a classification failure is returned, a
/// folder that is not a meeting is not found, and a meeting is served as
/// the row of its folder.
pub open spec fn looked_up<F: ReadOnlyFs, P: Fn(&str) -> Result<MetaSnapshot, String>>(
    fs: F,
    parse_meta: P,
    root: Seq<char>,
    id: Seq<char>,
    r: Result<MeetingSummary, AgentAccessError>,
) -> bool {
    ||| exists|e: AgentAccessError|
        #[trigger] resolved_in(fs, root, id, Err(e)) && r == Err::<MeetingSummary, AgentAccessError>(
            e,
        )
    ||| exists|f: Seq<char>, c: Result<Option<Classification>, AgentAccessError>|
        #![trigger resolved_in(fs, root, id, Ok(f)), classified(fs, parse_meta, f, c)]
        resolved_in(fs, root, id, Ok(f)) && classified(fs, parse_meta, f, c) && match c {
            Err(e) => r == Err::<MeetingSummary, AgentAccessError>(e),
            Ok(None) => r matches Err(AgentAccessError::NotFound { id: e }) && e@ == id,
            Ok(Some(cl)) => r matches Ok(m) && row_for(m, shown_folder(f, id), cl),
        }
}

/// Metadata of the meeting `id` names.
pub fn get_meeting<F: ReadOnlyFs, P: Fn(&str) -> Result<MetaSnapshot, String>>(
    fs: &F,
    parse_meta: &P,
    root: &str,
    id: &str,
) -> (r: Result<MeetingSummary, AgentAccessError>)
    requires
        forall|body: &str| parse_meta.requires((body,)),
    ensures
        looked_up(*fs, *parse_meta, root@, id@, r),
        is_invalid_id(id@) ==> (r matches Err(AgentAccessError::InvalidId { id: e }) && e@
            == id@),
        r matches Ok(m) ==> well_shaped(m),
        r matches Err(e) ==> lookup_error(e, root@, id@),
{
    let folder = match resolve_meeting_folder(fs, root, id) {
        Ok(f) => f,
        Err(e) => {
            proof {
                assert(resolved_in(*fs, root@, id@, Err(e)));
            }
            return Err(e);
        },
    };
    let name = folder_name(folder.as_str(), id);
    let ghost n = choose|n: Seq<char>| folder@ == path_join(root@, n);
    let c = classify(fs, parse_meta, folder.as_str());
    proof {
        assert(meta_path_of(root@, n) == path_join(folder@, "meta.toml"@));
        assert(resolved_in(*fs, root@, id@, Ok(folder@)));
        assert(classified(*fs, *parse_meta, folder@, c));
    }
    match c {
        Err(e) => Err(e),
        Ok(Some(Classification::Finished(meta))) => Ok(MeetingSummary::finished(name, meta)),
        Ok(Some(Classification::Unfinished)) => Ok(MeetingSummary::unfinished(name)),
        Ok(None) => Err(AgentAccessError::NotFound { id: owned(id) }),
    }
}

/// `r` serves `file` of a finished meeting whose folder is shown as
/// `name`, with answers `fs` may give: no content when the file is
/// reported absent, its text when it reads, and the read error otherwise.
pub open spec fn content_served<F: ReadOnlyFs>(
    fs: F,
    file: Seq<char>,
    name: Seq<char>,
    r: Result<MeetingContent, AgentAccessError>,
) -> bool {
    ||| fs.has(file, false) && (r matches Ok(m) && m.folder@ == name && m.status
        == SessionStatus::Finished && m.content is None)
    ||| fs.has(file, true) && exists|t: Seq<char>|
        #[trigger] fs.reads(file, Ok(t)) && (r matches Ok(m) && m.folder@ == name && m.status
            == SessionStatus::Finished && (m.content matches Some(s) && s@ == t))
    ||| fs.has(file, true) && exists|msg: Seq<char>|
        #[trigger] fs.reads(file, Err(msg)) && (r matches Err(
            AgentAccessError::Io { path, message },
        ) && path@ == file && message@ == msg)
}

/// `r` is what fetching `file_name` of the meeting `id` names under
/// `root` gives, with answers `fs` may give: failures as for
/// `looked_up`; an unfinished meeting is served without content and
/// without looking for the file; a finished one with the content of
/// `<folder>/<file_name>` (see `content_served`).
pub open spec fn fetched<F: ReadOnlyFs, P: Fn(&str) -> Result<MetaSnapshot, String>>(
    fs: F,
    parse_meta: P,
    root: Seq<char>,
    id: Seq<char>,
    file_name: Seq<char>,
    r: Result<MeetingContent, AgentAccessError>,
) -> bool {
    ||| exists|e: AgentAccessError|
        #[trigger] resolved_in(fs, root, id, Err(e)) && r == Err::<MeetingContent, AgentAccessError>(
            e,
        )
    ||| exists|f: Seq<char>, c: Result<Option<Classification>, AgentAccessError>|
        #![trigger resolved_in(fs, root, id, Ok(f)), classified(fs, parse_meta, f, c)]
        resolved_in(fs, root, id, Ok(f)) && classified(fs, parse_meta, f, c) && match c {
            Err(e) => r == Err::<MeetingContent, AgentAccessError>(e),
            Ok(None) => r matches Err(AgentAccessError::NotFound { id: e }) && e@ == id,
            Ok(Some(Classification::Unfinished)) => r matches Ok(m) && m.folder@ == shown_folder(
                f,
                id,
            ) && m.status == SessionStatus::Unfinished && m.content is None,
            Ok(Some(Classification::Finished(_))) => content_served(
                fs,
                path_join(f, file_name),
                shown_folder(f, id),
                r,
            ),
        }
}

/// `file_name` of the meeting `id` names: no content when the meeting is
/// unfinished (the file is not even looked for) or the file is missing.
pub fn get_meeting_file<F: ReadOnlyFs, P: Fn(&str) -> Result<MetaSnapshot, String>>(
    fs: &F,
    parse_meta: &P,
    root: &str,
    id: &str,
    file_name: &str,
) -> (r: Result<MeetingContent, AgentAccessError>)
    requires
        forall|body: &str| parse_meta.requires((body,)),
    ensures
        fetched(*fs, *parse_meta, root@, id@, file_name@, r),
        is_invalid_id(id@) ==> (r matches Err(AgentAccessError::InvalidId { id: e }) && e@
            == id@),
        r matches Ok(c) ==> (c.status == SessionStatus::Unfinished ==> c.content is None),
        r matches Err(e) ==> lookup_error(e, root@, id@) || (e matches AgentAccessError::Io {
            path,
            ..
        } && exists|n: Seq<char>| path@ == path_join(#[trigger] path_join(root@, n), file_name@)),
{
    let folder = match resolve_meeting_folder(fs, root, id) {
        Ok(f) => f,
        Err(e) => {
            proof {
                assert(resolved_in(*fs, root@, id@, Err(e)));
            }
            return Err(e);
        },
    };
    let name = folder_name(folder.as_str(), id);
    let ghost n = choose|n: Seq<char>| folder@ == path_join(root@, n);
    let c = classify(fs, parse_meta, folder.as_str());
    proof {
        assert(meta_path_of(root@, n) == path_join(folder@, "meta.toml"@));
        assert(resolved_in(*fs, root@, id@, Ok(folder@)));
        assert(classified(*fs, *parse_meta, folder@, c));
    }
    match c {
        Err(e) => Err(e),
        Ok(None) => Err(AgentAccessError::NotFound { id: owned(id) }),
        Ok(Some(Classification::Unfinished)) => Ok(
            MeetingContent { folder: name, status: SessionStatus::Unfinished, content: None },
        ),
        Ok(Some(Classification::Finished(_))) => {
            let path = join_path(folder.as_str(), file_name);
            let content = if fs.path_exists(path.as_str()) {
                match fs.read_to_string(path.as_str()) {
                    Ok(body) => {
                        proof {
                            assert(fs.reads(path@, Ok(body@)));
                        }
                        Some(body)
                    },
                    Err(message) => {
                        proof {
                            assert(fs.reads(path@, Err(message@)));
                        }
                        return Err(AgentAccessError::Io { path, message });
                    },
                }
            } else {
                None
            };
            Ok(MeetingContent { folder: name, status: SessionStatus::Finished, content })
        },
    }
}

/// `notes.md` of the meeting `id` names.
pub fn get_meeting_notes<F: ReadOnlyFs, P: Fn(&str) -> Result<MetaSnapshot, String>>(
    fs: &F,
    parse_meta: &P,
    root: &str,
    id: &str,
) -> (r: Result<MeetingContent, AgentAccessError>)
    requires
        forall|body: &str| parse_meta.requires((body,)),
    ensures
        is_invalid_id(id@) ==> (r matches Err(AgentAccessError::InvalidId { id: e }) && e@
            == id@),
        fetched(*fs, *parse_meta, root@, id@, "notes.md"@, r),
        r matches Ok(c) ==> (c.status == SessionStatus::Unfinished ==> c.content is None),
        r matches Err(e) ==> lookup_error(e, root@, id@) || (e matches AgentAccessError::Io {
            path,
            ..
        } && exists|n: Seq<char>| path@ == path_join(#[trigger] path_join(root@, n), "notes.md"@)),
{
    get_meeting_file(fs, parse_meta, root, id, "notes.md")
}

/// `transcript.md` of the meeting `id` names.
pub fn get_meeting_transcript<F: ReadOnlyFs, P: Fn(&str) -> Result<MetaSnapshot, String>>(
    fs: &F,
    parse_meta: &P,
    root: &str,
    id: &str,
) -> (r: Result<MeetingContent, AgentAccessError>)
    requires
        forall|body: &str| parse_meta.requires((body,)),
    ensures
        is_invalid_id(id@) ==> (r matches Err(AgentAccessError::InvalidId { id: e }) && e@
            == id@),
        fetched(*fs, *parse_meta, root@, id@, "transcript.md"@, r),
        r matches Ok(c) ==> (c.status == SessionStatus::Unfinished ==> c.content is None),
        r matches Err(e) ==> lookup_error(e, root@, id@) || (e matches AgentAccessError::Io {
            path,
            ..
        } && exists|n: Seq<char>| path@ == path_join(#[trigger] path_join(root@, n), "transcript.md"@)),
{
    get_meeting_file(fs, parse_meta, root, id, "transcript.md")
}

} // verus!
