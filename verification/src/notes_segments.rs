//! Canonical-transcript segmentation and boundary-aligned packing.
//!
//! `transcript.md` is written one accepted final at a time by
//! `notes::render_transcript_header` and `notes::render_transcript_line`.
//! [`parse_canonical_transcript`] parses that rendered markdown back into
//! [`TranscriptSegment`] values; [`pack_segments`] groups them into map
//! chunks without ever splitting one segment across two chunks.

use vstd::prelude::*;

use crate::text::{
    chars_of, dec, digit_value, find, find_exec, is_blank_range, lemma_find_from_bounds,
    line_bounds, lines, push_dec, push_str, starts_with, string_from_chars, string_of_range,
    trim, trim_bounds,
};

verus! {

/// One parsed line from the canonical transcript body: one accepted
/// final.
#[derive(Clone, Debug, PartialEq, Eq)]
pub struct TranscriptSegment {
    /// 1-indexed position of this segment within the parsed transcript.
    pub ordinal: usize,
    /// Rendered speaker label.
    pub speaker: String,
    /// Start of the segment relative to session start, in milliseconds,
    /// as recovered from the rendered `HH:MM:SS` timestamp.
    pub start_ms: u64,
    /// Segment text exactly as rendered.
    pub text: String,
}

/// The mathematical content of a [`TranscriptSegment`].
pub struct SegmentView {
    pub ordinal: nat,
    pub speaker: Seq<char>,
    pub start_ms: nat,
    pub text: Seq<char>,
}

impl View for TranscriptSegment {
    type V = SegmentView;

    open spec fn view(&self) -> SegmentView {
        SegmentView {
            ordinal: self.ordinal as nat,
            speaker: self.speaker@,
            start_ms: self.start_ms as nat,
            text: self.text@,
        }
    }
}

/// A canonical transcript body line did not match the
/// `**speaker** [HH:MM:SS]: text` shape. `line` is 1-indexed.
#[derive(Debug, PartialEq, Eq)]
pub struct TranscriptParseError {
    pub line: usize,
    pub reason: String,
}

impl TranscriptParseError {
    /// `malformed transcript line {line}: {reason}`.
    pub fn to_string(&self) -> (s: String)
        ensures
            s@ == "malformed transcript line "@ + dec(self.line as nat) + ": "@ + self.reason@,
    {
        let mut out: Vec<char> = Vec::new();
        push_str(&mut out, "malformed transcript line ");
        push_dec(&mut out, self.line as u64);
        push_str(&mut out, ": ");
        push_str(&mut out, self.reason.as_str());
        string_from_chars(out.as_slice())
    }
}

// ---------------------------------------------------------------------
// Specification of the parser
// ---------------------------------------------------------------------

/// `"**"`.
pub open spec fn open_marker() -> Seq<char> {
    seq!['*', '*']
}

/// `"** ["`.
pub open spec fn speaker_marker() -> Seq<char> {
    seq!['*', '*', ' ', '[']
}

/// `"]: "`.
pub open spec fn timestamp_marker() -> Seq<char> {
    seq![']', ':', ' ']
}

/// `"# "`.
pub open spec fn title_marker() -> Seq<char> {
    seq!['#', ' ']
}

/// Value of a sequence of decimal digits.
pub open spec fn digits_value(ds: Seq<char>) -> nat
    decreases ds.len(),
{
    if ds.len() == 0 {
        0
    } else {
        digits_value(ds.drop_last()) * 10 + digit_value(ds.last()).unwrap_or(0)
    }
}

/// Whether every character of `ds` is an ASCII digit.
pub open spec fn all_digits(ds: Seq<char>) -> bool {
    forall|i: int| 0 <= i < ds.len() ==> (digit_value(#[trigger] ds[i]) is Some)
}

/// `u64::from_str`: an optional `'+'` then at least one ASCII digit,
/// with a value that fits in a `u64`.
pub open spec fn parse_u64_spec(s: Seq<char>) -> Option<nat> {
    let ds = if s.len() > 1 && s[0] == '+' {
        s.drop_first()
    } else {
        s
    };
    if ds.len() > 0 && all_digits(ds) && digits_value(ds) <= u64::MAX {
        Some(digits_value(ds))
    } else {
        None
    }
}

/// The pieces of `s` between `':'` separators (`str::split(':')`).
pub open spec fn split_colon(s: Seq<char>) -> Seq<Seq<char>>
    decreases s.len(),
{
    match find(s, seq![':']) {
        None => seq![s],
        Some(k) => if 0 <= k < s.len() {
            seq![s.subrange(0, k)] + split_colon(s.subrange(k + 1, s.len() as int))
        } else {
            seq![s]
        },
    }
}

/// Outcome of reading an `HH:MM:SS` timestamp.
pub enum HmsOutcome {
    /// Not three `':'`-separated unsigned integers with `MM` and `SS`
    /// below 60.
    Invalid,
    /// A well-formed timestamp whose millisecond value does not fit in a
    /// `u64`.
    Overflow,
    /// The timestamp in milliseconds.
    Millis(nat),
}

/// Reads an `HH:MM:SS` timestamp into milliseconds; `HH` may have any
/// number of digits.
pub open spec fn parse_hms_spec(raw: Seq<char>) -> HmsOutcome {
    let parts = split_colon(raw);
    if parts.len() != 3 {
        HmsOutcome::Invalid
    } else {
        match (parse_u64_spec(parts[0]), parse_u64_spec(parts[1]), parse_u64_spec(parts[2])) {
            (Some(h), Some(m), Some(s)) => if m >= 60 || s >= 60 {
                HmsOutcome::Invalid
            } else if (h * 3600 + m * 60 + s) * 1000 > u64::MAX {
                HmsOutcome::Overflow
            } else {
                HmsOutcome::Millis((h * 3600 + m * 60 + s) * 1000)
            },
            _ => HmsOutcome::Invalid,
        }
    }
}

/// Outcome of reading one body line.
pub enum LineOutcome {
    /// `(speaker, start_ms, text)`.
    Parsed(Seq<char>, nat, Seq<char>),
    /// The line is malformed for the given reason.
    Malformed(Seq<char>),
    /// The timestamp does not fit in a `u64` millisecond count.
    Overflow,
}

/// Reads one rendered `**speaker** [HH:MM:SS]: text` line.
pub open spec fn parse_line_spec(l: Seq<char>) -> LineOutcome {
    if !starts_with(l, open_marker()) {
        LineOutcome::Malformed("missing opening speaker marker `**`"@)
    } else {
        let after = l.subrange(2, l.len() as int);
        match find(after, speaker_marker()) {
            None => LineOutcome::Malformed("missing speaker/timestamp marker `** [`"@),
            Some(k) => {
                let speaker = after.subrange(0, k);
                let rest = after.subrange(k + 4, after.len() as int);
                if speaker.len() == 0 {
                    LineOutcome::Malformed("empty speaker label"@)
                } else {
                    match find(rest, timestamp_marker()) {
                        None => LineOutcome::Malformed("missing timestamp delimiter `]: `"@),
                        Some(m) => {
                            let ts = rest.subrange(0, m);
                            let text = rest.subrange(m + 3, rest.len() as int);
                            match parse_hms_spec(ts) {
                                HmsOutcome::Invalid => LineOutcome::Malformed(
                                    "invalid timestamp, expected HH:MM:SS"@,
                                ),
                                HmsOutcome::Overflow => LineOutcome::Overflow,
                                HmsOutcome::Millis(v) => LineOutcome::Parsed(speaker, v, text),
                            }
                        },
                    }
                }
            },
        }
    }
}

/// Whether a line is empty once trimmed.
pub open spec fn is_blank(l: Seq<char>) -> bool {
    trim(l).len() == 0
}

/// The header's `*started[ — ended]*` line: trimmed, at least two
/// characters, starting and ending with `'*'`.
pub open spec fn is_meta_line(l: Seq<char>) -> bool {
    let t = trim(l);
    t.len() >= 2 && t[0] == '*' && t.last() == '*'
}

/// The first index at or after `i` whose line is not blank.
pub open spec fn skip_blank(ls: Seq<Seq<char>>, i: int) -> int
    decreases ls.len() - i,
{
    if 0 <= i < ls.len() && is_blank(ls[i]) {
        skip_blank(ls, i + 1)
    } else {
        i
    }
}

/// Index of the first body line: after an optional `# ` title line, an
/// optional metadata line, and every blank line that follows.
pub open spec fn body_start(ls: Seq<Seq<char>>) -> int {
    let i0: int = if ls.len() > 0 && starts_with(ls[0], title_marker()) {
        1
    } else {
        0
    };
    let i1: int = if i0 < ls.len() && is_meta_line(ls[i0]) {
        i0 + 1
    } else {
        i0
    };
    skip_blank(ls, i1)
}

/// Outcome of parsing a whole transcript.
pub enum ParseOutcome {
    /// The parsed segments, in order.
    Done(Seq<SegmentView>),
    /// The first malformed nonblank body line: `(line number, reason)`.
    Error(nat, Seq<char>),
    /// A timestamp's millisecond value does not fit in a `u64`.
    Overflow,
}

/// Parses the body lines `ls[j..]`, having parsed `acc` already.
pub open spec fn parse_body(ls: Seq<Seq<char>>, j: int, acc: Seq<SegmentView>) -> ParseOutcome
    decreases ls.len() - j,
{
    if j < 0 || j >= ls.len() {
        ParseOutcome::Done(acc)
    } else if is_blank(ls[j]) {
        parse_body(ls, j + 1, acc)
    } else {
        match parse_line_spec(ls[j]) {
            LineOutcome::Malformed(reason) => ParseOutcome::Error((j + 1) as nat, reason),
            LineOutcome::Overflow => ParseOutcome::Overflow,
            LineOutcome::Parsed(speaker, ms, text) => parse_body(
                ls,
                j + 1,
                acc.push(
                    SegmentView { ordinal: acc.len() + 1, speaker, start_ms: ms, text },
                ),
            ),
        }
    }
}

/// What parsing the canonical transcript `markdown` yields.
pub open spec fn transcript_parse(markdown: Seq<char>) -> ParseOutcome {
    let ls = lines(markdown);
    parse_body(ls, body_start(ls), Seq::empty())
}

// ---------------------------------------------------------------------
// Executable parser
// ---------------------------------------------------------------------

fn malformed(line: usize, reason: &str) -> (e: TranscriptParseError)
    ensures
        e.line == line,
        e.reason@ == reason@,
{
    TranscriptParseError { line, reason: String::from_str(reason) }
}

/// `digits_value` of a prefix extended by one digit.
proof fn lemma_digits_value_push(ds: Seq<char>, c: char)
    ensures
        digits_value(ds.push(c)) == digits_value(ds) * 10 + digit_value(c).unwrap_or(0),
{
    assert(ds.push(c).drop_last() == ds);
}

/// `u64::from_str` over `cs[lo..hi]`.
fn parse_u64_range(cs: &Vec<char>, lo: usize, hi: usize) -> (r: Option<u64>)
    requires
        lo <= hi <= cs.len(),
    ensures
        r matches Some(v) ==> parse_u64_spec(cs@.subrange(lo as int, hi as int)) == Some(
            v as nat,
        ),
        r is None ==> parse_u64_spec(cs@.subrange(lo as int, hi as int)) is None,
{
    let ghost s = cs@.subrange(lo as int, hi as int);
    let start = if hi - lo > 1 && cs[lo] == '+' {
        lo + 1
    } else {
        lo
    };
    let ghost ds = cs@.subrange(start as int, hi as int);
    assert(ds == (if s.len() > 1 && s[0] == '+' {
        s.drop_first()
    } else {
        s
    }));
    if start == hi {
        return None;
    }
    let mut v: u64 = 0;
    let mut i = start;
    while i < hi
        invariant
            lo <= start <= i <= hi <= cs.len(),
            ds == cs@.subrange(start as int, hi as int),
            s == cs@.subrange(lo as int, hi as int),
            ds == (if s.len() > 1 && s[0] == '+' {
                s.drop_first()
            } else {
                s
            }),
            all_digits(cs@.subrange(start as int, i as int)),
            v as nat == digits_value(cs@.subrange(start as int, i as int)),
        decreases hi - i,
    {
        let c = cs[i];
        proof {
            assert(cs@.subrange(start as int, i + 1) == cs@.subrange(start as int, i as int).push(
                c,
            ));
            lemma_digits_value_push(cs@.subrange(start as int, i as int), c);
        }
        if !('0' <= c && c <= '9') {
            proof {
                assert(ds[i - start] == c);
                assert(digit_value(ds[i - start]) is None);
                assert(!all_digits(ds));
                assert(parse_u64_spec(s) is None);
            }
            return None;
        }
        let d = (c as u32 - '0' as u32) as u64;
        if v > (u64::MAX - d) / 10 {
            proof {
                assert(v * 10 + d > u64::MAX) by (nonlinear_arith)
                    requires
                        v > (u64::MAX - d) / 10,
                        d <= 9,
                ;
                assert(ds.subrange(0, i + 1 - start) == cs@.subrange(start as int, i + 1));
                if all_digits(ds) {
                    lemma_digits_value_prefix_le(ds, (i + 1 - start) as int);
                    assert(digits_value(ds) > u64::MAX);
                }
                assert(parse_u64_spec(s) is None);
            }
            return None;
        }
        v = v * 10 + d;
        i = i + 1;
    }
    proof {
        assert(cs@.subrange(start as int, hi as int) == ds);
    }
    Some(v)
}

/// The value of a digit prefix never exceeds the value of the whole.
proof fn lemma_digits_value_prefix_le(ds: Seq<char>, k: int)
    requires
        0 <= k <= ds.len(),
        all_digits(ds),
    ensures
        digits_value(ds.subrange(0, k)) <= digits_value(ds),
    decreases ds.len() - k,
{
    if k < ds.len() {
        lemma_digits_value_prefix_le(ds, k + 1);
        assert(ds.subrange(0, k + 1).drop_last() == ds.subrange(0, k));
    } else {
        assert(ds.subrange(0, k) == ds);
    }
}

/// Splits `cs[lo..hi]` at `':'`, returning the bounds of each piece.
fn split_colon_range(cs: &Vec<char>, lo: usize, hi: usize) -> (r: Vec<(usize, usize)>)
    requires
        lo <= hi <= cs.len(),
    ensures
        r@.len() == split_colon(cs@.subrange(lo as int, hi as int)).len(),
        forall|k: int|
            0 <= k < r@.len() ==> {
                &&& lo <= (#[trigger] r@[k]).0 <= r@[k].1 <= hi
                &&& cs@.subrange(r@[k].0 as int, r@[k].1 as int) == split_colon(
                    cs@.subrange(lo as int, hi as int),
                )[k]
            },
    decreases hi - lo,
{
    let colon: Vec<char> = vec![':'];
    assert(colon@ == seq![':']);
    let ghost s = cs@.subrange(lo as int, hi as int);
    match find_exec(cs, lo, hi, &colon, lo) {
        None => {
            let mut r: Vec<(usize, usize)> = Vec::new();
            r.push((lo, hi));
            r
        },
        Some(k) => {
            proof {
                lemma_find_from_bounds(s, colon@, 0);
            }
            let rest = split_colon_range(cs, k + 1, hi);
            let mut r: Vec<(usize, usize)> = Vec::new();
            r.push((lo, k));
            let mut i: usize = 0;
            while i < rest.len()
                invariant
                    i <= rest@.len(),
                    r@.len() == i + 1,
                    r@[0] == (lo, k),
                    forall|j: int| 1 <= j < r@.len() ==> r@[j] == rest@[j - 1],
                decreases rest.len() - i,
            {
                r.push(rest[i]);
                i = i + 1;
            }
            proof {
                assert(s.subrange(k - lo + 1, s.len() as int) == cs@.subrange(
                    k + 1,
                    hi as int,
                ));
                assert(s.subrange(0, k - lo) == cs@.subrange(lo as int, k as int));
                let sp = split_colon(s);
                assert(find(s, seq![':']) == Some(k - lo));
                assert(0 <= k - lo < s.len());
                assert(sp == seq![s.subrange(0, k - lo)] + split_colon(
                    s.subrange(k - lo + 1, s.len() as int),
                ));
                assert(sp.len() == r@.len());
                assert(sp[0] == cs@.subrange(lo as int, k as int));
                assert forall|j: int| 0 <= j < r@.len() implies {
                    &&& lo <= (#[trigger] r@[j]).0 <= r@[j].1 <= hi
                    &&& cs@.subrange(r@[j].0 as int, r@[j].1 as int) == sp[j]
                } by {
                    if j > 0 {
                        assert(r@[j] == rest@[j - 1]);
                        assert(sp[j] == split_colon(cs@.subrange(k + 1, hi as int))[j - 1]);
                    }
                }
            }
            r
        },
    }
}

/// What reading a timestamp gives.
enum Stamp {
    Invalid,
    TooLarge,
    Millis(u64),
}

/// Reads the timestamp `cs[lo..hi]`.
fn parse_hms_range(cs: &Vec<char>, lo: usize, hi: usize) -> (r: Stamp)
    requires
        lo <= hi <= cs.len(),
    ensures
        match parse_hms_spec(cs@.subrange(lo as int, hi as int)) {
            HmsOutcome::Invalid => r is Invalid,
            HmsOutcome::Overflow => r is TooLarge,
            HmsOutcome::Millis(v) => r matches Stamp::Millis(x) && x == v,
        },
{
    let parts = split_colon_range(cs, lo, hi);
    if parts.len() != 3 {
        return Stamp::Invalid;
    }
    let h = match parse_u64_range(cs, parts[0].0, parts[0].1) {
        Some(v) => v,
        None => return Stamp::Invalid,
    };
    let m = match parse_u64_range(cs, parts[1].0, parts[1].1) {
        Some(v) => v,
        None => return Stamp::Invalid,
    };
    let s = match parse_u64_range(cs, parts[2].0, parts[2].1) {
        Some(v) => v,
        None => return Stamp::Invalid,
    };
    if m >= 60 || s >= 60 {
        return Stamp::Invalid;
    }
    let total: u128 = (h as u128 * 3600 + m as u128 * 60 + s as u128) * 1000;
    if total > 0xffff_ffff_ffff_ffffu128 {
        return Stamp::TooLarge;
    }
    Stamp::Millis(total as u64)
}

/// Reads one body line `cs[lo..hi]`.
#[verifier::rlimit(60)]
fn parse_segment_line(cs: &Vec<char>, lo: usize, hi: usize, line_no: usize) -> (r: Option<
    Result<(String, u64, String), TranscriptParseError>,
>)
    requires
        lo <= hi <= cs.len(),
    ensures
        match parse_line_spec(cs@.subrange(lo as int, hi as int)) {
            LineOutcome::Parsed(speaker, ms, text) => r matches Some(Ok(t)) && t.0@ == speaker
                && t.1 == ms && t.2@ == text,
            LineOutcome::Malformed(reason) => r matches Some(Err(e)) && e.line == line_no
                && e.reason@ == reason,
            LineOutcome::Overflow => r is None,
        },
{
    let ghost l = cs@.subrange(lo as int, hi as int);
    if !(hi - lo >= 2 && cs[lo] == '*' && cs[lo + 1] == '*') {
        proof {
            if starts_with(l, open_marker()) {
                assert(l.subrange(0, 2)[0] == cs@[lo as int]);
                assert(l.subrange(0, 2)[1] == cs@[lo + 1]);
            }
        }
        return Some(Err(malformed(line_no, "missing opening speaker marker `**`")));
    }
    proof {
        assert(l.subrange(0, 2) =~= open_marker());
    }
    let a = lo + 2;
    let ghost after = l.subrange(2, l.len() as int);
    assert(after == cs@.subrange(a as int, hi as int));
    let mut marker: Vec<char> = Vec::new();
    marker.push('*');
    marker.push('*');
    marker.push(' ');
    marker.push('[');
    assert(marker@ =~= speaker_marker());
    let k = match find_exec(cs, a, hi, &marker, a) {
        None => {
            return Some(Err(malformed(line_no, "missing speaker/timestamp marker `** [`")));
        },
        Some(k) => k,
    };
    proof {
        lemma_find_from_bounds(after, speaker_marker(), 0);
    }
    let ghost speaker = after.subrange(0, k - a);
    let ghost rest = after.subrange(k - a + 4, after.len() as int);
    assert(speaker == cs@.subrange(a as int, k as int));
    assert(rest == cs@.subrange(k + 4, hi as int));
    if k == a {
        return Some(Err(malformed(line_no, "empty speaker label")));
    }
    let b = k + 4;
    let mut tmarker: Vec<char> = Vec::new();
    tmarker.push(']');
    tmarker.push(':');
    tmarker.push(' ');
    assert(tmarker@ =~= timestamp_marker());
    let m = match find_exec(cs, b, hi, &tmarker, b) {
        None => {
            return Some(Err(malformed(line_no, "missing timestamp delimiter `]: `")));
        },
        Some(m) => m,
    };
    proof {
        lemma_find_from_bounds(rest, timestamp_marker(), 0);
    }
    let ghost ts = rest.subrange(0, m - b);
    let ghost text = rest.subrange(m - b + 3, rest.len() as int);
    assert(ts == cs@.subrange(b as int, m as int));
    assert(text == cs@.subrange(m + 3, hi as int));
    let start_ms = match parse_hms_range(cs, b, m) {
        Stamp::Invalid => {
            return Some(Err(malformed(line_no, "invalid timestamp, expected HH:MM:SS")));
        },
        Stamp::TooLarge => {
            return None;
        },
        Stamp::Millis(v) => v,
    };
    let speaker_s = string_of_range(cs, a, k);
    let text_s = string_of_range(cs, m + 3, hi);
    Some(Ok((speaker_s, start_ms, text_s)))
}

/// Index of the first body line of the lines `bounds` of `cs`.
fn skip_header(cs: &Vec<char>, bounds: &Vec<(usize, usize)>) -> (idx: usize)
    requires
        bounds@.len() == lines(cs@).len(),
        forall|k: int|
            0 <= k < bounds@.len() ==> {
                &&& (#[trigger] bounds@[k]).0 <= bounds@[k].1 <= cs@.len()
                &&& cs@.subrange(bounds@[k].0 as int, bounds@[k].1 as int) == lines(cs@)[k]
            },
    ensures
        idx == body_start(lines(cs@)),
        idx <= bounds@.len(),
{
    let ghost ls = lines(cs@);
    let mut idx: usize = 0;
    if bounds.len() > 0 {
        let (s, e) = bounds[0];
        let is_title = e - s >= 2 && cs[s] == '#' && cs[s + 1] == ' ';
        proof {
            let l = ls[0];
            assert(l == cs@.subrange(s as int, e as int));
            if is_title {
                assert(l.subrange(0, 2) =~= title_marker());
            } else if starts_with(l, title_marker()) {
                assert(l.subrange(0, 2)[0] == cs@[s as int]);
                assert(l.subrange(0, 2)[1] == cs@[s + 1]);
            }
        }
        if is_title {
            idx = 1;
        }
    }
    if idx < bounds.len() {
        let (s, e) = bounds[idx];
        let (a, z) = trim_bounds(cs, s, e);
        let meta = z - a >= 2 && cs[a] == '*' && cs[z - 1] == '*';
        proof {
            let t = trim(ls[idx as int]);
            assert(t == cs@.subrange(a as int, z as int));
        }
        if meta {
            idx = idx + 1;
        }
    }
    while idx < bounds.len() && is_blank_range(cs, bounds[idx].0, bounds[idx].1)
        invariant
            idx <= bounds@.len(),
            bounds@.len() == ls.len(),
            ls == lines(cs@),
            forall|k: int|
                0 <= k < bounds@.len() ==> {
                    &&& (#[trigger] bounds@[k]).0 <= bounds@[k].1 <= cs@.len()
                    &&& cs@.subrange(bounds@[k].0 as int, bounds@[k].1 as int) == ls[k]
                },
            skip_blank(ls, idx as int) == body_start(ls),
        decreases bounds@.len() - idx,
    {
        idx = idx + 1;
    }
    idx
}

/// Parses a complete canonical `transcript.md` document into ordered
/// segments.
///
/// Skips the static header (a `# ` title line, a `*...*` metadata line)
/// and blank lines; every other line must match
/// `**speaker** [HH:MM:SS]: text`, or the 1-indexed number of the first
/// line that does not is reported. `None` when a timestamp is too large
/// for its milliseconds to fit a `u64`.
pub fn try_parse_canonical_transcript(markdown: &str) -> (r: Option<
    Result<Vec<TranscriptSegment>, TranscriptParseError>,
>)
    ensures
        match transcript_parse(markdown@) {
            ParseOutcome::Done(segs) => r matches Some(Ok(v)) && v@.map_values(
                |t: TranscriptSegment| t@,
            ) == segs,
            ParseOutcome::Error(line, reason) => r matches Some(Err(e)) && e.line == line
                && e.reason@ == reason,
            ParseOutcome::Overflow => r is None,
        },
{
    let cs = chars_of(markdown);
    let bounds = line_bounds(&cs);
    let ghost ls = lines(cs@);
    let start = skip_header(&cs, &bounds);
    let mut segments: Vec<TranscriptSegment> = Vec::new();
    let mut j = start;
    assert(segments@.map_values(|t: TranscriptSegment| t@) =~= Seq::<SegmentView>::empty());
    while j < bounds.len()
        invariant
            start <= j <= bounds@.len(),
            bounds@.len() == ls.len(),
            ls == lines(cs@),
            cs@ == markdown@,
            segments@.len() <= j,
            forall|k: int|
                0 <= k < bounds@.len() ==> {
                    &&& (#[trigger] bounds@[k]).0 <= bounds@[k].1 <= cs@.len()
                    &&& cs@.subrange(bounds@[k].0 as int, bounds@[k].1 as int) == ls[k]
                },
            transcript_parse(markdown@) == parse_body(
                ls,
                j as int,
                segments@.map_values(|t: TranscriptSegment| t@),
            ),
        decreases bounds@.len() - j,
    {
        let (s, e) = bounds[j];
        if is_blank_range(&cs, s, e) {
            j = j + 1;
        } else {
            let ghost acc = segments@.map_values(|t: TranscriptSegment| t@);
            assert(cs@.subrange(s as int, e as int) == ls[j as int]);
            match parse_segment_line(&cs, s, e, j + 1) {
                None => {
                    return None;
                },
                Some(Err(err)) => {
                    return Some(Err(err));
                },
                Some(Ok((speaker, start_ms, text))) => {
                    let seg = TranscriptSegment {
                        ordinal: segments.len() + 1,
                        speaker,
                        start_ms,
                        text,
                    };
                    segments.push(seg);
                    proof {
                        assert(segments@.map_values(|t: TranscriptSegment| t@) =~= acc.push(
                            seg@,
                        ));
                    }
                    j = j + 1;
                },
            }
        }
    }
    Some(Ok(segments))
}

/// Parses a complete canonical `transcript.md` document into ordered
/// segments (see `try_parse_canonical_transcript`), for a document whose
/// timestamps all fit.
pub fn parse_canonical_transcript(markdown: &str) -> (r: Result<
    Vec<TranscriptSegment>,
    TranscriptParseError,
>)
    requires
        !(transcript_parse(markdown@) is Overflow),
    ensures
        match transcript_parse(markdown@) {
            ParseOutcome::Done(segs) => r matches Ok(v) && v@.map_values(
                |t: TranscriptSegment| t@,
            ) == segs,
            ParseOutcome::Error(line, reason) => r matches Err(e) && e.line == line && e.reason@
                == reason,
            ParseOutcome::Overflow => false,
        },
{
    match try_parse_canonical_transcript(markdown) {
        Some(r) => r,
        None => {
            proof {
                assert(false);
            }
            Ok(Vec::new())
        },
    }
}

// ---------------------------------------------------------------------
// Packing
// ---------------------------------------------------------------------

/// One packed map chunk: the segments it introduces, in transcript order,
/// plus whole trailing segments repeated from the previous chunk.
#[derive(Debug, PartialEq, Eq)]
pub struct SegmentChunk<'a> {
    /// Segments first introduced by this chunk. Never empty.
    pub segments: Vec<&'a TranscriptSegment>,
    /// Trailing segments repeated from the previous chunk's `segments`;
    /// empty for the first chunk.
    pub overlap: Vec<&'a TranscriptSegment>,
}

/// State of the packer after the first `i` segments, given each segment's
/// token count: `(starts of the closed chunks, start of the open chunk,
/// tokens counted in the open chunk)`.
pub open spec fn pack_state(toks: Seq<nat>, target: nat, i: int) -> (Seq<int>, int, nat)
    decreases i,
{
    if i <= 0 {
        (Seq::empty(), 0, 0)
    } else {
        let (st, cs, ct) = pack_state(toks, target, i - 1);
        let t = toks[i - 1];
        if cs < i - 1 && ct + t > target {
            (st.push(cs), i - 1, t)
        } else {
            (st, cs, ct + t)
        }
    }
}

/// Start index of every chunk `pack_segments` produces for segments with
/// token counts `toks`: a chunk grows one segment at a time and is closed
/// only when it already holds a segment and the next one would push its
/// count past `target`.
pub open spec fn pack_starts(toks: Seq<nat>, target: nat) -> Seq<int> {
    let (st, cs, _) = pack_state(toks, target, toks.len() as int);
    if toks.len() > 0 {
        st.push(cs)
    } else {
        st
    }
}

/// End (exclusive) of chunk `k` among `n` segments.
pub open spec fn chunk_end(starts: Seq<int>, n: int, k: int) -> int {
    if k + 1 < starts.len() {
        starts[k + 1]
    } else {
        n
    }
}

/// Start of chunk `k`'s overlap: the last `nov` segments of chunk `k - 1`,
/// or none for the first chunk.
pub open spec fn overlap_start(starts: Seq<int>, nov: nat, k: int) -> int {
    if k == 0 {
        starts[0]
    } else if starts[k] - nov > starts[k - 1] {
        starts[k] - nov
    } else {
        starts[k - 1]
    }
}

/// `v` holds references to exactly the elements of `s`, in order.
pub open spec fn refs_to(v: Seq<&TranscriptSegment>, s: Seq<TranscriptSegment>) -> bool {
    v.len() == s.len() && forall|j: int| 0 <= j < v.len() ==> *v[j] == s[j]
}

/// `chunks` is the packing of `segs` whose token counts are `toks`.
pub open spec fn is_packing(
    chunks: Seq<SegmentChunk>,
    segs: Seq<TranscriptSegment>,
    toks: Seq<nat>,
    target: nat,
    nov: nat,
) -> bool {
    let starts = pack_starts(toks, target);
    &&& chunks.len() == starts.len()
    &&& forall|k: int|
        0 <= k < chunks.len() ==> {
            &&& refs_to(
                (#[trigger] chunks[k]).segments@,
                segs.subrange(starts[k], chunk_end(starts, segs.len() as int, k)),
            )
            &&& refs_to(chunks[k].overlap@, segs.subrange(overlap_start(starts, nov, k), starts[k]))
        }
}

/// `tok` is a count `count` can report for a string holding `text`.
pub open spec fn counted_one<F: Fn(&str) -> u32>(count: F, text: Seq<char>, tok: nat) -> bool {
    exists|s: &str, t: u32| s@ == text && tok == t as nat && count.ensures((s,), t)
}

/// `toks[i]` is a count `count` reported for the text of `segs[i]`.
pub open spec fn counted<F: Fn(&str) -> u32>(
    count: F,
    segs: Seq<TranscriptSegment>,
    toks: Seq<nat>,
) -> bool {
    &&& toks.len() == segs.len()
    &&& forall|i: int| 0 <= i < segs.len() ==> #[trigger] counted_one(count, segs[i].text@, toks[i])
}

proof fn lemma_pack_state_bounds(toks: Seq<nat>, target: nat, i: int)
    requires
        0 <= i <= toks.len(),
    ensures
        ({
            let (st, cs, ct) = pack_state(toks, target, i);
            &&& 0 <= cs <= i
            &&& (i > 0 ==> cs < i)
            &&& forall|k: int| 0 <= k < st.len() ==> 0 <= #[trigger] st[k] < cs
            &&& forall|k: int, l: int| 0 <= k < l < st.len() ==> st[k] < st[l]
        }),
    decreases i,
{
    if i > 0 {
        lemma_pack_state_bounds(toks, target, i - 1);
    }
}

/// Packs `segments` into ordered map chunks using the caller's token
/// counter.
///
/// A chunk grows one segment at a time; adding the next segment closes it
/// and starts a new chunk only when the chunk already holds a segment and
/// the addition would push its count past `target_tokens`. The last
/// `overlap_segments` segments of a closed chunk are repeated as the next
/// chunk's `overlap`.
pub fn pack_segments<'a, F>(
    segments: &'a [TranscriptSegment],
    target_tokens: u32,
    overlap_segments: u32,
    count_tokens: F,
) -> (chunks: Vec<SegmentChunk<'a>>) where F: Fn(&str) -> u32
    requires
        forall|s: &str| count_tokens.requires((s,)),
    ensures
        exists|toks: Seq<nat>|
            counted(count_tokens, segments@, toks) && is_packing(
                chunks@,
                segments@,
                toks,
                target_tokens as nat,
                overlap_segments as nat,
            ),
{
    let ghost segs = segments@;
    let ghost target = target_tokens as nat;
    let ghost nov = overlap_segments as nat;
    let overlap_len = overlap_segments as usize;
    let target64 = target_tokens as u64;
    let n = segments.len();
    let mut chunks: Vec<SegmentChunk<'a>> = Vec::new();
    let mut current: Vec<&'a TranscriptSegment> = Vec::new();
    let mut current_start: usize = 0;
    let mut current_tokens: u64 = 0;
    let mut pending_overlap: Vec<&'a TranscriptSegment> = Vec::new();
    let mut pending_start: usize = 0;
    let ghost mut toks: Seq<nat> = Seq::empty();
    let mut i: usize = 0;
    while i < n
        invariant
            n == segs.len(),
            segs == segments@,
            target == target_tokens as nat,
            target64 == target_tokens,
            nov == overlap_segments as nat,
            overlap_len == overlap_segments,
            forall|s: &str| count_tokens.requires((s,)),
            i <= n,
            toks.len() == i,
            forall|k: int|
                0 <= k < i ==> #[trigger] counted_one(count_tokens, segs[k].text@, toks[k]),
            ({
                let (st, cs, ct) = pack_state(toks, target, i as int);
                &&& cs == current_start
                &&& ct == current_tokens
                &&& chunks@.len() == st.len()
                &&& refs_to(current@, segs.subrange(cs, i as int))
                &&& pending_start <= current_start
                &&& refs_to(pending_overlap@, segs.subrange(pending_start as int, cs))
                &&& (st.len() == 0 ==> pending_start == current_start)
                &&& (st.len() > 0 ==> pending_start == overlap_start(st.push(cs), nov, st.len() as int))
                &&& forall|k: int|
                    0 <= k < chunks@.len() ==> {
                        &&& refs_to(
                            (#[trigger] chunks@[k]).segments@,
                            segs.subrange(st[k], chunk_end(st.push(cs), n as int, k)),
                        )
                        &&& refs_to(
                            chunks@[k].overlap@,
                            segs.subrange(overlap_start(st.push(cs), nov, k), st[k]),
                        )
                    }
            }),
            current_tokens <= u32::MAX,
        decreases n - i,
    {
        let segment = &segments[i];
        let text_str = segment.text.as_str();
        let t32 = count_tokens(text_str);
        let t = t32 as u64;
        let ghost old_toks = toks;
        proof {
            toks = toks.push(t32 as nat);
            lemma_pack_state_bounds(old_toks, target, i as int);
            assert(toks.subrange(0, i as int) == old_toks);
            lemma_pack_state_prefix(toks, old_toks, target, i as int);
        }
        let would_overflow = current.len() > 0 && current_tokens + t > target64;
        if would_overflow {
            // close the current chunk
            let ghost (st0, cs0, ct0) = pack_state(old_toks, target, i as int);
            let new_pending_start = if current.len() > overlap_len {
                current_start + (current.len() - overlap_len)
            } else {
                current_start
            };
            let mut trailing: Vec<&'a TranscriptSegment> = Vec::new();
            let mut j = new_pending_start;
            while j < i
                invariant
                    current_start <= new_pending_start <= j <= i,
                    i < n,
                    n == segs.len(),
                    refs_to(current@, segs.subrange(current_start as int, i as int)),
                    refs_to(trailing@, segs.subrange(new_pending_start as int, j as int)),
                decreases i - j,
            {
                trailing.push(current[j - current_start]);
                proof {
                    assert(*current@[j - current_start] == segs[j as int]);
                }
                j = j + 1;
            }
            let closed = current;
            current = Vec::new();
            let old_pending = pending_overlap;
            pending_overlap = trailing;
            chunks.push(SegmentChunk { segments: closed, overlap: old_pending });
            proof {
                let (st1, cs1, ct1) = pack_state(toks, target, i + 1);
                assert(st1 == st0.push(cs0));
                assert(cs1 == i);
                let sp = st1.push(i as int);
                assert forall|k: int| 0 <= k < chunks@.len() implies {
                    &&& refs_to(
                        (#[trigger] chunks@[k]).segments@,
                        segs.subrange(st1[k], chunk_end(sp, n as int, k)),
                    )
                    &&& refs_to(
                        chunks@[k].overlap@,
                        segs.subrange(overlap_start(sp, nov, k), st1[k]),
                    )
                } by {
                    if k + 1 < chunks@.len() {
                        assert(st1[k] == st0[k]);
                        assert(chunk_end(sp, n as int, k) == chunk_end(st0.push(cs0), n as int, k));
                        assert(overlap_start(sp, nov, k) == overlap_start(st0.push(cs0), nov, k));
                    } else {
                        assert(k == st0.len());
                        assert(chunk_end(sp, n as int, k) == i);
                        if k > 0 {
                            assert(overlap_start(sp, nov, k) == overlap_start(st0.push(cs0), nov, k));
                        }
                    }
                }
                assert(new_pending_start == overlap_start(sp, nov, st1.len() as int));
            }
            pending_start = new_pending_start;
            current_start = i;
            current_tokens = 0;
        }
        current.push(segment);
        current_tokens = current_tokens + t;
        proof {
            let (st1, cs1, ct1) = pack_state(toks, target, i + 1);
            assert(segs.subrange(cs1, i + 1) == segs.subrange(cs1, i as int).push(segs[i as int]));
            assert(toks[i as int] == t32 as nat);
            assert(text_str@ == segs[i as int].text@);
            assert(counted_one(count_tokens, segs[i as int].text@, toks[i as int]));
            assert forall|k: int| 0 <= k < i + 1 implies #[trigger] counted_one(
                count_tokens,
                segs[k].text@,
                toks[k],
            ) by {
                if k < i {
                    assert(toks[k] == old_toks[k]);
                }
            }
        }
        i = i + 1;
    }
    if current.len() > 0 {
        chunks.push(SegmentChunk { segments: current, overlap: pending_overlap });
    }
    proof {
        assert(toks.len() == segs.len());
        let (st, cs, ct) = pack_state(toks, target, n as int);
        let starts = pack_starts(toks, target);
        lemma_pack_state_bounds(toks, target, n as int);
        assert forall|k: int| 0 <= k < chunks@.len() implies {
            &&& refs_to(
                (#[trigger] chunks@[k]).segments@,
                segs.subrange(starts[k], chunk_end(starts, segs.len() as int, k)),
            )
            &&& refs_to(chunks@[k].overlap@, segs.subrange(overlap_start(starts, nov, k), starts[k]))
        } by {
            if n > 0 {
                assert(starts == st.push(cs));
            }
        }
        assert(counted(count_tokens, segs, toks));
    }
    chunks
}

/// Sum of `toks[a..b]`.
pub open spec fn sum_toks(toks: Seq<nat>, a: int, b: int) -> nat
    decreases b - a,
{
    if b <= a {
        0
    } else {
        sum_toks(toks, a, b - 1) + toks[b - 1]
    }
}

proof fn lemma_pack_state_tokens(toks: Seq<nat>, target: nat, i: int)
    requires
        0 <= i <= toks.len(),
    ensures
        ({
            let (st, cs, ct) = pack_state(toks, target, i);
            let sp = st.push(cs);
            &&& ct == sum_toks(toks, cs, i)
            &&& (i - cs >= 2 ==> ct <= target)
            &&& forall|k: int|
                0 <= k < st.len() ==> sp[k + 1] - #[trigger] st[k] >= 2 ==> sum_toks(
                    toks,
                    st[k],
                    sp[k + 1],
                ) <= target
        }),
    decreases i,
{
    if i > 0 {
        lemma_pack_state_tokens(toks, target, i - 1);
        lemma_pack_state_bounds(toks, target, i - 1);
        let (st0, cs0, ct0) = pack_state(toks, target, i - 1);
        let (st, cs, ct) = pack_state(toks, target, i);
        if cs0 < i - 1 && ct0 + toks[i - 1] > target {
            assert(pack_state(toks, target, i) == (st0.push(cs0), i - 1, toks[i - 1]));
            assert(sum_toks(toks, i - 1, i) == sum_toks(toks, i - 1, i - 1) + toks[i - 1]);
            let sp = st.push(cs);
            assert forall|k: int|
                0 <= k < st.len() && sp[k + 1] - #[trigger] st[k] >= 2 implies sum_toks(
                    toks,
                    st[k],
                    sp[k + 1],
                ) <= target by {
                if k < st0.len() {
                    assert(st[k] == st0[k]);
                    assert(sp[k + 1] == st0.push(cs0)[k + 1]);
                }
            }
        } else {
            assert(pack_state(toks, target, i) == (st0, cs0, ct0 + toks[i - 1]));
        }
    }
}

/// Packing never splits or reorders segments: every chunk holds at least
/// one segment, the chunks follow one another without gap or overlap from
/// the first segment to the last, and a chunk holding more than one
/// segment stays within the token target.
pub proof fn pack_partitions_segments(toks: Seq<nat>, target: nat)
    ensures
        ({
            let st = pack_starts(toks, target);
            let n = toks.len() as int;
            &&& (n == 0 <==> st.len() == 0)
            &&& (st.len() > 0 ==> st[0] == 0)
            &&& forall|k: int|
                0 <= k < st.len() ==> #[trigger] st[k] < chunk_end(st, n, k) <= n
            &&& forall|k: int|
                0 <= k < st.len() && chunk_end(st, n, k) - st[k] >= 2 ==> #[trigger] sum_toks(
                    toks,
                    st[k],
                    chunk_end(st, n, k),
                ) <= target
        }),
{
    let n = toks.len() as int;
    lemma_pack_state_bounds(toks, target, n);
    lemma_pack_state_tokens(toks, target, n);
    let (st0, cs, ct) = pack_state(toks, target, n);
    let st = pack_starts(toks, target);
    if n > 0 {
        lemma_pack_state_first(toks, target, n);
        assert forall|k: int| 0 <= k < st.len() implies #[trigger] st[k] < chunk_end(st, n, k)
            <= n by {
            if k + 1 < st.len() {
                assert(st[k] == st0[k]);
                if k + 1 < st0.len() {
                    assert(st0[k] < st0[k + 1]);
                }
            }
        }
        assert forall|k: int|
            0 <= k < st.len() && chunk_end(st, n, k) - st[k] >= 2 implies #[trigger] sum_toks(
                toks,
                st[k],
                chunk_end(st, n, k),
            ) <= target by {
            if k + 1 < st.len() {
                assert(st[k] == st0[k]);
                assert(chunk_end(st, n, k) == st0.push(cs)[k + 1]);
            }
        }
    }
}

/// The first chunk starts at segment 0.
proof fn lemma_pack_state_first(toks: Seq<nat>, target: nat, i: int)
    requires
        0 < i <= toks.len(),
    ensures
        ({
            let (st, cs, ct) = pack_state(toks, target, i);
            (st.len() > 0 ==> st[0] == 0) && (st.len() == 0 ==> cs == 0)
        }),
    decreases i,
{
    let (st0, cs0, ct0) = pack_state(toks, target, i - 1);
    if i > 1 {
        lemma_pack_state_first(toks, target, i - 1);
        lemma_pack_state_bounds(toks, target, i - 1);
    } else {
        assert(pack_state(toks, target, 0) == (Seq::<int>::empty(), 0int, 0nat));
    }
    if cs0 < i - 1 && ct0 + toks[i - 1] > target {
        assert(pack_state(toks, target, i) == (st0.push(cs0), i - 1, toks[i - 1]));
    } else {
        assert(pack_state(toks, target, i) == (st0, cs0, ct0 + toks[i - 1]));
    }
}

/// The state after `i` segments depends only on the first `i` counts.
proof fn lemma_pack_state_prefix(toks: Seq<nat>, pre: Seq<nat>, target: nat, i: int)
    requires
        0 <= i <= pre.len(),
        pre.len() <= toks.len(),
        forall|k: int| 0 <= k < pre.len() ==> toks[k] == pre[k],
    ensures
        pack_state(toks, target, i) == pack_state(pre, target, i),
    decreases i,
{
    if i > 0 {
        lemma_pack_state_prefix(toks, pre, target, i - 1);
    }
}

} // verus!
