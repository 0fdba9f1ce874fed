//! Markdown rendering for `transcript.md` and the LLM prompts that
//! produce `notes.md` and the session title.
//!
//! Times are milliseconds since the Unix epoch (UTC).

use vstd::prelude::*;

use crate::context::MeetingContext;
use crate::error::ConfigError;
use crate::notes_map_reduce::{render_processing_gaps, processing_gaps_text, MapGroup, ProcessingGap};
use crate::notes_segments::TranscriptSegment;
use crate::text::{
    matches_at, chars_of, dec, dec2, join, line_bounds, lines, push_dec, push_dec2, push_joined, push_range,
    push_str, string_from_chars, trim, trim_bounds, trim_end, views,
};
use crate::transcript_roundtrip::no_newline;
use crate::types::{AttributedChunk, SpeakerLabel};

verus! {

// ---------------------------------------------------------------------
// Time rendering through chrono
// ---------------------------------------------------------------------

/// Earliest instant chrono's `DateTime<Utc>` represents, in epoch
/// milliseconds (`DateTime::<Utc>::MIN_UTC`).
pub const MIN_UTC_MILLIS: i64 = -8_334_601_228_800_000;

/// Latest instant chrono's `DateTime<Utc>` represents, in epoch
/// milliseconds (`DateTime::<Utc>::MAX_UTC`).
pub const MAX_UTC_MILLIS: i64 = 8_210_266_876_799_999;

/// The text chrono renders for the UTC instant `millis` with the
/// strftime pattern `fmt`.
pub uninterp spec fn chrono_utc_format(millis: int, fmt: Seq<char>) -> Seq<char>;

/// Renders the UTC instant `millis` with chrono:
/// `DateTime::<Utc>::from_timestamp_millis(millis)` then
/// `DateTime::format(fmt)`. Claims that the text is chrono's rendering of
/// these arguments, and that it holds no line break: the patterns it is
/// used with only print the year (with its sign when it needs one),
/// month, day, hour and minute as digits, joined by `-`, ` ` and `:`.
#[verifier::external_body]
pub(crate) fn format_utc_millis(millis: i64, fmt: &str) -> (s: String)
    requires
        MIN_UTC_MILLIS <= millis <= MAX_UTC_MILLIS,
        fmt@ == "%Y-%m-%d %H:%M"@ || fmt@ == "%H:%M"@ || fmt@ == "%Y-%m-%d-%H%M"@,
    ensures
        s@ == chrono_utc_format(millis as int, fmt@),
        no_newline(s@),
{
    chrono::DateTime::from_timestamp_millis(millis).map(|dt| dt.format(fmt).to_string()).unwrap_or_default()
}

/// `started_at` rendered as `YYYY-MM-DD HH:MM`.
pub open spec fn date_minute(millis: int) -> Seq<char> {
    chrono_utc_format(millis, "%Y-%m-%d %H:%M"@)
}

/// `ended_at` rendered as `HH:MM`.
pub open spec fn hour_minute(millis: int) -> Seq<char> {
    chrono_utc_format(millis, "%H:%M"@)
}

// ---------------------------------------------------------------------
// transcript.md
// ---------------------------------------------------------------------

/// The static header of `transcript.md`, given the rendered start (and
/// end) time.
pub open spec fn header_text(title: Option<Seq<char>>, started: Seq<char>, ended: Option<
    Seq<char>,
>) -> Seq<char> {
    let title_line = match title {
        Some(t) => t,
        None => "Untitled session"@,
    };
    let time_line = match ended {
        Some(e) => "*"@ + started + " — "@ + e + "*\n"@,
        None => "*"@ + started + "*\n"@,
    };
    "# "@ + title_line + "\n"@ + time_line + "\n"@
}

/// Renders the static header of a `transcript.md` file: the title (or
/// `Untitled session`), the start time and, when known, the end time,
/// then a blank line.
pub fn render_transcript_header(
    title: Option<&str>,
    started_at_ms: i64,
    ended_at_ms: Option<i64>,
) -> (out: String)
    requires
        MIN_UTC_MILLIS <= started_at_ms <= MAX_UTC_MILLIS,
        ended_at_ms matches Some(e) ==> MIN_UTC_MILLIS <= e <= MAX_UTC_MILLIS,
    ensures
        out@ == header_text(
            match title {
                Some(t) => Some(t@),
                None => None,
            },
            date_minute(started_at_ms as int),
            match ended_at_ms {
                Some(e) => Some(hour_minute(e as int)),
                None => None,
            },
        ),
        no_newline(date_minute(started_at_ms as int)),
        ended_at_ms matches Some(e) ==> no_newline(hour_minute(e as int)),
{
    let mut out: Vec<char> = Vec::new();
    push_str(&mut out, "# ");
    match title {
        Some(t) => push_str(&mut out, t),
        None => push_str(&mut out, "Untitled session"),
    }
    push_str(&mut out, "\n");
    let started = format_utc_millis(started_at_ms, "%Y-%m-%d %H:%M");
    match ended_at_ms {
        Some(e) => {
            let end = format_utc_millis(e, "%H:%M");
            push_str(&mut out, "*");
            push_str(&mut out, started.as_str());
            push_str(&mut out, " — ");
            push_str(&mut out, end.as_str());
            push_str(&mut out, "*\n");
        },
        None => {
            push_str(&mut out, "*");
            push_str(&mut out, started.as_str());
            push_str(&mut out, "*\n");
        },
    }
    push_str(&mut out, "\n");
    string_from_chars(out.as_slice())
}

/// The label a transcript line shows for a speaker: a diarized speaker
/// appears under its display name.
pub open spec fn label_text(label: SpeakerLabel) -> Seq<char> {
    match label {
        SpeakerLabel::Me => "Me"@,
        SpeakerLabel::Them => "Them"@,
        SpeakerLabel::Named(name) => name@,
        SpeakerLabel::Unknown => "Unknown"@,
    }
}

/// The label a transcript line shows for `label`.
pub fn label_for(label: &SpeakerLabel) -> (s: &str)
    ensures
        s@ == label_text(*label),
{
    match label {
        SpeakerLabel::Me => "Me",
        SpeakerLabel::Them => "Them",
        SpeakerLabel::Named(name) => name.as_str(),
        SpeakerLabel::Unknown => "Unknown",
    }
}

/// `HH:MM:SS` of the whole seconds in `start_ms`; hours may exceed two
/// digits.
pub open spec fn hms_text(start_ms: nat) -> Seq<char> {
    let total = start_ms / 1000;
    dec2(total / 3600) + ":"@ + dec2((total % 3600) / 60) + ":"@ + dec2(total % 60)
}

fn push_hms(out: &mut Vec<char>, start_ms: u64)
    ensures
        final(out)@ == old(out)@ + hms_text(start_ms as nat),
{
    let total = start_ms / 1000;
    push_dec2(out, total / 3600);
    push_str(out, ":");
    push_dec2(out, (total % 3600) / 60);
    push_str(out, ":");
    push_dec2(out, total % 60);
}

/// Renders `start_ms` as `HH:MM:SS`.
pub fn format_hms_ms(start_ms: u64) -> (s: String)
    ensures
        s@ == hms_text(start_ms as nat),
{
    let mut out: Vec<char> = Vec::new();
    push_hms(&mut out, start_ms);
    string_from_chars(out.as_slice())
}

/// One rendered transcript line.
pub open spec fn transcript_line_text(label: SpeakerLabel, start_ms: nat, text: Seq<char>) -> Seq<
    char,
> {
    "**"@ + label_text(label) + "** ["@ + hms_text(start_ms) + "]: "@ + trim(text) + "\n"@
}

/// Formats one attributed chunk as `**speaker** [HH:MM:SS]: text\n`, with
/// the text trimmed.
pub fn render_transcript_line(chunk: &AttributedChunk) -> (s: String)
    ensures
        s@ == transcript_line_text(chunk.speaker, chunk.chunk.start_ms as nat, chunk.chunk.text@),
{
    let mut out: Vec<char> = Vec::new();
    push_str(&mut out, "**");
    push_str(&mut out, label_for(&chunk.speaker));
    push_str(&mut out, "** [");
    push_hms(&mut out, chunk.chunk.start_ms);
    push_str(&mut out, "]: ");
    let cs = chars_of(chunk.chunk.text.as_str());
    let (a, b) = trim_bounds(&cs, 0, cs.len());
    assert(cs@.subrange(0, cs@.len() as int) == cs@);
    push_range(&mut out, &cs, a, b);
    push_str(&mut out, "\n");
    string_from_chars(out.as_slice())
}

// ---------------------------------------------------------------------
// Templates
// ---------------------------------------------------------------------

/// The only shipped named notes structure.
pub const DEFAULT_TEMPLATE: &'static str = "default";

/// The text `{:?}` renders for a string: quoted, with escapes.
pub uninterp spec fn str_debug(s: Seq<char>) -> Seq<char>;

/// `format!("{s:?}")`: the `Debug` rendering of a string slice (std).
#[verifier::external_body]
pub(crate) fn debug_quoted(s: &str) -> (r: String)
    ensures
        r@ == str_debug(s@),
{
    format!("{s:?}")
}

/// Accepts the default template name and rejects every other one before
/// capture starts.
pub fn validate_template(name: &str) -> (r: Result<(), ConfigError>)
    ensures
        name@ == DEFAULT_TEMPLATE@ ==> r is Ok,
        name@ != DEFAULT_TEMPLATE@ ==> (r matches Err(e) && e.is_invalid(
            "notes.template"@,
            "unknown template "@ + str_debug(name@) + "; expected \"default\""@,
        )),
{
    let cs = chars_of(name);
    let d = chars_of(DEFAULT_TEMPLATE);
    let mut same = cs.len() == d.len();
    let mut i: usize = 0;
    while same && i < cs.len()
        invariant
            i <= cs@.len(),
            same ==> cs@.len() == d@.len(),
            same ==> forall|j: int| 0 <= j < i ==> cs@[j] == d@[j],
            !same ==> cs@ != d@,
        decreases cs@.len() - i,
    {
        if cs[i] != d[i] {
            same = false;
        }
        i = i + 1;
    }
    if same {
        assert(cs@ =~= d@);
        Ok(())
    } else {
        let mut reason: Vec<char> = Vec::new();
        push_str(&mut reason, "unknown template ");
        let q = debug_quoted(name);
        push_str(&mut reason, q.as_str());
        push_str(&mut reason, "; expected \"default\"");
        Err(
            ConfigError::Invalid {
                key: String::from_str("notes.template"),
                reason: string_from_chars(reason.as_slice()),
            },
        )
    }
}

// ---------------------------------------------------------------------
// Prompts
// ---------------------------------------------------------------------

/// `"\n"` unless `t` already ends with a line feed.
pub open spec fn final_newline(t: Seq<char>) -> Seq<char> {
    if t.len() > 0 && t.last() == '\n' {
        Seq::empty()
    } else {
        seq!['\n']
    }
}

fn push_final_newline(out: &mut Vec<char>, t: &Vec<char>)
    ensures
        final(out)@ == old(out)@ + final_newline(t@),
{
    if t.len() > 0 && t[t.len() - 1] == '\n' {
        assert(old(out)@ + Seq::<char>::empty() == old(out)@);
    } else {
        out.push('\n');
    }
}

/// The instruction block at the top of the notes prompt.
pub open spec fn notes_instructions() -> Seq<char> {
    "You are summarizing a meeting transcript into structured notes.\nProduce markdown with these sections, in order:\n- TL;DR (2–3 sentences)\n- Action items (bulleted)\n- Decisions (bulleted)\n- Follow-ups (bulleted)\n\n"@
}

/// `prefix`, the value and a line feed when the value is set.
pub open spec fn opt_line(prefix: Seq<char>, v: Option<String>) -> Seq<char> {
    match v {
        Some(t) => prefix + t@ + "\n"@,
        None => Seq::empty(),
    }
}

/// `prefix`, the items joined with `", "` and a line feed when there are
/// items.
pub open spec fn list_line(prefix: Seq<char>, items: Seq<String>) -> Seq<char> {
    if items.len() > 0 {
        prefix + join(views(items), ", "@) + "\n"@
    } else {
        Seq::empty()
    }
}

fn push_opt_line(out: &mut Vec<char>, prefix: &str, v: &Option<String>)
    ensures
        final(out)@ == old(out)@ + opt_line(prefix@, *v),
{
    if let Some(t) = v {
        push_str(out, prefix);
        push_str(out, t.as_str());
        push_str(out, "\n");
        assert(out@ =~= old(out)@ + opt_line(prefix@, *v));
    } else {
        assert(out@ =~= old(out)@ + opt_line(prefix@, *v));
    }
}

fn push_list_line(out: &mut Vec<char>, prefix: &str, items: &Vec<String>)
    ensures
        final(out)@ == old(out)@ + list_line(prefix@, items@),
{
    if items.len() > 0 {
        push_str(out, prefix);
        push_joined(out, items, ", ");
        push_str(out, "\n");
        assert(out@ =~= old(out)@ + list_line(prefix@, items@));
    } else {
        assert(out@ =~= old(out)@ + list_line(prefix@, items@));
    }
}

/// The meeting-context lines of the notes prompt.
pub open spec fn context_lines(ctx: MeetingContext) -> Seq<char> {
    opt_line("Meeting title: "@, ctx.title) + list_line("Attendees: "@, ctx.attendees@) + opt_line(
        "Agenda: "@,
        ctx.agenda,
    ) + opt_line("Language: "@, ctx.language)
}

/// The full notes prompt.
pub open spec fn notes_prompt_text(transcript: Seq<char>, ctx: MeetingContext) -> Seq<char> {
    notes_instructions() + context_lines(ctx) + "\n--- TRANSCRIPT ---\n"@ + transcript
        + final_newline(transcript) + "--- END TRANSCRIPT ---\n"@
}

/// Renders the LLM prompt that produces `notes.md`: fixed instructions,
/// the meeting context that is set, and the transcript between markers.
pub fn render_notes_prompt(transcript: &str, ctx: &MeetingContext) -> (out: String)
    ensures
        out@ == notes_prompt_text(transcript@, *ctx),
{
    let mut out: Vec<char> = Vec::new();
    push_str(
        &mut out,
        "You are summarizing a meeting transcript into structured notes.\nProduce markdown with these sections, in order:\n- TL;DR (2–3 sentences)\n- Action items (bulleted)\n- Decisions (bulleted)\n- Follow-ups (bulleted)\n\n",
    );
    let ghost s0 = out@;
    push_opt_line(&mut out, "Meeting title: ", &ctx.title);
    push_list_line(&mut out, "Attendees: ", &ctx.attendees);
    push_opt_line(&mut out, "Agenda: ", &ctx.agenda);
    push_opt_line(&mut out, "Language: ", &ctx.language);
    assert(out@ =~= s0 + context_lines(*ctx));
    push_str(&mut out, "\n--- TRANSCRIPT ---\n");
    push_str(&mut out, transcript);
    let tcs = chars_of(transcript);
    push_final_newline(&mut out, &tcs);
    push_str(&mut out, "--- END TRANSCRIPT ---\n");
    string_from_chars(out.as_slice())
}

/// `a` occurs in `p` ahead of an occurrence of `b`.
pub open spec fn occurs_before(p: Seq<char>, a: Seq<char>, b: Seq<char>) -> bool {
    exists|i: int, j: int|
        #![trigger matches_at(p, a, i), matches_at(p, b, j)]
        matches_at(p, a, i) && i + a.len() <= j && matches_at(p, b, j)
}

proof fn lemma_occurs_before(x: Seq<char>, a: Seq<char>, y: Seq<char>, b: Seq<char>, z: Seq<char>)
    ensures
        occurs_before(x + a + y + b + z, a, b),
{
    let p = x + a + y + b + z;
    let i = x.len() as int;
    let j = (x.len() + a.len() + y.len()) as int;
    assert(p.subrange(i, i + a.len()) =~= a);
    assert(p.subrange(j, j + b.len()) =~= b);
    assert(matches_at(p, a, i) && matches_at(p, b, j));
}

/// The notes prompt tells the model every piece of meeting context that
/// is set: the title, the attendees, the agenda and the language each
/// stand on a line of their own ahead of the transcript.
pub proof fn notes_prompt_carries_the_context(transcript: Seq<char>, ctx: MeetingContext)
    ensures
        ctx.title matches Some(t) ==> occurs_before(
            notes_prompt_text(transcript, ctx),
            "Meeting title: "@ + t@ + "\n"@,
            "\n--- TRANSCRIPT ---\n"@,
        ),
        ctx.attendees@.len() > 0 ==> occurs_before(
            notes_prompt_text(transcript, ctx),
            "Attendees: "@ + join(views(ctx.attendees@), ", "@) + "\n"@,
            "\n--- TRANSCRIPT ---\n"@,
        ),
        ctx.agenda matches Some(a) ==> occurs_before(
            notes_prompt_text(transcript, ctx),
            "Agenda: "@ + a@ + "\n"@,
            "\n--- TRANSCRIPT ---\n"@,
        ),
        ctx.language matches Some(l) ==> occurs_before(
            notes_prompt_text(transcript, ctx),
            "Language: "@ + l@ + "\n"@,
            "\n--- TRANSCRIPT ---\n"@,
        ),
{
    let ins = notes_instructions();
    let t = opt_line("Meeting title: "@, ctx.title);
    let at = list_line("Attendees: "@, ctx.attendees@);
    let ag = opt_line("Agenda: "@, ctx.agenda);
    let la = opt_line("Language: "@, ctx.language);
    let mk = "\n--- TRANSCRIPT ---\n"@;
    let rest = transcript + final_newline(transcript) + "--- END TRANSCRIPT ---\n"@;
    let p = notes_prompt_text(transcript, ctx);
    assert(p == ins + (t + at + ag + la) + mk + rest);
    if ctx.title is Some {
        assert(p =~= ins + t + (at + ag + la) + mk + rest);
        lemma_occurs_before(ins, t, at + ag + la, mk, rest);
    }
    if ctx.attendees@.len() > 0 {
        assert(p =~= (ins + t) + at + (ag + la) + mk + rest);
        lemma_occurs_before(ins + t, at, ag + la, mk, rest);
    }
    if ctx.agenda is Some {
        assert(p =~= (ins + t + at) + ag + la + mk + rest);
        lemma_occurs_before(ins + t + at, ag, la, mk, rest);
    }
    if ctx.language is Some {
        assert(p =~= (ins + t + at + ag) + la + Seq::<char>::empty() + mk + rest);
        lemma_occurs_before(ins + t + at + ag, la, Seq::<char>::empty(), mk, rest);
    }
}

/// One rendered segment line of a map prompt.
pub open spec fn segment_line_text(s: TranscriptSegment) -> Seq<char> {
    "["@ + dec(s.ordinal as nat) + "] **"@ + s.speaker@ + "** ["@ + hms_text(s.start_ms as nat)
        + "]: "@ + s.text@ + "\n"@
}

/// The rendered lines of `ss`, in order.
pub open spec fn segments_text(ss: Seq<&TranscriptSegment>) -> Seq<char>
    decreases ss.len(),
{
    if ss.len() == 0 {
        Seq::empty()
    } else {
        segments_text(ss.drop_last()) + segment_line_text(*ss.last())
    }
}

fn render_segments(out: &mut Vec<char>, segments: &[&TranscriptSegment])
    ensures
        final(out)@ == old(out)@ + segments_text(segments@),
{
    let ghost start = out@;
    let mut i: usize = 0;
    assert(segments@.take(0) =~= Seq::<&TranscriptSegment>::empty());
    assert(start + Seq::<char>::empty() =~= start);
    while i < segments.len()
        invariant
            i <= segments@.len(),
            out@ == start + segments_text(segments@.take(i as int)),
        decreases segments@.len() - i,
    {
        let s = segments[i];
        let ghost before = out@;
        push_str(out, "[");
        push_dec(out, s.ordinal as u64);
        push_str(out, "] **");
        push_str(out, s.speaker.as_str());
        push_str(out, "** [");
        push_hms(out, s.start_ms);
        push_str(out, "]: ");
        push_str(out, s.text.as_str());
        push_str(out, "\n");
        proof {
            assert(out@ =~= before + segment_line_text(*s));
            assert(segments@.take(i + 1).drop_last() =~= segments@.take(i as int));
            assert(segments@.take(i + 1).last() == s);
            assert(start + segments_text(segments@.take(i as int)) + segment_line_text(*s)
                =~= start + (segments_text(segments@.take(i as int)) + segment_line_text(*s)));
        }
        i = i + 1;
    }
    assert(segments@.take(segments@.len() as int) =~= segments@);
}

/// The instruction block at the top of a map prompt.
pub open spec fn map_instructions() -> Seq<char> {
    "Extract factual bullets from the canonical transcript segments below.\nThe transcript is ground truth. Preserve speaker attribution.\nDo not infer, invent, or turn meeting context into facts.\nReturn bullets only.\n"@
}

/// The full map prompt: instructions, the overlap segments (when there
/// are any) marked as already covered, then the new segments.
pub open spec fn map_prompt_text(overlap: Seq<&TranscriptSegment>, segments: Seq<&TranscriptSegment>) -> Seq<char> {
    map_instructions() + (if overlap.len() > 0 {
        "\n--- CONTEXT OVERLAP (already covered) ---\n"@ + segments_text(overlap)
    } else {
        Seq::empty()
    }) + "\n--- TRANSCRIPT SEGMENTS (new coverage) ---\n"@ + segments_text(segments)
        + "--- END TRANSCRIPT SEGMENTS ---\n"@
}

/// Renders a map request over complete transcript segments: the trailing
/// overlap from the previous chunk, marked as already covered, then the
/// segments this chunk introduces.
pub fn render_map_prompt(overlap: &[&TranscriptSegment], segments: &[&TranscriptSegment]) -> (out:
    String)
    ensures
        out@ == map_prompt_text(overlap@, segments@),
{
    let mut out: Vec<char> = Vec::new();
    push_str(
        &mut out,
        "Extract factual bullets from the canonical transcript segments below.\nThe transcript is ground truth. Preserve speaker attribution.\nDo not infer, invent, or turn meeting context into facts.\nReturn bullets only.\n",
    );
    let ghost s0 = out@;
    if overlap.len() > 0 {
        push_str(&mut out, "\n--- CONTEXT OVERLAP (already covered) ---\n");
        render_segments(&mut out, overlap);
    }
    assert(out@ =~= s0 + (if overlap@.len() > 0 {
        "\n--- CONTEXT OVERLAP (already covered) ---\n"@ + segments_text(overlap@)
    } else {
        Seq::empty()
    }));
    push_str(&mut out, "\n--- TRANSCRIPT SEGMENTS (new coverage) ---\n");
    render_segments(&mut out, segments);
    push_str(&mut out, "--- END TRANSCRIPT SEGMENTS ---\n");
    string_from_chars(out.as_slice())
}

/// The instruction block at the top of the reduce prompt.
pub open spec fn reduce_instructions() -> Seq<char> {
    "Write structured meeting notes from the factual map bullets below.\nThe map bullets are the only factual source. User context supplies intent only;\ndo not treat it as evidence. Preserve speaker attribution and do not invent facts.\nProduce markdown with these sections, in order:\n- TL;DR (2–3 sentences)\n- Action items (bulleted)\n- Decisions (bulleted)\n- Follow-ups (bulleted)\n"@
}

/// The requested-context lines of the reduce prompt.
pub open spec fn reduce_context_lines(ctx: MeetingContext) -> Seq<char> {
    opt_line("\nRequested meeting title: "@, ctx.title) + list_line(
        "Requested attendee context: "@,
        ctx.attendees@,
    ) + opt_line("Requested agenda context: "@, ctx.agenda)
}

/// One map group as the reduce prompt shows it.
pub open spec fn group_text(g: MapGroup) -> Seq<char> {
    if g.start_ordinal == 0 {
        trim(g.bullets@) + "\n"@
    } else {
        "[Transcript segments "@ + dec(g.start_ordinal as nat) + "–"@ + dec(
            g.end_ordinal as nat,
        ) + "]\n"@ + trim(g.bullets@) + "\n"@
    }
}

/// The map groups as the reduce prompt shows them.
pub open spec fn groups_text(gs: Seq<MapGroup>) -> Seq<char>
    decreases gs.len(),
{
    if gs.len() == 0 {
        Seq::empty()
    } else {
        groups_text(gs.drop_last()) + group_text(gs.last())
    }
}

/// One processing gap as the reduce prompt shows it.
pub open spec fn gap_line_text(g: ProcessingGap) -> Seq<char> {
    "[Processing gap: transcript segments "@ + dec(g.start_ordinal as nat) + "–"@ + dec(
        g.end_ordinal as nat,
    ) + " ("@ + g.reason@ + ")]\n"@
}

/// The processing gaps as the reduce prompt shows them.
pub open spec fn gap_lines_text(gs: Seq<ProcessingGap>) -> Seq<char>
    decreases gs.len(),
{
    if gs.len() == 0 {
        Seq::empty()
    } else {
        gap_lines_text(gs.drop_last()) + gap_line_text(gs.last())
    }
}

/// The full reduce prompt.
pub open spec fn reduce_prompt_text(
    groups: Seq<MapGroup>,
    gaps: Seq<ProcessingGap>,
    ctx: MeetingContext,
) -> Seq<char> {
    reduce_instructions() + reduce_context_lines(ctx) + "\n--- FACTUAL MAP BULLETS ---\n"@
        + groups_text(groups) + gap_lines_text(gaps) + "--- END FACTUAL MAP BULLETS ---\n"@
}

/// The reduce request passes on every piece of requested context that is
/// set: the title, the attendees and the agenda each stand on a line of
/// their own ahead of the factual map bullets.
pub proof fn reduce_prompt_carries_the_context(
    groups: Seq<MapGroup>,
    gaps: Seq<ProcessingGap>,
    ctx: MeetingContext,
)
    ensures
        ctx.title matches Some(t) ==> occurs_before(
            reduce_prompt_text(groups, gaps, ctx),
            "\nRequested meeting title: "@ + t@ + "\n"@,
            "\n--- FACTUAL MAP BULLETS ---\n"@,
        ),
        ctx.attendees@.len() > 0 ==> occurs_before(
            reduce_prompt_text(groups, gaps, ctx),
            "Requested attendee context: "@ + join(views(ctx.attendees@), ", "@) + "\n"@,
            "\n--- FACTUAL MAP BULLETS ---\n"@,
        ),
        ctx.agenda matches Some(a) ==> occurs_before(
            reduce_prompt_text(groups, gaps, ctx),
            "Requested agenda context: "@ + a@ + "\n"@,
            "\n--- FACTUAL MAP BULLETS ---\n"@,
        ),
{
    let ins = reduce_instructions();
    let t = opt_line("\nRequested meeting title: "@, ctx.title);
    let at = list_line("Requested attendee context: "@, ctx.attendees@);
    let ag = opt_line("Requested agenda context: "@, ctx.agenda);
    let mk = "\n--- FACTUAL MAP BULLETS ---\n"@;
    let rest = groups_text(groups) + gap_lines_text(gaps) + "--- END FACTUAL MAP BULLETS ---\n"@;
    let p = reduce_prompt_text(groups, gaps, ctx);
    assert(p =~= ins + t + (at + ag) + mk + rest);
    lemma_occurs_before(ins, t, at + ag, mk, rest);
    assert(p =~= (ins + t) + at + ag + mk + rest);
    lemma_occurs_before(ins + t, at, ag, mk, rest);
    assert(p =~= (ins + t + at) + ag + Seq::<char>::empty() + mk + rest);
    lemma_occurs_before(ins + t + at, ag, Seq::<char>::empty(), mk, rest);
}

fn push_trimmed(out: &mut Vec<char>, s: &String)
    ensures
        final(out)@ == old(out)@ + trim(s@),
{
    let cs = chars_of(s.as_str());
    let (a, b) = trim_bounds(&cs, 0, cs.len());
    assert(cs@.subrange(0, cs@.len() as int) == cs@);
    push_range(out, &cs, a, b);
}

/// Renders the final notes request from the factual map bullets and the
/// named gaps, with the user context marked as intent only.
pub fn render_reduce_prompt(
    groups: &[MapGroup],
    gaps: &[ProcessingGap],
    context: &MeetingContext,
) -> (out: String)
    ensures
        out@ == reduce_prompt_text(groups@, gaps@, *context),
{
    let mut out: Vec<char> = Vec::new();
    push_str(
        &mut out,
        "Write structured meeting notes from the factual map bullets below.\nThe map bullets are the only factual source. User context supplies intent only;\ndo not treat it as evidence. Preserve speaker attribution and do not invent facts.\nProduce markdown with these sections, in order:\n- TL;DR (2–3 sentences)\n- Action items (bulleted)\n- Decisions (bulleted)\n- Follow-ups (bulleted)\n",
    );
    let ghost s0 = out@;
    push_opt_line(&mut out, "\nRequested meeting title: ", &context.title);
    push_list_line(&mut out, "Requested attendee context: ", &context.attendees);
    push_opt_line(&mut out, "Requested agenda context: ", &context.agenda);
    assert(out@ =~= s0 + reduce_context_lines(*context));
    push_str(&mut out, "\n--- FACTUAL MAP BULLETS ---\n");
    let ghost before_groups = out@;
    let mut i: usize = 0;
    while i < groups.len()
        invariant
            i <= groups@.len(),
            out@ == before_groups + groups_text(groups@.take(i as int)),
        decreases groups@.len() - i,
    {
        let g = &groups[i];
        if g.start_ordinal == 0 {
            push_trimmed(&mut out, &g.bullets);
            push_str(&mut out, "\n");
        } else {
            push_str(&mut out, "[Transcript segments ");
            push_dec(&mut out, g.start_ordinal as u64);
            push_str(&mut out, "–");
            push_dec(&mut out, g.end_ordinal as u64);
            push_str(&mut out, "]\n");
            push_trimmed(&mut out, &g.bullets);
            push_str(&mut out, "\n");
        }
        proof {
            assert(groups@.take(i + 1).drop_last() == groups@.take(i as int));
            assert(groups@.take(i + 1).last() == *g);
            assert(out@ =~= before_groups + groups_text(groups@.take(i + 1)));
        }
        i = i + 1;
    }
    assert(groups@.take(groups@.len() as int) == groups@);
    let ghost before_gaps = out@;
    let mut k: usize = 0;
    while k < gaps.len()
        invariant
            k <= gaps@.len(),
            out@ == before_gaps + gap_lines_text(gaps@.take(k as int)),
        decreases gaps@.len() - k,
    {
        let g = &gaps[k];
        push_str(&mut out, "[Processing gap: transcript segments ");
        push_dec(&mut out, g.start_ordinal as u64);
        push_str(&mut out, "–");
        push_dec(&mut out, g.end_ordinal as u64);
        push_str(&mut out, " (");
        push_str(&mut out, g.reason);
        push_str(&mut out, ")]\n");
        proof {
            assert(gaps@.take(k + 1).drop_last() == gaps@.take(k as int));
            assert(gaps@.take(k + 1).last() == *g);
            assert(out@ =~= before_gaps + gap_lines_text(gaps@.take(k + 1)));
        }
        k = k + 1;
    }
    assert(gaps@.take(gaps@.len() as int) == gaps@);
    push_str(&mut out, "--- END FACTUAL MAP BULLETS ---\n");
    string_from_chars(out.as_slice())
}

/// The instruction block at the top of the title prompt.
pub open spec fn title_instructions() -> Seq<char> {
    "Create a short, factual title for this transcript.\nReturn only the title: no markdown, no quotes, no date.\nUse 3 to 8 words. Prefer the concrete topic over generic words.\n\n--- TRANSCRIPT ---\n"@
}

/// The full title prompt.
pub open spec fn title_prompt_text(transcript: Seq<char>) -> Seq<char> {
    title_instructions() + transcript + final_newline(transcript) + "--- END TRANSCRIPT ---\n"@
}

/// Renders the LLM prompt that produces the session title.
pub fn render_title_prompt(transcript: &str) -> (out: String)
    ensures
        out@ == title_prompt_text(transcript@),
{
    let mut out: Vec<char> = Vec::new();
    push_str(
        &mut out,
        "Create a short, factual title for this transcript.\nReturn only the title: no markdown, no quotes, no date.\nUse 3 to 8 words. Prefer the concrete topic over generic words.\n\n--- TRANSCRIPT ---\n",
    );
    push_str(&mut out, transcript);
    let tcs = chars_of(transcript);
    push_final_newline(&mut out, &tcs);
    push_str(&mut out, "--- END TRANSCRIPT ---\n");
    string_from_chars(out.as_slice())
}

// ---------------------------------------------------------------------
// Generated titles
// ---------------------------------------------------------------------

/// Characters stripped from both ends of a generated title.
pub open spec fn is_title_junk(c: char) -> bool {
    c == '"' || c == '\'' || c == '`' || c == '#' || c == '*' || c == '-' || c == ':' || c == ' '
}

fn title_junk(c: char) -> (b: bool)
    ensures
        b == is_title_junk(c),
{
    c == '"' || c == '\'' || c == '`' || c == '#' || c == '*' || c == '-' || c == ':' || c == ' '
}

/// `s` with title junk removed from both ends.
pub open spec fn trim_junk(s: Seq<char>) -> Seq<char>
    decreases s.len(),
{
    if s.len() > 0 && is_title_junk(s[0]) {
        trim_junk(s.drop_first())
    } else if s.len() > 0 && is_title_junk(s.last()) {
        trim_junk(s.drop_last())
    } else {
        s
    }
}

/// `s` with leading whitespace dropped, every inner run of whitespace
/// replaced by one space, and trailing whitespace dropped
/// (`split_whitespace` joined with `" "`). `gap` records a pending run
/// after at least one word.
pub open spec fn collapse_ws(s: Seq<char>, gap: bool, started: bool) -> Seq<char>
    decreases s.len(),
{
    if s.len() == 0 {
        Seq::empty()
    } else if crate::text::is_ws(s[0]) {
        collapse_ws(s.drop_first(), started, started)
    } else {
        (if gap {
            seq![' ']
        } else {
            Seq::empty()
        }) + seq![s[0]] + collapse_ws(s.drop_first(), false, true)
    }
}

/// Whether the character is alphanumeric in Unicode's sense.
pub uninterp spec fn is_alnum(c: char) -> bool;

/// `char::is_alphanumeric` (std).
#[verifier::external_body]
fn is_alphanumeric(c: char) -> (b: bool)
    ensures
        b == is_alnum(c),
{
    c.is_alphanumeric()
}

/// The index of the first line that is not blank, if any.
pub open spec fn first_nonblank(ls: Seq<Seq<char>>, i: int) -> Option<int>
    decreases ls.len() - i,
{
    if i < 0 || i >= ls.len() {
        None
    } else if trim(ls[i]).len() > 0 {
        Some(i)
    } else {
        first_nonblank(ls, i + 1)
    }
}

/// The first 80 characters of `s`.
pub open spec fn clip80(s: Seq<char>) -> Seq<char> {
    if s.len() > 80 {
        s.take(80)
    } else {
        s
    }
}

/// Whether `s` holds an alphanumeric character.
pub open spec fn has_alnum(s: Seq<char>) -> bool {
    exists|j: int| 0 <= j < s.len() && is_alnum(#[trigger] s[j])
}

/// What `clean_generated_title` makes of `raw`: the first nonblank line,
/// trimmed, stripped of quote/markdown characters, whitespace collapsed,
/// clipped to 80 characters and stripped again; `None` unless it holds an
/// alphanumeric character.
pub open spec fn cleaned_title(raw: Seq<char>) -> Option<Seq<char>> {
    let ls = lines(raw);
    match first_nonblank(ls, 0) {
        None => None,
        Some(i) => {
            let first = trim_junk(trim(ls[i]));
            let collapsed = collapse_ws(first, false, false);
            let title = trim_junk(clip80(collapsed));
            if has_alnum(title) {
                Some(title)
            } else {
                None
            }
        },
    }
}

/// Bounds of `cs[lo..hi]` with title junk removed from both ends.
fn trim_junk_bounds(cs: &Vec<char>, lo: usize, hi: usize) -> (r: (usize, usize))
    requires
        lo <= hi <= cs.len(),
    ensures
        lo <= r.0 <= r.1 <= hi,
        cs@.subrange(r.0 as int, r.1 as int) == trim_junk(cs@.subrange(lo as int, hi as int)),
{
    let mut a = lo;
    let mut b = hi;
    loop
        invariant
            lo <= a <= b <= hi <= cs.len(),
            trim_junk(cs@.subrange(lo as int, hi as int)) == trim_junk(
                cs@.subrange(a as int, b as int),
            ),
        decreases b - a,
    {
        let ghost s = cs@.subrange(a as int, b as int);
        if a < b && title_junk(cs[a]) {
            assert(s.drop_first() == cs@.subrange(a + 1, b as int));
            a = a + 1;
        } else if a < b && title_junk(cs[b - 1]) {
            assert(s.drop_last() == cs@.subrange(a as int, b - 1));
            a = a;
            b = b - 1;
        } else {
            return (a, b);
        }
    }
}

/// Appends `collapse_ws(cs[lo..hi], false, false)` to a fresh vector.
fn collapse_whitespace(cs: &Vec<char>, lo: usize, hi: usize) -> (out: Vec<char>)
    requires
        lo <= hi <= cs.len(),
    ensures
        out@ == collapse_ws(cs@.subrange(lo as int, hi as int), false, false),
{
    let mut out: Vec<char> = Vec::new();
    let mut gap = false;
    let mut started = false;
    let mut i = lo;
    while i < hi
        invariant
            lo <= i <= hi <= cs.len(),
            gap ==> started,
            out@ + collapse_ws(cs@.subrange(i as int, hi as int), gap, started) == collapse_ws(
                cs@.subrange(lo as int, hi as int),
                false,
                false,
            ),
        decreases hi - i,
    {
        let c = cs[i];
        let ghost rest = cs@.subrange(i as int, hi as int);
        assert(rest.drop_first() == cs@.subrange(i + 1, hi as int));
        assert(rest[0] == c);
        if crate::text::is_whitespace(c) {
            gap = started;
        } else {
            let ghost before = out@;
            if gap {
                out.push(' ');
            }
            out.push(c);
            proof {
                let pre = if gap {
                    seq![' ']
                } else {
                    Seq::empty()
                };
                assert(out@ == before + pre + seq![c]);
                assert(collapse_ws(rest, gap, started) == pre + seq![c] + collapse_ws(
                    rest.drop_first(),
                    false,
                    true,
                ));
                assert(out@ + collapse_ws(rest.drop_first(), false, true) =~= before
                    + collapse_ws(rest, gap, started));
            }
            gap = false;
            started = true;
        }
        i = i + 1;
    }
    assert(cs@.subrange(hi as int, hi as int).len() == 0);
    assert(out@ + Seq::<char>::empty() == out@);
    out
}

/// Normalizes a model-produced title before it enters metadata or paths;
/// `None` when nothing alphanumeric is left.
pub fn clean_generated_title(raw: &str) -> (r: Option<String>)
    ensures
        match cleaned_title(raw@) {
            Some(t) => r matches Some(s) && s@ == t,
            None => r is None,
        },
{
    let cs = chars_of(raw);
    let bounds = line_bounds(&cs);
    let ghost ls = lines(cs@);
    let mut i: usize = 0;
    let mut found: Option<(usize, usize)> = None;
    while found.is_none() && i < bounds.len()
        invariant
            i <= bounds@.len(),
            bounds@.len() == ls.len(),
            ls == lines(cs@),
            forall|k: int|
                0 <= k < bounds@.len() ==> {
                    &&& (#[trigger] bounds@[k]).0 <= bounds@[k].1 <= cs@.len()
                    &&& cs@.subrange(bounds@[k].0 as int, bounds@[k].1 as int) == ls[k]
                },
            found is None ==> first_nonblank(ls, 0) == first_nonblank(ls, i as int),
            found matches Some(p) ==> (first_nonblank(ls, 0) matches Some(j) && p.0 <= p.1
                <= cs@.len() && cs@.subrange(p.0 as int, p.1 as int) == trim(ls[j])),
        decreases bounds@.len() - i + (if found is None {
            1int
        } else {
            0int
        }),
    {
        let (s, e) = bounds[i];
        assert(cs@.subrange(s as int, e as int) == ls[i as int]);
        let (a, b) = trim_bounds(&cs, s, e);
        if a < b {
            assert(first_nonblank(ls, i as int) == Some(i as int));
            found = Some((a, b));
        } else {
            assert(trim(ls[i as int]).len() == 0);
            i = i + 1;
        }
    }
    let (a, b) = match found {
        None => {
            return None;
        },
        Some(p) => p,
    };
    let ghost jj = first_nonblank(ls, 0)->0;
    let ghost first = trim_junk(trim(ls[jj]));
    let (a2, b2) = trim_junk_bounds(&cs, a, b);
    assert(cs@.subrange(a2 as int, b2 as int) == first);
    let collapsed = collapse_whitespace(&cs, a2, b2);
    assert(collapsed@ == collapse_ws(first, false, false));
    let mut clipped: Vec<char> = Vec::new();
    let take = if collapsed.len() > 80 {
        80
    } else {
        collapsed.len()
    };
    push_range(&mut clipped, &collapsed, 0, take);
    proof {
        if collapsed@.len() > 80 {
            assert(clipped@ =~= collapsed@.take(80));
        } else {
            assert(clipped@ =~= collapsed@);
        }
    }
    let (c0, c1) = trim_junk_bounds(&clipped, 0, clipped.len());
    assert(clipped@.subrange(0, clipped@.len() as int) == clipped@);
    let ghost title = clipped@.subrange(c0 as int, c1 as int);
    let mut j = c0;
    let mut any = false;
    while j < c1
        invariant
            c0 <= j <= c1 <= clipped@.len(),
            title == clipped@.subrange(c0 as int, c1 as int),
            any ==> exists|k: int| 0 <= k < title.len() && is_alnum(#[trigger] title[k]),
            !any ==> forall|k: int| 0 <= k < j - c0 ==> !is_alnum(#[trigger] title[k]),
        decreases c1 - j,
    {
        if is_alphanumeric(clipped[j]) {
            assert(title[j - c0] == clipped@[j as int]);
            any = true;
        }
        j = j + 1;
    }
    proof {
        assert(clipped@ == clip80(collapsed@));
        assert(title == trim_junk(clip80(collapsed@)));
        assert(raw@ == cs@);
        assert(first_nonblank(lines(raw@), 0) == Some(jj));
    }
    if any {
        let mut out: Vec<char> = Vec::new();
        push_range(&mut out, &clipped, c0, c1);
        assert(cleaned_title(raw@) == Some(title));
        Some(string_from_chars(out.as_slice()))
    } else {
        assert(forall|k: int| 0 <= k < title.len() ==> !is_alnum(#[trigger] title[k]));
        assert(cleaned_title(raw@) is None);
        None
    }
}

// ---------------------------------------------------------------------
// notes.md
// ---------------------------------------------------------------------

/// The `notes.md` body around an LLM response.
pub open spec fn notes_body_text(title: Option<Seq<char>>, started: Seq<char>, llm: Seq<char>) -> Seq<
    char,
> {
    let title_line = match title {
        Some(t) => t,
        None => "Untitled session"@,
    };
    "# "@ + title_line + " — notes\n"@ + "*Generated "@ + started + "*\n\n"@ + trim_end(llm)
        + "\n"@
}

/// Wraps the LLM's response into a final `notes.md` body: a title line,
/// the generation time, and the response with trailing whitespace removed.
pub fn render_notes_body(title: Option<&str>, started_at_ms: i64, llm_output: &str) -> (out: String)
    requires
        MIN_UTC_MILLIS <= started_at_ms <= MAX_UTC_MILLIS,
    ensures
        out@ == notes_body_text(
            match title {
                Some(t) => Some(t@),
                None => None,
            },
            date_minute(started_at_ms as int),
            llm_output@,
        ),
{
    let mut out: Vec<char> = Vec::new();
    push_str(&mut out, "# ");
    match title {
        Some(t) => push_str(&mut out, t),
        None => push_str(&mut out, "Untitled session"),
    }
    push_str(&mut out, " — notes\n");
    push_str(&mut out, "*Generated ");
    let started = format_utc_millis(started_at_ms, "%Y-%m-%d %H:%M");
    push_str(&mut out, started.as_str());
    push_str(&mut out, "*\n\n");
    let cs = chars_of(llm_output);
    let mut e = cs.len();
    while e > 0 && crate::text::is_whitespace(cs[e - 1])
        invariant
            e <= cs@.len(),
            crate::text::skip_ws_back(cs@, 0, cs@.len() as int) == crate::text::skip_ws_back(
                cs@,
                0,
                e as int,
            ),
        decreases e,
    {
        e = e - 1;
    }
    proof {
        crate::text::lemma_skip_ws_back(cs@, 0, cs@.len() as int);
        assert(cs@.subrange(0, cs@.len() as int) == cs@);
    }
    push_range(&mut out, &cs, 0, e);
    push_str(&mut out, "\n");
    string_from_chars(out.as_slice())
}

/// The notes body followed, when there are gaps, by a blank line and the
/// rendered processing gaps.
pub open spec fn notes_body_with_gaps_text(
    title: Option<Seq<char>>,
    started: Seq<char>,
    llm: Seq<char>,
    gaps: Seq<ProcessingGap>,
) -> Seq<char> {
    let body = notes_body_text(title, started, llm);
    let rendered = processing_gaps_text(gaps);
    if rendered.len() == 0 {
        body
    } else {
        body + "\n"@ + rendered
    }
}

/// Renders the notes body and appends the processing gaps outside the
/// provider response.
pub fn render_notes_body_with_gaps(
    title: Option<&str>,
    started_at_ms: i64,
    llm_output: &str,
    gaps: &[ProcessingGap],
) -> (out: String)
    requires
        MIN_UTC_MILLIS <= started_at_ms <= MAX_UTC_MILLIS,
    ensures
        out@ == notes_body_with_gaps_text(
            match title {
                Some(t) => Some(t@),
                None => None,
            },
            date_minute(started_at_ms as int),
            llm_output@,
            gaps@,
        ),
{
    let body = render_notes_body(title, started_at_ms, llm_output);
    let rendered = render_processing_gaps(gaps);
    let rcs = chars_of(rendered.as_str());
    if rcs.len() == 0 {
        body
    } else {
        let mut out = chars_of(body.as_str());
        push_str(&mut out, "\n");
        push_str(&mut out, rendered.as_str());
        string_from_chars(out.as_slice())
    }
}

} // verus!
