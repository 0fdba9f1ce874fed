//! The record a session keeps while it runs: the header and the lines it
//! has appended to `transcript.md`, the chunks behind those lines, and
//! how capture ended. The orchestrator appends what this record hands
//! it, so the file on disk is always [`SessionLog::written`].

use vstd::prelude::*;

use crate::error::{CaptureError, CoreError};
use crate::hooks::LifecycleEvent;
use crate::notes::{
    date_minute, header_text, render_transcript_header, render_transcript_line,
    transcript_line_text, MAX_UTC_MILLIS, MIN_UTC_MILLIS,
};
use crate::notes_segments::{transcript_parse, ParseOutcome};
use crate::session::{retitled, speaker_for, SessionOutputs, StoreTarget};
use crate::text::{find, matches_at, starts_with};
use crate::transcript_roundtrip::{
    lemma_find_first, lemma_transcript_body_push, no_newline, plain_label, plain_speakers, read_back,
    rendered_transcript_reads_back, single_line_texts, transcript_body,
};
use crate::types::{AttributedChunk, FrameSource, SessionId, SpeakerLabel, TranscriptChunk};

verus! {

/// The speaker a chunk captured from `source` is attributed to.
pub open spec fn speaker_of(source: FrameSource) -> SpeakerLabel {
    if source is System {
        SpeakerLabel::Them
    } else {
        SpeakerLabel::Me
    }
}

/// Whether a chunk belongs to the mic side or the system side: the user
/// speaks on the mic, the remote side on system audio.
pub open spec fn on_side(c: AttributedChunk, side: StoreTarget) -> bool {
    match side {
        StoreTarget::Mic => c.speaker == SpeakerLabel::Me,
        StoreTarget::System => c.speaker == SpeakerLabel::Them,
    }
}

/// The transcript chunks of one side, in the order they were heard.
pub open spec fn side_chunks(s: Seq<AttributedChunk>, side: StoreTarget) -> Seq<TranscriptChunk>
    decreases s.len(),
{
    if s.len() == 0 {
        Seq::empty()
    } else {
        let rest = side_chunks(s.drop_last(), side);
        if on_side(s.last(), side) {
            rest.push(s.last().chunk)
        } else {
            rest
        }
    }
}

/// `v` holds copies of `w`, one for one.
pub open spec fn copies_of(v: Seq<TranscriptChunk>, w: Seq<TranscriptChunk>) -> bool {
    &&& v.len() == w.len()
    &&& forall|k: int| 0 <= k < v.len() ==> #[trigger] v[k].same_as(w[k])
}

/// What a running session has recorded.
pub struct SessionLog {
    id: SessionId,
    started_ms: i64,
    title: Option<String>,
    spoken: Vec<AttributedChunk>,
    capture_error: Option<CaptureError>,
}

impl SessionLog {
    pub closed spec fn id_view(&self) -> SessionId {
        self.id
    }

    /// When the session started, in epoch milliseconds.
    pub closed spec fn started_view(&self) -> i64 {
        self.started_ms
    }

    /// The title the session started with, if any.
    pub closed spec fn title_view(&self) -> Option<Seq<char>> {
        match self.title {
            Some(t) => Some(t@),
            None => None,
        }
    }

    /// Every transcribed chunk with its speaker, in the order appended.
    pub closed spec fn spoken(&self) -> Seq<AttributedChunk> {
        self.spoken@
    }

    /// The error capture ended with, if it did not end normally.
    pub closed spec fn capture_error_view(&self) -> Option<CaptureError> {
        self.capture_error
    }

    /// The start lies where times can be rendered, its rendering fits on
    /// one line, and every speaker is the user or the remote side.
    pub closed spec fn wf(&self) -> bool {
        &&& MIN_UTC_MILLIS <= self.started_ms <= MAX_UTC_MILLIS
        &&& no_newline(date_minute(self.started_ms as int))
        &&& forall|i: int|
            0 <= i < self.spoken@.len() ==> #[trigger] self.spoken@[i].speaker == SpeakerLabel::Me
                || self.spoken@[i].speaker == SpeakerLabel::Them
    }

    /// The text of `transcript.md` so far: the header, then one line per
    /// chunk.
    pub open spec fn written(&self) -> Seq<char> {
        header_text(self.title_view(), date_minute(self.started_view() as int), None)
            + transcript_body(self.spoken())
    }

    /// Opens the record of session `id` started at `started_ms`, and
    /// returns the header that begins its transcript.
    pub fn start(id: SessionId, started_ms: i64, title: Option<String>) -> (r: (SessionLog, String))
        requires
            MIN_UTC_MILLIS <= started_ms <= MAX_UTC_MILLIS,
        ensures
            r.0.wf(),
            r.0.id_view() == id,
            r.0.started_view() == started_ms,
            r.0.title_view() == (match title {
                Some(t) => Some(t@),
                None => None::<Seq<char>>,
            }),
            r.0.spoken().len() == 0,
            r.0.capture_error_view() is None,
            r.1@ == r.0.written(),
    {
        let header = match &title {
            Some(t) => render_transcript_header(Some(t.as_str()), started_ms, None),
            None => render_transcript_header(None, started_ms, None),
        };
        let log = SessionLog {
            id,
            started_ms,
            title,
            spoken: Vec::new(),
            capture_error: None,
        };
        proof {
            assert(transcript_body(log.spoken@) == Seq::<char>::empty());
            assert(header@ + Seq::<char>::empty() =~= header@);
        }
        (log, header)
    }

    /// Records a chunk transcribed from `source`: returns the line to
    /// append to the transcript and the event to announce it.
    pub fn record_chunk(&mut self, source: FrameSource, chunk: TranscriptChunk) -> (r: (
        String,
        LifecycleEvent,
    ))
        requires
            old(self).wf(),
        ensures
            final(self).wf(),
            final(self).id_view() == old(self).id_view(),
            final(self).started_view() == old(self).started_view(),
            final(self).title_view() == old(self).title_view(),
            final(self).capture_error_view() == old(self).capture_error_view(),
            final(self).spoken() == old(self).spoken().push(
                AttributedChunk { chunk, speaker: speaker_of(source) },
            ),
            r.0@ == transcript_line_text(speaker_of(source), chunk.start_ms as nat, chunk.text@),
            final(self).written() == old(self).written() + r.0@,
            r.1 matches LifecycleEvent::ChunkTranscribed { id, chunk: c } && id
                == old(self).id_view() && c.speaker == speaker_of(source) && c.chunk.same_as(chunk),
    {
        let announced = AttributedChunk { chunk: chunk.duplicate(), speaker: speaker_for(source) };
        let entry = AttributedChunk { chunk, speaker: speaker_for(source) };
        let line = render_transcript_line(&entry);
        proof {
            lemma_transcript_body_push(self.spoken@, entry);
        }
        self.spoken.push(entry);
        proof {
            let h = header_text(self.title_view(), date_minute(self.started_ms as int), None);
            assert(h + (transcript_body(old(self).spoken@) + line@) =~= (h + transcript_body(
                old(self).spoken@,
            )) + line@);
        }
        (line, LifecycleEvent::ChunkTranscribed { id: self.id, chunk: announced })
    }

    /// Records how capture ended: `Some` when the capture stream failed.
    /// The first failure is kept.
    pub fn end_capture(&mut self, error: Option<CaptureError>)
        ensures
            final(self).wf() == old(self).wf(),
            final(self).id_view() == old(self).id_view(),
            final(self).started_view() == old(self).started_view(),
            final(self).title_view() == old(self).title_view(),
            final(self).spoken() == old(self).spoken(),
            final(self).capture_error_view() == (match old(self).capture_error_view() {
                Some(e) => Some(e),
                None => error,
            }),
    {
        if self.capture_error.is_none() {
            self.capture_error = error;
        }
    }

    /// Copies of the chunks heard on one side, in order: what the
    /// diarizer receives for that side.
    pub fn side(&self, side: StoreTarget) -> (v: Vec<TranscriptChunk>)
        ensures
            copies_of(v@, side_chunks(self.spoken(), side)),
    {
        let mut out: Vec<TranscriptChunk> = Vec::new();
        let mut i: usize = 0;
        while i < self.spoken.len()
            invariant
                i <= self.spoken@.len(),
                copies_of(out@, side_chunks(self.spoken@.take(i as int), side)),
            decreases self.spoken@.len() - i,
        {
            let ghost before = self.spoken@.take(i as int);
            let ghost after = self.spoken@.take(i + 1);
            assert(after.drop_last() =~= before);
            assert(after.last() == self.spoken@[i as int]);
            let c = &self.spoken[i];
            let hit = match side {
                StoreTarget::Mic => match &c.speaker {
                    SpeakerLabel::Me => true,
                    _ => false,
                },
                StoreTarget::System => match &c.speaker {
                    SpeakerLabel::Them => true,
                    _ => false,
                },
            };
            assert(hit == on_side(*c, side));
            if hit {
                let ghost prev = out@;
                out.push(c.chunk.duplicate());
                assert(copies_of(out@, side_chunks(after, side))) by {
                    assert forall|k: int| 0 <= k < out@.len() implies #[trigger] out@[k].same_as(
                        side_chunks(after, side)[k],
                    ) by {
                        if k < prev.len() {
                            assert(out@[k] == prev[k]);
                        }
                    }
                }
            }
            i = i + 1;
        }
        assert(self.spoken@.take(self.spoken@.len() as int) =~= self.spoken@);
        out
    }

    /// How the session ends once its files are written: the capture
    /// failure when capture failed, the outputs otherwise.
    pub fn outcome(self, outputs: SessionOutputs) -> (r: Result<SessionOutputs, CoreError>)
        ensures
            match self.capture_error_view() {
                Some(e) => r == Err::<SessionOutputs, CoreError>(CoreError::Capture(e)),
                None => r == Ok::<SessionOutputs, CoreError>(outputs),
            },
    {
        match self.capture_error {
            Some(e) => Err(CoreError::Capture(e)),
            None => Ok(outputs),
        }
    }
}

/// The transcript a session writes reads back, segment for segment, as
/// the chunks it recorded: each with its speaker, its start (to the whole
/// second) and its trimmed text, numbered from 1. It holds whenever the
/// title and every chunk's text fit on one line.
pub proof fn session_transcript_reads_back(log: SessionLog)
    requires
        log.wf(),
        log.title_view() matches Some(t) ==> no_newline(t),
        single_line_texts(log.spoken()),
    ensures
        transcript_parse(log.written()) == ParseOutcome::Done(read_back(log.spoken())),
{
    assert(plain_speakers(log.spoken())) by {
        assert forall|i: int| 0 <= i < log.spoken().len() implies plain_label(
            #[trigger] log.spoken()[i].speaker,
        ) by {
            assert(log.spoken@[i].speaker == SpeakerLabel::Me || log.spoken@[i].speaker
                == SpeakerLabel::Them);
        }
    }
    rendered_transcript_reads_back(
        log.title_view(),
        date_minute(log.started_view() as int),
        None,
        log.spoken(),
    );
}

/// The title line a transcript header shows.
pub open spec fn shown_title(title: Option<Seq<char>>) -> Seq<char> {
    match title {
        Some(t) => t,
        None => "Untitled session"@,
    }
}

/// Re-heading a session's transcript under its final title keeps every
/// line: the transcript is left alone exactly when it already carries
/// that title, and is otherwise the new header followed by the same
/// lines. It holds whenever both titles fit on one line.
pub proof fn retitling_keeps_every_line(log: SessionLog, title: Seq<char>, header: Seq<char>)
    requires
        log.wf(),
        no_newline(shown_title(log.title_view())),
        no_newline(title),
    ensures
        retitled(log.written(), title, header) == (if title == shown_title(log.title_view()) {
            None
        } else {
            Some(header + transcript_body(log.spoken()))
        }),
{
    let t = shown_title(log.title_view());
    let st = date_minute(log.started_view() as int);
    let b = transcript_body(log.spoken());
    let w = log.written();
    reveal_strlit("# ");
    reveal_strlit("\n");
    reveal_strlit("*");
    reveal_strlit("*\n");
    reveal_strlit("Untitled session");
    reveal_strlit("\n\n");
    assert(header_text(log.title_view(), st, None) == header_text(Some(t), st, None));
    assert(w =~= seq!['#', ' '] + t + seq!['\n', '*'] + st + seq!['*', '\n', '\n'] + b);
    let a: int = 2 + t.len() as int;
    let k: int = a + 3 + st.len() as int;
    // The first blank line ends the header.
    assert(w[a] == '\n');
    assert(w[a + 1] == '*');
    assert(w[k] == '\n' && w[k + 1] == '\n');
    assert(w.subrange(k, k + 2) =~= "\n\n"@);
    assert forall|j: int| 0 <= j < k implies !matches_at(w, "\n\n"@, j) by {
        if matches_at(w, "\n\n"@, j) {
            assert(w.subrange(j, j + 2)[0] == w[j]);
            assert(w.subrange(j, j + 2)[1] == w[j + 1]);
            assert(w[j] == '\n' && w[j + 1] == '\n');
            if j < 2 {
            } else if j < a {
                assert(w[j] == t[j - 2]);
            } else if j == a {
            } else if j == a + 1 {
            } else if j < a + 2 + st.len() {
                assert(w[j] == st[j - a - 2]);
            } else {
                assert(j == a + 2 + st.len());
            }
        }
    }
    lemma_find_first(w, "\n\n"@, 0, k);
    assert(find(w, "\n\n"@) == Some(k));
    assert(w.subrange(k + 2, w.len() as int) =~= b);
    // The transcript starts with `# <title>\n` exactly when the title is
    // the one it carries.
    let p = "# "@ + title + "\n"@;
    assert(p =~= seq!['#', ' '] + title + seq!['\n']);
    if title == t {
        assert(w.subrange(0, p.len() as int) =~= p);
    } else if starts_with(w, p) {
        assert(w.subrange(0, p.len() as int) == p);
        if title.len() == t.len() {
            assert forall|i: int| 0 <= i < t.len() implies title[i] == t[i] by {
                assert(p[i + 2] == w[i + 2]);
            }
            assert(title =~= t);
        } else if title.len() < t.len() {
            let i = title.len() as int;
            assert(p[i + 2] == w[i + 2]);
            assert(w[i + 2] == t[i]);
        } else {
            let i = t.len() as int;
            assert(p[i + 2] == w[i + 2]);
            assert(p[i + 2] == title[i]);
        }
    }
}

} // verus!
