//! Neural fallback diarizer for multi-party and in-room meetings.
//!
//! The diarizer delegates clustering to a [`PyannoteBackend`] and maps
//! each cluster onto a speaker name: the attendee at the cluster's index
//! when the meeting context lists one, `Speaker N` otherwise. The live
//! ONNX binding is not part of this build: constructing it reports a
//! typed error instead of a phantom successful load.

use vstd::prelude::*;

use crate::context::MeetingContext;
use crate::diarize::{sort_stable, stable_sorted, Diarizer};
use crate::error::{CoreError, PipelineError};
use crate::paths::{is_partial, is_partial_path};
use crate::text::{dec, push_dec, push_str, string_from_chars};
use crate::types::{AttributedChunk, SpeakerLabel, TranscriptChunk};

verus! {

/// Configuration of the neural diarizer: the model directory and the
/// label shown in the provider name (`pyannote-onnx:<label>`).
#[derive(Clone, Debug, PartialEq, Eq)]
pub struct PyannoteOnnxConfig {
    pub model_path: String,
    pub model_label: String,
}

impl PyannoteOnnxConfig {
    /// Construct with the default `3.1` model label.
    pub fn new(model_path: String) -> (c: PyannoteOnnxConfig)
        ensures
            c.model_path == model_path,
            c.model_label@ == "3.1"@,
    {
        PyannoteOnnxConfig { model_path, model_label: "3.1".to_owned() }
    }
}

/// One speaker found by the model: a stable index and the half-open
/// time intervals (milliseconds) where it spoke.
#[derive(Clone, Debug, PartialEq, Eq)]
pub struct SpeakerCluster {
    pub cluster_index: u32,
    pub spans_ms: Vec<(u64, u64)>,
}

/// Pluggable inference backend: clusters the merged per-channel
/// transcripts into speakers.
pub trait PyannoteBackend {
    /// The backend may answer `r` for these mic and system chunks. A
    /// backend that does not define this allows every answer.
    open spec fn may_cluster(
        &self,
        mic: Seq<TranscriptChunk>,
        sys: Seq<TranscriptChunk>,
        r: Result<Seq<SpeakerCluster>, CoreError>,
    ) -> bool {
        true
    }

    fn cluster(&self, mic_chunks: &[TranscriptChunk], sys_chunks: &[TranscriptChunk]) -> (r:
        Result<Vec<SpeakerCluster>, CoreError>)
        ensures
            self.may_cluster(
                mic_chunks@,
                sys_chunks@,
                match r {
                    Ok(v) => Ok(v@),
                    Err(e) => Err(e),
                },
            ),
    ;
}

/// The neural diarizer around a backend.
pub struct PyannoteOnnxDiarizer<B: PyannoteBackend> {
    backend: B,
    name: String,
}

impl<B: PyannoteBackend> PyannoteOnnxDiarizer<B> {
    /// Stable provider-name prefix surfaced in `meta.toml`.
    pub const NAME_PREFIX: &'static str = "pyannote-onnx";

    /// The provider name.
    pub closed spec fn name_view(&self) -> Seq<char> {
        self.name@
    }

    /// The backend it delegates to.
    pub closed spec fn backend_view(&self) -> B {
        self.backend
    }

    /// Wraps a backend; the name is `pyannote-onnx:<label>`.
    pub fn with_backend(backend: B, model_label: &str) -> (d: Self)
        ensures
            d.name_view() == "pyannote-onnx:"@ + model_label@,
            d.backend_view() == backend,
    {
        let mut out: Vec<char> = Vec::new();
        push_str(&mut out, "pyannote-onnx:");
        push_str(&mut out, model_label);
        PyannoteOnnxDiarizer { backend, name: string_from_chars(out.as_slice()) }
    }

    /// The underlying backend.
    pub fn backend(&self) -> (b: &B)
        ensures
            *b == self.backend_view(),
    {
        &self.backend
    }
}

/// The reason given for a `*.partial` model path.
pub open spec fn partial_reason(path: Seq<char>) -> Seq<char> {
    "pyannote-onnx model path looks like a partial download: "@ + path
}

/// The reason given when the live binding is not part of the build.
pub open spec fn feature_disabled_reason(path: Seq<char>) -> Seq<char> {
    "scrybe-core was built without the `diarize-pyannote` cargo feature; enable it to load "@
        + path
}

/// `e` is `Pipeline(DiarizerUnavailable { reason })` with this reason.
pub open spec fn is_unavailable(e: CoreError, reason: Seq<char>) -> bool {
    e matches CoreError::Pipeline(PipelineError::DiarizerUnavailable { reason: r }) && r@ == reason
}

fn unavailable(prefix: &str, path: &str) -> (e: CoreError)
    ensures
        is_unavailable(e, prefix@ + path@),
{
    let mut out: Vec<char> = Vec::new();
    push_str(&mut out, prefix);
    push_str(&mut out, path);
    CoreError::Pipeline(
        PipelineError::DiarizerUnavailable { reason: string_from_chars(out.as_slice()) },
    )
}

/// The live ONNX backend. This build carries no ONNX runtime, so it
/// cannot be loaded.
pub struct LivePyannoteBackend {
    pub model_path: String,
}

impl LivePyannoteBackend {
    /// Loads the live backend; always a typed error in this build, naming
    /// the missing `diarize-pyannote` feature and the model path.
    pub fn new(model_path: String) -> (r: Result<LivePyannoteBackend, CoreError>)
        ensures
            r matches Err(e) && is_unavailable(e, feature_disabled_reason(model_path@)),
    {
        Err(ensure_live_binding_available(model_path.as_str()))
    }
}

/// The error the missing live binding produces.
pub fn ensure_live_binding_available(model_path: &str) -> (e: CoreError)
    ensures
        is_unavailable(e, feature_disabled_reason(model_path@)),
{
    unavailable(
        "scrybe-core was built without the `diarize-pyannote` cargo feature; enable it to load ",
        model_path,
    )
}

/// The reason the live backend gives when asked to cluster.
pub open spec fn binding_pending_reason(path: Seq<char>) -> Seq<char> {
    "pyannote-onnx live runtime binding pending; backend constructed with model_path="@ + path
}

impl PyannoteBackend for LivePyannoteBackend {
    open spec fn may_cluster(
        &self,
        mic: Seq<TranscriptChunk>,
        sys: Seq<TranscriptChunk>,
        r: Result<Seq<SpeakerCluster>, CoreError>,
    ) -> bool {
        r matches Err(e) && is_unavailable(e, binding_pending_reason(self.model_path@))
    }

    fn cluster(&self, mic_chunks: &[TranscriptChunk], sys_chunks: &[TranscriptChunk]) -> (r:
        Result<Vec<SpeakerCluster>, CoreError>)
        ensures
            r matches Err(e) && is_unavailable(
                e,
                "pyannote-onnx live runtime binding pending; backend constructed with model_path="@
                    + self.model_path@,
            ),
    {
        Err(
            unavailable(
                "pyannote-onnx live runtime binding pending; backend constructed with model_path=",
                self.model_path.as_str(),
            ),
        )
    }
}

impl PyannoteOnnxDiarizer<LivePyannoteBackend> {
    /// Constructs a diarizer wired to the live backend: a `*.partial`
    /// model path is rejected first; otherwise loading the live backend
    /// reports that the binding is not part of this build.
    pub fn new_live(config: PyannoteOnnxConfig) -> (r: Result<Self, CoreError>)
        ensures
            is_partial_path(config.model_path@) ==> (r matches Err(e) && is_unavailable(
                e,
                partial_reason(config.model_path@),
            )),
            !is_partial_path(config.model_path@) ==> (r matches Err(e) && is_unavailable(
                e,
                feature_disabled_reason(config.model_path@),
            )),
    {
        if is_partial(config.model_path.as_str()) {
            return Err(
                unavailable(
                    "pyannote-onnx model path looks like a partial download: ",
                    config.model_path.as_str(),
                ),
            );
        }
        match LivePyannoteBackend::new(config.model_path) {
            Ok(backend) => Ok(PyannoteOnnxDiarizer::with_backend(backend, config.model_label.as_str())),
            Err(e) => Err(e),
        }
    }
}

// ---------------------------------------------------------------------
// Cluster-to-speaker mapping
// ---------------------------------------------------------------------

/// End of a chunk: its start plus its duration, saturating at `u64::MAX`.
pub open spec fn chunk_end_ms(c: TranscriptChunk) -> nat {
    if c.start_ms + c.duration_ms > u64::MAX {
        u64::MAX as nat
    } else {
        (c.start_ms + c.duration_ms) as nat
    }
}

/// Whether the chunk overlaps the half-open span.
pub open spec fn span_overlaps(c: TranscriptChunk, span: (u64, u64)) -> bool {
    c.start_ms < span.1 && chunk_end_ms(c) > span.0
}

/// Whether the chunk overlaps any span of the cluster.
pub open spec fn cluster_overlaps(c: TranscriptChunk, cl: SpeakerCluster) -> bool {
    exists|k: int| 0 <= k < cl.spans_ms@.len() && span_overlaps(c, #[trigger] cl.spans_ms@[k])
}

/// The index of the first cluster the chunk overlaps.
pub open spec fn first_cluster(c: TranscriptChunk, cls: Seq<SpeakerCluster>) -> Option<u32>
    decreases cls.len(),
{
    if cls.len() == 0 {
        None
    } else if cluster_overlaps(c, cls[0]) {
        Some(cls[0].cluster_index)
    } else {
        first_cluster(c, cls.drop_first())
    }
}

/// `l` is the speaker a cluster index maps to: the attendee at that
/// position, or `Speaker <index + 1>` past the attendee list.
pub open spec fn cluster_name(l: SpeakerLabel, idx: u32, ctx: MeetingContext) -> bool {
    if (idx as int) < ctx.attendees@.len() {
        l == SpeakerLabel::Named(ctx.attendees@[idx as int])
    } else {
        l matches SpeakerLabel::Named(s) && s@ == "Speaker "@ + dec((idx + 1) as nat)
    }
}

/// `l` is the speaker a chunk gets: its first overlapping cluster's name,
/// or `Unknown` when no cluster overlaps it.
pub open spec fn chunk_speaker(
    l: SpeakerLabel,
    c: TranscriptChunk,
    cls: Seq<SpeakerCluster>,
    ctx: MeetingContext,
) -> bool {
    match first_cluster(c, cls) {
        None => l == SpeakerLabel::Unknown,
        Some(idx) => cluster_name(l, idx, ctx),
    }
}

/// `out` is the attribution of the mic and system chunks under the
/// clusters, stably ordered by start time.
pub open spec fn attributed_by(
    mic: Seq<TranscriptChunk>,
    sys: Seq<TranscriptChunk>,
    cls: Seq<SpeakerCluster>,
    ctx: MeetingContext,
    out: Seq<AttributedChunk>,
) -> bool {
    exists|pre: Seq<AttributedChunk>|
        {
            &&& pre.len() == mic.len() + sys.len()
            &&& forall|i: int|
                0 <= i < pre.len() ==> (#[trigger] pre[i]).chunk.same_as((mic + sys)[i]) && chunk_speaker(
                    pre[i].speaker,
                    pre[i].chunk,
                    cls,
                    ctx,
                )
            &&& out == stable_sorted(pre, false)
        }
}

/// `out` is the attribution of the chunks under some clustering the
/// backend reported.
pub open spec fn attributed_by_some(
    mic: Seq<TranscriptChunk>,
    sys: Seq<TranscriptChunk>,
    ctx: MeetingContext,
    out: Seq<AttributedChunk>,
) -> bool {
    exists|cls: Seq<SpeakerCluster>| attributed_by(mic, sys, cls, ctx, out)
}

fn span_hits(c: &TranscriptChunk, cl: &SpeakerCluster) -> (b: bool)
    ensures
        b == cluster_overlaps(*c, *cl),
{
    let start = c.start_ms;
    let end = c.start_ms.saturating_add(c.duration_ms);
    let mut k: usize = 0;
    while k < cl.spans_ms.len()
        invariant
            k <= cl.spans_ms@.len(),
            end == chunk_end_ms(*c),
            start == c.start_ms,
            forall|j: int| 0 <= j < k ==> !span_overlaps(*c, #[trigger] cl.spans_ms@[j]),
        decreases cl.spans_ms@.len() - k,
    {
        let (s, e) = cl.spans_ms[k];
        if start < e && end > s {
            assert(span_overlaps(*c, cl.spans_ms@[k as int]));
            return true;
        }
        k = k + 1;
    }
    false
}

/// The index of the first cluster whose spans overlap the chunk.
pub fn find_cluster(chunk: &TranscriptChunk, clusters: &[SpeakerCluster]) -> (r: Option<u32>)
    ensures
        r == first_cluster(*chunk, clusters@),
{
    let mut i: usize = 0;
    assert(clusters@.skip(0) =~= clusters@);
    while i < clusters.len()
        invariant
            i <= clusters@.len(),
            first_cluster(*chunk, clusters@) == first_cluster(*chunk, clusters@.skip(i as int)),
        decreases clusters@.len() - i,
    {
        let ghost rest = clusters@.skip(i as int);
        assert(rest[0] == clusters@[i as int]);
        assert(rest.drop_first() =~= clusters@.skip(i + 1));
        if span_hits(chunk, &clusters[i]) {
            return Some(clusters[i].cluster_index);
        }
        i = i + 1;
    }
    None
}

/// Maps a cluster index to a speaker: the attendee at that position, or
/// `Speaker <index + 1>`.
pub fn name_for_cluster(cluster_idx: u32, ctx: &MeetingContext) -> (l: SpeakerLabel)
    ensures
        cluster_name(l, cluster_idx, *ctx),
{
    if (cluster_idx as usize) < ctx.attendees.len() {
        SpeakerLabel::Named(ctx.attendees[cluster_idx as usize].clone())
    } else {
        let mut out: Vec<char> = Vec::new();
        push_str(&mut out, "Speaker ");
        push_dec(&mut out, cluster_idx as u64 + 1);
        SpeakerLabel::Named(string_from_chars(out.as_slice()))
    }
}

/// Maps cluster spans onto transcript chunks. A chunk that overlaps a
/// cluster span is attributed to that cluster's speaker; a chunk with no
/// overlap becomes `Unknown`, so unrouted speech stays visible. The
/// result is stably ordered by start time.
pub fn attribute_chunks(
    mic_chunks: &[TranscriptChunk],
    sys_chunks: &[TranscriptChunk],
    clusters: &[SpeakerCluster],
    ctx: &MeetingContext,
) -> (out: Vec<AttributedChunk>)
    ensures
        attributed_by(mic_chunks@, sys_chunks@, clusters@, *ctx, out@),
{
    let ghost all = mic_chunks@ + sys_chunks@;
    let mut pre: Vec<AttributedChunk> = Vec::new();
    let mut i: usize = 0;
    while i < mic_chunks.len()
        invariant
            all == mic_chunks@ + sys_chunks@,
            i <= mic_chunks@.len(),
            pre@.len() == i,
            forall|k: int|
                0 <= k < i ==> (#[trigger] pre@[k]).chunk.same_as(all[k]) && chunk_speaker(
                    pre@[k].speaker,
                    pre@[k].chunk,
                    clusters@,
                    *ctx,
                ),
        decreases mic_chunks@.len() - i,
    {
        let c = mic_chunks[i].duplicate();
        let speaker = match find_cluster(&c, clusters) {
            Some(idx) => name_for_cluster(idx, ctx),
            None => SpeakerLabel::Unknown,
        };
        pre.push(AttributedChunk { chunk: c, speaker });
        i = i + 1;
    }
    let mut j: usize = 0;
    while j < sys_chunks.len()
        invariant
            all == mic_chunks@ + sys_chunks@,
            j <= sys_chunks@.len(),
            pre@.len() == mic_chunks@.len() + j,
            forall|k: int|
                0 <= k < pre@.len() ==> (#[trigger] pre@[k]).chunk.same_as(all[k]) && chunk_speaker(
                    pre@[k].speaker,
                    pre@[k].chunk,
                    clusters@,
                    *ctx,
                ),
        decreases sys_chunks@.len() - j,
    {
        let c = sys_chunks[j].duplicate();
        assert(c.same_as(all[mic_chunks@.len() + j]));
        let speaker = match find_cluster(&c, clusters) {
            Some(idx) => name_for_cluster(idx, ctx),
            None => SpeakerLabel::Unknown,
        };
        pre.push(AttributedChunk { chunk: c, speaker });
        j = j + 1;
    }
    let ghost p = pre@;
    let out = sort_stable(pre, false);
    assert(attributed_by(mic_chunks@, sys_chunks@, clusters@, *ctx, out@)) by {
        assert(out@ == stable_sorted(p, false));
    }
    out
}

impl<B: PyannoteBackend> Diarizer for PyannoteOnnxDiarizer<B> {
    fn diarize(
        &self,
        mic_chunks: &[TranscriptChunk],
        sys_chunks: &[TranscriptChunk],
        ctx: &MeetingContext,
    ) -> (r: Result<Vec<AttributedChunk>, CoreError>)
        ensures
            match r {
                Ok(v) => attributed_by_some(mic_chunks@, sys_chunks@, *ctx, v@),
                Err(_) => true,
            },
            exists|res: Result<Seq<SpeakerCluster>, CoreError>|
                #[trigger] self.backend_view().may_cluster(mic_chunks@, sys_chunks@, res) && match res {
                    Ok(cls) => (r matches Ok(v) && attributed_by(mic_chunks@, sys_chunks@, cls, *ctx, v@)),
                    Err(e) => r == Err::<Vec<AttributedChunk>, CoreError>(e),
                },
    {
        let res = self.backend.cluster(mic_chunks, sys_chunks);
        let ghost rv = match &res {
            Ok(v) => Ok(v@),
            Err(e) => Err(*e),
        };
        assert(self.backend_view().may_cluster(mic_chunks@, sys_chunks@, rv));
        match res {
            Ok(clusters) => {
                let v = attribute_chunks(mic_chunks, sys_chunks, clusters.as_slice(), ctx);
                assert(attributed_by(mic_chunks@, sys_chunks@, clusters@, *ctx, v@));
                assert(attributed_by_some(mic_chunks@, sys_chunks@, *ctx, v@));
                Ok(v)
            },
            Err(e) => Err(e),
        }
    }

    fn name(&self) -> (s: &str)
        ensures
            s@ == self.name_view(),
    {
        self.name.as_str()
    }
}

} // verus!
