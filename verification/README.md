# scrybe_core

The core of a local meeting recorder: consent, capture bookkeeping,
VAD-aware chunking, stereo alignment, the crash-safe audio journal,
speaker attribution, transcript and notes rendering, map-reduce notes
over long transcripts, lifecycle hooks, calendar context, session repair,
and a read-only agent-access surface over the sessions on disk.

## Layout

- `src/` — the library, verified with Verus. Every public function
  carries a contract over mathematical models (`Seq`, `Map`, spec
  functions); laws that relate several functions are public proof
  functions (for example `transcript_roundtrip::rendered_transcript_reads_back`,
  `session_log::retitling_keeps_every_line`,
  `notes_segments::pack_partitions_segments`,
  `pipeline::interleave::finish_pairs_everything`,
  `pipeline::chunker::pushed_frames_all_come_out`,
  `types::ulid_text_round_trip`). Calls into `std` and outside crates
  that Verus does not specify go through small `external_body`
  wrappers whose contracts name the result they return.
- `app/` — the runtime around the library: the session orchestrator
  loop, provider transports (`reqwest`), retry sleeps, hook dispatch,
  file and journal I/O, floating-point audio (VAD, downmix, resampling),
  configuration and `meta.toml` files (`serde`, `toml`), and the
  JSON of the agent-access results (`serde_json`); the line handling
  itself, parse and framing included, is `agent_access::wire`.
- `tests/` — tests of the library on concrete values.
