//! Full-text index hook over recorded sessions.
//!
//! The index lives at `<storage.root>/.index/` and is never the source of
//! truth. This build carries no search backend: rebuilding, searching and
//! indexing a generated-notes event report that the `hook-tantivy`
//! feature is missing; every other event is ignored.

use vstd::prelude::*;

use crate::error::HookError;
use crate::hooks::LifecycleEvent;
use crate::paths::{join_path, parent_of, path_join, path_parent};

verus! {

/// Configuration of the indexer hook.
#[derive(Clone, Debug, PartialEq, Eq)]
pub struct TantivyIndexerHookConfig {
    /// Parent folder of every session directory.
    pub storage_root: String,
    /// Subdirectory of `storage_root` holding the index.
    pub index_subdir: String,
    /// Stable hook identifier.
    pub display_name: String,
}

impl TantivyIndexerHookConfig {
    /// Construct with the `.index` subdirectory and the `indexer` name.
    pub fn new(storage_root: String) -> (c: TantivyIndexerHookConfig)
        ensures
            c.storage_root == storage_root,
            c.index_subdir@ == ".index"@,
            c.display_name@ == "indexer"@,
    {
        TantivyIndexerHookConfig {
            storage_root,
            index_subdir: ".index".to_owned(),
            display_name: "indexer".to_owned(),
        }
    }

    /// The index directory: the subdirectory joined onto the root.
    pub fn index_path(&self) -> (p: String)
        ensures
            p@ == path_join(self.storage_root@, self.index_subdir@),
    {
        join_path(self.storage_root.as_str(), self.index_subdir.as_str())
    }
}

/// A search hit.
#[derive(Clone, Debug, PartialEq, Eq)]
pub struct IndexHit {
    /// The session ULID, as its 26-character text.
    pub session_id: String,
    /// Document kind: `notes` or `transcript`.
    pub kind: String,
    /// Title from `meta.toml`, empty when not known.
    pub title: String,
    /// Snippet of the matching body.
    pub snippet: String,
}

/// Why the index cannot be used in this build.
pub open spec fn indexer_feature_text() -> Seq<char> {
    "scrybe-core was built without the `hook-tantivy` cargo feature; enable it to use TantivyIndexerHook"@
}

fn feature_disabled_error() -> (e: HookError)
    ensures
        e matches HookError::Hook(m) && m@ == indexer_feature_text(),
{
    HookError::Hook(
        "scrybe-core was built without the `hook-tantivy` cargo feature; enable it to use TantivyIndexerHook".to_owned(),
    )
}

/// The indexer hook.
pub struct TantivyIndexerHook {
    config: TantivyIndexerHookConfig,
}

impl TantivyIndexerHook {
    /// The configuration the hook was built with.
    pub closed spec fn config_view(&self) -> TantivyIndexerHookConfig {
        self.config
    }

    /// Constructs the hook; never fails in this build.
    pub fn new(config: TantivyIndexerHookConfig) -> (r: Result<TantivyIndexerHook, HookError>)
        ensures
            r matches Ok(h) && h.config_view() == config,
    {
        Ok(TantivyIndexerHook { config })
    }

    /// Rebuilds the index from the session folders; reports the missing
    /// feature in this build.
    pub fn rebuild_all(&self) -> (r: Result<u64, HookError>)
        ensures
            r matches Err(HookError::Hook(m)) && m@ == indexer_feature_text(),
    {
        Err(feature_disabled_error())
    }

    /// Searches the index; reports the missing feature in this build.
    pub fn search(&self, query: &str, limit: usize) -> (r: Result<Vec<IndexHit>, HookError>)
        ensures
            r matches Err(HookError::Hook(m)) && m@ == indexer_feature_text(),
    {
        Err(feature_disabled_error())
    }

    /// Handles one lifecycle event: only `NotesGenerated` for a notes
    /// path inside a session folder is indexed (and reports the missing
    /// feature); everything else is ignored.
    pub fn on_event(&self, event: &LifecycleEvent) -> (r: Result<(), HookError>)
        ensures
            match event {
                LifecycleEvent::NotesGenerated { notes_path, .. } => if path_parent(
                    notes_path@,
                ) is Some {
                    r matches Err(HookError::Hook(m)) && m@ == indexer_feature_text()
                } else {
                    r is Ok
                },
                _ => r is Ok,
            },
    {
        match event {
            LifecycleEvent::NotesGenerated { notes_path, .. } => {
                match parent_of(notes_path.as_str()) {
                    Some(_) => Err(feature_disabled_error()),
                    None => Ok(()),
                }
            },
            _ => Ok(()),
        }
    }

    /// Stable hook identifier.
    pub fn name(&self) -> (s: &str)
        ensures
            s@ == self.config_view().display_name@,
    {
        self.config.display_name.as_str()
    }
}

} // verus!
