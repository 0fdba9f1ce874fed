//! Git auto-commit hook: commits `notes.md` when a session emits
//! `NotesGenerated`, with a commit message rendered from a template.
//!
//! This build carries no git backend: handling `NotesGenerated` reports
//! that the `hook-git` feature is missing, so the gap is obvious.

use vstd::prelude::*;

use crate::error::HookError;
use crate::hooks::LifecycleEvent;
use crate::paths::{file_name_of, parent_of, path_file_name, path_parent};
use crate::text::{
    chars_of, join, push_range, push_str, replace_all, replace_str, split_char, split_char_range,
    string_from_chars,
};

verus! {

/// Configuration of the git auto-commit hook.
#[derive(Clone, Debug, PartialEq, Eq)]
pub struct GitHookConfig {
    /// Repository root; must already be a git repository.
    pub repo_root: String,
    /// Commit message template; `{title}` is replaced by the session
    /// title.
    pub commit_message: String,
    /// Remote to push to after the commit; `None` skips the push.
    pub push_remote: Option<String>,
}

impl GitHookConfig {
    /// Construct with the default commit message
    /// `scrybe: notes for {title}`.
    pub fn new(repo_root: String) -> (c: GitHookConfig)
        ensures
            c.repo_root == repo_root,
            c.commit_message@ == "scrybe: notes for {title}"@,
            c.push_remote is None,
    {
        GitHookConfig {
            repo_root,
            commit_message: "scrybe: notes for {title}".to_owned(),
            push_remote: None,
        }
    }
}

/// The git auto-commit hook.
pub struct GitHook {
    config: GitHookConfig,
}

/// Why a commit cannot be made in this build.
pub open spec fn git_feature_text() -> Seq<char> {
    "scrybe-core was built without the `hook-git` cargo feature; enable it to commit notes via git2"@
}

/// The title used when none can be derived.
pub open spec fn untitled_text() -> Seq<char> {
    "untitled session"@
}

/// The title slug of a session folder name
/// (`2026-04-29-1430-acme-discovery-01HXY7K9` gives `acme-discovery`):
/// the `-`-separated pieces between the fourth and the last, or
/// `untitled session` when there are fewer than six pieces.
pub open spec fn title_from_folder(name: Seq<char>) -> Seq<char> {
    let parts = split_char(name, '-');
    if parts.len() < 6 {
        untitled_text()
    } else {
        join(parts.subrange(4, parts.len() - 1), "-"@)
    }
}

/// The title derived from a notes path: the slug of its parent folder's
/// name, or `untitled session`.
pub open spec fn derived_title(notes_path: Seq<char>) -> Seq<char> {
    match path_parent(notes_path) {
        None => untitled_text(),
        Some(parent) => match path_file_name(parent) {
            None => untitled_text(),
            Some(name) => title_from_folder(name),
        },
    }
}

/// Best-effort title extraction from the notes path's parent folder.
pub fn derive_title_from_path(notes_path: &str) -> (t: String)
    ensures
        t@ == derived_title(notes_path@),
{
    let parent = match parent_of(notes_path) {
        Some(p) => p,
        None => {
            return "untitled session".to_owned();
        },
    };
    let name = match file_name_of(parent.as_str()) {
        Some(n) => n,
        None => {
            return "untitled session".to_owned();
        },
    };
    let cs = chars_of(name.as_str());
    let parts = split_char_range(&cs, 0, cs.len(), '-');
    let ghost sp = split_char(cs@, '-');
    assert(cs@.subrange(0, cs@.len() as int) == cs@);
    if parts.len() < 6 {
        return "untitled session".to_owned();
    }
    let last = parts.len() - 1;
    let mut out: Vec<char> = Vec::new();
    let mut j: usize = 4;
    while j < last
        invariant
            4 <= j <= last,
            last == sp.len() - 1,
            parts@.len() == sp.len(),
            sp == split_char(cs@, '-'),
            forall|k: int|
                0 <= k < parts@.len() ==> {
                    &&& 0 <= (#[trigger] parts@[k]).0 <= parts@[k].1 <= cs@.len()
                    &&& cs@.subrange(parts@[k].0 as int, parts@[k].1 as int) == sp[k]
                },
            out@ == join(sp.subrange(4, j as int), "-"@),
        decreases last - j,
    {
        let ghost before = out@;
        if j > 4 {
            push_str(&mut out, "-");
        }
        let (a, b) = parts[j];
        push_range(&mut out, &cs, a, b);
        proof {
            let q = sp.subrange(4, j + 1);
            assert(q.drop_last() == sp.subrange(4, j as int));
            assert(q.last() == sp[j as int]);
            if j == 4 {
                assert(sp.subrange(4, 4).len() == 0);
                assert(q.len() == 1);
                assert(out@ =~= join(q, "-"@));
            } else {
                assert(out@ =~= join(q, "-"@));
            }
        }
        j = j + 1;
    }
    string_from_chars(out.as_slice())
}

/// The placeholder the commit template substitutes.
pub open spec fn title_placeholder() -> Seq<char> {
    "{title}"@
}

impl GitHook {
    /// The configuration the hook was built with.
    pub closed spec fn config_view(&self) -> GitHookConfig {
        self.config
    }

    pub fn new(config: GitHookConfig) -> (h: GitHook)
        ensures
            h.config_view() == config,
    {
        GitHook { config }
    }

    /// The commit message: the template with every `{title}` replaced by
    /// `title`.
    pub fn render_commit_message(&self, title: &str) -> (s: String)
        ensures
            s@ == replace_all(self.config_view().commit_message@, title_placeholder(), title@),
    {
        proof {
            reveal_strlit("{title}");
        }
        replace_str(self.config.commit_message.as_str(), "{title}", title)
    }

    /// Handles one lifecycle event: every event but `NotesGenerated` is
    /// ignored; `NotesGenerated` cannot be committed without the git
    /// backend and reports the missing `hook-git` feature.
    pub fn on_event(&self, event: &LifecycleEvent) -> (r: Result<(), HookError>)
        ensures
            !(event is NotesGenerated) ==> r is Ok,
            event is NotesGenerated ==> (r matches Err(HookError::Hook(m)) && m@
                == git_feature_text()),
    {
        match event {
            LifecycleEvent::NotesGenerated { .. } => Err(
                HookError::Hook(
                    "scrybe-core was built without the `hook-git` cargo feature; enable it to commit notes via git2".to_owned(),
                ),
            ),
            _ => Ok(()),
        }
    }

    /// Stable hook identifier.
    pub fn name(&self) -> (s: &'static str)
        ensures
            s@ == "git"@,
    {
        "git"
    }
}

} // verus!
