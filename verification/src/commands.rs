//! What the desktop shell's commands decide: how the entries of a working
//! tree's status are sorted into lists, what is said when a project directory
//! is missing, and the text of a notification script. Reading the repository,
//! the file system and the notification service is the caller's part.
//!
//! What the flags of a status mean is asked of `git2`, through four small
//! functions whose contracts are trusted and not proved.

use vstd::prelude::*;
use vstd::string::StringExecFns;
use crate::text::lemma_text_views_push;
use crate::text::text_view;
use crate::text::text_views;

verus! {

/// A file of the project and what it holds.
#[derive(Debug)]
pub struct FileContent {
    pub path: String,
    pub content: String,
}

/// A request to commit some files.
#[derive(Debug)]
pub struct GitCommitRequest {
    pub message: String,
    pub files: Vec<String>,
}

/// The state of a working tree: the paths with changes, by kind, and the
/// branch that is checked out.
#[derive(Debug)]
pub struct GitStatus {
    pub modified: Vec<String>,
    pub staged: Vec<String>,
    pub untracked: Vec<String>,
    pub branch: String,
}

/// What is known of the model service.
#[derive(Debug)]
pub struct OllamaStatus {
    pub running: bool,
    pub port: u16,
    pub version: Option<String>,
    pub models: Vec<String>,
}

/// A notification for the user.
#[derive(Debug)]
pub struct NotificationRequest {
    pub title: String,
    pub body: String,
}

/// One entry of a working tree's status, as the repository reports it.
#[derive(Debug)]
pub struct StatusEntry {
    /// The entry's path, where it can be given as text.
    pub path: Option<String>,
    /// The entry's status flags, as the bits of a `git2::Status`.
    pub status: u32,
}

/// A status entry as a mathematical value.
pub struct EntryView {
    pub path: Option<Seq<char>>,
    pub status: u32,
}

impl View for StatusEntry {
    type V = EntryView;

    open spec fn view(&self) -> EntryView {
        EntryView { path: text_view(self.path), status: self.status }
    }
}

/// The status says that the path is new in the index.
pub open spec fn index_new(status: u32) -> bool {
    status & 0x1 != 0
}

/// The status says that the path is modified in the index.
pub open spec fn index_modified(status: u32) -> bool {
    status & 0x2 != 0
}

/// The status says that the path is new in the working tree.
pub open spec fn wt_new(status: u32) -> bool {
    status & 0x80 != 0
}

/// The status says that the path is modified in the working tree.
pub open spec fn wt_modified(status: u32) -> bool {
    status & 0x100 != 0
}

/// Asks `git2::Status::is_index_new` of the status with the bits `status`.
///
/// Trusted: the answer is whether the bit of `Status::INDEX_NEW`, which is
/// libgit2's `GIT_STATUS_INDEX_NEW` or `1 << 0`, is set.
#[verifier::external_body]
fn is_index_new(status: u32) -> (set: bool)
    ensures
        set == index_new(status),
{
    git2::Status::from_bits_retain(status).is_index_new()
}

/// Asks `git2::Status::is_index_modified` of the status with the bits `status`.
///
/// Trusted: the answer is whether the bit of `Status::INDEX_MODIFIED`, which
/// is libgit2's `GIT_STATUS_INDEX_MODIFIED` or `1 << 1`, is set.
#[verifier::external_body]
fn is_index_modified(status: u32) -> (set: bool)
    ensures
        set == index_modified(status),
{
    git2::Status::from_bits_retain(status).is_index_modified()
}

/// Asks `git2::Status::is_wt_new` of the status with the bits `status`.
///
/// Trusted: the answer is whether the bit of `Status::WT_NEW`, which is
/// libgit2's `GIT_STATUS_WT_NEW` or `1 << 7`, is set.
#[verifier::external_body]
fn is_wt_new(status: u32) -> (set: bool)
    ensures
        set == wt_new(status),
{
    git2::Status::from_bits_retain(status).is_wt_new()
}

/// Asks `git2::Status::is_wt_modified` of the status with the bits `status`.
///
/// Trusted: the answer is whether the bit of `Status::WT_MODIFIED`, which is
/// libgit2's `GIT_STATUS_WT_MODIFIED` or `1 << 8`, is set.
#[verifier::external_body]
fn is_wt_modified(status: u32) -> (set: bool)
    ensures
        set == wt_modified(status),
{
    git2::Status::from_bits_retain(status).is_wt_modified()
}

/// The views of a sequence of status entries.
pub open spec fn entry_views(entries: Seq<StatusEntry>) -> Seq<EntryView> {
    entries.map_values(|entry: StatusEntry| entry@)
}

/// The state of a working tree as a mathematical value.
pub struct GitStatusView {
    pub modified: Seq<Seq<char>>,
    pub staged: Seq<Seq<char>>,
    pub untracked: Seq<Seq<char>>,
    pub branch: Seq<char>,
}

impl View for GitStatus {
    type V = GitStatusView;

    open spec fn view(&self) -> GitStatusView {
        GitStatusView {
            modified: text_views(self.modified@),
            staged: text_views(self.staged@),
            untracked: text_views(self.untracked@),
            branch: self.branch@,
        }
    }
}

/// The path under which an entry is listed: its own, or the empty path where
/// it has none that can be given as text.
pub open spec fn listed_path(entry: EntryView) -> Seq<char> {
    match entry.path {
        Some(path) => path,
        None => Seq::empty(),
    }
}

/// The paths of the entries that are new or modified in the index, in order.
pub open spec fn staged_paths(entries: Seq<EntryView>) -> Seq<Seq<char>> {
    entries.filter(
        |entry: EntryView| index_new(entry.status) || index_modified(entry.status),
    ).map_values(|entry: EntryView| listed_path(entry))
}

/// The paths of the entries that are modified in the working tree, in order.
pub open spec fn modified_paths(entries: Seq<EntryView>) -> Seq<Seq<char>> {
    entries.filter(|entry: EntryView| wt_modified(entry.status)).map_values(
        |entry: EntryView| listed_path(entry),
    )
}

/// The paths of the entries that are new in the working tree, in order.
pub open spec fn untracked_paths(entries: Seq<EntryView>) -> Seq<Seq<char>> {
    entries.filter(|entry: EntryView| wt_new(entry.status)).map_values(
        |entry: EntryView| listed_path(entry),
    )
}

/// The branch that is reported: the one that is checked out, or `main` where
/// none could be told.
pub open spec fn reported_branch(branch: Option<Seq<char>>) -> Seq<char> {
    match branch {
        Some(name) => name,
        None => "main"@,
    }
}

/// What one more entry adds to the three lists.
proof fn lemma_paths_push(entries: Seq<EntryView>, entry: EntryView)
    ensures
        staged_paths(entries.push(entry)) == if index_new(entry.status) || index_modified(
            entry.status,
        ) {
            staged_paths(entries).push(listed_path(entry))
        } else {
            staged_paths(entries)
        },
        modified_paths(entries.push(entry)) == if wt_modified(entry.status) {
            modified_paths(entries).push(listed_path(entry))
        } else {
            modified_paths(entries)
        },
        untracked_paths(entries.push(entry)) == if wt_new(entry.status) {
            untracked_paths(entries).push(listed_path(entry))
        } else {
            untracked_paths(entries)
        },
{
    let staged = |entry: EntryView| index_new(entry.status) || index_modified(entry.status);
    let modified = |entry: EntryView| wt_modified(entry.status);
    let untracked = |entry: EntryView| wt_new(entry.status);
    let path = |entry: EntryView| listed_path(entry);
    entries.lemma_filter_push(entry, staged);
    entries.lemma_filter_push(entry, modified);
    entries.lemma_filter_push(entry, untracked);
    assert(entries.filter(staged).push(entry).map_values(path) =~= entries.filter(
        staged,
    ).map_values(path).push(listed_path(entry)));
    assert(entries.filter(modified).push(entry).map_values(path) =~= entries.filter(
        modified,
    ).map_values(path).push(listed_path(entry)));
    assert(entries.filter(untracked).push(entry).map_values(path) =~= entries.filter(
        untracked,
    ).map_values(path).push(listed_path(entry)));
}

/// Sorts the entries of a working tree's status into the lists of a
/// [`GitStatus`]: staged is what is new or modified in the index, modified
/// what is modified in the working tree, untracked what is new there. An
/// entry may stand in several lists, and stands in none if none of these four
/// flags is set. Each list keeps the order of the entries.
pub fn git_status(entries: Vec<StatusEntry>, branch: Option<String>) -> (status: GitStatus)
    ensures
        status@.staged == staged_paths(entry_views(entries@)),
        status@.modified == modified_paths(entry_views(entries@)),
        status@.untracked == untracked_paths(entry_views(entries@)),
        status@.branch == reported_branch(text_view(branch)),
{
    let mut modified: Vec<String> = Vec::new();
    let mut staged: Vec<String> = Vec::new();
    let mut untracked: Vec<String> = Vec::new();
    proof {
        let none = Seq::<EntryView>::empty();
        assert(entry_views(entries@.take(0)) =~= none);
        none.lemma_filter_len(
            |entry: EntryView| index_new(entry.status) || index_modified(entry.status),
        );
        none.lemma_filter_len(|entry: EntryView| wt_modified(entry.status));
        none.lemma_filter_len(|entry: EntryView| wt_new(entry.status));
        assert(text_views(staged@) =~= staged_paths(none));
        assert(text_views(modified@) =~= modified_paths(none));
        assert(text_views(untracked@) =~= untracked_paths(none));
    }
    for entry in it: entries
        invariant
            it.seq() == entries@,
            text_views(staged@) == staged_paths(entry_views(entries@.take(it.index()))),
            text_views(modified@) == modified_paths(entry_views(entries@.take(it.index()))),
            text_views(untracked@) == untracked_paths(entry_views(entries@.take(it.index()))),
    {
        proof {
            let seen = entries@.take(it.index());
            assert(entries@.take(it.index() + 1) =~= seen.push(entry));
            assert(entry_views(seen.push(entry)) =~= entry_views(seen).push(entry@));
            lemma_paths_push(entry_views(seen), entry@);
        }
        let path = match entry.path {
            Some(path) => path,
            None => String::new(),
        };
        if is_index_new(entry.status) || is_index_modified(entry.status) {
            proof {
                lemma_text_views_push(staged@, path);
            }
            staged.push(path.clone());
        }
        if is_wt_modified(entry.status) {
            proof {
                lemma_text_views_push(modified@, path);
            }
            modified.push(path.clone());
        }
        if is_wt_new(entry.status) {
            proof {
                lemma_text_views_push(untracked@, path);
            }
            untracked.push(path);
        }
    }
    proof {
        assert(entries@.take(entries@.len() as int) =~= entries@);
    }
    let branch = match branch {
        Some(name) => name,
        None => "main".to_string(),
    };
    GitStatus { modified, staged, untracked, branch }
}

/// The answer to a request to watch a project directory, given whether the
/// directory exists: a missing one is refused by name.
pub fn watch_project(path: String, exists: bool) -> (result: Result<(), String>)
    ensures
        exists ==> result is Ok,
        !exists ==> result is Err && result->Err_0@ == "Path does not exist: "@ + path@,
{
    if exists {
        Ok(())
    } else {
        Err("Path does not exist: ".to_string().concat(path.as_str()))
    }
}

impl NotificationRequest {
    /// The script that shows this notification where notifications go through
    /// a script interpreter: `display notification "<body>" with title "<title>"`.
    pub fn script(&self) -> (script: String)
        ensures
            script@ == "display notification \""@ + self.body@ + "\" with title \""@ + self.title@
                + "\""@,
    {
        "display notification \"".to_string().concat(self.body.as_str()).concat(
            "\" with title \"",
        ).concat(self.title.as_str()).concat("\"")
    }
}

} // verus!
