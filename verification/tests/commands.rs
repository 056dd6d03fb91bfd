use nova_sync::commands::git_status;
use nova_sync::commands::watch_project;
use nova_sync::commands::FileContent;
use nova_sync::commands::GitCommitRequest;
use nova_sync::commands::GitStatus;
use nova_sync::commands::NotificationRequest;
use nova_sync::commands::OllamaStatus;
use nova_sync::commands::StatusEntry;

use git2::Status;

fn entry(path: &str, status: Status) -> StatusEntry {
    StatusEntry { path: Some(path.to_string()), status: status.bits() }
}

#[test]
fn test_git_status_structure() {
    let status = GitStatus {
        modified: vec!["file1.rs".to_string()],
        staged: vec!["file2.rs".to_string()],
        untracked: vec!["file3.rs".to_string()],
        branch: "main".to_string(),
    };

    assert_eq!(status.branch, "main");
    assert_eq!(status.modified.len(), 1);
}

#[test]
fn test_ollama_status_structure() {
    let status = OllamaStatus {
        running: true,
        port: 11434,
        version: Some("0.1.0".to_string()),
        models: vec!["llama2".to_string()],
    };

    assert!(status.running);
    assert_eq!(status.port, 11434);
}

#[test]
fn request_types_hold_what_they_are_given() {
    let file = FileContent { path: "/p/a.txt".to_string(), content: "hello".to_string() };
    assert_eq!(file.path, "/p/a.txt");
    assert_eq!(file.content, "hello");
    let commit = GitCommitRequest { message: "first".to_string(), files: vec!["a".to_string(), "b".to_string()] };
    assert_eq!(commit.message, "first");
    assert_eq!(commit.files, vec!["a", "b"]);
}

#[test]
fn status_entries_are_sorted_into_lists_in_order() {
    let entries = vec![
        entry("new-in-index", Status::INDEX_NEW),
        entry("edited", Status::WT_MODIFIED),
        entry("fresh", Status::WT_NEW),
        entry("staged-edit", Status::INDEX_MODIFIED),
        entry("clean", Status::CURRENT),
        entry("staged-and-edited", Status::INDEX_MODIFIED | Status::WT_MODIFIED),
        entry(
            "everything",
            Status::INDEX_NEW | Status::INDEX_MODIFIED | Status::WT_MODIFIED | Status::WT_NEW,
        ),
    ];
    let status = git_status(entries, Some("feature/x".to_string()));
    assert_eq!(status.staged, vec!["new-in-index", "staged-edit", "staged-and-edited", "everything"]);
    assert_eq!(status.modified, vec!["edited", "staged-and-edited", "everything"]);
    assert_eq!(status.untracked, vec!["fresh", "everything"]);
    assert_eq!(status.branch, "feature/x");
}

#[test]
fn status_without_branch_or_path_uses_defaults() {
    let nameless = StatusEntry { path: None, status: Status::WT_MODIFIED.bits() };
    let status = git_status(vec![nameless], None);
    assert_eq!(status.branch, "main");
    assert_eq!(status.modified, vec![""]);
    assert!(status.staged.is_empty());
    assert!(status.untracked.is_empty());
    let empty = git_status(Vec::new(), None);
    assert!(empty.modified.is_empty());
    assert!(empty.staged.is_empty());
    assert!(empty.untracked.is_empty());
    assert_eq!(empty.branch, "main");
}

#[test]
fn other_status_flags_put_an_entry_in_no_list() {
    let entries = vec![
        entry("gone-from-index", Status::INDEX_DELETED),
        entry("renamed-in-index", Status::INDEX_RENAMED),
        entry("retyped-in-index", Status::INDEX_TYPECHANGE),
        entry("gone", Status::WT_DELETED),
        entry("retyped", Status::WT_TYPECHANGE),
        entry("renamed", Status::WT_RENAMED),
        entry("ignored", Status::IGNORED),
        entry("conflicted", Status::CONFLICTED),
    ];
    let status = git_status(entries, None);
    assert!(status.staged.is_empty());
    assert!(status.modified.is_empty());
    assert!(status.untracked.is_empty());
    // A flag that counts is found among others that do not.
    let mixed = vec![
        entry("a", Status::INDEX_DELETED | Status::INDEX_NEW),
        entry("b", Status::IGNORED | Status::WT_NEW),
        entry("c", Status::CONFLICTED | Status::WT_MODIFIED | Status::WT_DELETED),
        entry("d", Status::INDEX_RENAMED | Status::INDEX_MODIFIED),
    ];
    let status = git_status(mixed, None);
    assert_eq!(status.staged, vec!["a", "d"]);
    assert_eq!(status.untracked, vec!["b"]);
    assert_eq!(status.modified, vec!["c"]);
}

#[test]
fn status_bits_are_those_of_the_repository_library() {
    let raw = |bits: u32| git_status(vec![StatusEntry { path: Some("p".to_string()), status: bits }], None);
    assert_eq!(raw(1).staged, vec!["p"]);
    assert_eq!(raw(2).staged, vec!["p"]);
    assert_eq!(raw(3).staged, vec!["p"]);
    assert_eq!(raw(128).untracked, vec!["p"]);
    assert_eq!(raw(256).modified, vec!["p"]);
    assert!(raw(128).staged.is_empty() && raw(128).modified.is_empty());
    assert!(raw(256).staged.is_empty() && raw(256).untracked.is_empty());
    assert!(raw(1).modified.is_empty() && raw(1).untracked.is_empty());
    let all_others = git_status(
        vec![StatusEntry { path: Some("p".to_string()), status: !(1 | 2 | 128 | 256) }],
        None,
    );
    assert!(all_others.staged.is_empty());
    assert!(all_others.modified.is_empty());
    assert!(all_others.untracked.is_empty());
    let all = raw(u32::MAX);
    assert_eq!(all.staged, vec!["p"]);
    assert_eq!(all.modified, vec!["p"]);
    assert_eq!(all.untracked, vec!["p"]);
}

#[test]
fn missing_project_directory_is_refused_by_name() {
    assert_eq!(watch_project("/projects/nova".to_string(), true), Ok(()));
    assert_eq!(
        watch_project("/projects/gone".to_string(), false),
        Err("Path does not exist: /projects/gone".to_string())
    );
    assert_eq!(watch_project(String::new(), false), Err("Path does not exist: ".to_string()));
}

#[test]
fn notification_script_quotes_body_then_title() {
    let request = NotificationRequest { title: "Sync".to_string(), body: "3 items delivered".to_string() };
    assert_eq!(request.script(), "display notification \"3 items delivered\" with title \"Sync\"");
    let bare = NotificationRequest { title: String::new(), body: String::new() };
    assert_eq!(bare.script(), "display notification \"\" with title \"\"");
}
