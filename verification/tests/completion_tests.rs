use mdls::completion::{
    completion_context, completion_list_for, word_triggers_completion, CompletionKind,
};
use mdls::document::{File, Files};
use mdls::paths::{is_markdown_file, parent_dir, relative_label};
use mdls::preview::{PreviewBridge, PreviewError};
use mdls::order::sort_labels;
use mdls::words::Position;
use mdls::ServerError;

#[test]
fn trigger_requires_open_unclosed_link() {
    assert!(word_triggers_completion("[[foo"));
    assert!(word_triggers_completion("[["));
    assert!(!word_triggers_completion("[[foo]]"));
    assert!(!word_triggers_completion("plain"));
    assert!(!word_triggers_completion("["));
    assert!(!word_triggers_completion(""));
}

#[test]
fn completion_without_active_document_is_internal_error() {
    let mut files = Files::new();
    files.add_file("file:///notes/doc.md".to_string(), File::new("[[foo".to_string()));
    let got = completion_context(
        &files,
        &None,
        &"file:///notes/doc.md".to_string(),
        Position { line: 0, character: 5 },
    );
    assert!(matches!(got, Err(ServerError::InternalError)));
}

#[test]
fn completion_list_holds_every_markdown_file() {
    let root = "/notes".to_string();
    let paths = vec![
        "/notes/sub/b.md".to_string(),
        "/notes/a.md".to_string(),
        "/notes/c.txt".to_string(),
        "/notes/sub".to_string(),
    ];
    let list = completion_list_for(&root, &paths);
    assert!(!list.is_incomplete);
    let labels: Vec<&str> = list.items.iter().map(|it| it.label.as_str()).collect();
    assert_eq!(labels, vec!["a.md", "sub/b.md"]);
    for item in &list.items {
        assert_eq!(item.kind, CompletionKind::File);
    }
}

#[test]
fn completion_list_from_root_directory() {
    let root = "/".to_string();
    let paths = vec!["/b.md".to_string(), "/a.md".to_string()];
    let list = completion_list_for(&root, &paths);
    let labels: Vec<&str> = list.items.iter().map(|it| it.label.as_str()).collect();
    assert_eq!(labels, vec!["a.md", "b.md"]);
}

#[test]
fn completion_list_skips_paths_outside_root() {
    let root = "/notes".to_string();
    let paths = vec!["/elsewhere/x.md".to_string(), "/notes/y.md".to_string()];
    let list = completion_list_for(&root, &paths);
    let labels: Vec<&str> = list.items.iter().map(|it| it.label.as_str()).collect();
    assert_eq!(labels, vec!["y.md"]);
}

#[test]
fn parent_dir_cases() {
    assert_eq!(parent_dir("/a/b/c.md").unwrap(), "/a/b");
    assert_eq!(parent_dir("/a.md").unwrap(), "/");
    assert!(parent_dir("a.md").is_none());
    assert!(parent_dir("/").is_none());
    assert!(parent_dir("").is_none());
}

#[test]
fn markdown_extension_cases() {
    assert!(is_markdown_file("a.md"));
    assert!(is_markdown_file("dir/b.md"));
    assert!(is_markdown_file("a.tar.md"));
    assert!(!is_markdown_file(".md"));
    assert!(!is_markdown_file("dir/.md"));
    assert!(!is_markdown_file("a.txt"));
    assert!(!is_markdown_file("md"));
    assert!(!is_markdown_file("a.MD"));
}

#[test]
fn relative_label_cases() {
    assert_eq!(relative_label("/notes", "/notes/a.md").unwrap(), "a.md");
    assert_eq!(relative_label("/notes", "/notes/sub/b.md").unwrap(), "sub/b.md");
    assert_eq!(relative_label("/", "/a.md").unwrap(), "a.md");
    assert!(relative_label("/notes", "/other/a.md").is_none());
    assert!(relative_label("/notes", "/notes").is_none());
    assert!(relative_label("/notes", "/notesx/a.md").is_none());
}

#[test]
fn sort_orders_lexicographically() {
    let labels = vec![
        "z.md".to_string(),
        "a/b.md".to_string(),
        "a.md".to_string(),
        "a/a.md".to_string(),
    ];
    let sorted = sort_labels(labels);
    let got: Vec<&str> = sorted.iter().map(|s| s.as_str()).collect();
    assert_eq!(got, vec!["a.md", "a/a.md", "a/b.md", "z.md"]);
}

#[test]
fn preview_push_needs_running_transport() {
    let mut bridge = PreviewBridge::new();
    let got = bridge.push(&"text".to_string());
    assert!(matches!(got, Err(PreviewError::Push)));
    let got = bridge.start(false);
    assert!(matches!(got, Err(PreviewError::RenderStart)));
    let got = bridge.push(&"text".to_string());
    assert!(matches!(got, Err(PreviewError::Push)));
    bridge.start(true).expect("start with a ready transport must succeed");
    bridge.push(&"text".to_string()).expect("push on a running transport must succeed");
}
