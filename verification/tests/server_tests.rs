use mdls::server::MarkdownLanguageServer;
use mdls::words::Position;
use mdls::ServerError;

#[test]
fn initialize_advertises_capabilities() {
    let mut server = MarkdownLanguageServer::new();
    let caps = server.initialize(true).expect("initialize must succeed");
    assert!(caps.full_document_sync);
    assert_eq!(caps.trigger_characters.len(), 1);
    assert_eq!(caps.trigger_characters[0], "[[");
}

#[test]
fn initialize_reports_failed_browser_launch() {
    let mut server = MarkdownLanguageServer::new();
    let got = server.initialize(false);
    assert!(matches!(got, Err(ServerError::InternalError)));
    // The preview stays disabled: an open pushes nothing.
    let push = server.did_open("file:///a.md".to_string(), "text".to_string());
    assert!(push.is_none());
}

#[test]
fn open_then_current_contents_match() {
    let mut server = MarkdownLanguageServer::new();
    server.did_open("file:///a.md".to_string(), "# hello".to_string());
    let file = server.get_current_file_contents().expect("active document must be readable");
    assert_eq!(file.content(), "# hello");
}

#[test]
fn change_replaces_and_returns_push() {
    let mut server = MarkdownLanguageServer::new();
    server.initialize(true).expect("initialize must succeed");
    server.did_open("file:///a.md".to_string(), "one".to_string());
    let changes = vec![
        mdls::document::ContentChange { text: "ignored".to_string() },
        mdls::document::ContentChange { text: "two".to_string() },
    ];
    let push = server
        .did_change("file:///a.md".to_string(), changes)
        .expect("change of an open document must succeed");
    assert_eq!(push.unwrap(), "two");
    let file = server.get_current_file_contents().unwrap();
    assert_eq!(file.content(), "two");
}

#[test]
fn change_of_unopened_uri_is_not_found() {
    let mut server = MarkdownLanguageServer::new();
    server.did_open("file:///a.md".to_string(), "kept".to_string());
    let changes = vec![mdls::document::ContentChange { text: "new".to_string() }];
    let got = server.did_change("file:///b.md".to_string(), changes);
    assert!(matches!(got, Err(ServerError::NotFound)));
    // The store is untouched: the open document still holds its text.
    let file = server.get_current_file_contents().unwrap();
    assert_eq!(file.content(), "kept");
}

#[test]
fn close_makes_pointer_stale() {
    let mut server = MarkdownLanguageServer::new();
    server.did_open("file:///a.md".to_string(), "text".to_string());
    server.did_close(&"file:///a.md".to_string());
    // The pointer still names the closed document; reading finds nothing.
    assert!(server.get_current_file_contents().is_none());
}

#[test]
fn pushes_follow_changes_in_order() {
    let mut server = MarkdownLanguageServer::new();
    server.initialize(true).expect("initialize must succeed");
    let opened = server.did_open("file:///a.md".to_string(), "v0".to_string());
    assert_eq!(opened.unwrap(), "v0");
    let texts = ["v1", "v2", "v3"];
    for text in texts {
        let changes = vec![mdls::document::ContentChange { text: text.to_string() }];
        let push = server
            .did_change("file:///a.md".to_string(), changes)
            .expect("change of an open document must succeed");
        assert_eq!(push.unwrap(), text);
    }
}

#[test]
fn open_without_started_preview_pushes_nothing() {
    let mut server = MarkdownLanguageServer::new();
    let push = server.did_open("file:///a.md".to_string(), "text".to_string());
    assert!(push.is_none());
}

#[test]
fn completion_triggers_on_open_wiki_link() {
    let mut server = MarkdownLanguageServer::new();
    server.did_open("file:///notes/doc.md".to_string(), "[[foo".to_string());
    let got = server
        .completion(&"file:///notes/doc.md".to_string(), Position { line: 0, character: 5 })
        .expect("completion must succeed");
    assert_eq!(got.unwrap(), "file:///notes");
}

#[test]
fn completion_ignores_closed_wiki_link() {
    let mut server = MarkdownLanguageServer::new();
    server.did_open("file:///notes/doc.md".to_string(), "[[foo]]".to_string());
    let got = server
        .completion(&"file:///notes/doc.md".to_string(), Position { line: 0, character: 7 })
        .expect("completion must succeed");
    assert!(got.is_none());
}

#[test]
fn completion_ignores_plain_word() {
    let mut server = MarkdownLanguageServer::new();
    server.did_open("file:///notes/doc.md".to_string(), "plain".to_string());
    let got = server
        .completion(&"file:///notes/doc.md".to_string(), Position { line: 0, character: 5 })
        .expect("completion must succeed");
    assert!(got.is_none());
}

#[test]
fn completion_for_unknown_document_is_not_found() {
    let server = MarkdownLanguageServer::new();
    let got = server.completion(
        &"file:///nowhere.md".to_string(),
        Position { line: 0, character: 0 },
    );
    assert!(matches!(got, Err(ServerError::NotFound)));
}

#[test]
fn completion_outside_document_is_invalid_position() {
    let mut server = MarkdownLanguageServer::new();
    server.did_open("file:///notes/doc.md".to_string(), "[[foo".to_string());
    let got = server.completion(
        &"file:///notes/doc.md".to_string(),
        Position { line: 3, character: 0 },
    );
    assert!(matches!(got, Err(ServerError::InvalidPosition)));
    let got = server.completion(
        &"file:///notes/doc.md".to_string(),
        Position { line: 0, character: 99 },
    );
    assert!(matches!(got, Err(ServerError::InvalidPosition)));
}

#[test]
fn completion_without_parent_is_internal_error() {
    let mut server = MarkdownLanguageServer::new();
    server.did_open("no-slashes".to_string(), "[[foo".to_string());
    let got = server.completion(&"no-slashes".to_string(), Position { line: 0, character: 5 });
    assert!(matches!(got, Err(ServerError::InternalError)));
}

#[test]
fn goto_definition_is_unimplemented() {
    let server = MarkdownLanguageServer::new();
    let got = server.goto_definition();
    assert!(matches!(got, Err(ServerError::Unimplemented)));
}

#[test]
fn shutdown_succeeds() {
    let server = MarkdownLanguageServer::new();
    assert!(server.shutdown().is_ok());
}
