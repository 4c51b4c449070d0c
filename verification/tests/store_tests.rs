use mdls::document::{ContentChange, File, Files};

#[test]
fn open_then_get_returns_content() {
    let mut files = Files::new();
    files.add_file("file:///a.md".to_string(), File::new("# Title".to_string()));
    let got = files.get_file(&"file:///a.md".to_string()).expect("entry must be present");
    assert_eq!(got.content(), "# Title");
}

#[test]
fn open_overwrites_silently() {
    let mut files = Files::new();
    files.add_file("file:///a.md".to_string(), File::new("first".to_string()));
    files.add_file("file:///a.md".to_string(), File::new("second".to_string()));
    let got = files.get_file(&"file:///a.md".to_string()).expect("entry must be present");
    assert_eq!(got.content(), "second");
}

#[test]
fn update_replaces_wholesale() {
    let mut files = Files::new();
    files.add_file("file:///a.md".to_string(), File::new("old body".to_string()));
    let file = files.get_file_mut(&"file:///a.md".to_string());
    file.overwrite("new body".to_string());
    let got = files.get_file(&"file:///a.md".to_string()).expect("entry must be present");
    assert_eq!(got.content(), "new body");
}

#[test]
fn close_then_get_is_not_found() {
    let mut files = Files::new();
    files.add_file("file:///a.md".to_string(), File::new("text".to_string()));
    files.remove_file(&"file:///a.md".to_string());
    assert!(files.get_file(&"file:///a.md".to_string()).is_none());
}

#[test]
fn closing_twice_is_idempotent() {
    let mut files = Files::new();
    files.add_file("file:///a.md".to_string(), File::new("text".to_string()));
    files.add_file("file:///b.md".to_string(), File::new("other".to_string()));
    files.remove_file(&"file:///a.md".to_string());
    files.remove_file(&"file:///a.md".to_string());
    assert!(files.get_file(&"file:///a.md".to_string()).is_none());
    let got = files.get_file(&"file:///b.md".to_string()).expect("the other entry must stay");
    assert_eq!(got.content(), "other");
}

#[test]
fn close_of_unknown_uri_is_a_no_op() {
    let mut files = Files::new();
    files.add_file("file:///a.md".to_string(), File::new("text".to_string()));
    files.remove_file(&"file:///never-opened.md".to_string());
    let got = files.get_file(&"file:///a.md".to_string()).expect("entry must stay");
    assert_eq!(got.content(), "text");
}

#[test]
fn file_update_applies_last_edit_only() {
    let mut file = File::new("original".to_string());
    let changes = vec![
        ContentChange { text: "first".to_string() },
        ContentChange { text: "second".to_string() },
        ContentChange { text: "third".to_string() },
    ];
    file.update(changes);
    assert_eq!(file.content(), "third");
}

#[test]
fn distinct_uris_stay_independent() {
    let mut files = Files::new();
    files.add_file("file:///a.md".to_string(), File::new("alpha".to_string()));
    files.add_file("file:///b.md".to_string(), File::new("beta".to_string()));
    let file = files.get_file_mut(&"file:///a.md".to_string());
    file.overwrite("alpha two".to_string());
    assert_eq!(
        files.get_file(&"file:///a.md".to_string()).unwrap().content(),
        "alpha two"
    );
    assert_eq!(files.get_file(&"file:///b.md".to_string()).unwrap().content(), "beta");
}
