use mdls::words::{get_current_word, Position};

#[test]
fn get_current_word_works() {
    let doc = "this is a sentence\nThis is another line. Here is a word.";
    let position = Position { line: 0, character: 1 };
    let curr_word = get_current_word(doc, position).expect("Getting current word returned None");
    assert_eq!(curr_word, "t");

    let position = Position { line: 1, character: 8 };
    let curr_word = get_current_word(doc, position).expect("Getting current word returned None");
    assert_eq!(curr_word, "");

    let position = Position { line: 0, character: 0 };
    let curr_word = get_current_word(doc, position).unwrap();
    assert_eq!(curr_word, "");
}

#[test]
fn main_get_current_word_works() {
    let doc = "this is a sentence\nThis is another line. Here is a word.";
    let position = Position { line: 0, character: 1 };
    let curr_word = get_current_word(doc, position).expect("Getting current word returned None");
    assert_eq!(curr_word, "t");

    let position = Position { line: 1, character: 8 };
    let curr_word = get_current_word(doc, position).expect("Getting current word returned None");
    assert_eq!(curr_word, "");

    let position = Position { line: 0, character: 0 };
    let curr_word = get_current_word(doc, position).unwrap();
    assert_eq!(curr_word, "");
}

#[test]
fn whole_word_before_cursor() {
    let doc = "this is a sentence";
    let position = Position { line: 0, character: 4 };
    assert_eq!(get_current_word(doc, position).unwrap(), "this");

    let position = Position { line: 0, character: 7 };
    assert_eq!(get_current_word(doc, position).unwrap(), "is");
}

#[test]
fn word_on_later_line() {
    let doc = "first line\nsecond line here";
    let position = Position { line: 1, character: 6 };
    assert_eq!(get_current_word(doc, position).unwrap(), "second");
}

#[test]
fn line_out_of_range_is_none() {
    let doc = "only one line";
    let position = Position { line: 1, character: 0 };
    assert!(get_current_word(doc, position).is_none());

    let position = Position { line: 7, character: 0 };
    assert!(get_current_word(doc, position).is_none());
}

#[test]
fn character_past_line_end_is_none() {
    let doc = "short\nlonger line";
    let position = Position { line: 0, character: 6 };
    assert!(get_current_word(doc, position).is_none());
}

#[test]
fn empty_document_has_no_lines() {
    let position = Position { line: 0, character: 0 };
    assert!(get_current_word("", position).is_none());
}

#[test]
fn cursor_at_line_end_takes_last_word() {
    let doc = "ab cd";
    let position = Position { line: 0, character: 5 };
    assert_eq!(get_current_word(doc, position).unwrap(), "cd");
}

#[test]
fn carriage_return_line_endings_are_stripped() {
    let doc = "one\r\ntwo";
    let position = Position { line: 0, character: 3 };
    assert_eq!(get_current_word(doc, position).unwrap(), "one");
    let position = Position { line: 0, character: 4 };
    assert!(get_current_word(doc, position).is_none());
    let position = Position { line: 1, character: 3 };
    assert_eq!(get_current_word(doc, position).unwrap(), "two");
}

#[test]
fn trailing_newline_opens_no_extra_line() {
    let doc = "abc\n";
    let position = Position { line: 1, character: 0 };
    assert!(get_current_word(doc, position).is_none());
}
