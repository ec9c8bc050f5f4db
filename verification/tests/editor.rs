use paladin_core::action::{Action, Mode};
use paladin_core::buffer::SimpleBuffer;
use paladin_core::cursor::{Cursor, CursorWithCharacter};
use paladin_core::edit::Edit;
use paladin_core::editor::{action, asks_for_server, ends_with_bytes, Buffer};
use paladin_core::lsp::LspRequestData;
use paladin_core::view::{ButtonMessage, OneOf, OneOfSwizz, Reducer};

fn document(path: &str, text: &str) -> Buffer {
    Buffer::create(SimpleBuffer::open(path.to_string(), text), true)
}

fn at(line: usize, byte: usize, character: usize) -> CursorWithCharacter {
    Cursor::from_line_byte(line, byte).with_character(character)
}

#[test]
fn rust_files_get_a_language_server() {
    assert!(document("src/main.rs", "").has_server());
    assert!(document("a.b.rs", "").has_server());
    for path in ["notes.rst", "a.rs.bak", "my.rs/readme.txt", "notes.txt", "rs", "", "main.RS"] {
        assert!(!document(path, "").has_server(), "{:?}", path);
        assert!(!asks_for_server(path), "{:?}", path);
    }
    assert!(asks_for_server("src/main.rs"));
}

#[test]
fn a_server_that_did_not_start_gets_nothing() {
    let buffer = SimpleBuffer::open("src/main.rs".to_string(), "ab\ncd");
    let mut document = Buffer::create(buffer, false);
    assert!(!document.has_server());
    assert_eq!(document.text(), "ab\ncd");
    assert_eq!((document.cursor().line, document.cursor().byte), (0, 0));
    assert!(document.has_tree());
    assert!(action(&mut document, Action::Hover).is_none());
    assert!(action(&mut document, Action::Complete).is_none());
    assert!(action(&mut document, Action::NewLine).is_none());
    assert_eq!(document.text(), "\nab\ncd");
}

#[test]
fn bytes_are_found_at_the_end() {
    assert!(ends_with_bytes(b"src/main.rs", b".rs"));
    assert!(ends_with_bytes(b".rs", b".rs"));
    assert!(ends_with_bytes(b"abc", b""));
    assert!(ends_with_bytes(b"", b""));
    assert!(!ends_with_bytes(b"", b".rs"));
    assert!(!ends_with_bytes(b"rs", b".rs"));
    assert!(!ends_with_bytes(b"a.rs.bak", b".rs"));
    assert!(!ends_with_bytes(b"a.rst", b".rs"));
    assert!(!ends_with_bytes(b"a.rx", b".rs"));
}

#[test]
fn a_document_has_a_syntax_tree() {
    let document = document("a.rs", "fn main() {}\n");
    assert!(document.has_tree());
    assert_eq!(document.text(), "fn main() {}\n");
    assert_eq!(document.line_len(), 2);
    assert_eq!(document.line(0), "fn main() {}");
}

#[test]
fn directions_move_the_cursor_and_send_nothing() {
    let mut document = document("a.rs", "ab\ncd");
    assert!(action(&mut document, Action::Right).is_none());
    assert_eq!((document.cursor().line, document.cursor().byte), (0, 1));
    assert!(action(&mut document, Action::Down).is_none());
    assert_eq!((document.cursor().line, document.cursor().byte), (1, 1));
    assert!(action(&mut document, Action::Left).is_none());
    assert_eq!((document.cursor().line, document.cursor().byte), (1, 0));
    assert!(action(&mut document, Action::Up).is_none());
    assert_eq!((document.cursor().line, document.cursor().byte), (0, 0));
    assert_eq!(document.text(), "ab\ncd");
}

#[test]
fn a_new_line_changes_the_text_and_tells_the_server() {
    let mut document = document("a.rs", "ab\ncd");
    action(&mut document, Action::Right);
    action(&mut document, Action::Right);
    let notice = action(&mut document, Action::NewLine).expect("a notice for the server");
    assert_eq!(document.text(), "ab\n\ncd");
    assert_eq!((document.cursor().line, document.cursor().byte), (1, 0));
    assert_eq!(notice.file, "a.rs");
    match notice.data {
        LspRequestData::DidChange { edit } => {
            assert_eq!((edit.range.start.line, edit.range.start.character), (0, 2));
            assert_eq!((edit.range.end.line, edit.range.end.character), (0, 2));
            assert_eq!(edit.text, "\n");
        }
        other => panic!("a change was expected: {:?}", other),
    }
    assert!(document.has_tree());
}

#[test]
fn backspace_changes_the_text_and_tells_the_server() {
    let mut document = document("a.rs", "ab\ncd");
    action(&mut document, Action::Down);
    let notice = action(&mut document, Action::Back).expect("a notice for the server");
    assert_eq!(document.text(), "abcd");
    assert_eq!((document.cursor().line, document.cursor().byte), (0, 2));
    match notice.data {
        LspRequestData::DidChange { edit } => {
            assert_eq!((edit.range.start.line, edit.range.start.character), (0, 2));
            assert_eq!((edit.range.end.line, edit.range.end.character), (1, 0));
            assert_eq!(edit.text, "");
        }
        other => panic!("a change was expected: {:?}", other),
    }
    assert!(document.has_tree());
}

#[test]
fn backspace_at_the_start_sends_nothing() {
    let mut document = document("a.rs", "ab");
    assert!(action(&mut document, Action::Back).is_none());
    assert_eq!(document.text(), "ab");
}

#[test]
fn hover_and_completion_send_the_position_in_characters() {
    let mut document = document("a.rs", "x\n€b");
    action(&mut document, Action::Down);
    action(&mut document, Action::Right);
    assert_eq!((document.cursor().line, document.cursor().byte), (1, 3));
    assert_eq!(document.line_current_char_idx(), 1);
    match action(&mut document, Action::Hover).expect("a request").data {
        LspRequestData::Hover { line, character } => assert_eq!((line, character), (1, 1)),
        other => panic!("hover was expected: {:?}", other),
    }
    match action(&mut document, Action::Complete).expect("a request").data {
        LspRequestData::Completion { line, character } => assert_eq!((line, character), (1, 1)),
        other => panic!("completion was expected: {:?}", other),
    }
    assert_eq!(document.text(), "x\n€b");
}

#[test]
fn without_a_server_nothing_is_sent() {
    let mut document = document("notes.txt", "ab");
    assert!(action(&mut document, Action::Hover).is_none());
    assert!(action(&mut document, Action::Complete).is_none());
    assert!(action(&mut document, Action::NewLine).is_none());
    assert_eq!(document.text(), "\nab");
    assert!(action(&mut document, Action::Back).is_none());
    assert_eq!(document.text(), "ab");
    let change = document.insert("x");
    assert!(change.notice.is_none());
    assert_eq!(document.text(), "xab");
}

#[test]
fn typing_gives_the_edit_and_the_notice() {
    let mut document = document("a.rs", "ab");
    let change = document.insert("é\n");
    match change.edit {
        Edit::Insert { start_byte, new_end_byte, new_end, .. } => {
            assert_eq!((start_byte, new_end_byte), (0, 3));
            assert_eq!((new_end.line, new_end.byte), (1, 0));
        }
        Edit::Delete { .. } => panic!("an insertion was expected"),
    }
    match change.notice.expect("a notice").data {
        LspRequestData::DidChange { edit } => assert_eq!(edit.text, "é\n"),
        other => panic!("a change was expected: {:?}", other),
    }
    let change = document.back().expect("a change");
    assert_eq!(change.edit.to_ts().old_end_byte, 3);
    assert!(document.back().is_some());
    assert!(document.back().is_none());
    assert_eq!(document.text(), "ab");
}

#[test]
fn mode_switches_are_not_supported() {
    assert!(!Action::InsertMode.is_supported());
    assert!(!Action::NormalMode.is_supported());
    for supported in [
        Action::Up,
        Action::Down,
        Action::Left,
        Action::Right,
        Action::Back,
        Action::NewLine,
        Action::Hover,
        Action::Complete,
    ] {
        assert!(supported.is_supported());
    }
}

#[test]
fn modes_have_labels() {
    assert_eq!(Mode::Normal.label(), "Normal");
    assert_eq!(Mode::Insert.label(), "Debug");
}

#[test]
fn an_insertion_consumes_nothing_of_the_old_tree() {
    let edit = Edit::Insert { start: at(1, 2, 2), start_byte: 5, new_end: at(2, 0, 0), new_end_byte: 9 };
    let told = edit.to_ts();
    assert_eq!((told.start_byte, told.old_end_byte, told.new_end_byte), (5, 5, 9));
    assert_eq!((told.start_position.row, told.start_position.column), (1, 2));
    assert_eq!(told.old_end_position, told.start_position);
    assert_eq!((told.new_end_position.row, told.new_end_position.column), (2, 0));
}

#[test]
fn a_deletion_falls_back_onto_its_start() {
    let edit = Edit::Delete { from: at(0, 2, 2), from_byte: 2, to: at(1, 0, 0), to_byte: 3 };
    let told = edit.to_ts();
    assert_eq!((told.start_byte, told.old_end_byte, told.new_end_byte), (2, 3, 2));
    assert_eq!((told.start_position.row, told.start_position.column), (0, 2));
    assert_eq!((told.old_end_position.row, told.old_end_position.column), (1, 0));
    assert_eq!(told.new_end_position, told.start_position);
}

#[test]
fn either_side_of_one_of() {
    let left: OneOf<u8, &str> = 7u8.left();
    let right: OneOf<&str, u8> = 7u8.right();
    assert!(matches!(left, OneOf::A(7)));
    assert!(matches!(right, OneOf::B(7)));
}

struct Counter(u32);

impl Reducer<ButtonMessage> for Counter {
    fn reduce(&mut self, message: ButtonMessage) {
        match message {
            ButtonMessage::Clicked(_, _) => self.0 += 1,
        }
    }
}

#[test]
fn a_reducer_takes_messages() {
    let mut counter = Counter(0);
    counter.reduce(ButtonMessage::Clicked(1, 2));
    counter.reduce(ButtonMessage::Clicked(3, 4));
    assert_eq!(counter.0, 2);
    ().reduce(());
}
