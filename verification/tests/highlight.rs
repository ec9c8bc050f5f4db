use paladin_core::buffer::SimpleBuffer;
use paladin_core::editor::Buffer;
use paladin_core::highlight::{clamp, color_of, Capture, LineHighlights, LineSpan};
use paladin_core::ts::{chunk_at, range_text, tree, Color};

fn names() -> Vec<String> {
    vec!["keyword".to_string(), "string".to_string(), "made.up".to_string()]
}

fn capture(start_byte: usize, end_byte: usize, index: u32) -> Capture {
    Capture { start_byte, end_byte, index }
}

fn span(color: Color, start: usize, end: usize) -> LineSpan {
    LineSpan { color, start, end }
}

const KEYWORD: Color = Color { r: 204, g: 139, b: 96, a: 255 };
const STRING: Color = Color { r: 149, g: 175, b: 97, a: 255 };
const FALLBACK: Color = Color { r: 255, g: 0, b: 0, a: 255 };

#[test]
fn names_have_their_colours() {
    assert_eq!(color_of("keyword"), Some(KEYWORD));
    assert_eq!(color_of("string"), Some(STRING));
    assert_eq!(color_of("constructor"), Some(Color::rgb(60, 69, 112)));
    assert_eq!(color_of("function"), Some(Color::rgb(234, 184, 120)));
    assert_eq!(color_of("function.method"), Some(Color::rgb(234, 184, 120)));
    assert_eq!(color_of("function.macro"), Some(Color::rgb(234, 184, 120)));
    assert_eq!(color_of("punctuation.delimiter"), Some(Color::rgb(204, 139, 96)));
    assert_eq!(color_of("punctuation.bracket"), Some(Color::rgb(255, 255, 255)));
    assert_eq!(color_of("type"), Some(Color::rgb(60, 69, 112)));
    assert_eq!(color_of("type.builtin"), Some(Color::rgb(60, 69, 112)));
    assert_eq!(color_of("property"), Some(Color::rgb(130, 130, 200)));
    assert_eq!(color_of("operator"), Some(Color::rgb(204, 139, 96)));
    assert_eq!(color_of("variable.builtin"), Some(Color::rgb(60, 69, 112)));
    assert_eq!(color_of("variable.parameter"), Some(Color::rgb(60, 69, 112)));
    assert_eq!(color_of("comment"), Some(Color::rgb(128, 128, 128)));
    assert_eq!(color_of("constant.builtin"), Some(Color::rgb(212, 252, 182)));
    assert_eq!(color_of("escape"), Some(Color::rgb(113, 10, 250)));
    assert_eq!(color_of("attribute"), Some(Color::rgb(219, 211, 186)));
    assert_eq!(color_of("label"), Some(Color::rgb(134, 173, 199)));
    assert_eq!(color_of("made.up"), None);
    assert_eq!(color_of(""), None);
}

#[test]
fn colours_are_opaque_unless_told_otherwise() {
    assert_eq!(Color::rgb(1, 2, 3), Color { r: 1, g: 2, b: 3, a: 255 });
    assert_eq!(Color::rgba(1, 2, 3, 4), Color { r: 1, g: 2, b: 3, a: 4 });
}

#[test]
fn captures_on_one_line_come_as_ranges_of_that_line() {
    let source = crop::Rope::from("let a = \"b\";\nlet c;\n");
    let captures = vec![capture(0, 3, 0), capture(8, 11, 1), capture(13, 16, 0)];
    let mut lines = LineHighlights::new(&source, captures, names(), 10);
    assert_eq!(lines.current(), 0);
    let first = lines.next_line().expect("the first line");
    assert_eq!(first.line, 0);
    assert_eq!(first.spans, vec![span(KEYWORD, 0, 3), span(STRING, 8, 11)]);
    assert_eq!(lines.current(), 1);
    let second = lines.next_line().expect("the second line");
    assert_eq!(second.line, 1);
    assert_eq!(second.spans, vec![span(KEYWORD, 0, 3)]);
    second.consume();
    assert!(lines.next_line().is_none());
    assert!(lines.next_line().is_none());
    assert_eq!(lines.current(), 2);
}

#[test]
fn a_capture_over_several_lines_is_split() {
    let source = crop::Rope::from("a \"one\ntwo\nthree\" b");
    let captures = vec![capture(0, 1, 0), capture(2, 17, 1), capture(18, 19, 0)];
    let mut lines = LineHighlights::new(&source, captures, names(), 10);
    assert_eq!(
        lines.next_line().expect("line 0").spans,
        vec![span(KEYWORD, 0, 1), span(STRING, 2, 6)]
    );
    assert_eq!(lines.next_line().expect("line 1").spans, vec![span(STRING, 0, 3)]);
    assert_eq!(
        lines.next_line().expect("line 2").spans,
        vec![span(STRING, 0, 6), span(KEYWORD, 7, 8)]
    );
    assert!(lines.next_line().is_none());
}

#[test]
fn a_line_without_captures_has_no_ranges() {
    let source = crop::Rope::from("a\n\n\nb");
    let captures = vec![capture(0, 1, 0), capture(4, 5, 0)];
    let mut lines = LineHighlights::new(&source, captures, names(), 10);
    assert_eq!(lines.next_line().expect("line 0").spans, vec![span(KEYWORD, 0, 1)]);
    assert_eq!(lines.next_line().expect("line 1").spans, vec![]);
    assert_eq!(lines.next_line().expect("line 2").spans, vec![]);
    assert_eq!(lines.next_line().expect("line 3").spans, vec![span(KEYWORD, 0, 1)]);
    assert!(lines.next_line().is_none());
}

#[test]
fn unknown_names_get_the_fallback_colour() {
    let source = crop::Rope::from("abc def\nghi");
    let captures = vec![capture(0, 3, 2), capture(4, 7, 99), capture(8, 11, 2)];
    let mut lines = LineHighlights::new(&source, captures, names(), 10);
    assert_eq!(
        lines.next_line().expect("line 0").spans,
        vec![span(FALLBACK, 0, 3), span(FALLBACK, 4, 7)]
    );
    assert_eq!(lines.next_line().expect("line 1").spans, vec![span(FALLBACK, 0, 3)]);
}

#[test]
fn the_projector_begins_on_the_line_of_the_first_capture() {
    let source = crop::Rope::from("a\nb\nc\nd");
    let mut lines = LineHighlights::new(&source, vec![capture(4, 5, 0)], names(), 10);
    assert_eq!(lines.current(), 2);
    let line = lines.next_line().expect("line 2");
    assert_eq!((line.line, line.spans), (2, vec![span(KEYWORD, 0, 1)]));
    assert!(lines.next_line().is_none());
    let mut none = LineHighlights::new(&source, vec![], names(), 10);
    assert_eq!(none.current(), 0);
    assert!(none.next_line().is_none());
}

#[test]
fn the_projector_stops_at_the_end_of_its_window() {
    let source = crop::Rope::from("/*\n\n\n\n\n*/");
    let mut lines = LineHighlights::new(&source, vec![capture(0, 8, 0)], names(), 2);
    assert_eq!(lines.next_line().expect("line 0").spans, vec![span(KEYWORD, 0, 2)]);
    assert_eq!(lines.next_line().expect("line 1").spans, vec![span(KEYWORD, 0, 0)]);
    assert_eq!(lines.next_line().expect("line 2").spans, vec![span(KEYWORD, 0, 0)]);
    assert!(lines.next_line().is_none());
    assert_eq!(lines.current(), 3);
}

#[test]
fn captures_outside_the_text_are_left_out() {
    let source = crop::Rope::from("abc");
    let captures = vec![capture(2, 1, 0), capture(1, 9, 0), capture(7, 9, 0), capture(1, 2, 0)];
    let mut lines = LineHighlights::new(&source, captures, names(), 10);
    assert_eq!(lines.current(), 0);
    assert_eq!(lines.next_line().expect("line 0").spans, vec![span(KEYWORD, 1, 2)]);
    assert!(lines.next_line().is_none());
}

#[test]
fn captures_that_cut_a_character_are_left_out() {
    let source = crop::Rope::from("a€b\n€");
    let captures = vec![capture(2, 4, 0), capture(0, 3, 0), capture(8, 5, 0), capture(0, 1, 0)];
    let mut lines = LineHighlights::new(&source, captures, names(), 10);
    assert_eq!(lines.current(), 0);
    assert_eq!(lines.next_line().expect("line 0").spans, vec![span(KEYWORD, 0, 1)]);
    assert!(lines.next_line().is_none());
    let mut first = LineHighlights::new(&source, vec![capture(7, 9, 0)], names(), 10);
    assert_eq!(first.current(), 0);
    assert!(first.next_line().is_none());
}

#[test]
fn ranges_end_with_the_content_of_the_line() {
    let source = crop::Rope::from("// a\r\nb");
    let mut lines = LineHighlights::new(&source, vec![capture(0, 6, 0)], names(), 10);
    assert_eq!(lines.next_line().expect("line 0").spans, vec![span(KEYWORD, 0, 4)]);
    assert_eq!(lines.next_line().expect("line 1").spans, vec![span(KEYWORD, 0, 0)]);
    assert!(lines.next_line().is_none());
}

#[test]
fn values_are_clamped_into_their_bounds() {
    assert_eq!(clamp(1, 2, 5), 2);
    assert_eq!(clamp(3, 2, 5), 3);
    assert_eq!(clamp(9, 2, 5), 5);
    assert_eq!(clamp(4, 4, 4), 4);
}

#[test]
fn rust_source_is_parsed() {
    let source = crop::Rope::from("fn main() {}\n");
    let parsed = tree(&source, None).expect("a tree");
    assert_eq!(parsed.root_node().kind(), "source_file");
    assert_eq!(parsed.root_node().end_byte(), 13);
    let again = tree(&source, Some(&parsed)).expect("a tree");
    assert_eq!(again.root_node().to_sexp(), parsed.root_node().to_sexp());
}

#[test]
fn a_document_is_highlighted_by_the_captures_of_a_query() {
    let text = "fn main() {\n    let s = \"a\nb\";\n}\n";
    let document = Buffer::create(SimpleBuffer::open("main.rs".to_string(), text), true);
    let query = tree_sitter::Query::new(
        &tree_sitter_rust::language(),
        "\"fn\" @keyword\n\"let\" @keyword\n(string_literal) @string",
    )
    .expect("a query");
    let mut cursor = tree_sitter::QueryCursor::new();
    let mut lines = document.highlight(&mut cursor, &query, 0, 80).expect("a projector");
    assert_eq!(lines.current(), 0);
    assert_eq!(lines.next_line().expect("line 0").spans, vec![span(KEYWORD, 0, 2)]);
    assert_eq!(
        lines.next_line().expect("line 1").spans,
        vec![span(KEYWORD, 4, 7), span(STRING, 12, 14)]
    );
    assert_eq!(lines.next_line().expect("line 2").spans, vec![span(STRING, 0, 2)]);
    assert!(lines.next_line().is_none());
}

#[test]
fn highlighting_follows_an_edit() {
    let mut document = Buffer::create(SimpleBuffer::open("main.rs".to_string(), "fn a() {}"), true);
    let query = tree_sitter::Query::new(&tree_sitter_rust::language(), "\"fn\" @keyword")
        .expect("a query");
    let mut cursor = tree_sitter::QueryCursor::new();
    document.insert("fn b() {}\n");
    {
        let mut lines = document.highlight(&mut cursor, &query, 0, 80).expect("a projector");
        assert_eq!(lines.next_line().expect("line 0").spans, vec![span(KEYWORD, 0, 2)]);
        assert_eq!(lines.next_line().expect("line 1").spans, vec![span(KEYWORD, 0, 2)]);
        assert!(lines.next_line().is_none());
    }
    document.back();
    let mut lines = document.highlight(&mut cursor, &query, 0, 80).expect("a projector");
    assert_eq!(
        lines.next_line().expect("line 0").spans,
        vec![span(KEYWORD, 0, 2), span(KEYWORD, 9, 11)]
    );
    assert!(lines.next_line().is_none());
}

#[test]
fn chunks_give_the_text_back_piece_by_piece() {
    let text = "aä€😀\n".repeat(2000);
    let source = crop::Rope::from(text.as_str());
    let mut read = Vec::new();
    let mut pieces = 0;
    loop {
        let chunk = chunk_at(&source, read.len());
        if chunk.is_empty() {
            break;
        }
        assert_eq!(chunk, &text.as_bytes()[read.len()..read.len() + chunk.len()]);
        read.extend_from_slice(chunk);
        pieces += 1;
    }
    assert_eq!(read, text.as_bytes());
    assert!(pieces > 1);
    assert!(chunk_at(&source, text.len()).is_empty());
    assert!(chunk_at(&source, text.len() + 1).is_empty());
}

#[test]
fn chunks_begin_at_any_offset_even_inside_a_character() {
    let text = "a€b";
    let source = crop::Rope::from(text);
    for at in 0..text.len() {
        let chunk = chunk_at(&source, at);
        assert!(!chunk.is_empty());
        assert_eq!(chunk, &text.as_bytes()[at..at + chunk.len()], "at {}", at);
    }
    assert!(chunk_at(&crop::Rope::new(), 0).is_empty());
}

#[test]
fn the_text_of_a_range_of_whole_characters() {
    let source = crop::Rope::from("a€b\ncd");
    assert_eq!(range_text(&source, 0, 8), "a€b\ncd");
    assert_eq!(range_text(&source, 1, 4), "€");
    assert_eq!(range_text(&source, 4, 4), "");
    assert_eq!(range_text(&source, 6, 8), "cd");
    assert_eq!(range_text(&source, 2, 4), "");
    assert_eq!(range_text(&source, 1, 3), "");
    assert_eq!(range_text(&source, 4, 1), "");
    assert_eq!(range_text(&source, 0, 9), "");
}

#[test]
fn a_query_can_ask_for_the_text_of_a_node() {
    let text = "const FOO: u8 = 1;\nfn f() -> u8 { FOO + BAR }\n";
    let document = Buffer::create(SimpleBuffer::open("main.rs".to_string(), text), true);
    let query = tree_sitter::Query::new(
        &tree_sitter_rust::language(),
        "((identifier) @keyword (#eq? @keyword \"FOO\"))",
    )
    .expect("a query");
    let mut cursor = tree_sitter::QueryCursor::new();
    let mut lines = document.highlight(&mut cursor, &query, 0, 80).expect("a projector");
    assert_eq!(lines.next_line().expect("line 0").spans, vec![span(KEYWORD, 6, 9)]);
    assert_eq!(lines.next_line().expect("line 1").spans, vec![span(KEYWORD, 15, 18)]);
    assert!(lines.next_line().is_none());
}

#[test]
fn a_long_document_is_parsed_whole() {
    let text = "fn f() {}\n".repeat(1000);
    let source = crop::Rope::from(text.as_str());
    let parsed = tree(&source, None).expect("a tree");
    assert_eq!(parsed.root_node().end_byte(), text.len());
    assert_eq!(parsed.root_node().named_child_count(), 1000);
    assert!(!parsed.root_node().has_error());
}

#[test]
fn rows_follow_lines_put_in_above() {
    let text = "fn a() {}\nfn b() {}\n";
    let mut document = Buffer::create(SimpleBuffer::open("main.rs".to_string(), text), true);
    let query = tree_sitter::Query::new(&tree_sitter_rust::language(), "\"fn\" @keyword")
        .expect("a query");
    let mut cursor = tree_sitter::QueryCursor::new();
    document.insert("\n\n");
    assert_eq!(document.text(), "\n\nfn a() {}\nfn b() {}\n");
    let mut lines = document.highlight(&mut cursor, &query, 3, 3).expect("a projector");
    assert_eq!(lines.current(), 3);
    let line = lines.next_line().expect("line 3");
    assert_eq!((line.line, line.spans), (3, vec![span(KEYWORD, 0, 2)]));
    assert!(lines.next_line().is_none());
}

#[test]
fn the_window_limits_the_captures() {
    let text = "fn a() {}\nfn b() {}\nfn c() {}\nfn d() {}\n";
    let document = Buffer::create(SimpleBuffer::open("main.rs".to_string(), text), true);
    let query = tree_sitter::Query::new(&tree_sitter_rust::language(), "\"fn\" @keyword")
        .expect("a query");
    let mut cursor = tree_sitter::QueryCursor::new();
    let mut lines = document.highlight(&mut cursor, &query, 1, 2).expect("a projector");
    assert_eq!(lines.current(), 1);
    assert_eq!(lines.next_line().expect("line 1").line, 1);
    assert_eq!(lines.next_line().expect("line 2").line, 2);
    assert!(lines.next_line().is_none());
}
