//! Syntax highlighting, line by line.
//!
//! A query run over the syntax tree gives captures: ranges of bytes, each under
//! a name such as `keyword` or `string`. The projector hands them out one line
//! at a time, as coloured ranges inside that line. A capture that spans
//! several lines gives each of them the part that lies in it.

use crate::jsonrpc::str_eq;
use crate::model::lemma_locate;
use crate::buffer::byte_of_line;
use crate::rope::{
    rope_byte_len, rope_is_char_boundary, rope_line, rope_line_len, rope_line_of_byte, rope_text,
    slice_byte_len,
};
use crate::text::{
    content_end, lemma_last_line, lemma_line_start, lemma_next_lf, line_of, line_start,
};
use crate::ts::{range_text, Color};
use vstd::prelude::*;
use vstd::utf8::is_char_boundary;

verus! {

/// `tree_sitter::Query`: patterns over a syntax tree, each capture under a name.
#[verifier::external_type_specification]
#[verifier::external_body]
pub struct ExQuery(tree_sitter::Query);

/// `tree_sitter::QueryCursor`: the state of one run of a query.
#[verifier::external_type_specification]
#[verifier::external_body]
pub struct ExQueryCursor(tree_sitter::QueryCursor);

/// One capture of a query: the bytes of the captured node, and the index of
/// the capture's name among the names of the query.
#[derive(Debug, Clone, Copy, PartialEq, Eq, Structural)]
pub struct Capture {
    pub start_byte: usize,
    pub end_byte: usize,
    pub index: u32,
}

/// A coloured range of bytes inside one line.
#[derive(Debug, Clone, Copy, PartialEq, Eq, Structural)]
pub struct LineSpan {
    pub color: Color,
    pub start: usize,
    pub end: usize,
}

/// A capture that lies inside the text, with the lines on which it begins and
/// ends and the colour of its name.
#[derive(Debug, Clone, Copy, PartialEq, Eq, Structural)]
pub struct Mark {
    pub start_byte: usize,
    pub end_byte: usize,
    pub start_line: usize,
    pub end_line: usize,
    pub color: Color,
}

/// The coloured ranges of one line.
#[derive(Debug)]
pub struct LineHighlight {
    pub line: usize,
    pub spans: Vec<LineSpan>,
}

impl LineHighlight {
    /// Lets go of the line. The projector has moved past it already.
    pub fn consume(self) {
    }
}

/// The colour in which text under the name `name` is shown, where the name has one.
pub open spec fn palette(name: Seq<char>) -> Option<Color> {
    if name == "constructor"@ || name == "type"@ || name == "type.builtin"@ || name
        == "variable.builtin"@ || name == "variable.parameter"@ {
        Some(Color { r: 60, g: 69, b: 112, a: 255 })
    } else if name == "function"@ || name == "function.method"@ || name == "function.macro"@ {
        Some(Color { r: 234, g: 184, b: 120, a: 255 })
    } else if name == "keyword"@ || name == "punctuation.delimiter"@ || name == "operator"@ {
        Some(Color { r: 204, g: 139, b: 96, a: 255 })
    } else if name == "punctuation.bracket"@ {
        Some(Color { r: 255, g: 255, b: 255, a: 255 })
    } else if name == "property"@ {
        Some(Color { r: 130, g: 130, b: 200, a: 255 })
    } else if name == "string"@ {
        Some(Color { r: 149, g: 175, b: 97, a: 255 })
    } else if name == "comment"@ {
        Some(Color { r: 128, g: 128, b: 128, a: 255 })
    } else if name == "constant.builtin"@ {
        Some(Color { r: 212, g: 252, b: 182, a: 255 })
    } else if name == "escape"@ {
        Some(Color { r: 113, g: 10, b: 250, a: 255 })
    } else if name == "attribute"@ {
        Some(Color { r: 219, g: 211, b: 186, a: 255 })
    } else if name == "label"@ {
        Some(Color { r: 134, g: 173, b: 199, a: 255 })
    } else {
        None
    }
}

/// The colour of text under a name that has none of its own.
pub open spec fn fallback() -> Color {
    Color { r: 255, g: 0, b: 0, a: 255 }
}

/// The colour in which text under the name `name` is shown, where the name has one.
pub fn color_of(name: &str) -> (color: Option<Color>)
    ensures
        color == palette(name@),
{
    if str_eq(name, "constructor") || str_eq(name, "type") || str_eq(name, "type.builtin")
        || str_eq(name, "variable.builtin") || str_eq(name, "variable.parameter") {
        Some(Color::rgb(60, 69, 112))
    } else if str_eq(name, "function") || str_eq(name, "function.method") || str_eq(
        name,
        "function.macro",
    ) {
        Some(Color::rgb(234, 184, 120))
    } else if str_eq(name, "keyword") || str_eq(name, "punctuation.delimiter") || str_eq(
        name,
        "operator",
    ) {
        Some(Color::rgb(204, 139, 96))
    } else if str_eq(name, "punctuation.bracket") {
        Some(Color::rgb(255, 255, 255))
    } else if str_eq(name, "property") {
        Some(Color::rgb(130, 130, 200))
    } else if str_eq(name, "string") {
        Some(Color::rgb(149, 175, 97))
    } else if str_eq(name, "comment") {
        Some(Color::rgb(128, 128, 128))
    } else if str_eq(name, "constant.builtin") {
        Some(Color::rgb(212, 252, 182))
    } else if str_eq(name, "escape") {
        Some(Color::rgb(113, 10, 250))
    } else if str_eq(name, "attribute") {
        Some(Color::rgb(219, 211, 186))
    } else if str_eq(name, "label") {
        Some(Color::rgb(134, 173, 199))
    } else {
        None
    }
}

/// The colour of the capture whose name has the index `index` among `names`:
/// that of the name, or the fallback where the name has no colour or the index
/// names nothing.
pub open spec fn capture_color(names: Seq<String>, index: u32) -> Color {
    if index < names.len() {
        match palette(names[index as int]@) {
            Some(color) => color,
            None => fallback(),
        }
    } else {
        fallback()
    }
}

/// Whether the capture lies inside the text `s`, with whole characters between
/// its two ends.
pub open spec fn capture_ok(c: Capture, s: Seq<u8>) -> bool {
    &&& c.start_byte <= c.end_byte <= s.len()
    &&& is_char_boundary(s, c.start_byte as int)
    &&& is_char_boundary(s, c.end_byte as int)
}

/// The mark of a capture that lies inside the text.
pub open spec fn mark_of(c: Capture, names: Seq<String>, s: Seq<u8>) -> Mark {
    Mark {
        start_byte: c.start_byte,
        end_byte: c.end_byte,
        start_line: line_of(s, c.start_byte as int) as usize,
        end_line: line_of(s, c.end_byte as int) as usize,
        color: capture_color(names, c.index),
    }
}

/// The marks of the captures that lie inside the text, in the order of the captures.
pub open spec fn marks_of(caps: Seq<Capture>, names: Seq<String>, s: Seq<u8>) -> Seq<Mark>
    decreases caps.len(),
{
    if caps.len() == 0 {
        Seq::<Mark>::empty()
    } else if capture_ok(caps.last(), s) {
        marks_of(caps.drop_last(), names, s).push(mark_of(caps.last(), names, s))
    } else {
        marks_of(caps.drop_last(), names, s)
    }
}

/// What a mark says of itself is true of the text `s`.
pub open spec fn mark_ok(m: Mark, s: Seq<u8>) -> bool {
    &&& m.start_byte <= m.end_byte <= s.len()
    &&& is_char_boundary(s, m.start_byte as int)
    &&& is_char_boundary(s, m.end_byte as int)
    &&& m.start_line == line_of(s, m.start_byte as int)
    &&& m.end_line == line_of(s, m.end_byte as int)
}

/// Whether the mark lies on line `line` or crosses it.
pub open spec fn on_line(m: Mark, line: int) -> bool {
    m.start_line <= line <= m.end_line
}

/// `x`, or the nearer of `lo` and `hi` where `x` lies outside them.
pub open spec fn clamped(x: int, lo: int, hi: int) -> int {
    if x < lo {
        lo
    } else if x > hi {
        hi
    } else {
        x
    }
}

/// The part of a mark that falls into the content of line `line`, counted from
/// the start of the line.
pub open spec fn span_of(m: Mark, s: Seq<u8>, line: nat) -> LineSpan {
    let start = line_start(s, line);
    let end = content_end(s, start);
    LineSpan {
        color: m.color,
        start: (clamped(m.start_byte as int, start, end) - start) as usize,
        end: (clamped(m.end_byte as int, start, end) - start) as usize,
    }
}

/// The coloured ranges of line `line`: of each mark that lies on the line or
/// crosses it, the part inside the line, in the order of the marks.
pub open spec fn spans_on(marks: Seq<Mark>, s: Seq<u8>, line: nat) -> Seq<LineSpan>
    decreases marks.len(),
{
    if marks.len() == 0 {
        Seq::<LineSpan>::empty()
    } else if on_line(marks.last(), line as int) {
        spans_on(marks.drop_last(), s, line).push(span_of(marks.last(), s, line))
    } else {
        spans_on(marks.drop_last(), s, line)
    }
}

/// Whether a mark ends on line `line` or behind it: whether anything is left
/// to show from that line on.
pub open spec fn live(marks: Seq<Mark>, line: int) -> bool {
    exists|i: int| 0 <= i < marks.len() && (#[trigger] marks[i]).end_line >= line
}

/// The line on which the first capture begins, or line 0 where there is no
/// capture or the first begins behind the text or inside a character.
pub open spec fn first_line(caps: Seq<Capture>, s: Seq<u8>) -> nat {
    if caps.len() > 0 && caps[0].start_byte <= s.len() && is_char_boundary(
        s,
        caps[0].start_byte as int,
    ) {
        line_of(s, caps[0].start_byte as int)
    } else {
        0
    }
}

/// The highlighting of a window of lines, handed out line by line and only
/// forwards.
pub struct LineHighlights<'a> {
    source: &'a crop::Rope,
    marks: Vec<Mark>,
    current: usize,
    last: usize,
}

impl<'a> LineHighlights<'a> {
    /// The text that is highlighted.
    pub closed spec fn text(&self) -> Seq<u8> {
        rope_text(*self.source)
    }

    /// The marks that are handed out.
    pub closed spec fn marks(&self) -> Seq<Mark> {
        self.marks@
    }

    /// The line that is handed out next.
    pub closed spec fn line(&self) -> int {
        self.current as int
    }

    /// The last line of the window.
    pub closed spec fn window_end(&self) -> int {
        self.last as int
    }

    /// Every mark is true of the text.
    pub closed spec fn wf(&self) -> bool {
        &&& rope_text(*self.source).len() < usize::MAX
        &&& forall|i: int|
            0 <= i < self.marks@.len() ==> mark_ok(
                #[trigger] self.marks@[i],
                rope_text(*self.source),
            )
    }

    /// A projector over the captures `captures` of a query with the capture
    /// names `names`, for the lines up to `last`. Captures that do not lie
    /// inside the text, or that begin or end inside a character, are left out.
    /// It begins on the line of the first capture.
    pub fn new(
        source: &'a crop::Rope,
        captures: Vec<Capture>,
        names: Vec<String>,
        last: usize,
    ) -> (projector: Self)
        requires
            rope_text(*source).len() < usize::MAX,
        ensures
            projector.wf(),
            projector.text() == rope_text(*source),
            projector.marks() == marks_of(captures@, names@, rope_text(*source)),
            projector.line() == first_line(captures@, rope_text(*source)),
            projector.window_end() == last,
    {
        let ghost s = rope_text(*source);
        let len = rope_byte_len(source);
        let mut marks: Vec<Mark> = Vec::new();
        let mut i: usize = 0;
        while i < captures.len()
            invariant
                i <= captures.len(),
                s == rope_text(*source),
                len == s.len(),
                marks@ == marks_of(captures@.subrange(0, i as int), names@, s),
                forall|k: int| 0 <= k < marks@.len() ==> mark_ok(#[trigger] marks@[k], s),
            decreases captures.len() - i,
        {
            let c = captures[i];
            proof {
                assert(captures@.subrange(0, i + 1).drop_last() =~= captures@.subrange(
                    0,
                    i as int,
                ));
                assert(captures@.subrange(0, i + 1).last() == c);
            }
            if c.start_byte <= c.end_byte && c.end_byte <= len && rope_is_char_boundary(
                source,
                c.start_byte,
            ) && rope_is_char_boundary(source, c.end_byte) {
                let start_line = rope_line_of_byte(source, c.start_byte);
                let end_line = rope_line_of_byte(source, c.end_byte);
                let index = c.index as usize;
                let color = if index < names.len() {
                    match color_of(names[index].as_str()) {
                        Some(color) => color,
                        None => Color::rgb(255, 0, 0),
                    }
                } else {
                    Color::rgb(255, 0, 0)
                };
                proof {
                    lemma_locate(s, c.start_byte as int);
                    lemma_locate(s, c.end_byte as int);
                }
                marks.push(
                    Mark {
                        start_byte: c.start_byte,
                        end_byte: c.end_byte,
                        start_line,
                        end_line,
                        color,
                    },
                );
            }
            i = i + 1;
        }
        proof {
            assert(captures@.subrange(0, i as int) =~= captures@);
        }
        let current = if captures.len() > 0 && captures[0].start_byte <= len
            && rope_is_char_boundary(source, captures[0].start_byte) {
            rope_line_of_byte(source, captures[0].start_byte)
        } else {
            0
        };
        Self { source, marks, current, last }
    }

    /// The line that is handed out next.
    pub fn current(&self) -> (line: usize)
        ensures
            line == self.line(),
    {
        self.current
    }

    /// The coloured ranges of the next line, and on to the line behind it.
    ///
    /// There is nothing more once the window is passed, or once no mark reaches
    /// the line any more; the projector then stays where it is. A line that no
    /// mark touches, with marks still to come, has no ranges. There is no way
    /// back to an earlier line.
    pub fn next_line(&mut self) -> (r: Option<LineHighlight>)
        requires
            old(self).wf(),
        ensures
            final(self).wf(),
            final(self).text() == old(self).text(),
            final(self).marks() == old(self).marks(),
            final(self).window_end() == old(self).window_end(),
            r.is_some() == (old(self).line() <= old(self).window_end() && live(
                old(self).marks(),
                old(self).line(),
            )),
            r.is_none() ==> final(self).line() == old(self).line(),
            r.is_some() ==> final(self).line() == old(self).line() + 1 && r.unwrap().line == old(
                self,
            ).line() && r.unwrap().spans@ == spans_on(
                old(self).marks(),
                old(self).text(),
                old(self).line() as nat,
            ),
    {
        let ghost s = rope_text(*self.source);
        let line = self.current;
        if line > self.last {
            return None;
        }
        let mut i: usize = 0;
        while i < self.marks.len() && self.marks[i].end_line < line
            invariant
                i <= self.marks.len(),
                forall|k: int| 0 <= k < i ==> (#[trigger] self.marks@[k]).end_line < line,
            decreases self.marks.len() - i,
        {
            i = i + 1;
        }
        if i == self.marks.len() {
            return None;
        }
        proof {
            assert(mark_ok(self.marks@[i as int], s));
            lemma_locate(s, self.marks@[i as int].end_byte as int);
            lemma_last_line(s);
            lemma_line_start(s, line as nat);
            lemma_next_lf(s, line_start(s, line as nat));
        }
        let start = byte_of_line(self.source, line);
        let length = if line < rope_line_len(self.source) {
            let slice = rope_line(self.source, line);
            slice_byte_len(&slice)
        } else {
            0
        };
        let end = start + length;
        let mut spans: Vec<LineSpan> = Vec::new();
        let mut j: usize = 0;
        while j < self.marks.len()
            invariant
                j <= self.marks.len(),
                start == line_start(s, line as nat),
                end == content_end(s, start as int),
                start <= end <= s.len() < usize::MAX,
                spans@ == spans_on(self.marks@.subrange(0, j as int), s, line as nat),
            decreases self.marks.len() - j,
        {
            let m = self.marks[j];
            proof {
                assert(self.marks@.subrange(0, j + 1).drop_last() =~= self.marks@.subrange(
                    0,
                    j as int,
                ));
                assert(self.marks@.subrange(0, j + 1).last() == m);
            }
            if m.start_line <= line && line <= m.end_line {
                let from = clamp(m.start_byte, start, end);
                let to = clamp(m.end_byte, start, end);
                spans.push(LineSpan { color: m.color, start: from - start, end: to - start });
            }
            j = j + 1;
        }
        proof {
            assert(self.marks@.subrange(0, j as int) =~= self.marks@);
        }
        self.current = line + 1;
        Some(LineHighlight { line, spans })
    }
}

/// `x`, or the nearer of `lo` and `hi` where `x` lies outside them.
pub fn clamp(x: usize, lo: usize, hi: usize) -> (r: usize)
    requires
        lo <= hi,
    ensures
        r == clamped(x as int, lo as int, hi as int),
        lo <= r <= hi,
{
    if x < lo {
        lo
    } else if x > hi {
        hi
    } else {
        x
    }
}

/// What a run of `query` over `tree` captures within the rows from `first` to
/// `last`, in the order in which the captures appear, where `text` is the text
/// that the query reads and `cursor` the cursor that it runs on.
pub uninterp spec fn query_captures(
    tree: tree_sitter::Tree,
    cursor: tree_sitter::QueryCursor,
    query: tree_sitter::Query,
    text: Seq<u8>,
    first: usize,
    last: usize,
) -> Seq<Capture>;

/// The names of the captures of `query`, in the order of their indices.
pub uninterp spec fn query_names(query: tree_sitter::Query) -> Seq<String>;

/// `QueryCursor::captures`, after `QueryCursor::set_point_range`: the captures
/// of `query` in the tree, within the rows from `first` to `last`, each as the
/// bytes of its node and the index of its name. Where the query asks for the
/// text of a node, it is given the text between the node's offsets. Of the
/// captures this alone is claimed: they are what such a run gives.
#[verifier::external_body]
pub(crate) fn captures_in(
    tree: &tree_sitter::Tree,
    cursor: &mut tree_sitter::QueryCursor,
    query: &tree_sitter::Query,
    source: &crop::Rope,
    first: usize,
    last: usize,
) -> (captures: Vec<Capture>)
    ensures
        captures@ == query_captures(*tree, *old(cursor), *query, rope_text(*source), first, last),
{
    let from = tree_sitter::Point { row: first, column: 0 };
    let to = tree_sitter::Point { row: last, column: usize::MAX };
    cursor.set_point_range(from..to);
    let text = |node: tree_sitter::Node| {
        std::iter::once(range_text(source, node.start_byte(), node.end_byte()))
    };
    cursor.captures(query, tree.root_node(), text).map(
        |(found, at)| Capture {
            start_byte: found.captures[at].node.start_byte(),
            end_byte: found.captures[at].node.end_byte(),
            index: found.captures[at].index,
        },
    ).collect()
}

/// `Query::capture_names`: the names of the captures of the query, in the
/// order of their indices.
#[verifier::external_body]
pub(crate) fn capture_names(query: &tree_sitter::Query) -> (names: Vec<String>)
    ensures
        names@ == query_names(*query),
{
    query.capture_names().iter().map(|name| name.to_string()).collect()
}

/// The highlighting of the rows from `first` to `last` of `source`, whose
/// syntax tree is `tree`, by the captures of `query`: a projector over what the
/// query captures there, under the names of the query.
pub fn syntax_highlight<'a>(
    tree: &tree_sitter::Tree,
    cursor: &mut tree_sitter::QueryCursor,
    query: &tree_sitter::Query,
    source: &'a crop::Rope,
    first: usize,
    last: usize,
) -> (projector: LineHighlights<'a>)
    requires
        rope_text(*source).len() < usize::MAX,
    ensures
        projector.wf(),
        projector.text() == rope_text(*source),
        projector.window_end() == last,
        projector.marks() == marks_of(
            query_captures(*tree, *old(cursor), *query, rope_text(*source), first, last),
            query_names(*query),
            rope_text(*source),
        ),
        projector.line() == first_line(
            query_captures(*tree, *old(cursor), *query, rope_text(*source), first, last),
            rope_text(*source),
        ),
{
    let captures = captures_in(tree, cursor, query, source, first, last);
    let names = capture_names(query);
    LineHighlights::new(source, captures, names, last)
}

} // verus!
