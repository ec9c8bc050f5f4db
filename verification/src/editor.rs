//! The document controller: a buffer, the syntax tree of its text, and what the
//! language server is told of each change.

use crate::action::Action;
use crate::boundary::stands_at;
use crate::buffer::SimpleBuffer;
use crate::cursor::Cursor;
use crate::edit::Edit;
use crate::highlight::{
    first_line, marks_of, query_captures, query_names, syntax_highlight, LineHighlights,
};
use crate::lsp::{
    change_of, lsp_for_edit, lsp_position, position_of, LspRange, LspRequest, LspRequestData,
    MessageModel, RequestModel,
};
use crate::model::{
    back_edit, cursor_at, delete_back, doc_byte, doc_line, doc_wf, insert_at, insert_edit,
    lemma_delete_back, lemma_locate, move_down, move_left, move_right, move_up, DocState,
};
use crate::text::{line_bytes, line_count};
use crate::ts::{edit_fits, tree, tree_edited, tree_text};
use vstd::prelude::*;
use vstd::utf8::{encode_utf8, is_ascii_chars_encode_utf8};

verus! {

/// Whether `hay` ends in `tail`.
pub open spec fn ends_in(hay: Seq<u8>, tail: Seq<u8>) -> bool {
    tail.len() <= hay.len() && stands_at(hay, hay.len() - tail.len(), tail)
}

/// Whether `hay` ends in `tail`.
pub fn ends_with_bytes(hay: &[u8], tail: &[u8]) -> (found: bool)
    ensures
        found == ends_in(hay@, tail@),
{
    if tail.len() > hay.len() {
        return false;
    }
    let from = hay.len() - tail.len();
    let mut j: usize = 0;
    while j < tail.len() && hay[from + j] == tail[j]
        invariant
            from == hay.len() - tail.len(),
            j <= tail.len(),
            forall|k: int| 0 <= k < j ==> hay@[from + k] == tail@[k],
        decreases tail.len() - j,
    {
        j = j + 1;
    }
    proof {
        if j == tail.len() {
            assert(hay@.subrange(from as int, from + tail.len()) =~= tail@);
        } else {
            assert(hay@.subrange(from as int, from + tail.len())[j as int] == hay@[from + j]);
        }
    }
    j == tail.len()
}

/// Whether the file at `path` is one that a language server is started for:
/// its extension is `rs`, that is, its path ends in `.rs`.
pub open spec fn wants_server(path: Seq<char>) -> bool {
    ends_in(encode_utf8(path), encode_utf8(".rs"@))
}

/// Whether the file at `path` is one that a language server is started for.
pub fn asks_for_server(path: &str) -> (wanted: bool)
    ensures
        wanted == wants_server(path@),
{
    ends_with_bytes(path.as_bytes(), ".rs".as_bytes())
}

/// What the server is told after `action`, where it is told anything. Asking
/// for help sends the cursor's position; a change of the text sends the range
/// that changed and what stands there now; moving the cursor sends nothing,
/// nor does backspace at the start of the text.
pub open spec fn notice_of(before: DocState, after: DocState, action: Action) -> Option<
    RequestModel,
> {
    let start = position_of(cursor_at(before.text, before.pos));
    match action {
        Action::Hover => Some(RequestModel::Hover { at: start }),
        Action::Complete => Some(RequestModel::Completion { at: start }),
        Action::NewLine => Some(
            RequestModel::DidChange {
                range: LspRange { start, end: start },
                text: "\n"@,
            },
        ),
        Action::Back => if before.pos > 0 {
            Some(
                RequestModel::DidChange {
                    range: LspRange {
                        start: position_of(cursor_at(after.text, after.pos)),
                        end: start,
                    },
                    text: Seq::<char>::empty(),
                },
            )
        } else {
            None
        },
        _ => None,
    }
}

/// What `action` makes of the text and the cursor.
pub open spec fn act(d: DocState, action: Action) -> DocState {
    match action {
        Action::Up => move_up(d),
        Action::Down => move_down(d),
        Action::Left => move_left(d),
        Action::Right => move_right(d),
        Action::Back => delete_back(d),
        Action::NewLine => insert_at(d, seq![10u8]),
        _ => d,
    }
}

/// The edit that typing gives tells truly how the text changed.
pub proof fn lemma_insert_fits(d: DocState, t: Seq<u8>)
    requires
        doc_wf(d),
        d.text.len() + t.len() < usize::MAX,
    ensures
        edit_fits(d.text, insert_edit(d, t).tree_edit(), insert_at(d, t).text),
{
    let n = insert_at(d, t);
    assert(d.text.subrange(0, d.pos) =~= n.text.subrange(0, d.pos));
    assert(d.text.subrange(d.pos, d.text.len() as int) =~= n.text.subrange(
        n.pos,
        n.text.len() as int,
    ));
    lemma_locate(d.text, d.pos);
    lemma_locate(n.text, n.pos);
}

/// The edit that backspace gives tells truly how the text changed.
pub proof fn lemma_back_fits(d: DocState)
    requires
        doc_wf(d),
        d.pos > 0,
    ensures
        edit_fits(d.text, back_edit(d).tree_edit(), delete_back(d).text),
{
    let n = delete_back(d);
    lemma_delete_back(d);
    assert(d.text.subrange(0, n.pos) =~= n.text.subrange(0, n.pos));
    assert(d.text.subrange(d.pos, d.text.len() as int) =~= n.text.subrange(
        n.pos,
        n.text.len() as int,
    ));
    lemma_locate(d.text, d.pos);
    lemma_locate(d.text, n.pos);
    lemma_locate(n.text, n.pos);
}

/// A message as the server gets it, if there is a server and a message.
pub open spec fn sent(attached: bool, file: Seq<char>, data: Option<RequestModel>) -> Option<
    MessageModel,
> {
    match data {
        Some(data) => if attached {
            Some(MessageModel { file, data })
        } else {
            None
        },
        None => None,
    }
}

/// The message in `r`, as mathematics.
pub open spec fn message_of(r: Option<LspRequest>) -> Option<MessageModel> {
    match r {
        Some(r) => Some(r@),
        None => None,
    }
}

/// An open document: its buffer, the syntax tree of its text, and whether a
/// language server follows it.
pub struct Buffer {
    lsp: bool,
    tree: Option<tree_sitter::Tree>,
    pub buffer: SimpleBuffer,
}

impl View for Buffer {
    type V = DocState;

    closed spec fn view(&self) -> DocState {
        self.buffer@
    }
}

/// A change of the text: the edit, and what the language server is told of it
/// where one follows the document.
#[derive(Debug)]
pub struct Change {
    pub edit: Edit,
    pub notice: Option<LspRequest>,
}

impl Buffer {
    /// The buffer is well-formed, and the syntax tree is not stale.
    pub closed spec fn wf(&self) -> bool {
        self.buffer.wf() && self.in_sync()
    }

    /// The syntax tree is not stale: where there is one, it is the tree of the
    /// text as the buffer now holds it.
    pub closed spec fn in_sync(&self) -> bool {
        match self.tree {
            Some(tree) => tree_text(tree) == self.buffer@.text,
            None => true,
        }
    }

    /// Whether a language server follows the document.
    pub closed spec fn attached(&self) -> bool {
        self.lsp
    }

    /// The path of the file, as characters.
    pub closed spec fn file(&self) -> Seq<char> {
        self.buffer.file()
    }

    /// What a well-formed document says of its state.
    pub proof fn lemma_wf(&self)
        requires
            self.wf(),
        ensures
            doc_wf(self@),
    {
        self.buffer.lemma_wf();
    }

    fn new(buffer: SimpleBuffer, lsp: bool) -> (doc: Self)
        requires
            buffer.wf(),
        ensures
            doc.wf(),
            doc@ == buffer@,
            doc.file() == buffer.file(),
            doc.attached() == lsp,
    {
        let parsed = tree(buffer.rope(), None);
        Self { lsp, tree: parsed, buffer }
    }

    /// Opens `buffer` as a document. A language server follows it if its file
    /// is one that a server is started for and the server was started:
    /// `started` says whether it was. Without a server the document opens all
    /// the same, and nothing is ever sent for it.
    pub fn create(buffer: SimpleBuffer, started: bool) -> (doc: Self)
        requires
            buffer.wf(),
        ensures
            doc.wf(),
            doc@ == buffer@,
            doc.file() == buffer.file(),
            doc.attached() == (wants_server(buffer.file()) && started),
    {
        let lsp = started && asks_for_server(buffer.path());
        Self::new(buffer, lsp)
    }

    /// Whether a language server follows the document.
    pub fn has_server(&self) -> (b: bool)
        ensures
            b == self.attached(),
    {
        self.lsp
    }

    /// Whether the text has a syntax tree.
    pub closed spec fn parsed(&self) -> bool {
        self.tree.is_some()
    }

    /// The syntax tree of the text, where it has one.
    pub closed spec fn syntax_tree(&self) -> Option<tree_sitter::Tree> {
        self.tree
    }

    /// Whether the text has a syntax tree.
    pub fn has_tree(&self) -> (b: bool)
        ensures
            b == self.parsed(),
    {
        self.tree.is_some()
    }

    /// The highlighting of the lines from `first` to `last` by the captures of
    /// `query`, if the text has a syntax tree.
    pub fn highlight<'a>(
        &'a self,
        cursor: &mut tree_sitter::QueryCursor,
        query: &tree_sitter::Query,
        first: usize,
        last: usize,
    ) -> (projector: Option<LineHighlights<'a>>)
        requires
            self.wf(),
        ensures
            projector.is_some() == self.parsed(),
            projector.is_some() ==> projector.unwrap().wf() && projector.unwrap().text()
                == self@.text && projector.unwrap().window_end() == last,
            projector.is_some() ==> projector.unwrap().marks() == marks_of(
                query_captures(
                    self.syntax_tree().unwrap(),
                    *old(cursor),
                    *query,
                    self@.text,
                    first,
                    last,
                ),
                query_names(*query),
                self@.text,
            ) && projector.unwrap().line() == first_line(
                query_captures(
                    self.syntax_tree().unwrap(),
                    *old(cursor),
                    *query,
                    self@.text,
                    first,
                    last,
                ),
                self@.text,
            ),
    {
        proof {
            self.buffer.lemma_wf();
        }
        match &self.tree {
            Some(tree) => Some(
                syntax_highlight(tree, cursor, query, self.buffer.rope(), first, last),
            ),
            None => None,
        }
    }

    /// The whole text.
    pub fn text(&self) -> (text: String)
        ensures
            encode_utf8(text@) == self@.text,
    {
        self.buffer.text()
    }

    /// The number of lines.
    pub fn line_len(&self) -> (n: usize)
        requires
            self.wf(),
        ensures
            n == line_count(self@.text),
    {
        self.buffer.line_len()
    }

    /// The content of line `idx`.
    pub fn line(&self, idx: usize) -> (content: String)
        requires
            self.wf(),
            idx < line_count(self@.text),
        ensures
            encode_utf8(content@) == line_bytes(self@.text, idx as nat),
    {
        self.buffer.line(idx)
    }

    /// The cursor.
    pub fn cursor(&self) -> (cursor: Cursor)
        requires
            self.wf(),
        ensures
            cursor.line == doc_line(self@),
            cursor.byte == doc_byte(self@),
    {
        self.buffer.cursor()
    }

    /// Backspace: the buffer is changed, the syntax tree follows, and the
    /// server is told.
    pub fn back(&mut self) -> (change: Option<Change>)
        requires
            old(self).wf(),
        ensures
            final(self).wf(),
            final(self).file() == old(self).file(),
            final(self).attached() == old(self).attached(),
            final(self)@ == delete_back(old(self)@),
            change.is_some() == (old(self)@.pos > 0),
            change.is_some() ==> change.unwrap().edit == (Edit::Delete {
                from: cursor_at(final(self)@.text, final(self)@.pos),
                from_byte: final(self)@.pos as usize,
                to: cursor_at(old(self)@.text, old(self)@.pos),
                to_byte: old(self)@.pos as usize,
            }) && message_of(change.unwrap().notice) == sent(
                old(self).attached(),
                old(self).file(),
                notice_of(old(self)@, final(self)@, Action::Back),
            ),
    {
        proof {
            self.buffer.lemma_wf();
        }
        match self.buffer.back() {
            Some(edit) => {
                proof {
                    lemma_back_fits(old(self)@);
                }
                self.tree_refresh(edit);
                let notice = self.lsp_for_edit(edit, String::new());
                Some(Change { edit, notice })
            },
            None => None,
        }
    }

    /// What the server is told of `edit`, which put in `text` if it put in
    /// anything, where a server follows the document.
    fn lsp_for_edit(&self, edit: Edit, text: String) -> (notice: Option<LspRequest>)
        ensures
            message_of(notice) == sent(
                self.attached(),
                self.file(),
                Some(change_of(edit, text@)),
            ),
    {
        self.lsp_event(lsp_for_edit(edit, text))
    }

    /// One line up.
    pub fn cursor_up(&mut self)
        requires
            old(self).wf(),
        ensures
            final(self).wf(),
            final(self).file() == old(self).file(),
            final(self).attached() == old(self).attached(),
            final(self)@ == move_up(old(self)@),
    {
        self.buffer.cursor_up()
    }

    /// One character to the right.
    pub fn cursor_right(&mut self)
        requires
            old(self).wf(),
        ensures
            final(self).wf(),
            final(self).file() == old(self).file(),
            final(self).attached() == old(self).attached(),
            final(self)@ == move_right(old(self)@),
    {
        self.buffer.cursor_right()
    }

    /// One line down.
    pub fn cursor_down(&mut self)
        requires
            old(self).wf(),
        ensures
            final(self).wf(),
            final(self).file() == old(self).file(),
            final(self).attached() == old(self).attached(),
            final(self)@ == move_down(old(self)@),
    {
        self.buffer.cursor_down()
    }

    /// One character to the left.
    pub fn cursor_left(&mut self)
        requires
            old(self).wf(),
        ensures
            final(self).wf(),
            final(self).file() == old(self).file(),
            final(self).attached() == old(self).attached(),
            final(self)@ == move_left(old(self)@),
    {
        self.buffer.cursor_left()
    }

    /// Types `text`: the buffer is changed, the syntax tree follows, and the
    /// server is told.
    pub fn insert(&mut self, text: &str) -> (change: Change)
        requires
            old(self).wf(),
            old(self)@.text.len() + encode_utf8(text@).len() < usize::MAX,
        ensures
            final(self).wf(),
            final(self).file() == old(self).file(),
            final(self).attached() == old(self).attached(),
            final(self)@ == insert_at(old(self)@, encode_utf8(text@)),
            change.edit == (Edit::Insert {
                start: cursor_at(old(self)@.text, old(self)@.pos),
                start_byte: old(self)@.pos as usize,
                new_end: cursor_at(final(self)@.text, final(self)@.pos),
                new_end_byte: final(self)@.pos as usize,
            }),
            message_of(change.notice) == sent(
                old(self).attached(),
                old(self).file(),
                Some(change_of(change.edit, text@)),
            ),
    {
        let edit = self.buffer.insert(text);
        proof {
            old(self).buffer.lemma_wf();
            lemma_insert_fits(old(self)@, encode_utf8(text@));
        }
        self.tree_refresh(edit);
        let notice = self.lsp_for_edit(edit, text.to_string());
        Change { edit, notice }
    }

    /// The number of characters before the cursor on its line.
    pub fn line_current_char_idx(&self) -> (n: usize)
        requires
            self.wf(),
        ensures
            n == cursor_at(self@.text, self@.pos).character,
    {
        self.buffer.line_current_char_idx()
    }

    /// Brings the syntax tree up to the text after `edit`: the tree is told of
    /// the edit, and the text is parsed again with the tree as a hint, or from
    /// scratch where there was no tree. The tree that results replaces the old
    /// one whole; where the parser gives one, it is the tree of the text as the
    /// buffer now holds it. The buffer is left as it is.
    fn tree_refresh(&mut self, edit: Edit)
        requires
            old(self).syntax_tree().is_some() ==> edit_fits(
                tree_text(old(self).syntax_tree().unwrap()),
                edit.tree_edit(),
                old(self).buffer@.text,
            ),
        ensures
            final(self).buffer == old(self).buffer,
            final(self).lsp == old(self).lsp,
            final(self).in_sync(),
    {
        let parsed = match &mut self.tree {
            Some(old_tree) => tree_edited(old_tree, edit.to_ts(), self.buffer.rope()),
            None => tree(self.buffer.rope(), None),
        };
        self.tree = parsed;
    }

    /// `event` as a message for the server, where a server follows the document.
    fn lsp_event(&self, event: LspRequestData) -> (notice: Option<LspRequest>)
        ensures
            message_of(notice) == sent(self.attached(), self.file(), Some(event@)),
    {
        if !self.lsp {
            return None;
        }
        Some(LspRequest { file: self.buffer.path().to_string(), data: event })
    }
}

/// Does what `asked` asks for, and gives back what the server is to be told.
///
/// The four directions move the cursor. Backspace and a new line change the
/// text. Asking for hover help or for completion changes nothing and sends
/// the cursor's position. Switching modes is not supported.
pub fn action(buffer: &mut Buffer, asked: Action) -> (notice: Option<LspRequest>)
    requires
        old(buffer).wf(),
        asked.supported(),
        asked == Action::NewLine ==> old(buffer)@.text.len() + 1 < usize::MAX,
    ensures
        final(buffer).wf(),
        final(buffer).file() == old(buffer).file(),
        final(buffer).attached() == old(buffer).attached(),
        final(buffer)@ == act(old(buffer)@, asked),
        message_of(notice) == sent(
            old(buffer).attached(),
            old(buffer).file(),
            notice_of(old(buffer)@, final(buffer)@, asked),
        ),
{
    match asked {
        Action::Up => {
            buffer.cursor_up();
            None
        },
        Action::Down => {
            buffer.cursor_down();
            None
        },
        Action::Left => {
            buffer.cursor_left();
            None
        },
        Action::Right => {
            buffer.cursor_right();
            None
        },
        Action::Hover => {
            let at = lsp_position(
                buffer.cursor().with_character(buffer.line_current_char_idx()),
            );
            buffer.lsp_event(LspRequestData::Hover { line: at.line, character: at.character })
        },
        Action::Complete => {
            let at = lsp_position(
                buffer.cursor().with_character(buffer.line_current_char_idx()),
            );
            buffer.lsp_event(
                LspRequestData::Completion { line: at.line, character: at.character },
            )
        },
        Action::Back => {
            match buffer.back() {
                Some(change) => change.notice,
                None => None,
            }
        },
        Action::NewLine => {
            proof {
                reveal_strlit("\n");
                is_ascii_chars_encode_utf8("\n"@);
                assert(encode_utf8("\n"@) =~= seq![10u8]);
            }
            buffer.insert("\n").notice
        },
        _ => None,
    }
}

} // verus!
