//! The client side of the language server protocol: what is sent, which
//! requests await an answer, and what an incoming message is.

use crate::cursor::CursorWithCharacter;
use crate::edit::Edit;
use std::collections::HashMap;
use vstd::prelude::*;

verus! {

broadcast use vstd::std_specs::hash::group_hash_axioms;

/// A position as the server counts it: a line and a character in that line.
#[derive(Debug, Clone, Copy, PartialEq, Eq, Structural)]
pub struct LspPosition {
    pub line: u32,
    pub character: u32,
}

/// A range of text between two positions.
#[derive(Debug, Clone, Copy, PartialEq, Eq, Structural)]
pub struct LspRange {
    pub start: LspPosition,
    pub end: LspPosition,
}

/// A change of the text: what lies in `range` is replaced by `text`.
#[derive(Debug)]
pub struct LspEdit {
    pub range: LspRange,
    pub text: String,
}

/// What the editor asks of, or tells, the server.
#[derive(Debug)]
pub enum LspRequestData {
    Hover { line: u32, character: u32 },
    Completion { line: u32, character: u32 },
    DidChange { edit: LspEdit },
}

/// A message for the server about one file.
#[derive(Debug)]
pub struct LspRequest {
    pub file: String,
    pub data: LspRequestData,
}

/// What the editor asks of, or tells, the server, as mathematics.
pub enum RequestModel {
    Hover { at: LspPosition },
    Completion { at: LspPosition },
    DidChange { range: LspRange, text: Seq<char> },
}

/// A message for the server, as mathematics.
pub struct MessageModel {
    pub file: Seq<char>,
    pub data: RequestModel,
}

impl View for LspRequestData {
    type V = RequestModel;

    open spec fn view(&self) -> RequestModel {
        match self {
            LspRequestData::Hover { line, character } => RequestModel::Hover {
                at: LspPosition { line: *line, character: *character },
            },
            LspRequestData::Completion { line, character } => RequestModel::Completion {
                at: LspPosition { line: *line, character: *character },
            },
            LspRequestData::DidChange { edit } => RequestModel::DidChange {
                range: edit.range,
                text: edit.text@,
            },
        }
    }
}

impl View for LspRequest {
    type V = MessageModel;

    open spec fn view(&self) -> MessageModel {
        MessageModel { file: self.file@, data: self.data@ }
    }
}

/// The kinds of request that the server answers.
#[derive(Debug, Clone, Copy, PartialEq, Eq, Structural)]
pub enum LspSendRequestKind {
    Hover,
    Completion,
    Initialize,
}

/// The position of a cursor as the server counts it. Lines and characters
/// beyond the range of `u32` wrap around.
pub open spec fn position_of(c: CursorWithCharacter) -> LspPosition {
    LspPosition { line: c.line as u32, character: c.character as u32 }
}

/// The position of a cursor as the server counts it.
pub fn lsp_position(c: CursorWithCharacter) -> (p: LspPosition)
    ensures
        p == position_of(c),
{
    LspPosition {
        line: #[verifier::truncate]
        (c.line as u32),
        character: #[verifier::truncate]
        (c.character as u32),
    }
}

/// The range that an edit replaced, and whether the edit put text there: an
/// insertion replaces the empty range at its start, a deletion the range from
/// its start to its end.
pub open spec fn range_of(edit: Edit) -> LspRange {
    match edit {
        Edit::Insert { start, .. } => LspRange {
            start: position_of(start),
            end: position_of(start),
        },
        Edit::Delete { from, to, .. } => LspRange {
            start: position_of(from),
            end: position_of(to),
        },
    }
}

/// What the server is told of an edit that put in `text`, if it put in
/// anything: the range that the edit replaced, and the text that stands there
/// now. For an insertion that is the text put in, for a deletion no text.
pub open spec fn change_of(edit: Edit, text: Seq<char>) -> RequestModel {
    RequestModel::DidChange {
        range: range_of(edit),
        text: match edit {
            Edit::Insert { .. } => text,
            Edit::Delete { .. } => Seq::<char>::empty(),
        },
    }
}

/// What the server is told of an edit: the range it replaced, and the text
/// that stands there now. For an insertion that is the text put in, for a
/// deletion no text.
pub fn lsp_for_edit(edit: Edit, text: String) -> (data: LspRequestData)
    ensures
        data@ == change_of(edit, text@),
{
    match edit {
        Edit::Insert { start, .. } => {
            let at = lsp_position(start);
            let range = LspRange { start: at, end: at };
            LspRequestData::DidChange { edit: LspEdit { range, text } }
        },
        Edit::Delete { from, to, .. } => {
            let range = LspRange { start: lsp_position(from), end: lsp_position(to) };
            LspRequestData::DidChange { edit: LspEdit { range, text: String::new() } }
        },
    }
}

/// The requests that await an answer, as mathematics: the next identifier to
/// give out, and the kind of each request that is under way.
pub struct PendingModel {
    pub next: nat,
    pub sent: Map<u32, LspSendRequestKind>,
}

/// The identifiers in use are below the next one to give out.
pub open spec fn pending_wf(m: PendingModel) -> bool {
    &&& m.next <= u32::MAX
    &&& forall|id: u32| m.sent.contains_key(id) ==> id < m.next
}

/// Giving out the next identifier, for a request of kind `kind`.
pub open spec fn issue(m: PendingModel, kind: LspSendRequestKind) -> PendingModel {
    PendingModel { next: m.next + 1, sent: m.sent.insert(m.next as u32, kind) }
}

/// Giving out identifiers for the requests `kinds`, in that order.
pub open spec fn issue_all(m: PendingModel, kinds: Seq<LspSendRequestKind>) -> PendingModel
    decreases kinds.len(),
{
    if kinds.len() == 0 {
        m
    } else {
        issue(issue_all(m, kinds.drop_last()), kinds.last())
    }
}

/// The answer to request `id` arriving: the request is no longer under way.
pub open spec fn resolve(m: PendingModel, id: u32) -> PendingModel {
    PendingModel { next: m.next, sent: m.sent.remove(id) }
}

/// The identifier that the request at place `i` of a run is given.
pub open spec fn issued_id(m: PendingModel, i: int) -> u32 {
    (m.next + i) as u32
}

/// Request id uniqueness: of the identifiers given out for a run of requests,
/// no two are the same; none was in use before; and each is filed under the
/// kind of its own request, so that an answer is read as the answer to the
/// request it was given out for. Requests that were under way stay so.
pub proof fn lemma_ids_unique(m: PendingModel, kinds: Seq<LspSendRequestKind>)
    requires
        pending_wf(m),
        m.next + kinds.len() <= u32::MAX,
    ensures
        pending_wf(issue_all(m, kinds)),
        issue_all(m, kinds).next == m.next + kinds.len(),
        forall|i: int, j: int|
            0 <= i < j < kinds.len() ==> #[trigger] issued_id(m, i) != #[trigger] issued_id(m, j),
        forall|i: int|
            0 <= i < kinds.len() ==> !m.sent.contains_key(#[trigger] issued_id(m, i)) && issue_all(
                m,
                kinds,
            ).sent.contains_key(issued_id(m, i)) && issue_all(m, kinds).sent[issued_id(m, i)]
                == kinds[i],
        forall|id: u32| #[trigger]
            m.sent.contains_key(id) ==> issue_all(m, kinds).sent.contains_key(id) && issue_all(
                m,
                kinds,
            ).sent[id] == m.sent[id],
    decreases kinds.len(),
{
    if kinds.len() > 0 {
        let init = kinds.drop_last();
        lemma_ids_unique(m, init);
        let before = issue_all(m, init);
        assert forall|i: int| 0 <= i < kinds.len() implies !m.sent.contains_key(
            #[trigger] issued_id(m, i),
        ) && issue_all(m, kinds).sent.contains_key(issued_id(m, i)) && issue_all(
            m,
            kinds,
        ).sent[issued_id(m, i)] == kinds[i] by {
            if i < kinds.len() - 1 {
                assert(before.sent[issued_id(m, i)] == init[i]);
            }
        }
    }
}

/// An answer is taken once: after the request is resolved, its identifier is
/// no longer under way, and the other requests are as they were.
pub proof fn lemma_resolved_once(m: PendingModel, id: u32)
    requires
        pending_wf(m),
    ensures
        pending_wf(resolve(m, id)),
        !resolve(m, id).sent.contains_key(id),
        forall|other: u32|
            other != id ==> #[trigger] resolve(m, id).sent.contains_key(other)
                == m.sent.contains_key(other),
{
}

/// The requests that await an answer, and the counter that numbers them.
pub struct PendingRequests {
    next_id: u32,
    sent_requests: HashMap<u32, LspSendRequestKind>,
}

impl View for PendingRequests {
    type V = PendingModel;

    closed spec fn view(&self) -> PendingModel {
        PendingModel { next: self.next_id as nat, sent: self.sent_requests@ }
    }
}

impl PendingRequests {
    /// The identifiers in use are below the next one to give out.
    pub open spec fn wf(&self) -> bool {
        pending_wf(self@)
    }

    /// No request under way, and 0 as the first identifier.
    pub fn new() -> (p: Self)
        ensures
            p.wf(),
            p@.next == 0,
            p@.sent == Map::<u32, LspSendRequestKind>::empty(),
    {
        Self { next_id: 0, sent_requests: HashMap::new() }
    }

    /// No request under way, and `first` as the first identifier.
    pub fn starting_at(first: u32) -> (p: Self)
        ensures
            p.wf(),
            p@.next == first,
            p@.sent == Map::<u32, LspSendRequestKind>::empty(),
    {
        Self { next_id: first, sent_requests: HashMap::new() }
    }

    /// Whether an identifier is left to give out.
    pub fn has_next(&self) -> (b: bool)
        ensures
            b == (self@.next < u32::MAX),
    {
        self.next_id < u32::MAX
    }

    /// Gives out the next identifier and files the request under it, in one step.
    pub fn next_id(&mut self, kind: LspSendRequestKind) -> (id: u32)
        requires
            old(self).wf(),
            old(self)@.next < u32::MAX,
        ensures
            final(self).wf(),
            id == old(self)@.next,
            !old(self)@.sent.contains_key(id),
            final(self)@ == issue(old(self)@, kind),
    {
        let id = self.next_id;
        self.sent_requests.insert(id, kind);
        self.next_id = self.next_id + 1;
        proof {
            assert forall|other: u32| self@.sent.contains_key(other) implies other
                < self@.next by {
                if other != id {
                    assert(old(self)@.sent.contains_key(other));
                }
            }
        }
        id
    }

    /// The kind of the request `id`, if it is under way.
    pub fn get(&self, id: u32) -> (kind: Option<LspSendRequestKind>)
        ensures
            kind == if self@.sent.contains_key(id) {
                Some(self@.sent[id])
            } else {
                None
            },
    {
        match self.sent_requests.get(&id) {
            Some(kind) => Some(*kind),
            None => None,
        }
    }

    /// Takes the request `id` off the table, and says of which kind it was, if
    /// it was under way.
    pub fn take(&mut self, id: u32) -> (kind: Option<LspSendRequestKind>)
        requires
            old(self).wf(),
        ensures
            final(self).wf(),
            kind == if old(self)@.sent.contains_key(id) {
                Some(old(self)@.sent[id])
            } else {
                None
            },
            final(self)@ == resolve(old(self)@, id),
    {
        let kind = self.sent_requests.remove(&id);
        proof {
            assert forall|other: u32| self@.sent.contains_key(other) implies other
                < self@.next by {
                assert(old(self)@.sent.contains_key(other));
            }
        }
        kind
    }

    /// The number of requests under way.
    pub fn len(&self) -> (n: usize)
        ensures
            n == self@.sent.len(),
    {
        self.sent_requests.len()
    }
}

} // verus!
