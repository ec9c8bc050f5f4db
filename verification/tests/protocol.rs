use paladin_core::cursor::Cursor;
use paladin_core::edit::Edit;
use paladin_core::jsonrpc::{
    bytes_eq, classify, inspect, request, str_eq, FrameKind, Member, MessageHead,
};
use paladin_core::lsp::{
    lsp_for_edit, lsp_position, LspRequestData, LspSendRequestKind, PendingRequests,
};
use paladin_core::session::{Incoming, Outgoing, Phase, Session, SessionError};
use paladin_core::wire::{read_frame, FrameRead};

fn ready_session() -> Session {
    let mut session = Session::new();
    assert_eq!(session.begin(), Ok(0));
    assert_eq!(
        session.receive(FrameKind::Response { id: 0 }),
        Ok(Incoming::Result(LspSendRequestKind::Initialize))
    );
    assert_eq!(session.opened(), Ok(()));
    session
}

#[test]
fn identifiers_count_up_from_zero_and_never_repeat() {
    let mut pending = PendingRequests::new();
    let mut seen = Vec::new();
    for round in 0..100u32 {
        let kind = if round % 2 == 0 { LspSendRequestKind::Hover } else { LspSendRequestKind::Completion };
        let id = pending.next_id(kind);
        assert_eq!(id, round);
        assert!(!seen.contains(&id));
        seen.push(id);
    }
    assert_eq!(pending.len(), 100);
    for id in seen {
        let kind = if id % 2 == 0 { LspSendRequestKind::Hover } else { LspSendRequestKind::Completion };
        assert_eq!(pending.get(id), Some(kind));
    }
}

#[test]
fn an_answer_is_matched_once_and_by_identifier_alone() {
    let mut pending = PendingRequests::new();
    let hover = pending.next_id(LspSendRequestKind::Hover);
    let completion = pending.next_id(LspSendRequestKind::Completion);
    assert_eq!(pending.take(completion), Some(LspSendRequestKind::Completion));
    assert_eq!(pending.take(completion), None);
    assert_eq!(pending.get(hover), Some(LspSendRequestKind::Hover));
    assert_eq!(pending.take(hover), Some(LspSendRequestKind::Hover));
    assert_eq!(pending.len(), 0);
    assert_eq!(pending.take(17), None);
    assert_eq!(pending.next_id(LspSendRequestKind::Hover), 2);
}

#[test]
fn hover_then_completion_get_two_identifiers_and_two_exact_frames() {
    let mut session = ready_session();
    let hover = session.send(&LspRequestData::Hover { line: 3, character: 5 });
    let completion = session.send(&LspRequestData::Completion { line: 1, character: 0 });
    let (first, second) = match (hover, completion) {
        (
            Ok(Outgoing::Request { id: first, kind: LspSendRequestKind::Hover }),
            Ok(Outgoing::Request { id: second, kind: LspSendRequestKind::Completion }),
        ) => (first, second),
        other => panic!("two requests were expected: {:?}", other),
    };
    assert_eq!((first, second), (1, 2));
    assert_eq!(session.pending_len(), 2);
    assert_eq!(session.pending_kind(first), Some(LspSendRequestKind::Hover));
    assert_eq!(session.pending_kind(second), Some(LspSendRequestKind::Completion));

    let hover_params = "{\"textDocument\":{\"uri\":\"file:///a.rs\"},\"position\":{\"line\":3,\"character\":5}}";
    let completion_params =
        "{\"textDocument\":{\"uri\":\"file:///a.rs\"},\"position\":{\"line\":1,\"character\":0}}";
    let frames = [
        request(first, "textDocument/hover", hover_params),
        request(second, "textDocument/completion", completion_params),
    ];
    for framed in frames.iter() {
        let text = String::from_utf8(framed.clone()).unwrap();
        let (header, body) = text.split_once("\r\n\r\n").unwrap();
        let announced: usize = header.strip_prefix("Content-Length: ").unwrap().parse().unwrap();
        assert_eq!(announced, body.len());
        assert_eq!(
            read_frame(framed),
            FrameRead::Frame { start: framed.len() - body.len(), len: body.len() }
        );
    }
}

#[test]
fn a_session_goes_through_its_phases() {
    let mut session = Session::new();
    assert_eq!(session.phase(), Phase::Spawned);
    assert_eq!(
        session.send(&LspRequestData::Hover { line: 0, character: 0 }),
        Err(SessionError::WrongPhase)
    );
    assert_eq!(session.opened(), Err(SessionError::WrongPhase));
    assert_eq!(session.begin(), Ok(0));
    assert_eq!(session.begin(), Err(SessionError::WrongPhase));
    assert_eq!(session.pending_kind(0), Some(LspSendRequestKind::Initialize));
    assert_eq!(
        session.receive(FrameKind::Response { id: 0 }),
        Ok(Incoming::Result(LspSendRequestKind::Initialize))
    );
    assert_eq!(session.phase(), Phase::Initialized);
    assert_eq!(session.pending_len(), 0);
    assert_eq!(session.opened(), Ok(()));
    assert_eq!(session.phase(), Phase::Ready);
    assert_eq!(session.opened(), Err(SessionError::WrongPhase));
    session.close();
    assert_eq!(session.phase(), Phase::Closed);
    assert_eq!(session.begin(), Err(SessionError::Closed));
    assert_eq!(session.opened(), Err(SessionError::Closed));
    assert_eq!(session.receive(FrameKind::Notification), Err(SessionError::Closed));
    assert_eq!(
        session.send(&LspRequestData::Hover { line: 0, character: 0 }),
        Err(SessionError::Closed)
    );
}

#[test]
fn anything_but_the_answer_to_initialize_ends_a_new_session() {
    for frame in [
        FrameKind::Notification,
        FrameKind::Unknown,
        FrameKind::Request { id: 0 },
        FrameKind::Response { id: 1 },
    ] {
        let mut session = Session::new();
        assert_eq!(session.begin(), Ok(0));
        assert_eq!(session.receive(frame), Err(SessionError::ExpectedInitializeResult));
        assert_eq!(session.phase(), Phase::Closed);
    }
}

#[test]
fn answers_may_come_in_any_order() {
    let mut session = ready_session();
    let mut ids = Vec::new();
    for data in [
        LspRequestData::Hover { line: 1, character: 1 },
        LspRequestData::Completion { line: 2, character: 2 },
        LspRequestData::Hover { line: 3, character: 3 },
    ] {
        match session.send(&data) {
            Ok(Outgoing::Request { id, .. }) => ids.push(id),
            other => panic!("a request was expected: {:?}", other),
        }
    }
    assert_eq!(ids, vec![1, 2, 3]);
    assert_eq!(
        session.receive(FrameKind::Response { id: 2 }),
        Ok(Incoming::Result(LspSendRequestKind::Completion))
    );
    assert_eq!(
        session.receive(FrameKind::Response { id: 3 }),
        Ok(Incoming::Result(LspSendRequestKind::Hover))
    );
    assert_eq!(session.receive(FrameKind::Notification), Ok(Incoming::Notification));
    assert_eq!(session.receive(FrameKind::Request { id: 9 }), Ok(Incoming::Ignored));
    assert_eq!(session.receive(FrameKind::Unknown), Ok(Incoming::Ignored));
    assert_eq!(
        session.receive(FrameKind::Response { id: 1 }),
        Ok(Incoming::Result(LspSendRequestKind::Hover))
    );
    assert_eq!(session.pending_len(), 0);
    assert_eq!(session.phase(), Phase::Ready);
}

#[test]
fn an_answer_to_no_request_ends_the_session() {
    let mut session = ready_session();
    assert_eq!(
        session.receive(FrameKind::Response { id: 5 }),
        Err(SessionError::UnknownResponse(5))
    );
    assert_eq!(session.phase(), Phase::Closed);
}

#[test]
fn identifiers_run_out_at_the_limit_of_their_range() {
    let mut session = Session::starting_at(u32::MAX - 2);
    assert_eq!(session.begin(), Ok(u32::MAX - 2));
    assert_eq!(
        session.receive(FrameKind::Response { id: u32::MAX - 2 }),
        Ok(Incoming::Result(LspSendRequestKind::Initialize))
    );
    assert_eq!(session.opened(), Ok(()));
    assert_eq!(
        session.send(&LspRequestData::Hover { line: 0, character: 0 }),
        Ok(Outgoing::Request { id: u32::MAX - 1, kind: LspSendRequestKind::Hover })
    );
    assert_eq!(
        session.send(&LspRequestData::Completion { line: 0, character: 0 }),
        Err(SessionError::OutOfIds)
    );
    assert_eq!(session.phase(), Phase::Ready);
    assert_eq!(session.pending_len(), 1);
    let mut exhausted = Session::starting_at(u32::MAX);
    assert_eq!(exhausted.begin(), Err(SessionError::OutOfIds));
    let mut pending = PendingRequests::starting_at(40);
    assert!(pending.has_next());
    assert_eq!(pending.next_id(LspSendRequestKind::Hover), 40);
    assert_eq!(pending.next_id(LspSendRequestKind::Hover), 41);
    assert!(!PendingRequests::starting_at(u32::MAX).has_next());
}

#[test]
fn notifications_take_no_identifier() {
    let mut session = ready_session();
    let edit = Edit::Insert {
        start: Cursor::from_line_byte(0, 0).with_character(0),
        start_byte: 0,
        new_end: Cursor::from_line_byte(0, 1).with_character(1),
        new_end_byte: 1,
    };
    let change = lsp_for_edit(edit, "a".to_string());
    assert_eq!(session.send(&change), Ok(Outgoing::Notification));
    assert_eq!(session.pending_len(), 0);
    match session.send(&LspRequestData::Hover { line: 0, character: 0 }) {
        Ok(Outgoing::Request { id, .. }) => assert_eq!(id, 1),
        other => panic!("a request was expected: {:?}", other),
    }
}

#[test]
fn an_insertion_is_told_as_an_empty_range_with_the_text() {
    let edit = Edit::Insert {
        start: Cursor::from_line_byte(2, 4).with_character(3),
        start_byte: 10,
        new_end: Cursor::from_line_byte(3, 1).with_character(1),
        new_end_byte: 13,
    };
    match lsp_for_edit(edit, "x\ny".to_string()) {
        LspRequestData::DidChange { edit } => {
            assert_eq!((edit.range.start.line, edit.range.start.character), (2, 3));
            assert_eq!((edit.range.end.line, edit.range.end.character), (2, 3));
            assert_eq!(edit.text, "x\ny");
        }
        other => panic!("a change was expected: {:?}", other),
    }
}

#[test]
fn a_deletion_is_told_as_its_range_with_no_text() {
    let edit = Edit::Delete {
        from: Cursor::from_line_byte(0, 2).with_character(2),
        from_byte: 2,
        to: Cursor::from_line_byte(1, 0).with_character(0),
        to_byte: 3,
    };
    match lsp_for_edit(edit, "ignored".to_string()) {
        LspRequestData::DidChange { edit } => {
            assert_eq!((edit.range.start.line, edit.range.start.character), (0, 2));
            assert_eq!((edit.range.end.line, edit.range.end.character), (1, 0));
            assert_eq!(edit.text, "");
        }
        other => panic!("a change was expected: {:?}", other),
    }
}

#[test]
fn positions_beyond_32_bits_wrap() {
    let at = lsp_position(Cursor::from_line_byte(7, 0).with_character(9));
    assert_eq!((at.line, at.character), (7, 9));
    if usize::BITS > 32 {
        let far = (1usize << 32) + 5;
        let at = lsp_position(Cursor::from_line_byte(far, 0).with_character(far + 1));
        assert_eq!((at.line, at.character), (5, 6));
    }
}

#[test]
fn messages_are_told_apart_by_identifier_and_method() {
    let cases: [(&str, Option<FrameKind>); 17] = [
        ("{\"jsonrpc\":\"2.0\",\"id\":3,\"result\":null}", Some(FrameKind::Response { id: 3 })),
        ("{\"id\":0,\"result\":{\"capabilities\":{}}}", Some(FrameKind::Response { id: 0 })),
        ("{\"id\":4294967295,\"method\":null}", Some(FrameKind::Response { id: 4294967295 })),
        (
            "{\"id\":1,\"method\":\"window/workDoneProgress/create\",\"params\":{\"token\":\"t\"}}",
            Some(FrameKind::Request { id: 1 }),
        ),
        ("{\"id\":1,\"method\":\"workspace/configuration\"}", Some(FrameKind::Unknown)),
        ("{\"method\":\"$/progress\",\"params\":{}}", Some(FrameKind::Notification)),
        ("{\"id\":\"abc\",\"method\":\"$/progress\"}", Some(FrameKind::Notification)),
        ("{\"id\":1,\"method\":\"$/progress\"}", Some(FrameKind::Unknown)),
        ("{\"method\":\"textDocument/publishDiagnostics\"}", Some(FrameKind::Unknown)),
        ("{\"id\":4294967296}", Some(FrameKind::Unknown)),
        ("{\"id\":-1}", Some(FrameKind::Unknown)),
        ("{\"id\":1,\"method\":7}", Some(FrameKind::Unknown)),
        ("{}", Some(FrameKind::Unknown)),
        ("[1, \"$/progress\"]", Some(FrameKind::Unknown)),
        ("{\"id\":1.5}", Some(FrameKind::Unknown)),
        ("{\"id\":null,\"method\":\"$/progress\"}", Some(FrameKind::Notification)),
        ("{\"id\":1", None),
    ];
    for (body, kind) in cases {
        assert_eq!(inspect(body.as_bytes()), kind, "{}", body);
    }
    assert_eq!(inspect(b""), None);
    assert_eq!(inspect(b"Content-Length: 2"), None);
}

#[test]
fn heads_are_classified_without_reading_text() {
    let head = |id, method| MessageHead { id, method };
    let text = |name: &str| Member::Text(name.to_string());
    assert_eq!(classify(&head(Member::Unsigned(1), Member::Missing)), FrameKind::Response { id: 1 });
    assert_eq!(classify(&head(Member::Unsigned(1), Member::Null)), FrameKind::Response { id: 1 });
    assert_eq!(classify(&head(Member::Missing, Member::Missing)), FrameKind::Unknown);
    assert_eq!(classify(&head(Member::Null, Member::Missing)), FrameKind::Unknown);
    assert_eq!(classify(&head(Member::Other, Member::Missing)), FrameKind::Unknown);
    assert_eq!(classify(&head(text("1"), Member::Missing)), FrameKind::Unknown);
    assert_eq!(classify(&head(Member::Unsigned(1), Member::Other)), FrameKind::Unknown);
    assert_eq!(classify(&head(Member::Unsigned(1), Member::Unsigned(2))), FrameKind::Unknown);
    assert_eq!(classify(&head(Member::Missing, Member::Other)), FrameKind::Unknown);
    assert_eq!(classify(&head(Member::Unsigned(1 << 40), Member::Missing)), FrameKind::Unknown);
    assert_eq!(
        classify(&head(Member::Unsigned(1 << 40), text("$/progress"))),
        FrameKind::Notification
    );
    assert_eq!(classify(&head(text("abc"), text("$/progress"))), FrameKind::Notification);
    assert_eq!(
        classify(&head(Member::Unsigned(2), text("window/workDoneProgress/create"))),
        FrameKind::Request { id: 2 }
    );
    assert_eq!(
        classify(&head(Member::Missing, text("window/workDoneProgress/create"))),
        FrameKind::Unknown
    );
}

#[test]
fn texts_are_compared_byte_by_byte() {
    assert!(str_eq("", ""));
    assert!(str_eq("$/progress", "$/progress"));
    assert!(!str_eq("$/progress", "$/progres"));
    assert!(!str_eq("a", "b"));
    assert!(bytes_eq(b"abc", b"abc"));
    assert!(!bytes_eq(b"abc", b"abd"));
    assert!(!bytes_eq(b"abc", b"ab"));
}
