use paladin_core::jsonrpc::{notification, request};
use paladin_core::wire::{
    frame, header_line, parse_usize, push_decimal, read_frame, FrameRead, HeaderError, HeaderStep,
};

fn body_of(input: &[u8]) -> &[u8] {
    match read_frame(input) {
        FrameRead::Frame { start, len } => &input[start..start + len],
        other => panic!("no frame: {:?}", other),
    }
}

#[test]
fn a_frame_is_a_length_header_an_empty_line_and_the_body() {
    assert_eq!(frame(b"{}"), b"Content-Length: 2\r\n\r\n{}".to_vec());
    assert_eq!(frame(b""), b"Content-Length: 0\r\n\r\n".to_vec());
    assert_eq!(frame(b"0123456789"), b"Content-Length: 10\r\n\r\n0123456789".to_vec());
}

#[test]
fn reading_a_frame_gives_its_body_back() {
    for body in ["", "{}", "{\"jsonrpc\":\"2.0\",\"id\":1}", "line\r\n\r\nbreaks", "ünïcödé"] {
        let framed = frame(body.as_bytes());
        assert_eq!(
            read_frame(&framed),
            FrameRead::Frame { start: framed.len() - body.len(), len: body.len() }
        );
        assert_eq!(body_of(&framed), body.as_bytes());
    }
}

#[test]
fn reading_a_frame_leaves_what_follows_it() {
    let mut input = frame(b"first");
    let first_len = input.len();
    input.extend_from_slice(&frame(b"second!"));
    assert_eq!(body_of(&input), b"first");
    assert_eq!(body_of(&input[first_len..]), b"second!");
}

#[test]
fn a_frame_cut_short_is_incomplete() {
    let framed = frame(b"hello");
    for cut in 0..framed.len() {
        assert_eq!(read_frame(&framed[..cut]), FrameRead::Incomplete, "cut at {}", cut);
    }
}

#[test]
fn other_headers_and_stray_lines_are_passed_over() {
    let input = b"Content-Type: application/vscode-jsonrpc\r\nsome log output\r\nContent-Length: 3\r\n\r\nabc";
    assert_eq!(body_of(input), b"abc");
    assert_eq!(header_line(Some(7), b"Content-Type: x\r\n"), Ok(HeaderStep::Next(Some(7))));
    assert_eq!(header_line(Some(7), b"no separator here\r\n"), Ok(HeaderStep::Next(Some(7))));
    assert_eq!(header_line(None, b"   \r\n"), Ok(HeaderStep::Next(None)));
    assert_eq!(header_line(None, b"content-length: 5\r\n"), Ok(HeaderStep::Next(None)));
    assert_eq!(header_line(None, b"Content-Length:5\r\n"), Ok(HeaderStep::Next(None)));
    assert_eq!(header_line(None, b"Content-Length: \r\n"), Ok(HeaderStep::Next(None)));
}

#[test]
fn the_length_header_sets_the_length() {
    assert_eq!(header_line(None, b"Content-Length: 42\r\n"), Ok(HeaderStep::Next(Some(42))));
    assert_eq!(header_line(Some(1), b"Content-Length: 42\r\n"), Ok(HeaderStep::Next(Some(42))));
    assert_eq!(header_line(None, b"  Content-Length: +7 \r\n"), Ok(HeaderStep::Next(Some(7))));
    assert_eq!(header_line(None, b"Content-Length: 007\n"), Ok(HeaderStep::Next(Some(7))));
}

#[test]
fn the_empty_line_ends_the_header_block() {
    assert_eq!(header_line(Some(42), b"\r\n"), Ok(HeaderStep::Body(42)));
    assert_eq!(header_line(None, b"\r\n"), Err(HeaderError::MissingLength));
    assert_eq!(read_frame(b"\r\nabc"), FrameRead::Malformed(HeaderError::MissingLength));
    assert_eq!(header_line(Some(42), b"\n"), Ok(HeaderStep::Next(Some(42))));
}

#[test]
fn a_length_that_is_no_number_is_an_error() {
    for line in [
        "Content-Length: abc\r\n",
        "Content-Length: -1\r\n",
        "Content-Length: 1 2\r\n",
        "Content-Length: 1.5\r\n",
        "Content-Length: +\r\n",
        "Content-Length: 99999999999999999999999999\r\n",
    ] {
        assert_eq!(header_line(None, line.as_bytes()), Err(HeaderError::BadLength), "{:?}", line);
    }
    assert_eq!(
        read_frame(b"Content-Length: x\r\n\r\n"),
        FrameRead::Malformed(HeaderError::BadLength)
    );
}

#[test]
fn numbers_are_read_as_the_standard_library_reads_them() {
    for text in ["0", "1", "42", "+42", "007", "", "+", "-", "-3", "4a", " 4", "18446744073709551615",
        "18446744073709551616", "99999999999999999999", "++1"]
    {
        assert_eq!(parse_usize(text.as_bytes()), text.parse::<usize>().ok(), "{:?}", text);
    }
}

#[test]
fn numbers_are_written_in_decimal() {
    for n in [0usize, 7, 10, 99, 100, 12345, usize::MAX] {
        let mut out = b"n=".to_vec();
        push_decimal(&mut out, n);
        assert_eq!(out, format!("n={}", n).into_bytes());
        assert_eq!(parse_usize(&out[2..]), Some(n));
    }
}

#[test]
fn a_request_carries_its_identifier_method_and_parameters() {
    let framed = request(7, "textDocument/hover", "{\"a\":1}");
    let body = "{\"jsonrpc\":\"2.0\",\"id\":7,\"method\":\"textDocument/hover\",\"params\":{\"a\":1}}";
    assert_eq!(framed, format!("Content-Length: {}\r\n\r\n{}", body.len(), body).into_bytes());
    let value: serde_json::Value = serde_json::from_slice(body_of(&framed)).unwrap();
    assert_eq!(value["jsonrpc"], "2.0");
    assert_eq!(value["id"], 7);
    assert_eq!(value["method"], "textDocument/hover");
    assert_eq!(value["params"]["a"], 1);
}

#[test]
fn a_notification_has_no_identifier() {
    let framed = notification("initialized", "{}");
    let body = "{\"jsonrpc\":\"2.0\",\"method\":\"initialized\",\"params\":{}}";
    assert_eq!(framed, format!("Content-Length: {}\r\n\r\n{}", body.len(), body).into_bytes());
    let value: serde_json::Value = serde_json::from_slice(body_of(&framed)).unwrap();
    assert!(value.get("id").is_none());
    assert_eq!(value["method"], "initialized");
}
