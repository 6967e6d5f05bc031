use sheet_cache::line_buffer::{Framed, LineBuffer};
use sheet_cache::loader::websocket_url;

fn chars(text: &str) -> Vec<char> {
    text.chars().collect()
}

fn lines_of(out: Framed) -> Option<String> {
    match out {
        Framed::Lines(ready) => Some(ready.into_iter().collect()),
        Framed::Wait => None,
        Framed::Stop => panic!("the stream stopped"),
    }
}

#[test]
fn whole_line_comes_out_at_once() {
    let mut buffer = LineBuffer::new();
    assert_eq!(buffer.push_text(chars("{\"a\":1}\n")), Some(chars("{\"a\":1}\n")));
    assert_eq!(buffer.push_text(chars("")), None);
}

#[test]
fn unfinished_line_waits_for_its_end() {
    let mut buffer = LineBuffer::new();
    assert_eq!(buffer.push_text(chars("{\"a\"")), None);
    assert_eq!(buffer.push_text(chars(":1")), None);
    assert_eq!(buffer.push_text(chars("}\n")), Some(chars("{\"a\":1}\n")));
}

#[test]
fn text_is_cut_after_the_last_newline() {
    let mut buffer = LineBuffer::new();
    assert_eq!(buffer.push_text(chars("one\ntwo\nthr")), Some(chars("one\ntwo\n")));
    assert_eq!(buffer.push_text(chars("ee\nfour")), Some(chars("three\n")));
    assert_eq!(buffer.push_text(chars("\n")), Some(chars("four\n")));
    assert_eq!(buffer.push_text(chars("\n\n")), Some(chars("\n\n")));
}

#[test]
fn empty_chunk_stops_the_stream() {
    let mut buffer = LineBuffer::new();
    assert!(lines_of(buffer.push_chunk(&b"abc".to_vec())).is_none());
    assert!(matches!(buffer.push_chunk(&Vec::new()), Framed::Stop));
    // the buffer kept what it held
    assert_eq!(lines_of(buffer.push_chunk(&b"\n".to_vec())), Some("abc\n".to_string()));
}

#[test]
fn chunks_are_decoded_as_text() {
    let mut buffer = LineBuffer::new();
    let out = buffer.push_chunk(&"{\"name\":\"gr\u{fc}n\"}\nrest".as_bytes().to_vec());
    assert_eq!(lines_of(out), Some("{\"name\":\"gr\u{fc}n\"}\n".to_string()));
    assert_eq!(lines_of(buffer.push_chunk(&b"\n".to_vec())), Some("rest\n".to_string()));
}

#[test]
fn bytes_that_are_no_text_are_replaced() {
    let mut buffer = LineBuffer::new();
    let out = buffer.push_chunk(&vec![b'a', 0xff, b'\n']);
    assert_eq!(lines_of(out), Some("a\u{fffd}\n".to_string()));
}

#[test]
fn websocket_url_swaps_the_scheme() {
    assert_eq!(websocket_url("http://localhost:3000/api/spreadsheet"), "ws://localhost:3000/api/spreadsheet");
    assert_eq!(websocket_url("https://example.com/api"), "wss://example.com/api");
    assert_eq!(websocket_url("ws://already"), "ws://already");
    assert_eq!(websocket_url(""), "");
}
