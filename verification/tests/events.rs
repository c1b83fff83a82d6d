use rustygate::reassembly::Reassembler;
use rustygate::sse::{create_event, line_event, process_buffer, StreamEvent, DATA_PREFIX};
use rustygate::text::{char_is_whitespace, chars_of, find, stands_at, trim_bounds};

fn payload_of(line: &str) -> Option<String> {
    create_event(line).map(StreamEvent::into_payload)
}

fn payloads(events: &[StreamEvent]) -> Vec<&str> {
    events.iter().map(|event| event.payload()).collect()
}

#[test]
fn data_prefix_is_data_colon_blank() {
    assert_eq!(DATA_PREFIX, "data: ");
}

#[test]
fn data_line_gives_its_payload() {
    assert_eq!(payload_of("data: hello"), Some("hello".to_string()));
    assert_eq!(payload_of("data: {\"id\": 1}"), Some("{\"id\": 1}".to_string()));
}

#[test]
fn line_is_trimmed_before_it_is_read() {
    assert_eq!(payload_of("  data: x \r"), Some("x".to_string()));
    assert_eq!(payload_of("\t\u{a0}data: x\u{3000}\u{2028}"), Some("x".to_string()));
    assert_eq!(payload_of("data: hello\r"), Some("hello".to_string()));
}

#[test]
fn payload_keeps_its_inner_blanks() {
    assert_eq!(payload_of("data:  two  words  "), Some(" two  words".to_string()));
    assert_eq!(payload_of("data: a\rb"), Some("a\rb".to_string()));
}

#[test]
fn empty_remainder_is_no_event() {
    assert_eq!(payload_of("data: "), None);
    assert_eq!(payload_of("data:    "), None);
    assert_eq!(payload_of("data:"), None);
}

#[test]
fn other_lines_are_no_event() {
    assert_eq!(payload_of(""), None);
    assert_eq!(payload_of("   "), None);
    assert_eq!(payload_of(": keep-alive"), None);
    assert_eq!(payload_of("event: message"), None);
    assert_eq!(payload_of("id: 7"), None);
    assert_eq!(payload_of("retry: 10"), None);
    assert_eq!(payload_of("data:hello"), None);
    assert_eq!(payload_of("Data: hello"), None);
    assert_eq!(payload_of("xdata: hello"), None);
    assert_eq!(payload_of("dat"), None);
}

#[test]
fn create_event_agrees_with_trim_and_strip_prefix() {
    let lines = [
        "data: a",
        " data: a ",
        "data: ",
        "data:",
        "\u{2003}data: \u{e9}\u{2003}",
        "\u{b}data: v\u{c}",
        "\u{85}data: n\u{85}",
        "data: data: ",
        "ddata: x",
        "\u{200b}data: zero width",
    ];
    for line in lines {
        let expected = line
            .trim()
            .strip_prefix("data: ")
            .filter(|rest| !rest.is_empty())
            .map(|rest| rest.to_string());
        assert_eq!(payload_of(line), expected, "line {:?}", line);
    }
}

#[test]
fn event_payload_is_never_empty() {
    for line in ["data: x", " data: yy", "data:  "] {
        if let Some(event) = create_event(line) {
            assert!(!event.payload().is_empty());
        }
    }
}

#[test]
fn line_event_decodes_the_line() {
    assert_eq!(line_event(b"data: caf\xc3\xa9").map(StreamEvent::into_payload), Some("caf\u{e9}".to_string()));
    assert_eq!(line_event(b"").map(StreamEvent::into_payload), None);
    assert_eq!(line_event(b"event: x").map(StreamEvent::into_payload), None);
}

#[test]
fn line_event_replaces_what_is_no_utf8() {
    assert_eq!(
        line_event(b"data: a\xffb").map(StreamEvent::into_payload),
        Some("a\u{fffd}b".to_string())
    );
    assert_eq!(
        line_event(b"data: \xe2\x82").map(StreamEvent::into_payload),
        Some("\u{fffd}".to_string())
    );
}

#[test]
fn chunks_give_hello_then_world() {
    let mut reassembler = Reassembler::new(1024);
    let first = process_buffer(&mut reassembler, b"data: hel");
    assert!(first.is_empty());
    assert_eq!(reassembler.fragment(), b"data: hel");
    let second = process_buffer(&mut reassembler, b"lo\n\ndata: world\n");
    assert_eq!(payloads(&second), vec!["hello", "world"]);
    assert!(reassembler.fragment().is_empty());
}

#[test]
fn process_buffer_drops_lines_that_are_no_events() {
    let mut reassembler = Reassembler::new(16);
    let events = process_buffer(
        &mut reassembler,
        b": comment\nevent: delta\ndata: one\n\nid: 3\ndata: two\r\ndata: \npart",
    );
    assert_eq!(payloads(&events), vec!["one", "two"]);
    assert_eq!(reassembler.fragment(), b"part");
}

#[test]
fn character_cut_by_a_chunk_boundary_stays_whole() {
    let mut reassembler = Reassembler::new(16);
    assert!(process_buffer(&mut reassembler, b"data: caf\xc3").is_empty());
    let events = process_buffer(&mut reassembler, b"\xa9\n");
    assert_eq!(payloads(&events), vec!["caf\u{e9}"]);
}

#[test]
fn events_do_not_depend_on_the_cut() {
    let stream: &[u8] = b"data: a\n\nnoise\ndata: b c\r\ndata: \xf0\x9f\x98\x80\n";
    let mut whole = Reassembler::new(8);
    let expected: Vec<String> =
        process_buffer(&mut whole, stream).into_iter().map(StreamEvent::into_payload).collect();
    assert_eq!(expected, vec!["a", "b c", "\u{1f600}"]);
    for cut in 0..=stream.len() {
        let mut reassembler = Reassembler::new(8);
        let mut events = process_buffer(&mut reassembler, &stream[..cut]);
        events.extend(process_buffer(&mut reassembler, &stream[cut..]));
        let got: Vec<String> = events.into_iter().map(StreamEvent::into_payload).collect();
        assert_eq!(got, expected, "cut at {}", cut);
    }
}

#[test]
fn white_space_is_what_the_standard_library_says() {
    for code in 0..=0x10ffff_u32 {
        if let Some(c) = char::from_u32(code) {
            assert_eq!(char_is_whitespace(c), c.is_whitespace(), "U+{:04X}", code);
        }
    }
}

#[test]
fn trim_bounds_agree_with_trim() {
    for text in ["", " ", "a", " a", "a ", "  a b  ", "\r\n\t x \u{a0}", "\u{3000}\u{3000}"] {
        let chars = chars_of(text);
        assert_eq!(chars, text.chars().collect::<Vec<char>>());
        let (start, end) = trim_bounds(&chars);
        let trimmed: String = chars[start..end].iter().collect();
        assert_eq!(trimmed, text.trim(), "text {:?}", text);
    }
}

#[test]
fn find_agrees_with_contains() {
    let texts = ["", "a", "ab", "aab", "text/event-stream", "xtext/event-stream; charset=utf-8", "text/event-strea", "abcabcabd"];
    let needles = ["", "a", "b", "ab", "abd", "text/event-stream", "abcd"];
    for text in texts {
        for needle in needles {
            let t = chars_of(text);
            let n = chars_of(needle);
            assert_eq!(find(&t, &n), text.contains(needle), "{:?} in {:?}", needle, text);
            assert_eq!(stands_at(&t, &n, 0), text.starts_with(needle));
            assert!(!stands_at(&t, &n, t.len() + 1));
        }
    }
}
