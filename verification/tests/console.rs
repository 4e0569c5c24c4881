use incus_executor::console::{line_of, ConsoleBuffer, ConsoleEvent, MAX_LINE};

fn strings(texts: &[&str]) -> Vec<String> {
    texts.iter().map(|text| text.to_string()).collect()
}

#[test]
fn lines_are_cut_at_newlines() {
    let mut buffer = ConsoleBuffer::new();
    assert_eq!(buffer.receive(b" hello\nwor"), strings(&["hello"]));
    assert_eq!(buffer.pending, b"wor".to_vec());
    assert_eq!(buffer.receive(b"ld\r\n\nagain\n"), strings(&["world", "", "again"]));
    assert_eq!(buffer.pending, Vec::<u8>::new());
}

#[test]
fn cut_keeps_the_bytes() {
    let mut buffer = ConsoleBuffer::new();
    assert_eq!(buffer.cut(b" a \n\xff\nrest"), vec![b" a ".to_vec(), vec![0xff]]);
    assert_eq!(buffer.pending, b"rest".to_vec());
}

#[test]
fn a_line_of_the_greatest_length_is_not_cut() {
    let mut buffer = ConsoleBuffer::new();
    let mut output = vec![b'x'; MAX_LINE];
    assert_eq!(buffer.receive(&output), Vec::<String>::new());
    assert_eq!(buffer.pending.len(), MAX_LINE);
    output.push(b'\n');
    let mut buffer = ConsoleBuffer::new();
    assert_eq!(buffer.receive(&output), vec!["x".repeat(512)]);
    assert_eq!(buffer.pending, Vec::<u8>::new());
}

#[test]
fn a_longer_line_is_cut() {
    let mut buffer = ConsoleBuffer::new();
    assert_eq!(buffer.receive(&vec![b'x'; 513]), vec!["x".repeat(512)]);
    assert_eq!(buffer.pending, b"x".to_vec());
    let mut output = vec![b'y'; 1100];
    output.push(b'\n');
    let mut buffer = ConsoleBuffer::new();
    assert_eq!(
        buffer.receive(&output),
        vec!["y".repeat(512), "y".repeat(512), "y".repeat(76)]
    );
}

#[test]
fn pieces_do_not_matter() {
    let mut output = vec![b'z'; 700];
    output.extend_from_slice(b"\n\nshort\ntail");
    let mut whole = ConsoleBuffer::new();
    let expected = whole.receive(&output);
    for size in [1, 3, 100, 511, 512, 513] {
        let mut buffer = ConsoleBuffer::new();
        let mut lines = Vec::new();
        for piece in output.chunks(size) {
            lines.extend(buffer.receive(piece));
        }
        assert_eq!(lines, expected);
        assert_eq!(buffer.pending, whole.pending);
    }
}

#[test]
fn lines_are_short_and_nothing_is_lost() {
    let mut output = Vec::new();
    for i in 0..3000u32 {
        output.push(if i % 700 == 0 { b'\n' } else { b'a' + (i % 26) as u8 });
    }
    let mut buffer = ConsoleBuffer::new();
    let lines = buffer.cut(&output);
    assert!(lines.iter().all(|line| line.len() <= MAX_LINE && !line.contains(&b'\n')));
    let mut bytes: Vec<u8> = lines.concat();
    bytes.extend_from_slice(&buffer.pending);
    let kept: Vec<u8> = output.into_iter().filter(|&b| b != b'\n').collect();
    assert_eq!(bytes, kept);
}

#[test]
fn bytes_that_are_no_text_are_replaced() {
    let mut buffer = ConsoleBuffer::new();
    assert_eq!(buffer.receive(b"\xff ok \xc3\xa9\n"), strings(&["\u{fffd} ok \u{e9}"]));
}

#[test]
fn white_space_is_trimmed() {
    assert_eq!(line_of("\u{3000}\t a b \u{85}\r"), "a b");
    assert_eq!(line_of(" \u{200b} "), "\u{200b}");
    assert_eq!(line_of(""), "");
}

#[test]
fn white_space_is_that_of_the_standard_library() {
    for c in (0..=0x10ffffu32).filter_map(char::from_u32) {
        let text = format!("{}a{}b{}", c, c, c);
        assert_eq!(line_of(&text), text.trim());
    }
    assert_eq!(line_of(" \t\u{2003} "), "");
}

#[test]
fn events_of_the_connection() {
    let mut buffer = ConsoleBuffer::new();
    let output = buffer.handle(ConsoleEvent::Binary(b"one\ntw".to_vec()));
    assert_eq!(output.lines, strings(&["one"]));
    assert!(output.open);
    let output = buffer.handle(ConsoleEvent::Other);
    assert_eq!(output.lines, Vec::<String>::new());
    assert!(output.open);
    let output = buffer.handle(ConsoleEvent::Text("o \u{e9}\nlast ".to_string()));
    assert_eq!(output.lines, strings(&["two \u{e9}"]));
    assert!(output.open);
    let output = buffer.handle(ConsoleEvent::Closed);
    assert_eq!(output.lines, strings(&["last"]));
    assert!(!output.open);
    let output = buffer.handle(ConsoleEvent::Closed);
    assert_eq!(output.lines, Vec::<String>::new());
}
