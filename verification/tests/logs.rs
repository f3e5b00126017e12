use aether_dev::logs::LogLines;

#[test]
fn a_line_is_shown_once_it_is_complete() {
    let mut lines = LogLines::new();
    assert!(lines.write(b"started in ").is_empty());
    assert_eq!(lines.write(b"3s  \r\nready\nnext"), vec!["started in 3s", "ready"]);
    assert_eq!(lines.write(b"\n"), vec!["next"]);
}

#[test]
fn how_the_bytes_were_cut_does_not_matter() {
    let text = "eins\nzwei über\n\ndrei\n".as_bytes();
    let mut whole = LogLines::new();
    let expected = whole.write(text);
    assert_eq!(expected, vec!["eins", "zwei über", "", "drei"]);
    for cut in 0..text.len() {
        let mut pieces = LogLines::new();
        let mut seen = pieces.write(&text[..cut]);
        seen.extend(pieces.write(&text[cut..]));
        assert_eq!(seen, expected);
    }
}

#[test]
fn bytes_that_are_no_text_are_replaced() {
    let mut lines = LogLines::new();
    assert_eq!(lines.write(b"a\xffb\n"), vec!["a\u{fffd}b"]);
}
