use aether_dev::frames::{Frames, Piece};

fn piece(is_error: bool, text: &str) -> Piece {
    Piece {
        is_error,
        bytes: text.as_bytes().to_vec(),
    }
}

fn frame(stream: u8, text: &str) -> Vec<u8> {
    let mut bytes = vec![stream, 0, 0, 0];
    bytes.extend((text.len() as u32).to_be_bytes());
    bytes.extend(text.as_bytes());
    bytes
}

#[test]
fn the_two_outputs_are_told_apart() {
    let mut stream = frame(1, "ready\n");
    stream.extend(frame(2, "a warning\n"));
    stream.extend(frame(1, ""));
    assert_eq!(
        Frames::new().write(&stream),
        vec![piece(false, "ready\n"), piece(true, "a warning\n"), piece(false, "")]
    );
}

#[test]
fn where_the_stream_was_cut_does_not_matter() {
    let long = "x".repeat(300);
    let mut stream = frame(1, &long);
    stream.extend(frame(2, "y"));
    for cut in 0..=stream.len() {
        let mut frames = Frames::new();
        let mut seen = frames.write(&stream[..cut]);
        seen.extend(frames.write(&stream[cut..]));
        assert_eq!(seen, vec![piece(false, &long), piece(true, "y")]);
    }
}
