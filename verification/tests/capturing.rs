use solver_log::capture::{CapturedStream, ReadEvent, ReaderAction};

fn line(s: &str) -> ReadEvent {
    ReadEvent::Line(s.to_string())
}

#[test]
fn new_capture_is_empty() {
    let stream = CapturedStream::new();
    assert_eq!(stream.line_count(), 0);
    assert_eq!(stream.into_text(), "");
}

#[test]
fn every_forwarded_line_is_captured_in_order() {
    let mut stream = CapturedStream::new();
    let mut forwarded: Vec<String> = Vec::new();
    for text in ["first", "", "  third  ", "4"] {
        let (next, action) = stream.step(line(text));
        stream = next;
        match action {
            ReaderAction::Forward(sent) => forwarded.push(sent),
            ReaderAction::Stop => panic!("stopped early"),
        }
    }
    assert_eq!(forwarded, vec!["first", "", "  third  ", "4"]);
    assert_eq!(stream.line_count(), 4);
    let text = stream.into_text();
    assert_eq!(text, "first\n\n  third  \n4\n");
    let mut from = 0;
    for sent in &forwarded {
        let line_end = format!("{}\n", sent);
        assert!(text[from..].starts_with(&line_end));
        from += line_end.len();
    }
    assert_eq!(from, text.len());
}

#[test]
fn end_of_stream_stops_the_reader() {
    let (stream, _) = CapturedStream::new().step(line("a"));
    let (stream, action) = stream.step(ReadEvent::End);
    assert_eq!(action, ReaderAction::Stop);
    assert_eq!(stream.into_text(), "a\n");
}

#[test]
fn failure_ends_the_stream_early() {
    let (stream, _) = CapturedStream::new().step(line("a"));
    let (stream, action) = stream.step(ReadEvent::Failed);
    assert_eq!(action, ReaderAction::Stop);
    let (stream, action) = stream.step(line("late"));
    assert_eq!(action, ReaderAction::Stop);
    assert_eq!(stream.line_count(), 1);
    assert_eq!(stream.into_text(), "a\n");
}

#[test]
fn closed_capture_stays_closed() {
    let (stream, _) = CapturedStream::new().step(ReadEvent::End);
    let (stream, action) = stream.step(ReadEvent::End);
    assert_eq!(action, ReaderAction::Stop);
    let (stream, action) = stream.step(line("x"));
    assert_eq!(action, ReaderAction::Stop);
    assert_eq!(stream.into_text(), "");
}
