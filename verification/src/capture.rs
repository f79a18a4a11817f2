//! The reader of one output stream of a process: each line is forwarded as it
//! arrives and kept in the captured text.

use vstd::prelude::*;

use crate::text::{matches_at, texts};

verus! {

/// What the reader met on the stream.
#[derive(Debug, PartialEq, Eq)]
pub enum ReadEvent {
    /// A line arrived; the text is without its line ending.
    Line(String),
    /// Reading failed.
    Failed,
    /// The stream is at its end.
    End,
}

/// What the reader is to do next.
#[derive(Debug, PartialEq, Eq)]
pub enum ReaderAction {
    /// Hand this line to the live sink, then read on.
    Forward(String),
    /// Stop reading.
    Stop,
}

/// The text that holds each line followed by a line feed, in order.
pub open spec fn captured_text(lines: Seq<Seq<char>>) -> Seq<char>
    decreases lines.len(),
{
    if lines.len() == 0 {
        Seq::empty()
    } else {
        captured_text(lines.drop_last()) + lines.last() + seq!['\n']
    }
}

/// Where line `i` begins in the captured text.
pub open spec fn line_offset(lines: Seq<Seq<char>>, i: int) -> int {
    captured_text(lines.take(i)).len() as int
}

/// The lines and the whole text that one stream produced.
pub struct CapturedStream {
    lines: Vec<String>,
    text: String,
    open: bool,
}

impl CapturedStream {
    #[verifier::type_invariant]
    spec fn consistent(self) -> bool {
        self.text@ == captured_text(texts(self.lines@))
    }

    /// The lines forwarded so far, in the order of their arrival.
    pub closed spec fn lines(self) -> Seq<Seq<char>> {
        texts(self.lines@)
    }

    /// The text captured so far.
    pub closed spec fn text(self) -> Seq<char> {
        self.text@
    }

    /// Whether the stream is still read.
    pub closed spec fn is_open(self) -> bool {
        self.open
    }

    /// A capture that has seen nothing yet.
    pub fn new() -> (stream: CapturedStream)
        ensures
            stream.lines() == Seq::<Seq<char>>::empty(),
            stream.text() == Seq::<char>::empty(),
            stream.is_open(),
    {
        let stream = CapturedStream { lines: Vec::new(), text: String::new(), open: true };
        assert(texts(stream.lines@) =~= Seq::<Seq<char>>::empty());
        stream
    }

    /// Takes one event of the stream. A line that arrives while the stream
    /// is read is appended to the captured text with a line feed and is to
    /// be forwarded. A failure or the end closes the capture, and so it
    /// stays: what arrives later changes nothing.
    pub fn step(self, event: ReadEvent) -> (next: (CapturedStream, ReaderAction))
        ensures
            next.0.text() == captured_text(next.0.lines()),
            match event {
                ReadEvent::Line(line) if self.is_open() => {
                    &&& next.0.is_open()
                    &&& next.0.lines() == self.lines().push(line@)
                    &&& next.0.text() == self.text() + line@ + seq!['\n']
                    &&& next.1 matches ReaderAction::Forward(sent) && sent@ == line@
                },
                _ => {
                    &&& !next.0.is_open()
                    &&& next.0.lines() == self.lines()
                    &&& next.0.text() == self.text()
                    &&& next.1 == ReaderAction::Stop
                },
            },
    {
        proof {
            use_type_invariant(&self);
        }
        let CapturedStream { lines, text, open } = self;
        let mut lines = lines;
        let mut text = text;
        match event {
            ReadEvent::Line(line) => {
                if open {
                    let sent = line.clone();
                    let ghost before = texts(lines@);
                    let ghost earlier = text@;
                    let ghost arrived = line@;
                    text.append(line.as_str());
                    text.push('\n');
                    lines.push(line);
                    proof {
                        assert(texts(lines@) =~= before.push(arrived));
                        assert(texts(lines@).drop_last() =~= before);
                        assert(text@ =~= earlier + arrived + seq!['\n']);
                    }
                    (CapturedStream { lines, text, open: true }, ReaderAction::Forward(sent))
                } else {
                    (CapturedStream { lines, text, open: false }, ReaderAction::Stop)
                }
            },
            _ => (CapturedStream { lines, text, open: false }, ReaderAction::Stop),
        }
    }

    /// The number of lines captured.
    pub fn line_count(&self) -> (n: usize)
        ensures
            n == self.lines().len(),
    {
        self.lines.len()
    }

    /// The captured text: every forwarded line, each followed by a line
    /// feed, in the order of arrival.
    pub fn into_text(self) -> (text: String)
        ensures
            text@ == self.text(),
            text@ == captured_text(self.lines()),
    {
        proof {
            use_type_invariant(&self);
        }
        self.text
    }
}

/// The captured text of the first `k` lines is the beginning of the
/// captured text of them all.
pub proof fn lemma_capture_prefix(lines: Seq<Seq<char>>, k: int)
    requires
        0 <= k <= lines.len(),
    ensures
        captured_text(lines.take(k)).len() <= captured_text(lines).len(),
        captured_text(lines.take(k)) == captured_text(lines).subrange(
            0,
            captured_text(lines.take(k)).len() as int,
        ),
    decreases lines.len(),
{
    if k == lines.len() {
        assert(lines.take(k) =~= lines);
        let whole = captured_text(lines);
        assert(whole.subrange(0, whole.len() as int) =~= whole);
    } else {
        lemma_capture_prefix(lines.drop_last(), k);
        assert(lines.drop_last().take(k) =~= lines.take(k));
        let head = captured_text(lines.take(k));
        assert(head =~= captured_text(lines).subrange(0, head.len() as int));
    }
}

/// Every captured line stands in the captured text, as it was forwarded and
/// followed by a line feed, at its offset; the next line begins right after.
pub proof fn lemma_line_in_capture(lines: Seq<Seq<char>>, i: int)
    requires
        0 <= i < lines.len(),
    ensures
        matches_at(captured_text(lines), lines[i] + seq!['\n'], line_offset(lines, i)),
        line_offset(lines, i + 1) == line_offset(lines, i) + lines[i].len() + 1,
{
    let upto = lines.take(i + 1);
    assert(upto.drop_last() =~= lines.take(i));
    assert(upto.last() == lines[i]);
    lemma_capture_prefix(lines, i + 1);
    let whole = captured_text(lines);
    let head = captured_text(upto);
    let at = line_offset(lines, i);
    let ended = lines[i] + seq!['\n'];
    assert(head =~= captured_text(lines.take(i)) + lines[i] + seq!['\n']);
    assert(head.len() == at + ended.len());
    assert forall|k: int| 0 <= k < ended.len() implies whole[at + k] == ended[k] by {
        assert(head[at + k] == whole.subrange(0, head.len() as int)[at + k]);
    }
    assert(whole.subrange(at, at + ended.len()) =~= ended);
}

/// The captured lines stand in the captured text in the order in which
/// they were forwarded: an earlier line ends before a later one begins.
pub proof fn lemma_capture_order(lines: Seq<Seq<char>>, i: int, j: int)
    requires
        0 <= i < j < lines.len(),
    ensures
        line_offset(lines, i) + lines[i].len() < line_offset(lines, j),
    decreases j - i,
{
    lemma_line_in_capture(lines, i);
    if i + 1 < j {
        lemma_capture_order(lines, i + 1, j);
    }
}

} // verus!
