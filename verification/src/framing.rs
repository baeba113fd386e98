//! Lines on the wire: one request or response on each.

use vstd::prelude::*;

use crate::proto::{refusal, Response, ResponseView};
use crate::text::{quote, quoted, trim, trim_end, trimmed, trimmed_end};

verus! {

/// The most bytes a request may take, its line end aside.
pub const REQUEST_LIMIT: usize = 65536;

/// The byte that ends a line.
pub const LINE_FEED: u8 = 10;

/// The byte that may stand before it.
pub const CARRIAGE_RETURN: u8 = 13;

/// What comes out of a stream of bytes.
#[derive(Debug, Clone)]
pub enum Frame {
    /// A line, without its end.
    Line(Vec<u8>),
    /// A line that is too long. Nothing comes after it.
    Oversized,
}

/// A [`Frame`] with its bytes as a sequence.
#[verifier::ext_equal]
pub enum FrameView {
    Line(Seq<u8>),
    Oversized,
}

impl View for Frame {
    type V = FrameView;

    open spec fn view(&self) -> FrameView {
        match *self {
            Frame::Line(bytes) => FrameView::Line(bytes@),
            Frame::Oversized => FrameView::Oversized,
        }
    }
}

/// The views of the frames.
pub open spec fn frame_views(frames: Seq<Frame>) -> Seq<FrameView> {
    frames.map_values(|f: Frame| f@)
}

/// Cuts a stream of bytes into lines as they come.
#[derive(Debug, Clone)]
pub struct Framer {
    pub pending: Vec<u8>,
    /// Whether a line was too long: the rest of the stream cannot be made out.
    pub closed: bool,
}

/// A [`Framer`] with its bytes as a sequence.
#[verifier::ext_equal]
pub struct FramerView {
    pub pending: Seq<u8>,
    pub closed: bool,
}

impl View for Framer {
    type V = FramerView;

    open spec fn view(&self) -> FramerView {
        FramerView { pending: self.pending@, closed: self.closed }
    }
}

/// A line without the carriage return it may end with.
pub open spec fn without_return(line: Seq<u8>) -> Seq<u8> {
    if line.len() > 0 && line.last() == CARRIAGE_RETURN {
        line.drop_last()
    } else {
        line
    }
}

impl FramerView {
    /// Nothing read yet.
    pub open spec fn fresh() -> FramerView {
        FramerView { pending: seq![], closed: false }
    }

    /// Whether what is held back is within the limit.
    pub open spec fn bounded(self) -> bool {
        self.pending.len() <= REQUEST_LIMIT
    }

    /// The state after one more byte.
    pub open spec fn after(self, byte: u8) -> FramerView {
        if self.closed {
            self
        } else if byte == LINE_FEED {
            FramerView::fresh()
        } else if self.pending.len() >= REQUEST_LIMIT {
            FramerView { pending: seq![], closed: true }
        } else {
            FramerView { pending: self.pending.push(byte), closed: false }
        }
    }

    /// What comes out with one more byte.
    pub open spec fn emits(self, byte: u8) -> Seq<FrameView> {
        if self.closed {
            seq![]
        } else if byte == LINE_FEED {
            seq![FrameView::Line(without_return(self.pending))]
        } else if self.pending.len() >= REQUEST_LIMIT {
            seq![FrameView::Oversized]
        } else {
            seq![]
        }
    }

    /// The state after more bytes.
    pub open spec fn after_all(self, bytes: Seq<u8>) -> FramerView
        decreases bytes.len(),
    {
        if bytes.len() == 0 {
            self
        } else {
            self.after_all(bytes.drop_last()).after(bytes.last())
        }
    }

    /// What comes out with more bytes.
    pub open spec fn emits_all(self, bytes: Seq<u8>) -> Seq<FrameView>
        decreases bytes.len(),
    {
        if bytes.len() == 0 {
            seq![]
        } else {
            self.emits_all(bytes.drop_last()) + self.after_all(bytes.drop_last()).emits(
                bytes.last(),
            )
        }
    }
}

impl Framer {
    /// A framer that has read nothing yet.
    pub fn new() -> (f: Framer)
        ensures
            f@ == FramerView::fresh(),
    {
        let f = Framer { pending: Vec::new(), closed: false };
        assert(f@ =~= FramerView::fresh());
        f
    }

    fn push(&mut self, byte: u8) -> (frame: Option<Frame>)
        ensures
            final(self)@ == old(self)@.after(byte),
            old(self)@.emits(byte) == match frame {
                Some(f) => seq![f@],
                None => seq![],
            },
    {
        if self.closed {
            return None;
        }
        if byte == LINE_FEED {
            let mut line: Vec<u8> = Vec::new();
            std::mem::swap(&mut line, &mut self.pending);
            let n: usize = line.len();
            if n > 0 && line[n - 1] == CARRIAGE_RETURN {
                let _ = line.pop();
            }
            assert(line@ =~= without_return(old(self)@.pending));
            assert(self@ =~= FramerView::fresh());
            return Some(Frame::Line(line));
        }
        if self.pending.len() >= REQUEST_LIMIT {
            self.pending.clear();
            self.closed = true;
            assert(self.pending@ =~= seq![]);
            return Some(Frame::Oversized);
        }
        self.pending.push(byte);
        None
    }

    /// The lines that end in these bytes.
    pub fn feed(&mut self, bytes: &[u8]) -> (frames: Vec<Frame>)
        ensures
            final(self)@ == old(self)@.after_all(bytes@),
            frame_views(frames@) == old(self)@.emits_all(bytes@),
    {
        let ghost start = self@;
        let mut frames: Vec<Frame> = Vec::new();
        let mut i: usize = 0;
        let len: usize = bytes.len();
        assert(bytes@.take(0) =~= seq![]);
        assert(frame_views(frames@) =~= seq![]);
        while i < len
            invariant
                i <= len,
                len == bytes@.len(),
                self@ == start.after_all(bytes@.take(i as int)),
                frame_views(frames@) == start.emits_all(bytes@.take(i as int)),
            decreases len - i,
        {
            let ghost next = bytes@.take(i + 1);
            let ghost was = frame_views(frames@);
            assert(next.drop_last() =~= bytes@.take(i as int));
            match self.push(bytes[i]) {
                Some(frame) => {
                    frames.push(frame);
                    assert(frame_views(frames@) =~= was + seq![frame@]);
                },
                None => {
                    assert(was =~= was + seq![]);
                },
            }
            i = i + 1;
        }
        assert(bytes@.take(i as int) =~= bytes@);
        frames
    }

    /// The last line of a stream that does not end with one's end.
    pub fn finish(self) -> (line: Option<Vec<u8>>)
        ensures
            match line {
                Some(l) => !self@.closed && l@ == self@.pending && l@.len() > 0,
                None => self@.closed || self@.pending.len() == 0,
            },
    {
        if self.closed || self.pending.len() == 0 {
            None
        } else {
            Some(self.pending)
        }
    }
}

/// How the bytes are cut into chunks on their way does not matter.
pub proof fn chunks_do_not_matter(f: FramerView, a: Seq<u8>, b: Seq<u8>)
    ensures
        f.after_all(a + b) == f.after_all(a).after_all(b),
        f.emits_all(a + b) == f.emits_all(a) + f.after_all(a).emits_all(b),
    decreases b.len(),
{
    if b.len() == 0 {
        assert(a + b =~= a);
        assert(f.emits_all(a) + seq![] =~= f.emits_all(a));
    } else {
        let shorter = b.drop_last();
        chunks_do_not_matter(f, a, shorter);
        assert((a + b).drop_last() =~= a + shorter);
        assert((a + b).last() == b.last());
        assert(f.emits_all(a + b) =~= f.emits_all(a) + f.after_all(a).emits_all(b));
    }
}

/// What is held back of a line never exceeds the limit, however long a client
/// keeps a line open.
pub proof fn held_back_is_bounded(f: FramerView, bytes: Seq<u8>)
    requires
        f.bounded(),
    ensures
        f.after_all(bytes).bounded(),
    decreases bytes.len(),
{
    if bytes.len() > 0 {
        held_back_is_bounded(f, bytes.drop_last());
    }
}

/// Whether a line holds no line end.
pub open spec fn one_line(line: Seq<u8>) -> bool {
    forall|i: int| 0 <= i < line.len() ==> #[trigger] line[i] != LINE_FEED
}

proof fn lemma_fill(line: Seq<u8>)
    requires
        one_line(line),
        line.len() <= REQUEST_LIMIT,
    ensures
        FramerView::fresh().after_all(line) == (FramerView { pending: line, closed: false }),
        FramerView::fresh().emits_all(line) == Seq::<FrameView>::empty(),
    decreases line.len(),
{
    if line.len() > 0 {
        let shorter = line.drop_last();
        assert forall|i: int| 0 <= i < shorter.len() implies #[trigger] shorter[i]
            != LINE_FEED by {
            assert(shorter[i] == line[i]);
        }
        lemma_fill(shorter);
        assert(line[line.len() - 1] != LINE_FEED);
        assert(shorter.push(line.last()) =~= line);
        assert(FramerView::fresh().emits_all(line) =~= Seq::<FrameView>::empty());
    } else {
        assert(line =~= seq![]);
    }
}

/// The lines with an end after each.
pub open spec fn written(lines: Seq<Seq<u8>>) -> Seq<u8>
    decreases lines.len(),
{
    if lines.len() == 0 {
        seq![]
    } else {
        written(lines.drop_last()) + lines.last().push(LINE_FEED)
    }
}

/// What was written as lines is read as the same lines, none of them lost,
/// split or joined.
pub proof fn lines_are_read_back(lines: Seq<Seq<u8>>)
    requires
        forall|i: int|
            0 <= i < lines.len() ==> one_line(#[trigger] lines[i]) && lines[i].len()
                <= REQUEST_LIMIT,
    ensures
        FramerView::fresh().emits_all(written(lines)) == lines.map_values(
            |line: Seq<u8>| FrameView::Line(without_return(line)),
        ),
        FramerView::fresh().after_all(written(lines)) == FramerView::fresh(),
    decreases lines.len(),
{
    let read = |line: Seq<u8>| FrameView::Line(without_return(line));
    if lines.len() == 0 {
        assert(lines.map_values(read) =~= seq![]);
    } else {
        let earlier = lines.drop_last();
        let line = lines.last();
        assert(one_line(lines[lines.len() - 1]));
        assert forall|i: int| 0 <= i < earlier.len() implies one_line(#[trigger] earlier[i])
            && earlier[i].len() <= REQUEST_LIMIT by {
            assert(earlier[i] == lines[i]);
        }
        lines_are_read_back(earlier);
        lemma_fill(line);
        let last = line.push(LINE_FEED);
        assert(last.drop_last() =~= line);
        assert(FramerView::fresh().emits_all(last) =~= seq![read(line)]);
        chunks_do_not_matter(FramerView::fresh(), written(earlier), last);
        assert(lines.map_values(read) =~= earlier.map_values(read) + seq![read(line)]);
    }
}

/// A line that goes on beyond the limit comes out as oversized, and nothing
/// after it comes out at all.
pub proof fn oversized_lines_close_the_stream(line: Seq<u8>, more: u8, rest: Seq<u8>)
    requires
        one_line(line),
        line.len() == REQUEST_LIMIT,
        more != LINE_FEED,
    ensures
        FramerView::fresh().emits_all(line.push(more) + rest) == seq![FrameView::Oversized],
    decreases rest.len(),
{
    let start = line.push(more);
    lemma_fill(line);
    assert(start.drop_last() =~= line);
    assert(FramerView::fresh().emits_all(start) =~= seq![FrameView::Oversized]);
    let closed = FramerView::fresh().after_all(start);
    lemma_closed_stays(closed, rest);
    chunks_do_not_matter(FramerView::fresh(), start, rest);
    assert(seq![FrameView::Oversized] + seq![] =~= seq![FrameView::Oversized]);
}

proof fn lemma_closed_stays(f: FramerView, bytes: Seq<u8>)
    requires
        f.closed,
    ensures
        f.after_all(bytes) == f,
        f.emits_all(bytes) == Seq::<FrameView>::empty(),
    decreases bytes.len(),
{
    if bytes.len() > 0 {
        lemma_closed_stays(f, bytes.drop_last());
        assert(f.emits_all(bytes) =~= Seq::<FrameView>::empty());
    }
}

/// Whether a line holds a request; a blank one is passed over.
pub fn holds_request(line: &str) -> (b: bool)
    ensures
        b == (trim(line@).len() > 0),
{
    trimmed(line).as_str().unicode_len() > 0
}

/// What is answered to a line that is no request.
pub fn bad_request(why: &str) -> (r: Response)
    ensures
        r@ == (ResponseView::Error { message: "bad request: "@ + why@ }),
{
    refusal("bad request: ".to_owned().concat(why))
}

/// What is answered to a line that is too long, before the connection is
/// closed.
pub fn too_long() -> (r: Response)
    ensures
        r@ == (ResponseView::Error { message: "request exceeds 64 KiB"@ }),
{
    refusal("request exceeds 64 KiB".to_owned())
}

/// A message as it goes over the wire.
pub fn framed(message: String) -> (line: String)
    ensures
        line@ == message@.push('\n'),
{
    let mut line = message;
    line.push('\n');
    line
}

/// The response in what was read of the daemon's reply; an error where the
/// daemon said nothing before it hung up.
pub fn reply_text(read: &str) -> (text: Result<String, String>)
    ensures
        match text {
            Ok(t) => read@.len() > 0 && t@ == trim_end(read@),
            Err(e) => read@.len() == 0 && e@ == "daemon closed the connection"@,
        },
{
    if read.unicode_len() == 0 {
        Err("daemon closed the connection".to_owned())
    } else {
        Ok(trimmed_end(read))
    }
}

/// What is said of a reply that is no response.
pub fn unreadable_reply(read: &str) -> (message: String)
    ensures
        message@ == "parsing daemon reply: "@ + quote(read@),
{
    "parsing daemon reply: ".to_owned().concat(quoted(read).as_str())
}

/// What is said where the daemon cannot be reached.
pub fn unreachable_at(path: &str) -> (message: String)
    ensures
        message@ == "connecting to "@ + path@,
{
    "connecting to ".to_owned().concat(path)
}

/// A line comes out as it went in, but for one carriage return at its end; and
/// one of 64 KiB still does.
pub proof fn lines_come_out_as_they_went_in(line: Seq<u8>)
    requires
        forall|i: int| 0 <= i < line.len() ==> #[trigger] line[i] != 10,
        line.len() <= 65536,
    ensures
        line.len() == 0 || line.last() != 13 ==> FramerView::fresh().emits_all(line.push(10))
            == seq![FrameView::Line(line)],
        line.len() > 0 && line.last() == 13 ==> FramerView::fresh().emits_all(line.push(10))
            == seq![FrameView::Line(line.drop_last())],
{
    lemma_fill(line);
    let whole = line.push(10);
    assert(whole.drop_last() =~= line);
    assert(FramerView::fresh().emits_all(whole) =~= seq![
        FrameView::Line(without_return(line)),
    ]);
}

/// A line is a request unless it is blank; a reply is what was read without the
/// white space at its end, and nothing read at all is no reply.
pub proof fn blank_lines_are_no_requests(
    read: &str,
    asks: bool,
    text: Result<String, String>,
)
    ensures
        call_ensures(holds_request, (read,), asks) ==> asks == (trim(read@).len() > 0),
        call_ensures(reply_text, (read,), text) ==> (text is Ok <==> read@.len() > 0) && (text is Ok
            ==> text->Ok_0@ == trim_end(read@)),
{
}

} // verus!
