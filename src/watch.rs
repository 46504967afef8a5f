//! Incremental decoding of a newline-delimited JSON watch stream.
//!
//! Bytes that are not yet resolved into an emitted frame are kept in one
//! buffer, with line separators removed. At each line separator the buffer is
//! checked as a JSON document: a complete document or a malformed one is
//! emitted and the buffer is cleared; a truncated one is kept, so that a
//! document that spans several lines is joined with the lines that follow.
use vstd::prelude::*;
use crate::transport::{benign, TransportFault};

verus! {

/// Whether a byte sequence holds one JSON document.
#[derive(Clone, Copy, PartialEq, Eq, Structural, Debug)]
pub enum Scan {
    /// One complete JSON document.
    Complete,
    /// The input ends before the document does.
    Truncated,
    /// The input is not JSON for any other reason.
    Malformed,
}

/// How serde_json's parser judges `bytes` as one JSON document.
pub uninterp spec fn json_scan(bytes: Seq<u8>) -> Scan;

/// Relies on serde_json::from_slice, parsing into serde_json::Value, with
/// serde_json::Error::is_eof telling truncated input from malformed input.
#[verifier::external_body]
fn scan_json(bytes: &[u8]) -> (r: Scan)
    ensures
        r == json_scan(bytes@),
{
    match serde_json::from_slice::<serde_json::Value>(bytes) {
        Ok(_) => Scan::Complete,
        Err(e) if e.is_eof() => Scan::Truncated,
        Err(_) => Scan::Malformed,
    }
}

/// What a frame cut from the stream holds.
#[derive(Clone, Copy, PartialEq, Eq, Structural, Debug)]
pub enum FrameKind {
    /// A complete JSON document, to be decoded as an item.
    Document,
    /// Text that is no JSON document; it is reported, and the stream goes on.
    Malformed,
}

/// One unit cut from the stream, in arrival order.
#[derive(Clone, Debug, PartialEq, Eq)]
pub struct Frame {
    pub kind: FrameKind,
    pub bytes: Vec<u8>,
}

impl View for Frame {
    type V = (FrameKind, Seq<u8>);

    open spec fn view(&self) -> (FrameKind, Seq<u8>) {
        (self.kind, self.bytes@)
    }
}

/// The abstract values of a sequence of frames.
pub open spec fn frames_view(frames: Seq<Frame>) -> Seq<(FrameKind, Seq<u8>)> {
    frames.map_values(|f: Frame| f@)
}

/// The line separator of the wire format.
pub const NEWLINE: u8 = 10;

/// Effect of one byte on the unresolved bytes `buf`: the new unresolved bytes
/// and the frames emitted.
pub open spec fn step(buf: Seq<u8>, b: u8) -> (Seq<u8>, Seq<(FrameKind, Seq<u8>)>) {
    if b != NEWLINE {
        (buf.push(b), seq![])
    } else {
        match json_scan(buf) {
            Scan::Complete => (seq![], seq![(FrameKind::Document, buf)]),
            Scan::Truncated => (buf, seq![]),
            Scan::Malformed => (seq![], seq![(FrameKind::Malformed, buf)]),
        }
    }
}

/// Effect of the bytes `bytes`, in order, on the unresolved bytes `buf`.
pub open spec fn feed(buf: Seq<u8>, bytes: Seq<u8>) -> (Seq<u8>, Seq<(FrameKind, Seq<u8>)>)
    decreases bytes.len(),
{
    if bytes.len() == 0 {
        (buf, seq![])
    } else {
        let prev = feed(buf, bytes.drop_last());
        let last = step(prev.0, bytes.last());
        (last.0, prev.1 + last.1)
    }
}

/// Effect of the chunks `chunks`, delivered one after another, on the
/// unresolved bytes `buf`.
pub open spec fn feed_chunks(buf: Seq<u8>, chunks: Seq<Seq<u8>>) -> (Seq<u8>, Seq<(FrameKind, Seq<u8>)>)
    decreases chunks.len(),
{
    if chunks.len() == 0 {
        (buf, seq![])
    } else {
        let first = feed(buf, chunks[0]);
        let rest = feed_chunks(first.0, chunks.drop_first());
        (rest.0, first.1 + rest.1)
    }
}

/// What one read from the transport produced.
#[derive(Clone, Debug, PartialEq, Eq)]
pub enum ReadEvent {
    /// Bytes arrived.
    Chunk(Vec<u8>),
    /// The stream ended cleanly.
    End,
    /// The read failed.
    Failed(TransportFault),
}

/// What the consumer of a watch gets from one read.
#[derive(Clone, Debug, PartialEq, Eq)]
pub enum Pull {
    /// Frames cut from the stream, possibly none; the watch goes on.
    Batch(Vec<Frame>),
    /// The watch is over, without an error.
    Finished,
    /// The watch is over; the transport failed with this message, the last
    /// item of the watch.
    Fatal(String),
}

/// Decoder of one watch stream: owns the bytes that are not yet resolved into
/// an emitted frame.
pub struct WatchDecoder {
    buffer: Vec<u8>,
    finished: bool,
}

impl WatchDecoder {
    /// The bytes received and not yet resolved, line separators removed.
    pub closed spec fn buffered(&self) -> Seq<u8> {
        self.buffer@
    }

    /// Whether the watch is over.
    pub closed spec fn is_finished(&self) -> bool {
        self.finished
    }

    /// The unresolved bytes hold no line separator.
    pub open spec fn wf(&self) -> bool {
        !self.buffered().contains(NEWLINE)
    }

    /// A decoder for a stream that has just opened.
    pub fn new() -> (r: Self)
        ensures
            r.buffered() == Seq::<u8>::empty(),
            !r.is_finished(),
            r.wf(),
    {
        WatchDecoder { buffer: Vec::new(), finished: false }
    }

    /// Takes in the chunk `chunk` and returns the frames that it completes, in
    /// order.
    pub fn push(&mut self, chunk: &[u8]) -> (r: Vec<Frame>)
        ensures
            final(self).buffered() == feed(old(self).buffered(), chunk@).0,
            frames_view(r@) == feed(old(self).buffered(), chunk@).1,
            final(self).is_finished() == old(self).is_finished(),
            old(self).wf() ==> final(self).wf(),
    {
        proof {
            if self.wf() {
                lemma_unresolved_has_no_separator(self.buffer@, chunk@);
            }
        }
        let ghost start = self.buffer@;
        let mut frames: Vec<Frame> = Vec::new();
        let mut i: usize = 0;
        assert(chunk@.subrange(0, 0) =~= Seq::<u8>::empty());
        assert(frames_view(frames@) =~= seq![]);
        while i < chunk.len()
            invariant
                i <= chunk@.len(),
                self.finished == old(self).finished,
                feed(start, chunk@.subrange(0, i as int)) == (self.buffer@, frames_view(frames@)),
            decreases chunk@.len() - i,
        {
            let b = chunk[i];
            let ghost before = frames@;
            let ghost buf = self.buffer@;
            if b != NEWLINE {
                self.buffer.push(b);
            } else {
                match scan_json(self.buffer.as_slice()) {
                    Scan::Complete => {
                        let mut doc: Vec<u8> = Vec::new();
                        std::mem::swap(&mut doc, &mut self.buffer);
                        frames.push(Frame { kind: FrameKind::Document, bytes: doc });
                    },
                    Scan::Truncated => {},
                    Scan::Malformed => {
                        let mut bad: Vec<u8> = Vec::new();
                        std::mem::swap(&mut bad, &mut self.buffer);
                        frames.push(Frame { kind: FrameKind::Malformed, bytes: bad });
                    },
                }
            }
            proof {
                let next = chunk@.subrange(0, i + 1);
                assert(next.drop_last() =~= chunk@.subrange(0, i as int));
                assert(next.last() == b);
                assert(self.buffer@ =~= step(buf, b).0);
                assert(frames_view(frames@) =~= frames_view(before) + step(buf, b).1);
            }
            i = i + 1;
        }
        assert(chunk@.subrange(0, i as int) =~= chunk@);
        frames
    }

    /// Handles the outcome of one read from the transport: a chunk is decoded;
    /// a clean end or a benign fault ends the watch without an error; any
    /// other fault ends it with that fault as its last item. Once the watch is
    /// over, every event gives `Finished`.
    pub fn on_read(&mut self, event: ReadEvent) -> (r: Pull)
        ensures
            old(self).wf() ==> final(self).wf(),
            old(self).is_finished() ==> r is Finished && *final(self) == *old(self),
            !old(self).is_finished() ==> match event {
                ReadEvent::Chunk(c) => r matches Pull::Batch(frames) && frames_view(frames@) == feed(
                    old(self).buffered(),
                    c@,
                ).1 && final(self).buffered() == feed(old(self).buffered(), c@).0 && !final(self).is_finished(),
                ReadEvent::End => r is Finished && final(self).is_finished(),
                ReadEvent::Failed(fault) => final(self).is_finished() && if benign(fault) {
                    r is Finished
                } else {
                    r == Pull::Fatal(fault.message)
                },
            },
    {
        if self.finished {
            return Pull::Finished;
        }
        match event {
            ReadEvent::Chunk(c) => Pull::Batch(self.push(c.as_slice())),
            ReadEvent::End => {
                self.finished = true;
                Pull::Finished
            },
            ReadEvent::Failed(fault) => {
                self.finished = true;
                if fault.is_benign() {
                    Pull::Finished
                } else {
                    Pull::Fatal(fault.message)
                }
            },
        }
    }
}

/// Feeding `x` and then `y` is feeding `x + y`.
pub proof fn lemma_feed_append(buf: Seq<u8>, x: Seq<u8>, y: Seq<u8>)
    ensures
        feed(buf, x + y) == (feed(feed(buf, x).0, y).0, feed(buf, x).1 + feed(feed(buf, x).0, y).1),
    decreases y.len(),
{
    let mid = feed(buf, x);
    if y.len() == 0 {
        assert(x + y =~= x);
        assert(mid.1 + seq![] =~= mid.1);
    } else {
        lemma_feed_append(buf, x, y.drop_last());
        assert((x + y).drop_last() =~= x + y.drop_last());
        assert((x + y).last() == y.last());
        let prev = feed(mid.0, y.drop_last());
        let last = step(prev.0, y.last());
        assert(mid.1 + prev.1 + last.1 =~= mid.1 + (prev.1 + last.1));
    }
}

/// Feeding chunks one after another is feeding their concatenation.
pub proof fn lemma_feed_chunks_flatten(buf: Seq<u8>, chunks: Seq<Seq<u8>>)
    ensures
        feed_chunks(buf, chunks) == feed(buf, chunks.flatten()),
    decreases chunks.len(),
{
    if chunks.len() == 0 {
        assert(chunks.flatten() =~= Seq::<u8>::empty());
    } else {
        let first = feed(buf, chunks[0]);
        lemma_feed_chunks_flatten(first.0, chunks.drop_first());
        lemma_feed_append(buf, chunks[0], chunks.drop_first().flatten());
    }
}

/// Chunk invariance: two ways of cutting the same stream bytes into chunks
/// yield the same frames, in the same order, and leave the same bytes
/// unresolved.
pub proof fn lemma_chunk_invariance(a: Seq<Seq<u8>>, b: Seq<Seq<u8>>)
    requires
        a.flatten() == b.flatten(),
    ensures
        feed_chunks(seq![], a) == feed_chunks(seq![], b),
{
    lemma_feed_chunks_flatten(seq![], a);
    lemma_feed_chunks_flatten(seq![], b);
}

/// The bytes of a sequence of frames, one after another.
pub open spec fn frame_bytes(frames: Seq<(FrameKind, Seq<u8>)>) -> Seq<u8>
    decreases frames.len(),
{
    if frames.len() == 0 {
        seq![]
    } else {
        frame_bytes(frames.drop_last()) + frames.last().1
    }
}

/// `bytes` without its line separators.
pub open spec fn strip_separators(bytes: Seq<u8>) -> Seq<u8>
    decreases bytes.len(),
{
    if bytes.len() == 0 {
        seq![]
    } else if bytes.last() == NEWLINE {
        strip_separators(bytes.drop_last())
    } else {
        strip_separators(bytes.drop_last()).push(bytes.last())
    }
}

/// The bytes of `frames` followed by one more frame.
proof fn lemma_frame_bytes_push(frames: Seq<(FrameKind, Seq<u8>)>, more: Seq<(FrameKind, Seq<u8>)>)
    requires
        more.len() <= 1,
    ensures
        frame_bytes(frames + more) == frame_bytes(frames) + frame_bytes(more),
{
    if more.len() == 0 {
        assert(frames + more =~= frames);
        assert(frame_bytes(frames) + seq![] =~= frame_bytes(frames));
    } else {
        assert((frames + more).drop_last() =~= frames);
        assert((frames + more).last() == more.last());
        assert(more.drop_last() =~= Seq::<(FrameKind, Seq<u8>)>::empty());
        assert(frame_bytes(more.drop_last()) == Seq::<u8>::empty());
        assert(Seq::<u8>::empty() + more.last().1 =~= more.last().1);
    }
}

/// No byte is lost: the bytes of the emitted frames, followed by the bytes
/// left unresolved, are the bytes held before followed by the bytes fed, line
/// separators removed.
pub proof fn lemma_no_bytes_dropped(buf: Seq<u8>, bytes: Seq<u8>)
    ensures
        frame_bytes(feed(buf, bytes).1) + feed(buf, bytes).0 == buf + strip_separators(bytes),
    decreases bytes.len(),
{
    if bytes.len() == 0 {
        assert(strip_separators(bytes) =~= Seq::<u8>::empty());
        assert(buf + seq![] =~= buf);
        assert(seq![] + buf =~= buf);
    } else {
        lemma_no_bytes_dropped(buf, bytes.drop_last());
        let prev = feed(buf, bytes.drop_last());
        let b = bytes.last();
        let last = step(prev.0, b);
        lemma_frame_bytes_push(prev.1, last.1);
        if b != NEWLINE {
            assert(last.1 =~= Seq::<(FrameKind, Seq<u8>)>::empty());
            assert(frame_bytes(last.1) == Seq::<u8>::empty());
            assert(frame_bytes(prev.1 + last.1) =~= frame_bytes(prev.1));
            assert(last.0 == prev.0.push(b));
            assert(strip_separators(bytes) == strip_separators(bytes.drop_last()).push(b));
            assert(frame_bytes(prev.1) + prev.0.push(b) =~= (frame_bytes(prev.1) + prev.0).push(b));
            assert(buf + strip_separators(bytes.drop_last()).push(b) =~= (buf + strip_separators(
                bytes.drop_last(),
            )).push(b));
        } else {
            match json_scan(prev.0) {
                Scan::Truncated => {
                    assert(frame_bytes(last.1) =~= seq![]);
                    assert(frame_bytes(prev.1 + last.1) + last.0 =~= buf + strip_separators(bytes));
                },
                _ => {
                    assert(last.1.len() == 1 && last.1[0].1 == prev.0);
                    assert(last.1.drop_last() =~= Seq::<(FrameKind, Seq<u8>)>::empty());
                    assert(frame_bytes(last.1.drop_last()) == Seq::<u8>::empty());
                    assert(frame_bytes(last.1) =~= prev.0);
                    assert(frame_bytes(prev.1 + last.1) + last.0 =~= buf + strip_separators(bytes));
                },
            }
        }
    }
}

/// Bytes left unresolved hold no line separator.
pub proof fn lemma_unresolved_has_no_separator(buf: Seq<u8>, bytes: Seq<u8>)
    requires
        !buf.contains(NEWLINE),
    ensures
        !feed(buf, bytes).0.contains(NEWLINE),
    decreases bytes.len(),
{
    if bytes.len() > 0 {
        lemma_unresolved_has_no_separator(buf, bytes.drop_last());
        let prev = feed(buf, bytes.drop_last());
        let b = bytes.last();
        if b != NEWLINE {
            assert forall|i: int| 0 <= i < prev.0.push(b).len() implies prev.0.push(b)[i] != NEWLINE by {
                if i < prev.0.len() {
                    assert(prev.0.push(b)[i] == prev.0[i]);
                }
            }
        }
    }
}

} // verus!
