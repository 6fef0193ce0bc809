//! Reading a requested number of bytes under a deadline, and reassembling a
//! frame from the pieces a non-blocking stream delivers.
use vstd::prelude::*;
use vstd::math::min;
use crate::packet::{
    copy_bytes, frame_of, pad_len, PacketType, HEADER_SIZE, MAX_BODY_LEN,
};
use crate::packet::header::{Header, header_bytes, header_len, lemma_header_round_trip};

verus! {

/// Why a symbol-terminated read ended without the symbol.
#[derive(Clone, Debug, PartialEq, Eq)]
pub enum ReadError {
    Timeout,
    Other(String),
}

/// What one poll of the stream gave.
#[derive(Clone, Debug, PartialEq, Eq)]
pub enum ReadEvent {
    /// Bytes that arrived.
    Data(Vec<u8>),
    /// Nothing was ready; no progress.
    NotReady,
    /// A failure other than "not ready", with its description.
    Failed(String),
}

/// The bytes a poll outcome carries: none unless it is data.
pub open spec fn data_of(event: ReadEvent) -> Seq<u8> {
    match event {
        ReadEvent::Data(d) => d@,
        _ => Seq::empty(),
    }
}

/// All the bytes that a sequence of poll outcomes carries, in order.
pub open spec fn delivered(events: Seq<ReadEvent>) -> Seq<u8>
    decreases events.len(),
{
    if events.len() == 0 {
        Seq::empty()
    } else {
        data_of(events[0]) + delivered(events.drop_first())
    }
}

/// What an attempt wanting `want` bytes holds after one more poll outcome:
/// the data's bytes as far as they are wanted; nothing new otherwise.
pub open spec fn exact_step(got: Seq<u8>, want: nat, event: ReadEvent) -> Seq<u8> {
    match event {
        ReadEvent::Data(d) => got + d@.take(min(d@.len() as int, want - got.len())),
        _ => got,
    }
}

/// What an attempt holds after a sequence of poll outcomes.
pub open spec fn exact_run(got: Seq<u8>, want: nat, events: Seq<ReadEvent>) -> Seq<u8>
    decreases events.len(),
{
    if events.len() == 0 {
        got
    } else {
        exact_run(exact_step(got, want, events[0]), want, events.drop_first())
    }
}

/// An attempt that is delivered no more than it wants holds exactly the bytes
/// delivered, in order, however they were cut up and however many "not
/// ready" polls came between them.
pub proof fn lemma_exact_read_keeps_delivered(got: Seq<u8>, want: nat, events: Seq<ReadEvent>)
    requires
        got.len() + delivered(events).len() <= want,
    ensures
        exact_run(got, want, events) == got + delivered(events),
    decreases events.len(),
{
    if events.len() == 0 {
        assert(got + Seq::<u8>::empty() =~= got);
    } else {
        let e = events[0];
        let rest = events.drop_first();
        let next = exact_step(got, want, e);
        assert(next =~= got + data_of(e)) by {
            if let ReadEvent::Data(d) = e {
                assert(d@.take(d@.len() as int) =~= d@);
            }
        }
        lemma_exact_read_keeps_delivered(next, want, rest);
        assert(got + data_of(e) + delivered(rest) =~= got + (data_of(e) + delivered(rest)));
    }
}

/// One attempt to read `want` bytes before a deadline.
pub struct ExactRead {
    pub want: usize,
    pub got: Vec<u8>,
}

impl ExactRead {
    /// Whether no more than `want` bytes have been taken.
    pub open spec fn wf(&self) -> bool {
        self.got@.len() <= self.want
    }

    /// An attempt that has taken nothing yet.
    pub fn new(want: usize) -> (r: ExactRead)
        ensures
            r.want == want,
            r.got@.len() == 0,
            r.wf(),
    {
        ExactRead { want, got: Vec::new() }
    }

    /// How many bytes are still wanted.
    pub fn remaining(&self) -> (r: usize)
        requires
            self.wf(),
        ensures
            r == self.want - self.got@.len(),
    {
        self.want - self.got.len()
    }

    /// Whether to poll again: bytes are still wanted and the deadline has not
    /// passed.
    pub fn should_poll(&self, elapsed_ms: u64, timeout_ms: u64) -> (r: bool)
        requires
            self.wf(),
        ensures
            r == (self.got@.len() < self.want && elapsed_ms < timeout_ms),
    {
        self.got.len() < self.want && elapsed_ms < timeout_ms
    }

    /// Takes in one poll's outcome. Data beyond what is wanted is not taken;
    /// "not ready" changes nothing; any other failure ends the attempt with
    /// its description.
    pub fn on_event(&mut self, event: ReadEvent) -> (r: Result<(), String>)
        requires
            old(self).wf(),
        ensures
            final(self).wf(),
            final(self).want == old(self).want,
            final(self).got@ == exact_step(old(self).got@, old(self).want as nat, event),
            match event {
                ReadEvent::Data(d) => r is Ok && final(self).got@ == old(self).got@ + d@.take(
                    min(d@.len() as int, old(self).want - old(self).got@.len()),
                ),
                ReadEvent::NotReady => r is Ok && final(self).got@ == old(self).got@,
                ReadEvent::Failed(msg) => r == Err::<(), String>(msg) && final(self).got@ == old(
                    self,
                ).got@,
            },
    {
        match event {
            ReadEvent::Data(d) => {
                let room = self.want - self.got.len();
                let take = if d.len() < room {
                    d.len()
                } else {
                    room
                };
                let ghost before = self.got@;
                let mut i: usize = 0;
                while i < take
                    invariant
                        take <= d@.len(),
                        take <= room,
                        room == self.want - before.len(),
                        i <= take,
                        self.got@ == before + d@.take(i as int),
                    decreases take - i,
                {
                    self.got.push(d[i]);
                    i = i + 1;
                    proof {
                        assert(self.got@ =~= before + d@.take(i as int));
                    }
                }
                Ok(())
            },
            ReadEvent::NotReady => Ok(()),
            ReadEvent::Failed(msg) => Err(msg),
        }
    }

    /// Appends what was taken to `buf`, complete or not.
    pub fn finish(self, buf: &mut Vec<u8>)
        ensures
            final(buf)@ == old(buf)@ + self.got@,
    {
        let mut got = self.got;
        buf.append(&mut got);
    }
}

/// How long a frame whose first bytes are `s` is: a header's worth while the
/// header is incomplete, then the header and the body it declares.
pub open spec fn frame_len(s: Seq<u8>) -> nat {
    if s.len() < HEADER_SIZE {
        HEADER_SIZE as nat
    } else {
        HEADER_SIZE as nat + header_len(s)
    }
}

/// Whether `s` is one whole frame: a header and exactly the body it declares.
pub open spec fn is_whole_frame(s: Seq<u8>) -> bool {
    s.len() >= HEADER_SIZE && s.len() == frame_len(s)
}

/// The bytes of one frame gathered so far.
pub struct FrameReader {
    pub frame: Vec<u8>,
}

impl FrameReader {
    /// Never more bytes than the frame they start.
    pub open spec fn wf(&self) -> bool {
        self.frame@.len() <= frame_len(self.frame@)
    }

    /// A reader that has gathered nothing.
    pub fn new() -> (r: FrameReader)
        ensures
            r.frame@.len() == 0,
            r.wf(),
    {
        FrameReader { frame: Vec::new() }
    }

    /// How many bytes to ask for next: the rest of the header, or once it is
    /// whole, the rest of the body it declares. Zero when the frame is whole.
    pub fn next_request(&self) -> (r: usize)
        requires
            self.wf(),
        ensures
            r == frame_len(self.frame@) - self.frame@.len(),
    {
        if self.frame.len() < HEADER_SIZE {
            HEADER_SIZE - self.frame.len()
        } else {
            HEADER_SIZE + self.frame.get_data_length() - self.frame.len()
        }
    }

    /// Whether the gathered bytes are one whole frame.
    pub fn is_complete(&self) -> (r: bool)
        requires
            self.wf(),
        ensures
            r == is_whole_frame(self.frame@),
    {
        self.frame.len() >= HEADER_SIZE && self.next_request() == 0
    }

    /// Adds bytes that were asked for.
    pub fn push(&mut self, bytes: &Vec<u8>)
        requires
            old(self).wf(),
            bytes@.len() <= frame_len(old(self).frame@) - old(self).frame@.len(),
        ensures
            final(self).wf(),
            final(self).frame@ == old(self).frame@ + bytes@,
    {
        let ghost before = self.frame@;
        let mut i: usize = 0;
        while i < bytes.len()
            invariant
                before.len() + bytes@.len() <= frame_len(before),
                i <= bytes@.len(),
                self.frame@ == before + bytes@.take(i as int),
            decreases bytes@.len() - i,
        {
            self.frame.push(bytes[i]);
            i = i + 1;
            proof {
                assert(self.frame@ =~= before + bytes@.take(i as int));
            }
        }
        proof {
            assert(bytes@.take(bytes@.len() as int) =~= bytes@);
            assert(before =~= self.frame@.take(before.len() as int));
            lemma_frame_len_extends(before, self.frame@);
        }
    }

    /// Takes in one poll's outcome: data up to what the frame still needs;
    /// "not ready" changes nothing; any other failure ends the read with its
    /// description.
    pub fn on_event(&mut self, event: ReadEvent) -> (r: Result<(), String>)
        requires
            old(self).wf(),
        ensures
            final(self).wf(),
            final(self).frame@ == frame_step(old(self).frame@, event),
            match event {
                ReadEvent::Failed(msg) => r == Err::<(), String>(msg),
                _ => r is Ok,
            },
    {
        match event {
            ReadEvent::Data(d) => {
                let room = self.next_request();
                let take = if d.len() < room {
                    d.len()
                } else {
                    room
                };
                let piece = copy_bytes(&d, 0, take);
                proof {
                    assert(piece@ =~= d@.take(take as int));
                }
                self.push(&piece);
                Ok(())
            },
            ReadEvent::NotReady => Ok(()),
            ReadEvent::Failed(msg) => Err(msg),
        }
    }

    /// The gathered frame.
    pub fn into_frame(self) -> (r: Vec<u8>)
        ensures
            r@ == self.frame@,
    {
        self.frame
    }
}

/// Once the header is whole, more bytes do not change the frame's length.
proof fn lemma_frame_len_extends(a: Seq<u8>, b: Seq<u8>)
    requires
        a.len() <= b.len() <= frame_len(a),
        a == b.take(a.len() as int),
    ensures
        b.len() <= frame_len(b),
{
    if a.len() >= HEADER_SIZE {
        assert(b[1] == a[1] && b[2] == a[2]);
    } else if b.len() >= HEADER_SIZE {
        assert(b.len() == HEADER_SIZE);
    }
}

/// The frame gathered so far after one more poll outcome: the data's bytes as
/// far as the frame still needs them; nothing new otherwise.
pub open spec fn frame_step(frame: Seq<u8>, event: ReadEvent) -> Seq<u8> {
    match event {
        ReadEvent::Data(d) => frame + d@.take(
            min(d@.len() as int, frame_len(frame) - frame.len()),
        ),
        _ => frame,
    }
}

/// The frame gathered after a sequence of poll outcomes.
pub open spec fn frame_run(frame: Seq<u8>, events: Seq<ReadEvent>) -> Seq<u8>
    decreases events.len(),
{
    if events.len() == 0 {
        frame
    } else {
        frame_run(frame_step(frame, events[0]), events.drop_first())
    }
}

/// Whether every piece of data in `events` is no longer than what the frame
/// still needed when it came: a source that hands out only what is asked.
pub open spec fn fits(frame: Seq<u8>, events: Seq<ReadEvent>) -> bool
    decreases events.len(),
{
    if events.len() == 0 {
        true
    } else {
        &&& data_of(events[0]).len() <= frame_len(frame) - frame.len()
        &&& fits(frame_step(frame, events[0]), events.drop_first())
    }
}

/// Fed outcomes that each fit, the reader holds what it had followed by
/// every byte delivered, in order.
pub proof fn lemma_frame_run_appends(frame: Seq<u8>, events: Seq<ReadEvent>)
    requires
        frame.len() <= frame_len(frame),
        fits(frame, events),
    ensures
        frame_run(frame, events) == frame + delivered(events),
    decreases events.len(),
{
    if events.len() == 0 {
        assert(frame + Seq::<u8>::empty() =~= frame);
    } else {
        let e = events[0];
        let rest = events.drop_first();
        let next = frame_step(frame, e);
        assert(next =~= frame + data_of(e)) by {
            if let ReadEvent::Data(d) = e {
                assert(d@.take(d@.len() as int) =~= d@);
            }
        }
        assert(frame =~= next.take(frame.len() as int));
        lemma_frame_len_extends(frame, next);
        lemma_frame_run_appends(next, rest);
        assert(frame + data_of(e) + delivered(rest) =~= frame + (data_of(e) + delivered(rest)));
    }
}

/// Reading a frame from a stream gives the same bytes however the stream
/// was cut into pieces and however many "not ready" polls came between
/// them: two runs that each end with a whole frame, fed pieces of the same
/// stream that each fit what was asked, hold the same frame, the stream's
/// first frame.
pub proof fn lemma_fragmented_read(stream: Seq<u8>, a: Seq<ReadEvent>, b: Seq<ReadEvent>)
    requires
        fits(Seq::empty(), a),
        fits(Seq::empty(), b),
        delivered(a).is_prefix_of(stream),
        delivered(b).is_prefix_of(stream),
        is_whole_frame(frame_run(Seq::empty(), a)),
        is_whole_frame(frame_run(Seq::empty(), b)),
    ensures
        frame_run(Seq::empty(), a) == frame_run(Seq::empty(), b),
        frame_run(Seq::empty(), a) == stream.take(frame_len(stream) as int),
{
    lemma_frame_run_appends(Seq::empty(), a);
    lemma_frame_run_appends(Seq::empty(), b);
    assert(Seq::<u8>::empty() + delivered(a) =~= delivered(a));
    assert(Seq::<u8>::empty() + delivered(b) =~= delivered(b));
    lemma_reassembly_independent_of_fragments(stream, delivered(a), delivered(b));
}

/// Two whole frames read from the same stream are the same bytes, however
/// the stream was cut into pieces on the way.
pub proof fn lemma_reassembly_independent_of_fragments(stream: Seq<u8>, a: Seq<u8>, b: Seq<u8>)
    requires
        a.is_prefix_of(stream),
        b.is_prefix_of(stream),
        is_whole_frame(a),
        is_whole_frame(b),
    ensures
        a == b,
        a == stream.take(frame_len(stream) as int),
{
    assert(a[1] == stream[1] && a[2] == stream[2]);
    assert(b[1] == stream[1] && b[2] == stream[2]);
    assert(a =~= stream.take(a.len() as int));
    assert(b =~= stream.take(b.len() as int));
}

/// A frame written for any type and body is, to the reader, exactly one whole
/// frame.
pub proof fn lemma_written_frame_is_whole(t: PacketType, body: Seq<u8>)
    requires
        body.len() + pad_len(body.len()) <= MAX_BODY_LEN,
    ensures
        is_whole_frame(frame_of(t, body)),
{
    let n = body.len() + pad_len(body.len());
    lemma_header_round_trip(t, n);
    let f = frame_of(t, body);
    assert(f.subrange(0, HEADER_SIZE as int) =~= header_bytes(t, n));
    assert(f[1] == header_bytes(t, n)[1] && f[2] == header_bytes(t, n)[2]);
}

} // verus!
