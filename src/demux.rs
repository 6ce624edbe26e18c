use crate::config::Trigger;
use std::sync::Arc;
use vstd::prelude::*;

verus! {

/// The bytes of one decoded frame for one trigger, shared read-only once made.
pub type RawImageData = Arc<Vec<u8>>;

/// One frame cut from the decoder's output, with the position of its trigger.
pub struct Frame {
    pub trigger_index: usize,
    pub image: RawImageData,
}

impl View for Frame {
    type V = (int, Seq<u8>);

    open spec fn view(&self) -> (int, Seq<u8>) {
        (self.trigger_index as int, self.image@)
    }
}

/// The frames that a round-robin reader cuts from `stream`, starting at trigger `slot`:
/// each read takes exactly `sizes[slot]` bytes and moves on to the next trigger; a
/// read that finds fewer bytes than it needs ends the run.
pub open spec fn demux_frames(sizes: Seq<usize>, stream: Seq<u8>, slot: int) -> Seq<(int, Seq<u8>)>
    decreases stream.len(),
{
    if slot < 0 || slot >= sizes.len() || sizes[slot] == 0 || stream.len() < sizes[slot] {
        Seq::empty()
    } else {
        seq![(slot, stream.take(sizes[slot] as int))] + demux_frames(
            sizes,
            stream.skip(sizes[slot] as int),
            (slot + 1) % (sizes.len() as int),
        )
    }
}

/// Chunk `j` of `chunks` tagged with trigger `(slot + j) mod n`.
pub open spec fn tagged(chunks: Seq<Seq<u8>>, slot: int, n: int) -> Seq<(int, Seq<u8>)> {
    Seq::new(chunks.len(), |j: int| ((slot + j) % n, chunks[j]))
}

/// Each chunk is exactly as long as the buffer of its trigger, counting from `slot`.
pub open spec fn chunks_fit(sizes: Seq<usize>, chunks: Seq<Seq<u8>>, slot: int) -> bool {
    forall|j: int|
        0 <= j < chunks.len() ==> #[trigger] chunks[j].len() == sizes[(slot + j) % (sizes.len() as int)]
}

/// Every buffer size is positive.
pub open spec fn sizes_ok(sizes: Seq<usize>) -> bool {
    forall|i: int| 0 <= i < sizes.len() ==> sizes[i] > 0
}

/// The trigger positions and bytes of a list of frames.
pub open spec fn frames_view(frames: Seq<Frame>) -> Seq<(int, Seq<u8>)> {
    frames.map_values(|f: Frame| f@)
}

/// What a read of the decoder's output came to.
#[derive(Clone, Copy, PartialEq, Eq, Structural, Debug)]
pub enum ReadOutcome {
    /// The scratch buffer was filled completely.
    Filled,
    /// The stream ended before the buffer was full.
    EndOfStream,
    /// The read failed for another reason.
    Failed,
}

/// Why the demultiplexer stopped.
#[derive(Clone, Copy, PartialEq, Eq, Structural, Debug)]
pub enum DemuxEnd {
    /// There are no triggers, so nothing is read.
    NoTriggers,
    /// The stream ended: the expected way to finish.
    EndOfStream,
    /// A read failed: worth reporting, not worth a crash.
    ReadError,
}

/// What the reading loop does after a read.
pub enum DemuxAction {
    /// Hand this frame to its worker and read on.
    Dispatch(Frame),
    /// Stop reading.
    Stop(DemuxEnd),
}

/// The round-robin state of the reader of the decoder's output stream.
pub struct Demuxer {
    sizes: Vec<usize>,
    slot: usize,
}

impl Demuxer {
    /// The buffer size of each trigger, in trigger order.
    pub closed spec fn sizes(&self) -> Seq<usize> {
        self.sizes@
    }

    /// The trigger whose frame the next read fills.
    pub closed spec fn slot(&self) -> int {
        self.slot as int
    }

    /// Every buffer size is positive, and the current trigger is one of them.
    pub closed spec fn wf(&self) -> bool {
        sizes_ok(self.sizes@) && (self.sizes@.len() == 0 || self.slot < self.sizes@.len()) && (
        self.sizes@.len() == 0 ==> self.slot == 0)
    }

    /// A reader that starts at the first trigger.
    pub fn new(sizes: Vec<usize>) -> (r: Demuxer)
        requires
            sizes_ok(sizes@),
        ensures
            r.wf(),
            r.sizes() == sizes@,
            r.slot() == 0,
    {
        Demuxer { sizes, slot: 0 }
    }

    /// How many bytes the next read must take, or `None` where there are no triggers.
    pub fn next_read_size(&self) -> (r: Option<usize>)
        requires
            self.wf(),
        ensures
            self.sizes().len() == 0 ==> r.is_none(),
            self.sizes().len() > 0 ==> r == Some(self.sizes()[self.slot()]),
    {
        if self.sizes.len() == 0 {
            None
        } else {
            Some(self.sizes[self.slot])
        }
    }

    /// The position of the trigger whose frame the next read fills, or `None` where
    /// there are no triggers.
    pub fn current_trigger(&self) -> (r: Option<usize>)
        requires
            self.wf(),
        ensures
            self.sizes().len() == 0 ==> r.is_none(),
            self.sizes().len() > 0 ==> r == Some(self.slot() as usize),
    {
        if self.sizes.len() == 0 {
            None
        } else {
            Some(self.slot)
        }
    }

    /// Decides what follows a read into the scratch buffer of the current trigger.
    /// A filled buffer is copied into a fresh frame, and the reader moves to the next
    /// trigger; any other outcome stops the loop.
    pub fn on_read(&mut self, outcome: ReadOutcome, scratch: &Vec<u8>) -> (r: DemuxAction)
        requires
            old(self).wf(),
            outcome == ReadOutcome::Filled && old(self).sizes().len() > 0 ==> scratch@.len()
                == old(self).sizes()[old(self).slot()],
        ensures
            final(self).wf(),
            final(self).sizes() == old(self).sizes(),
            old(self).sizes().len() == 0 ==> final(self).slot() == old(self).slot() && r
                == DemuxAction::Stop(DemuxEnd::NoTriggers),
            old(self).sizes().len() > 0 && outcome == ReadOutcome::Filled ==> final(self).slot() == (
            old(self).slot() + 1) % (old(self).sizes().len() as int) && (match r {
                DemuxAction::Dispatch(f) => f@ == (old(self).slot(), scratch@),
                DemuxAction::Stop(_) => false,
            }),
            old(self).sizes().len() > 0 && outcome == ReadOutcome::EndOfStream ==> final(self).slot()
                == old(self).slot() && r == DemuxAction::Stop(DemuxEnd::EndOfStream),
            old(self).sizes().len() > 0 && outcome == ReadOutcome::Failed ==> final(self).slot()
                == old(self).slot() && r == DemuxAction::Stop(DemuxEnd::ReadError),
    {
        if self.sizes.len() == 0 {
            return DemuxAction::Stop(DemuxEnd::NoTriggers);
        }
        match outcome {
            ReadOutcome::Filled => {
                let copy = scratch.clone();
                assert(copy@ =~= scratch@);
                let image = Arc::new(copy);
                let frame = Frame { trigger_index: self.slot, image };
                if self.slot + 1 == self.sizes.len() {
                    self.slot = 0;
                    proof {
                        vstd::arithmetic::div_mod::lemma_mod_self_0(self.sizes.len() as int);
                    }
                } else {
                    self.slot = self.slot + 1;
                    proof {
                        vstd::arithmetic::div_mod::lemma_small_mod(
                            self.slot as nat,
                            self.sizes.len() as nat,
                        );
                    }
                }
                DemuxAction::Dispatch(frame)
            },
            ReadOutcome::EndOfStream => DemuxAction::Stop(DemuxEnd::EndOfStream),
            ReadOutcome::Failed => DemuxAction::Stop(DemuxEnd::ReadError),
        }
    }
}

/// A stream of buffer-sized chunks, counted from trigger `slot`, followed by a tail
/// too short for the next read, comes out as the chunks, each tagged with its trigger.
proof fn lemma_demux_chunks(sizes: Seq<usize>, chunks: Seq<Seq<u8>>, tail: Seq<u8>, slot: int)
    requires
        sizes_ok(sizes),
        0 <= slot < sizes.len(),
        chunks_fit(sizes, chunks, slot),
        tail.len() < sizes[(slot + chunks.len()) % (sizes.len() as int)],
    ensures
        demux_frames(sizes, chunks.flatten() + tail, slot) == tagged(chunks, slot, sizes.len() as int),
    decreases chunks.len(),
{
    let n = sizes.len() as int;
    vstd::arithmetic::div_mod::lemma_small_mod(slot as nat, n as nat);
    if chunks.len() == 0 {
        assert(chunks.flatten() + tail =~= tail);
        assert(tagged(chunks, slot, n) =~= Seq::empty());
    } else {
        let first = chunks[0];
        let rest = chunks.drop_first();
        let stream = chunks.flatten() + tail;
        let next = (slot + 1) % n;
        assert(first.len() == sizes[(slot + 0) % n]);
        assert(stream =~= first + (rest.flatten() + tail));
        assert(stream.take(sizes[slot] as int) =~= first);
        assert(stream.skip(sizes[slot] as int) =~= rest.flatten() + tail);
        assert forall|j: int| 0 <= j < rest.len() implies #[trigger] rest[j].len() == sizes[(next + j) % n] by {
            assert(chunks[j + 1].len() == sizes[(slot + (j + 1)) % n]);
            vstd::arithmetic::div_mod::lemma_add_mod_noop(slot + 1, j, n);
            vstd::arithmetic::div_mod::lemma_add_mod_noop(next, j, n);
            vstd::arithmetic::div_mod::lemma_mod_twice(slot + 1, n);
            assert(slot + (j + 1) == (slot + 1) + j);
        }
        assert((next + rest.len()) % n == (slot + chunks.len()) % n) by {
            vstd::arithmetic::div_mod::lemma_add_mod_noop(slot + 1, rest.len() as int, n);
            vstd::arithmetic::div_mod::lemma_add_mod_noop(next, rest.len() as int, n);
            vstd::arithmetic::div_mod::lemma_mod_twice(slot + 1, n);
        }
        vstd::arithmetic::div_mod::lemma_mod_bound(slot + 1, n);
        lemma_demux_chunks(sizes, rest, tail, next);
        assert forall|j: int| 0 <= j < rest.len() implies #[trigger] tagged(rest, next, n)[j]
            == tagged(chunks, slot, n)[j + 1] by {
            vstd::arithmetic::div_mod::lemma_add_mod_noop(slot + 1, j, n);
            vstd::arithmetic::div_mod::lemma_add_mod_noop(next, j, n);
            vstd::arithmetic::div_mod::lemma_mod_twice(slot + 1, n);
            assert(slot + (j + 1) == (slot + 1) + j);
        }
        assert(tagged(chunks, slot, n) =~= seq![(slot, first)] + tagged(rest, next, n));
    }
}

/// Round-robin demultiplexing: a stream made of whole rounds, each holding one
/// buffer-sized chunk per trigger in trigger order, comes out as exactly those chunks,
/// chunk `j` going to trigger `j mod N`; so each trigger gets one frame per round.
pub proof fn lemma_round_robin(sizes: Seq<usize>, chunks: Seq<Seq<u8>>, rounds: nat)
    requires
        sizes_ok(sizes),
        sizes.len() > 0,
        chunks.len() == rounds * sizes.len(),
        chunks_fit(sizes, chunks, 0),
    ensures
        demux_frames(sizes, chunks.flatten(), 0) == tagged(chunks, 0, sizes.len() as int),
{
    let n = sizes.len() as int;
    vstd::arithmetic::div_mod::lemma_mod_bound(chunks.len() as int, n);
    assert(chunks.flatten() + Seq::<u8>::empty() =~= chunks.flatten());
    lemma_demux_chunks(sizes, chunks, Seq::empty(), 0);
}

/// Truncated stream: bytes after the last whole frame that are fewer than the next
/// trigger's buffer size yield no frame; the frames before them come out unchanged.
pub proof fn lemma_truncated_stream(sizes: Seq<usize>, chunks: Seq<Seq<u8>>, tail: Seq<u8>)
    requires
        sizes_ok(sizes),
        sizes.len() > 0,
        chunks_fit(sizes, chunks, 0),
        tail.len() < sizes[(chunks.len() as int) % (sizes.len() as int)],
    ensures
        demux_frames(sizes, chunks.flatten() + tail, 0) == tagged(chunks, 0, sizes.len() as int),
{
    assert(0 + chunks.len() == chunks.len());
    lemma_demux_chunks(sizes, chunks, tail, 0);
}

/// Zero triggers: with no triggers nothing is cut from any stream.
pub proof fn lemma_no_triggers(stream: Seq<u8>)
    ensures
        demux_frames(Seq::empty(), stream, 0) == Seq::<(int, Seq<u8>)>::empty(),
{
}

/// Bytes per pixel of the decoder's output: red, green and blue.
pub const CHANNELS: u64 = 3;

/// The size of a trigger's frame in the decoder's output.
pub open spec fn buffer_size(t: Trigger) -> int {
    t.width * t.height * CHANNELS
}

/// A trigger can be read: its frame is not empty and its size fits in memory.
pub open spec fn size_fits(t: Trigger) -> bool {
    t.width > 0 && t.height > 0 && buffer_size(t) <= usize::MAX
}

/// The frame size of every trigger, in trigger order, or `None` where a trigger has
/// an empty frame or one too large to hold.
pub fn frame_buffer_sizes(triggers: &Vec<Trigger>) -> (r: Option<Vec<usize>>)
    ensures
        match r {
            Some(v) => sizes_ok(v@) && v@.len() == triggers@.len() && (forall|i: int|
                0 <= i < triggers@.len() ==> size_fits(#[trigger] triggers@[i]) && v@[i]
                    == buffer_size(triggers@[i])),
            None => exists|i: int| 0 <= i < triggers@.len() && !size_fits(#[trigger] triggers@[i]),
        },
{
    let mut v: Vec<usize> = Vec::new();
    let mut i: usize = 0;
    while i < triggers.len()
        invariant
            i <= triggers@.len(),
            v@.len() == i,
            sizes_ok(v@),
            forall|j: int| 0 <= j < i ==> size_fits(#[trigger] triggers@[j]) && v@[j] == buffer_size(
                triggers@[j],
            ),
        decreases triggers@.len() - i,
    {
        let t = &triggers[i];
        let w = t.width as u64;
        let h = t.height as u64;
        assert(w * h <= 0xffff_ffff * 0xffff_ffffu64) by (nonlinear_arith)
            requires
                w <= 0xffff_ffff,
                h <= 0xffff_ffff,
        ;
        let pixels = w * h;
        if w == 0 || h == 0 || pixels > (usize::MAX as u64) / CHANNELS {
            assert(!size_fits(triggers@[i as int]));
            return None;
        }
        let size = (pixels * CHANNELS) as usize;
        assert(size > 0) by (nonlinear_arith)
            requires
                w > 0,
                h > 0,
                size == w * h * 3,
        ;
        v.push(size);
        i = i + 1;
    }
    Some(v)
}

/// Copies `len` bytes of `stream` from `start` on into a fresh buffer.
fn copy_chunk(stream: &Vec<u8>, start: usize, len: usize) -> (r: Vec<u8>)
    requires
        start + len <= stream@.len(),
    ensures
        r@ == stream@.subrange(start as int, start + len),
{
    let mut r: Vec<u8> = Vec::with_capacity(len);
    let total = stream.len();
    let mut k: usize = 0;
    while k < len
        invariant
            k <= len,
            start + len <= stream@.len(),
            total == stream@.len(),
            r@ == stream@.subrange(start as int, start + k),
        decreases len - k,
    {
        r.push(stream[start + k]);
        k = k + 1;
        assert(r@ =~= stream@.subrange(start as int, start + k));
    }
    r
}

/// Runs the round-robin reader over a stream held in memory, as the reading loop
/// does over the decoder's output: one frame per complete read, in order, and no
/// partial frame at the end.
pub fn demux_bytes(sizes: Vec<usize>, stream: &Vec<u8>) -> (frames: Vec<Frame>)
    requires
        sizes_ok(sizes@),
    ensures
        frames_view(frames@) == demux_frames(sizes@, stream@, 0),
{
    let ghost s = sizes@;
    let mut d = Demuxer::new(sizes);
    let mut pos: usize = 0;
    let mut frames: Vec<Frame> = Vec::new();
    assert(stream@.skip(0) =~= stream@);
    loop
        invariant
            d.wf(),
            d.sizes() == s,
            pos <= stream@.len(),
            frames_view(frames@) + demux_frames(s, stream@.skip(pos as int), d.slot())
                == demux_frames(s, stream@, 0),
        ensures
            frames_view(frames@) == demux_frames(s, stream@, 0),
        decreases stream@.len() - pos,
    {
        let n = match d.next_read_size() {
            None => {
                assert(demux_frames(s, stream@.skip(pos as int), d.slot()) =~= Seq::empty());
                assert(frames_view(frames@) =~= frames_view(frames@) + Seq::<(int, Seq<u8>)>::empty());
                break;
            },
            Some(n) => n,
        };
        if stream.len() - pos < n {
            assert(demux_frames(s, stream@.skip(pos as int), d.slot()) =~= Seq::empty());
            assert(frames_view(frames@) =~= frames_view(frames@) + Seq::<(int, Seq<u8>)>::empty());
            break;
        }
        let ghost rest = stream@.skip(pos as int);
        let ghost slot = d.slot();
        let scratch = copy_chunk(stream, pos, n);
        assert(scratch@ =~= rest.take(n as int));
        assert(rest.skip(n as int) =~= stream@.skip(pos + n));
        match d.on_read(ReadOutcome::Filled, &scratch) {
            DemuxAction::Dispatch(f) => {
                assert(frames_view(frames@.push(f)) =~= frames_view(frames@).push(f@));
                assert(demux_frames(s, rest, slot) == seq![(slot, rest.take(n as int))]
                    + demux_frames(s, rest.skip(n as int), d.slot()));
                assert(frames_view(frames@).push(f@) + demux_frames(s, rest.skip(n as int), d.slot())
                    =~= frames_view(frames@) + demux_frames(s, rest, slot));
                frames.push(f);
            },
            DemuxAction::Stop(_) => {
                break;
            },
        }
        pos = pos + n;
    }
    frames
}

} // verus!
