use vstd::prelude::*;
use crate::routing::MediaKind;

verus! {

/// The two rollover thresholds: a segment closes once it holds at least
/// `max_bytes` bytes, or once data stamped `max_duration` or more after its
/// start arrives (that data opens the next segment, so that every track rolls
/// over at the same boundary).
#[derive(Clone, Copy, Debug, PartialEq, Eq, Structural)]
pub struct RolloverPolicy {
    pub max_bytes: u64,
    pub max_duration: u64,
}

/// The data of one segment: media time from `start` to `end`, its size, and
/// which kinds of track contributed to it.
#[derive(Clone, Copy, Debug, PartialEq, Eq, Structural)]
pub struct Span {
    pub start: u64,
    pub end: u64,
    pub bytes: u64,
    pub has_audio: bool,
    pub has_video: bool,
    pub has_other: bool,
}

/// A finalized segment and its sequence number.
#[derive(Clone, Copy, Debug, PartialEq, Eq, Structural)]
pub struct SegmentFile {
    pub index: u64,
    pub span: Span,
}

/// What became of the oldest closed segment when its finalize step ended.
#[derive(Clone, Copy, Debug, PartialEq, Eq, Structural)]
pub enum Finalize {
    /// It is a complete file under this sequence number.
    Finalized { index: u64 },
    /// Its finalize step failed and it is discarded (`finalize-failed`);
    /// `escalate` is set once the run of failures exceeds the allowed count.
    Failed { escalate: bool },
}

/// The writer's state as the contracts see it.
pub struct WriterState {
    pub open: Option<Span>,
    pub closing: Seq<Span>,
    pub files: Seq<SegmentFile>,
    pub failures: u64,
}

/// Segment writer: one multiplexed output for all tracks, so every track
/// rolls over at the same boundary.
pub struct SegmentWriter {
    pub policy: RolloverPolicy,
    pub start_index: u64,
    pub max_failures: u64,
    /// The segment now being filled.
    pub open: Option<Span>,
    /// Closed segments waiting for their finalize step, oldest first.
    pub closing: Vec<Span>,
    /// Finalized segments, in order.
    pub files: Vec<SegmentFile>,
    /// Finalize failures since the last success.
    pub failures: u64,
}

/// A segment is full once it holds the size threshold.
pub open spec fn is_full(p: RolloverPolicy, s: Span) -> bool {
    s.bytes >= p.max_bytes
}

/// Data stamped `pts` lies at or past the duration boundary of the open segment.
pub open spec fn past_boundary(p: RolloverPolicy, open: Option<Span>, pts: u64) -> bool {
    open matches Some(o) && pts >= o.start + p.max_duration
}

pub open spec fn sat_add(a: u64, b: u64) -> u64 {
    if a + b > u64::MAX {
        u64::MAX
    } else {
        (a + b) as u64
    }
}

pub open spec fn max_u64(a: u64, b: u64) -> u64 {
    if a >= b {
        a
    } else {
        b
    }
}

/// The open segment after a buffer of `size` bytes of `kind`, stamped `pts`
/// and lasting `dur`, was added; a buffer with no open segment opens one at
/// its own timestamp.
pub open spec fn extend(open: Option<Span>, kind: MediaKind, pts: u64, dur: u64, size: u64) -> Span {
    let end = (pts + dur) as u64;
    match open {
        None => Span {
            start: pts,
            end,
            bytes: size,
            has_audio: kind == MediaKind::Audio,
            has_video: kind == MediaKind::Video,
            has_other: kind == MediaKind::Unknown,
        },
        Some(s) => Span {
            start: s.start,
            end: max_u64(s.end, end),
            bytes: sat_add(s.bytes, size),
            has_audio: s.has_audio || kind == MediaKind::Audio,
            has_video: s.has_video || kind == MediaKind::Video,
            has_other: s.has_other || kind == MediaKind::Unknown,
        },
    }
}

/// The writer after one buffer. A buffer stamped at or past the open
/// segment's duration boundary first closes that segment and opens the next
/// one; the segment that takes the buffer closes as soon as it is full, and
/// otherwise stays open. Nothing else ever closes a segment but a drain.
pub open spec fn push_state(p: RolloverPolicy, v: WriterState, kind: MediaKind, pts: u64, dur: u64, size: u64) -> WriterState {
    let rolls = past_boundary(p, v.open, pts);
    let closing = if rolls {
        v.closing.push(v.open->0)
    } else {
        v.closing
    };
    let base = if rolls {
        None
    } else {
        v.open
    };
    let s = extend(base, kind, pts, dur, size);
    if is_full(p, s) {
        WriterState { open: None, closing: closing.push(s), ..v }
    } else {
        WriterState { open: Some(s), closing, ..v }
    }
}

/// The writer after a drain: the open segment, whatever it holds, is closed.
pub open spec fn drain_state(v: WriterState) -> WriterState {
    match v.open {
        Some(s) => WriterState { open: None, closing: v.closing.push(s), ..v },
        None => v,
    }
}

/// The writer after the oldest closed segment's finalize step ended.
pub open spec fn finalize_state(start_index: u64, v: WriterState, ok: bool) -> WriterState {
    if v.closing.len() == 0 {
        v
    } else if ok {
        WriterState {
            closing: v.closing.drop_first(),
            files: v.files.push(SegmentFile { index: (start_index + v.files.len()) as u64, span: v.closing[0] }),
            failures: 0,
            ..v
        }
    } else {
        WriterState { closing: v.closing.drop_first(), failures: sat_add(v.failures, 1), ..v }
    }
}

/// Finalized segments are numbered from the start index with no gap.
pub open spec fn files_numbered(start_index: u64, files: Seq<SegmentFile>) -> bool {
    forall|i: int| 0 <= i < files.len() ==> (#[trigger] files[i]).index == start_index + i
}

/// Segments that have a number or will need one: finalized, closed and open.
pub open spec fn segment_count(v: WriterState) -> int {
    v.files.len() + v.closing.len() + if v.open is Some {
        1int
    } else {
        0
    }
}

/// Whether a buffer can be taken without running out of sequence numbers.
pub open spec fn room_for_buffer(start_index: u64, v: WriterState) -> bool {
    start_index + v.files.len() + v.closing.len() + 3 <= u64::MAX
}

pub open spec fn span_wf(s: Span) -> bool {
    s.start <= s.end
}


/// One operation on the writer.
#[derive(Clone, Copy, Debug, PartialEq, Eq, Structural)]
pub enum WriterOp {
    Push { kind: MediaKind, pts: u64, dur: u64, size: u64 },
    Drain,
    Finalize { ok: bool },
}

pub open spec fn apply_op(p: RolloverPolicy, start_index: u64, v: WriterState, op: WriterOp) -> WriterState {
    match op {
        WriterOp::Push { kind, pts, dur, size } => push_state(p, v, kind, pts, dur, size),
        WriterOp::Drain => drain_state(v),
        WriterOp::Finalize { ok } => finalize_state(start_index, v, ok),
    }
}

pub open spec fn apply_ops(p: RolloverPolicy, start_index: u64, v: WriterState, ops: Seq<WriterOp>) -> WriterState
    decreases ops.len(),
{
    if ops.len() == 0 {
        v
    } else {
        apply_ops(p, start_index, apply_op(p, start_index, v, ops[0]), ops.subrange(1, ops.len() as int))
    }
}

/// The open segment closes exactly when a buffer stamped at least the
/// duration threshold after its start arrives, or when with the new buffer it
/// holds at least the size threshold. While neither happens it stays open from
/// the same start time, however slowly data arrives: no timer closes it.
pub proof fn lemma_rollover_at_first_threshold(
    p: RolloverPolicy,
    v: WriterState,
    kind: MediaKind,
    pts: u64,
    dur: u64,
    size: u64,
)
    requires
        pts + dur <= u64::MAX,
        v.open matches Some(o) ==> !is_full(p, o),
    ensures
        ({
            let after = push_state(p, v, kind, pts, dur, size);
            &&& v.open matches Some(o) ==> ((after.closing.len() > v.closing.len()) <==> (pts >= o.start
                + p.max_duration || sat_add(o.bytes, size) >= p.max_bytes))
            &&& v.open matches Some(o) ==> (pts >= o.start + p.max_duration ==> after.closing[v.closing.len() as int]
                == o)
            &&& v.open matches Some(o) ==> (pts < o.start + p.max_duration ==> (after.open matches Some(n) ==> n.start
                == o.start && n.bytes == o.bytes + size))
            &&& v.open matches Some(o) ==> (pts >= o.start + p.max_duration ==> (after.open matches Some(n) ==> n.start
                == pts && n.bytes == size))
            &&& v.open is None ==> ((after.open is None) <==> size >= p.max_bytes)
            &&& v.open is None ==> (after.open matches Some(n) ==> n.start == pts)
            &&& after.files == v.files
        }),
{
    let after = push_state(p, v, kind, pts, dur, size);
    if let Some(o) = v.open {
        if pts >= o.start + p.max_duration {
            assert(after.closing[v.closing.len() as int] == o);
        } else {
            assert(extend(v.open, kind, pts, dur, size).bytes == sat_add(o.bytes, size));
        }
    }
}

/// A drain turns the open segment into a finalized file even when it holds
/// less than either threshold: with nothing else waiting, draining and then
/// finalizing adds exactly one file, holding all of that segment's data.
pub proof fn lemma_drain_yields_final_file(start_index: u64, v: WriterState)
    requires
        v.open is Some,
        v.closing.len() == 0,
    ensures
        ({
            let after = finalize_state(start_index, drain_state(v), true);
            &&& after.open is None
            &&& after.closing.len() == 0
            &&& after.files.len() == v.files.len() + 1
            &&& after.files == v.files.push(
                SegmentFile { index: (start_index + v.files.len()) as u64, span: v.open->0 },
            )
        }),
{
    let d = drain_state(v);
    assert(d.closing =~= seq![v.open->0]);
    assert(d.closing.drop_first() =~= Seq::<Span>::empty());
}

/// Over any sequence of operations the finalized files keep their sequence
/// numbers contiguous from the start index: none is skipped or reused, and a
/// failed finalize leaves its number to the next segment.
pub proof fn lemma_sequence_contiguous(p: RolloverPolicy, start_index: u64, v: WriterState, ops: Seq<WriterOp>)
    requires
        files_numbered(start_index, v.files),
        start_index + v.files.len() + ops.len() <= u64::MAX,
    ensures
        files_numbered(start_index, apply_ops(p, start_index, v, ops).files),
        apply_ops(p, start_index, v, ops).files.len() >= v.files.len(),
        v.files.is_prefix_of(apply_ops(p, start_index, v, ops).files),
        forall|i: int, j: int|
            0 <= i < j < apply_ops(p, start_index, v, ops).files.len() ==> (#[trigger] apply_ops(
                p,
                start_index,
                v,
                ops,
            ).files[i]).index < (#[trigger] apply_ops(p, start_index, v, ops).files[j]).index,
    decreases ops.len(),
{
    if ops.len() > 0 {
        let next = apply_op(p, start_index, v, ops[0]);
        assert(next.files.len() <= v.files.len() + 1);
        assert(v.files.is_prefix_of(next.files));
        assert(files_numbered(start_index, next.files));
        lemma_sequence_contiguous(p, start_index, next, ops.subrange(1, ops.len() as int));
        let fin = apply_ops(p, start_index, v, ops).files;
        assert forall|i: int| 0 <= i < v.files.len() implies fin[i] == v.files[i] by {
            assert(fin[i] == next.files[i]);
        }
    } else {
        assert(v.files.is_prefix_of(v.files));
    }
}

/// In a well-formed writer the files are numbered from the start index on.
pub proof fn lemma_writer_files_numbered(w: &SegmentWriter)
    requires
        w.wf(),
    ensures
        forall|i: int| 0 <= i < w@.files.len() ==> (#[trigger] w@.files[i]).index == w.start_index + i,
{
}

impl View for SegmentWriter {
    type V = WriterState;

    open spec fn view(&self) -> WriterState {
        WriterState { open: self.open, closing: self.closing@, files: self.files@, failures: self.failures }
    }
}

impl SegmentWriter {
    pub open spec fn wf(&self) -> bool {
        &&& files_numbered(self.start_index, self.files@)
        &&& self.start_index + segment_count(self@) + 1 <= u64::MAX
        &&& (self.open matches Some(s) ==> span_wf(s) && !is_full(self.policy, s))
    }

    /// A writer with nothing written, numbering its files from `start_index`,
    /// that escalates once more than `max_failures` finalize steps fail in a row.
    pub fn new(policy: RolloverPolicy, start_index: u64, max_failures: u64) -> (r: SegmentWriter)
        requires
            start_index < u64::MAX,
        ensures
            r.wf(),
            r.policy == policy,
            r.start_index == start_index,
            r.max_failures == max_failures,
            r@.open is None,
            r@.closing.len() == 0,
            r@.files.len() == 0,
            r@.failures == 0,
    {
        SegmentWriter {
            policy,
            start_index,
            max_failures,
            open: None,
            closing: Vec::new(),
            files: Vec::new(),
            failures: 0,
        }
    }

    /// Whether a buffer can be taken without running out of sequence numbers.
    pub fn has_room(&self) -> (r: bool)
        requires
            self.wf(),
        ensures
            r == room_for_buffer(self.start_index, self@),
    {
        let used = self.files.len() as u64 + self.closing.len() as u64;
        self.start_index + used <= u64::MAX - 3
    }

    /// Whether no segment is open and none waits for its finalize step.
    pub fn is_settled(&self) -> (r: bool)
        ensures
            r == (self@.open is None && self@.closing.len() == 0),
    {
        self.open.is_none() && self.closing.len() == 0
    }

    /// Sequence number that the next finalized segment gets.
    pub fn next_index(&self) -> (r: u64)
        requires
            self.wf(),
        ensures
            r == self.start_index + self.files@.len(),
    {
        self.start_index + self.files.len() as u64
    }

    /// Adds a buffer of one track. A buffer at or past the open segment's
    /// duration boundary closes it first; the buffer then goes into the open
    /// segment (opening one if none is open), which closes if it is now full.
    /// Returns how many segments closed.
    pub fn push(&mut self, kind: MediaKind, pts: u64, dur: u64, size: u64) -> (closed: usize)
        requires
            old(self).wf(),
            pts + dur <= u64::MAX,
            room_for_buffer(old(self).start_index, old(self)@),
        ensures
            final(self).wf(),
            final(self).policy == old(self).policy,
            final(self).start_index == old(self).start_index,
            final(self).max_failures == old(self).max_failures,
            final(self)@ == push_state(old(self).policy, old(self)@, kind, pts, dur, size),
            closed == final(self)@.closing.len() - old(self)@.closing.len(),
    {
        let mut closed: usize = 0;
        if let Some(o) = self.open {
            if pts >= o.start && pts - o.start >= self.policy.max_duration {
                self.closing.push(o);
                self.open = None;
                closed = 1;
            }
        }
        let end = pts + dur;
        let seg = match self.open {
            None => Span {
                start: pts,
                end,
                bytes: size,
                has_audio: kind == MediaKind::Audio,
                has_video: kind == MediaKind::Video,
                has_other: kind == MediaKind::Unknown,
            },
            Some(s) => Span {
                start: s.start,
                end: if s.end >= end {
                    s.end
                } else {
                    end
                },
                bytes: s.bytes.saturating_add(size),
                has_audio: s.has_audio || kind == MediaKind::Audio,
                has_video: s.has_video || kind == MediaKind::Video,
                has_other: s.has_other || kind == MediaKind::Unknown,
            },
        };
        if seg.bytes >= self.policy.max_bytes {
            self.closing.push(seg);
            self.open = None;
            closed + 1
        } else {
            self.open = Some(seg);
            closed
        }
    }

    /// Closes the open segment, however little it holds, so that it is
    /// finalized as a complete file. Returns whether a segment was open.
    pub fn drain(&mut self) -> (closed: bool)
        requires
            old(self).wf(),
        ensures
            final(self).wf(),
            final(self).policy == old(self).policy,
            final(self).start_index == old(self).start_index,
            final(self).max_failures == old(self).max_failures,
            final(self)@ == drain_state(old(self)@),
            closed == old(self)@.open is Some,
    {
        match self.open {
            Some(s) => {
                self.closing.push(s);
                self.open = None;
                true
            },
            None => false,
        }
    }

    /// Records how the finalize step of the oldest closed segment ended: on
    /// success it becomes the next numbered file; on failure it is discarded
    /// and its number is left for the next one. `None` when nothing is closed.
    pub fn finalize_next(&mut self, ok: bool) -> (r: Option<Finalize>)
        requires
            old(self).wf(),
        ensures
            final(self).wf(),
            final(self).policy == old(self).policy,
            final(self).start_index == old(self).start_index,
            final(self).max_failures == old(self).max_failures,
            final(self)@ == finalize_state(old(self).start_index, old(self)@, ok),
            r is None <==> old(self)@.closing.len() == 0,
            r matches Some(f) ==> (if ok {
                f == Finalize::Finalized { index: (old(self).start_index + old(self)@.files.len()) as u64 }
            } else {
                f == Finalize::Failed { escalate: final(self)@.failures > old(self).max_failures }
            }),
    {
        if self.closing.len() == 0 {
            return None;
        }
        let seg = self.closing.remove(0);
        if ok {
            let index = self.start_index + self.files.len() as u64;
            self.files.push(SegmentFile { index, span: seg });
            self.failures = 0;
            assert(self.closing@ =~= old(self)@.closing.drop_first());
            Some(Finalize::Finalized { index })
        } else {
            self.failures = self.failures.saturating_add(1);
            assert(self.closing@ =~= old(self)@.closing.drop_first());
            Some(Finalize::Failed { escalate: self.failures > self.max_failures })
        }
    }
}

} // verus!
