use vstd::prelude::*;

verus! {

/// How a ring of log files is cut into segments.
pub struct RingDeltaLoggerConfig {
    pub seconds_per_segment: u32,
    pub first_segment_seconds: u32,
    pub segments_per_ring: u32,
}

/// How many of the `files_count` files found at start-up are removed, and
/// how many segments the ring then holds: a ring never keeps more than
/// `segments_per_ring` old files.
pub fn initial_ring(files_count: u32, segments_per_ring: u32) -> (r: (u32, u32))
    ensures
        r == if files_count > segments_per_ring {
            ((files_count - segments_per_ring) as u32, segments_per_ring)
        } else {
            (0u32, files_count)
        },
        r.0 + r.1 == files_count,
        r.1 <= segments_per_ring,
{
    if files_count > segments_per_ring {
        (files_count - segments_per_ring, segments_per_ring)
    } else {
        (0, files_count)
    }
}

/// Number of entries of type `t` in `s`.
pub open spec fn count_type(s: Seq<u16>, t: u16) -> nat
    decreases s.len(),
{
    if s.len() == 0 {
        0
    } else {
        count_type(s.drop_last(), t) + if s.last() == t {
            1nat
        } else {
            0nat
        }
    }
}

/// Which entries a cleanup that removes `k` files of type `t` releases: an
/// entry of type `t` goes when fewer than `k` entries of that type come
/// before it, so the oldest go first.
pub open spec fn prune_mask(s: Seq<u16>, t: u16, k: nat) -> Seq<bool> {
    Seq::new(s.len(), |i: int| s[i] == t && count_type(s.take(i), t) < k)
}

/// `min(a, b)`.
pub open spec fn min_nat(a: nat, b: nat) -> nat {
    if a <= b {
        a
    } else {
        b
    }
}

/// Number of `true` in `s`.
pub open spec fn count_true(s: Seq<bool>) -> nat
    decreases s.len(),
{
    if s.len() == 0 {
        0
    } else {
        count_true(s.drop_last()) + if s.last() {
            1nat
        } else {
            0nat
        }
    }
}

/// Walks the file entries one by one and picks the ones to release, the
/// oldest of the ring's type first.
pub struct RingPruner {
    file_type: u16,
    to_remove: u32,
}

impl RingPruner {
    pub closed spec fn file_type(&self) -> u16 {
        self.file_type
    }

    /// Files of the ring's type still to release.
    pub closed spec fn to_remove(&self) -> u32 {
        self.to_remove
    }

    pub fn new(file_type: u16, to_remove: u32) -> (r: Self)
        ensures
            r.file_type() == file_type,
            r.to_remove() == to_remove,
    {
        Self { file_type, to_remove }
    }

    /// Whether the next entry, of type `entry_type`, is released; when it
    /// is, one fewer is left to release.
    pub fn release(&mut self, entry_type: u16) -> (r: bool)
        ensures
            r == (entry_type == old(self).file_type() && old(self).to_remove() > 0),
            final(self).file_type() == old(self).file_type(),
            final(self).to_remove() == if r {
                (old(self).to_remove() - 1) as u32
            } else {
                old(self).to_remove()
            },
    {
        if entry_type == self.file_type && self.to_remove > 0 {
            self.to_remove -= 1;
            true
        } else {
            false
        }
    }
}

/// Counting entries of type `t` one entry further.
proof fn lemma_count_type_push(s: Seq<u16>, t: u16, i: int)
    requires
        0 <= i < s.len(),
    ensures
        count_type(s.take(i + 1), t) == count_type(s.take(i), t) + if s[i] == t {
            1nat
        } else {
            0nat
        },
{
    assert(s.take(i + 1).drop_last() =~= s.take(i));
}

/// The decisions of a `RingPruner` over the entry types `types`, in order.
pub fn plan_ring_cleanup(types: &[u16], file_type: u16, to_remove: u32) -> (r: Vec<bool>)
    ensures
        r@ == prune_mask(types@, file_type, to_remove as nat),
{
    let mut pruner = RingPruner::new(file_type, to_remove);
    let mut r: Vec<bool> = Vec::new();
    let mut i: usize = 0;
    while i < types.len()
        invariant
            i <= types@.len(),
            r@.len() == i,
            pruner.file_type() == file_type,
            pruner.to_remove() == to_remove - min_nat(
                to_remove as nat,
                count_type(types@.take(i as int), file_type),
            ),
            forall|j: int|
                0 <= j < i ==> #[trigger] r@[j] == prune_mask(types@, file_type, to_remove as nat)[j],
        decreases types@.len() - i,
    {
        proof {
            lemma_count_type_push(types@, file_type, i as int);
        }
        let b = pruner.release(types[i]);
        r.push(b);
        i = i + 1;
    }
    assert(r@ =~= prune_mask(types@, file_type, to_remove as nat));
    r
}

/// A cleanup that removes `k` files of type `t` releases `min(k, n)` of
/// them, where `n` is how many there are, and releases no entry of another
/// type.
pub proof fn lemma_prune_count(s: Seq<u16>, t: u16, k: nat)
    ensures
        count_true(prune_mask(s, t, k)) == min_nat(k, count_type(s, t)),
        forall|i: int| 0 <= i < s.len() && #[trigger] prune_mask(s, t, k)[i] ==> s[i] == t,
    decreases s.len(),
{
    if s.len() > 0 {
        let s0 = s.drop_last();
        lemma_prune_count(s0, t, k);
        let m = prune_mask(s, t, k);
        let m0 = prune_mask(s0, t, k);
        assert(m.drop_last() =~= m0) by {
            assert forall|i: int| 0 <= i < m0.len() implies m.drop_last()[i] == m0[i] by {
                assert(s.take(i) =~= s0.take(i));
            }
        }
        assert(s.take(s.len() - 1) =~= s0);
    }
}

/// What a ring does when a new segment starts with `current` segments
/// held: whether the oldest segment goes, and how many segments it then
/// holds.
pub open spec fn next_segments(current: u32, segments_per_ring: u32) -> (bool, u32) {
    if current >= segments_per_ring {
        (true, segments_per_ring)
    } else {
        (false, (current + 1) as u32)
    }
}

/// What a ring does when a new segment starts, as `next_segments` says.
pub fn next_segment_count(current: u32, segments_per_ring: u32) -> (r: (bool, u32))
    ensures
        r == next_segments(current, segments_per_ring),
{
    if current >= segments_per_ring {
        (true, segments_per_ring)
    } else {
        (false, current + 1)
    }
}

/// Segments held after `n` new segments, starting from `c`.
pub open spec fn segments_after(c: u32, spr: u32, n: nat) -> u32
    decreases n,
{
    if n == 0 {
        c
    } else {
        next_segments(segments_after(c, spr, (n - 1) as nat), spr).1
    }
}

/// A ring that starts with no more than `spr` segments holds
/// `min(c + n, spr)` after `n` new segments: it grows one segment at a time
/// until full, then drops the oldest for each new one, and it drops one
/// exactly when it is full.
pub proof fn lemma_ring_fills_then_rotates(c: u32, spr: u32, n: nat)
    requires
        c <= spr,
    ensures
        segments_after(c, spr, n) == min_nat((c + n) as nat, spr as nat),
        next_segments(segments_after(c, spr, n), spr).0 == (c + n >= spr),
    decreases n,
{
    if n > 0 {
        lemma_ring_fills_then_rotates(c, spr, (n - 1) as nat);
    }
}

/// What a ring file writer does when its segment timer fires.
pub enum SegmentPlan {
    /// Nothing was written since the last segment started: keep it.
    Skip,
    /// Start a new segment, releasing the oldest one first when the ring is
    /// full.
    Create { remove_oldest: bool },
}

/// The bookkeeping of a ring file writer: how many segments it holds,
/// whether the current segment holds data, and whether the writer handed
/// out next starts a new segment.
pub struct RingWriterState {
    current_ring_segments: u32,
    segments_per_ring: u32,
    dirty: bool,
    new_segment: bool,
}

impl RingWriterState {
    pub closed spec fn segments(&self) -> u32 {
        self.current_ring_segments
    }

    pub closed spec fn segments_per_ring(&self) -> u32 {
        self.segments_per_ring
    }

    /// Whether data went to the current segment since it started.
    pub closed spec fn dirty(&self) -> bool {
        self.dirty
    }

    /// Whether the next writer handed out is the first of a new segment.
    pub closed spec fn new_segment(&self) -> bool {
        self.new_segment
    }

    /// The state right after start-up, with `current_ring_segments` found.
    pub fn new(current_ring_segments: u32, segments_per_ring: u32) -> (r: Self)
        ensures
            r.segments() == current_ring_segments,
            r.segments_per_ring() == segments_per_ring,
            !r.dirty(),
            r.new_segment(),
    {
        Self { current_ring_segments, segments_per_ring, dirty: false, new_segment: true }
    }

    /// A writer is handed out: the segment is marked as holding data, and
    /// the result says whether this is the first writer of the segment.
    pub fn get_writer(&mut self) -> (r: bool)
        ensures
            r == old(self).new_segment(),
            final(self).dirty(),
            !final(self).new_segment(),
            final(self).segments() == old(self).segments(),
            final(self).segments_per_ring() == old(self).segments_per_ring(),
    {
        self.dirty = true;
        let r = self.new_segment;
        self.new_segment = false;
        r
    }

    /// What to do when the segment timer fires.
    pub fn plan_new_segment(&self) -> (r: SegmentPlan)
        ensures
            !self.dirty() ==> r is Skip,
            self.dirty() ==> r == (SegmentPlan::Create {
                remove_oldest: self.segments() >= self.segments_per_ring(),
            }),
    {
        if !self.dirty {
            SegmentPlan::Skip
        } else {
            SegmentPlan::Create { remove_oldest: self.current_ring_segments >= self.segments_per_ring }
        }
    }

    /// Records that a new segment was started.
    pub fn segment_created(&mut self)
        ensures
            final(self).segments() == next_segments(
                old(self).segments(),
                old(self).segments_per_ring(),
            ).1,
            final(self).segments_per_ring() == old(self).segments_per_ring(),
            final(self).new_segment(),
            !final(self).dirty(),
    {
        let (_, n) = next_segment_count(self.current_ring_segments, self.segments_per_ring);
        self.current_ring_segments = n;
        self.new_segment = true;
        self.dirty = false;
    }
}

/// The counters of a ring logger whose segments hold a fixed number of
/// logged readings.
pub struct LogRing {
    logs_per_segment: u32,
    current_segment_logs: u32,
    segments_per_ring: u32,
    current_ring_segments: u32,
}

impl LogRing {
    pub closed spec fn logs_per_segment(&self) -> u32 {
        self.logs_per_segment
    }

    /// Readings logged into the current segment.
    pub closed spec fn current_segment_logs(&self) -> u32 {
        self.current_segment_logs
    }

    pub closed spec fn segments_per_ring(&self) -> u32 {
        self.segments_per_ring
    }

    /// Segments the ring holds, the current one not counted.
    pub closed spec fn segments(&self) -> u32 {
        self.current_ring_segments
    }

    pub fn new(logs_per_segment: u32, segments_per_ring: u32, current_ring_segments: u32) -> (r:
        Self)
        ensures
            r.logs_per_segment() == logs_per_segment,
            r.segments_per_ring() == segments_per_ring,
            r.segments() == current_ring_segments,
            r.current_segment_logs() == 0,
    {
        Self { logs_per_segment, current_segment_logs: 0, segments_per_ring, current_ring_segments }
    }

    /// What to do before a reading is logged: a full segment is closed and
    /// a new one started, releasing the oldest when the ring is full.
    pub fn before_log(&mut self) -> (r: SegmentPlan)
        ensures
            final(self).logs_per_segment() == old(self).logs_per_segment(),
            final(self).segments_per_ring() == old(self).segments_per_ring(),
            old(self).current_segment_logs() >= old(self).logs_per_segment() ==> {
                let (remove, n) = next_segments(old(self).segments(), old(self).segments_per_ring());
                &&& r == (SegmentPlan::Create { remove_oldest: remove })
                &&& final(self).segments() == n
                &&& final(self).current_segment_logs() == 0
            },
            old(self).current_segment_logs() < old(self).logs_per_segment() ==> {
                &&& r is Skip
                &&& final(self).segments() == old(self).segments()
                &&& final(self).current_segment_logs() == old(self).current_segment_logs()
            },
    {
        if self.current_segment_logs >= self.logs_per_segment {
            let (remove, n) = next_segment_count(self.current_ring_segments, self.segments_per_ring);
            self.current_segment_logs = 0;
            self.current_ring_segments = n;
            SegmentPlan::Create { remove_oldest: remove }
        } else {
            SegmentPlan::Skip
        }
    }

    /// Counts a reading when the logger took it.
    pub fn after_log(&mut self, logged: bool)
        requires
            old(self).current_segment_logs() < u32::MAX,
        ensures
            final(self).logs_per_segment() == old(self).logs_per_segment(),
            final(self).segments_per_ring() == old(self).segments_per_ring(),
            final(self).segments() == old(self).segments(),
            final(self).current_segment_logs() == old(self).current_segment_logs() + if logged {
                1int
            } else {
                0int
            },
    {
        if logged {
            self.current_segment_logs = self.current_segment_logs + 1;
        }
    }

    pub fn current_segment_logs_value(&self) -> (r: u32)
        ensures
            r == self.current_segment_logs(),
    {
        self.current_segment_logs
    }
}

} // verus!
