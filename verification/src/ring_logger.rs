use vstd::prelude::*;

verus! {

/// Tag in front of an entry that holds a whole value.
pub const FULL_ENTRY_TAG: u8 = 0x69;

/// Tag in front of an entry that holds a delta.
pub const DELTA_ENTRY_TAG: u8 = 0x42;

/// The bytes of an entry: its tag, then the archived value or delta.
pub open spec fn spec_frame(full: bool, payload: Seq<u8>) -> Seq<u8> {
    seq![if full { FULL_ENTRY_TAG } else { DELTA_ENTRY_TAG }] + payload
}

/// Appends the entry for `payload` to `out`: the tag that says whether it
/// holds a whole value or a delta, then the payload.
pub fn write_frame(full: bool, payload: &[u8], out: &mut Vec<u8>)
    ensures
        final(out)@ == old(out)@ + spec_frame(full, payload@),
{
    let tag = if full {
        FULL_ENTRY_TAG
    } else {
        DELTA_ENTRY_TAG
    };
    out.push(tag);
    let mut i: usize = 0;
    while i < payload.len()
        invariant
            i <= payload@.len(),
            out@ == old(out)@ + seq![tag] + payload@.take(i as int),
        decreases payload@.len() - i,
    {
        out.push(payload[i]);
        i = i + 1;
        assert(out@ =~= old(out)@ + seq![tag] + payload@.take(i as int));
    }
    assert(payload@.take(payload@.len() as int) =~= payload@);
    assert(out@ =~= old(out)@ + spec_frame(full, payload@));
}

/// What an entry tag announces.
#[derive(Debug, PartialEq, Eq, Structural, Clone, Copy)]
pub enum EntryKind {
    Full,
    Delta,
}

/// The kind of entry that `tag` announces; `None` for any other byte,
/// which ends the log.
pub open spec fn spec_entry_kind(tag: u8) -> Option<EntryKind> {
    if tag == FULL_ENTRY_TAG {
        Some(EntryKind::Full)
    } else if tag == DELTA_ENTRY_TAG {
        Some(EntryKind::Delta)
    } else {
        None
    }
}

/// The kind of entry that `tag` announces.
pub fn entry_kind(tag: u8) -> (r: Option<EntryKind>)
    ensures
        r == spec_entry_kind(tag),
{
    if tag == FULL_ENTRY_TAG {
        Some(EntryKind::Full)
    } else if tag == DELTA_ENTRY_TAG {
        Some(EntryKind::Delta)
    } else {
        None
    }
}

/// The entry at the front of `bytes`, where whole values take `full_len`
/// bytes and deltas `delta_len`: its kind and its payload, which ends at
/// `1 + len`. `None` when the tag is unknown or the payload is cut short.
pub open spec fn spec_decode_frame(bytes: Seq<u8>, full_len: nat, delta_len: nat) -> Option<
    (EntryKind, nat),
> {
    if bytes.len() == 0 {
        None
    } else {
        match spec_entry_kind(bytes[0]) {
            None => None,
            Some(k) => {
                let len = match k {
                    EntryKind::Full => full_len,
                    EntryKind::Delta => delta_len,
                };
                if bytes.len() < 1 + len {
                    None
                } else {
                    Some((k, len))
                }
            },
        }
    }
}

/// Reads the entry at the front of `bytes`: its kind and its payload's
/// length, the payload standing right after the tag.
pub fn decode_frame(bytes: &[u8], full_len: usize, delta_len: usize) -> (r: Option<(EntryKind, usize)>)
    ensures
        match r {
            Some((k, len)) => spec_decode_frame(bytes@, full_len as nat, delta_len as nat) == Some(
                (k, len as nat),
            ),
            None => spec_decode_frame(bytes@, full_len as nat, delta_len as nat) is None,
        },
{
    if bytes.len() == 0 {
        return None;
    }
    match entry_kind(bytes[0]) {
        None => None,
        Some(k) => {
            let len = match k {
                EntryKind::Full => full_len,
                EntryKind::Delta => delta_len,
            };
            if bytes.len() - 1 < len {
                None
            } else {
                Some((k, len))
            }
        },
    }
}

/// An entry reads back: the frame of a payload of the length its kind
/// takes, followed by anything, decodes to that kind and that payload.
pub proof fn lemma_frame_round_trip(
    full: bool,
    payload: Seq<u8>,
    rest: Seq<u8>,
    full_len: nat,
    delta_len: nat,
)
    requires
        payload.len() == if full {
            full_len
        } else {
            delta_len
        },
    ensures
        ({
            let bytes = spec_frame(full, payload) + rest;
            let k = if full {
                EntryKind::Full
            } else {
                EntryKind::Delta
            };
            &&& spec_decode_frame(bytes, full_len, delta_len) == Some((k, payload.len()))
            &&& bytes.subrange(1, 1 + payload.len() as int) == payload
            &&& bytes.skip(1 + payload.len() as int) == rest
        }),
{
    let bytes = spec_frame(full, payload) + rest;
    assert(bytes[0] == if full { FULL_ENTRY_TAG } else { DELTA_ENTRY_TAG });
    assert(bytes.subrange(1, 1 + payload.len() as int) =~= payload);
    assert(bytes.skip(1 + payload.len() as int) =~= rest);
}

/// The kind of entry a frame holds.
pub open spec fn frame_kind(full: bool) -> EntryKind {
    if full {
        EntryKind::Full
    } else {
        EntryKind::Delta
    }
}

/// The bytes of `frames`, `(full, payload)` each, written one after the
/// other by `write_frame`.
pub open spec fn spec_frames(frames: Seq<(bool, Seq<u8>)>) -> Seq<u8>
    decreases frames.len(),
{
    if frames.len() == 0 {
        Seq::empty()
    } else {
        spec_frame(frames[0].0, frames[0].1) + spec_frames(frames.skip(1))
    }
}

/// What `frames` should read back as: the kind and payload of each.
pub open spec fn frames_read_back(frames: Seq<(bool, Seq<u8>)>) -> Seq<(EntryKind, Seq<u8>)>
    decreases frames.len(),
{
    if frames.len() == 0 {
        Seq::empty()
    } else {
        seq![(frame_kind(frames[0].0), frames[0].1)] + frames_read_back(frames.skip(1))
    }
}

/// The entries that reading `bytes` frame by frame with `decode_frame`
/// gives, each a kind and its payload, up to the first frame that does not
/// decode (an unknown tag, a payload cut short, or the end of the bytes).
pub open spec fn spec_decode_frames(bytes: Seq<u8>, full_len: nat, delta_len: nat) -> Seq<
    (EntryKind, Seq<u8>),
>
    decreases bytes.len(),
{
    if bytes.len() == 0 {
        Seq::empty()
    } else {
        match spec_entry_kind(bytes[0]) {
            None => Seq::empty(),
            Some(k) => {
                let len = match k {
                    EntryKind::Full => full_len,
                    EntryKind::Delta => delta_len,
                };
                if bytes.len() < 1 + len {
                    Seq::empty()
                } else {
                    seq![(k, bytes.subrange(1, 1 + len as int))] + spec_decode_frames(
                        bytes.skip(1 + len as int),
                        full_len,
                        delta_len,
                    )
                }
            },
        }
    }
}

/// Frames read back in order: the bytes of any run of frames, each payload
/// of the length its kind takes, followed by anything, decode to the kinds
/// and payloads of those frames, then to what the rest decodes to. With
/// nothing after them, reading stops right after the last frame.
pub proof fn lemma_frames_round_trip(
    frames: Seq<(bool, Seq<u8>)>,
    rest: Seq<u8>,
    full_len: nat,
    delta_len: nat,
)
    requires
        forall|i: int|
            0 <= i < frames.len() ==> (#[trigger] frames[i]).1.len() == if frames[i].0 {
                full_len
            } else {
                delta_len
            },
    ensures
        spec_decode_frames(spec_frames(frames) + rest, full_len, delta_len) == frames_read_back(
            frames,
        ) + spec_decode_frames(rest, full_len, delta_len),
        spec_decode_frames(spec_frames(frames), full_len, delta_len) == frames_read_back(frames),
    decreases frames.len(),
{
    if frames.len() == 0 {
        assert(spec_frames(frames) + rest =~= rest);
        assert(frames_read_back(frames) + spec_decode_frames(rest, full_len, delta_len)
            =~= spec_decode_frames(rest, full_len, delta_len));
    } else {
        let (full, payload) = frames[0];
        let tail = frames.skip(1);
        assert forall|i: int| 0 <= i < tail.len() implies (#[trigger] tail[i]).1.len() == if tail[i].0 {
            full_len
        } else {
            delta_len
        } by {
            assert(tail[i] == frames[i + 1]);
        }
        lemma_frames_round_trip(tail, rest, full_len, delta_len);
        lemma_frames_round_trip(tail, Seq::empty(), full_len, delta_len);
        assert(spec_frames(tail) + Seq::<u8>::empty() =~= spec_frames(tail));
        assert(spec_decode_frames(Seq::<u8>::empty(), full_len, delta_len) =~= Seq::<
            (EntryKind, Seq<u8>),
        >::empty());
        assert(frames_read_back(tail) + Seq::<(EntryKind, Seq<u8>)>::empty() =~= frames_read_back(
            tail,
        ));
        let bytes = spec_frames(frames) + rest;
        lemma_frame_round_trip(full, payload, spec_frames(tail) + rest, full_len, delta_len);
        assert(bytes =~= spec_frame(full, payload) + (spec_frames(tail) + rest));
        lemma_frame_round_trip(full, payload, spec_frames(tail), full_len, delta_len);
        assert(bytes[0] == spec_frame(full, payload)[0]);
        assert(frames_read_back(frames) + spec_decode_frames(rest, full_len, delta_len) =~= seq![
            (frame_kind(full), payload),
        ] + (frames_read_back(tail) + spec_decode_frames(rest, full_len, delta_len)));
    }
}

/// The tags of the entries, fixed: a whole value is tagged 0x69 and a delta
/// 0x42; only those two bytes announce an entry, and a frame starts with its
/// tag.
pub proof fn lemma_entry_tags(tag: u8, full: bool, payload: Seq<u8>)
    ensures
        FULL_ENTRY_TAG == 0x69,
        DELTA_ENTRY_TAG == 0x42,
        spec_entry_kind(0x69) == Some(EntryKind::Full),
        spec_entry_kind(0x42) == Some(EntryKind::Delta),
        tag != 0x69 && tag != 0x42 ==> spec_entry_kind(tag) is None,
        spec_frame(full, payload)[0] == if full {
            0x69u8
        } else {
            0x42u8
        },
        frame_kind(true) == EntryKind::Full,
        frame_kind(false) == EntryKind::Delta,
{
}

/// What a ring logger that counts entries does before it logs one.
pub enum RotateAction {
    /// Log into the current segment.
    Keep,
    /// Close the current segment and start a new one first, releasing the
    /// oldest segment when `remove_oldest`.
    Rotate { remove_oldest: bool },
}

/// The counters of a ring logger whose segments hold a fixed number of
/// entries.
pub struct SegmentCounter {
    logs_per_segment: u32,
    current_segment_logs: u32,
    segments_per_ring: u32,
    current_segment_i: u32,
}

impl SegmentCounter {
    pub closed spec fn logs_per_segment(&self) -> u32 {
        self.logs_per_segment
    }

    /// Entries in the current segment.
    pub closed spec fn current_segment_logs(&self) -> u32 {
        self.current_segment_logs
    }

    pub closed spec fn segments_per_ring(&self) -> u32 {
        self.segments_per_ring
    }

    /// Segments started so far, those found at start-up included.
    pub closed spec fn current_segment_i(&self) -> u32 {
        self.current_segment_i
    }

    /// The counters of a ring that starts with `current_segment_i`
    /// segments and an empty segment.
    pub fn new(logs_per_segment: u32, segments_per_ring: u32, current_segment_i: u32) -> (r: Self)
        ensures
            r.logs_per_segment() == logs_per_segment,
            r.segments_per_ring() == segments_per_ring,
            r.current_segment_i() == current_segment_i,
            r.current_segment_logs() == 0,
    {
        Self { logs_per_segment, current_segment_logs: 0, segments_per_ring, current_segment_i }
    }

    pub fn current_segment_i_value(&self) -> (r: u32)
        ensures
            r == self.current_segment_i(),
    {
        self.current_segment_i
    }

    /// Counts one entry: a full segment is closed first, and a new segment
    /// past the ring's size releases the oldest one.
    pub fn on_log(&mut self) -> (r: RotateAction)
        requires
            old(self).current_segment_logs() >= old(self).logs_per_segment() ==> old(
                self,
            ).current_segment_i() < u32::MAX,
        ensures
            final(self).logs_per_segment() == old(self).logs_per_segment(),
            final(self).segments_per_ring() == old(self).segments_per_ring(),
            old(self).current_segment_logs() >= old(self).logs_per_segment() ==> {
                &&& r == (RotateAction::Rotate {
                    remove_oldest: old(self).current_segment_i() + 1 > old(
                        self,
                    ).segments_per_ring(),
                })
                &&& final(self).current_segment_i() == old(self).current_segment_i() + 1
                &&& final(self).current_segment_logs() == 1
            },
            segment_step(
                old(self).logs_per_segment() as int,
                old(self).current_segment_logs() as int,
                old(self).current_segment_i() as int,
            ) == (
                final(self).current_segment_logs() as int,
                final(self).current_segment_i() as int,
                r is Rotate,
            ),
            old(self).current_segment_logs() < old(self).logs_per_segment() ==> {
                &&& r is Keep
                &&& final(self).current_segment_i() == old(self).current_segment_i()
                &&& final(self).current_segment_logs() == old(self).current_segment_logs() + 1
            },
    {
        let mut r = RotateAction::Keep;
        if self.current_segment_logs >= self.logs_per_segment {
            self.current_segment_logs = 0;
            self.current_segment_i = self.current_segment_i + 1;
            r = RotateAction::Rotate { remove_oldest: self.current_segment_i > self.segments_per_ring };
        }
        self.current_segment_logs = self.current_segment_logs + 1;
        r
    }
}

/// What one `on_log` does to a counter whose current segment holds `logs`
/// entries, with `seg` segments started: the entries of the current
/// segment then, the segments started then, and whether it rotated.
pub open spec fn segment_step(logs_per_segment: int, logs: int, seg: int) -> (int, int, bool) {
    if logs >= logs_per_segment {
        (1, seg + 1, true)
    } else {
        (logs + 1, seg, false)
    }
}

/// A counter that starts with `seg0` segments and an empty segment, after
/// `n` calls of `on_log`: as `segment_step` says of the last call.
pub open spec fn segment_run(logs_per_segment: int, seg0: int, n: nat) -> (int, int, bool)
    decreases n,
{
    if n == 0 {
        (0, seg0, false)
    } else {
        let (logs, seg, _) = segment_run(logs_per_segment, seg0, (n - 1) as nat);
        segment_step(logs_per_segment, logs, seg)
    }
}

/// The files of the ring after those `n` calls: the `seg0` segments kept at
/// start-up and the one opened then, one more for each rotation, but for a
/// rotation that releases the oldest segment.
pub open spec fn ring_files_run(
    logs_per_segment: int,
    segments_per_ring: int,
    seg0: int,
    n: nat,
) -> int
    decreases n,
{
    if n == 0 {
        seg0 + 1
    } else {
        let f = ring_files_run(logs_per_segment, segments_per_ring, seg0, (n - 1) as nat);
        let (_, seg, rotated) = segment_run(logs_per_segment, seg0, n);
        if rotated && seg <= segments_per_ring {
            f + 1
        } else {
            f
        }
    }
}

/// Over any run of `on_log` from a fresh counter with `seg0` segments kept
/// (at most the ring's size): a new segment is started exactly on calls
/// `lps + 1`, `2 * lps + 1`, ..., so each closed segment holds `lps`
/// entries; after call `n` the current segment holds `(n - 1) % lps + 1`
/// entries and `seg0 + (n - 1) / lps` segments were started; and the ring
/// holds `min(segments started, spr) + 1` files, never more than `spr + 1`.
pub proof fn lemma_segment_run(lps: int, spr: int, seg0: int, n: nat)
    requires
        lps >= 1,
        0 <= seg0 <= spr,
        n >= 1,
    ensures
        ({
            let (logs, seg, rotated) = segment_run(lps, seg0, n);
            let files = ring_files_run(lps, spr, seg0, n);
            &&& rotated == (n > lps && (n - 1) % lps == 0)
            &&& logs == (n - 1) % lps + 1
            &&& seg == seg0 + (n - 1) / lps
            &&& files == (if seg <= spr {
                seg
            } else {
                spr
            }) + 1
            &&& files <= spr + 1
        }),
    decreases n,
{
    if n == 1 {
        vstd::arithmetic::div_mod::lemma_fundamental_div_mod_converse(0, lps, 0, 0);
        assert(segment_run(lps, seg0, 0) == (0int, seg0, false));
        assert(ring_files_run(lps, spr, seg0, 0) == seg0 + 1);
    } else {
        let m = (n - 1) as nat;
        lemma_segment_run(lps, spr, seg0, m);
        let q = (m - 1) / lps;
        let r = (m - 1) % lps;
        vstd::arithmetic::div_mod::lemma_fundamental_div_mod((m - 1) as int, lps);
        assert(m as int == (q + 1) * lps + r + 1 - lps) by (nonlinear_arith)
            requires
                (m - 1) as int == lps * q + r,
        ;
        let (logs0, seg1, _) = segment_run(lps, seg0, m);
        assert(logs0 == r + 1);
        assert(segment_run(lps, seg0, n) == segment_step(lps, logs0, seg1));
        if r == lps - 1 {
            vstd::arithmetic::div_mod::lemma_fundamental_div_mod_converse(m as int, lps, q + 1, 0);
            assert(q >= 0);
            assert(m >= lps) by (nonlinear_arith)
                requires
                    m as int == (q + 1) * lps,
                    q >= 0,
                    lps >= 1,
            ;
        } else {
            vstd::arithmetic::div_mod::lemma_fundamental_div_mod_converse(m as int, lps, q, r + 1);
        }
    }
}

/// How long the segments of the two tiers of a tiered ring logger are, and
/// how long each tier keeps its data; tier 2 takes one reading of every
/// `tier_2_ratio` that tier 1 takes.
pub struct TieredRingDeltaLoggerConfig {
    tier_1_seconds_per_segment: u32,
    tier_1_keep_seconds: u32,
    tier_2_seconds_per_segment: u32,
    tier_2_keep_seconds: u32,
    tier_2_ratio: u32,
}

impl TieredRingDeltaLoggerConfig {
    pub closed spec fn spec_tier_1_seconds_per_segment(&self) -> u32 {
        self.tier_1_seconds_per_segment
    }

    pub closed spec fn spec_tier_1_keep_seconds(&self) -> u32 {
        self.tier_1_keep_seconds
    }

    pub closed spec fn spec_tier_2_seconds_per_segment(&self) -> u32 {
        self.tier_2_seconds_per_segment
    }

    pub closed spec fn spec_tier_2_keep_seconds(&self) -> u32 {
        self.tier_2_keep_seconds
    }

    pub closed spec fn spec_tier_2_ratio(&self) -> u32 {
        self.tier_2_ratio
    }

    /// The ratio is how many tier-2 segment lengths fit in a tier-1
    /// segment, rounded down.
    pub fn new(
        tier_1_seconds_per_segment: u32,
        tier_1_keep_seconds: u32,
        tier_2_seconds_per_segment: u32,
        tier_2_keep_seconds: u32,
    ) -> (r: Self)
        requires
            tier_2_seconds_per_segment != 0,
        ensures
            r.spec_tier_1_seconds_per_segment() == tier_1_seconds_per_segment,
            r.spec_tier_1_keep_seconds() == tier_1_keep_seconds,
            r.spec_tier_2_seconds_per_segment() == tier_2_seconds_per_segment,
            r.spec_tier_2_keep_seconds() == tier_2_keep_seconds,
            r.spec_tier_2_ratio() == tier_1_seconds_per_segment / tier_2_seconds_per_segment,
    {
        Self {
            tier_1_seconds_per_segment,
            tier_1_keep_seconds,
            tier_2_seconds_per_segment,
            tier_2_keep_seconds,
            tier_2_ratio: tier_1_seconds_per_segment / tier_2_seconds_per_segment,
        }
    }

    pub fn tier_2_ratio(&self) -> (r: u32)
        ensures
            r == self.spec_tier_2_ratio(),
    {
        self.tier_2_ratio
    }

    /// The entries per segment and segments per ring of one tier, and the
    /// largest size in bytes that the two tiers' files reach together.
    pub fn tier_params(
        &self,
        tier_1_logs_per_second: u32,
        tier_2_logs_per_second: u32,
        entry_size: u32,
    ) -> (r: TierParams)
        requires
            self.spec_tier_1_seconds_per_segment() != 0,
            self.spec_tier_2_seconds_per_segment() != 0,
            tier_1_logs_per_second * self.spec_tier_1_seconds_per_segment() <= u32::MAX,
            tier_2_logs_per_second * self.spec_tier_2_seconds_per_segment() <= u32::MAX,
            tier_1_logs_per_second * self.spec_tier_1_keep_seconds() <= u32::MAX,
            tier_2_logs_per_second * self.spec_tier_2_keep_seconds() <= u32::MAX,
            tier_1_logs_per_second * self.spec_tier_1_keep_seconds() + tier_2_logs_per_second
                * self.spec_tier_2_keep_seconds() <= u32::MAX,
            (tier_1_logs_per_second * self.spec_tier_1_keep_seconds() + tier_2_logs_per_second
                * self.spec_tier_2_keep_seconds()) * entry_size <= u32::MAX,
        ensures
            r.tier_1_logs_per_segment == tier_1_logs_per_second
                * self.spec_tier_1_seconds_per_segment(),
            r.tier_1_segments_per_ring == self.spec_tier_1_keep_seconds()
                / self.spec_tier_1_seconds_per_segment(),
            r.tier_2_logs_per_segment == tier_2_logs_per_second
                * self.spec_tier_2_seconds_per_segment(),
            r.tier_2_segments_per_ring == self.spec_tier_2_keep_seconds()
                / self.spec_tier_2_seconds_per_segment(),
            r.max_total_file_size == (tier_1_logs_per_second * self.spec_tier_1_keep_seconds()
                + tier_2_logs_per_second * self.spec_tier_2_keep_seconds()) * entry_size,
    {
        TierParams {
            tier_1_logs_per_segment: tier_1_logs_per_second * self.tier_1_seconds_per_segment,
            tier_1_segments_per_ring: self.tier_1_keep_seconds / self.tier_1_seconds_per_segment,
            tier_2_logs_per_segment: tier_2_logs_per_second * self.tier_2_seconds_per_segment,
            tier_2_segments_per_ring: self.tier_2_keep_seconds / self.tier_2_seconds_per_segment,
            max_total_file_size: (tier_1_logs_per_second * self.tier_1_keep_seconds
                + tier_2_logs_per_second * self.tier_2_keep_seconds) * entry_size,
        }
    }
}

/// The sizes of the two rings of a tiered ring logger.
pub struct TierParams {
    pub tier_1_logs_per_segment: u32,
    pub tier_1_segments_per_ring: u32,
    pub tier_2_logs_per_segment: u32,
    pub tier_2_segments_per_ring: u32,
    pub max_total_file_size: u32,
}

/// Picks the readings that go to tier 2 as well: one of every `ratio`,
/// the first one included.
pub struct TierCounter {
    tier_2_counter: u32,
    tier_2_ratio: u32,
}

/// The counter after `n` readings.
pub open spec fn spec_counter_after(ratio: u32, n: nat) -> u32
    decreases n,
{
    if n == 0 {
        0
    } else {
        let c = spec_counter_after(ratio, (n - 1) as nat);
        if c + 1 >= ratio {
            0
        } else {
            (c + 1) as u32
        }
    }
}

impl TierCounter {
    pub closed spec fn counter(&self) -> u32 {
        self.tier_2_counter
    }

    pub closed spec fn ratio(&self) -> u32 {
        self.tier_2_ratio
    }

    /// The counter stays below the ratio, or at 0.
    pub open spec fn wf(&self) -> bool {
        self.counter() == 0 || self.counter() < self.ratio()
    }

    pub fn new(tier_2_ratio: u32) -> (r: Self)
        ensures
            r.wf(),
            r.counter() == 0,
            r.ratio() == tier_2_ratio,
    {
        Self { tier_2_counter: 0, tier_2_ratio }
    }

    /// Counts a reading and says whether it goes to tier 2 too.
    pub fn on_log(&mut self) -> (r: bool)
        requires
            old(self).wf(),
        ensures
            final(self).wf(),
            r == (old(self).counter() == 0),
            final(self).ratio() == old(self).ratio(),
            final(self).counter() == if old(self).counter() + 1 >= old(self).ratio() {
                0
            } else {
                old(self).counter() + 1
            },
    {
        let r = self.tier_2_counter == 0;
        self.tier_2_counter = self.tier_2_counter + 1;
        if self.tier_2_counter >= self.tier_2_ratio {
            self.tier_2_counter = 0;
        }
        r
    }
}

/// After `n` readings the counter is `n` modulo the ratio (taken as 1 when
/// it is 0), so tier 2 takes reading `n` exactly when `n` is a multiple of
/// the ratio.
pub proof fn lemma_tier_2_takes_every_ratio_th(ratio: u32, n: nat)
    ensures
        spec_counter_after(ratio, n) == n % (if ratio == 0 {
            1nat
        } else {
            ratio as nat
        }),
        (spec_counter_after(ratio, n) == 0) == (n % (if ratio == 0 {
            1nat
        } else {
            ratio as nat
        }) == 0),
    decreases n,
{
    let r: nat = if ratio == 0 {
        1nat
    } else {
        ratio as nat
    };
    if n > 0 {
        lemma_tier_2_takes_every_ratio_th(ratio, (n - 1) as nat);
        let c = spec_counter_after(ratio, (n - 1) as nat);
        assert(c == ((n - 1) as nat) % r);
        if c + 1 >= r {
            assert(c + 1 == r);
            assert(n % r == 0) by {
                vstd::arithmetic::div_mod::lemma_fundamental_div_mod((n - 1) as int, r as int);
                vstd::arithmetic::div_mod::lemma_mod_multiples_basic(
                    ((n - 1) as int / r as int) + 1,
                    r as int,
                );
                assert(n == r * (((n - 1) as int / r as int) + 1)) by (nonlinear_arith)
                    requires
                        (n - 1) as int == r * ((n - 1) as int / r as int) + c,
                        c + 1 == r,
                ;
            }
        } else {
            assert(n % r == c + 1) by {
                vstd::arithmetic::div_mod::lemma_fundamental_div_mod((n - 1) as int, r as int);
                vstd::arithmetic::div_mod::lemma_mod_add_multiples_vanish((c + 1) as int, r as int);
                vstd::arithmetic::div_mod::lemma_mod_multiples_vanish(
                    (n - 1) as int / r as int,
                    (c + 1) as int,
                    r as int,
                );
                vstd::arithmetic::div_mod::lemma_small_mod((c + 1) as nat, r);
                assert(n == r * ((n - 1) as int / r as int) + (c + 1)) by (nonlinear_arith)
                    requires
                        (n - 1) as int == r * ((n - 1) as int / r as int) + c,
                ;
            }
        }
    }
}

} // verus!
