//! Frame statistics of the renderer: the bounded history of per-frame
//! measurements and the running totals, and the traffic counters of the
//! Tor streams.

use vstd::prelude::*;

verus! {

/// Measurements of one rendered frame (times in nanoseconds).
#[derive(Clone, Copy, Debug, PartialEq, Eq, Structural)]
pub struct FrameMetrics {
    pub frame_id: u64,
    pub cpu_encode_ns: u64,
    pub queue_submit_ns: u64,
    pub gpu_time_ns: u64,
    pub queue_wait_ns: u64,
    pub frame_interval_ns: u64,
    pub triple_buffer_depth: u8,
    pub dropped_frames: u64,
    pub timestamp_ms: i64,
}

/// Median, 95th and 99th percentile of a measurement over the history,
/// and its latest value.
#[derive(Clone, Copy, Debug, PartialEq, Eq, Structural)]
pub struct Percentiles {
    pub p50: u64,
    pub p95: u64,
    pub p99: u64,
    pub latest: Option<u64>,
}

/// Totals and percentiles of the frame history.
#[derive(Clone, Copy, Debug, PartialEq, Eq, Structural)]
pub struct FrameMetricsSummary {
    pub frames_total: u64,
    pub dropped_frames_total: u64,
    pub cpu_encode_ns: Percentiles,
    pub gpu_time_ns: Percentiles,
    pub queue_wait_ns: Percentiles,
    pub frame_interval_ns: Percentiles,
}

/// What the interface is shown of the renderer's statistics.
pub struct FrameMetricsSnapshot {
    pub available: bool,
    pub history: Vec<FrameMetrics>,
    pub summary: FrameMetricsSummary,
}

/// A captured frame: its size, its RGBA bytes and its measurements.
pub struct FrameCapture {
    pub width: u32,
    pub height: u32,
    pub data: Vec<u8>,
    pub metrics: FrameMetrics,
}

/// A shader's name and WGSL source.
pub struct ShaderSource {
    pub name: String,
    pub source: String,
}

/// The history after recording `m` with limit `limit`: when the history is
/// exactly at the limit its oldest entry goes first.
pub open spec fn history_after(h: Seq<FrameMetrics>, limit: nat, m: FrameMetrics) -> Seq<FrameMetrics> {
    if h.len() == limit && h.len() > 0 { h.drop_first().push(m) } else { h.push(m) }
}

/// The frame history with its running totals.
pub struct FrameHistory {
    history: Vec<FrameMetrics>,
    limit: usize,
    total_frames: u64,
    total_dropped: u64,
}

impl FrameHistory {
    pub closed spec fn view(&self) -> Seq<FrameMetrics> {
        self.history@
    }

    pub closed spec fn limit_view(&self) -> nat {
        self.limit as nat
    }

    pub closed spec fn frames(&self) -> u64 {
        self.total_frames
    }

    pub closed spec fn dropped(&self) -> u64 {
        self.total_dropped
    }

    /// An empty history keeping at most `limit` frames.
    pub fn new(limit: usize) -> (r: FrameHistory)
        ensures
            r@ == Seq::<FrameMetrics>::empty(),
            r.limit_view() == limit,
            r.frames() == 0 && r.dropped() == 0,
    {
        FrameHistory { history: Vec::new(), limit, total_frames: 0, total_dropped: 0 }
    }

    /// Records a frame: it joins the history (the oldest frame leaves when
    /// the history is full) and the totals of frames and dropped frames
    /// grow (wrapping around).
    pub fn record(&mut self, m: FrameMetrics)
        ensures
            final(self)@ == history_after(old(self)@, old(self).limit_view(), m),
            final(self).limit_view() == old(self).limit_view(),
            final(self).frames() == (old(self).frames() + 1) % 0x1_0000_0000_0000_0000,
            final(self).dropped() == (old(self).dropped() + m.dropped_frames) % 0x1_0000_0000_0000_0000,
    {
        if self.history.len() == self.limit && self.history.len() > 0 {
            self.history.remove(0);
        }
        self.history.push(m);
        self.total_frames = self.total_frames.wrapping_add(1);
        self.total_dropped = self.total_dropped.wrapping_add(m.dropped_frames);
    }

    /// The frames kept, oldest first.
    pub fn history(&self) -> (r: Vec<FrameMetrics>)
        ensures
            r@ == self@,
    {
        self.history.clone()
    }

    /// Frames recorded so far.
    pub fn total_frames(&self) -> (r: u64)
        ensures
            r == self.frames(),
    {
        self.total_frames
    }

    /// Dropped frames reported so far.
    pub fn total_dropped(&self) -> (r: u64)
        ensures
            r == self.dropped(),
    {
        self.total_dropped
    }
}

/// With a positive limit the history never holds more frames than the
/// limit: recording into a history within the limit keeps it within.
pub proof fn law_history_bounded(h: Seq<FrameMetrics>, limit: nat, m: FrameMetrics)
    requires
        limit > 0,
        h.len() <= limit,
    ensures
        history_after(h, limit, m).len() <= limit,
        history_after(h, limit, m).last() == m,
{
}

/// The history after recording each of `ms` in turn into `h`.
pub open spec fn history_after_all(h: Seq<FrameMetrics>, limit: nat, ms: Seq<FrameMetrics>) -> Seq<FrameMetrics>
    decreases ms.len(),
{
    if ms.len() == 0 {
        h
    } else {
        history_after(history_after_all(h, limit, ms.drop_last()), limit, ms.last())
    }
}

/// The dropped frames reported by `ms` together.
pub open spec fn dropped_sum(ms: Seq<FrameMetrics>) -> nat
    decreases ms.len(),
{
    if ms.len() == 0 { 0 } else { dropped_sum(ms.drop_last()) + ms.last().dropped_frames as nat }
}

/// The frame and dropped-frame totals after recording each of `ms` in turn,
/// one step at a time as [`FrameHistory::record`] counts them.
pub open spec fn totals_after_all(frames: u64, dropped: u64, ms: Seq<FrameMetrics>) -> (u64, u64)
    decreases ms.len(),
{
    if ms.len() == 0 {
        (frames, dropped)
    } else {
        let (f, d) = totals_after_all(frames, dropped, ms.drop_last());
        (((f + 1) % 0x1_0000_0000_0000_0000) as u64, ((d + ms.last().dropped_frames) % 0x1_0000_0000_0000_0000) as u64)
    }
}

/// Recording frames one after another into an empty history with a positive
/// limit keeps exactly the last `limit` of them (all of them while there are
/// fewer), oldest first; the totals count every frame recorded and every
/// dropped frame reported (modulo 2^64).
pub proof fn law_history_keeps_last(limit: nat, ms: Seq<FrameMetrics>)
    requires
        limit > 0,
    ensures
        history_after_all(Seq::empty(), limit, ms) == ms.subrange(
            if ms.len() > limit { ms.len() - limit } else { 0 },
            ms.len() as int,
        ),
        totals_after_all(0, 0, ms) == ((ms.len() % 0x1_0000_0000_0000_0000) as u64, (dropped_sum(ms)
            % 0x1_0000_0000_0000_0000) as u64),
    decreases ms.len(),
{
    if ms.len() > 0 {
        let t = ms.drop_last();
        law_history_keeps_last(limit, t);
        let prev = history_after_all(Seq::empty(), limit, t);
        let n = ms.len() as int;
        if n - 1 >= limit {
            assert(prev.drop_first().push(ms.last()) =~= ms.subrange(n - limit, n));
        } else {
            assert(prev.push(ms.last()) =~= ms.subrange(0, n));
        }
        let (f, d) = totals_after_all(0, 0, t);
        assert(((t.len() % 0x1_0000_0000_0000_0000) + 1) % 0x1_0000_0000_0000_0000 == ms.len() % 0x1_0000_0000_0000_0000);
        assert(((dropped_sum(t) % 0x1_0000_0000_0000_0000) + ms.last().dropped_frames) % 0x1_0000_0000_0000_0000
            == dropped_sum(ms) % 0x1_0000_0000_0000_0000);
    } else {
        assert(ms.subrange(0, 0) =~= Seq::<FrameMetrics>::empty());
    }
}

/// Bytes moved through the Tor streams.
#[derive(Clone, Copy, Debug, PartialEq, Eq, Structural)]
pub struct TrafficCounters {
    pub bytes_sent: usize,
    pub bytes_received: usize,
}

impl TrafficCounters {
    /// Nothing counted yet.
    pub fn new() -> (r: TrafficCounters)
        ensures
            r.bytes_sent == 0 && r.bytes_received == 0,
    {
        TrafficCounters { bytes_sent: 0, bytes_received: 0 }
    }

    /// Counts `n` bytes read from a stream.
    pub fn add_received(&mut self, n: usize)
        requires
            old(self).bytes_received + n <= usize::MAX,
        ensures
            final(self).bytes_received == old(self).bytes_received + n,
            final(self).bytes_sent == old(self).bytes_sent,
    {
        self.bytes_received = self.bytes_received + n;
    }

    /// Counts `n` bytes written to a stream.
    pub fn add_sent(&mut self, n: usize)
        requires
            old(self).bytes_sent + n <= usize::MAX,
        ensures
            final(self).bytes_sent == old(self).bytes_sent + n,
            final(self).bytes_received == old(self).bytes_received,
    {
        self.bytes_sent = self.bytes_sent + n;
    }

    /// The counts as they are now.
    pub fn counters(&self) -> (r: TrafficCounters)
        ensures
            r == *self,
    {
        *self
    }
}

/// Total bytes sent and received through Tor, as reported to the
/// interface.
#[derive(Clone, Copy, Debug, PartialEq, Eq, Structural)]
pub struct TrafficStats {
    pub bytes_sent: u64,
    pub bytes_received: u64,
}

/// Circuit statistics of the Tor client.
#[derive(Clone, Copy, Debug, PartialEq, Eq, Structural)]
pub struct CircuitMetrics {
    pub count: u64,
    pub oldest_age: u64,
    pub avg_create_ms: u64,
    pub failed_attempts: u64,
    pub complete: bool,
}

impl CircuitMetrics {
    /// The metrics used when the client cannot report any: all zero and
    /// marked incomplete.
    pub fn unavailable() -> (r: CircuitMetrics)
        ensures
            r == (CircuitMetrics { count: 0, oldest_age: 0, avg_create_ms: 0, failed_attempts: 0, complete: false }),
    {
        CircuitMetrics { count: 0, oldest_age: 0, avg_create_ms: 0, failed_attempts: 0, complete: false }
    }
}

/// Frames lost between the last completed frame and `frame_id`: the gap in
/// their numbers (none before the first completed frame).
pub fn dropped_frames(last_completed: Option<u64>, frame_id: u64) -> (r: u64)
    requires
        last_completed matches Some(l) ==> l < u64::MAX,
    ensures
        r == (match last_completed {
            Some(l) => if frame_id > l + 1 { (frame_id - l - 1) as u64 } else { 0 },
            None => 0,
        }),
{
    match last_completed {
        Some(l) => frame_id.saturating_sub(l + 1),
        None => 0,
    }
}

/// The frame slot used after slot `i` of `n`, in turn.
pub fn next_slot(i: usize, n: usize) -> (r: usize)
    requires
        i < n,
    ensures
        r == (i + 1) % (n as int),
        r < n,
{
    (i + 1) % n
}

/// `value` rounded up to a multiple of `alignment` (the row pitch that GPU
/// buffer copies need).
pub fn align_bytes(value: u32, alignment: u32) -> (r: u32)
    requires
        alignment > 0,
        value + alignment - 1 <= u32::MAX,
    ensures
        r as int == ((value + alignment - 1) / (alignment as int)) * alignment,
        r >= value,
        r % alignment == 0,
{
    let q = (value + (alignment - 1)) / alignment;
    assert(q * alignment <= value + alignment - 1) by (nonlinear_arith)
        requires
            q == (value + alignment - 1) / (alignment as int),
            alignment > 0;
    assert(q * alignment >= value) by (nonlinear_arith)
        requires
            q == (value + alignment - 1) / (alignment as int),
            alignment > 0;
    assert((q * alignment) % (alignment as int) == 0) by (nonlinear_arith)
        requires
            alignment > 0;
    q * alignment
}

/// Byte `x` of row `y` of a buffer whose rows are `pitch` bytes long.
pub open spec fn row_byte(s: Seq<u8>, pitch: int, y: int, x: int) -> u8 {
    s[y * pitch + x]
}

/// The pixels of a captured frame read back from a buffer whose rows are
/// `bytes_per_row` long: the first `4 * width` bytes of each of the
/// `height` rows, packed.
pub fn unpad_rows(padded: &Vec<u8>, width: usize, height: usize, bytes_per_row: usize) -> (r: Vec<u8>)
    requires
        4 * width <= bytes_per_row,
        height * bytes_per_row <= padded@.len(),
        padded@.len() <= usize::MAX,
    ensures
        r@.len() == 4 * width * height,
        forall|y: int, x: int| 0 <= y < height && 0 <= x < 4 * width ==> #[trigger] row_byte(r@, 4 * width, y, x)
            == row_byte(padded@, bytes_per_row as int, y, x),
{
    let row = 4 * width;
    let mut out: Vec<u8> = Vec::new();
    let mut y: usize = 0;
    while y < height
        invariant
            row == 4 * width,
            row <= bytes_per_row,
            height * bytes_per_row <= padded@.len(),
            padded@.len() <= usize::MAX,
            y <= height,
            out@.len() == y * row,
            forall|yy: int, x: int| 0 <= yy < y && 0 <= x < row ==> #[trigger] row_byte(out@, row as int, yy, x)
                == row_byte(padded@, bytes_per_row as int, yy, x),
        decreases height - y,
    {
        assert((y + 1) * bytes_per_row <= height * bytes_per_row) by (nonlinear_arith)
            requires
                y < height;
        assert(y * bytes_per_row <= (y + 1) * bytes_per_row) by (nonlinear_arith);
        let start = y * bytes_per_row;
        assert(start + row <= padded@.len()) by (nonlinear_arith)
            requires
                start == y * bytes_per_row,
                row <= bytes_per_row,
                (y + 1) * bytes_per_row <= padded@.len();
        let mut x: usize = 0;
        let ghost base = out@;
        while x < row
            invariant
                row == 4 * width,
                row <= bytes_per_row,
                start == y * bytes_per_row,
                start + row <= padded@.len(),
                padded@.len() <= usize::MAX,
                x <= row,
                out@.len() == y * row + x,
                out@.subrange(0, (y * row) as int) == base,
                base.len() == y * row,
                forall|k: int| 0 <= k < x ==> #[trigger] row_byte(out@, row as int, y as int, k) == padded@[start + k],
            decreases row - x,
        {
            let ghost prev = out@;
            out.push(padded[start + x]);
            assert(out@.subrange(0, (y * row) as int) =~= base);
            proof {
                assert forall|k: int| 0 <= k < x + 1 implies #[trigger] row_byte(out@, row as int, y as int, k)
                    == padded@[start + k] by {
                    if k < x {
                        assert(row_byte(prev, row as int, y as int, k) == padded@[start + k]);
                    }
                }
            }
            x = x + 1;
        }
        proof {
            assert forall|yy: int, xx: int| 0 <= yy < y + 1 && 0 <= xx < row implies #[trigger] row_byte(out@, row as int, yy, xx)
                == row_byte(padded@, bytes_per_row as int, yy, xx) by {
                if yy < y {
                    assert(yy * row + xx < y * row) by (nonlinear_arith)
                        requires
                            yy < y,
                            xx < row;
                    assert(out@[yy * row + xx] == out@.subrange(0, (y * row) as int)[yy * row + xx]);
                    assert(row_byte(base, row as int, yy, xx) == row_byte(padded@, bytes_per_row as int, yy, xx));
                } else {
                    assert(yy == y);
                    assert(row_byte(out@, row as int, y as int, xx) == padded@[start + xx]);
                }
            }
            assert((y + 1) * row == y * row + row) by (nonlinear_arith);
        }
        y = y + 1;
    }
    assert(height * row == 4 * width * height) by (nonlinear_arith)
        requires
            row == 4 * width;
    out
}

} // verus!
