//! Sample preparation on 16-bit data: mixing frames down to one channel, trimming the
//! silence at both ends, and the longest sample kept.
use vstd::prelude::*;

verus! {

/// How a sample repeats while a note holds: not at all, from the loop start again, or
/// back and forth.
#[derive(Debug, Clone, Copy, PartialEq, Eq, Structural)]
pub enum LoopType {
    Off,
    Forward,
    PingPong,
}

/// The most sample frames a loaded sample keeps.
pub const MAX_SAMPLE_LEN: usize = 131_072;

/// The magnitude of a sample value.
pub open spec fn magnitude(s: i16) -> int {
    if s < 0 {
        -s
    } else {
        s as int
    }
}

/// Whether a sample is at least as loud as `threshold`.
pub open spec fn loud(s: i16, threshold: i16) -> bool {
    magnitude(s) >= threshold
}

/// The range of `samples` that trimming keeps: from the first sample at least as loud as
/// `threshold` to the last one, inclusive; with no such sample, the empty range at 0.
pub open spec fn trimmed_range(samples: Seq<i16>, threshold: i16, r: (usize, usize)) -> bool {
    if exists|i: int| 0 <= i < samples.len() && #[trigger] loud(samples[i], threshold) {
        &&& r.0 < r.1 <= samples.len()
        &&& loud(samples[r.0 as int], threshold)
        &&& loud(samples[r.1 - 1], threshold)
        &&& forall|i: int| 0 <= i < r.0 ==> !#[trigger] loud(samples[i], threshold)
        &&& forall|i: int| r.1 <= i < samples.len() ==> !#[trigger] loud(samples[i], threshold)
    } else {
        r == (0usize, 0usize)
    }
}

/// Whether a sample is at least as loud as `threshold`, computed.
fn is_loud(s: i16, threshold: i16) -> (r: bool)
    requires
        s != i16::MIN,
    ensures
        r == loud(s, threshold),
{
    let m: i16 = if s < 0 {
        -s
    } else {
        s
    };
    m >= threshold
}

/// The start and end of the part of `samples` that trimming the silence keeps (see
/// `trimmed_range`).
pub fn trim_silence(samples: &[i16], threshold: i16) -> (r: (usize, usize))
    requires
        forall|i: int| 0 <= i < samples@.len() ==> #[trigger] samples@[i] != i16::MIN,
    ensures
        trimmed_range(samples@, threshold, r),
{
    let n = samples.len();
    let mut start: usize = 0;
    while start < n && !is_loud(samples[start], threshold)
        invariant
            start <= n,
            n == samples@.len(),
            forall|i: int| 0 <= i < samples@.len() ==> #[trigger] samples@[i] != i16::MIN,
            forall|i: int| 0 <= i < start ==> !#[trigger] loud(samples@[i], threshold),
        decreases n - start,
    {
        start = start + 1;
    }
    if start == n {
        return (0, 0);
    }
    let mut end: usize = n;
    while end > start + 1 && !is_loud(samples[end - 1], threshold)
        invariant
            start < end <= n,
            n == samples@.len(),
            loud(samples@[start as int], threshold),
            forall|i: int| 0 <= i < samples@.len() ==> #[trigger] samples@[i] != i16::MIN,
            forall|i: int| end <= i < n ==> !#[trigger] loud(samples@[i], threshold),
        decreases end,
    {
        end = end - 1;
    }
    proof {
        if end == start + 1 {
            assert(loud(samples@[end - 1], threshold));
        }
    }
    (start, end)
}

/// The sum of a frame's samples.
pub open spec fn frame_sum(s: Seq<i16>) -> int
    decreases s.len(),
{
    if s.len() == 0 {
        0
    } else {
        frame_sum(s.drop_last()) + s.last()
    }
}

/// Division rounding toward zero, as Rust's integer division does.
pub open spec fn div_toward_zero(a: int, b: int) -> int {
    if a >= 0 {
        a / b
    } else {
        -((-a) / b)
    }
}

/// The mono mix of interleaved frames of `channels` samples: the average of each whole
/// frame, rounded toward zero; samples after the last whole frame are dropped.
pub open spec fn mono_mix(raw: Seq<i16>, channels: nat) -> Seq<i16> {
    Seq::new(
        raw.len() / channels,
        |k: int|
            div_toward_zero(
                frame_sum(raw.subrange(k * channels, k * channels + channels)),
                channels as int,
            ) as i16,
    )
}

proof fn lemma_frame_sum_bounds(s: Seq<i16>)
    ensures
        s.len() * -32768 <= frame_sum(s) <= s.len() * 32767,
    decreases s.len(),
{
    if s.len() > 0 {
        lemma_frame_sum_bounds(s.drop_last());
    }
}

/// Mixes interleaved frames of `channels` samples down to one channel (see `mono_mix`);
/// one channel is kept as it is.
pub fn mix_to_mono(raw: &[i16], channels: usize) -> (r: Vec<i16>)
    requires
        channels >= 1,
        channels <= 65535,
    ensures
        channels == 1 ==> r@ == raw@,
        channels > 1 ==> r@ == mono_mix(raw@, channels as nat),
{
    let mut out: Vec<i16> = Vec::new();
    if channels == 1 {
        let mut i: usize = 0;
        while i < raw.len()
            invariant
                i <= raw@.len(),
                out@ == raw@.take(i as int),
            decreases raw@.len() - i,
        {
            out.push(raw[i]);
            i = i + 1;
            assert(out@ =~= raw@.take(i as int));
        }
        assert(raw@.take(raw@.len() as int) =~= raw@);
        return out;
    }
    let n = raw.len();
    let frames = n / channels;
    let ghost c = channels as int;
    let mut k: usize = 0;
    while k < frames
        invariant
            k <= frames,
            n == raw@.len(),
            frames == raw@.len() / (channels as nat),
            channels > 1,
            channels <= 65535,
            c == channels,
            out@ == mono_mix(raw@, channels as nat).take(k as int),
        decreases frames - k,
    {
        assert(k * c + c <= raw@.len()) by (nonlinear_arith)
            requires
                k < frames,
                frames == raw@.len() / (channels as nat),
                c == channels,
                c > 1;
        let base = k * channels;
        let mut sum: i64 = 0;
        let mut j: usize = 0;
        while j < channels
            invariant
                j <= channels,
                n == raw@.len(),
                base == k * c,
                base + c <= raw@.len(),
                c == channels,
                channels <= 65535,
                sum == frame_sum(raw@.subrange(base as int, base + j)),
                -32768 * j <= sum <= 32767 * j,
            decreases channels - j,
        {
            assert(raw@.subrange(base as int, base + j + 1).drop_last() =~= raw@.subrange(
                base as int,
                base + j,
            ));
            sum = sum + raw[base + j] as i64;
            j = j + 1;
        }
        let avg: i64 = if sum >= 0 {
            sum / (channels as i64)
        } else {
            -((-sum) / (channels as i64))
        };
        assert(-32768 <= avg <= 32767) by (nonlinear_arith)
            requires
                -32768 * c <= sum <= 32767 * c,
                c > 1,
                avg == div_toward_zero(sum as int, c);
        out.push(avg as i16);
        k = k + 1;
        assert(out@ =~= mono_mix(raw@, channels as nat).take(k as int));
    }
    assert(mono_mix(raw@, channels as nat).take(frames as int) =~= mono_mix(raw@, channels as nat));
    out
}

/// The length a loaded sample keeps: at most `MAX_SAMPLE_LEN` frames.
pub fn kept_length(len: usize) -> (r: usize)
    ensures
        r == if len > MAX_SAMPLE_LEN {
            MAX_SAMPLE_LEN
        } else {
            len
        },
{
    if len > MAX_SAMPLE_LEN {
        MAX_SAMPLE_LEN
    } else {
        len
    }
}

/// The shortest region a sample can be cut to, in frames.
pub const MIN_REGION: usize = 64;

/// Where the region starts when its start handle is dragged to frame `pos`: at least
/// `MIN_REGION` frames before its end (or at 0).
pub fn drag_region_start(pos: usize, region_end: usize) -> (r: usize)
    ensures
        r == if region_end >= MIN_REGION {
            if pos <= region_end - MIN_REGION {
                pos as int
            } else {
                region_end - MIN_REGION
            }
        } else {
            0
        },
{
    let limit = if region_end >= MIN_REGION {
        region_end - MIN_REGION
    } else {
        0
    };
    if pos <= limit {
        pos
    } else {
        limit
    }
}

/// Where the region ends when its end handle is dragged to frame `pos`: at least
/// `MIN_REGION` frames after its start and at most the sample's length.
pub fn drag_region_end(pos: usize, region_start: usize, total: usize) -> (r: usize)
    requires
        region_start + MIN_REGION <= total,
    ensures
        r == if pos < region_start + MIN_REGION {
            region_start + MIN_REGION
        } else if pos > total {
            total as int
        } else {
            pos as int
        },
{
    if pos < region_start + MIN_REGION {
        region_start + MIN_REGION
    } else if pos > total {
        total
    } else {
        pos
    }
}

/// The region's end as stored, where 0 stands for the sample's end.
pub open spec fn region_end_of(region_end: int, total: int) -> int {
    if region_end == 0 {
        total
    } else {
        region_end
    }
}

/// Whether the region leaves out any of the sample, so that trimming to it does something.
pub fn region_is_selection(region_start: usize, region_end: usize, total: usize) -> (r: bool)
    ensures
        r == (region_start > 0 || region_end_of(region_end as int, total as int) < total),
{
    let re = if region_end == 0 {
        total
    } else {
        region_end
    };
    region_start > 0 || re < total
}

/// What trimming a sample of `total` frames to its region keeps: the frames `from..to`,
/// and the loop moved to the new start and cut to the new length.
#[derive(Debug, Clone, Copy, PartialEq, Eq, Structural)]
pub struct Trim {
    pub from: usize,
    pub to: usize,
    pub loop_start: usize,
    pub loop_length: usize,
}

/// The trim of a sample to its region: the region's end capped at the sample's length and
/// its start at the end; the loop start moves back by the frames cut from the front (to 0
/// if it lay among them), and the loop length is capped at what is left after the loop
/// start.
pub open spec fn trim_of(total: int, region_start: int, region_end: int, loop_start: int, loop_length: int) -> Trim {
    let re = region_end_of(region_end, total);
    let to = if re < total {
        re
    } else {
        total
    };
    let from = if region_start < to {
        region_start
    } else {
        to
    };
    let len = to - from;
    let ls = if loop_start >= from {
        loop_start - from
    } else {
        0
    };
    let room = if len >= ls {
        len - ls
    } else {
        0
    };
    Trim {
        from: from as usize,
        to: to as usize,
        loop_start: ls as usize,
        loop_length: (if loop_length < room {
            loop_length
        } else {
            room
        }) as usize,
    }
}

/// The trim of a sample to its region (see `trim_of`).
pub fn trim_to_region(total: usize, region_start: usize, region_end: usize, loop_start: usize, loop_length: usize) -> (r: Trim)
    ensures
        r == trim_of(total as int, region_start as int, region_end as int, loop_start as int, loop_length as int),
        r.from <= r.to <= total,
{
    let re = if region_end == 0 {
        total
    } else {
        region_end
    };
    let to = if re < total {
        re
    } else {
        total
    };
    let from = if region_start < to {
        region_start
    } else {
        to
    };
    let len = to - from;
    let ls = if loop_start >= from {
        loop_start - from
    } else {
        0
    };
    let room = if len >= ls {
        len - ls
    } else {
        0
    };
    Trim {
        from,
        to,
        loop_start: ls,
        loop_length: if loop_length < room {
            loop_length
        } else {
            room
        },
    }
}

} // verus!
