use std::collections::VecDeque;
use vstd::prelude::*;

verus! {

/// Sample rate of the audio that the microphone publishes.
pub const TARGET_SAMPLE_RATE: u32 = 16_000;

/// Number of samples in one chunk handed to the voice detector.
pub const CHUNK_SIZE: usize = 256;

/// Sum of a sequence of signed 16-bit samples.
pub open spec fn sum_i16(s: Seq<i16>) -> int
    decreases s.len(),
{
    if s.len() == 0 {
        0
    } else {
        sum_i16(s.drop_last()) + s.last()
    }
}

/// Sum of a sequence of unsigned 16-bit samples.
pub open spec fn sum_u16(s: Seq<u16>) -> int
    decreases s.len(),
{
    if s.len() == 0 {
        0
    } else {
        sum_u16(s.drop_last()) + s.last()
    }
}

/// The `f`-th frame of an interleaved buffer with `channels` channels.
pub open spec fn frame_of<T>(s: Seq<T>, channels: int, f: int) -> Seq<T> {
    s.subrange(f * channels, f * channels + channels)
}

/// Integer division rounding toward zero, as Rust's `/` does on signed integers.
pub open spec fn div_toward_zero(a: int, b: int) -> int {
    if a >= 0 {
        a / b
    } else {
        -((-a) / b)
    }
}

/// The mono sample of frame `f` of signed interleaved audio: the mean of the
/// frame's samples, rounded toward zero.
pub open spec fn mono_i16(s: Seq<i16>, channels: int, f: int) -> int {
    div_toward_zero(sum_i16(frame_of(s, channels, f)), channels)
}

/// The mono sample of frame `f` of unsigned interleaved audio: the mean of the
/// frame's samples, rounded down, moved to the signed range.
pub open spec fn mono_u16(s: Seq<u16>, channels: int, f: int) -> int {
    sum_u16(frame_of(s, channels, f)) / channels - 32768
}

proof fn lemma_sum_i16_bounds(s: Seq<i16>)
    ensures
        -32768 * s.len() <= sum_i16(s) <= 32767 * s.len(),
    decreases s.len(),
{
    if s.len() > 0 {
        lemma_sum_i16_bounds(s.drop_last());
    }
}

proof fn lemma_sum_u16_bounds(s: Seq<u16>)
    ensures
        0 <= sum_u16(s) <= 65535 * s.len(),
    decreases s.len(),
{
    if s.len() > 0 {
        lemma_sum_u16_bounds(s.drop_last());
    }
}

proof fn lemma_mean_i16_fits(a: int, c: int)
    requires
        c > 0,
        -32768 * c <= a <= 32767 * c,
    ensures
        -32768 <= div_toward_zero(a, c) <= 32767,
{
    if a >= 0 {
        assert(a / c <= 32767) by (nonlinear_arith)
            requires
                c > 0,
                0 <= a <= 32767 * c,
        ;
    } else {
        assert((-a) / c <= 32768) by (nonlinear_arith)
            requires
                c > 0,
                0 <= -a <= 32768 * c,
        ;
    }
}

proof fn lemma_mean_u16_fits(a: int, c: int)
    requires
        c > 0,
        0 <= a <= 65535 * c,
    ensures
        0 <= a / c <= 65535,
{
    assert(0 <= a / c <= 65535) by (nonlinear_arith)
        requires
            c > 0,
            0 <= a <= 65535 * c,
    ;
}

proof fn lemma_frame_in_bounds(f: int, frames: int, channels: int, len: int)
    requires
        0 <= f < frames,
        channels > 0,
        frames == len / channels,
        len >= 0,
    ensures
        0 <= f * channels,
        f * channels + channels <= len,
{
    assert(f * channels + channels <= frames * channels) by (nonlinear_arith)
        requires
            0 <= f < frames,
            channels > 0,
    ;
    assert(frames * channels <= len) by (nonlinear_arith)
        requires
            channels > 0,
            frames == len / channels,
            len >= 0,
    ;
    assert(0 <= f * channels) by (nonlinear_arith)
        requires
            0 <= f,
            channels > 0,
    ;
}

/// Down-mixing audio that is already mono changes nothing but the range:
/// signed samples come out as they went in, unsigned samples come out moved
/// down by 32768.
pub proof fn lemma_mono_downmix_is_identity(s: Seq<i16>, u: Seq<u16>, f: int)
    ensures
        0 <= f < s.len() ==> mono_i16(s, 1, f) == s[f] as int,
        0 <= f < u.len() ==> mono_u16(u, 1, f) == u[f] - 32768,
{
    if 0 <= f < s.len() {
        let fr = frame_of(s, 1, f);
        assert(fr.drop_last() =~= Seq::<i16>::empty());
        assert(fr.last() == s[f]);
        assert(sum_i16(fr.drop_last()) == 0);
        assert(sum_i16(fr) == s[f] as int);
        let x: int = s[f] as int;
        assert(x >= 0 ==> x / 1 == x);
        assert(x < 0 ==> (-x) / 1 == -x);
    }
    if 0 <= f < u.len() {
        let fr = frame_of(u, 1, f);
        assert(fr.drop_last() =~= Seq::<u16>::empty());
        assert(fr.last() == u[f]);
        assert(sum_u16(fr.drop_last()) == 0);
        assert(sum_u16(fr) == u[f] as int);
        let y: int = u[f] as int;
        assert(y / 1 == y);
    }
}

/// The signed down-mix is the mean of the whole frame, rounded toward zero:
/// for every channel count `c` and every frame `f`, with `t` the sum of all
/// `c` samples of the frame, the output `m` satisfies `m * c <= t < m * c + c`
/// when `t >= 0`, and `m * c - c < t <= m * c` when `t < 0`.
pub proof fn lemma_mono_i16_is_frame_mean(s: Seq<i16>, c: int, f: int)
    requires
        c > 0,
    ensures
        ({
            let m = mono_i16(s, c, f);
            let t = sum_i16(s.subrange(f * c, f * c + c));
            &&& t >= 0 ==> m * c <= t && t < m * c + c
            &&& t < 0 ==> m * c - c < t && t <= m * c
        }),
{
    let t = sum_i16(s.subrange(f * c, f * c + c));
    assert(frame_of(s, c, f) == s.subrange(f * c, f * c + c));
    if t >= 0 {
        let q = t / c;
        assert(q * c <= t && t < q * c + c) by (nonlinear_arith)
            requires
                c > 0,
                t >= 0,
                q == t / c,
        ;
    } else {
        let q = (-t) / c;
        assert(q * c <= -t && -t < q * c + c) by (nonlinear_arith)
            requires
                c > 0,
                -t > 0,
                q == (-t) / c,
        ;
        assert((-q) * c == -(q * c)) by (nonlinear_arith);
    }
}

/// The unsigned down-mix is the mean of the whole frame, rounded down, moved
/// to the signed range: for every channel count `c` and every frame `f`, with
/// `t` the sum of all `c` samples of the frame, the output `m` satisfies
/// `(m + 32768) * c <= t < (m + 32768) * c + c`.
pub proof fn lemma_mono_u16_is_frame_mean(s: Seq<u16>, c: int, f: int)
    requires
        c > 0,
    ensures
        ({
            let m = mono_u16(s, c, f);
            let t = sum_u16(s.subrange(f * c, f * c + c));
            (m + 32768) * c <= t && t < (m + 32768) * c + c
        }),
{
    let t = sum_u16(s.subrange(f * c, f * c + c));
    assert(frame_of(s, c, f) == s.subrange(f * c, f * c + c));
    let q = t / c;
    assert(q * c <= t && t < q * c + c) by (nonlinear_arith)
        requires
            c > 0,
            q == t / c,
    ;
}

/// Down-mixes interleaved signed 16-bit audio to mono: each output sample is
/// the mean of one frame of `channels` samples, rounded toward zero. Trailing
/// samples that do not fill a frame are dropped. Frames of more than 65536
/// samples could overflow the 32-bit frame sum, so they are left out.
pub fn collapse_channels_i16(interleaved: &[i16], channels: usize) -> (mono: Vec<i16>)
    requires
        0 < channels,
        interleaved@.len() < channels || channels <= 65536,
    ensures
        mono@.len() == interleaved@.len() as int / (channels as int),
        forall|f: int|
            0 <= f < mono@.len() ==> #[trigger] mono@[f] as int == mono_i16(
                interleaved@,
                channels as int,
                f,
            ),
        forall|f: int|
            0 <= f < mono@.len() ==> {
                let m = #[trigger] mono@[f] as int;
                let c = channels as int;
                let t = sum_i16(interleaved@.subrange(f * c, f * c + c));
                &&& t >= 0 ==> m * c <= t && t < m * c + c
                &&& t < 0 ==> m * c - c < t && t <= m * c
            },
{
    let frames: usize = interleaved.len() / channels;
    assert(interleaved@.len() <= usize::MAX);
    assert(frames > 0 ==> channels <= interleaved@.len()) by (nonlinear_arith)
        requires
            channels > 0,
            frames == interleaved@.len() as int / (channels as int),
    ;
    let mut mono: Vec<i16> = Vec::new();
    let mut frame: usize = 0;
    while frame < frames
        invariant
            0 < channels,
            frames > 0 ==> channels <= 65536,
            frames == interleaved@.len() as int / (channels as int),
            frame <= frames,
            interleaved@.len() <= usize::MAX,
            mono@.len() == frame,
            forall|f: int|
                0 <= f < frame ==> #[trigger] mono@[f] as int == mono_i16(
                    interleaved@,
                    channels as int,
                    f,
                ),
        decreases frames - frame,
    {
        proof {
            lemma_frame_in_bounds(
                frame as int,
                frames as int,
                channels as int,
                interleaved@.len() as int,
            );
        }
        let start: usize = frame * channels;
        let ghost fr = frame_of(interleaved@, channels as int, frame as int);
        let mut sum: i64 = 0;
        let mut j: usize = 0;
        while j < channels
            invariant
                0 < channels <= 65536,
                start as int == frame * channels,
                start + channels <= interleaved@.len(),
                interleaved@.len() <= usize::MAX,
                fr == interleaved@.subrange(start as int, start + channels),
                j <= channels,
                sum as int == sum_i16(fr.subrange(0, j as int)),
            decreases channels - j,
        {
            proof {
                lemma_sum_i16_bounds(fr.subrange(0, j as int));
                assert(fr.subrange(0, j + 1).drop_last() =~= fr.subrange(0, j as int));
            }
            sum = sum + interleaved[start + j] as i64;
            j = j + 1;
        }
        proof {
            assert(fr.subrange(0, channels as int) =~= fr);
            lemma_sum_i16_bounds(fr);
            lemma_mean_i16_fits(sum as int, channels as int);
        }
        let c: i64 = channels as i64;
        let mean: i64 = if sum >= 0 {
            sum / c
        } else {
            -((-sum) / c)
        };
        mono.push(mean as i16);
        frame = frame + 1;
    }
    proof {
        assert forall|f: int| 0 <= f < mono@.len() implies {
            let m = #[trigger] mono@[f] as int;
            let c = channels as int;
            let t = sum_i16(interleaved@.subrange(f * c, f * c + c));
            &&& t >= 0 ==> m * c <= t && t < m * c + c
            &&& t < 0 ==> m * c - c < t && t <= m * c
        } by {
            lemma_mono_i16_is_frame_mean(interleaved@, channels as int, f);
        }
    }
    mono
}

/// Down-mixes interleaved unsigned 16-bit audio to signed mono: each output
/// sample is the mean of one frame, rounded down, minus 32768. Trailing
/// samples that do not fill a frame are dropped. Frames of more than 65537
/// samples could overflow the 32-bit frame sum, so they are left out.
pub fn collapse_channels_u16(interleaved: &[u16], channels: usize) -> (mono: Vec<i16>)
    requires
        0 < channels,
        interleaved@.len() < channels || channels <= 65537,
    ensures
        mono@.len() == interleaved@.len() as int / (channels as int),
        forall|f: int|
            0 <= f < mono@.len() ==> #[trigger] mono@[f] as int == mono_u16(
                interleaved@,
                channels as int,
                f,
            ),
        forall|f: int|
            0 <= f < mono@.len() ==> {
                let m = #[trigger] mono@[f] as int;
                let c = channels as int;
                let t = sum_u16(interleaved@.subrange(f * c, f * c + c));
                (m + 32768) * c <= t && t < (m + 32768) * c + c
            },
{
    let frames: usize = interleaved.len() / channels;
    assert(interleaved@.len() <= usize::MAX);
    assert(frames > 0 ==> channels <= interleaved@.len()) by (nonlinear_arith)
        requires
            channels > 0,
            frames == interleaved@.len() as int / (channels as int),
    ;
    let mut mono: Vec<i16> = Vec::new();
    let mut frame: usize = 0;
    while frame < frames
        invariant
            0 < channels,
            frames > 0 ==> channels <= 65537,
            frames == interleaved@.len() as int / (channels as int),
            frame <= frames,
            interleaved@.len() <= usize::MAX,
            mono@.len() == frame,
            forall|f: int|
                0 <= f < frame ==> #[trigger] mono@[f] as int == mono_u16(
                    interleaved@,
                    channels as int,
                    f,
                ),
        decreases frames - frame,
    {
        proof {
            lemma_frame_in_bounds(
                frame as int,
                frames as int,
                channels as int,
                interleaved@.len() as int,
            );
        }
        let start: usize = frame * channels;
        let ghost fr = frame_of(interleaved@, channels as int, frame as int);
        let mut sum: u64 = 0;
        let mut j: usize = 0;
        while j < channels
            invariant
                0 < channels <= 65537,
                start as int == frame * channels,
                start + channels <= interleaved@.len(),
                interleaved@.len() <= usize::MAX,
                fr == interleaved@.subrange(start as int, start + channels),
                j <= channels,
                sum as int == sum_u16(fr.subrange(0, j as int)),
            decreases channels - j,
        {
            proof {
                lemma_sum_u16_bounds(fr.subrange(0, j as int));
                assert(fr.subrange(0, j + 1).drop_last() =~= fr.subrange(0, j as int));
            }
            sum = sum + interleaved[start + j] as u64;
            j = j + 1;
        }
        proof {
            assert(fr.subrange(0, channels as int) =~= fr);
            lemma_sum_u16_bounds(fr);
            lemma_mean_u16_fits(sum as int, channels as int);
        }
        let mean: u64 = sum / (channels as u64);
        let centered: i32 = mean as i32 - 32768;
        mono.push(centered as i16);
        frame = frame + 1;
    }
    proof {
        assert forall|f: int| 0 <= f < mono@.len() implies {
            let m = #[trigger] mono@[f] as int;
            let c = channels as int;
            let t = sum_u16(interleaved@.subrange(f * c, f * c + c));
            (m + 32768) * c <= t && t < (m + 32768) * c + c
        } by {
            lemma_mono_u16_is_frame_mean(interleaved@, channels as int, f);
        }
    }
    mono
}

/// Interleaved stereo made from mono: every sample twice in a row.
pub open spec fn duplicated<T>(s: Seq<T>) -> Seq<T> {
    Seq::new(2 * s.len(), |k: int| s[k / 2])
}

/// Why a frame received for the speaker is not played.
#[derive(Clone, Copy, Debug, PartialEq, Eq, Structural)]
pub enum PlaybackSkip {
    /// The frame holds no samples.
    Empty,
    /// The frame is neither mono nor stereo; its channel count is kept.
    UnsupportedChannels(u16),
}

/// Turns the samples of a frame received for the speaker into interleaved
/// stereo, the only layout the output device takes: mono samples are each
/// played on both channels, stereo samples are kept, and empty frames or
/// other channel counts are skipped.
pub fn to_stereo<T: Copy>(samples: Vec<T>, channels: u16) -> (r: Result<Vec<T>, PlaybackSkip>)
    ensures
        samples@.len() == 0 ==> r is Err && r->Err_0 is Empty,
        samples@.len() > 0 && channels == 1 ==> r is Ok && r->Ok_0@ == duplicated(samples@),
        samples@.len() > 0 && channels == 2 ==> r is Ok && r->Ok_0@ == samples@,
        samples@.len() > 0 && channels != 1 && channels != 2 ==> r is Err && r->Err_0
            == PlaybackSkip::UnsupportedChannels(channels),
{
    if samples.len() == 0 {
        return Err(PlaybackSkip::Empty);
    }
    if channels == 1 {
        let mut stereo: Vec<T> = Vec::new();
        let mut i: usize = 0;
        while i < samples.len()
            invariant
                i <= samples@.len(),
                stereo@.len() == 2 * i,
                forall|k: int| 0 <= k < 2 * i ==> #[trigger] stereo@[k] == samples@[k / 2],
            decreases samples@.len() - i,
        {
            let x = samples[i];
            stereo.push(x);
            stereo.push(x);
            i = i + 1;
        }
        assert(stereo@ =~= duplicated(samples@));
        Ok(stereo)
    } else if channels == 2 {
        Ok(samples)
    } else {
        Err(PlaybackSkip::UnsupportedChannels(channels))
    }
}

/// What an output buffer of `len` samples holds after being filled from a
/// playback queue: the queued samples in order, then `silence` once the queue
/// runs dry.
pub open spec fn filled_from<T>(queue: Seq<T>, len: nat, silence: T) -> Seq<T> {
    Seq::new(len, |i: int| if i < queue.len() { queue[i] } else { silence })
}

/// Fills the device's output buffer from the playback queue: each slot takes
/// the oldest queued sample, or `silence` when the queue is empty. The
/// samples used leave the queue.
pub fn fill_from_queue<T: Copy>(queue: &mut VecDeque<T>, out: &mut [T], silence: T)
    ensures
        final(out)@ == filled_from(old(queue)@, old(out)@.len(), silence),
        final(queue)@ == old(queue)@.skip(
            if old(out)@.len() < old(queue)@.len() {
                old(out)@.len() as int
            } else {
                old(queue)@.len() as int
            },
        ),
{
    let ghost q0 = queue@;
    let ghost n = out@.len();
    let mut i: usize = 0;
    while i < out.len()
        invariant
            out@.len() == n,
            i <= n,
            i < q0.len() ==> queue@ == q0.skip(i as int),
            i >= q0.len() ==> queue@.len() == 0,
            forall|k: int| 0 <= k < i ==> #[trigger] out@[k] == filled_from(q0, n, silence)[k],
        decreases n - i,
    {
        match queue.pop_front() {
            Some(x) => {
                out[i] = x;
            },
            None => {
                out[i] = silence;
            },
        }
        i = i + 1;
    }
    assert(out@ =~= filled_from(q0, n, silence));
    proof {
        if n >= q0.len() {
            assert(queue@ =~= q0.skip(q0.len() as int));
        }
    }
}

} // verus!
