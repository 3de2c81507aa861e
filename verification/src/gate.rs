use std::sync::atomic::AtomicI64;
use std::time::{Duration, Instant};
use vstd::prelude::*;

verus! {

/// How long the microphone stays muted after the speaker last emitted sound.
pub const MUTE_TAIL_NS: i64 = 100_000_000;

/// `std::time::Instant`, a reading of the monotonic clock. It is opaque to
/// Verus: nothing is claimed of its values.
#[verifier::external_type_specification]
#[verifier::external_body]
pub struct ExInstant(Instant);

/// `Instant::now`: the current reading of the monotonic clock. Nothing is
/// claimed of the value, which depends on the time of the call.
#[verifier::external_body]
fn instant_now() -> (t: Instant) {
    Instant::now()
}

/// `Instant::duration_since`: the time elapsed from `earlier` to `later`
/// (zero when `later` is the earlier one). Nothing is claimed of the value:
/// instants and durations are opaque to Verus, with no plain value to name
/// the result by.
#[verifier::external_body]
fn duration_since(later: &Instant, earlier: &Instant) -> (d: Duration) {
    later.duration_since(*earlier)
}

/// `Duration::as_nanos`: the whole number of nanoseconds in `d`. Nothing is
/// claimed of the value, since a duration is opaque to Verus.
#[verifier::external_body]
fn duration_as_nanos(d: &Duration) -> (n: u128) {
    d.as_nanos()
}

/// The moment until which the microphone stays muted when the speaker plays
/// audio at time `now_ns`, counted in nanoseconds from when this gate was
/// built; the sum wraps on overflow.
pub fn mute_deadline(now_ns: i64) -> (deadline: i64)
    ensures
        deadline == vstd::wrapping::i64_specs::wrapping_add(now_ns, MUTE_TAIL_NS),
        now_ns <= i64::MAX - MUTE_TAIL_NS ==> deadline == now_ns + MUTE_TAIL_NS,
{
    now_ns.wrapping_add(MUTE_TAIL_NS)
}

/// Whether the microphone is muted at `now_ns` given the recorded deadline.
pub fn muted_at(now_ns: i64, active_until_ns: i64) -> (muted: bool)
    ensures
        muted == (now_ns < active_until_ns),
{
    now_ns < active_until_ns
}

/// What a speaker gate promises: once the speaker has played audio at time `t`, the
/// microphone is muted at exactly the times before `t + MUTE_TAIL_NS`; and a
/// gate that never heard the speaker (deadline `-1`) is open at every time
/// since its creation. Times near the top of the `i64` range, where the
/// deadline wraps, are left out.
pub proof fn lemma_gate_mutes_for_tail(t: i64, now: i64)
    requires
        t <= i64::MAX - MUTE_TAIL_NS,
    ensures
        (now < vstd::wrapping::i64_specs::wrapping_add(t, MUTE_TAIL_NS)) <==> now < t
            + MUTE_TAIL_NS,
        0 <= now ==> !(now < -1),
{
}

/// Mutes the microphone while the speaker is playing, and for a short tail
/// afterwards, so that the robot does not listen to itself.
pub struct SpeakerGate {
    origin: Instant,
    active_until_ns: AtomicI64,
}

impl SpeakerGate {
    /// A gate that has never seen the speaker play: its deadline is `-1`.
    /// Nothing is claimed of the result: it holds a clock reading and an
    /// atomic deadline, both opaque to Verus.
    pub fn new() -> (gate: Self) {
        SpeakerGate { origin: instant_now(), active_until_ns: AtomicI64::new(-1) }
    }

    /// Nanoseconds elapsed since this gate was built, truncated to `i64`.
    /// Nothing is claimed of the value, which is read from the clock.
    fn now_ns(&self) -> (ns: i64) {
        let now = instant_now();
        let elapsed = duration_since(&now, &self.origin);
        let nanos: u128 = duration_as_nanos(&elapsed);
        nanos as i64
    }

    /// Records that the speaker emitted sound just now.
    pub fn report_playing(&self) {
        let deadline: i64 = mute_deadline(self.now_ns());
        self.active_until_ns.store(deadline, std::sync::atomic::Ordering::Relaxed);
    }

    /// Whether the microphone should currently be ignored: [`muted_at`] of the
    /// current time and the deadline last stored. Nothing is claimed of the
    /// result, since both come from the clock and a shared atomic.
    pub fn is_muted(&self) -> (muted: bool) {
        let until: i64 = self.active_until_ns.load(std::sync::atomic::Ordering::Relaxed);
        muted_at(self.now_ns(), until)
    }
}

} // verus!
