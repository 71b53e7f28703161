use vstd::prelude::*;
use std::time::Duration;
use std::time::Instant;

verus! {

/// Length of one simulation step in nanoseconds: 60 steps per second.
pub const FIXED_DT_NANOS: u64 = 16_666_667;

/// Longest wall-clock time one frame may feed into the simulation, in
/// nanoseconds (250 ms). Longer pauses are cut to this length, so the
/// simulation never tries to catch up on seconds of lost time at once.
pub const MAX_FRAME_TIME_NANOS: u64 = 250_000_000;

/// Most simulation steps one tick can ask for: what fits into a full
/// accumulator plus the longest admitted frame.
pub const MAX_STEPS_PER_TICK: u32 = 15;

#[verifier::external_type_specification]
#[verifier::external_body]
pub struct ExInstant(Instant);

/// `Instant::now`: the current reading of the monotonic clock. Nothing is
/// stated of the reading.
#[verifier::external_body]
fn instant_now() -> Instant {
    Instant::now()
}

/// The time from `earlier` to `later`, as `Instant::duration_since`
/// computes it: it depends on the two readings alone.
pub uninterp spec fn duration_between(later: Instant, earlier: Instant) -> Duration;

/// The whole number of nanoseconds in `d`, as `Duration::as_nanos`
/// computes it.
pub uninterp spec fn nanos_of(d: Duration) -> u128;

/// `Instant::duration_since`: the time from `earlier` to `now` (zero when
/// `earlier` is the later one). Its result is named `duration_between`.
#[verifier::external_body]
fn duration_since(now: &Instant, earlier: &Instant) -> (d: Duration)
    ensures
        d == duration_between(*now, *earlier),
{
    now.duration_since(*earlier)
}

/// `Duration::as_nanos`: the whole number of nanoseconds in `d`, named
/// `nanos_of`.
#[verifier::external_body]
fn duration_as_nanos(d: &Duration) -> (n: u128)
    ensures
        n == nanos_of(*d),
{
    d.as_nanos()
}

/// The frame time admitted into the simulation: the measured time, cut
/// at `MAX_FRAME_TIME_NANOS`.
pub open spec fn admitted_frame_time(elapsed: int) -> int {
    if elapsed < MAX_FRAME_TIME_NANOS { elapsed } else { MAX_FRAME_TIME_NANOS as int }
}

/// How many whole simulation steps an accumulator of `acc` nanoseconds
/// holds after `frame` more nanoseconds are added.
pub open spec fn steps_after(acc: int, frame: int) -> int {
    (acc + frame) / (FIXED_DT_NANOS as int)
}

/// What is left in the accumulator once those steps are taken out.
pub open spec fn accumulator_after(acc: int, frame: int) -> int {
    (acc + frame) % (FIXED_DT_NANOS as int)
}

/// The result of advancing the clock by one redraw's worth of time.
#[derive(Clone, Copy, Debug, PartialEq, Eq, Structural)]
pub struct Tick {
    /// How many fixed simulation steps to run now (possibly zero).
    pub steps: u32,
    /// The frame time that was admitted, in nanoseconds.
    pub frame_time: u64,
    /// Nanoseconds accumulated toward the next step, always less than
    /// `FIXED_DT_NANOS`; divided by it, the render interpolation factor.
    pub accumulator: u64,
}

/// Fixed-timestep clock: accumulates wall-clock time and hands it out in
/// steps of `FIXED_DT_NANOS`.
pub struct Clock {
    last_instant: Option<Instant>,
    accumulator: u64,
}

impl Clock {
    #[verifier::type_invariant]
    spec fn inv(self) -> bool {
        self.accumulator < FIXED_DT_NANOS
    }

    /// Nanoseconds accumulated toward the next simulation step.
    pub closed spec fn accumulated(self) -> int {
        self.accumulator as int
    }

    /// Whether the clock has recorded a first reading.
    pub closed spec fn started(self) -> bool {
        self.last_instant is Some
    }

    /// The clock reading recorded by the latest tick, if any.
    pub closed spec fn last_reading(self) -> Option<Instant> {
        self.last_instant
    }

    /// A clock that has seen no frame yet and holds no time.
    pub fn new() -> (c: Clock)
        ensures
            c.accumulated() == 0,
            !c.started(),
            c.last_reading() is None,
    {
        Clock { last_instant: None, accumulator: 0 }
    }

    /// The time accumulated toward the next step, in nanoseconds.
    pub fn accumulator(&self) -> (a: u64)
        ensures
            a == self.accumulated(),
            a < FIXED_DT_NANOS,
    {
        proof {
            use_type_invariant(self);
        }
        self.accumulator
    }

    /// Adds `elapsed` nanoseconds of wall-clock time, cut at
    /// `MAX_FRAME_TIME_NANOS`, and takes out as many whole fixed steps as
    /// the accumulator then holds.
    pub fn advance(&mut self, elapsed: u128) -> (t: Tick)
        ensures
            t.frame_time == admitted_frame_time(elapsed as int),
            t.frame_time <= elapsed,
            elapsed < MAX_FRAME_TIME_NANOS ==> t.frame_time == elapsed,
            elapsed >= MAX_FRAME_TIME_NANOS ==> t.frame_time == MAX_FRAME_TIME_NANOS,
            t.steps == steps_after(old(self).accumulated(), t.frame_time as int),
            t.accumulator == accumulator_after(old(self).accumulated(), t.frame_time as int),
            final(self).accumulated() == t.accumulator,
            final(self).started() == old(self).started(),
            final(self).last_reading() == old(self).last_reading(),
            t.steps * FIXED_DT_NANOS + t.accumulator == old(self).accumulated() + t.frame_time,
            t.accumulator < FIXED_DT_NANOS,
            t.steps <= MAX_STEPS_PER_TICK,
    {
        proof {
            use_type_invariant(&*self);
        }
        let frame_time: u64 = if elapsed < MAX_FRAME_TIME_NANOS as u128 {
            elapsed as u64
        } else {
            MAX_FRAME_TIME_NANOS
        };
        let acc0: u64 = self.accumulator;
        let mut acc: u64 = acc0 + frame_time;
        let mut steps: u32 = 0;
        while acc >= FIXED_DT_NANOS
            invariant
                steps * FIXED_DT_NANOS + acc == acc0 + frame_time,
                acc0 < FIXED_DT_NANOS,
                frame_time <= MAX_FRAME_TIME_NANOS,
            decreases acc,
        {
            steps = steps + 1;
            acc = acc - FIXED_DT_NANOS;
        }
        proof {
            let total: int = acc0 + frame_time;
            vstd::arithmetic::div_mod::lemma_fundamental_div_mod_converse(
                total,
                FIXED_DT_NANOS as int,
                steps as int,
                acc as int,
            );
        }
        self.accumulator = acc;
        Tick { steps, frame_time, accumulator: acc }
    }

    /// Advances by the time from the previously recorded reading to `now`,
    /// and records `now` as the reading the next tick measures from. The
    /// first tick has no previous reading and admits no time; every later
    /// tick admits the time from the previous reading to `now`, cut at
    /// `MAX_FRAME_TIME_NANOS`.
    pub fn tick_at(&mut self, now: Instant) -> (t: Tick)
        ensures
            final(self).last_reading() == Some(now),
            !old(self).started() ==> t.frame_time == 0,
            old(self).last_reading() matches Some(prev) ==> t.frame_time == admitted_frame_time(
                nanos_of(duration_between(now, prev)) as int,
            ),
            old(self).last_reading() matches Some(prev) ==> {
                let elapsed = nanos_of(duration_between(now, prev));
                &&& t.frame_time <= elapsed
                &&& elapsed < MAX_FRAME_TIME_NANOS ==> t.frame_time == elapsed
                &&& elapsed >= MAX_FRAME_TIME_NANOS ==> t.frame_time == MAX_FRAME_TIME_NANOS
            },
            t.frame_time <= MAX_FRAME_TIME_NANOS,
            t.steps == steps_after(old(self).accumulated(), t.frame_time as int),
            t.accumulator == accumulator_after(old(self).accumulated(), t.frame_time as int),
            final(self).accumulated() == t.accumulator,
            final(self).started(),
            t.accumulator < FIXED_DT_NANOS,
            t.steps <= MAX_STEPS_PER_TICK,
    {
        proof {
            use_type_invariant(&*self);
        }
        let elapsed: u128 = match &self.last_instant {
            Some(prev) => {
                let d = duration_since(&now, prev);
                duration_as_nanos(&d)
            },
            None => 0,
        };
        self.last_instant = Some(now);
        self.advance(elapsed)
    }

    /// Reads the clock and advances by the time since the previous tick,
    /// recording this reading for the next one. The first tick has no
    /// previous reading and admits no time.
    pub fn tick(&mut self) -> (t: Tick)
        ensures
            final(self).started(),
            final(self).last_reading() is Some,
            !old(self).started() ==> t.frame_time == 0,
            old(self).last_reading() matches Some(prev) ==> t.frame_time == admitted_frame_time(
                nanos_of(duration_between(final(self).last_reading().unwrap(), prev)) as int,
            ),
            t.frame_time <= MAX_FRAME_TIME_NANOS,
            t.steps == steps_after(old(self).accumulated(), t.frame_time as int),
            t.accumulator == accumulator_after(old(self).accumulated(), t.frame_time as int),
            final(self).accumulated() == t.accumulator,
            t.accumulator < FIXED_DT_NANOS,
            t.steps <= MAX_STEPS_PER_TICK,
    {
        let now = instant_now();
        self.tick_at(now)
    }
}

impl Default for Clock {
    fn default() -> (c: Clock)
        ensures
            c.accumulated() == 0,
            !c.started(),
            c.last_reading() is None,
    {
        Clock::new()
    }
}

/// Feeding two frames one after the other gives the same steps in total,
/// and the same remainder, as feeding their sum at once: the simulation
/// does not depend on how wall-clock time was cut into frames.
pub proof fn lemma_frames_split(acc: int, first: int, second: int)
    requires
        0 <= acc < FIXED_DT_NANOS,
        0 <= first,
        0 <= second,
    ensures
        steps_after(acc, first) + steps_after(accumulator_after(acc, first), second)
            == steps_after(acc, first + second),
        accumulator_after(accumulator_after(acc, first), second)
            == accumulator_after(acc, first + second),
{
    let d = FIXED_DT_NANOS as int;
    let q1 = (acc + first) / d;
    let r1 = (acc + first) % d;
    let q2 = (r1 + second) / d;
    let r2 = (r1 + second) % d;
    vstd::arithmetic::div_mod::lemma_fundamental_div_mod(acc + first, d);
    vstd::arithmetic::div_mod::lemma_fundamental_div_mod(r1 + second, d);
    assert(acc + first + second == (q1 + q2) * d + r2) by (nonlinear_arith)
        requires
            acc + first == d * q1 + r1,
            r1 + second == d * q2 + r2,
    ;
    vstd::arithmetic::div_mod::lemma_fundamental_div_mod_converse(
        acc + first + second,
        d,
        q1 + q2,
        r2,
    );
}

/// Total of a sequence of frame times.
pub open spec fn total_time(frames: Seq<int>) -> int
    decreases frames.len(),
{
    if frames.len() == 0 {
        0
    } else {
        total_time(frames.drop_last()) + frames.last()
    }
}

/// The accumulator after feeding the admitted frames one tick each.
pub open spec fn accumulator_over(acc: int, frames: Seq<int>) -> int
    decreases frames.len(),
{
    if frames.len() == 0 {
        acc
    } else {
        accumulator_after(accumulator_over(acc, frames.drop_last()), frames.last())
    }
}

/// The steps handed out in total when the admitted frames are fed one
/// tick each.
pub open spec fn steps_over(acc: int, frames: Seq<int>) -> int
    decreases frames.len(),
{
    if frames.len() == 0 {
        0
    } else {
        steps_over(acc, frames.drop_last()) + steps_after(
            accumulator_over(acc, frames.drop_last()),
            frames.last(),
        )
    }
}

/// Over any run of ticks, the simulation advances by exactly as many fixed
/// steps as fit into the admitted time (plus what was accumulated before),
/// and keeps the rest: it runs at the fixed rate whatever the frame rate.
pub proof fn lemma_fixed_rate(acc: int, frames: Seq<int>)
    requires
        0 <= acc < FIXED_DT_NANOS,
        forall|i: int| 0 <= i < frames.len() ==> 0 <= #[trigger] frames[i],
    ensures
        steps_over(acc, frames) == steps_after(acc, total_time(frames)),
        accumulator_over(acc, frames) == accumulator_after(acc, total_time(frames)),
        0 <= total_time(frames),
    decreases frames.len(),
{
    if frames.len() > 0 {
        let init = frames.drop_last();
        assert forall|i: int| 0 <= i < init.len() implies 0 <= #[trigger] init[i] by {
            assert(init[i] == frames[i]);
        }
        lemma_fixed_rate(acc, init);
        assert(0 <= frames.last()) by {
            assert(frames.last() == frames[frames.len() - 1]);
        }
        lemma_frames_split(acc, total_time(init), frames.last());
    }
}

/// A frame is admitted whole when it is shorter than the cut, and cut to
/// exactly `MAX_FRAME_TIME_NANOS` otherwise: the admitted time is the
/// smaller of the two, never more than what was measured.
pub proof fn lemma_admitted_is_min(elapsed: int)
    requires
        0 <= elapsed,
    ensures
        admitted_frame_time(elapsed) <= elapsed,
        admitted_frame_time(elapsed) <= MAX_FRAME_TIME_NANOS,
        admitted_frame_time(elapsed) == elapsed || admitted_frame_time(elapsed)
            == MAX_FRAME_TIME_NANOS,
        elapsed < MAX_FRAME_TIME_NANOS ==> admitted_frame_time(elapsed) == elapsed,
{
}

} // verus!
