//! The distance sampler's bounded round-trip protocol, as a state machine.
//!
//! One sample is: pulse the trigger line, wait for the echo line to rise,
//! then wait for it to fall, counting elapsed time units while it is high.
//! Both waits are bounded by a hard iteration ceiling; exceeding it yields a
//! distinct sentinel per phase, so a caller can tell "echo never rose" from
//! "echo never fell". The elapsed high time converts to a distance by
//! `elapsed * SPEED_OF_SOUND / DISTANCE_SCALE`; to keep the arithmetic
//! integral, results carry the numerator `elapsed * SPEED_OF_SOUND`, a
//! distance in `1 / DISTANCE_SCALE` units.
//!
//! The surrounding program owns the pins and the clock: it reads the echo
//! line once per time unit and feeds each reading to `sampler_step` until
//! the machine is done.

use vstd::prelude::*;

verus! {

/// Hard ceiling on the iterations of each bounded wait phase.
pub const SAMPLER_TIMEOUT_LIMIT: u32 = 100000;

/// Propagation speed constant for the round-trip conversion.
pub const SPEED_OF_SOUND: u32 = 343;

/// A scaled distance of `d` stands for `d / DISTANCE_SCALE` physical units:
/// the round-trip time is halved and the time unit rescaled by 1000.
pub const DISTANCE_SCALE: u32 = 2000;

/// Outcome of one sampling round trip.
#[derive(Clone, Copy, Debug, PartialEq, Eq, Structural)]
pub enum SampleResult {
    /// The echo line never rose within the bound.
    RiseTimeout,
    /// The echo line rose but never fell within the bound.
    FallTimeout,
    /// Scaled distance: the elapsed high time times `SPEED_OF_SOUND`, in
    /// `1 / DISTANCE_SCALE` units.
    Distance(u32),
}

/// Where a sampling round trip stands after some number of echo readings.
#[derive(Clone, Copy, Debug, PartialEq, Eq, Structural)]
pub enum SamplerState {
    /// Waiting for the echo line to rise; `elapsed` readings were low so far.
    WaitRise { elapsed: u32 },
    /// Waiting for the echo line to fall; `elapsed` readings were high so far.
    WaitFall { elapsed: u32 },
    /// The round trip has ended with this outcome.
    Done { result: SampleResult },
}

impl SamplerState {
    /// Elapsed counters never pass the ceiling.
    pub open spec fn wf(self) -> bool {
        match self {
            SamplerState::WaitRise { elapsed } => elapsed <= SAMPLER_TIMEOUT_LIMIT,
            SamplerState::WaitFall { elapsed } => elapsed <= SAMPLER_TIMEOUT_LIMIT,
            SamplerState::Done { .. } => true,
        }
    }

    /// A fresh round trip: nothing observed, waiting for the rise.
    pub fn initial() -> (r: SamplerState)
        ensures
            r == (SamplerState::WaitRise { elapsed: 0 }),
    {
        SamplerState::WaitRise { elapsed: 0 }
    }
}

/// One step of the protocol on one echo reading: count the wait, move to
/// the fall phase on a rise, convert to a scaled distance on a fall, and
/// time out with the phase's sentinel once the ceiling is exceeded.
pub open spec fn spec_step(s: SamplerState, echo_high: bool) -> SamplerState {
    match s {
        SamplerState::WaitRise { elapsed } => {
            if echo_high {
                SamplerState::WaitFall { elapsed: 0 }
            } else if elapsed + 1 > SAMPLER_TIMEOUT_LIMIT {
                SamplerState::Done { result: SampleResult::RiseTimeout }
            } else {
                SamplerState::WaitRise { elapsed: (elapsed + 1) as u32 }
            }
        },
        SamplerState::WaitFall { elapsed } => {
            if !echo_high {
                SamplerState::Done {
                    result: SampleResult::Distance((elapsed * SPEED_OF_SOUND) as u32),
                }
            } else if elapsed + 1 > SAMPLER_TIMEOUT_LIMIT {
                SamplerState::Done { result: SampleResult::FallTimeout }
            } else {
                SamplerState::WaitFall { elapsed: (elapsed + 1) as u32 }
            }
        },
        SamplerState::Done { .. } => s,
    }
}

/// Drive one step of a sampling round trip with a fresh echo reading.
pub fn sampler_step(s: SamplerState, echo_high: bool) -> (r: SamplerState)
    requires
        s.wf(),
    ensures
        r == spec_step(s, echo_high),
        r.wf(),
{
    match s {
        SamplerState::WaitRise { elapsed } => {
            if echo_high {
                SamplerState::WaitFall { elapsed: 0 }
            } else if elapsed + 1 > SAMPLER_TIMEOUT_LIMIT {
                SamplerState::Done { result: SampleResult::RiseTimeout }
            } else {
                SamplerState::WaitRise { elapsed: elapsed + 1 }
            }
        },
        SamplerState::WaitFall { elapsed } => {
            if !echo_high {
                SamplerState::Done { result: SampleResult::Distance(elapsed * SPEED_OF_SOUND) }
            } else if elapsed + 1 > SAMPLER_TIMEOUT_LIMIT {
                SamplerState::Done { result: SampleResult::FallTimeout }
            } else {
                SamplerState::WaitFall { elapsed: elapsed + 1 }
            }
        },
        SamplerState::Done { result } => SamplerState::Done { result },
    }
}

/// The state after feeding a whole sequence of echo readings, oldest first.
pub open spec fn run_sampler(s: SamplerState, inputs: Seq<bool>) -> SamplerState
    decreases inputs.len(),
{
    if inputs.len() == 0 {
        s
    } else {
        run_sampler(spec_step(s, inputs[0]), inputs.skip(1))
    }
}

/// A finished round trip stays finished, whatever is read afterwards.
proof fn lemma_done_stays(result: SampleResult, inputs: Seq<bool>)
    ensures
        run_sampler(SamplerState::Done { result }, inputs) == (SamplerState::Done { result }),
    decreases inputs.len(),
{
    if inputs.len() > 0 {
        lemma_done_stays(result, inputs.skip(1));
    }
}

/// Low readings in the rise phase run the counter out to the rise sentinel.
proof fn lemma_rise_timeout(e: u32, inputs: Seq<bool>)
    requires
        e <= SAMPLER_TIMEOUT_LIMIT,
        inputs.len() >= SAMPLER_TIMEOUT_LIMIT - e + 1,
        forall|i: int| 0 <= i < inputs.len() ==> !(#[trigger] inputs[i]),
    ensures
        run_sampler(SamplerState::WaitRise { elapsed: e }, inputs) == (SamplerState::Done {
            result: SampleResult::RiseTimeout,
        }),
    decreases inputs.len(),
{
    if e + 1 > SAMPLER_TIMEOUT_LIMIT {
        lemma_done_stays(SampleResult::RiseTimeout, inputs.skip(1));
    } else {
        assert(forall|i: int|
            0 <= i < inputs.skip(1).len() ==> !(#[trigger] inputs.skip(1)[i]));
        lemma_rise_timeout((e + 1) as u32, inputs.skip(1));
    }
}

/// High readings in the fall phase run the counter out to the fall sentinel.
proof fn lemma_fall_timeout(e: u32, inputs: Seq<bool>)
    requires
        e <= SAMPLER_TIMEOUT_LIMIT,
        inputs.len() >= SAMPLER_TIMEOUT_LIMIT - e + 1,
        forall|i: int| 0 <= i < inputs.len() ==> #[trigger] inputs[i],
    ensures
        run_sampler(SamplerState::WaitFall { elapsed: e }, inputs) == (SamplerState::Done {
            result: SampleResult::FallTimeout,
        }),
    decreases inputs.len(),
{
    if e + 1 > SAMPLER_TIMEOUT_LIMIT {
        lemma_done_stays(SampleResult::FallTimeout, inputs.skip(1));
    } else {
        assert(forall|i: int| 0 <= i < inputs.skip(1).len() ==> #[trigger] inputs.skip(1)[i]);
        lemma_fall_timeout((e + 1) as u32, inputs.skip(1));
    }
}

/// Running the rise phase through `k` low readings and one high reading
/// leaves a fresh fall phase facing the remaining readings.
proof fn lemma_rise_phase(e: u32, k: int, inputs: Seq<bool>)
    requires
        0 <= k < inputs.len(),
        e + k <= SAMPLER_TIMEOUT_LIMIT,
        forall|i: int| 0 <= i < k ==> !(#[trigger] inputs[i]),
        inputs[k],
    ensures
        run_sampler(SamplerState::WaitRise { elapsed: e }, inputs) == run_sampler(
            SamplerState::WaitFall { elapsed: 0 },
            inputs.skip(k + 1),
        ),
    decreases k,
{
    if k == 0 {
        assert(inputs.skip(1) =~= inputs.skip(k + 1));
    } else {
        assert(!inputs[0]);
        assert(forall|i: int|
            0 <= i < k - 1 ==> !(#[trigger] inputs.skip(1)[i]) || inputs[i + 1]);
        assert forall|i: int| 0 <= i < k - 1 implies !(#[trigger] inputs.skip(1)[i]) by {
            assert(inputs.skip(1)[i] == inputs[i + 1]);
        }
        assert(inputs.skip(1)[k - 1] == inputs[k]);
        lemma_rise_phase((e + 1) as u32, k - 1, inputs.skip(1));
        assert(inputs.skip(1).skip(k) =~= inputs.skip(k + 1));
    }
}

/// Counting `d` high readings in the fall phase and then one low reading
/// ends the round trip with the scaled distance of the total high time.
proof fn lemma_fall_phase(e: u32, d: int, inputs: Seq<bool>)
    requires
        0 <= d < inputs.len(),
        e + d <= SAMPLER_TIMEOUT_LIMIT,
        forall|i: int| 0 <= i < d ==> #[trigger] inputs[i],
        !inputs[d],
    ensures
        run_sampler(SamplerState::WaitFall { elapsed: e }, inputs) == (SamplerState::Done {
            result: SampleResult::Distance(((e + d) * SPEED_OF_SOUND) as u32),
        }),
    decreases d,
{
    if d == 0 {
        lemma_done_stays(
            SampleResult::Distance((e * SPEED_OF_SOUND) as u32),
            inputs.skip(1),
        );
    } else {
        assert(inputs[0]);
        assert forall|i: int| 0 <= i < d - 1 implies #[trigger] inputs.skip(1)[i] by {
            assert(inputs.skip(1)[i] == inputs[i + 1]);
        }
        assert(inputs.skip(1)[d - 1] == inputs[d]);
        lemma_fall_phase((e + 1) as u32, d - 1, inputs.skip(1));
    }
}

/// If the echo line never rises within the bound, the round trip ends with
/// the rise-timeout sentinel.
pub proof fn lemma_echo_never_rises(inputs: Seq<bool>)
    requires
        inputs.len() > SAMPLER_TIMEOUT_LIMIT,
        forall|i: int| 0 <= i < inputs.len() ==> !(#[trigger] inputs[i]),
    ensures
        run_sampler(SamplerState::WaitRise { elapsed: 0 }, inputs) == (SamplerState::Done {
            result: SampleResult::RiseTimeout,
        }),
{
    lemma_rise_timeout(0, inputs);
}

/// If the echo line rises within the bound but never falls within the
/// bound, the round trip ends with the fall-timeout sentinel.
pub proof fn lemma_echo_never_falls(k: int, inputs: Seq<bool>)
    requires
        0 <= k <= SAMPLER_TIMEOUT_LIMIT,
        k < inputs.len(),
        inputs.len() - (k + 1) > SAMPLER_TIMEOUT_LIMIT,
        forall|i: int| 0 <= i < k ==> !(#[trigger] inputs[i]),
        forall|i: int| k <= i < inputs.len() ==> #[trigger] inputs[i],
    ensures
        run_sampler(SamplerState::WaitRise { elapsed: 0 }, inputs) == (SamplerState::Done {
            result: SampleResult::FallTimeout,
        }),
{
    lemma_rise_phase(0, k, inputs);
    assert forall|i: int| 0 <= i < inputs.skip(k + 1).len() implies #[trigger] inputs.skip(k + 1)[i] by {
        assert(inputs.skip(k + 1)[i] == inputs[i + k + 1]);
    }
    lemma_fall_timeout(0, inputs.skip(k + 1));
}

/// A round trip whose echo rises within the bound, stays high for `d` time
/// units past the rise, then falls, ends with the scaled distance
/// `d * SPEED_OF_SOUND` — that is, `d * SPEED_OF_SOUND / DISTANCE_SCALE`
/// physical units.
pub proof fn lemma_round_trip_distance(k: int, d: int, inputs: Seq<bool>)
    requires
        0 <= k <= SAMPLER_TIMEOUT_LIMIT,
        0 <= d <= SAMPLER_TIMEOUT_LIMIT,
        k + 1 + d < inputs.len(),
        forall|i: int| 0 <= i < k ==> !(#[trigger] inputs[i]),
        forall|i: int| k <= i < k + 1 + d ==> #[trigger] inputs[i],
        !inputs[k + 1 + d],
    ensures
        run_sampler(SamplerState::WaitRise { elapsed: 0 }, inputs) == (SamplerState::Done {
            result: SampleResult::Distance((d * SPEED_OF_SOUND) as u32),
        }),
{
    lemma_rise_phase(0, k, inputs);
    let rest = inputs.skip(k + 1);
    assert forall|i: int| 0 <= i < d implies #[trigger] rest[i] by {
        assert(rest[i] == inputs[i + k + 1]);
    }
    assert(rest[d] == inputs[k + 1 + d]);
    lemma_fall_phase(0, d, rest);
}

} // verus!
