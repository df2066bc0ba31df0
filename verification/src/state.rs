//! The states of a controller and the steps between them.
//!
//! A step compares the newest average of the scale metric with the one
//! before it. With a stability factor of `s` thousandths, the first of two
//! averages is better than the second where `s` thousandths of it are still
//! more than the second.

use crate::intervals::AveragedIntervalMetrics;
use crate::parameters::STABILITY_SCALE;
use vstd::prelude::*;

verus! {

/// How long a controller rests after it took back a probe, in milliseconds.
pub const SETTLE_TIMEOUT_MS: u64 = 2000;

/// The largest number of workers that one advice adds or removes.
pub const MAX_STEP: i32 = 4;

/// The direction of a change in the number of workers.
#[derive(Debug, Clone, Copy, PartialEq, Eq, Structural)]
pub enum Direction {
    Up,
    Down,
}

impl Direction {
    pub open spec fn opposite(self) -> Direction {
        match self {
            Direction::Up => Direction::Down,
            Direction::Down => Direction::Up,
        }
    }

    /// The direction of a step: up for a step that is not negative.
    pub open spec fn of_step(step_size: int) -> Direction {
        if step_size >= 0 {
            Direction::Up
        } else {
            Direction::Down
        }
    }

    /// One worker in this direction: 1 or -1.
    pub open spec fn unit(self) -> int {
        match self {
            Direction::Up => 1,
            Direction::Down => -1,
        }
    }

    pub fn get_opposite(&self) -> (direction: Direction)
        ensures
            direction == self.opposite(),
    {
        match self {
            Direction::Up => Direction::Down,
            Direction::Down => Direction::Up,
        }
    }

    pub fn from_step_size(step_size: i32) -> (direction: Direction)
        ensures
            direction == Direction::of_step(step_size as int),
    {
        if step_size >= 0 {
            Direction::Up
        } else {
            Direction::Down
        }
    }

    /// One worker in this direction: 1 or -1.
    pub fn step_size(&self) -> (step: i32)
        ensures
            step == self.unit(),
    {
        match self {
            Direction::Up => 1,
            Direction::Down => -1,
        }
    }
}

/// What a controller did last and so will do next.
#[derive(Debug, Clone, Copy, PartialEq, Eq, Structural)]
pub enum AdapterState {
    /// No advice was given yet.
    Startup,
    /// The last advice was a step that paid off; the number is the size of
    /// that step, negative for a step down.
    Scaling(i32),
    /// The last advice was a probe of one worker in this direction.
    Exploring(Direction),
    /// Nothing is tried before the given time, in milliseconds since the
    /// Unix epoch; the direction is that of the last change.
    Settled(u64, Direction),
}

/// The state after a step, and the advice that the step gives.
#[derive(Debug, Clone, Copy, PartialEq, Eq, Structural)]
pub struct Transition {
    pub state: AdapterState,
    pub advice: i32,
}

/// Whether average `a` is better than `b` by more than the stability factor
/// allows for.
pub open spec fn better(
    a: AveragedIntervalMetrics,
    b: AveragedIntervalMetrics,
    stability_factor: u32,
) -> bool {
    a.derived_data_avg.scale_metric * stability_factor > b.derived_data_avg.scale_metric
        * STABILITY_SCALE
}

/// Whether average `a` is worse than `b` by more than the stability factor
/// allows for.
pub open spec fn worse(
    a: AveragedIntervalMetrics,
    b: AveragedIntervalMetrics,
    stability_factor: u32,
) -> bool {
    better(b, a, stability_factor)
}

/// Whether four fifths of the deviation of `latest` are still more than the
/// deviation of `previous`.
pub open spec fn deviation_grew(
    latest: AveragedIntervalMetrics,
    previous: AveragedIntervalMetrics,
) -> bool {
    latest.derived_data_stddev.scale_metric * 4 > previous.derived_data_stddev.scale_metric * 5
}

/// A step that is one worker longer than `step_size`, in the same direction,
/// but not longer than `MAX_STEP`.
pub open spec fn grown(step_size: int) -> int {
    if step_size >= MAX_STEP {
        MAX_STEP as int
    } else if step_size <= -MAX_STEP {
        -MAX_STEP
    } else if step_size >= 0 {
        step_size + 1
    } else {
        step_size - 1
    }
}

/// The first step of a controller: one worker more, and a step of two is
/// taken as having paid off.
pub open spec fn startup_transition() -> Transition {
    Transition { state: AdapterState::Scaling(2), advice: 1 }
}

/// The direction in which a settled controller probes next.
pub open spec fn probe_direction(
    last_direction: Direction,
    latest: AveragedIntervalMetrics,
    previous: AveragedIntervalMetrics,
    stability_factor: u32,
) -> Direction {
    if better(latest, previous, stability_factor) {
        Direction::Up
    } else if worse(latest, previous, stability_factor) || deviation_grew(latest, previous) {
        Direction::Down
    } else {
        last_direction.opposite()
    }
}

/// The step of a settled controller whose rest is over: it probes one worker
/// in the direction that the averages suggest.
pub open spec fn settled_transition(
    last_direction: Direction,
    latest: AveragedIntervalMetrics,
    previous: AveragedIntervalMetrics,
    stability_factor: u32,
) -> Transition {
    let direction = probe_direction(last_direction, latest, previous, stability_factor);
    Transition { state: AdapterState::Exploring(direction), advice: direction.unit() as i32 }
}

/// The time until which a controller rests that took back a probe at `now`.
pub open spec fn settled_until(now: u64) -> u64 {
    (now + SETTLE_TIMEOUT_MS) as u64
}

/// The step after a probe. A probe that paid off is kept and scaling goes on
/// from it. A probe upwards that did not pay off, and a probe downwards that
/// made things worse, is taken back, and the controller rests. After a probe
/// downwards that changed nothing the controller goes on probing downwards.
pub open spec fn exploring_transition(
    direction: Direction,
    latest: AveragedIntervalMetrics,
    previous: AveragedIntervalMetrics,
    stability_factor: u32,
    now: u64,
) -> Transition {
    if better(latest, previous, stability_factor) {
        Transition {
            state: AdapterState::Scaling(direction.unit() as i32),
            advice: direction.unit() as i32,
        }
    } else if (worse(latest, previous, stability_factor) && direction == Direction::Down)
        || direction == Direction::Up {
        Transition {
            state: AdapterState::Settled(settled_until(now), direction),
            advice: (-direction.unit()) as i32,
        }
    } else {
        Transition { state: AdapterState::Exploring(direction), advice: (-1int) as i32 }
    }
}

/// The step after a step that paid off: where the last step paid off too, a
/// step that is one worker longer; otherwise none, and the controller may
/// probe at once.
pub open spec fn scaling_transition(
    step_size: i32,
    latest: AveragedIntervalMetrics,
    previous: AveragedIntervalMetrics,
    stability_factor: u32,
    now: u64,
) -> Transition {
    if better(latest, previous, stability_factor) {
        Transition {
            state: AdapterState::Scaling(grown(step_size as int) as i32),
            advice: grown(step_size as int) as i32,
        }
    } else {
        Transition {
            state: AdapterState::Settled(now, Direction::of_step(step_size as int)),
            advice: 0,
        }
    }
}

/// The step that a controller in `state` takes at `now`, given the newest
/// average and the one before it.
pub open spec fn transition(
    state: AdapterState,
    latest: AveragedIntervalMetrics,
    previous: AveragedIntervalMetrics,
    stability_factor: u32,
    now: u64,
) -> Transition {
    match state {
        AdapterState::Startup => startup_transition(),
        AdapterState::Settled(timeout, direction) => if now < timeout {
            Transition { state, advice: 0 }
        } else {
            settled_transition(direction, latest, previous, stability_factor)
        },
        AdapterState::Scaling(step_size) => scaling_transition(
            step_size,
            latest,
            previous,
            stability_factor,
            now,
        ),
        AdapterState::Exploring(direction) => exploring_transition(
            direction,
            latest,
            previous,
            stability_factor,
            now,
        ),
    }
}

/// The advice that does not take the number of workers, `amount_targets`
/// now, below one: `advice` itself where it adds workers or leaves one, and
/// otherwise the removal of all workers but one.
pub open spec fn clamped(advice: int, amount_targets: nat) -> int {
    if advice >= 0 || amount_targets + advice >= 1 {
        advice
    } else if amount_targets >= 1 {
        1 - amount_targets
    } else {
        0
    }
}

pub fn is_better(
    a: &AveragedIntervalMetrics,
    b: &AveragedIntervalMetrics,
    stability_factor: u32,
) -> (result: bool)
    ensures
        result == better(*a, *b, stability_factor),
{
    assert(a.derived_data_avg.scale_metric * stability_factor <= u32::MAX * u32::MAX)
        by (nonlinear_arith);
    assert(b.derived_data_avg.scale_metric * STABILITY_SCALE <= u32::MAX * u32::MAX)
        by (nonlinear_arith);
    (a.derived_data_avg.scale_metric as u64) * (stability_factor as u64) > (
    b.derived_data_avg.scale_metric as u64) * (STABILITY_SCALE as u64)
}

pub fn is_worse(
    a: &AveragedIntervalMetrics,
    b: &AveragedIntervalMetrics,
    stability_factor: u32,
) -> (result: bool)
    ensures
        result == worse(*a, *b, stability_factor),
{
    is_better(b, a, stability_factor)
}

pub fn has_deviation_grown(
    latest: &AveragedIntervalMetrics,
    previous: &AveragedIntervalMetrics,
) -> (result: bool)
    ensures
        result == deviation_grew(*latest, *previous),
{
    (latest.derived_data_stddev.scale_metric as u64) * 4 > (
    previous.derived_data_stddev.scale_metric as u64) * 5
}

/// A step that is one worker longer than `step_size`, but not longer than
/// `MAX_STEP`.
pub fn grow_step(step_size: i32) -> (step: i32)
    ensures
        step == grown(step_size as int),
        -MAX_STEP <= step <= MAX_STEP,
        step != 0,
{
    if step_size >= MAX_STEP {
        MAX_STEP
    } else if step_size <= -MAX_STEP {
        -MAX_STEP
    } else if step_size >= 0 {
        step_size + 1
    } else {
        step_size - 1
    }
}

/// Keeps `advice` from taking `amount_targets` workers below one.
pub fn clamp_advice(advice: i32, amount_targets: usize) -> (result: i32)
    requires
        -MAX_STEP <= advice <= MAX_STEP,
    ensures
        result == clamped(advice as int, amount_targets as nat),
        result >= 0 || amount_targets + result >= 1,
        -MAX_STEP <= result <= MAX_STEP,
        advice >= 0 ==> result == advice,
        advice < 0 ==> advice <= result <= 0,
{
    if advice >= 0 {
        return advice;
    }
    let removed: usize = (-advice) as usize;
    if amount_targets > removed {
        advice
    } else if amount_targets >= 1 {
        -((amount_targets - 1) as i32)
    } else {
        0
    }
}

/// Whether a state that scales holds a step of one to `MAX_STEP` workers.
pub open spec fn bounded_step(state: AdapterState) -> bool {
    state matches AdapterState::Scaling(step_size) ==> 1 <= step_size <= MAX_STEP || -MAX_STEP
        <= step_size <= -1
}

/// No step advises a change of more than `MAX_STEP` workers, and every step
/// that leads to scaling holds a step of one to `MAX_STEP` workers.
pub proof fn lemma_transition_bounded(
    state: AdapterState,
    latest: AveragedIntervalMetrics,
    previous: AveragedIntervalMetrics,
    stability_factor: u32,
    now: u64,
)
    ensures
        -MAX_STEP <= transition(state, latest, previous, stability_factor, now).advice <= MAX_STEP,
        bounded_step(transition(state, latest, previous, stability_factor, now).state),
{
}

/// A controller that goes on scaling takes a step that is no shorter than
/// the one before, in the same direction.
pub proof fn lemma_scaling_steps_grow(
    step_size: i32,
    latest: AveragedIntervalMetrics,
    previous: AveragedIntervalMetrics,
    stability_factor: u32,
    now: u64,
)
    requires
        bounded_step(AdapterState::Scaling(step_size)),
    ensures
        match transition(
            AdapterState::Scaling(step_size),
            latest,
            previous,
            stability_factor,
            now,
        ).state {
            AdapterState::Scaling(next) => if step_size > 0 {
                step_size <= next <= MAX_STEP
            } else {
                -MAX_STEP <= next <= step_size
            },
            AdapterState::Settled(until, direction) => until == now && direction
                == Direction::of_step(step_size as int),
            _ => false,
        },
{
}

/// Advice that was cut for a number of workers does not take that number
/// below one, and is no larger a change than the advice it was cut from.
pub proof fn lemma_clamped(advice: int, amount_targets: nat)
    ensures
        clamped(advice, amount_targets) >= 0 || amount_targets + clamped(advice, amount_targets)
            >= 1,
        advice >= 0 ==> clamped(advice, amount_targets) == advice,
        advice < 0 ==> advice <= clamped(advice, amount_targets) <= 0,
{
}

} // verus!
