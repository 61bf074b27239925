//! The arithmetic of the store over the real numbers.
//!
//! The store carries samples as words and takes its arithmetic from the
//! caller. This module says what that arithmetic is: how an input is
//! shaped into a target and how a frame of smoothing moves a value. Its
//! laws hold of the real numbers. The last part of the module carries them
//! over to the store, in two ways: for every function that computes them
//! exactly under some reading of samples as numbers, and for every
//! function that computes them to within a tolerance.
//!
//! Exactness is a strong premise. Arithmetic in binary single precision
//! rounds: the product of a distance and a share is in general no number
//! of the format, so no function that computes in that format is exact
//! under `spec_number`, and a program that hands the store such functions
//! has nothing from the laws that ask for exactness. They describe what
//! the arithmetic aims at, and hold of a caller that computes without
//! rounding. For a function that rounds, the laws to ask are those with a
//! tolerance (`spec_near_step`, `spec_near_shape`): the premise is then a
//! bound on the rounding error over the samples that the caller admits,
//! and the laws say how far from the ideal a frame, a run of frames or a
//! write can end. That a given function keeps such a bound is not proved
//! here: the library holds no arithmetic on fractions. What the store
//! states of every function it is handed, whatever it computes, is in its
//! own contracts: which entries a write or a frame touches, and what it
//! hands to the function for each.

use vstd::prelude::*;
use crate::bindings::ParamMapping;
use crate::params::Sample;
use crate::osc::OscRuntime;
use crate::store::{
    lemma_tick_keeps_equilibrium, spec_controller_write, spec_direct_range, spec_direct_write, spec_drive, spec_mapped_range,
    spec_mapped_write, spec_osc_applied, spec_smoothing_or_zero, spec_target_or_value,
    spec_ticked, Drive, StoreView,
};

verus! {

/// `x` kept within `lo` and `hi`.
pub open spec fn spec_clamp(x: real, lo: real, hi: real) -> real {
    if x < lo {
        lo
    } else if x > hi {
        hi
    } else {
        x
    }
}

/// The share of the way to the target that a frame covers: all of it
/// without smoothing, else one minus the smoothing, kept between a
/// thousandth and one.
pub open spec fn spec_alpha(smoothing: real) -> real {
    if smoothing <= 0real {
        1real
    } else {
        spec_clamp(1real - smoothing, 1real / 1000real, 1real)
    }
}

/// The value after one frame.
pub open spec fn spec_step(value: real, target: real, smoothing: real) -> real {
    value + (target - value) * spec_alpha(smoothing)
}

/// The value after `n` frames toward the same target.
pub open spec fn spec_ticks(value: real, target: real, smoothing: real, n: nat) -> real
    decreases n,
{
    if n == 0 {
        value
    } else {
        spec_step(spec_ticks(value, target, smoothing, (n - 1) as nat), target, smoothing)
    }
}

/// `r` to the power `n`.
pub open spec fn spec_power(r: real, n: nat) -> real
    decreases n,
{
    if n == 0 {
        1real
    } else {
        r * spec_power(r, (n - 1) as nat)
    }
}

/// The distance between two numbers.
pub open spec fn spec_distance(a: real, b: real) -> real {
    if a <= b {
        b - a
    } else {
        a - b
    }
}

/// A controller value spread linearly over the range.
pub open spec fn spec_controller(min: real, max: real, value: u8) -> real {
    min + (max - min) * ((value as real) / 127real)
}

/// A normalized input: kept within zero and one, then scaled into the
/// range.
pub open spec fn spec_normalized(min: real, max: real, x: real) -> real {
    min + (max - min) * spec_clamp(x, 0real, 1real)
}

/// A raw input: kept within the range, whichever way round its ends are
/// given.
pub open spec fn spec_raw(min: real, max: real, x: real) -> real {
    if min <= max {
        spec_clamp(x, min, max)
    } else {
        spec_clamp(x, max, min)
    }
}

/// A value at its target stays where it is.
pub proof fn lemma_step_at_rest(value: real, smoothing: real)
    ensures
        spec_step(value, value, smoothing) == value,
{
}

/// The share that a frame covers is at least a thousandth and at most
/// all, and with a smoothing between zero and one at least one minus the
/// smoothing.
pub proof fn lemma_alpha_bounds(smoothing: real)
    ensures
        1real / 1000real <= spec_alpha(smoothing) <= 1real,
        0real <= smoothing < 1real ==> spec_alpha(smoothing) >= 1real - smoothing,
{
}

/// A frame moves a value toward its target and never past it.
pub proof fn lemma_step_between(value: real, target: real, smoothing: real)
    ensures
        value <= target ==> value <= spec_step(value, target, smoothing) <= target,
        value >= target ==> target <= spec_step(value, target, smoothing) <= value,
{
    let a = spec_alpha(smoothing);
    let d = target - value;
    assert(d >= 0real ==> 0real <= d * a <= d) by (nonlinear_arith)
        requires
            0real <= a <= 1real,
    ;
    assert(d <= 0real ==> d <= d * a <= 0real) by (nonlinear_arith)
        requires
            0real <= a <= 1real,
    ;
}

/// A frame leaves the share `1 - alpha` of the way to go.
pub proof fn lemma_step_remainder(value: real, target: real, smoothing: real)
    ensures
        target - spec_step(value, target, smoothing) == (target - value) * (1real - spec_alpha(
            smoothing,
        )),
{
    let a = spec_alpha(smoothing);
    assert(target - (value + (target - value) * a) == (target - value) * (1real - a))
        by (nonlinear_arith);
}

/// Frame after frame a value moves toward its target, never away from it
/// and never past it.
pub proof fn lemma_ticks_monotone(value: real, target: real, smoothing: real, n: nat)
    ensures
        value <= target ==> value <= spec_ticks(value, target, smoothing, n) <= spec_ticks(
            value,
            target,
            smoothing,
            n + 1,
        ) <= target,
        value >= target ==> target <= spec_ticks(value, target, smoothing, n + 1) <= spec_ticks(
            value,
            target,
            smoothing,
            n,
        ) <= value,
    decreases n,
{
    let here = spec_ticks(value, target, smoothing, n);
    if n > 0 {
        lemma_ticks_monotone(value, target, smoothing, (n - 1) as nat);
    }
    lemma_step_between(here, target, smoothing);
}

/// After `n` frames the share `(1 - alpha)^n` of the way is left.
pub proof fn lemma_ticks_remainder(value: real, target: real, smoothing: real, n: nat)
    ensures
        target - spec_ticks(value, target, smoothing, n) == (target - value) * spec_power(
            1real - spec_alpha(smoothing),
            n,
        ),
    decreases n,
{
    let r = 1real - spec_alpha(smoothing);
    if n == 0 {
        assert((target - value) * 1real == target - value) by (nonlinear_arith);
    } else {
        let before = spec_ticks(value, target, smoothing, (n - 1) as nat);
        lemma_ticks_remainder(value, target, smoothing, (n - 1) as nat);
        lemma_step_remainder(before, target, smoothing);
        let p = spec_power(r, (n - 1) as nat);
        assert(((target - value) * p) * r == (target - value) * (r * p)) by (nonlinear_arith);
    }
}

/// A power of a share is a share.
pub proof fn lemma_power_bounds(r: real, n: nat)
    requires
        0real <= r <= 1real,
    ensures
        0real <= spec_power(r, n) <= 1real,
    decreases n,
{
    if n > 0 {
        lemma_power_bounds(r, (n - 1) as nat);
        let p = spec_power(r, (n - 1) as nat);
        assert(0real <= r * p <= 1real) by (nonlinear_arith)
            requires
                0real <= r <= 1real,
                0real <= p <= 1real,
        ;
    }
}

/// The way left shrinks at least as fast as `1 / (1 + n * alpha)`.
pub proof fn lemma_power_decay(r: real, a: real, n: nat)
    requires
        0real <= a <= 1real,
        0real <= r <= 1real - a,
    ensures
        spec_power(r, n) * (1real + (n as real) * a) <= 1real,
    decreases n,
{
    if n == 0 {
        assert((0nat as real) == 0real);
        assert(1real * (1real + 0real * a) == 1real) by (nonlinear_arith);
    } else {
        let m = (n - 1) as nat;
        lemma_power_decay(r, a, m);
        lemma_power_bounds(r, m);
        let p = spec_power(r, m);
        let j = m as real;
        assert((n as real) == j + 1real);
        assert(j >= 0real);
        assert(r * (1real + (j + 1real) * a) <= 1real + j * a) by (nonlinear_arith)
            requires
                0real <= a <= 1real,
                0real <= r <= 1real - a,
                j >= 0real,
        ;
        assert((r * p) * (1real + (j + 1real) * a) <= 1real) by (nonlinear_arith)
            requires
                0real <= p,
                r * (1real + (j + 1real) * a) <= 1real + j * a,
                p * (1real + j * a) <= 1real,
        ;
    }
}

/// Powers multiply: `r^(k*m) = (r^k)^m`.
pub proof fn lemma_power_of_power(r: real, k: nat, m: nat)
    ensures
        spec_power(r, k * m) == spec_power(spec_power(r, k), m),
    decreases m,
{
    if m == 0 {
        assert(k * 0 == 0) by (nonlinear_arith);
    } else {
        lemma_power_of_power(r, k, (m - 1) as nat);
        assert(k * m == k + k * (m - 1)) by (nonlinear_arith)
            requires
                m >= 1,
        ;
        lemma_power_sum(r, k, k * ((m - 1) as nat));
    }
}

/// Powers add: `r^(a+b) = r^a * r^b`.
pub proof fn lemma_power_sum(r: real, a: nat, b: nat)
    ensures
        spec_power(r, a + b) == spec_power(r, a) * spec_power(r, b),
    decreases a,
{
    if a == 0 {
        assert(1real * spec_power(r, b) == spec_power(r, b)) by (nonlinear_arith);
    } else {
        lemma_power_sum(r, (a - 1) as nat, b);
        let x = spec_power(r, (a - 1) as nat);
        let y = spec_power(r, b);
        assert(r * (x * y) == (r * x) * y) by (nonlinear_arith);
        assert((a + b - 1) as nat == (a - 1) as nat + b);
    }
}

/// A smaller share has smaller powers.
pub proof fn lemma_power_monotone(r: real, s: real, n: nat)
    requires
        0real <= r <= s,
    ensures
        0real <= spec_power(r, n) <= spec_power(s, n),
    decreases n,
{
    if n > 0 {
        lemma_power_monotone(r, s, (n - 1) as nat);
        let p = spec_power(r, (n - 1) as nat);
        let q = spec_power(s, (n - 1) as nat);
        assert(0real <= r * p <= s * q) by (nonlinear_arith)
            requires
                0real <= r <= s,
                0real <= p <= q,
        ;
    }
}

/// A value comes within any distance of its target in a number of frames
/// that grows with the inverse of `alpha` and with the logarithm of the way
/// to go: if `k * alpha >= 1`, every `k` frames at least halve the
/// distance, so after `k * m` frames at most the share `(1/2)^m` of it is
/// left.
pub proof fn lemma_ticks_halve(value: real, target: real, smoothing: real, k: nat, m: nat)
    requires
        (k as real) * spec_alpha(smoothing) >= 1real,
    ensures
        spec_distance(spec_ticks(value, target, smoothing, k * m), target) <= spec_distance(
            value,
            target,
        ) * spec_power(1real / 2real, m),
{
    let a = spec_alpha(smoothing);
    let r = 1real - a;
    lemma_alpha_bounds(smoothing);
    lemma_power_decay(r, a, k);
    lemma_power_bounds(r, k);
    let pk = spec_power(r, k);
    assert(pk <= 1real / 2real) by (nonlinear_arith)
        requires
            pk * (1real + (k as real) * a) <= 1real,
            (k as real) * a >= 1real,
            0real <= pk,
    ;
    lemma_power_monotone(pk, 1real / 2real, m);
    lemma_power_of_power(r, k, m);
    lemma_ticks_remainder(value, target, smoothing, k * m);
    let p = spec_power(r, k * m);
    let h = spec_power(1real / 2real, m);
    let d = target - value;
    assert(0real <= p <= h);
    assert(d >= 0real ==> 0real <= d * p <= d * h) by (nonlinear_arith)
        requires
            0real <= p <= h,
    ;
    assert(d <= 0real ==> d * h <= d * p <= 0real) by (nonlinear_arith)
        requires
            0real <= p <= h,
    ;
    assert(d <= 0real ==> (0real - d) * h == 0real - d * h) by (nonlinear_arith);
}

/// A half to the power `m`, times two to the power `m`, is one.
pub proof fn lemma_half_of_double(m: nat)
    ensures
        spec_power(1real / 2real, m) * spec_power(2real, m) == 1real,
        spec_power(1real / 2real, m) >= 0real,
    decreases m,
{
    if m > 0 {
        lemma_half_of_double((m - 1) as nat);
        let h = spec_power(1real / 2real, (m - 1) as nat);
        let d = spec_power(2real, (m - 1) as nat);
        assert(((1real / 2real) * h) * (2real * d) == h * d) by (nonlinear_arith);
        assert((1real / 2real) * h >= 0real) by (nonlinear_arith)
            requires
                h >= 0real,
        ;
    } else {
        assert(1real * 1real == 1real) by (nonlinear_arith);
    }
}

/// A value is within `eps` of its target after `k * m` frames, where `k`
/// frames halve the distance and `m` halvings bring it down to `eps`.
pub proof fn lemma_ticks_within(value: real, target: real, smoothing: real, eps: real, k: nat, m: nat)
    requires
        (k as real) * spec_alpha(smoothing) >= 1real,
        spec_distance(value, target) <= eps * spec_power(2real, m),
    ensures
        spec_distance(spec_ticks(value, target, smoothing, k * m), target) <= eps,
{
    lemma_ticks_halve(value, target, smoothing, k, m);
    lemma_half_of_double(m);
    let d = spec_distance(value, target);
    let h = spec_power(1real / 2real, m);
    let p = spec_power(2real, m);
    assert(d * h <= eps) by (nonlinear_arith)
        requires
            d <= eps * p,
            h * p == 1real,
            h >= 0real,
    ;
}

/// Whatever the smoothing, a thousand frames at least halve the distance.
pub proof fn lemma_thousand_frames_halve(value: real, target: real, smoothing: real, m: nat)
    ensures
        spec_distance(spec_ticks(value, target, smoothing, 1000 * m), target) <= spec_distance(
            value,
            target,
        ) * spec_power(1real / 2real, m),
{
    lemma_alpha_bounds(smoothing);
    assert((1000nat as real) == 1000real);
    assert(1000real * spec_alpha(smoothing) >= 1real) by (nonlinear_arith)
        requires
            spec_alpha(smoothing) >= 1real / 1000real,
    ;
    lemma_ticks_halve(value, target, smoothing, 1000, m);
}

/// A normalized input of one or more gives the top of the range, one of
/// zero or less the bottom, and every input a value within the range.
pub proof fn lemma_normalized_clamps(min: real, max: real, x: real)
    ensures
        x >= 1real ==> spec_normalized(min, max, x) == max,
        x <= 0real ==> spec_normalized(min, max, x) == min,
        min <= max ==> min <= spec_normalized(min, max, x) <= max,
{
    let c = spec_clamp(x, 0real, 1real);
    assert((max - min) * 1real == max - min) by (nonlinear_arith);
    assert((max - min) * 0real == 0real) by (nonlinear_arith);
    assert(min <= max ==> 0real <= (max - min) * c <= max - min) by (nonlinear_arith)
        requires
            0real <= c <= 1real,
    ;
}

/// The controller's lowest value gives the bottom of the range, its
/// highest the top, and a higher value never a lower target in a range
/// that is the right way round.
pub proof fn lemma_controller_sweeps(min: real, max: real, a: u8, b: u8)
    ensures
        spec_controller(min, max, 0) == min,
        spec_controller(min, max, 127) == max,
        min <= max && a <= b ==> spec_controller(min, max, a) <= spec_controller(min, max, b),
{
    assert((0u8 as real) == 0real);
    assert((127u8 as real) == 127real);
    assert((max - min) * (0real / 127real) == 0real) by (nonlinear_arith);
    assert((max - min) * (127real / 127real) == max - min) by (nonlinear_arith);
    let x = a as real;
    let y = b as real;
    assert(a <= b ==> x <= y);
    assert(min <= max && x <= y ==> (max - min) * (x / 127real) <= (max - min) * (y / 127real))
        by (nonlinear_arith);
}

/// A raw input ends up within the range, and an input within the range is
/// left as it is.
pub proof fn lemma_raw_clamps(min: real, max: real, x: real)
    ensures
        min <= max ==> min <= spec_raw(min, max, x) <= max,
        max <= min ==> max <= spec_raw(min, max, x) <= min,
        (min <= x <= max || max <= x <= min) ==> spec_raw(min, max, x) == x,
{
}

/// What `shape` is to compute for an input, under a reading of samples as
/// numbers.
pub open spec fn spec_shaped(reading: spec_fn(Sample) -> real, min: Sample, max: Sample, d: Drive) -> real {
    match d {
        Drive::Controller(v) => spec_controller(reading(min), reading(max), v),
        Drive::Normalized(x) => spec_normalized(reading(min), reading(max), reading(x)),
        Drive::Raw(x) => spec_raw(reading(min), reading(max), reading(x)),
    }
}

/// Whether a shaping function computes the shaping law exactly under a
/// reading of samples as numbers.
pub open spec fn spec_exact_shape<F: Fn(Sample, Sample, Drive) -> Sample>(
    shape: F,
    reading: spec_fn(Sample) -> real,
) -> bool {
    forall|min: Sample, max: Sample, d: Drive, r: Sample| #[trigger]
        call_ensures(shape, (min, max, d), r) ==> reading(r) == spec_shaped(reading, min, max, d)
}

/// Whether a step function computes the smoothing law exactly under a
/// reading of samples as numbers.
pub open spec fn spec_exact_step<G: Fn(Sample, Sample, Sample) -> Sample>(
    step: G,
    reading: spec_fn(Sample) -> real,
) -> bool {
    forall|v: Sample, t: Sample, s: Sample, r: Sample| #[trigger]
        call_ensures(step, (v, t, s), r) ==> reading(r) == spec_step(reading(v), reading(t), reading(s))
}

/// With an exact step function, a frame moves every parameter as the
/// smoothing law says: toward its own target, by its own smoothing.
pub proof fn lemma_tick_follows_law<G: Fn(Sample, Sample, Sample) -> Sample>(
    step: G,
    reading: spec_fn(Sample) -> real,
    old: StoreView,
    new: StoreView,
    name: Seq<char>,
)
    requires
        spec_ticked(step, old, new),
        spec_exact_step(step, reading),
        old.values.contains_key(name),
    ensures
        reading(new.values[name]) == spec_step(
            reading(old.values[name]),
            reading(spec_target_or_value(old, name)),
            reading(spec_smoothing_or_zero(old, name)),
        ),
{
}

/// With an exact step function, a frame leaves every parameter that is at
/// its target where it is, and moves every other one toward its target
/// and not past it.
pub proof fn lemma_tick_converges<G: Fn(Sample, Sample, Sample) -> Sample>(
    step: G,
    reading: spec_fn(Sample) -> real,
    old: StoreView,
    new: StoreView,
    name: Seq<char>,
)
    requires
        spec_ticked(step, old, new),
        spec_exact_step(step, reading),
        old.values.contains_key(name),
    ensures
        ({
            let before = reading(old.values[name]);
            let after = reading(new.values[name]);
            let target = reading(spec_target_or_value(old, name));
            &&& before == target ==> after == before
            &&& before <= target ==> before <= after <= target
            &&& before >= target ==> target <= after <= before
            &&& spec_distance(after, target) <= spec_distance(before, target)
        }),
{
    lemma_tick_follows_law(step, reading, old, new, name);
    lemma_step_between(
        reading(old.values[name]),
        reading(spec_target_or_value(old, name)),
        reading(spec_smoothing_or_zero(old, name)),
    );
}

/// With an exact shaping function, a normalized input of one or more sets
/// the target of a parameter to the top of its range, and one of zero or
/// less to the bottom.
pub proof fn lemma_normalized_write_clamps<F: Fn(Sample, Sample, Drive) -> Sample>(
    shape: F,
    reading: spec_fn(Sample) -> real,
    old: StoreView,
    new: StoreView,
    name: Seq<char>,
    input: Sample,
)
    requires
        spec_direct_write(shape, old, new, name, true, input),
        spec_exact_shape(shape, reading),
        old.ranges.contains_key(name),
    ensures
        reading(input) >= 1real ==> reading(new.targets[name]) == reading(old.ranges[name].1),
        reading(input) <= 0real ==> reading(new.targets[name]) == reading(old.ranges[name].0),
{
    lemma_normalized_clamps(
        reading(old.ranges[name].0),
        reading(old.ranges[name].1),
        reading(input),
    );
}

/// With an exact shaping function, a controller value sets the target of
/// the bound parameter to its place in the binding's range: the lowest
/// value to the bottom, the highest to the top.
pub proof fn lemma_controller_write_follows_law<F: Fn(Sample, Sample, Drive) -> Sample>(
    shape: F,
    reading: spec_fn(Sample) -> real,
    old: StoreView,
    new: StoreView,
    m: ParamMapping,
    value: u8,
)
    requires
        spec_controller_write(shape, old, new, m, value),
        spec_exact_shape(shape, reading),
    ensures
        reading(new.targets[m.name@]) == spec_controller(reading(m.min), reading(m.max), value),
        value == 0 ==> reading(new.targets[m.name@]) == reading(m.min),
        value == 127 ==> reading(new.targets[m.name@]) == reading(m.max),
{
    lemma_controller_sweeps(reading(m.min), reading(m.max), value, value);
}

/// Whether each item of `frames` is the one before it, one frame later.
pub open spec fn spec_frames<G: Fn(Sample, Sample, Sample) -> Sample>(
    step: G,
    frames: Seq<StoreView>,
) -> bool {
    forall|i: int| 0 <= i < frames.len() - 1 ==> spec_ticked(step, #[trigger] frames[i], frames[i + 1])
}

/// Frames change no target and no smoothing, and keep every parameter.
pub proof fn lemma_frames_keep_inputs<G: Fn(Sample, Sample, Sample) -> Sample>(
    step: G,
    frames: Seq<StoreView>,
    n: nat,
)
    requires
        spec_frames(step, frames),
        n < frames.len(),
    ensures
        frames[n as int].targets == frames[0].targets,
        frames[n as int].smoothing == frames[0].smoothing,
        frames[n as int].values.dom() == frames[0].values.dom(),
    decreases n,
{
    if n > 0 {
        lemma_frames_keep_inputs(step, frames, (n - 1) as nat);
        assert(spec_ticked(step, frames[n - 1], frames[n - 1 + 1]));
    }
}

/// At equilibrium nothing moves, however many frames pass: if the step
/// function returns the value it is given whenever value and target agree,
/// then a parameter that is at its target keeps its value, bit for bit,
/// whatever its smoothing and whatever becomes of the other parameters.
pub proof fn lemma_frames_keep_equilibrium<G: Fn(Sample, Sample, Sample) -> Sample>(
    step: G,
    frames: Seq<StoreView>,
    name: Seq<char>,
    n: nat,
)
    requires
        spec_frames(step, frames),
        n < frames.len(),
        frames[0].values.contains_key(name),
        spec_target_or_value(frames[0], name) == frames[0].values[name],
        forall|v: Sample, s: Sample, r: Sample| call_ensures(step, (v, v, s), r) ==> r == v,
    ensures
        frames[n as int].values.contains_key(name),
        frames[n as int].values[name] == frames[0].values[name],
    decreases n,
{
    if n > 0 {
        let m = (n - 1) as nat;
        lemma_frames_keep_equilibrium(step, frames, name, m);
        lemma_frames_keep_inputs(step, frames, m);
        assert(spec_ticked(step, frames[m as int], frames[m as int + 1]));
        lemma_tick_keeps_equilibrium(step, frames[m as int], frames[n as int], name);
    }
}

/// A value at its target stays there, however many frames pass.
pub proof fn lemma_ticks_at_rest(value: real, smoothing: real, n: nat)
    ensures
        spec_ticks(value, value, smoothing, n) == value,
    decreases n,
{
    if n > 0 {
        lemma_ticks_at_rest(value, smoothing, (n - 1) as nat);
        lemma_step_at_rest(value, smoothing);
    }
}

/// With an exact step function, `n` frames move a parameter as `n` steps of
/// the smoothing law do: the share `(1 - alpha)^n` of the way to its target
/// is left.
pub proof fn lemma_frames_follow_law<G: Fn(Sample, Sample, Sample) -> Sample>(
    step: G,
    reading: spec_fn(Sample) -> real,
    frames: Seq<StoreView>,
    name: Seq<char>,
    n: nat,
)
    requires
        spec_frames(step, frames),
        n < frames.len(),
        spec_exact_step(step, reading),
        frames[0].values.contains_key(name),
    ensures
        ({
            let start = reading(frames[0].values[name]);
            let target = reading(spec_target_or_value(frames[0], name));
            let smoothing = reading(spec_smoothing_or_zero(frames[0], name));
            let after = reading(frames[n as int].values[name]);
            &&& after == spec_ticks(start, target, smoothing, n)
            &&& target - after == (target - start) * spec_power(1real - spec_alpha(smoothing), n)
            &&& start <= target ==> start <= after <= target
            &&& start >= target ==> target <= after <= start
        }),
    decreases n,
{
    let start = reading(frames[0].values[name]);
    let target = reading(spec_target_or_value(frames[0], name));
    let smoothing = reading(spec_smoothing_or_zero(frames[0], name));
    if n > 0 {
        let m = (n - 1) as nat;
        lemma_frames_follow_law(step, reading, frames, name, m);
        lemma_frames_keep_inputs(step, frames, m);
        assert(spec_ticked(step, frames[m as int], frames[m as int + 1]));
        assert(frames[m as int].values.contains_key(name));
        lemma_tick_follows_law(step, reading, frames[m as int], frames[n as int], name);
        if !frames[0].targets.contains_key(name) {
            lemma_ticks_at_rest(start, smoothing, m);
            lemma_ticks_at_rest(start, smoothing, n);
            lemma_step_at_rest(start, smoothing);
        }
        lemma_ticks_monotone(start, target, smoothing, m);
    }
    lemma_ticks_remainder(start, target, smoothing, n);
}

/// Whether the input of a write is one that `fine` admits. A controller
/// value always is.
pub open spec fn spec_fine_drive(fine: spec_fn(Sample) -> bool, d: Drive) -> bool {
    match d {
        Drive::Controller(_) => true,
        Drive::Normalized(x) => fine(x),
        Drive::Raw(x) => fine(x),
    }
}

/// Whether a shaping function computes the shaping law to within `e`, under
/// a reading of samples as numbers, on the samples that `fine` admits.
pub open spec fn spec_near_shape<F: Fn(Sample, Sample, Drive) -> Sample>(
    shape: F,
    reading: spec_fn(Sample) -> real,
    fine: spec_fn(Sample) -> bool,
    e: real,
) -> bool {
    forall|min: Sample, max: Sample, d: Drive, r: Sample| #[trigger]
        call_ensures(shape, (min, max, d), r) && fine(min) && fine(max) && spec_fine_drive(fine, d)
            ==> spec_distance(reading(r), spec_shaped(reading, min, max, d)) <= e
}

/// Whether a step function computes the smoothing law to within `e`, under
/// a reading of samples as numbers, on the samples that `fine` admits.
pub open spec fn spec_near_step<G: Fn(Sample, Sample, Sample) -> Sample>(
    step: G,
    reading: spec_fn(Sample) -> real,
    fine: spec_fn(Sample) -> bool,
    e: real,
) -> bool {
    forall|v: Sample, t: Sample, s: Sample, r: Sample| #[trigger]
        call_ensures(step, (v, t, s), r) && fine(v) && fine(t) && fine(s) ==> spec_distance(
            reading(r),
            spec_step(reading(v), reading(t), reading(s)),
        ) <= e
}

/// A number within `e` of a step of the smoothing law is within `e` of the
/// stretch between value and target, and its distance to the target is at
/// most the share `1 - alpha` of the old distance, and `e`.
pub proof fn lemma_near_step(value: real, target: real, smoothing: real, got: real, e: real)
    requires
        spec_distance(got, spec_step(value, target, smoothing)) <= e,
    ensures
        value <= target ==> value - e <= got <= target + e,
        value >= target ==> target - e <= got <= value + e,
        spec_distance(got, target) <= (1real - spec_alpha(smoothing)) * spec_distance(value, target)
            + e,
{
    let a = spec_alpha(smoothing);
    let ideal = spec_step(value, target, smoothing);
    lemma_step_between(value, target, smoothing);
    lemma_step_remainder(value, target, smoothing);
    let d = spec_distance(value, target);
    if value <= target {
        assert(target - ideal == (1real - a) * d) by (nonlinear_arith)
            requires
                target - ideal == (target - value) * (1real - a),
                d == target - value,
        ;
    } else {
        assert(ideal - target == (1real - a) * d) by (nonlinear_arith)
            requires
                target - ideal == (target - value) * (1real - a),
                d == value - target,
        ;
    }
}

/// The sum of the first `n` powers of `r`.
pub open spec fn spec_power_sum(r: real, n: nat) -> real
    decreases n,
{
    if n == 0 {
        0real
    } else {
        1real + r * spec_power_sum(r, (n - 1) as nat)
    }
}

/// The sum of the first `n` powers of `1 - a` is `(1 - (1 - a)^n) / a`, so
/// for a share `a` of a thousandth at least it is a thousand at most.
pub proof fn lemma_power_sum_closed(a: real, n: nat)
    requires
        1real / 1000real <= a <= 1real,
    ensures
        a * spec_power_sum(1real - a, n) == 1real - spec_power(1real - a, n),
        0real <= spec_power_sum(1real - a, n) <= 1000real,
    decreases n,
{
    let r = 1real - a;
    let sum = spec_power_sum(r, n);
    lemma_power_bounds(r, n);
    if n > 0 {
        let before = spec_power_sum(r, (n - 1) as nat);
        let p = spec_power(r, (n - 1) as nat);
        lemma_power_sum_closed(a, (n - 1) as nat);
        assert(a * (1real + r * before) == 1real - r * p) by (nonlinear_arith)
            requires
                a * before == 1real - p,
                r == 1real - a,
        ;
        assert(0real <= r * before) by (nonlinear_arith)
            requires
                0real <= r,
                0real <= before,
        ;
    }
    assert(sum <= 1000real) by (nonlinear_arith)
        requires
            a * sum <= 1real,
            1real / 1000real <= a,
            0real <= sum,
    ;
}

/// With a step function that computes the smoothing law to within `e`, a
/// frame brings every parameter to within `e` of where the law puts it: no
/// farther than `e` outside the stretch between its value and its target.
pub proof fn lemma_tick_near_law<G: Fn(Sample, Sample, Sample) -> Sample>(
    step: G,
    reading: spec_fn(Sample) -> real,
    fine: spec_fn(Sample) -> bool,
    e: real,
    old: StoreView,
    new: StoreView,
    name: Seq<char>,
)
    requires
        spec_ticked(step, old, new),
        spec_near_step(step, reading, fine, e),
        old.values.contains_key(name),
        fine(old.values[name]),
        fine(spec_target_or_value(old, name)),
        fine(spec_smoothing_or_zero(old, name)),
    ensures
        ({
            let before = reading(old.values[name]);
            let after = reading(new.values[name]);
            let target = reading(spec_target_or_value(old, name));
            let smoothing = reading(spec_smoothing_or_zero(old, name));
            &&& spec_distance(after, spec_step(before, target, smoothing)) <= e
            &&& before <= target ==> before - e <= after <= target + e
            &&& before >= target ==> target - e <= after <= before + e
            &&& spec_distance(after, target) <= (1real - spec_alpha(smoothing)) * spec_distance(
                before,
                target,
            ) + e
        }),
{
    lemma_near_step(
        reading(old.values[name]),
        reading(spec_target_or_value(old, name)),
        reading(spec_smoothing_or_zero(old, name)),
        reading(new.values[name]),
        e,
    );
}

/// With a step function that computes the smoothing law to within `e`,
/// `n` frames leave a parameter that has a target at most the share
/// `(1 - alpha)^n` of its distance to the target, and `e / alpha`, which is
/// a thousand times `e` at most. The values on the way have to be ones on
/// which the function is that accurate.
pub proof fn lemma_frames_near_law<G: Fn(Sample, Sample, Sample) -> Sample>(
    step: G,
    reading: spec_fn(Sample) -> real,
    fine: spec_fn(Sample) -> bool,
    e: real,
    frames: Seq<StoreView>,
    name: Seq<char>,
    n: nat,
)
    requires
        spec_frames(step, frames),
        n < frames.len(),
        0real <= e,
        spec_near_step(step, reading, fine, e),
        frames[0].values.contains_key(name),
        frames[0].targets.contains_key(name),
        fine(frames[0].targets[name]),
        fine(spec_smoothing_or_zero(frames[0], name)),
        forall|i: int| 0 <= i < n ==> fine(#[trigger] frames[i].values[name]),
    ensures
        ({
            let target = reading(frames[0].targets[name]);
            let alpha = spec_alpha(reading(spec_smoothing_or_zero(frames[0], name)));
            let left = spec_power(1real - alpha, n);
            let start = spec_distance(reading(frames[0].values[name]), target);
            let after = spec_distance(reading(frames[n as int].values[name]), target);
            &&& after <= left * start + e * spec_power_sum(1real - alpha, n)
            &&& alpha * (after - left * start) <= e * (1real - left)
            &&& after <= left * start + 1000real * e
        }),
    decreases n,
{
    let target = reading(frames[0].targets[name]);
    let smoothing = reading(spec_smoothing_or_zero(frames[0], name));
    let alpha = spec_alpha(smoothing);
    let r = 1real - alpha;
    let left = spec_power(r, n);
    let sum = spec_power_sum(r, n);
    let start = spec_distance(reading(frames[0].values[name]), target);
    let after = spec_distance(reading(frames[n as int].values[name]), target);
    lemma_alpha_bounds(smoothing);
    lemma_power_sum_closed(alpha, n);
    if n == 0 {
        assert(left * start == start) by (nonlinear_arith)
            requires
                left == 1real,
        ;
        assert(e * sum == 0real) by (nonlinear_arith)
            requires
                sum == 0real,
        ;
    } else {
        let m = (n - 1) as nat;
        let before = spec_distance(reading(frames[m as int].values[name]), target);
        let left_m = spec_power(r, m);
        let sum_m = spec_power_sum(r, m);
        lemma_frames_near_law(step, reading, fine, e, frames, name, m);
        lemma_frames_keep_inputs(step, frames, m);
        assert(spec_ticked(step, frames[m as int], frames[m as int + 1]));
        assert(frames[m as int].values.contains_key(name));
        lemma_tick_near_law(step, reading, fine, e, frames[m as int], frames[n as int], name);
        assert(after <= r * before + e);
        assert(r * before + e <= left * start + e * sum) by (nonlinear_arith)
            requires
                before <= left_m * start + e * sum_m,
                0real <= r,
                left == r * left_m,
                sum == 1real + r * sum_m,
        ;
    }
    assert(alpha * (after - left * start) <= e * (1real - left)) by (nonlinear_arith)
        requires
            after <= left * start + e * sum,
            alpha * sum == 1real - left,
            0real < alpha,
    ;
    assert(after <= left * start + 1000real * e) by (nonlinear_arith)
        requires
            after <= left * start + e * sum,
            0real <= sum <= 1000real,
            0real <= e,
    ;
}

/// With a shaping function that computes the shaping law to within `e`, a
/// normalized input written to a parameter by name sets its target to
/// within `e` of the input's place in the range in force: an input of one
/// or more to within `e` of the top, one of zero or less to within `e` of
/// the bottom.
pub proof fn lemma_normalized_write_near<F: Fn(Sample, Sample, Drive) -> Sample>(
    shape: F,
    reading: spec_fn(Sample) -> real,
    fine: spec_fn(Sample) -> bool,
    e: real,
    old: StoreView,
    new: StoreView,
    name: Seq<char>,
    input: Sample,
)
    requires
        spec_direct_write(shape, old, new, name, true, input),
        spec_near_shape(shape, reading, fine, e),
        fine(spec_direct_range(old, name, true, input).0),
        fine(spec_direct_range(old, name, true, input).1),
        fine(input),
    ensures
        ({
            let range = spec_direct_range(old, name, true, input);
            let target = reading(new.targets[name]);
            &&& spec_distance(
                target,
                spec_normalized(reading(range.0), reading(range.1), reading(input)),
            ) <= e
            &&& reading(input) >= 1real ==> spec_distance(target, reading(range.1)) <= e
            &&& reading(input) <= 0real ==> spec_distance(target, reading(range.0)) <= e
        }),
{
    let range = spec_direct_range(old, name, true, input);
    lemma_normalized_clamps(reading(range.0), reading(range.1), reading(input));
    assert(spec_fine_drive(fine, Drive::Normalized(input)));
}

/// The range in force for a message to `addr` that writes the parameter
/// `name`: that of the configured address, if `addr` is one, else that of
/// a write by name.
pub open spec fn spec_osc_range(
    old: StoreView,
    rt: OscRuntime,
    addr: Seq<char>,
    name: Seq<char>,
    normalized: bool,
    input: Sample,
) -> (Sample, Sample) {
    if rt.table().contains_key(addr) {
        spec_mapped_range(old, rt.table()[addr])
    } else {
        spec_direct_range(old, name, normalized, input)
    }
}

/// With a shaping function that computes the shaping law to within `e`, a
/// message that is applied as normalized sets the target it reports to
/// within `e` of the input's place in the range in force: an input of one
/// or more, such as one and a half, to within `e` of the top and never
/// farther beyond it, one of zero or less to within `e` of the bottom.
pub proof fn lemma_osc_clamps_near<F: Fn(Sample, Sample, Drive) -> Sample>(
    shape: F,
    reading: spec_fn(Sample) -> real,
    fine: spec_fn(Sample) -> bool,
    e: real,
    old: StoreView,
    new: StoreView,
    rt: OscRuntime,
    addr: Seq<char>,
    input: Sample,
    name: String,
    target: Sample,
)
    requires
        spec_osc_applied(shape, old, new, rt, addr, Some(input), Some((name, target, true))),
        spec_near_shape(shape, reading, fine, e),
        fine(input),
        fine(spec_osc_range(old, rt, addr, name@, true, input).0),
        fine(spec_osc_range(old, rt, addr, name@, true, input).1),
    ensures
        ({
            let range = spec_osc_range(old, rt, addr, name@, true, input);
            &&& target == new.targets[name@]
            &&& spec_distance(
                reading(target),
                spec_normalized(reading(range.0), reading(range.1), reading(input)),
            ) <= e
            &&& reading(input) >= 1real ==> spec_distance(reading(target), reading(range.1)) <= e
            &&& reading(input) <= 0real ==> spec_distance(reading(target), reading(range.0)) <= e
        }),
{
    let range = spec_osc_range(old, rt, addr, name@, true, input);
    lemma_normalized_clamps(reading(range.0), reading(range.1), reading(input));
    assert(spec_fine_drive(fine, Drive::Normalized(input)));
    if rt.table().contains_key(addr) {
        let m = rt.table()[addr];
        assert(spec_mapped_write(shape, old, new, m, input));
        assert(spec_drive(m.normalized, input) == Drive::Normalized(input));
    } else {
        assert(spec_direct_write(shape, old, new, name@, true, input));
        assert(spec_drive(true, input) == Drive::Normalized(input));
    }
}

/// Two to the power `e`, for any integer `e`.
pub open spec fn spec_pow2(e: int) -> real
    decreases
            if e >= 0 {
                e
            } else {
                -e
            },
{
    if e == 0 {
        1real
    } else if e > 0 {
        2real * spec_pow2(e - 1)
    } else {
        spec_pow2(e + 1) / 2real
    }
}

/// The number that the bits of a sample encode in the binary
/// single-precision format: one bit of sign, eight bits of exponent,
/// twenty-three bits of fraction. The words with all exponent bits set,
/// which encode no number, are read like the others.
pub open spec fn spec_number(s: Sample) -> real {
    let sign = s.bits / 0x8000_0000;
    let exponent = (s.bits / 0x80_0000) % 256;
    let fraction = s.bits % 0x80_0000;
    let magnitude = if exponent == 0 {
        (fraction as real) * spec_pow2(-149)
    } else {
        ((0x80_0000 + fraction) as real) * spec_pow2(exponent - 150)
    };
    if sign == 1 {
        0real - magnitude
    } else {
        magnitude
    }
}

/// Two to the power `n` and two to the power `-n` multiply to one.
pub proof fn lemma_pow2_inverse(n: nat)
    ensures
        spec_pow2(n as int) * spec_pow2(-(n as int)) == 1real,
    decreases n,
{
    if n == 0 {
        assert(1real * 1real == 1real) by (nonlinear_arith);
    } else {
        lemma_pow2_inverse((n - 1) as nat);
        let up = spec_pow2(n - 1);
        let down = spec_pow2(-(n - 1));
        assert(spec_pow2(n as int) == 2real * up);
        assert(spec_pow2(-(n as int)) == down / 2real);
        assert((2real * up) * (down / 2real) == up * down) by (nonlinear_arith);
    }
}

/// Two to the power twenty-three.
pub proof fn lemma_pow2_23()
    ensures
        spec_pow2(23) == 8388608real,
{
    reveal_with_fuel(spec_pow2, 24);
}

/// The samples that stand for zero and for one encode zero and one.
pub proof fn lemma_zero_and_one()
    ensures
        spec_number(Sample::spec_zero()) == 0real,
        spec_number(Sample::spec_one()) == 1real,
{
    let one = Sample::spec_one();
    assert(one.bits / 0x8000_0000 == 0);
    assert((one.bits / 0x80_0000) % 256 == 127);
    assert(one.bits % 0x80_0000 == 0);
    lemma_pow2_23();
    lemma_pow2_inverse(23);
    assert(((0x80_0000 + 0) as real) == 8388608real);
    let zero = Sample::spec_zero();
    assert(zero.bits / 0x8000_0000 == 0);
    assert((zero.bits / 0x80_0000) % 256 == 0);
    assert(zero.bits % 0x80_0000 == 0);
    assert((0u32 as real) == 0real);
    assert(0real * spec_pow2(-149) == 0real) by (nonlinear_arith);
}

} // verus!
