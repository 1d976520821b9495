use vstd::prelude::*;
use crate::options::SpeedModificationType;

verus! {

/// An exact speed value `num / den`, in the percentage-style scale where
/// 100 is the reference speed.
#[derive(Clone, Copy, Debug, PartialEq, Eq, Structural)]
pub struct Speed {
    pub num: i128,
    pub den: u64,
}

/// A configuration that cannot be played.
#[derive(Clone, Copy, Debug, PartialEq, Eq, Structural)]
pub enum ConfigError {
    /// A speed modification is active but its window is shorter than one
    /// character, so the ramp would divide by zero.
    DegenerateWindow,
}

pub open spec fn whole_speed(s: nat) -> Speed {
    Speed { num: s as i128, den: 1 }
}

/// The point `step / den` of the way along a linear ramp from `from` to `to`:
/// `from + (to - from) / den * step`, kept as an exact fraction.
pub open spec fn ramp(from: int, to: int, den: nat, step: int) -> Speed {
    Speed { num: (from * (den - step) + to * step) as i128, den: den as u64 }
}

/// Number of steps in one cycle of the speed ramp.
pub open spec fn cycle_len(window_len: int) -> int {
    window_len * 5
}

/// The speed applied at step `step` (`0 <= step < n`) of a ramp cycle of `n`
/// steps.
pub open spec fn speed_at_step(
    kind: SpeedModificationType,
    step: int,
    n: int,
    min_speed: int,
    max_speed: int,
) -> Speed {
    match kind {
        SpeedModificationType::Speedup => ramp(min_speed, max_speed, (n - 1) as nat, step),
        SpeedModificationType::Slowing => ramp(max_speed, min_speed, (n - 1) as nat, step),
        SpeedModificationType::Zigzag => if step < n / 2 {
            ramp(min_speed, max_speed, (n / 2 - 1) as nat, step)
        } else {
            ramp(max_speed, min_speed, (n / 2 - 1) as nat, step - n / 2)
        },
        SpeedModificationType::Constant => whole_speed(min_speed as nat),
    }
}

/// Checks that a modification window is long enough for its ramp.
pub fn check_window(kind: SpeedModificationType, window_len: i32) -> (r: Result<(), ConfigError>)
    ensures
        r is Err <==> (kind != SpeedModificationType::Constant && cycle_len(window_len as int) < 2),
{
    if kind != SpeedModificationType::Constant && window_len < 1 {
        Err(ConfigError::DegenerateWindow)
    } else {
        Ok(())
    }
}

fn ramp_exec(from: u32, to: u32, den: u64, step: u64) -> (r: Speed)
    requires
        step <= den + 1,
    ensures
        r == ramp(from as int, to as int, den as nat, step as int),
{
    let f = from as i128;
    let t = to as i128;
    let d = den as i128;
    let s = step as i128;
    assert(-(u32::MAX as int) <= f * (d - s) <= u32::MAX as int * 0x1_0000_0000_0000_0000) by (nonlinear_arith)
        requires
            0 <= f <= u32::MAX,
            0 <= s <= d + 1,
            d < 0x1_0000_0000_0000_0000,
    ;
    assert(0 <= t * s <= u32::MAX as int * 0x1_0000_0000_0000_0001) by (nonlinear_arith)
        requires
            0 <= t <= u32::MAX,
            0 <= s <= d + 1,
            d < 0x1_0000_0000_0000_0000,
    ;
    Speed { num: f * (d - s) + t * s, den }
}

/// The speed of step `step` of a ramp cycle of `n` steps; for `Speedup` it
/// is `min + (max - min) / (n - 1) * step`, for `Slowing`
/// `max - (max - min) / (n - 1) * step`, and `Zigzag` rises over the first
/// half and falls over the second with the denominator `n / 2 - 1`; with no
/// modification it is `min_speed`. Each denominator must be positive.
pub fn speed_for_step(
    kind: SpeedModificationType,
    step: u64,
    n: u64,
    min_speed: u32,
    max_speed: u32,
) -> (r: Speed)
    requires
        step < n,
        n >= 2,
        kind == SpeedModificationType::Zigzag ==> n >= 4,
    ensures
        r == speed_at_step(kind, step as int, n as int, min_speed as int, max_speed as int),
{
    match kind {
        SpeedModificationType::Speedup => ramp_exec(min_speed, max_speed, n - 1, step),
        SpeedModificationType::Slowing => ramp_exec(max_speed, min_speed, n - 1, step),
        SpeedModificationType::Zigzag => {
            let half = n / 2;
            if step < half {
                ramp_exec(min_speed, max_speed, half - 1, step)
            } else {
                ramp_exec(max_speed, min_speed, half - 1, step - half)
            }
        },
        SpeedModificationType::Constant => Speed { num: min_speed as i128, den: 1 },
    }
}

} // verus!
