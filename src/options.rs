use vstd::prelude::*;

verus! {

/// What kind of text is played; it selects the duration of one tone unit.
#[derive(Clone, Copy, Debug, PartialEq, Eq, Structural)]
pub enum TextType {
    Letters,
    Digits,
    Mixed,
}

/// How the speed changes along the text.
#[derive(Clone, Copy, Debug, PartialEq, Eq, Structural)]
pub enum SpeedModificationType {
    /// One constant speed for the whole session.
    Constant,
    Speedup,
    Slowing,
    Zigzag,
}

/// The harmonic recipe used to synthesize a tone.
#[derive(Clone, Copy, Debug, PartialEq, Eq, Structural)]
pub enum WaveType {
    Square,
    Sine,
    Triangle,
    Sawtooth,
}

/// What is played before and after the text.
#[derive(Clone, Copy, Debug, PartialEq, Eq, Structural)]
pub enum TextAdditions {
    /// The text alone.
    Plain,
    Training,
    Competitions,
}

} // verus!
