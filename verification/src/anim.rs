//! Animation tuning values shared by the configuration and the animator.
use vstd::prelude::*;

use crate::layout::Micros;

verus! {

/// Easing curves (niri's `easing` kinds, names shared with CSS).
#[derive(Clone, Copy, Debug, PartialEq, Eq, Structural)]
pub enum Easing {
    Linear,
    EaseOutQuad,
    EaseOutCubic,
    EaseOutExpo,
    /// Overshoot amount in millionths.
    EaseOutBack(Micros),
}

/// Tuning of one animation kind: its duration and easing curve.
#[derive(Clone, Copy, Debug, PartialEq, Eq, Structural)]
pub struct AnimParams {
    /// Duration in milliseconds; 0 disables the animation.
    pub duration_ms: u64,
    pub easing: Easing,
}

impl AnimParams {
    /// Window movement: 250 ms, ease-out-cubic.
    pub open spec fn spec_default() -> AnimParams {
        AnimParams { duration_ms: 250, easing: Easing::EaseOutCubic }
    }

    pub fn default() -> (p: AnimParams)
        ensures
            p == AnimParams::spec_default(),
    {
        AnimParams { duration_ms: 250, easing: Easing::EaseOutCubic }
    }
}

} // verus!
