use nannou::rand::Rng;
use vstd::prelude::*;

verus! {

/// Number of degrees in a full turn of the colour wheel.
pub const FULL_TURN: u16 = 360;

/// Smallest circular distance allowed between two consecutive hues.
pub const MIN_HUE_STEP: u16 = 60;

/// Distance between two angles on the colour wheel: `min(|a - b|, 360 - |a - b|)`.
pub open spec fn circular_distance(a: int, b: int) -> int {
    let d = if a >= b { a - b } else { b - a };
    if d <= 360 - d { d } else { 360 - d }
}

/// Circular distance between two hues in `[0, 360)`.
pub fn hue_distance(a: u16, b: u16) -> (d: u16)
    requires
        a < FULL_TURN,
        b < FULL_TURN,
    ensures
        d as int == circular_distance(a as int, b as int),
        d <= 180,
{
    let diff: u16 = if a >= b { a - b } else { b - a };
    if diff <= FULL_TURN - diff { diff } else { FULL_TURN - diff }
}

/// How many hues lie at least `MIN_HUE_STEP` away from a given hue.
pub const HUE_CHOICES: u16 = 241;

/// The hue reached by stepping `MIN_HUE_STEP + offset` degrees round the wheel.
pub open spec fn hue_after(hue: int, offset: int) -> int {
    (hue + 60 + offset) % 360
}

/// Every hue far enough from `hue` is reached by exactly one offset below
/// `HUE_CHOICES`, so a uniform offset gives a uniform hue among the allowed ones:
/// the same choice as drawing hues uniformly and rejecting those that are too close.
pub proof fn lemma_offsets_cover_allowed(hue: int, candidate: int)
    requires
        0 <= hue < 360,
        0 <= candidate < 360,
        circular_distance(hue, candidate) >= 60,
    ensures
        exists|k: int| 0 <= k < HUE_CHOICES && #[trigger] hue_after(hue, k) == candidate,
{
    let k = if candidate >= hue + 60 {
        candidate - hue - 60
    } else {
        candidate + 300 - hue
    };
    assert(0 <= k < HUE_CHOICES && hue_after(hue, k) == candidate);
}

/// Relies on rand's `Rng::gen_range` (as re-exported by nannou) on the thread-local
/// generator: a number in `0..bound`, which must not be empty.
#[verifier::external_body]
fn random_below(bound: u16) -> (r: u16)
    requires
        bound > 0,
    ensures
        r < bound,
{
    nannou::rand::thread_rng().gen_range(0..bound)
}

/// The hue currently applied to the image, in `[0, 360)`.
#[derive(Debug, Clone, Copy, PartialEq, Eq)]
pub struct HueState {
    pub hue: u16,
}

impl HueState {
    pub open spec fn wf(self) -> bool {
        self.hue < FULL_TURN
    }

    /// The hue before the first bounce.
    pub fn new() -> (s: HueState)
        ensures
            s.hue == 0,
            s.wf(),
    {
        HueState { hue: 0 }
    }

    /// Commits the hue `MIN_HUE_STEP + offset` degrees on from the current one.
    pub fn step_by(&mut self, offset: u16) -> (h: u16)
        requires
            old(self).wf(),
            offset < HUE_CHOICES,
        ensures
            final(self).wf(),
            h == final(self).hue,
            h as int == hue_after(old(self).hue as int, offset as int),
            circular_distance(old(self).hue as int, h as int) >= MIN_HUE_STEP,
    {
        let sum: u16 = self.hue + MIN_HUE_STEP + offset;
        let h: u16 = if sum >= FULL_TURN {
            sum - FULL_TURN
        } else {
            sum
        };
        self.hue = h;
        h
    }

    /// Picks a new hue at random, uniformly among those at least `MIN_HUE_STEP`
    /// degrees from the current one, and commits it.
    pub fn recolor(&mut self) -> (h: u16)
        requires
            old(self).wf(),
        ensures
            final(self).wf(),
            h == final(self).hue,
            circular_distance(old(self).hue as int, h as int) >= MIN_HUE_STEP,
    {
        let offset = random_below(HUE_CHOICES);
        self.step_by(offset)
    }
}

} // verus!
