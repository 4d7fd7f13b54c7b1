//! The lane slide controller: per tick, a lateral request may latch a new target
//! lane, and the position then slides toward the target at a fixed speed without
//! ever passing it.
use vstd::prelude::*;
use crate::input::{Intent, Lateral};
use crate::lanes::LaneSet;

verus! {

/// Elapsed time is given in microseconds.
pub const MICROS_PER_SECOND: u64 = 1_000_000;

/// Immutable tuning of a controller: where the lanes are and how fast the
/// position slides, in fixed-point units per second.
#[derive(Clone, Copy, Debug, PartialEq, Eq, Structural)]
pub struct SlideConfig {
    pub lanes: LaneSet,
    pub speed: u64,
}

impl SlideConfig {
    pub open spec fn wf(&self) -> bool {
        self.lanes.wf()
    }

    /// The standard lanes, sliding at 5 distance units per second.
    pub fn standard() -> (r: SlideConfig)
        ensures
            r.wf(),
            r.lanes.left == -2500,
            r.lanes.middle == 0,
            r.lanes.right == 2500,
            r.speed == 5000,
    {
        SlideConfig { lanes: LaneSet::standard(), speed: 5000 }
    }
}

/// The sliding state of one entity, in fixed-point lateral units.
#[derive(Clone, Copy, Debug, PartialEq, Eq, Structural)]
pub struct SlideState {
    pub is_sliding: bool,
    pub target: i64,
    pub current: i64,
}

/// What one tick hands to the physics and transform side.
#[derive(Clone, Copy, Debug, PartialEq, Eq, Structural)]
pub struct TickOutput {
    pub position: i64,
    pub jump_requested: bool,
    pub roll_requested: bool,
    pub quit_requested: bool,
}

/// Distance from `a` to `b`.
pub open spec fn gap(a: int, b: int) -> int {
    if a <= b { b - a } else { a - b }
}

/// How far the position may slide in `elapsed` microseconds, rounded up to a
/// whole unit: any tick with a nonzero speed and elapsed time moves at least one
/// unit, and a tick moves at most one unit more than the exact distance.
pub open spec fn step_length(speed: u64, elapsed: u64) -> int {
    (speed as int * elapsed as int + (MICROS_PER_SECOND as int - 1)) / (MICROS_PER_SECOND as int)
}

/// The lane a lateral request aims at from `x`, if any.
pub open spec fn aim(lanes: LaneSet, x: int, lateral: Lateral) -> Option<i64> {
    match lateral {
        Lateral::MoveLeft => lanes.spec_snap_left(x),
        Lateral::MoveRight => lanes.spec_snap_right(x),
        Lateral::Hold => None,
    }
}

/// The state once a lateral request has been taken into account: a request
/// that aims at a lane latches that lane as the target and starts sliding; a
/// lateral request that aims at no lane (a push past the outermost lane) stays
/// where it is, with the target on the current position and no slide; no
/// lateral request changes nothing.
pub open spec fn retarget(lanes: LaneSet, s: SlideState, lateral: Lateral) -> SlideState {
    match lateral {
        Lateral::Hold => s,
        _ => match aim(lanes, s.current as int, lateral) {
            Some(t) => SlideState { is_sliding: true, target: t, current: s.current },
            None => SlideState { is_sliding: false, target: s.current, current: s.current },
        },
    }
}

/// The state after sliding `step` units toward the target: a step that reaches
/// or passes the target lands on it and stops the slide.
pub open spec fn advance(s: SlideState, step: int) -> SlideState {
    if step >= gap(s.current as int, s.target as int) {
        SlideState { is_sliding: false, target: s.target, current: s.target }
    } else if s.target > s.current {
        SlideState { is_sliding: s.is_sliding, target: s.target, current: (s.current + step) as i64 }
    } else {
        SlideState { is_sliding: s.is_sliding, target: s.target, current: (s.current - step) as i64 }
    }
}

/// One tick of the controller.
pub open spec fn spec_tick(cfg: SlideConfig, s: SlideState, lateral: Lateral, elapsed: u64) -> SlideState {
    advance(retarget(cfg.lanes, s, lateral), step_length(cfg.speed, elapsed))
}

impl SlideState {
    /// The target is a lane, the position lies between the outer lanes, and
    /// a state that is not sliding sits on its target.
    pub open spec fn wf(&self, cfg: SlideConfig) -> bool {
        &&& cfg.lanes.is_lane(self.target as int)
        &&& cfg.lanes.in_span(self.current as int)
        &&& (!self.is_sliding ==> self.current == self.target)
    }

    /// At rest on `x`.
    pub open spec fn rest_on(x: i64) -> SlideState {
        SlideState { is_sliding: false, target: x, current: x }
    }

    /// At rest on the given lane position.
    pub fn at_rest(x: i64) -> (r: SlideState)
        ensures
            r == SlideState::rest_on(x),
    {
        SlideState { is_sliding: false, target: x, current: x }
    }

    /// Whether this state is well formed for `cfg`.
    pub fn is_well_formed(&self, cfg: &SlideConfig) -> (r: bool)
        requires
            cfg.wf(),
        ensures
            r == self.wf(*cfg),
    {
        let l = cfg.lanes;
        (self.target == l.left || self.target == l.middle || self.target == l.right)
            && l.left <= self.current && self.current <= l.right
            && (self.is_sliding || self.current == self.target)
    }

    /// Takes a lateral request into account (see `retarget`).
    pub fn apply_lateral(&mut self, lanes: &LaneSet, lateral: Lateral)
        ensures
            *final(self) == retarget(*lanes, *old(self), lateral),
    {
        let aimed = match lateral {
            Lateral::MoveLeft => lanes.snap_left(self.current),
            Lateral::MoveRight => lanes.snap_right(self.current),
            Lateral::Hold => None,
        };
        match aimed {
            Some(t) => {
                self.is_sliding = true;
                self.target = t;
            },
            None => {
                if lateral != Lateral::Hold {
                    self.is_sliding = false;
                    self.target = self.current;
                }
            },
        }
    }

    /// Slides toward the target for `elapsed` microseconds at `speed` units
    /// per second (see `advance`).
    pub fn slide(&mut self, speed: u64, elapsed: u64)
        ensures
            *final(self) == advance(*old(self), step_length(speed, elapsed)),
    {
        proof {
            let (a, b) = (speed as int, elapsed as int);
            assert(0 <= a * b <= 0xffff_ffff_ffff_fffe_0000_0000_0000_0001) by (nonlinear_arith)
                requires
                    0 <= a <= 0xffff_ffff_ffff_ffff,
                    0 <= b <= 0xffff_ffff_ffff_ffff,
            ;
        }
        let prod: u128 = (speed as u128) * (elapsed as u128);
        let step: u128 = (prod + (MICROS_PER_SECOND as u128 - 1)) / (MICROS_PER_SECOND as u128);
        let cur = self.current as i128;
        let tgt = self.target as i128;
        let dist: u128 = if cur <= tgt { (tgt - cur) as u128 } else { (cur - tgt) as u128 };
        if step >= dist {
            self.current = self.target;
            self.is_sliding = false;
        } else if tgt > cur {
            self.current = (cur + step as i128) as i64;
        } else {
            self.current = (cur - step as i128) as i64;
        }
    }

    /// One tick: the lateral request first, then the slide.
    pub fn tick(&mut self, cfg: &SlideConfig, lateral: Lateral, elapsed: u64)
        ensures
            *final(self) == spec_tick(*cfg, *old(self), lateral, elapsed),
    {
        self.apply_lateral(&cfg.lanes, lateral);
        self.slide(cfg.speed, elapsed);
    }
}

/// Ticking a well-formed state keeps it well formed.
pub proof fn lemma_tick_keeps_wf(cfg: SlideConfig, s: SlideState, lateral: Lateral, elapsed: u64)
    requires
        cfg.wf(),
        s.wf(cfg),
    ensures
        spec_tick(cfg, s, lateral, elapsed).wf(cfg),
{
    assert(cfg.speed as int * elapsed as int >= 0) by (nonlinear_arith)
        requires
            cfg.speed >= 0,
            elapsed >= 0,
    ;
}

/// The controller of one entity: its fixed configuration and its sliding state.
pub struct LaneSlideController {
    config: SlideConfig,
    state: SlideState,
}

impl LaneSlideController {
    pub closed spec fn spec_config(&self) -> SlideConfig {
        self.config
    }

    pub closed spec fn spec_state(&self) -> SlideState {
        self.state
    }

    pub open spec fn wf(&self) -> bool {
        self.spec_config().wf() && self.spec_state().wf(self.spec_config())
    }

    /// A controller at rest on the middle lane.
    pub fn new(config: SlideConfig) -> (r: LaneSlideController)
        requires
            config.wf(),
        ensures
            r.wf(),
            r.spec_config() == config,
            r.spec_state() == (SlideState {
                is_sliding: false,
                target: config.lanes.middle,
                current: config.lanes.middle,
            }),
    {
        LaneSlideController { config, state: SlideState::at_rest(config.lanes.middle) }
    }

    /// A controller in the given state; `None` when the lanes are out of order or
    /// the state is not well formed for them.
    pub fn with_state(config: SlideConfig, state: SlideState) -> (r: Option<LaneSlideController>)
        ensures
            r is Some <==> config.wf() && state.wf(config),
            r matches Some(c) ==> c.wf() && c.spec_config() == config && c.spec_state() == state,
    {
        if config.lanes.left < config.lanes.middle && config.lanes.middle < config.lanes.right {
            if state.is_well_formed(&config) {
                return Some(LaneSlideController { config, state });
            }
        }
        None
    }

    pub fn config(&self) -> (r: SlideConfig)
        ensures
            r == self.spec_config(),
    {
        self.config
    }

    pub fn state(&self) -> (r: SlideState)
        ensures
            r == self.spec_state(),
    {
        self.state
    }

    /// The current lateral position.
    pub fn position(&self) -> (r: i64)
        ensures
            r == self.spec_state().current,
    {
        self.state.current
    }

    pub fn is_sliding(&self) -> (r: bool)
        ensures
            r == self.spec_state().is_sliding,
    {
        self.state.is_sliding
    }

    /// Runs one tick of `elapsed` microseconds with the given intent. The jump
    /// request goes out only when the entity is grounded; roll and quit pass
    /// through unchanged.
    pub fn tick(&mut self, intent: &Intent, grounded: bool, elapsed: u64) -> (r: TickOutput)
        requires
            old(self).wf(),
        ensures
            final(self).wf(),
            final(self).spec_config() == old(self).spec_config(),
            final(self).spec_state() == spec_tick(
                old(self).spec_config(),
                old(self).spec_state(),
                intent.lateral,
                elapsed,
            ),
            r.position == final(self).spec_state().current,
            r.jump_requested == (intent.jump && grounded),
            r.roll_requested == intent.roll,
            r.quit_requested == intent.quit,
    {
        proof {
            lemma_tick_keeps_wf(self.config, self.state, intent.lateral, elapsed);
        }
        let cfg = self.config;
        self.state.tick(&cfg, intent.lateral, elapsed);
        TickOutput {
            position: self.state.current,
            jump_requested: intent.jump && grounded,
            roll_requested: intent.roll,
            quit_requested: intent.quit,
        }
    }
}

} // verus!
