//! What holds of every run of the controller.
use vstd::prelude::*;
use crate::controller::{aim, gap, retarget, spec_tick, step_length, SlideConfig, SlideState};
use crate::input::Lateral;

verus! {

/// The state after ticking `s` once for each elapsed time in `es`, in order,
/// with the same lateral request held throughout.
pub open spec fn run(cfg: SlideConfig, s: SlideState, lateral: Lateral, es: Seq<u64>) -> SlideState
    decreases es.len(),
{
    if es.len() == 0 {
        s
    } else {
        spec_tick(cfg, run(cfg, s, lateral, es.drop_last()), lateral, es.last())
    }
}

proof fn lemma_step_nonneg(speed: u64, elapsed: u64)
    ensures
        step_length(speed, elapsed) >= 0,
{
    assert(step_length(speed, elapsed) >= 0) by (nonlinear_arith)
        requires
            speed >= 0,
            elapsed >= 0,
    ;
}

/// A slide never passes its target: after a tick the position lies between
/// where it was and the target that the lateral request left in place, and a
/// step at least as long as the remaining distance lands exactly on the target
/// and ends the slide.
pub proof fn lemma_no_overshoot(cfg: SlideConfig, s: SlideState, lateral: Lateral, elapsed: u64)
    requires
        cfg.wf(),
        s.wf(cfg),
    ensures
        ({
            let r = retarget(cfg.lanes, s, lateral);
            let t = spec_tick(cfg, s, lateral, elapsed);
            &&& t.target == r.target
            &&& gap(t.current as int, r.target as int) <= gap(s.current as int, r.target as int)
            &&& (r.current <= r.target ==> r.current <= t.current <= r.target)
            &&& (r.target <= r.current ==> r.target <= t.current <= r.current)
            &&& (step_length(cfg.speed, elapsed) >= gap(s.current as int, r.target as int)
                ==> t.current == r.target && !t.is_sliding)
        }),
{
    lemma_step_nonneg(cfg.speed, elapsed);
}

/// A state at rest on its target, ticked with no lateral request, stays
/// exactly as it is.
pub proof fn lemma_rest_is_fixed(cfg: SlideConfig, s: SlideState, elapsed: u64)
    requires
        !s.is_sliding,
        s.current == s.target,
    ensures
        spec_tick(cfg, s, Lateral::Hold, elapsed) == s,
{
    lemma_step_nonneg(cfg.speed, elapsed);
}

/// With the position on its target and a lateral request that aims at no lane
/// (none at all, or a push past the outermost lane), a tick leaves the position
/// where it is, whatever the elapsed time: the zero-length direction moves
/// nothing.
pub proof fn lemma_zero_direction_stays(cfg: SlideConfig, s: SlideState, lateral: Lateral, elapsed: u64)
    requires
        s.current == s.target,
        aim(cfg.lanes, s.current as int, lateral) is None,
    ensures
        spec_tick(cfg, s, lateral, elapsed).current == s.current,
        spec_tick(cfg, s, lateral, elapsed).target == s.target,
        !spec_tick(cfg, s, lateral, elapsed).is_sliding,
{
    lemma_step_nonneg(cfg.speed, elapsed);
}

/// From anywhere right of Middle, a leftward tick aims at Middle and does not
/// carry the position past it.
pub proof fn lemma_left_stops_at_middle(cfg: SlideConfig, s: SlideState, elapsed: u64)
    requires
        cfg.wf(),
        s.wf(cfg),
        s.current > cfg.lanes.middle,
    ensures
        spec_tick(cfg, s, Lateral::MoveLeft, elapsed).target == cfg.lanes.middle,
        spec_tick(cfg, s, Lateral::MoveLeft, elapsed).current >= cfg.lanes.middle,
{
    lemma_no_overshoot(cfg, s, Lateral::MoveLeft, elapsed);
}

/// Mirror image of `lemma_left_stops_at_middle`.
pub proof fn lemma_right_stops_at_middle(cfg: SlideConfig, s: SlideState, elapsed: u64)
    requires
        cfg.wf(),
        s.wf(cfg),
        s.current < cfg.lanes.middle,
    ensures
        spec_tick(cfg, s, Lateral::MoveRight, elapsed).target == cfg.lanes.middle,
        spec_tick(cfg, s, Lateral::MoveRight, elapsed).current <= cfg.lanes.middle,
{
    lemma_no_overshoot(cfg, s, Lateral::MoveRight, elapsed);
}

proof fn lemma_run_keeps_wf(cfg: SlideConfig, s: SlideState, lateral: Lateral, es: Seq<u64>)
    requires
        cfg.wf(),
        s.wf(cfg),
    ensures
        run(cfg, s, lateral, es).wf(cfg),
    decreases es.len(),
{
    if es.len() > 0 {
        lemma_run_keeps_wf(cfg, s, lateral, es.drop_last());
        crate::controller::lemma_tick_keeps_wf(cfg, run(cfg, s, lateral, es.drop_last()), lateral, es.last());
    }
}

/// Holding left from anywhere right of Middle, the position can only get left
/// of Middle by first stopping exactly on Middle: some earlier tick in the run
/// ends on Middle. Right never goes straight to Left.
pub proof fn lemma_left_passes_through_middle(cfg: SlideConfig, s: SlideState, es: Seq<u64>)
    requires
        cfg.wf(),
        s.wf(cfg),
        s.current > cfg.lanes.middle,
        run(cfg, s, Lateral::MoveLeft, es).current < cfg.lanes.middle,
    ensures
        exists|k: int|
            0 < k < es.len() && #[trigger] run(cfg, s, Lateral::MoveLeft, es.take(k)).current
                == cfg.lanes.middle,
    decreases es.len(),
{
    let prefix = es.drop_last();
    let before = run(cfg, s, Lateral::MoveLeft, prefix);
    lemma_run_keeps_wf(cfg, s, Lateral::MoveLeft, prefix);
    if before.current > cfg.lanes.middle {
        lemma_left_stops_at_middle(cfg, before, es.last());
    } else if before.current == cfg.lanes.middle {
        let k = es.len() - 1;
        assert(es.take(k) =~= prefix);
    } else {
        lemma_left_passes_through_middle(cfg, s, prefix);
        let k = choose|k: int|
            0 < k < prefix.len() && #[trigger] run(cfg, s, Lateral::MoveLeft, prefix.take(k)).current
                == cfg.lanes.middle;
        assert(prefix.take(k) =~= es.take(k));
    }
}

/// Mirror image of `lemma_left_passes_through_middle`: holding right from
/// anywhere left of Middle, the position gets right of Middle only after some
/// earlier tick ends exactly on Middle.
pub proof fn lemma_right_passes_through_middle(cfg: SlideConfig, s: SlideState, es: Seq<u64>)
    requires
        cfg.wf(),
        s.wf(cfg),
        s.current < cfg.lanes.middle,
        run(cfg, s, Lateral::MoveRight, es).current > cfg.lanes.middle,
    ensures
        exists|k: int|
            0 < k < es.len() && #[trigger] run(cfg, s, Lateral::MoveRight, es.take(k)).current
                == cfg.lanes.middle,
    decreases es.len(),
{
    let prefix = es.drop_last();
    let before = run(cfg, s, Lateral::MoveRight, prefix);
    lemma_run_keeps_wf(cfg, s, Lateral::MoveRight, prefix);
    if before.current < cfg.lanes.middle {
        lemma_right_stops_at_middle(cfg, before, es.last());
    } else if before.current == cfg.lanes.middle {
        let k = es.len() - 1;
        assert(es.take(k) =~= prefix);
    } else {
        lemma_right_passes_through_middle(cfg, s, prefix);
        let k = choose|k: int|
            0 < k < prefix.len() && #[trigger] run(cfg, s, Lateral::MoveRight, prefix.take(k)).current
                == cfg.lanes.middle;
        assert(prefix.take(k) =~= es.take(k));
    }
}

proof fn lemma_step_positive(speed: u64, elapsed: u64)
    requires
        speed >= 1,
        elapsed >= 1,
    ensures
        step_length(speed, elapsed) >= 1,
{
    assert(speed as int * elapsed as int >= 1) by (nonlinear_arith)
        requires
            speed >= 1,
            elapsed >= 1,
    ;
}

/// One leftward tick of nonzero length moves a well-formed position at least
/// one unit left, never past Left, and ends at rest once it is on Left.
proof fn lemma_left_tick_progress(cfg: SlideConfig, s: SlideState, elapsed: u64)
    requires
        cfg.wf(),
        cfg.speed >= 1,
        elapsed >= 1,
        s.wf(cfg),
    ensures
        ({
            let t = spec_tick(cfg, s, Lateral::MoveLeft, elapsed);
            &&& t.wf(cfg)
            &&& (s.current > cfg.lanes.left ==> t.current <= s.current - 1)
            &&& (t.current == cfg.lanes.left ==> t == SlideState::rest_on(cfg.lanes.left))
        }),
{
    lemma_step_positive(cfg.speed, elapsed);
    crate::controller::lemma_tick_keeps_wf(cfg, s, Lateral::MoveLeft, elapsed);
}

proof fn lemma_left_run_progress(cfg: SlideConfig, s: SlideState, es: Seq<u64>)
    requires
        cfg.wf(),
        cfg.speed >= 1,
        s.wf(cfg),
        forall|i: int| 0 <= i < es.len() ==> #[trigger] es[i] >= 1,
    ensures
        ({
            let t = run(cfg, s, Lateral::MoveLeft, es);
            &&& t.wf(cfg)
            &&& t.current <= cfg.lanes.left || t.current <= s.current - es.len()
            &&& (es.len() > 0 && t.current == cfg.lanes.left ==> t == SlideState::rest_on(cfg.lanes.left))
        }),
    decreases es.len(),
{
    if es.len() > 0 {
        let prefix = es.drop_last();
        assert forall|i: int| 0 <= i < prefix.len() implies #[trigger] prefix[i] >= 1 by {
            assert(prefix[i] == es[i]);
        }
        lemma_left_run_progress(cfg, s, prefix);
        assert(es.last() == es[es.len() - 1]);
        lemma_left_tick_progress(cfg, run(cfg, s, Lateral::MoveLeft, prefix), es.last());
    }
}

/// Holding left from rest on Right with every tick at least one microsecond
/// long and a nonzero speed, the run comes to rest on Left after at most as many
/// ticks as there are units from Left to Right, and any further leftward ticks
/// leave it there.
pub proof fn lemma_left_from_right_converges(cfg: SlideConfig, es: Seq<u64>, more: Seq<u64>)
    requires
        cfg.wf(),
        cfg.speed >= 1,
        forall|i: int| 0 <= i < es.len() ==> #[trigger] es[i] >= 1,
        es.len() >= cfg.lanes.right - cfg.lanes.left,
    ensures
        run(cfg, SlideState::rest_on(cfg.lanes.right), Lateral::MoveLeft, es)
            == SlideState::rest_on(cfg.lanes.left),
        run(cfg, SlideState::rest_on(cfg.lanes.left), Lateral::MoveLeft, more)
            == SlideState::rest_on(cfg.lanes.left),
{
    lemma_left_run_progress(cfg, SlideState::rest_on(cfg.lanes.right), es);
    lemma_left_stays_on_left(cfg, more);
}

/// Holding left while at rest on Left never moves, whatever the tick lengths.
pub proof fn lemma_left_stays_on_left(cfg: SlideConfig, es: Seq<u64>)
    requires
        cfg.wf(),
    ensures
        run(cfg, SlideState::rest_on(cfg.lanes.left), Lateral::MoveLeft, es)
            == SlideState::rest_on(cfg.lanes.left),
    decreases es.len(),
{
    if es.len() > 0 {
        lemma_left_stays_on_left(cfg, es.drop_last());
        lemma_zero_direction_stays(cfg, SlideState::rest_on(cfg.lanes.left), Lateral::MoveLeft, es.last());
    }
}

/// Holding left from rest on Right, a tick long enough to cover Right to Middle
/// comes to rest on Middle, and a further tick long enough to cover Middle to
/// Left comes to rest on Left.
pub proof fn lemma_left_from_right_reaches_left(cfg: SlideConfig, e1: u64, e2: u64)
    requires
        cfg.wf(),
        step_length(cfg.speed, e1) >= cfg.lanes.right - cfg.lanes.middle,
        step_length(cfg.speed, e2) >= cfg.lanes.middle - cfg.lanes.left,
    ensures
        ({
            let start = SlideState { is_sliding: false, target: cfg.lanes.right, current: cfg.lanes.right };
            let mid = SlideState { is_sliding: false, target: cfg.lanes.middle, current: cfg.lanes.middle };
            let end = SlideState { is_sliding: false, target: cfg.lanes.left, current: cfg.lanes.left };
            &&& spec_tick(cfg, start, Lateral::MoveLeft, e1) == mid
            &&& spec_tick(cfg, mid, Lateral::MoveLeft, e2) == end
        }),
{
}

} // verus!
