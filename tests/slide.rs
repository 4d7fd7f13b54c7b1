use lane_runner::controller::{LaneSlideController, SlideConfig, SlideState, TickOutput};
use lane_runner::input::{Intent, Lateral};
use lane_runner::lanes::LaneSet;

fn intent(lateral: Lateral) -> Intent {
    Intent { lateral, jump: false, roll: false, quit: false }
}

fn controller(is_sliding: bool, target: i64, current: i64) -> LaneSlideController {
    LaneSlideController::with_state(SlideConfig::standard(), SlideState { is_sliding, target, current })
        .unwrap()
}

#[test]
fn starts_at_rest_on_middle() {
    let c = LaneSlideController::new(SlideConfig::standard());
    assert_eq!(c.state(), SlideState { is_sliding: false, target: 0, current: 0 });
    assert_eq!(c.position(), 0);
    assert!(!c.is_sliding());
}

#[test]
fn move_right_from_middle_advances_half_a_unit() {
    let mut c = LaneSlideController::new(SlideConfig::standard());
    let out = c.tick(&intent(Lateral::MoveRight), true, 100_000);
    assert_eq!(out.position, 500);
    assert_eq!(c.state(), SlideState { is_sliding: true, target: 2500, current: 500 });
}

#[test]
fn near_target_snaps_and_stops() {
    let mut c = controller(true, 2500, 2400);
    let out = c.tick(&Intent::idle(), false, 1_000_000);
    assert_eq!(out.position, 2500);
    assert_eq!(c.state(), SlideState { is_sliding: false, target: 2500, current: 2500 });
}

#[test]
fn long_step_lands_exactly_on_target() {
    let mut c = controller(true, 2500, 1500);
    c.tick(&Intent::idle(), false, 1_000_000);
    assert_eq!(c.state(), SlideState { is_sliding: false, target: 2500, current: 2500 });
    let mut c = controller(true, -2500, -1500);
    c.tick(&Intent::idle(), false, 1_000_000);
    assert_eq!(c.state(), SlideState { is_sliding: false, target: -2500, current: -2500 });
}

#[test]
fn step_equal_to_distance_ends_slide() {
    let mut c = controller(true, 0, 500);
    c.tick(&Intent::idle(), false, 100_000);
    assert_eq!(c.state(), SlideState { is_sliding: false, target: 0, current: 0 });
}

#[test]
fn rest_is_unchanged_without_intent() {
    for lane in [-2500, 0, 2500] {
        let mut c = controller(false, lane, lane);
        for elapsed in [0, 16_667, 1_000_000, u64::MAX] {
            let out = c.tick(&Intent::idle(), true, elapsed);
            assert_eq!(out.position, lane);
            assert_eq!(c.state(), SlideState { is_sliding: false, target: lane, current: lane });
        }
    }
}

#[test]
fn push_past_outer_lane_keeps_position() {
    let mut c = controller(false, -2500, -2500);
    c.tick(&intent(Lateral::MoveLeft), false, 1_000_000);
    assert_eq!(c.state(), SlideState { is_sliding: false, target: -2500, current: -2500 });
    let mut c = controller(false, 2500, 2500);
    c.tick(&intent(Lateral::MoveRight), false, 1_000_000);
    assert_eq!(c.state(), SlideState { is_sliding: false, target: 2500, current: 2500 });
    let mut c = controller(false, 0, 0);
    let out = c.tick(&Intent { lateral: Lateral::Hold, jump: true, roll: true, quit: false }, true, 50_000);
    assert_eq!(out.position, 0);
    assert_eq!(c.state(), SlideState { is_sliding: false, target: 0, current: 0 });
}

#[test]
fn held_left_from_right_stops_on_middle_first() {
    let mut c = controller(false, 2500, 2500);
    let mut positions = Vec::new();
    while c.position() != -2500 {
        c.tick(&intent(Lateral::MoveLeft), false, 200_000);
        positions.push(c.position());
        assert!(positions.len() < 100);
    }
    assert_eq!(positions, vec![1500, 500, 0, -1000, -2000, -2500]);
}

#[test]
fn one_long_left_tick_from_right_only_reaches_middle() {
    let mut c = controller(false, 2500, 2500);
    c.tick(&intent(Lateral::MoveLeft), false, 10_000_000);
    assert_eq!(c.state(), SlideState { is_sliding: false, target: 0, current: 0 });
    c.tick(&intent(Lateral::MoveLeft), false, 10_000_000);
    assert_eq!(c.state(), SlideState { is_sliding: false, target: -2500, current: -2500 });
}

#[test]
fn right_from_left_lane_goes_to_middle() {
    let mut c = controller(false, -2500, -2500);
    c.tick(&intent(Lateral::MoveRight), false, 100_000);
    assert_eq!(c.state(), SlideState { is_sliding: true, target: 0, current: -2000 });
}

#[test]
fn retarget_midway_reverses() {
    let mut c = controller(true, 2500, 500);
    c.tick(&intent(Lateral::MoveLeft), false, 50_000);
    assert_eq!(c.state(), SlideState { is_sliding: true, target: 0, current: 250 });
}

#[test]
fn zero_elapsed_latches_target_without_moving() {
    let mut c = LaneSlideController::new(SlideConfig::standard());
    c.tick(&intent(Lateral::MoveLeft), false, 0);
    assert_eq!(c.state(), SlideState { is_sliding: true, target: -2500, current: 0 });
}

#[test]
fn jump_needs_ground_roll_and_quit_pass_through() {
    let mut c = LaneSlideController::new(SlideConfig::standard());
    let all = Intent { lateral: Lateral::Hold, jump: true, roll: true, quit: true };
    assert_eq!(
        c.tick(&all, true, 1000),
        TickOutput { position: 0, jump_requested: true, roll_requested: true, quit_requested: true }
    );
    assert_eq!(
        c.tick(&all, false, 1000),
        TickOutput { position: 0, jump_requested: false, roll_requested: true, quit_requested: true }
    );
    assert_eq!(
        c.tick(&Intent::idle(), true, 1000),
        TickOutput { position: 0, jump_requested: false, roll_requested: false, quit_requested: false }
    );
}

#[test]
fn rejects_malformed_states() {
    let cfg = SlideConfig::standard();
    let off_lane = SlideState { is_sliding: true, target: 1000, current: 0 };
    assert!(LaneSlideController::with_state(cfg, off_lane).is_none());
    let outside = SlideState { is_sliding: true, target: 2500, current: 2600 };
    assert!(LaneSlideController::with_state(cfg, outside).is_none());
    let idle_off_target = SlideState { is_sliding: false, target: 2500, current: 2400 };
    assert!(LaneSlideController::with_state(cfg, idle_off_target).is_none());
    let unordered = SlideConfig { lanes: LaneSet { left: 0, middle: 0, right: 10 }, speed: 1 };
    assert!(LaneSlideController::with_state(unordered, SlideState::at_rest(0)).is_none());
    assert!(SlideState { is_sliding: true, target: 0, current: 2400 }.is_well_formed(&cfg));
}

#[test]
fn extreme_lanes_and_speed_do_not_overflow() {
    let lanes = LaneSet::new(i64::MIN, 0, i64::MAX).unwrap();
    let cfg = SlideConfig { lanes, speed: u64::MAX };
    let mut c = LaneSlideController::with_state(cfg, SlideState::at_rest(i64::MIN)).unwrap();
    c.tick(&intent(Lateral::MoveRight), false, u64::MAX);
    assert_eq!(c.state(), SlideState { is_sliding: false, target: 0, current: 0 });
    c.tick(&intent(Lateral::MoveRight), false, 1);
    assert_eq!(c.state(), SlideState { is_sliding: true, target: i64::MAX, current: 18_446_744_073_710 });
}

#[test]
fn standard_config_values() {
    let cfg = SlideConfig::standard();
    assert_eq!(cfg.lanes, LaneSet { left: -2500, middle: 0, right: 2500 });
    assert_eq!(cfg.speed, 5000);
}

#[test]
fn held_right_from_left_stops_on_middle_first() {
    let mut c = controller(false, -2500, -2500);
    let mut positions = Vec::new();
    while c.position() != 2500 {
        c.tick(&intent(Lateral::MoveRight), false, 300_000);
        positions.push(c.position());
        assert!(positions.len() < 100);
    }
    assert_eq!(positions, vec![-1000, 0, 1500, 2500]);
}

#[test]
fn short_ticks_still_reach_left() {
    let mut c = controller(false, 2500, 2500);
    let mut ticks = 0;
    let mut last = c.position();
    while c.position() != -2500 {
        c.tick(&intent(Lateral::MoveLeft), false, 1);
        assert!(c.position() < last);
        last = c.position();
        ticks += 1;
        assert!(ticks <= 5000);
    }
    assert_eq!(ticks, 5000);
    c.tick(&intent(Lateral::MoveLeft), false, 1);
    assert_eq!(c.state(), SlideState { is_sliding: false, target: -2500, current: -2500 });
}

#[test]
fn partial_units_round_up() {
    let mut c = LaneSlideController::new(SlideConfig::standard());
    c.tick(&intent(Lateral::MoveRight), false, 333);
    assert_eq!(c.state(), SlideState { is_sliding: true, target: 2500, current: 2 });
}

#[test]
fn push_left_on_left_while_sliding_stays() {
    let mut c = controller(true, 0, -2500);
    let out = c.tick(&intent(Lateral::MoveLeft), false, 100_000);
    assert_eq!(out.position, -2500);
    assert_eq!(c.state(), SlideState { is_sliding: false, target: -2500, current: -2500 });
    let mut c = controller(true, 0, 2500);
    c.tick(&intent(Lateral::MoveRight), false, 100_000);
    assert_eq!(c.state(), SlideState { is_sliding: false, target: 2500, current: 2500 });
}
