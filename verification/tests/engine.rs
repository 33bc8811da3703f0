use midi_motion::engine::{
    hsv_to_rgb, hue_from_total_motion, AnimationState, Step, COLOR_DENOM, HISTORY_CAP,
    KEYFRAME_US,
};

#[test]
fn construction_sets_first_target_and_hue() {
    let s = AnimationState::new(vec![[10, 20, 30, 40]]);
    assert_eq!(s.current_position, [0, 0, 0]);
    assert_eq!(s.target_position, [200, 300, 400]);
    assert_eq!(s.current_index, 0);
    assert_eq!(s.progress_us, 0);
    // hue of total motion 10: |10 * 3| mod 100 hundredths of a turn
    assert_eq!(s.current_hue, 30);
    assert_eq!(s.target_hue, 30);
    assert!(s.position_history.is_empty());
}

#[test]
fn hue_from_total_motion_is_scaled_absolute_value_mod_one_turn() {
    assert_eq!(hue_from_total_motion(10), 30);
    assert_eq!(hue_from_total_motion(-1), 3);
    assert_eq!(hue_from_total_motion(70), 10);
    assert_eq!(hue_from_total_motion(0), 0);
}

#[test]
fn zero_delta_never_changes_state() {
    let mut s = AnimationState::new(vec![[5, 1, 2, 3], [7, 4, 5, 6]]);
    s.advance(60_000);
    let before = (
        s.current_position,
        s.target_position,
        s.current_index,
        s.progress_us,
        s.current_hue,
        s.target_hue,
        s.position_history.clone(),
        s.timer_us,
    );
    for _ in 0..50 {
        assert_eq!(s.advance(0), Step::Continue);
    }
    let after = (
        s.current_position,
        s.target_position,
        s.current_index,
        s.progress_us,
        s.current_hue,
        s.target_hue,
        s.position_history.clone(),
        s.timer_us,
    );
    assert_eq!(before, after);
}

#[test]
fn progress_accumulates_and_resets_at_boundary() {
    let mut s = AnimationState::new(vec![[0, 1, 0, 0], [0, 1, 0, 0], [0, 1, 0, 0]]);
    assert_eq!(s.advance(60_000), Step::Continue);
    assert_eq!(s.progress_us, 60_000);
    assert_eq!(s.advance(60_000), Step::Continue);
    assert_eq!(s.progress_us, 120_000);
    assert_eq!(s.current_index, 0);
    // Crossing the boundary resets progress and steps the index by one.
    assert_eq!(s.advance(10_000), Step::Continue);
    assert_eq!(s.progress_us, 0);
    assert_eq!(s.current_index, 1);
}

#[test]
fn one_boundary_per_call_even_for_huge_delta() {
    let mut s = AnimationState::new(vec![[0, 1, 0, 0], [0, 1, 0, 0], [0, 1, 0, 0]]);
    // Ten keyframes worth of time still crosses a single boundary.
    assert_eq!(s.advance(10 * KEYFRAME_US), Step::Continue);
    assert_eq!(s.current_index, 1);
    assert_eq!(s.progress_us, 0);
}

#[test]
fn boundary_moves_current_to_target_and_appends_history() {
    let mut s = AnimationState::new(vec![[0, 100, 0, 0], [0, 0, 100, 0]]);
    assert_eq!(s.target_position, [1000, 0, 0]);
    assert_eq!(s.advance(KEYFRAME_US), Step::Continue);
    assert_eq!(s.current_position, [1000, 0, 0]);
    assert_eq!(s.target_position, [1000, 1000, 0]);
    assert_eq!(s.position_history, vec![[1000, 0, 0]]);
}

#[test]
fn stop_comes_exactly_when_index_reaches_the_count() {
    let mut s = AnimationState::new(vec![[1, 1, 1, 1], [2, 2, 2, 2]]);
    let mut stops = 0;
    let mut calls = 0;
    loop {
        calls += 1;
        match s.advance(KEYFRAME_US) {
            Step::Continue => (),
            Step::Stop => {
                stops += 1;
                break;
            }
        }
    }
    assert_eq!(stops, 1);
    assert_eq!(calls, 2);
    assert_eq!(s.current_index, 2);
}

#[test]
fn advance_after_stop_is_a_noop_that_keeps_reporting_stop() {
    let mut s = AnimationState::new(vec![[1, 1, 1, 1]]);
    assert_eq!(s.advance(KEYFRAME_US), Step::Stop);
    let index = s.current_index;
    let history_len = s.position_history.len();
    assert_eq!(s.advance(KEYFRAME_US), Step::Stop);
    assert_eq!(s.current_index, index);
    assert_eq!(s.position_history.len(), history_len);
}

#[test]
fn history_is_bounded_and_evicts_oldest_first() {
    let motions = vec![[0, 1, 0, 0]; 150];
    let mut s = AnimationState::new(motions);
    for _ in 0..150 {
        s.advance(KEYFRAME_US);
        assert!(s.position_history.len() <= HISTORY_CAP);
    }
    assert_eq!(s.position_history.len(), HISTORY_CAP);
    // 150 boundaries were visited; the first 50 positions (10..=500 on the
    // x axis) have been evicted, oldest first.
    assert_eq!(s.position_history[0], [510, 0, 0]);
    assert_eq!(s.position_history[99], [1500, 0, 0]);
}

#[test]
fn interpolated_position_is_linear_in_progress() {
    let mut s = AnimationState::new(vec![[0, 100, 0, 0]]);
    s.advance(62_500);
    // Halfway towards x = 1000: the sample is a numerator over KEYFRAME_US.
    let p = s.interpolated_position();
    assert_eq!(p, [500 * KEYFRAME_US as i128, 0, 0]);
}

#[test]
fn hue_interpolation_wraps_through_zero() {
    // current hue 0.9, target hue 0.1: at progress one half the shorter arc
    // passes through 0.0, not 0.5.
    let mut s = AnimationState::new(vec![[30, 0, 0, 0], [70, 0, 0, 0]]);
    assert_eq!(s.advance(KEYFRAME_US), Step::Continue);
    assert_eq!(s.current_hue, 90);
    assert_eq!(s.target_hue, 10);
    s.advance(62_500);
    assert_eq!(s.interpolated_hue(), 0);
}

#[test]
fn hue_interpolation_takes_direct_arc_when_short() {
    // current hue 0.3, target 0.6: at progress one half the hue is 0.45.
    let mut s = AnimationState::new(vec![[10, 0, 0, 0], [20, 0, 0, 0]]);
    assert_eq!(s.advance(KEYFRAME_US), Step::Continue);
    assert_eq!(s.current_hue, 30);
    assert_eq!(s.target_hue, 60);
    s.advance(62_500);
    // 0.45 of a turn over the denominator
    assert_eq!(s.interpolated_hue(), COLOR_DENOM * 45 / 100);
}

#[test]
fn hsv_conversion_hits_the_primary_colors() {
    assert_eq!(hsv_to_rgb(0), [COLOR_DENOM, 0, 0]);
    // half a turn: cyan
    assert_eq!(hsv_to_rgb(COLOR_DENOM / 2), [0, COLOR_DENOM, COLOR_DENOM]);
    // inside the first sector the green component ramps up linearly:
    // at hue 1_000_000 / COLOR_DENOM it is six times the hue numerator
    assert_eq!(hsv_to_rgb(1_000_000), [COLOR_DENOM, 6_000_000, 0]);
}

#[test]
fn timer_accumulates_elapsed_time() {
    let mut s = AnimationState::new(vec![[1, 1, 1, 1], [2, 2, 2, 2]]);
    s.advance(1_000);
    s.advance(2_000);
    assert_eq!(s.timer_us, 3_000);
}
