use dvd_saver::hue::{hue_distance, HueState};

#[test]
fn circular_distance_values() {
    assert_eq!(hue_distance(10, 350), 20);
    assert_eq!(hue_distance(0, 180), 180);
    assert_eq!(hue_distance(90, 30), 60);
    assert_eq!(hue_distance(5, 5), 0);
}

#[test]
fn step_wraps_round_the_wheel() {
    let mut h = HueState::new();
    assert_eq!(h.hue, 0);
    assert_eq!(h.step_by(0), 60);
    assert_eq!(h.step_by(240), 0);
    let mut g = HueState { hue: 350 };
    assert_eq!(g.step_by(240), 290);
    assert_eq!(g.hue, 290);
}

#[test]
fn consecutive_hues_are_far_apart_and_in_range() {
    let mut h = HueState::new();
    let mut seen = [false; 360];
    for _ in 0..5000 {
        let before = h.hue;
        let after = h.recolor();
        assert!(after < 360);
        assert_eq!(after, h.hue);
        assert!(hue_distance(before, after) >= 60);
        seen[after as usize] = true;
    }
    assert!(seen.iter().filter(|s| **s).count() > 300);
}
