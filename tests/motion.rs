use dvd_saver::bounce::{Axis, Edge, Simulation, Span};

fn sim(x: i64, y: i64, half: i64, speed: u64, up: bool) -> Simulation {
    Simulation {
        x: Axis { center: x, half, speed, ascending: up },
        y: Axis { center: y, half, speed, ascending: up },
        horizontal: Span { lo: -100, hi: 100 },
        vertical: Span { lo: -100, hi: 100 },
    }
}

fn inside(s: &Simulation) -> bool {
    s.x.center - s.x.half >= s.horizontal.lo
        && s.x.center + s.x.half <= s.horizontal.hi
        && s.y.center - s.y.half >= s.vertical.lo
        && s.y.center + s.y.half <= s.vertical.hi
}

#[test]
fn corner_hit_gives_two_events_and_one_position() {
    let mut s = sim(85, 85, 10, 10_000_000, true);
    let events = s.advance(1000);
    assert_eq!(events, vec![Edge::Right, Edge::Top]);
    assert_eq!(s.x.center, 90);
    assert_eq!(s.y.center, 90);
    assert!(!s.x.ascending && !s.y.ascending);
    assert!(inside(&s));
}

#[test]
fn free_flight_moves_by_speed_times_time() {
    let mut s = sim(0, 0, 10, 100, true);
    let events = s.advance(500_000);
    assert!(events.is_empty());
    assert_eq!((s.x.center, s.y.center), (50, 50));
}

#[test]
fn left_and_bottom_edges_push_inwards() {
    let mut s = sim(-85, -85, 10, 10_000_000, false);
    let events = s.advance(1000);
    assert_eq!(events, vec![Edge::Left, Edge::Bottom]);
    assert_eq!((s.x.center, s.y.center), (-90, -90));
    assert!(s.x.ascending && s.y.ascending);
}

#[test]
fn long_steps_stay_inside_and_keep_speed() {
    let mut s = sim(3, -7, 15, 123_456_789, true);
    for dt in [0u32, 1, 999, 16_667, 1_000_000, u32::MAX] {
        s.advance(dt);
        assert!(inside(&s));
        assert_eq!(s.x.speed, 123_456_789);
        assert_eq!(s.y.speed, 123_456_789);
    }
}

#[test]
fn zero_step_at_rest_position_changes_nothing() {
    let mut s = sim(5, 5, 10, 1000, true);
    let before = s;
    assert!(s.advance(0).is_empty());
    assert_eq!(s, before);
}

#[test]
fn centered_start_and_oversized_body() {
    let h = Span { lo: -100, hi: 100 };
    let v = Span { lo: 0, hi: 50 };
    let s = Simulation::centered(h, v, 20, 5, 7, 9).unwrap();
    assert_eq!((s.x.center, s.y.center), (0, 25));
    assert!(s.x.ascending && s.y.ascending);
    assert_eq!(Simulation::centered(h, v, 20, 26, 7, 9), None);
    assert_eq!(Simulation::centered(h, v, -1, 5, 7, 9), None);
}
