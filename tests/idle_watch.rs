use dvd_saver::idle::{IdleWatch, InputEvent};

#[test]
fn input_during_startup_is_ignored() {
    let mut w = IdleWatch::new();
    assert!(!w.observe(50_000, InputEvent::KeyPressed));
    assert!(!w.observe(100_000, InputEvent::PointerMoved { x: 1, y: 2 }));
    assert_eq!(w.baseline, None);
}

#[test]
fn first_pointer_position_is_the_baseline() {
    let mut w = IdleWatch::new();
    assert!(!w.observe(200_000, InputEvent::PointerMoved { x: 1, y: 2 }));
    assert_eq!(w.baseline, Some((1, 2)));
    assert!(!w.observe(300_000, InputEvent::PointerMoved { x: 1, y: 2 }));
    assert!(!w.observe(300_000, InputEvent::Other));
    assert!(w.observe(400_000, InputEvent::PointerMoved { x: 1, y: 3 }));
    assert!(w.ended);
    assert!(w.observe(500_000, InputEvent::Other));
}

#[test]
fn buttons_keys_and_wheel_end_the_session() {
    for e in [InputEvent::ButtonPressed, InputEvent::KeyPressed, InputEvent::Scrolled] {
        let mut w = IdleWatch::new();
        assert!(w.observe(100_001, e));
    }
}
