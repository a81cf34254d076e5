use dvd_saver::session::{icon_bounds, preview_icon_bounds, start_simulation};

#[test]
fn full_screen_icon_bounds() {
    assert_eq!(icon_bounds(1920, 1080, 160_000), (307, 172));
    assert_eq!(icon_bounds(u32::MAX, 10, 2_000_000), (u32::MAX, 20));
}

#[test]
fn preview_icon_bounds_have_a_floor() {
    assert_eq!(preview_icon_bounds(true, 160_000), (40, 30));
    assert_eq!(preview_icon_bounds(false, 160_000), (64, 48));
    assert_eq!(preview_icon_bounds(true, 500_000), (100, 75));
}

#[test]
fn session_starts_centred() {
    let s = start_simulation(200, 150, 40, 30, 50_000_000, false);
    assert_eq!((s.horizontal.lo, s.horizontal.hi), (-100_000, 100_000));
    assert_eq!((s.vertical.lo, s.vertical.hi), (-75_000, 75_000));
    assert_eq!((s.x.center, s.y.center), (0, 0));
    assert_eq!((s.x.half, s.y.half), (20_000, 15_000));
    assert_eq!(s.x.speed, 50_000);
    let p = start_simulation(200, 150, 400, 30, 50_000_000, true);
    assert_eq!(p.x.half, 100_000);
    assert_eq!(p.y.speed, 25_000);
}
