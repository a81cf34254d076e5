use dvd_saver::picker::PathPicker;

#[test]
fn only_one_picker_at_a_time() {
    let mut p = PathPicker::new();
    assert!(p.request());
    assert!(!p.request());
    let mut path = "old.png".to_string();
    p.receive(None, &mut path);
    assert_eq!(path, "old.png");
    assert!(p.request());
    p.receive(Some("new.png".to_string()), &mut path);
    assert_eq!(path, "new.png");
    assert!(!p.in_flight);
}
