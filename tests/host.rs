use dvd_saver::preview::{fill_client_area, plan_preview, ClientRect, Placement, PreviewPlan};

#[test]
fn second_preview_creates_no_window() {
    assert_eq!(plan_preview(true, Some(5)), PreviewPlan::Exit);
    assert_eq!(plan_preview(true, None), PreviewPlan::Exit);
}

#[test]
fn first_preview_embeds_or_floats() {
    assert_eq!(plan_preview(false, Some(5)), PreviewPlan::Embedded(5));
    assert_eq!(plan_preview(false, None), PreviewPlan::Standalone);
}

#[test]
fn placement_fills_client_area() {
    let r = ClientRect { left: 0, top: 0, right: 152, bottom: 112 };
    assert_eq!(fill_client_area(r), Some(Placement { x: 0, y: 0, width: 152, height: 112 }));
    let shifted = ClientRect { left: 10, top: 20, right: 30, bottom: 60 };
    assert_eq!(fill_client_area(shifted), Some(Placement { x: 0, y: 0, width: 20, height: 40 }));
    let bad = ClientRect { left: 5, top: 0, right: 1, bottom: 1 };
    assert_eq!(fill_client_area(bad), None);
    let huge = ClientRect { left: i32::MIN, top: 0, right: i32::MAX, bottom: 1 };
    assert_eq!(fill_client_area(huge), None);
}
