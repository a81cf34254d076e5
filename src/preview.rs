use vstd::prelude::*;

verus! {

/// What a preview request should do.
#[derive(Debug, Clone, Copy, PartialEq, Eq)]
pub enum PreviewPlan {
    /// Another preview is already running: create no window and exit.
    Exit,
    /// Run inside the host window with this handle.
    Embedded(i64),
    /// Run as a small floating window.
    Standalone,
}

/// Decides a preview request, given whether a preview was already running when
/// this one claimed the single-instance flag.
pub fn plan_preview(already_running: bool, handle: Option<i64>) -> (p: PreviewPlan)
    ensures
        already_running ==> p == PreviewPlan::Exit,
        !already_running ==> p == (match handle {
            Some(h) => PreviewPlan::Embedded(h),
            None => PreviewPlan::Standalone,
        }),
{
    if already_running {
        PreviewPlan::Exit
    } else {
        match handle {
            Some(h) => PreviewPlan::Embedded(h),
            None => PreviewPlan::Standalone,
        }
    }
}

/// The client area of a host window, as the window system reports it.
#[derive(Debug, Clone, Copy, PartialEq, Eq)]
pub struct ClientRect {
    pub left: i32,
    pub top: i32,
    pub right: i32,
    pub bottom: i32,
}

/// Where the embedded preview goes inside its host: at the origin of the client
/// area, filling it.
#[derive(Debug, Clone, Copy, PartialEq, Eq)]
pub struct Placement {
    pub x: i32,
    pub y: i32,
    pub width: i32,
    pub height: i32,
}

/// The placement that fills `r`; `None` when its size is not representable or
/// negative, in which case the preview stays a floating window.
pub fn fill_client_area(r: ClientRect) -> (p: Option<Placement>)
    ensures
        p is Some <==> (0 <= r.right - r.left <= i32::MAX && 0 <= r.bottom - r.top
            <= i32::MAX),
        p matches Some(q) ==> q == (Placement {
            x: 0,
            y: 0,
            width: (r.right - r.left) as i32,
            height: (r.bottom - r.top) as i32,
        }),
{
    let w: i64 = r.right as i64 - r.left as i64;
    let h: i64 = r.bottom as i64 - r.top as i64;
    if w < 0 || w > i32::MAX as i64 || h < 0 || h > i32::MAX as i64 {
        None
    } else {
        Some(Placement { x: 0, y: 0, width: w as i32, height: h as i32 })
    }
}

} // verus!
