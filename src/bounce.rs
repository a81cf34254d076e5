use vstd::prelude::*;

verus! {

/// Microseconds in one second: the unit of the time step.
pub const MICROS_PER_SECOND: u64 = 1_000_000;

/// The extent of the viewport along one axis, `lo` below `hi`.
#[derive(Debug, Clone, Copy, PartialEq, Eq)]
pub struct Span {
    pub lo: i64,
    pub hi: i64,
}

/// The body's motion along one axis: centre, half extent, speed in units per second
/// and whether it moves towards `hi`.
#[derive(Debug, Clone, Copy, PartialEq, Eq)]
pub struct Axis {
    pub center: i64,
    pub half: i64,
    pub speed: u64,
    pub ascending: bool,
}

/// A viewport edge that the body struck.
#[derive(Debug, Clone, Copy, PartialEq, Eq)]
pub enum Edge {
    Left,
    Right,
    Bottom,
    Top,
}

impl Axis {
    /// The body lies within `span` on this axis.
    pub open spec fn inside(self, span: Span) -> bool {
        self.half >= 0 && span.lo <= self.center - self.half && self.center + self.half <= span.hi
    }
}

/// Distance covered at `speed` units per second in `dt` microseconds.
pub open spec fn travel(speed: u64, dt: u32) -> int {
    (speed as int * dt as int) / (MICROS_PER_SECOND as int)
}

/// The centre after the tentative move, before any collision is resolved.
pub open spec fn moved(a: Axis, dt: u32) -> int {
    if a.ascending {
        a.center + travel(a.speed, dt)
    } else {
        a.center - travel(a.speed, dt)
    }
}

/// The moved body reaches or passes the low edge.
pub open spec fn hits_low(a: Axis, span: Span, dt: u32) -> bool {
    moved(a, dt) - a.half <= span.lo
}

pub open spec fn after_low(a: Axis, span: Span, dt: u32) -> int {
    if hits_low(a, span, dt) {
        span.lo + a.half
    } else {
        moved(a, dt)
    }
}

/// After the low edge is resolved, the body reaches or passes the high edge.
pub open spec fn hits_high(a: Axis, span: Span, dt: u32) -> bool {
    after_low(a, span, dt) + a.half >= span.hi
}

/// One time step along one axis: move, then put the body back on each edge it
/// crossed and point its velocity inwards. Only the direction ever changes.
pub open spec fn step_axis(a: Axis, span: Span, dt: u32) -> Axis {
    Axis {
        center: if hits_high(a, span, dt) {
            (span.hi - a.half) as i64
        } else {
            after_low(a, span, dt) as i64
        },
        half: a.half,
        speed: a.speed,
        ascending: if hits_high(a, span, dt) {
            false
        } else if hits_low(a, span, dt) {
            true
        } else {
            a.ascending
        },
    }
}

pub open spec fn edge_if(hit: bool, e: Edge) -> Seq<Edge> {
    if hit {
        seq![e]
    } else {
        seq![]
    }
}

/// The bounce events of one step, one for each edge struck, in the order left,
/// right, bottom, top.
pub open spec fn step_events(s: Simulation, dt: u32) -> Seq<Edge> {
    edge_if(hits_low(s.x, s.horizontal, dt), Edge::Left) + edge_if(
        hits_high(s.x, s.horizontal, dt),
        Edge::Right,
    ) + edge_if(hits_low(s.y, s.vertical, dt), Edge::Bottom) + edge_if(
        hits_high(s.y, s.vertical, dt),
        Edge::Top,
    )
}

/// A rectangular body bouncing inside a fixed viewport.
#[derive(Debug, Clone, Copy, PartialEq, Eq)]
pub struct Simulation {
    pub x: Axis,
    pub y: Axis,
    pub horizontal: Span,
    pub vertical: Span,
}

impl Simulation {
    /// The body lies entirely within the viewport.
    pub open spec fn wf(self) -> bool {
        self.x.inside(self.horizontal) && self.y.inside(self.vertical)
    }

    /// A body of the given half extents at the middle of the viewport, moving up and
    /// to the right at the given speeds; `None` when it does not fit.
    pub fn centered(
        horizontal: Span,
        vertical: Span,
        half_w: i64,
        half_h: i64,
        speed_x: u64,
        speed_y: u64,
    ) -> (r: Option<Simulation>)
        ensures
            r is Some <==> (0 <= half_w && 2 * half_w <= horizontal.hi - horizontal.lo && 0
                <= half_h && 2 * half_h <= vertical.hi - vertical.lo),
            r matches Some(s) ==> {
                &&& s.wf()
                &&& s.horizontal == horizontal && s.vertical == vertical
                &&& s.x == (Axis {
                    center: (horizontal.lo + (horizontal.hi - horizontal.lo) / 2) as i64,
                    half: half_w,
                    speed: speed_x,
                    ascending: true,
                })
                &&& s.y == (Axis {
                    center: (vertical.lo + (vertical.hi - vertical.lo) / 2) as i64,
                    half: half_h,
                    speed: speed_y,
                    ascending: true,
                })
            },
    {
        let fits_x = 0 <= half_w && (horizontal.hi as i128) - (horizontal.lo as i128) >= 2
            * half_w as i128;
        let fits_y = 0 <= half_h && (vertical.hi as i128) - (vertical.lo as i128) >= 2
            * half_h as i128;
        if !fits_x || !fits_y {
            return None;
        }
        let cx = (horizontal.lo as i128 + (horizontal.hi as i128 - horizontal.lo as i128) / 2) as i64;
        let cy = (vertical.lo as i128 + (vertical.hi as i128 - vertical.lo as i128) / 2) as i64;
        Some(
            Simulation {
                x: Axis { center: cx, half: half_w, speed: speed_x, ascending: true },
                y: Axis { center: cy, half: half_h, speed: speed_y, ascending: true },
                horizontal,
                vertical,
            },
        )
    }

    /// Advances the body by `dt` microseconds, resolving collisions with the
    /// viewport edges. Returns one event per edge struck.
    pub fn advance(&mut self, dt: u32) -> (events: Vec<Edge>)
        requires
            old(self).wf(),
        ensures
            final(self).wf(),
            final(self).horizontal == old(self).horizontal,
            final(self).vertical == old(self).vertical,
            final(self).x.speed == old(self).x.speed,
            final(self).y.speed == old(self).y.speed,
            final(self).x == step_axis(old(self).x, old(self).horizontal, dt),
            final(self).y == step_axis(old(self).y, old(self).vertical, dt),
            events@ == step_events(*old(self), dt),
    {
        let mut events: Vec<Edge> = Vec::new();
        let (x, left, right) = advance_axis(self.x, self.horizontal, dt);
        let (y, bottom, top) = advance_axis(self.y, self.vertical, dt);
        if left {
            events.push(Edge::Left);
        }
        if right {
            events.push(Edge::Right);
        }
        if bottom {
            events.push(Edge::Bottom);
        }
        if top {
            events.push(Edge::Top);
        }
        assert(events@ =~= step_events(*old(self), dt));
        self.x = x;
        self.y = y;
        events
    }
}

/// A step that carries the body past the right and the top edge, and past neither
/// of the others, gives exactly those two events and leaves the body resting in that
/// corner, moving away from both edges.
pub proof fn lemma_corner_hit(s: Simulation, dt: u32)
    requires
        s.wf(),
        !hits_low(s.x, s.horizontal, dt),
        moved(s.x, dt) + s.x.half >= s.horizontal.hi,
        !hits_low(s.y, s.vertical, dt),
        moved(s.y, dt) + s.y.half >= s.vertical.hi,
    ensures
        step_events(s, dt) == seq![Edge::Right, Edge::Top],
        step_axis(s.x, s.horizontal, dt).center == s.horizontal.hi - s.x.half,
        step_axis(s.y, s.vertical, dt).center == s.vertical.hi - s.y.half,
        !step_axis(s.x, s.horizontal, dt).ascending,
        !step_axis(s.y, s.vertical, dt).ascending,
{
    assert(step_events(s, dt) =~= seq![Edge::Right, Edge::Top]);
}

/// One time step along one axis, with whether the low and the high edge were struck.
fn advance_axis(a: Axis, span: Span, dt: u32) -> (r: (Axis, bool, bool))
    requires
        a.inside(span),
    ensures
        r.0 == step_axis(a, span, dt),
        r.0.inside(span),
        r.1 == hits_low(a, span, dt),
        r.2 == hits_high(a, span, dt),
{
    assert(a.speed as int * dt as int <= u64::MAX as int * u32::MAX as int) by (nonlinear_arith)
        requires
            a.speed <= u64::MAX,
            dt <= u32::MAX,
    ;
    let dist: u128 = (a.speed as u128 * dt as u128) / (MICROS_PER_SECOND as u128);
    assert(dist <= 0x1_0000_0000_0000_0000_0000_0000) by (nonlinear_arith)
        requires
            dist == (a.speed as int * dt as int) / 1_000_000,
            a.speed <= u64::MAX,
            dt <= u32::MAX,
    ;
    let c: i128 = if a.ascending {
        a.center as i128 + dist as i128
    } else {
        a.center as i128 - dist as i128
    };
    let low = c - (a.half as i128) <= span.lo as i128;
    let c1: i128 = if low {
        span.lo as i128 + a.half as i128
    } else {
        c
    };
    let high = c1 + (a.half as i128) >= span.hi as i128;
    let center: i64 = if high {
        (span.hi - a.half) as i64
    } else {
        c1 as i64
    };
    let ascending = if high {
        false
    } else if low {
        true
    } else {
        a.ascending
    };
    (Axis { center, half: a.half, speed: a.speed, ascending }, low, high)
}

} // verus!
