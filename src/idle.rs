use vstd::prelude::*;

verus! {

/// Input seen during the first tenth of a second is ignored: windows often report
/// a spurious pointer event when they appear.
pub const STARTUP_GUARD_MICROS: u64 = 100_000;

/// User input as the interactive saver sees it.
#[derive(Debug, Clone, Copy, PartialEq, Eq)]
pub enum InputEvent {
    PointerMoved { x: i64, y: i64 },
    ButtonPressed,
    KeyPressed,
    Scrolled,
    Other,
}

/// Watches input and decides when the interactive session ends.
#[derive(Debug, Clone, Copy, PartialEq, Eq)]
pub struct IdleWatch {
    /// The first pointer position seen once listening.
    pub baseline: Option<(i64, i64)>,
    /// The session is over; this never reverts.
    pub ended: bool,
}

/// The watch after `e` arrives `elapsed` microseconds into the session.
pub open spec fn next_watch(w: IdleWatch, elapsed: u64, e: InputEvent) -> IdleWatch {
    if w.ended || elapsed <= STARTUP_GUARD_MICROS {
        w
    } else {
        match e {
            InputEvent::PointerMoved { x, y } => match w.baseline {
                None => IdleWatch { baseline: Some((x, y)), ended: false },
                Some(b) => IdleWatch { baseline: w.baseline, ended: b != (x, y) },
            },
            InputEvent::Other => w,
            _ => IdleWatch { baseline: w.baseline, ended: true },
        }
    }
}

impl IdleWatch {
    /// A watch that has seen nothing yet.
    pub fn new() -> (w: IdleWatch)
        ensures
            w.baseline is None,
            !w.ended,
    {
        IdleWatch { baseline: None, ended: false }
    }

    /// Takes one input event; returns whether the session must end.
    pub fn observe(&mut self, elapsed: u64, e: InputEvent) -> (quit: bool)
        ensures
            *final(self) == next_watch(*old(self), elapsed, e),
            quit == final(self).ended,
            old(self).ended ==> quit,
    {
        if self.ended || elapsed <= STARTUP_GUARD_MICROS {
            return self.ended;
        }
        match e {
            InputEvent::PointerMoved { x, y } => match self.baseline {
                None => {
                    self.baseline = Some((x, y));
                },
                Some(b) => {
                    self.ended = b.0 != x || b.1 != y;
                },
            },
            InputEvent::Other => {},
            _ => {
                self.ended = true;
            },
        }
        self.ended
    }
}

} // verus!
