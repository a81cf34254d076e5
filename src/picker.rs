use vstd::prelude::*;

verus! {

/// Tracks the file picker of the settings dialog, which runs in the background:
/// only one may be open at a time, until its answer has been taken.
#[derive(Debug, Clone, Copy, PartialEq, Eq)]
pub struct PathPicker {
    pub in_flight: bool,
}

impl PathPicker {
    pub fn new() -> (p: PathPicker)
        ensures
            !p.in_flight,
    {
        PathPicker { in_flight: false }
    }

    /// Asks to open the picker; returns whether one may be started now.
    pub fn request(&mut self) -> (start: bool)
        ensures
            start == !old(self).in_flight,
            final(self).in_flight,
    {
        let start = !self.in_flight;
        self.in_flight = true;
        start
    }

    /// Takes the picker's answer: a chosen path replaces `path`; no choice (the
    /// user cancelled, or the picker failed) leaves it as it was.
    pub fn receive(&mut self, chosen: Option<String>, path: &mut String)
        ensures
            !final(self).in_flight,
            chosen matches Some(c) ==> final(path)@ == c@,
            chosen is None ==> final(path)@ == old(path)@,
    {
        self.in_flight = false;
        match chosen {
            Some(c) => {
                *path = c;
            },
            None => {},
        }
    }
}

} // verus!
