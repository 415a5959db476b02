use vstd::prelude::*;

verus! {

/// A signal from the control surface.
#[derive(Clone, Copy, Debug, PartialEq, Eq, Structural)]
pub enum ControlEvent {
    /// "Open stats", or a primary click on the tray icon.
    OpenViewer,
    /// "Quit".
    Quit,
}

/// What one intake check does with the signals pending at that moment.
#[derive(Clone, Copy, Debug, PartialEq, Eq, Structural)]
pub struct IntakePlan {
    /// How many viewer launches to attempt.
    pub launches: usize,
    /// Whether the process ends once those launches were attempted.
    pub quit: bool,
}

/// Drains every pending signal in arrival order: each "open viewer" before
/// the first "quit" becomes one launch attempt (several are not merged into
/// one), and a "quit" ends the process, so nothing after it is handled.
pub fn plan_intake(events: &Vec<ControlEvent>) -> (r: IntakePlan)
    ensures
        r.launches <= events@.len(),
        forall|i: int| 0 <= i < r.launches ==> events@[i] == ControlEvent::OpenViewer,
        r.quit <==> r.launches < events@.len(),
        r.quit ==> events@[r.launches as int] == ControlEvent::Quit,
{
    let mut i: usize = 0;
    while i < events.len()
        invariant
            i <= events@.len(),
            forall|j: int| 0 <= j < i ==> events@[j] == ControlEvent::OpenViewer,
        decreases events@.len() - i,
    {
        match events[i] {
            ControlEvent::Quit => {
                return IntakePlan { launches: i, quit: true };
            },
            ControlEvent::OpenViewer => {},
        }
        i += 1;
    }
    IntakePlan { launches: i, quit: false }
}

} // verus!
