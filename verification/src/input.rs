use vstd::prelude::*;

verus! {

/// What the driver's host loop needs to know about one input event.
///
/// The driver treats only a quit request as meaningful; every other event is
/// opaque to it and is forwarded to the caller unchanged.
#[derive(Clone, Copy, Debug, PartialEq, Eq, Structural)]
pub enum LoopEvent {
    /// The platform asked the process to quit (window close, signal, ...).
    QuitRequested,
    /// The escape key was pressed, which this loop also reads as a quit wish.
    EscapePressed,
    /// Any other event; the driver ignores it.
    Other,
}

/// Whether an event ends the loop.
pub open spec fn spec_requests_exit(e: LoopEvent) -> bool {
    e is QuitRequested || e is EscapePressed
}

/// Returns true exactly when the event should terminate the render loop:
/// on a platform quit request or an escape key press.
pub fn requests_exit(e: &LoopEvent) -> (r: bool)
    ensures
        r == spec_requests_exit(*e),
{
    match e {
        LoopEvent::QuitRequested => true,
        LoopEvent::EscapePressed => true,
        LoopEvent::Other => false,
    }
}

} // verus!
