//! Options of DOM event listeners.
use vstd::prelude::*;

verus! {

/// The options an event listener is registered with.
#[derive(Debug, Clone, Copy, PartialEq, Eq, Structural)]
pub struct EventListenerOptions {
    /// Whether the listener runs in the capture phase.
    pub capture: bool,
    /// Whether the listener is removed after it runs once.
    pub once: bool,
    /// Whether the listener promises not to call `preventDefault`.
    pub passive: bool,
}

impl EventListenerOptions {
    /// The options of a listener registered with `EventListener::new`: bubble
    /// phase, every event, passive (for scrolling performance).
    pub fn new_listener() -> (r: Self)
        ensures
            r == (EventListenerOptions { capture: false, once: false, passive: true }),
    {
        EventListenerOptions { capture: false, once: false, passive: true }
    }

    /// The options of a listener registered with `EventListener::once`: bubble
    /// phase, a single event, passive.
    pub fn once_listener() -> (r: Self)
        ensures
            r == (EventListenerOptions { capture: false, once: true, passive: true }),
    {
        EventListenerOptions { capture: false, once: true, passive: true }
    }
}

} // verus!
