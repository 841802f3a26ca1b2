use vstd::prelude::*;

verus! {

/// A handle on a callback registered on a history. The callback stays
/// registered as long as the handle lives.
#[must_use]
#[derive(Debug)]
pub struct HistoryListener<L> {
    pub(crate) listener: L,
}

impl<L> HistoryListener<L> {
    /// Wraps the strong reference that keeps a registered callback alive.
    pub fn new(listener: L) -> (r: Self)
        ensures
            r.spec_listener() == listener,
    {
        HistoryListener { listener }
    }

    /// The strong reference this handle holds.
    pub closed spec fn spec_listener(&self) -> L {
        self.listener
    }
}

} // verus!
