use vstd::prelude::*;

use std::collections::HashMap;

verus! {

broadcast use vstd::std_specs::hash::group_hash_axioms;

/// The states of a browser history's entries, by entry id. The browser stores
/// only the id with each entry; the state it stands for is kept here.
#[derive(Debug)]
pub struct EntryStates<S> {
    states: HashMap<u32, S>,
}

/// The table after the entry `id` was created with `state`: an entry without
/// state leaves the table as it was.
pub open spec fn recorded<S>(table: Map<u32, S>, id: u32, state: Option<S>) -> Map<u32, S> {
    match state {
        Some(s) => table.insert(id, s),
        None => table,
    }
}

/// The state found for an entry of id `id` (`None` when the entry has no id or
/// no state was recorded for it).
pub open spec fn state_found<S>(table: Map<u32, S>, id: Option<u32>) -> Option<S> {
    match id {
        Some(i) => if table.contains_key(i) {
            Some(table[i])
        } else {
            None
        },
        None => None,
    }
}

impl<S> View for EntryStates<S> {
    type V = Map<u32, S>;

    closed spec fn view(&self) -> Map<u32, S> {
        self.states@
    }
}

impl<S> EntryStates<S> {
    /// An empty table.
    pub fn new() -> (r: Self)
        ensures
            r@ == Map::<u32, S>::empty(),
    {
        EntryStates { states: HashMap::new() }
    }

    /// Records the state of the new entry `id`, if it has one.
    pub fn record(&mut self, id: u32, state: Option<S>)
        ensures
            final(self)@ == recorded(old(self)@, id, state),
    {
        match state {
            Some(s) => {
                self.states.insert(id, s);
            },
            None => {},
        }
    }

    /// The state recorded for the entry of id `id`, if any.
    pub fn state_of(&self, id: Option<u32>) -> (r: Option<&S>)
        ensures
            r == match state_found(self@, id) {
                Some(s) => Some(&s),
                None => None::<&S>,
            },
    {
        match id {
            Some(i) => self.states.get(&i),
            None => None,
        }
    }
}

/// An entry's state is found under its id once it has been recorded, and
/// recording it changes what is found for no other id.
pub proof fn lemma_state_found_after_record<S>(
    table: Map<u32, S>,
    id: u32,
    state: Option<S>,
    other: Option<u32>,
)
    ensures
        state is Some ==> state_found(recorded(table, id, state), Some(id)) == state,
        other != Some(id) ==> state_found(recorded(table, id, state), other) == state_found(
            table,
            other,
        ),
        state_found(recorded(table, id, state), None) is None,
{
}

} // verus!
