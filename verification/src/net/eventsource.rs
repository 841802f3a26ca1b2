use vstd::prelude::*;

verus! {

/// The state of an EventSource, as its `readyState` reports it.
#[derive(Debug, Copy, Clone, PartialEq, Eq, Structural, PartialOrd, Ord, Hash)]
pub enum State {
    /// The connection has not yet been established.
    Connecting,
    /// The connection is established and communication is possible.
    Open,
    /// The connection has been closed or could not be opened.
    Closed,
}

/// The lower-case name of a state.
pub open spec fn state_name(s: State) -> Seq<char> {
    match s {
        State::Connecting => seq!['c', 'o', 'n', 'n', 'e', 'c', 't', 'i', 'n', 'g'],
        State::Open => seq!['o', 'p', 'e', 'n'],
        State::Closed => seq!['c', 'l', 'o', 's', 'e', 'd'],
    }
}

/// The `readyState` number of a state.
pub open spec fn state_code(s: State) -> u16 {
    match s {
        State::Connecting => 0,
        State::Open => 1,
        State::Closed => 2,
    }
}

impl State {
    /// Returns the state as a `&'static str`.
    pub fn as_str(&self) -> (r: &'static str)
        ensures
            r@ == state_name(*self),
    {
        match self {
            State::Connecting => {
                proof { reveal_strlit("connecting"); }
                "connecting"
            },
            State::Open => {
                proof { reveal_strlit("open"); }
                "open"
            },
            State::Closed => {
                proof { reveal_strlit("closed"); }
                "closed"
            },
        }
    }

    /// The state that a `readyState` number stands for.
    pub fn from_ready_state(state: u16) -> (r: State)
        requires
            state < 3,
        ensures
            state_code(r) == state,
    {
        if state == 0 {
            State::Connecting
        } else if state == 1 {
            State::Open
        } else {
            State::Closed
        }
    }

    /// The `readyState` number of this state.
    pub fn ready_state(&self) -> (r: u16)
        ensures
            r == state_code(*self),
    {
        match self {
            State::Connecting => 0,
            State::Open => 1,
            State::Closed => 2,
        }
    }
}

/// Error returned by an EventSource.
#[derive(Debug, Clone, Eq, PartialEq, Structural)]
#[non_exhaustive]
pub enum EventSourceError {
    /// The `error` event.
    ConnectionError,
}

impl EventSourceError {
    /// The message that describes this error.
    pub fn message(&self) -> (r: &'static str)
        ensures
            r@ == seq!['E', 'v', 'e', 'n', 't', 'S', 'o', 'u', 'r', 'c', 'e', ' ', 'c', 'o', 'n',
                'n', 'e', 'c', 't', 'i', 'o', 'n', ' ', 'f', 'a', 'i', 'l', 'e', 'd'],
    {
        proof { reveal_strlit("EventSource connection failed"); }
        "EventSource connection failed"
    }
}

impl From<State> for u16 {
    /// The `readyState` number of a state.
    fn from(state: State) -> (r: u16) {
        state.ready_state()
    }
}

impl vstd::std_specs::convert::FromSpecImpl<State> for u16 {
    open spec fn obeys_from_spec() -> bool {
        true
    }

    open spec fn from_spec(state: State) -> u16 {
        state_code(state)
    }
}

/// Whether a subscription passes an `error` event on to its stream, given the
/// `readyState` of the event's target (`None` when it has none): an error while
/// the source is connecting again is not passed on, any other is.
pub fn forwards_error(target_ready_state: Option<u16>) -> (r: bool)
    ensures
        r == (target_ready_state != Some(state_code(State::Connecting))),
{
    match target_ready_state {
        Some(s) => s != 0,
        None => true,
    }
}

/// A state's number gives that state back, and distinct states have distinct
/// names and numbers.
pub proof fn lemma_state_codes(s: State, t: State)
    ensures
        state_code(s) < 3,
        (state_code(s) == state_code(t)) == (s == t),
        (state_name(s) == state_name(t)) == (s == t),
{
    if s != t {
        assert(state_name(s).len() != state_name(t).len());
    }
}

/// An EventSource's states carry the numbers of `EventSource.readyState`:
/// `CONNECTING` 0, `OPEN` 1 and `CLOSED` 2.
pub proof fn lemma_ready_state_numbers()
    ensures
        state_code(State::Connecting) == 0,
        state_code(State::Open) == 1,
        state_code(State::Closed) == 2,
{
}

} // verus!
