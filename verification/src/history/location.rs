use vstd::prelude::*;

use crate::history::query::FromQuery;

verus! {

/// A history location: the path, query and hash of a URL, the state stored with
/// the entry, and the id of the entry.
#[derive(Debug)]
pub struct Location<S> {
    pub(crate) path: String,
    pub(crate) query_str: String,
    pub(crate) hash: String,
    pub(crate) state: Option<S>,
    pub(crate) id: Option<u32>,
}

/// The part of a query string that a query decoder reads: what follows a
/// leading `?`, or nothing when there is no leading `?`.
pub open spec fn query_body(query_str: Seq<char>) -> Seq<char> {
    if query_str.len() > 0 && query_str[0] == '?' {
        query_str.subrange(1, query_str.len() as int)
    } else {
        Seq::empty()
    }
}

impl<S> Location<S> {
    /// The path of this location.
    pub closed spec fn spec_path(&self) -> Seq<char> {
        self.path@
    }

    /// The query string of this location, with its leading `?`.
    pub closed spec fn spec_query_str(&self) -> Seq<char> {
        self.query_str@
    }

    /// The hash fragment of this location.
    pub closed spec fn spec_hash(&self) -> Seq<char> {
        self.hash@
    }

    /// The state stored with this location.
    pub closed spec fn spec_state(&self) -> Option<S> {
        self.state
    }

    /// The id of this location.
    pub closed spec fn spec_id(&self) -> Option<u32> {
        self.id
    }

    /// Creates a location from its parts.
    pub fn new(path: String, query_str: String, hash: String, state: Option<S>, id: Option<
        u32,
    >) -> (r: Self)
        ensures
            r.spec_path() == path@,
            r.spec_query_str() == query_str@,
            r.spec_hash() == hash@,
            r.spec_state() == state,
            r.spec_id() == id,
    {
        Location { path, query_str, hash, state, id }
    }

    /// Returns the unique id of this location, or `None` if the location was not
    /// created by this library.
    pub fn id(&self) -> (r: Option<u32>)
        ensures
            r == self.spec_id(),
    {
        self.id
    }

    /// Returns the `pathname` of this location.
    pub fn path(&self) -> (r: &str)
        ensures
            r@ == self.spec_path(),
    {
        self.path.as_str()
    }

    /// Returns the query string of this location, with its leading `?`.
    pub fn query_str(&self) -> (r: &str)
        ensures
            r@ == self.spec_query_str(),
    {
        self.query_str.as_str()
    }

    /// Returns the hash fragment of this location.
    pub fn hash(&self) -> (r: &str)
        ensures
            r@ == self.spec_hash(),
    {
        self.hash.as_str()
    }

    /// Returns the state stored with this location, if any.
    pub fn state(&self) -> (r: Option<&S>)
        ensures
            match r {
                Some(s) => self.spec_state() == Some(*s),
                None => self.spec_state() is None,
            },
    {
        match &self.state {
            Some(s) => Some(s),
            None => None,
        }
    }

    /// Returns the query of this location decoded by the strategy `Q`.
    pub fn query<Q: FromQuery>(&self) -> (r: Result<Q::Target, Q::Error>)
        ensures
            (r is Ok) == Q::spec_decodable(query_body(self.spec_query_str())),
            r matches Ok(t) ==> Q::spec_decodes(query_body(self.spec_query_str()), t),
    {
        let n = self.query_str.as_str().unicode_len();
        if n > 0 && self.query_str.as_str().get_char(0) == '?' {
            let body = self.query_str.as_str().substring_char(1, n);
            Q::from_query(body)
        } else {
            let body = "";
            proof {
                reveal_strlit("");
                assert(body@ =~= query_body(self.spec_query_str()));
            }
            Q::from_query(body)
        }
    }

    /// Whether two locations are the same entry: both have an id and the ids
    /// are equal.
    pub fn same_entry(&self, rhs: &Self) -> (r: bool)
        ensures
            r == same_location(self.spec_id(), rhs.spec_id()),
    {
        match (self.id, rhs.id) {
            (Some(a), Some(b)) => a == b,
            _ => false,
        }
    }
}

/// Two locations are equal when both carry an id and the ids agree.
pub open spec fn same_location(a: Option<u32>, b: Option<u32>) -> bool {
    match (a, b) {
        (Some(x), Some(y)) => x == y,
        _ => false,
    }
}

impl<S> PartialEq for Location<S> {
    fn eq(&self, rhs: &Self) -> (r: bool) {
        self.same_entry(rhs)
    }
}

impl<S> vstd::std_specs::cmp::PartialEqSpecImpl for Location<S> {
    open spec fn obeys_eq_spec() -> bool {
        true
    }

    open spec fn eq_spec(&self, rhs: &Self) -> bool {
        same_location(self.spec_id(), rhs.spec_id())
    }
}

/// Location equality is symmetric, and a location without an id equals no
/// location, not even itself.
pub proof fn lemma_location_eq<S>(a: Location<S>, b: Location<S>)
    ensures
        same_location(a.spec_id(), b.spec_id()) == same_location(b.spec_id(), a.spec_id()),
        a.spec_id() is None ==> !same_location(a.spec_id(), a.spec_id()),
        a.spec_id() is Some ==> same_location(a.spec_id(), a.spec_id()),
{
}

} // verus!
