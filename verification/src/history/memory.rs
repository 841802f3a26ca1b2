use vstd::prelude::*;

use std::collections::VecDeque;

use crate::history::location::{query_body, same_location, Location};
use crate::history::query::ToQuery;
use crate::history::utils::{is_absolute_path, is_memory_route, random_id_seed};
use crate::text::seq_has_char;

verus! {

/// The index that moving `delta` entries from `index` reaches in a history of
/// `len` entries. A move that would leave the history does nothing, as
/// `History.go` does in browsers.
pub open spec fn go_index(index: int, delta: int, len: int) -> int {
    if 0 <= index + delta < len {
        index + delta
    } else {
        index
    }
}

/// A history stack: the entries before the current one, the current entry and
/// the entries after it.
#[derive(Debug)]
struct LocationStack<S> {
    prev: Vec<Location<S>>,
    next: VecDeque<Location<S>>,
    current: Location<S>,
}

impl<S> LocationStack<S> {
    /// All entries, oldest first.
    spec fn entries(&self) -> Seq<Location<S>> {
        self.prev@.push(self.current) + self.next@
    }

    /// The position of the current entry.
    spec fn index(&self) -> int {
        self.prev@.len() as int
    }

    fn current(&self) -> (r: &Location<S>)
        ensures
            *r == self.entries()[self.index()],
    {
        &self.current
    }

    fn len(&self) -> (r: usize)
        requires
            self.entries().len() <= usize::MAX,
        ensures
            r == self.entries().len(),
    {
        self.prev.len() + self.next.len() + 1
    }

    fn go(&mut self, delta: isize)
        ensures
            final(self).entries() == old(self).entries(),
            final(self).index() == go_index(
                old(self).index(),
                delta as int,
                old(self).entries().len() as int,
            ),
    {
        let ghost all = self.entries();
        let ghost start = self.index();
        if delta > 0 {
            let steps = delta as usize;
            if steps <= self.next.len() {
                let mut i: usize = 0;
                while i < steps
                    invariant
                        steps == delta,
                        start == old(self).index(),
                        start + steps < all.len(),
                        0 <= i <= steps,
                        self.entries() == all,
                        self.index() == start + i,
                    decreases steps - i,
                {
                    if let Some(mut m) = self.next.pop_front() {
                        std::mem::swap(&mut m, &mut self.current);
                        self.prev.push(m);
                        proof {
                            assert(self.entries() =~= all);
                        }
                    }
                    i = i + 1;
                }
            }
        } else if delta < 0 {
            let back: i128 = -(delta as i128);
            if back <= self.prev.len() as i128 {
                let steps = back as usize;
                let mut i: usize = 0;
                while i < steps
                    invariant
                        steps == -delta,
                        start == old(self).index(),
                        steps <= start,
                        0 <= i <= steps,
                        self.entries() == all,
                        self.index() == start - i,
                    decreases steps - i,
                {
                    if let Some(mut m) = self.prev.pop() {
                        std::mem::swap(&mut m, &mut self.current);
                        self.next.push_front(m);
                        proof {
                            assert(self.entries() =~= all);
                        }
                    }
                    i = i + 1;
                }
            }
        }
    }

    fn push(&mut self, location: Location<S>)
        ensures
            final(self).entries() == old(self).entries().subrange(0, old(self).index() + 1).push(
                location,
            ),
            final(self).index() == old(self).index() + 1,
    {
        let mut location = location;
        std::mem::swap(&mut location, &mut self.current);
        self.prev.push(location);
        self.next.clear();
        proof {
            assert(self.entries() =~= old(self).entries().subrange(0, old(self).index() + 1).push(
                self.current,
            ));
        }
    }

    fn replace(&mut self, location: Location<S>)
        ensures
            final(self).entries() == old(self).entries().update(old(self).index(), location),
            final(self).index() == old(self).index(),
    {
        self.current = location;
        proof {
            assert(self.entries() =~= old(self).entries().update(old(self).index(), location));
        }
    }
}


/// Whether `loc` is an entry with the given path, query string and state, no
/// hash, and the id `id`.
pub open spec fn entry_is<S>(
    loc: Location<S>,
    path: Seq<char>,
    query_str: Seq<char>,
    state: Option<S>,
    id: u32,
) -> bool {
    &&& loc.spec_path() == path
    &&& loc.spec_query_str() == query_str
    &&& loc.spec_hash() == Seq::<char>::empty()
    &&& loc.spec_state() == state
    &&& loc.spec_id() == Some(id)
}

/// An entry with no query, no hash and no state.
pub open spec fn plain_entry<S>(loc: Location<S>) -> bool {
    &&& loc.spec_query_str() == Seq::<char>::empty()
    &&& loc.spec_hash() == Seq::<char>::empty()
    &&& loc.spec_state() is None
}

/// A query string as a history stores it: empty, or `?` and the query.
pub open spec fn is_stored_query(query_str: Seq<char>) -> bool {
    query_str.len() == 0 || query_str[0] == '?'
}

/// An entry of an in-memory history: its path is a memory route, its query
/// string is empty or starts with `?`, and it has no hash.
pub open spec fn memory_entry<S>(loc: Location<S>) -> bool {
    &&& is_memory_route(loc.spec_path())
    &&& is_stored_query(loc.spec_query_str())
    &&& loc.spec_hash() == Seq::<char>::empty()
}

/// The query string that a history stores for an encoded query.
pub open spec fn query_string(query: Seq<char>) -> Seq<char> {
    seq!['?'] + query
}

/// A history kept in memory, usable on every target.
///
/// Every route must be an absolute path without query and fragment.
pub struct MemoryHistory<S> {
    inner: LocationStack<S>,
    next_id: u32,
    issued: Ghost<nat>,
}

impl<S> MemoryHistory<S> {
    /// The entries of the history, oldest first.
    pub closed spec fn spec_entries(&self) -> Seq<Location<S>> {
        self.inner.entries()
    }

    /// The position of the current entry.
    pub closed spec fn spec_index(&self) -> int {
        self.inner.index()
    }

    /// The id the next new entry receives.
    pub closed spec fn spec_next_id(&self) -> u32 {
        self.next_id
    }

    /// How many ids the history has handed out since it was created.
    pub closed spec fn spec_issued(&self) -> nat {
        self.issued@
    }

    /// The current entry.
    pub open spec fn spec_current(&self) -> Location<S> {
        self.spec_entries()[self.spec_index()]
    }

    /// A history has at least one entry, its index points into its entries,
    /// and every entry is a memory entry. Until the id counter has come all
    /// the way round (fewer than 2^32 ids handed out), the ids of the entries
    /// are distinct, and each was handed out at most as many ids ago as the
    /// history has handed out.
    pub open spec fn wf(&self) -> bool {
        &&& 0 <= self.spec_index() < self.spec_entries().len()
        &&& forall|j: int|
            0 <= j < self.spec_entries().len() ==> memory_entry(#[trigger] self.spec_entries()[j])
        &&& self.spec_issued() >= 1
        &&& self.spec_issued() < 0x1_0000_0000 ==> ids_distinct(*self) && ids_younger_than(
            *self,
            self.spec_issued() + 1 as int,
        )
    }

    /// `new` is `old` with a new entry pushed after its current one: later
    /// entries are dropped, and the new entry gets the next id.
    pub open spec fn pushed(
        old: Self,
        new: Self,
        path: Seq<char>,
        query_str: Seq<char>,
        state: Option<S>,
    ) -> bool {
        let n = old.spec_index() + 1;
        &&& new.spec_entries().len() == n + 1
        &&& new.spec_entries().subrange(0, n) == old.spec_entries().subrange(0, n)
        &&& entry_is(new.spec_entries()[n], path, query_str, state, old.spec_next_id())
        &&& new.spec_index() == n
        &&& new.spec_next_id() == old.spec_next_id().wrapping_add(1)
        &&& new.spec_issued() == old.spec_issued() + 1
    }

    /// `new` is `old` with its current entry replaced by a new one, which gets
    /// the next id.
    pub open spec fn replaced(
        old: Self,
        new: Self,
        path: Seq<char>,
        query_str: Seq<char>,
        state: Option<S>,
    ) -> bool {
        let i = old.spec_index();
        &&& new.spec_entries().len() == old.spec_entries().len()
        &&& forall|j: int|
            0 <= j < old.spec_entries().len() && j != i ==> #[trigger] new.spec_entries()[j]
                == old.spec_entries()[j]
        &&& entry_is(new.spec_entries()[i], path, query_str, state, old.spec_next_id())
        &&& new.spec_index() == i
        &&& new.spec_next_id() == old.spec_next_id().wrapping_add(1)
        &&& new.spec_issued() == old.spec_issued() + 1
    }

    /// Creates a new history with a single entry, `/`.
    pub fn new() -> (r: Self)
        ensures
            r.wf(),
            r.spec_entries().len() == 1,
            r.spec_index() == 0,
            r.spec_issued() == 1,
            exists|seed: u32|
                entry_is(r.spec_entries()[0], seq!['/'], Seq::empty(), None, seed)
                    && r.spec_next_id() == seed.wrapping_add(1),
    {
        let seed = random_id_seed();
        let root = "/";
        let empty = "";
        proof {
            reveal_strlit("/");
            reveal_strlit("");
        }
        let current = Location::new(
            String::from_str(root),
            String::from_str(empty),
            String::from_str(empty),
            None,
            Some(seed),
        );
        let r = MemoryHistory {
            inner: LocationStack { prev: Vec::new(), next: VecDeque::new(), current },
            next_id: seed.wrapping_add(1),
            issued: Ghost(1),
        };
        proof {
            assert(r.inner.entries() =~= seq![current]);
            assert(r.spec_entries()[0].spec_path() =~= seq!['/']);
            assert(r.spec_entries()[0].spec_query_str() =~= Seq::<char>::empty());
            assert(r.spec_entries()[0].spec_hash() =~= Seq::<char>::empty());
            assert(entry_is(r.spec_entries()[0], seq!['/'], Seq::empty(), None, seed)
                && r.spec_next_id() == seed.wrapping_add(1));
            lemma_new_ids_distinct(r, seed);
            lemma_new_ids_young(r, seed);
        }
        r
    }

    /// Returns the id for a new entry and advances the counter, wrapping around.
    fn get_id(&mut self) -> (r: u32)
        ensures
            r == old(self).spec_next_id(),
            final(self).spec_next_id() == old(self).spec_next_id().wrapping_add(1),
            final(self).spec_issued() == old(self).spec_issued() + 1,
            final(self).inner == old(self).inner,
    {
        let id = self.next_id;
        self.next_id = self.next_id.wrapping_add(1);
        self.issued = Ghost(self.issued@ + 1);
        id
    }

    /// Returns the number of entries.
    pub fn len(&self) -> (r: usize)
        requires
            self.spec_entries().len() <= usize::MAX,
        ensures
            r == self.spec_entries().len(),
    {
        self.inner.len()
    }

    /// Whether the history has no entries; a history always has at least one.
    pub fn is_empty(&self) -> (r: bool)
        ensures
            r == (self.spec_entries().len() == 0),
    {
        false
    }

    /// Returns the current location.
    pub fn location(&self) -> (r: &Location<S>)
        ensures
            *r == self.spec_current(),
    {
        self.inner.current()
    }

    /// Moves `delta` entries away from the current one; a move that would leave
    /// the history does nothing.
    pub fn go(&mut self, delta: isize)
        requires
            old(self).wf(),
        ensures
            final(self).wf(),
            final(self).spec_entries() == old(self).spec_entries(),
            final(self).spec_next_id() == old(self).spec_next_id(),
            final(self).spec_issued() == old(self).spec_issued(),
            final(self).spec_index() == go_index(
                old(self).spec_index(),
                delta as int,
                old(self).spec_entries().len() as int,
            ),
    {
        self.inner.go(delta)
    }

    /// Whether `go(delta)` would change the current entry: the step is not zero
    /// and stays within the history.
    pub fn go_moves(&self, delta: isize) -> (r: bool)
        requires
            self.wf(),
        ensures
            r == (delta != 0 && 0 <= self.spec_index() + delta < self.spec_entries().len()),
    {
        if delta > 0 {
            (delta as usize) <= self.inner.next.len()
        } else if delta < 0 {
            -(delta as i128) <= self.inner.prev.len() as i128
        } else {
            false
        }
    }

    /// Moves back one entry, unless the current entry is the first.
    pub fn back(&mut self)
        requires
            old(self).wf(),
        ensures
            final(self).wf(),
            final(self).spec_entries() == old(self).spec_entries(),
            final(self).spec_next_id() == old(self).spec_next_id(),
            final(self).spec_issued() == old(self).spec_issued(),
            final(self).spec_index() == go_index(
                old(self).spec_index(),
                -1,
                old(self).spec_entries().len() as int,
            ),
    {
        self.go(-1)
    }

    /// Moves forward one entry, unless the current entry is the last.
    pub fn forward(&mut self)
        requires
            old(self).wf(),
        ensures
            final(self).wf(),
            final(self).spec_entries() == old(self).spec_entries(),
            final(self).spec_next_id() == old(self).spec_next_id(),
            final(self).spec_issued() == old(self).spec_issued(),
            final(self).spec_index() == go_index(
                old(self).spec_index(),
                1,
                old(self).spec_entries().len() as int,
            ),
    {
        self.go(1)
    }

    /// Builds a new entry with the next id.
    fn make_location(&mut self, route: &str, query_str: String, state: Option<S>) -> (r: Location<
        S,
    >)
        ensures
            entry_is(r, route@, query_str@, state, old(self).spec_next_id()),
            final(self).spec_next_id() == old(self).spec_next_id().wrapping_add(1),
            final(self).spec_issued() == old(self).spec_issued() + 1,
            final(self).inner == old(self).inner,
    {
        let id = self.get_id();
        let empty = "";
        proof {
            reveal_strlit("");
        }
        let r = Location::new(String::from_str(route), query_str, String::from_str(empty), state, Some(id));
        proof {
            assert(r.spec_hash() =~= Seq::<char>::empty());
        }
        r
    }

    /// Adds an entry and makes it the current one.
    fn push_location(&mut self, route: &str, query_str: String, state: Option<S>)
        requires
            old(self).wf(),
            is_memory_route(route@),
            is_stored_query(query_str@),
        ensures
            final(self).wf(),
            Self::pushed(*old(self), *final(self), route@, query_str@, state),
    {
        let location = self.make_location(route, query_str, state);
        self.inner.push(location);
        proof {
            let n = old(self).spec_index() + 1;
            assert(self.spec_entries().subrange(0, n) =~= old(self).spec_entries().subrange(0, n));
            assert forall|j: int| 0 <= j < self.spec_entries().len() implies memory_entry(
                #[trigger] self.spec_entries()[j],
            ) by {
                if j < n {
                    assert(self.spec_entries().subrange(0, n)[j] == old(self).spec_entries().subrange(0, n)[j]);
                }
            }
        }
    }

    /// Replaces the current entry.
    fn replace_location(&mut self, route: &str, query_str: String, state: Option<S>)
        requires
            old(self).wf(),
            is_memory_route(route@),
            is_stored_query(query_str@),
        ensures
            final(self).wf(),
            Self::replaced(*old(self), *final(self), route@, query_str@, state),
    {
        let location = self.make_location(route, query_str, state);
        self.inner.replace(location);
    }

    /// Pushes a route with no state.
    pub fn push(&mut self, route: &str)
        requires
            old(self).wf(),
            is_memory_route(route@),
        ensures
            final(self).wf(),
            Self::pushed(*old(self), *final(self), route@, Seq::empty(), None),
    {
        let empty = String::new();
        self.push_location(route, empty, None);
    }

    /// Replaces the current entry with a route and no state.
    pub fn replace(&mut self, route: &str)
        requires
            old(self).wf(),
            is_memory_route(route@),
        ensures
            final(self).wf(),
            Self::replaced(*old(self), *final(self), route@, Seq::empty(), None),
    {
        let empty = String::new();
        self.replace_location(route, empty, None);
    }

    /// Pushes a route with a state.
    pub fn push_with_state(&mut self, route: &str, state: S)
        requires
            old(self).wf(),
            is_memory_route(route@),
        ensures
            final(self).wf(),
            Self::pushed(*old(self), *final(self), route@, Seq::empty(), Some(state)),
    {
        let empty = String::new();
        self.push_location(route, empty, Some(state));
    }

    /// Replaces the current entry with a route and a state.
    pub fn replace_with_state(&mut self, route: &str, state: S)
        requires
            old(self).wf(),
            is_memory_route(route@),
        ensures
            final(self).wf(),
            Self::replaced(*old(self), *final(self), route@, Seq::empty(), Some(state)),
    {
        let empty = String::new();
        self.replace_location(route, empty, Some(state));
    }

    /// Pushes a route with an encoded query and the given state. When the query
    /// does not encode, the history is left unchanged and the error returned.
    fn push_with_query_impl<Q: ToQuery>(&mut self, route: &str, query: Q, state: Option<S>) -> (r:
        Result<(), Q::Error>)
        requires
            old(self).wf(),
            query.spec_to_query() is Some ==> is_memory_route(route@),
        ensures
            final(self).wf(),
            match query.spec_to_query() {
                Some(q) => r is Ok && Self::pushed(
                    *old(self),
                    *final(self),
                    route@,
                    query_string(q),
                    state,
                ),
                None => r == Err::<(), Q::Error>(query.spec_query_error()) && *final(self) == *old(self),
            },
    {
        let q = match query.to_query() {
            Ok(q) => q,
            Err(e) => return Err(e),
        };
        let query_str = question_mark_then(q);
        self.push_location(route, query_str, state);
        Ok(())
    }

    /// Replaces the current entry with a route, an encoded query and the given
    /// state. When the query does not encode, the history is left unchanged and
    /// the error returned.
    fn replace_with_query_impl<Q: ToQuery>(&mut self, route: &str, query: Q, state: Option<S>) -> (r:
        Result<(), Q::Error>)
        requires
            old(self).wf(),
            query.spec_to_query() is Some ==> is_memory_route(route@),
        ensures
            final(self).wf(),
            match query.spec_to_query() {
                Some(q) => r is Ok && Self::replaced(
                    *old(self),
                    *final(self),
                    route@,
                    query_string(q),
                    state,
                ),
                None => r == Err::<(), Q::Error>(query.spec_query_error()) && *final(self) == *old(self),
            },
    {
        let q = match query.to_query() {
            Ok(q) => q,
            Err(e) => return Err(e),
        };
        let query_str = question_mark_then(q);
        self.replace_location(route, query_str, state);
        Ok(())
    }

    /// Same as `push`, with the query affixed to the route.
    pub fn push_with_query<Q: ToQuery>(&mut self, route: &str, query: Q) -> (r: Result<(), Q::Error>)
        requires
            old(self).wf(),
            query.spec_to_query() is Some ==> is_memory_route(route@),
        ensures
            final(self).wf(),
            match query.spec_to_query() {
                Some(q) => r is Ok && Self::pushed(
                    *old(self),
                    *final(self),
                    route@,
                    query_string(q),
                    None,
                ),
                None => r == Err::<(), Q::Error>(query.spec_query_error()) && *final(self) == *old(self),
            },
    {
        self.push_with_query_impl(route, query, None)
    }

    /// Same as `replace`, with the query affixed to the route.
    pub fn replace_with_query<Q: ToQuery>(&mut self, route: &str, query: Q) -> (r: Result<(), Q::Error>)
        requires
            old(self).wf(),
            query.spec_to_query() is Some ==> is_memory_route(route@),
        ensures
            final(self).wf(),
            match query.spec_to_query() {
                Some(q) => r is Ok && Self::replaced(
                    *old(self),
                    *final(self),
                    route@,
                    query_string(q),
                    None,
                ),
                None => r == Err::<(), Q::Error>(query.spec_query_error()) && *final(self) == *old(self),
            },
    {
        self.replace_with_query_impl(route, query, None)
    }

    /// Same as `push_with_state`, with the query affixed to the route.
    pub fn push_with_query_and_state<Q: ToQuery>(&mut self, route: &str, query: Q, state: S) -> (r:
        Result<(), Q::Error>)
        requires
            old(self).wf(),
            query.spec_to_query() is Some ==> is_memory_route(route@),
        ensures
            final(self).wf(),
            match query.spec_to_query() {
                Some(q) => r is Ok && Self::pushed(
                    *old(self),
                    *final(self),
                    route@,
                    query_string(q),
                    Some(state),
                ),
                None => r == Err::<(), Q::Error>(query.spec_query_error()) && *final(self) == *old(self),
            },
    {
        self.push_with_query_impl(route, query, Some(state))
    }

    /// Same as `replace_with_state`, with the query affixed to the route.
    pub fn replace_with_query_and_state<Q: ToQuery>(&mut self, route: &str, query: Q, state: S) -> (r:
        Result<(), Q::Error>)
        requires
            old(self).wf(),
            query.spec_to_query() is Some ==> is_memory_route(route@),
        ensures
            final(self).wf(),
            match query.spec_to_query() {
                Some(q) => r is Ok && Self::replaced(
                    *old(self),
                    *final(self),
                    route@,
                    query_string(q),
                    Some(state),
                ),
                None => r == Err::<(), Q::Error>(query.spec_query_error()) && *final(self) == *old(self),
            },
    {
        self.replace_with_query_impl(route, query, Some(state))
    }

    /// Creates a history with the given entries; the last one is current. The
    /// first entry replaces the default `/`; with no entries the history holds
    /// only `/`.
    pub fn with_entries(entries: &Vec<&str>) -> (r: Self)
        requires
            forall|i: int| 0 <= i < entries@.len() ==> is_memory_route(#[trigger] entries@[i]@),
        ensures
            r.wf(),
            entries@.len() == 0 ==> r.spec_entries().len() == 1 && r.spec_entries()[0].spec_path()
                == seq!['/'],
            entries@.len() > 0 ==> {
                &&& r.spec_entries().len() == entries@.len()
                &&& r.spec_index() == entries@.len() - 1
                &&& forall|i: int|
                    0 <= i < entries@.len() ==> #[trigger] r.spec_entries()[i].spec_path()
                        == entries@[i]@
            },
            forall|i: int| 0 <= i < r.spec_entries().len() ==> plain_entry(#[trigger] r.spec_entries()[i]),
            entries@.len() < 0xffff_ffff ==> ids_distinct(r) && ids_not_exhausted(r),
    {
        let mut h: MemoryHistory<S> = MemoryHistory::new();
        proof {
            let seed = choose|seed: u32|
                entry_is(h.spec_entries()[0], seq!['/'], Seq::empty(), None, seed)
                    && h.spec_next_id() == seed.wrapping_add(1);
            lemma_new_ids_distinct(h, seed);
            lemma_new_ids_young(h, seed);
        }
        let n = entries.len();
        let mut i: usize = 0;
        while i < n
            invariant
                n == entries@.len(),
                0 <= i <= n,
                forall|k: int| 0 <= k < entries@.len() ==> is_memory_route(#[trigger] entries@[k]@),
                h.wf(),
                i == 0 ==> h.spec_entries().len() == 1 && h.spec_entries()[0].spec_path() == seq![
                    '/',
                ],
                i > 0 ==> h.spec_entries().len() == i && h.spec_index() == i - 1,
                i > 0 ==> forall|k: int|
                    0 <= k < i ==> #[trigger] h.spec_entries()[k].spec_path() == entries@[k]@,
                forall|k: int| 0 <= k < h.spec_entries().len() ==> plain_entry(#[trigger] h.spec_entries()[k]),
                n < 0xffff_ffff ==> ids_distinct(h),
                n < 0xffff_ffff ==> ids_younger_than(h, if i == 0 { 2 } else { i + 1 }),
            decreases n - i,
        {
            if i == 0 {
                let ghost prev = h;
                h.replace(entries[i]);
                proof {
                    if n < 0xffff_ffff {
                        lemma_replace_keeps_ids_distinct(prev, h, entries@[0]@, Seq::empty(), None);
                        lemma_replaced_ids_age(prev, h, entries@[0]@, Seq::empty(), None, 2);
                    }
                }
            } else {
                let ghost prev = h;
                h.push(entries[i]);
                proof {
                    if n < 0xffff_ffff {
                        lemma_push_keeps_ids_distinct(prev, h, entries@[i as int]@, Seq::empty(), None);
                        lemma_pushed_ids_age(prev, h, entries@[i as int]@, Seq::empty(), None, i + 1);
                    }
                    assert forall|k: int| 0 <= k < i implies #[trigger] h.spec_entries()[k].spec_path()
                        == entries@[k]@ by {
                        assert(h.spec_entries().subrange(0, i as int)[k] == prev.spec_entries().subrange(0, i as int)[k]);
                    }
                    assert forall|k: int| 0 <= k < h.spec_entries().len() implies plain_entry(#[trigger] h.spec_entries()[k]) by {
                        if k < i {
                            assert(h.spec_entries().subrange(0, i as int)[k] == prev.spec_entries().subrange(0, i as int)[k]);
                        }
                    }
                }
            }
            i = i + 1;
        }
        h
    }
}

/// How many ids ago `id` was handed out, counting back from `next_id` around
/// the wrap of `u32`: the entry created last is one id ago.
pub open spec fn id_age(id: u32, next_id: u32) -> int {
    (next_id as int - id as int) % 0x1_0000_0000
}

/// Every entry has an id, no two entries share one, and none is the id the
/// next entry receives.
pub open spec fn ids_distinct<S>(h: MemoryHistory<S>) -> bool {
    &&& forall|j: int|
        0 <= j < h.spec_entries().len() ==> (#[trigger] h.spec_entries()[j]).spec_id() is Some
            && id_age(h.spec_entries()[j].spec_id().unwrap(), h.spec_next_id()) >= 1
    &&& forall|j: int, k: int|
        0 <= j < h.spec_entries().len() && 0 <= k < h.spec_entries().len() && j != k
            ==> (#[trigger] h.spec_entries()[j]).spec_id() != (#[trigger] h.spec_entries()[k]).spec_id()
}

/// Every entry has an id handed out fewer than `bound` ids ago.
pub open spec fn ids_younger_than<S>(h: MemoryHistory<S>, bound: int) -> bool {
    forall|j: int|
        0 <= j < h.spec_entries().len() ==> id_age(
            (#[trigger] h.spec_entries()[j]).spec_id().unwrap(),
            h.spec_next_id(),
        ) < bound
}

/// A new history's only id was handed out one id ago.
proof fn lemma_new_ids_young<S>(h: MemoryHistory<S>, seed: u32)
    requires
        h.spec_entries().len() == 1,
        h.spec_entries()[0].spec_id() == Some(seed),
        h.spec_next_id() == seed.wrapping_add(1),
    ensures
        ids_younger_than(h, 2),
{
    assert(id_age(seed, seed.wrapping_add(1)) == 1) by {
        if seed == 0xffff_ffff {
            assert(seed.wrapping_add(1) == 0);
        } else {
            assert(seed.wrapping_add(1) == seed + 1);
        }
    }
}

/// After a push, every id is one id older, and the new entry's id is one id
/// old.
proof fn lemma_pushed_ids_age<S>(
    old: MemoryHistory<S>,
    new: MemoryHistory<S>,
    path: Seq<char>,
    query_str: Seq<char>,
    state: Option<S>,
    bound: int,
)
    requires
        old.wf(),
        ids_distinct(old),
        ids_younger_than(old, bound),
        1 <= bound <= 0xffff_ffff,
        MemoryHistory::pushed(old, new, path, query_str, state),
    ensures
        ids_younger_than(new, bound + 1),
{
    let n = old.spec_index() + 1;
    let nid = old.spec_next_id();
    assert(nid.wrapping_add(1) as int == (nid as int + 1) % 0x1_0000_0000);
    assert forall|j: int| 0 <= j < new.spec_entries().len() implies id_age(
        (#[trigger] new.spec_entries()[j]).spec_id().unwrap(),
        new.spec_next_id(),
    ) < bound + 1 by {
        if j < n {
            assert(new.spec_entries().subrange(0, n)[j] == old.spec_entries().subrange(0, n)[j]);
            let id = old.spec_entries()[j].spec_id().unwrap();
            assert(id_age(id, nid) >= 1);
            assert(id_age(id, nid) < bound);
            assert(id_age(id, new.spec_next_id()) == id_age(id, nid) + 1);
        } else {
            assert(id_age(nid, new.spec_next_id()) == 1);
        }
    }
}

/// After a replace, every other id is one id older, and the new entry's id is
/// one id old; a history of one entry then holds only that id.
proof fn lemma_replaced_ids_age<S>(
    old: MemoryHistory<S>,
    new: MemoryHistory<S>,
    path: Seq<char>,
    query_str: Seq<char>,
    state: Option<S>,
    bound: int,
)
    requires
        old.wf(),
        ids_distinct(old),
        ids_younger_than(old, bound),
        1 <= bound <= 0xffff_ffff,
        MemoryHistory::replaced(old, new, path, query_str, state),
    ensures
        ids_younger_than(new, bound + 1),
        old.spec_entries().len() == 1 ==> ids_younger_than(new, 2),
{
    let i = old.spec_index();
    let nid = old.spec_next_id();
    assert(nid.wrapping_add(1) as int == (nid as int + 1) % 0x1_0000_0000);
    assert(id_age(nid, new.spec_next_id()) == 1);
    assert forall|j: int| 0 <= j < new.spec_entries().len() implies id_age(
        (#[trigger] new.spec_entries()[j]).spec_id().unwrap(),
        new.spec_next_id(),
    ) < bound + 1 by {
        if j != i {
            let id = old.spec_entries()[j].spec_id().unwrap();
            assert(id_age(id, nid) >= 1);
            assert(id_age(id, nid) < bound);
            assert(id_age(id, new.spec_next_id()) == id_age(id, nid) + 1);
        }
    }
}

/// No entry is so old that the id counter is about to come round to it again.
pub open spec fn ids_not_exhausted<S>(h: MemoryHistory<S>) -> bool {
    forall|j: int|
        0 <= j < h.spec_entries().len() ==> id_age(
            (#[trigger] h.spec_entries()[j]).spec_id().unwrap(),
            h.spec_next_id(),
        ) < 0xffff_ffff
}

/// Moving `delta` entries and then `-delta` entries comes back to the same
/// entry, as long as the first move stays within the history.
pub proof fn lemma_go_and_return(index: int, delta: int, len: int)
    requires
        0 <= index < len,
        0 <= index + delta < len,
    ensures
        go_index(go_index(index, delta, len), -delta, len) == index,
{
}

/// Two moves within the history add up: moving `a` and then `b` entries is
/// moving `a + b` entries.
pub proof fn lemma_go_twice(index: int, a: int, b: int, len: int)
    requires
        0 <= index < len,
        0 <= index + a < len,
        0 <= index + a + b < len,
    ensures
        go_index(go_index(index, a, len), b, len) == go_index(index, a + b, len),
{
}

/// After a push the new entry is current, the history holds one entry more than
/// the entries up to the old current one, and going back returns to the old
/// current entry, unchanged.
pub proof fn lemma_push_then_back<S>(
    old: MemoryHistory<S>,
    new: MemoryHistory<S>,
    path: Seq<char>,
    query_str: Seq<char>,
    state: Option<S>,
)
    requires
        old.wf(),
        MemoryHistory::pushed(old, new, path, query_str, state),
    ensures
        new.spec_current().spec_path() == path,
        new.spec_entries().len() == old.spec_index() + 2,
        go_index(new.spec_index(), -1, new.spec_entries().len() as int) == old.spec_index(),
        new.spec_entries()[old.spec_index()] == old.spec_current(),
        go_index(new.spec_index(), 1, new.spec_entries().len() as int) == new.spec_index(),
{
    let n = old.spec_index() + 1;
    assert(new.spec_entries().subrange(0, n)[old.spec_index()] == old.spec_entries().subrange(0, n)[old.spec_index()]);
}

/// A new history has distinct ids.
pub proof fn lemma_new_ids_distinct<S>(h: MemoryHistory<S>, seed: u32)
    requires
        h.spec_entries().len() == 1,
        h.spec_entries()[0].spec_id() == Some(seed),
        h.spec_next_id() == seed.wrapping_add(1),
    ensures
        ids_distinct(h),
        ids_not_exhausted(h),
{
    assert(id_age(seed, seed.wrapping_add(1)) == 1) by {
        if seed == 0xffff_ffff {
            assert(seed.wrapping_add(1) == 0);
        } else {
            assert(seed.wrapping_add(1) == seed + 1);
        }
    }
}

/// Pushing keeps the ids of a history distinct, as long as no entry is so old
/// that the counter comes round to it.
pub proof fn lemma_push_keeps_ids_distinct<S>(
    old: MemoryHistory<S>,
    new: MemoryHistory<S>,
    path: Seq<char>,
    query_str: Seq<char>,
    state: Option<S>,
)
    requires
        old.wf(),
        ids_distinct(old),
        ids_not_exhausted(old),
        MemoryHistory::pushed(old, new, path, query_str, state),
    ensures
        ids_distinct(new),
{
    let n = old.spec_index() + 1;
    let nid = old.spec_next_id();
    assert(nid.wrapping_add(1) as int == (nid as int + 1) % 0x1_0000_0000);
    assert forall|j: int| 0 <= j < n implies #[trigger] new.spec_entries()[j] == old.spec_entries()[j] by {
        assert(new.spec_entries().subrange(0, n)[j] == old.spec_entries().subrange(0, n)[j]);
    }
    assert forall|j: int|
        0 <= j < new.spec_entries().len() implies (#[trigger] new.spec_entries()[j]).spec_id() is Some
            && id_age(new.spec_entries()[j].spec_id().unwrap(), new.spec_next_id()) >= 1 by {
        if j < n {
            let id = old.spec_entries()[j].spec_id().unwrap();
            assert(id_age(id, nid) >= 1);
            assert(id_age(id, nid) < 0xffff_ffff);
            assert(id_age(id, new.spec_next_id()) == id_age(id, nid) + 1);
        } else {
            assert(id_age(nid, new.spec_next_id()) == 1);
        }
    }
    assert forall|j: int, k: int|
        0 <= j < new.spec_entries().len() && 0 <= k < new.spec_entries().len() && j != k implies
        (#[trigger] new.spec_entries()[j]).spec_id() != (#[trigger] new.spec_entries()[k]).spec_id() by {
        if j < n && k < n {
        } else if j < n {
            let id = old.spec_entries()[j].spec_id().unwrap();
            assert(id_age(id, nid) >= 1);
            assert(id != nid);
        } else if k < n {
            let id = old.spec_entries()[k].spec_id().unwrap();
            assert(id_age(id, nid) >= 1);
            assert(id != nid);
        }
    }
}

/// Replacing the current entry keeps the ids of a history distinct, as long as
/// no entry is so old that the counter comes round to it.
pub proof fn lemma_replace_keeps_ids_distinct<S>(
    old: MemoryHistory<S>,
    new: MemoryHistory<S>,
    path: Seq<char>,
    query_str: Seq<char>,
    state: Option<S>,
)
    requires
        old.wf(),
        ids_distinct(old),
        ids_not_exhausted(old),
        MemoryHistory::replaced(old, new, path, query_str, state),
    ensures
        ids_distinct(new),
{
    let i = old.spec_index();
    let nid = old.spec_next_id();
    assert(nid.wrapping_add(1) as int == (nid as int + 1) % 0x1_0000_0000);
    assert forall|j: int|
        0 <= j < new.spec_entries().len() implies (#[trigger] new.spec_entries()[j]).spec_id() is Some
            && id_age(new.spec_entries()[j].spec_id().unwrap(), new.spec_next_id()) >= 1 by {
        if j != i {
            let id = old.spec_entries()[j].spec_id().unwrap();
            assert(id_age(id, nid) >= 1);
            assert(id_age(id, nid) < 0xffff_ffff);
            assert(id_age(id, new.spec_next_id()) == id_age(id, nid) + 1);
        } else {
            assert(id_age(nid, new.spec_next_id()) == 1);
        }
    }
    assert forall|j: int, k: int|
        0 <= j < new.spec_entries().len() && 0 <= k < new.spec_entries().len() && j != k implies
        (#[trigger] new.spec_entries()[j]).spec_id() != (#[trigger] new.spec_entries()[k]).spec_id() by {
        if j != i && k != i {
        } else if j != i {
            let id = old.spec_entries()[j].spec_id().unwrap();
            assert(id_age(id, nid) >= 1);
            assert(id != nid);
        } else {
            let id = old.spec_entries()[k].spec_id().unwrap();
            assert(id_age(id, nid) >= 1);
            assert(id != nid);
        }
    }
}

/// Whatever calls brought a history where it is, its current entry has a
/// memory route as its path (absolute, with no `?` and no `#`), a query string
/// that is empty or starts with `?`, and no hash: every constructor and every
/// method keeps `wf`, which holds this of every entry.
pub proof fn lemma_current_entry_is_memory_entry<S>(h: MemoryHistory<S>)
    requires
        h.wf(),
    ensures
        memory_entry(h.spec_current()),
        is_absolute_path(h.spec_current().spec_path()),
        !seq_has_char(h.spec_current().spec_path(), '?'),
        !seq_has_char(h.spec_current().spec_path(), '#'),
{
    assert(memory_entry(h.spec_entries()[h.spec_index()]));
}

/// `new` is `old` with a new entry pushed or put in place of the current one.
pub open spec fn entry_created<S>(
    old: MemoryHistory<S>,
    new: MemoryHistory<S>,
    path: Seq<char>,
    query_str: Seq<char>,
    state: Option<S>,
) -> bool {
    MemoryHistory::pushed(old, new, path, query_str, state) || MemoryHistory::replaced(
        old,
        new,
        path,
        query_str,
        state,
    )
}

/// Each new entry takes the next id, and the counter then moves on by one,
/// wrapping around: two entries created one after the other get ids one
/// apart, so they differ.
pub proof fn lemma_successive_ids<S>(
    h0: MemoryHistory<S>,
    h1: MemoryHistory<S>,
    h2: MemoryHistory<S>,
    p1: Seq<char>,
    q1: Seq<char>,
    s1: Option<S>,
    p2: Seq<char>,
    q2: Seq<char>,
    s2: Option<S>,
)
    requires
        h0.wf(),
        entry_created(h0, h1, p1, q1, s1),
        entry_created(h1, h2, p2, q2, s2),
    ensures
        h1.spec_current().spec_id() == Some(h0.spec_next_id()),
        h2.spec_current().spec_id() == Some(h0.spec_next_id().wrapping_add(1)),
        h1.spec_current().spec_id() != h2.spec_current().spec_id(),
{
    let a = h0.spec_next_id();
    assert(a.wrapping_add(1) != a) by {
        if a == 0xffff_ffff {
            assert(a.wrapping_add(1) == 0);
        } else {
            assert(a.wrapping_add(1) == a + 1);
        }
    }
}

/// In a history with distinct ids, a new entry's id is the id of no entry the
/// history held before, the old current entry's among them.
pub proof fn lemma_new_entry_id_fresh<S>(
    old: MemoryHistory<S>,
    new: MemoryHistory<S>,
    path: Seq<char>,
    query_str: Seq<char>,
    state: Option<S>,
)
    requires
        old.wf(),
        ids_distinct(old),
        entry_created(old, new, path, query_str, state),
    ensures
        new.spec_current().spec_id() == Some(old.spec_next_id()),
        forall|j: int|
            0 <= j < old.spec_entries().len() ==> (#[trigger] old.spec_entries()[j]).spec_id()
                != new.spec_current().spec_id(),
        old.spec_current().spec_id() != new.spec_current().spec_id(),
{
    assert forall|j: int| 0 <= j < old.spec_entries().len() implies (
    #[trigger] old.spec_entries()[j]).spec_id() != new.spec_current().spec_id() by {
        assert(id_age(old.spec_entries()[j].spec_id().unwrap(), old.spec_next_id()) >= 1);
    }
    assert(old.spec_current() == old.spec_entries()[old.spec_index()]);
}

/// A new entry's location has an id, the location that was current before
/// has one too, and the two differ, as long as the history has handed out
/// fewer than 2^32 ids.
pub proof fn lemma_location_id_changes<S>(
    old: MemoryHistory<S>,
    new: MemoryHistory<S>,
    path: Seq<char>,
    query_str: Seq<char>,
    state: Option<S>,
)
    requires
        old.wf(),
        entry_created(old, new, path, query_str, state),
        new.spec_issued() < 0x1_0000_0000,
    ensures
        old.spec_current().spec_id() is Some,
        new.spec_current().spec_id() is Some,
        old.spec_current().spec_id() != new.spec_current().spec_id(),
{
    assert(ids_distinct(old));
    assert(old.spec_current() == old.spec_entries()[old.spec_index()]);
    lemma_new_entry_id_fresh(old, new, path, query_str, state);
}

/// In a history whose ids are distinct, two entries compare equal exactly when
/// they are the same entry.
pub proof fn lemma_entries_equal_iff_same<S>(h: MemoryHistory<S>, j: int, k: int)
    requires
        ids_distinct(h),
        0 <= j < h.spec_entries().len(),
        0 <= k < h.spec_entries().len(),
    ensures
        same_location(h.spec_entries()[j].spec_id(), h.spec_entries()[k].spec_id()) == (j == k),
{
    if j != k {
        assert(h.spec_entries()[j].spec_id() != h.spec_entries()[k].spec_id());
    }
}

/// The query a location stores for an encoded query is read back as that
/// query.
pub proof fn lemma_query_string_body(q: Seq<char>)
    ensures
        query_body(query_string(q)) == q,
{
    assert(query_body(query_string(q)) =~= q);
}

/// `?` followed by the query.
fn question_mark_then(query: String) -> (r: String)
    ensures
        r@ == query_string(query@),
{
    let mark = "?";
    proof {
        reveal_strlit("?");
    }
    let mut r = String::from_str(mark);
    r.append(query.as_str());
    r
}

/// A move that stays within the history lands `delta` entries away; one that
/// would leave it keeps the current entry.
pub proof fn lemma_go_lands_or_stays(index: int, delta: int, len: int)
    requires
        0 <= index < len,
    ensures
        0 <= index + delta < len ==> go_index(index, delta, len) == index + delta,
        !(0 <= index + delta < len) ==> go_index(index, delta, len) == index,
        0 <= go_index(index, delta, len) < len,
{
}

/// A stored query string is `?` in front of the encoded query, so it is one
/// character longer and holds the query after the `?`.
pub proof fn lemma_query_string_shape(q: Seq<char>)
    ensures
        query_string(q).len() == q.len() + 1,
        query_string(q)[0] == '?',
        query_string(q).subrange(1, query_string(q).len() as int) == q,
        is_stored_query(query_string(q)),
{
    assert(query_string(q).subrange(1, query_string(q).len() as int) =~= q);
}

} // verus!
