use vstd::prelude::*;

use crate::text::{seq_has_char, str_has_char, str_starts_with_char};

verus! {

/// A route that the in-memory history accepts: an absolute path with no query
/// and no fragment.
pub open spec fn is_memory_route(route: Seq<char>) -> bool {
    &&& is_absolute_path(route)
    &&& !seq_has_char(route, '?')
    &&& !seq_has_char(route, '#')
}

/// A path that starts with `/`.
pub open spec fn is_absolute_path(route: Seq<char>) -> bool {
    route.len() > 0 && route[0] == '/'
}

/// Whether `path` is absolute, that is, starts with `/`.
pub fn is_absolute(path: &str) -> (r: bool)
    ensures
        r == is_absolute_path(path@),
{
    str_starts_with_char(path, '/')
}

/// Whether `path` holds a query (a `?`).
pub fn has_query(path: &str) -> (r: bool)
    ensures
        r == seq_has_char(path@, '?'),
{
    str_has_char(path, '?')
}

/// Whether `path` holds a fragment (a `#`).
pub fn has_fragment(path: &str) -> (r: bool)
    ensures
        r == seq_has_char(path@, '#'),
{
    str_has_char(path, '#')
}

/// Whether the in-memory history accepts `route`: it must be absolute and hold
/// neither a query nor a fragment.
pub fn check_memory_route(route: &str) -> (r: bool)
    ensures
        r == is_memory_route(route@),
{
    is_absolute(route) && !has_query(route) && !has_fragment(route)
}

/// The registrations whose callback is still alive, in order.
pub open spec fn live_registrations<W, C>(entries: Seq<(W, Option<C>)>) -> Seq<W>
    decreases entries.len(),
{
    if entries.len() == 0 {
        Seq::empty()
    } else {
        let rest = live_registrations(entries.drop_last());
        match entries.last().1 {
            Some(_) => rest.push(entries.last().0),
            None => rest,
        }
    }
}

/// The callbacks that are still alive, in order of registration.
pub open spec fn live_callbacks<W, C>(entries: Seq<(W, Option<C>)>) -> Seq<C>
    decreases entries.len(),
{
    if entries.len() == 0 {
        Seq::empty()
    } else {
        let rest = live_callbacks(entries.drop_last());
        match entries.last().1 {
            Some(c) => rest.push(c),
            None => rest,
        }
    }
}

/// Decides what notifying the listeners of a history does. Each registration
/// comes with its callback, or `None` when the callback is gone. The
/// registrations of gone callbacks are dropped; the others are kept in order,
/// and their callbacks are returned, in the same order, to be called.
pub fn notify_callbacks<W, C>(entries: Vec<(W, Option<C>)>) -> (r: (Vec<W>, Vec<C>))
    ensures
        r.0@ == live_registrations(entries@),
        r.1@ == live_callbacks(entries@),
{
    let mut entries = entries;
    let ghost all = entries@;
    let mut kept: Vec<W> = Vec::new();
    let mut callables: Vec<C> = Vec::new();
    let mut i: usize = 0;
    let n = entries.len();
    while entries.len() > 0
        invariant
            n == all.len(),
            i + entries@.len() == n,
            entries@ == all.subrange(i as int, n as int),
            kept@ == live_registrations(all.subrange(0, i as int)),
            callables@ == live_callbacks(all.subrange(0, i as int)),
        decreases entries@.len(),
    {
        let (w, c) = entries.remove(0);
        proof {
            assert(all.subrange(0, i + 1).drop_last() =~= all.subrange(0, i as int));
            assert(all.subrange(0, i + 1).last() == all[i as int]);
        }
        match c {
            Some(c) => {
                kept.push(w);
                callables.push(c);
            },
            None => {},
        }
        i = i + 1;
        proof {
            assert(entries@ =~= all.subrange(i as int, n as int));
        }
    }
    proof {
        assert(all.subrange(0, n as int) =~= all);
    }
    (kept, callables)
}

/// A random starting point for the ids of history entries, from the system's
/// source of randomness (`getrandom::getrandom`). Where that source fails, the
/// bytes it did not fill stay zero.
#[verifier::external_body]
pub(crate) fn random_id_seed() -> (r: u32) {
    let mut start: [u8; 4] = [0; 4];
    let _ = getrandom::getrandom(&mut start);
    u32::from_ne_bytes(start)
}

/// Notifying keeps one registration for each callback that is still alive and
/// hands that callback on: registrations and callbacks come out in equal
/// number, all are kept when all are alive, and none when none is.
pub proof fn lemma_live_callbacks<W, C>(entries: Seq<(W, Option<C>)>)
    ensures
        live_registrations(entries).len() == live_callbacks(entries).len(),
        live_callbacks(entries).len() <= entries.len(),
        (forall|i: int| 0 <= i < entries.len() ==> (#[trigger] entries[i]).1 is Some) ==> (
        live_registrations(entries) == entries.map_values(|e: (W, Option<C>)| e.0)),
        (forall|i: int| 0 <= i < entries.len() ==> (#[trigger] entries[i]).1 is None) ==> (
        live_registrations(entries).len() == 0),
    decreases entries.len(),
{
    if entries.len() > 0 {
        let rest = entries.drop_last();
        lemma_live_callbacks(rest);
        if forall|i: int| 0 <= i < entries.len() ==> (#[trigger] entries[i]).1 is Some {
            assert forall|i: int| 0 <= i < rest.len() implies (#[trigger] rest[i]).1 is Some by {
                assert(rest[i] == entries[i]);
            }
            assert(entries.map_values(|e: (W, Option<C>)| e.0) =~= rest.map_values(
                |e: (W, Option<C>)| e.0,
            ).push(entries.last().0));
        }
        if forall|i: int| 0 <= i < entries.len() ==> (#[trigger] entries[i]).1 is None {
            assert forall|i: int| 0 <= i < rest.len() implies (#[trigger] rest[i]).1 is None by {
                assert(rest[i] == entries[i]);
            }
            assert(entries[entries.len() - 1].1 is None);
        }
    }
}

/// The in-memory history accepts a route exactly when it starts with `/` and
/// holds neither `?` nor `#`: a route with a query or a fragment, or a
/// relative one, is refused.
pub proof fn lemma_memory_routes(rest: Seq<char>, route: Seq<char>)
    ensures
        is_memory_route(seq!['/'] + rest) == (!seq_has_char(rest, '?') && !seq_has_char(rest, '#')),
        (route.len() == 0 || route[0] != '/') ==> !is_memory_route(route),
{
    let r = seq!['/'] + rest;
    if seq_has_char(rest, '?') {
        let i = choose|i: int| 0 <= i < rest.len() && rest[i] == '?';
        assert(r[i + 1] == '?');
    }
    if seq_has_char(rest, '#') {
        let i = choose|i: int| 0 <= i < rest.len() && rest[i] == '#';
        assert(r[i + 1] == '#');
    }
    if seq_has_char(r, '?') {
        let i = choose|i: int| 0 <= i < r.len() && r[i] == '?';
        assert(rest[i - 1] == '?');
    }
    if seq_has_char(r, '#') {
        let i = choose|i: int| 0 <= i < r.len() && r[i] == '#';
        assert(rest[i - 1] == '#');
    }
}

} // verus!
