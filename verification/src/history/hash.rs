use vstd::prelude::*;

use crate::history::utils::is_absolute_path;

verus! {

/// The hash that a hash-based history stores for a route with a query:
/// the route, `?` and the query.
pub open spec fn hash_with_query(route: Seq<char>, query: Seq<char>) -> Seq<char> {
    route + seq!['?'] + query
}

/// The hash that a hash-based history stores for a route with a query.
pub fn route_with_query(route: &str, query: &str) -> (r: String)
    ensures
        r@ == hash_with_query(route@, query@),
{
    let mark = "?";
    proof {
        reveal_strlit("?");
    }
    let mut r = String::from_str(route);
    r.append(mark);
    r.append(query);
    r
}

/// The route stored in a URL hash: the hash without its first character (the `#`).
pub open spec fn hash_route(hash: Seq<char>) -> Seq<char> {
    if hash.len() == 0 {
        hash
    } else {
        hash.subrange(1, hash.len() as int)
    }
}

/// Strips the `#` from a URL hash, giving the route a hash-based history stores
/// in it.
pub fn strip_hash(hash: &str) -> (r: String)
    ensures
        r@ == hash_route(hash@),
{
    let n = hash.unicode_len();
    if n == 0 {
        String::from_str(hash)
    } else {
        String::from_str(hash.substring_char(1, n))
    }
}

/// Whether a URL hash holds a route: it starts with `#/`.
pub open spec fn is_hash_route(hash: Seq<char>) -> bool {
    hash.len() >= 2 && hash[0] == '#' && hash[1] == '/'
}

/// Whether a URL hash holds a route, that is, starts with `#/`. A hash-based
/// history resets any other hash to `#/` when it starts.
pub fn holds_hash_route(hash: &str) -> (r: bool)
    ensures
        r == is_hash_route(hash@),
{
    let n = hash.unicode_len();
    n >= 2 && hash.get_char(0) == '#' && hash.get_char(1) == '/'
}

/// A hash that holds a route gives back an absolute route.
pub proof fn lemma_hash_route_is_absolute(hash: Seq<char>)
    requires
        is_hash_route(hash),
    ensures
        is_absolute_path(hash_route(hash)),
{
}

/// Storing a route with a query in the hash and reading the route back gives
/// the route, `?` and the query.
pub proof fn lemma_hash_roundtrip(route: Seq<char>, query: Seq<char>)
    ensures
        hash_route(seq!['#'] + hash_with_query(route, query)) == hash_with_query(route, query),
{
    assert(hash_route(seq!['#'] + hash_with_query(route, query)) =~= hash_with_query(route, query));
}

/// Every hash that starts with `#/` holds a route, whatever follows (a query
/// included), and the route it holds is `/` and what follows; a hash that does
/// not start with `#/` holds none.
pub proof fn lemma_hash_route_prefix(rest: Seq<char>, hash: Seq<char>)
    ensures
        is_hash_route(seq!['#', '/'] + rest),
        hash_route(seq!['#', '/'] + rest) == seq!['/'] + rest,
        !(hash.len() >= 2 && hash.subrange(0, 2) == seq!['#', '/']) ==> !is_hash_route(hash),
{
    assert(hash_route(seq!['#', '/'] + rest) =~= seq!['/'] + rest);
    if is_hash_route(hash) {
        assert(hash.subrange(0, 2) =~= seq!['#', '/']);
    }
}

/// A route with a query is stored in the hash as the route, then `?`, then the
/// query, nothing dropped and nothing added.
pub proof fn lemma_hash_with_query_shape(route: Seq<char>, query: Seq<char>)
    ensures
        hash_with_query(route, query).len() == route.len() + 1 + query.len(),
        hash_with_query(route, query).subrange(0, route.len() as int) == route,
        hash_with_query(route, query)[route.len() as int] == '?',
        hash_with_query(route, query).subrange(route.len() + 1int, (route.len() + 1 + query.len()) as int) == query,
{
    let h = hash_with_query(route, query);
    assert(h.subrange(0, route.len() as int) =~= route);
    assert(h.subrange(route.len() + 1int, (route.len() + 1 + query.len()) as int) =~= query);
}

} // verus!
