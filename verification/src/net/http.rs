use vstd::prelude::*;

verus! {

/// The types that may be the body of a request; no other type can join them.
pub trait Sealed {}

impl Sealed for String {}

impl<'a> Sealed for &'a str {}

/// Whether an HTTP status code is a success code, in the range `200 - 299`.
pub fn is_success_status(status: u16) -> (r: bool)
    ensures
        r == (200 <= status <= 299),
{
    200 <= status && status <= 299
}

/// The search string of a request URL once the builder's query parameters are
/// added: the parameters alone when the URL has no search, else the URL's
/// search, `&` and the parameters.
pub open spec fn combined_search(search: Seq<char>, query: Seq<char>) -> Seq<char> {
    if search.len() == 0 {
        query
    } else {
        search + seq!['&'] + query
    }
}

/// Combines the search of a request URL with the builder's query parameters.
pub fn combine_query(search: &str, query: &str) -> (r: String)
    ensures
        r@ == combined_search(search@, query@),
{
    if search.unicode_len() == 0 {
        String::from_str(query)
    } else {
        let amp = "&";
        proof {
            reveal_strlit("&");
        }
        let mut r = String::from_str(search);
        r.append(amp);
        r.append(query);
        r
    }
}

/// Adding the builder's query parameters never loses the URL's own query: a
/// URL with a search keeps it in front, followed by `&` and the parameters
/// (also when there are none); a URL without a search gets the parameters
/// alone.
pub proof fn lemma_combined_search_keeps_search(search: Seq<char>, query: Seq<char>)
    ensures
        search.len() > 0 ==> {
            let c = combined_search(search, query);
            &&& c.len() == search.len() + 1 + query.len()
            &&& c.subrange(0, search.len() as int) == search
            &&& c[search.len() as int] == '&'
            &&& c.subrange(search.len() + 1int, c.len() as int) == query
        },
        search.len() == 0 ==> combined_search(search, query) == query,
{
    if search.len() > 0 {
        let c = combined_search(search, query);
        assert(c.subrange(0, search.len() as int) =~= search);
        assert(c.subrange(search.len() + 1int, c.len() as int) =~= query);
    }
}

} // verus!
