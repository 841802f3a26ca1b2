//! Formatting options for `Intl.DateTimeFormat` and `Intl.NumberFormat`.
use vstd::prelude::*;

verus! {

/// The property an option contributes to a JavaScript options object: none
/// when it is not set.
pub open spec fn property(key: Seq<char>, value: Option<Seq<char>>) -> Seq<(Seq<char>, Seq<char>)> {
    match value {
        Some(v) => seq![(key, v)],
        None => Seq::empty(),
    }
}

/// The character views of a list of string pairs.
pub open spec fn pair_views(v: Seq<(&str, &str)>) -> Seq<(Seq<char>, Seq<char>)> {
    v.map_values(|p: (&str, &str)| (p.0@, p.1@))
}

/// The view of an optional string.
pub open spec fn opt_view(v: Option<&str>) -> Option<Seq<char>> {
    match v {
        Some(s) => Some(s@),
        None => None,
    }
}

/// Appends the property of an option that may be unset.
pub fn push_property(
    props: &mut Vec<(&'static str, &'static str)>,
    key: &'static str,
    value: Option<&'static str>,
)
    ensures
        pair_views(final(props)@) == pair_views(old(props)@) + property(key@, opt_view(value)),
{
    if let Some(v) = value {
        props.push((key, v));
        assert(pair_views(props@) =~= pair_views(old(props)@) + property(key@, opt_view(value)));
    } else {
        assert(pair_views(props@) =~= pair_views(old(props)@) + property(key@, opt_view(value)));
    }
}

/// A pair is in two lists put end to end exactly when it is in one of them.
pub proof fn lemma_in_concat<A>(a: Seq<A>, b: Seq<A>, x: A)
    ensures
        (a + b).contains(x) == (a.contains(x) || b.contains(x)),
{
    if a.contains(x) {
        let i = choose|i: int| 0 <= i < a.len() && a[i] == x;
        assert((a + b)[i] == x);
    }
    if b.contains(x) {
        let i = choose|i: int| 0 <= i < b.len() && b[i] == x;
        assert((a + b)[a.len() + i] == x);
    }
    if (a + b).contains(x) {
        let i = choose|i: int| 0 <= i < (a + b).len() && (a + b)[i] == x;
        if i < a.len() {
            assert(a[i] == x);
        } else {
            assert(b[i - a.len()] == x);
        }
    }
}

/// The property of an option holds exactly the pair of its key and value, when
/// the option is set, and nothing otherwise.
pub proof fn lemma_property_contains(key: Seq<char>, value: Option<Seq<char>>, x: (Seq<char>, Seq<char>))
    ensures
        property(key, value).contains(x) == (value matches Some(v) && x == (key, v)),
        property(key, value).len() == (if value is Some { 1int } else { 0int }),
{
    match value {
        Some(v) => {
            if x == (key, v) {
                assert(property(key, value)[0] == x);
            }
        },
        None => {},
    }
}

} // verus!

pub mod date_time_format;
pub mod number_format;
