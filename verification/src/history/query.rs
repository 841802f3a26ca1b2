//! Encoding and decoding strategies for query strings.
//!
//! [`ToQuery`] and [`FromQuery`] say how a value becomes a query string and
//! back. [`Raw`] passes a query string through unchanged; [`UrlEncoded`] uses the
//! standards-compliant `x-www-form-urlencoded` encoding of `serde_urlencoded`
//! for a sequence of name/value pairs.
use vstd::prelude::*;

use crate::history::error::HistoryError;
use core::convert::Infallible;

verus! {

/// A type that can be encoded into a query string.
pub trait ToQuery {
    /// Error that can be returned from the conversion.
    type Error;

    /// The query string this value encodes to, or `None` when encoding fails.
    spec fn spec_to_query(&self) -> Option<Seq<char>>;

    /// The error that encoding this value reports when it fails.
    spec fn spec_query_error(&self) -> Self::Error;

    /// Encodes the query into a string.
    fn to_query(&self) -> (r: Result<String, Self::Error>)
        ensures
            match r {
                Ok(s) => self.spec_to_query() == Some(s@),
                Err(e) => self.spec_to_query() is None && e == self.spec_query_error(),
            },
    ;
}

/// A type that can be decoded from a query string.
pub trait FromQuery {
    /// Target type after parsing.
    type Target;
    /// Error that can occur while parsing.
    type Error;

    /// Whether `query` decodes at all.
    spec fn spec_decodable(query: Seq<char>) -> bool;

    /// Whether `query` decodes to `target`.
    spec fn spec_decodes(query: Seq<char>, target: Self::Target) -> bool;

    /// Decodes this query string into the target type.
    fn from_query(query: &str) -> (r: Result<Self::Target, Self::Error>)
        ensures
            (r is Ok) == Self::spec_decodable(query@),
            r matches Ok(t) ==> Self::spec_decodes(query@, t),
    ;
}

/// A query string given directly, bypassing the encoding. Characters that may
/// not appear in query strings are the caller's to escape.
#[derive(Debug, Clone)]
pub struct Raw<T>(pub T);

impl<'a> ToQuery for Raw<&'a str> {
    type Error = Infallible;

    open spec fn spec_to_query(&self) -> Option<Seq<char>> {
        Some(self.0@)
    }

    /// A raw query never fails to encode, so it has no error to report.
    open spec fn spec_query_error(&self) -> Infallible {
        vstd::pervasive::arbitrary()
    }

    fn to_query(&self) -> (r: Result<String, Infallible>) {
        Ok(String::from_str(self.0))
    }
}

impl ToQuery for Raw<String> {
    type Error = Infallible;

    open spec fn spec_to_query(&self) -> Option<Seq<char>> {
        Some(self.0@)
    }

    /// A raw query never fails to encode, so it has no error to report.
    open spec fn spec_query_error(&self) -> Infallible {
        vstd::pervasive::arbitrary()
    }

    fn to_query(&self) -> (r: Result<String, Infallible>) {
        Ok(self.0.clone())
    }
}

impl FromQuery for Raw<String> {
    type Target = String;
    type Error = Infallible;

    open spec fn spec_decodable(query: Seq<char>) -> bool {
        true
    }

    open spec fn spec_decodes(query: Seq<char>, target: String) -> bool {
        target@ == query
    }

    fn from_query(query: &str) -> (r: Result<String, Infallible>) {
        Ok(String::from_str(query))
    }
}

/// A query given as name/value pairs, in the `x-www-form-urlencoded` encoding.
#[derive(Debug, Clone)]
pub struct UrlEncoded(pub Vec<(String, String)>);

/// What `serde_urlencoded::to_string` makes of a sequence of name/value pairs:
/// the encoded string, or `None` when it reports an error.
pub uninterp spec fn urlencoded_pairs(pairs: Seq<(Seq<char>, Seq<char>)>) -> Option<Seq<char>>;

/// What `serde_urlencoded::from_str` makes of a query string read as a sequence
/// of name/value pairs: the pairs, or `None` when it reports an error.
pub uninterp spec fn urldecoded_pairs(query: Seq<char>) -> Option<Seq<(Seq<char>, Seq<char>)>>;

/// Calls `serde_urlencoded::to_string` on a sequence of name/value pairs; its
/// result is the named function `urlencoded_pairs` of the pairs. Two facts the
/// source shows are stated too: a pair of strings always serializes (only
/// values of other kinds are refused), and `serde_urlencoded::from_str` reads
/// the encoded string back as the same pairs (`form_urlencoded` escapes every
/// byte that `&`, `=`, `+` and `%` parsing would change, and joins pairs with
/// `&`, each holding an `=`).
#[verifier::external_body]
fn urlencode(pairs: &Vec<(String, String)>) -> (r: Result<String, serde_urlencoded::ser::Error>)
    ensures
        r is Ok,
        match r {
            Ok(s) => urlencoded_pairs(pairs.deep_view()) == Some(s@) && urldecoded_pairs(s@)
                == Some(pairs.deep_view()),
            Err(_) => urlencoded_pairs(pairs.deep_view()) is None,
        },
{
    serde_urlencoded::to_string(pairs)
}

/// Calls `serde_urlencoded::from_str` to read a query string as a sequence of
/// name/value pairs; its result is the named function `urldecoded_pairs` of
/// the query.
#[verifier::external_body]
fn urldecode(query: &str) -> (r: Result<Vec<(String, String)>, serde_urlencoded::de::Error>)
    ensures
        match r {
            Ok(v) => urldecoded_pairs(query@) == Some(v.deep_view()),
            Err(_) => urldecoded_pairs(query@) is None,
        },
{
    serde_urlencoded::from_str(query)
}

impl ToQuery for UrlEncoded {
    type Error = HistoryError;

    open spec fn spec_to_query(&self) -> Option<Seq<char>> {
        urlencoded_pairs(self.0.deep_view())
    }

    /// Name/value pairs of strings always encode (see `urlencode`), so no error
    /// is ever reported; which serializer error it would hold is left open.
    open spec fn spec_query_error(&self) -> HistoryError {
        HistoryError::QuerySer(vstd::pervasive::arbitrary())
    }

    fn to_query(&self) -> (r: Result<String, HistoryError>)
        ensures
            r is Ok,
            r matches Ok(q) ==> urldecoded_pairs(q@) == Some(self.0.deep_view()),
    {
        match urlencode(&self.0) {
            Ok(s) => Ok(s),
            Err(e) => Err(HistoryError::QuerySer(e)),
        }
    }
}

impl FromQuery for UrlEncoded {
    type Target = Vec<(String, String)>;
    type Error = HistoryError;

    open spec fn spec_decodable(query: Seq<char>) -> bool {
        urldecoded_pairs(query) is Some
    }

    open spec fn spec_decodes(query: Seq<char>, target: Vec<(String, String)>) -> bool {
        urldecoded_pairs(query) == Some(target.deep_view())
    }

    fn from_query(query: &str) -> (r: Result<Vec<(String, String)>, HistoryError>) {
        match urldecode(query) {
            Ok(v) => Ok(v),
            Err(e) => Err(HistoryError::QueryDe(e)),
        }
    }
}

/// A raw query string decoded and encoded again gives the same string back.
pub proof fn lemma_raw_roundtrip(query: Seq<char>, target: String)
    requires
        <Raw<String> as FromQuery>::spec_decodes(query, target),
    ensures
        Raw(target).spec_to_query() == Some(query),
{
}

} // verus!
