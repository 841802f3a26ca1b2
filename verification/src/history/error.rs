use vstd::prelude::*;

verus! {

/// The error that `serde_urlencoded` reports when it cannot encode a value.
#[verifier::external_type_specification]
#[verifier::external_body]
pub struct ExUrlEncodeError(serde_urlencoded::ser::Error);

/// The error that `serde_urlencoded` reports when it cannot decode a query.
#[verifier::external_type_specification]
#[verifier::external_body]
pub struct ExUrlDecodeError(serde_urlencoded::de::Error);

/// The error type for history queries.
#[derive(Debug)]
pub enum HistoryError {
    /// Failed to serialize the query.
    QuerySer(serde_urlencoded::ser::Error),
    /// Failed to deserialize the query.
    QueryDe(serde_urlencoded::de::Error),
}

impl HistoryError {
    /// The message that describes this error.
    pub fn message(&self) -> (r: &'static str)
        ensures
            r@ == match self {
                HistoryError::QuerySer(_) => seq!['f', 'a', 'i', 'l', 'e', 'd', ' ', 't', 'o', ' ',
                    's', 'e', 'r', 'i', 'a', 'l', 'i', 'z', 'e', ' ', 'q', 'u', 'e', 'r', 'y', '.'],
                HistoryError::QueryDe(_) => seq!['f', 'a', 'i', 'l', 'e', 'd', ' ', 't', 'o', ' ',
                    'd', 'e', 's', 'e', 'r', 'i', 'a', 'l', 'i', 'z', 'e', ' ', 'q', 'u', 'e', 'r',
                    'y', '.'],
            },
    {
        match self {
            HistoryError::QuerySer(_) => {
                proof { reveal_strlit("failed to serialize query."); }
                "failed to serialize query."
            },
            HistoryError::QueryDe(_) => {
                proof { reveal_strlit("failed to deserialize query."); }
                "failed to deserialize query."
            },
        }
    }
}

} // verus!
