//! States and errors of reading files.
use vstd::prelude::*;

use crate::text::str_eq;

verus! {

/// The `readyState` of a `FileReader`.
#[derive(Clone, Copy, Debug, PartialEq, Eq, Structural)]
pub enum ReadyState {
    /// No data has been loaded yet.
    Empty,
    /// Data is being loaded.
    Loading,
    /// The read has finished.
    Done,
}

/// The `readyState` number of a state.
pub open spec fn ready_state_code(s: ReadyState) -> u16 {
    match s {
        ReadyState::Empty => 0,
        ReadyState::Loading => 1,
        ReadyState::Done => 2,
    }
}

impl ReadyState {
    /// Whether the read has finished.
    pub fn is_done(&self) -> (r: bool)
        ensures
            r == (*self == ReadyState::Done),
    {
        match self {
            ReadyState::Done => true,
            _ => false,
        }
    }

    /// The state that a `readyState` number stands for.
    pub fn from_ready_state(val: u16) -> (r: ReadyState)
        requires
            val < 3,
        ensures
            ready_state_code(r) == val,
    {
        if val == 0 {
            ReadyState::Empty
        } else if val == 1 {
            ReadyState::Loading
        } else {
            ReadyState::Done
        }
    }
}

/// The largest integer a JavaScript number holds exactly, `2^53 - 1`.
pub const MAX_SAFE_INTEGER: u64 = 9007199254740991;

/// Whether a number can be handed to JavaScript without losing precision: it
/// is at most `2^53 - 1`.
pub fn is_safe_integer(number: u128) -> (r: bool)
    ensures
        r == (number <= MAX_SAFE_INTEGER),
{
    number <= 9007199254740991u128
}

/// An error while reading a file.
#[derive(Debug)]
pub enum FileReadError {
    /// The read was aborted before it finished.
    AbortedEarly,
    /// The blob could not be found.
    NotFound(String),
    /// The contents of the blob could not be read.
    NotReadable(String),
    /// The read raised a security exception.
    Security(String),
}

/// The description of a read error.
pub open spec fn read_error_text(e: FileReadError) -> Seq<char> {
    match e {
        FileReadError::AbortedEarly => seq!['F', 'i', 'l', 'e', 'R', 'e', 'a', 'd', 'e', 'r', ' ',
            'a', 'b', 'o', 'r', 't', 'e', 'd', ' ', 'e', 'a', 'r', 'l', 'y'],
        FileReadError::NotFound(m) => seq!['F', 'i', 'l', 'e', 'R', 'e', 'a', 'd', 'e', 'r', ' ',
            'c', 'a', 'n', 'n', 'o', 't', ' ', 'f', 'i', 'n', 'd', ' ', 'b', 'l', 'o', 'b', ':', ' ']
            + m@,
        FileReadError::NotReadable(m) => seq!['F', 'i', 'l', 'e', 'R', 'e', 'a', 'd', 'e', 'r',
            ' ', 'c', 'a', 'n', 'n', 'o', 't', ' ', 'r', 'e', 'a', 'd', ' ', 'c', 'o', 'n', 't', 'e',
            'n', 't', 's', ' ', 'o', 'f', ' ', 'b', 'l', 'o', 'b', ':', ' '] + m@,
        FileReadError::Security(m) => seq!['F', 'i', 'l', 'e', 'R', 'e', 'a', 'd', 'e', 'r', ' ',
            'e', 'n', 'c', 'o', 'u', 'n', 't', 'e', 'r', 'e', 'd', ' ', 'a', ' ', 's', 'e', 'c', 'u',
            'r', 'i', 't', 'y', ' ', 'e', 'x', 'c', 'e', 'p', 't', 'i', 'o', 'n', ':', ' '] + m@,
    }
}

/// The error that a `DOMException` of a failed read stands for, by the
/// exception's name; `None` for a name a read does not raise.
pub open spec fn exception_error(name: Seq<char>, message: String) -> Option<FileReadError> {
    if name == seq!['N', 'o', 't', 'F', 'o', 'u', 'n', 'd', 'E', 'r', 'r', 'o', 'r'] {
        Some(FileReadError::NotFound(message))
    } else if name == seq!['N', 'o', 't', 'R', 'e', 'a', 'd', 'a', 'b', 'l', 'e', 'E', 'r', 'r',
        'o', 'r'] {
        Some(FileReadError::NotReadable(message))
    } else if name == seq!['S', 'e', 'c', 'u', 'r', 'i', 't', 'y', 'E', 'r', 'r', 'o', 'r'] {
        Some(FileReadError::Security(message))
    } else {
        None
    }
}

impl FileReadError {
    /// The error for a `DOMException` with the given name and message, or
    /// `None` when a read does not raise an exception of that name.
    pub fn from_exception(name: &str, message: String) -> (r: Option<FileReadError>)
        ensures
            r == exception_error(name@, message),
    {
        let not_found = "NotFoundError";
        let not_readable = "NotReadableError";
        let security = "SecurityError";
        proof {
            reveal_strlit("NotFoundError");
            reveal_strlit("NotReadableError");
            reveal_strlit("SecurityError");
            assert(not_found@ =~= seq!['N', 'o', 't', 'F', 'o', 'u', 'n', 'd', 'E', 'r', 'r', 'o',
                'r']);
            assert(not_readable@ =~= seq!['N', 'o', 't', 'R', 'e', 'a', 'd', 'a', 'b', 'l', 'e',
                'E', 'r', 'r', 'o', 'r']);
            assert(security@ =~= seq!['S', 'e', 'c', 'u', 'r', 'i', 't', 'y', 'E', 'r', 'r', 'o',
                'r']);
        }
        if str_eq(name, not_found) {
            Some(FileReadError::NotFound(message))
        } else if str_eq(name, not_readable) {
            Some(FileReadError::NotReadable(message))
        } else if str_eq(name, security) {
            Some(FileReadError::Security(message))
        } else {
            None
        }
    }

    /// The description of this error.
    pub fn describe(&self) -> (r: String)
        ensures
            r@ == read_error_text(*self),
    {
        match self {
            FileReadError::AbortedEarly => {
                proof { reveal_strlit("FileReader aborted early"); }
                String::from_str("FileReader aborted early")
            },
            FileReadError::NotFound(m) => {
                proof { reveal_strlit("FileReader cannot find blob: "); }
                let mut r = String::from_str("FileReader cannot find blob: ");
                r.append(m.as_str());
                r
            },
            FileReadError::NotReadable(m) => {
                proof { reveal_strlit("FileReader cannot read contents of blob: "); }
                let mut r = String::from_str("FileReader cannot read contents of blob: ");
                r.append(m.as_str());
                r
            },
            FileReadError::Security(m) => {
                proof { reveal_strlit("FileReader encountered a security exception: "); }
                let mut r = String::from_str("FileReader encountered a security exception: ");
                r.append(m.as_str());
                r
            },
        }
    }
}

/// A reader's states carry the numbers of `FileReader.readyState`: `EMPTY` is
/// 0, `LOADING` is 1 and `DONE` is 2; each number stands for one state.
pub proof fn lemma_ready_state_numbers(s: ReadyState, t: ReadyState)
    ensures
        ready_state_code(ReadyState::Empty) == 0,
        ready_state_code(ReadyState::Loading) == 1,
        ready_state_code(ReadyState::Done) == 2,
        (ready_state_code(s) == ready_state_code(t)) == (s == t),
{
}

/// A read raises three kinds of `DOMException`, each read as its own error
/// carrying the exception's message; any other name gives no error, and the
/// description of an error that carries a message ends with that message.
pub proof fn lemma_exception_names(name: Seq<char>, message: String, e: FileReadError)
    ensures
        exception_error("NotFoundError"@, message) == Some(FileReadError::NotFound(message)),
        exception_error("NotReadableError"@, message) == Some(FileReadError::NotReadable(message)),
        exception_error("SecurityError"@, message) == Some(FileReadError::Security(message)),
        name != "NotFoundError"@ && name != "NotReadableError"@ && name != "SecurityError"@
            ==> exception_error(name, message) is None,
        match e {
            FileReadError::NotFound(m) | FileReadError::NotReadable(m) | FileReadError::Security(
                m,
            ) => read_error_text(e).len() >= m@.len() && read_error_text(e).subrange(
                read_error_text(e).len() - m@.len(),
                read_error_text(e).len() as int,
            ) == m@,
            FileReadError::AbortedEarly => true,
        },
{
    reveal_strlit("NotFoundError");
    reveal_strlit("NotReadableError");
    reveal_strlit("SecurityError");
    assert("NotFoundError"@ =~= seq!['N', 'o', 't', 'F', 'o', 'u', 'n', 'd', 'E', 'r', 'r', 'o', 'r']);
    assert("NotReadableError"@ =~= seq!['N', 'o', 't', 'R', 'e', 'a', 'd', 'a', 'b', 'l', 'e', 'E', 'r', 'r', 'o', 'r']);
    assert("SecurityError"@ =~= seq!['S', 'e', 'c', 'u', 'r', 'i', 't', 'y', 'E', 'r', 'r', 'o', 'r']);
    match e {
        FileReadError::NotFound(m) | FileReadError::NotReadable(m) | FileReadError::Security(m) => {
            let t = read_error_text(e);
            assert(t.subrange(t.len() - m@.len(), t.len() as int) =~= m@);
        },
        FileReadError::AbortedEarly => {},
    }
}

} // verus!
