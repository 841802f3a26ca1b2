use vstd::prelude::*;

use crate::text::str_eq;

verus! {

/// HTTP methods that can be used in a fetch request, as defined by the fetch spec.
#[derive(Clone, Copy, Debug, PartialEq, Eq, Structural, Hash)]
pub enum Method {
    /// A request for information about the communication options.
    Options,
    /// Retrieve the information identified by the request URI.
    Get,
    /// Submit the enclosed entity to the resource.
    Post,
    /// Store the enclosed entity under the request URI.
    Put,
    /// Delete the resource identified by the request URI.
    Delete,
    /// Like GET, without a message body in the response.
    Head,
    /// Apply a set of changes to the resource.
    Patch,
}

/// The canonical upper-case name of a method, as bytes.
pub open spec fn method_bytes(m: Method) -> Seq<u8> {
    match m {
        Method::Options => seq![79u8, 80, 84, 73, 79, 78, 83],
        Method::Get => seq![71u8, 69, 84],
        Method::Post => seq![80u8, 79, 83, 84],
        Method::Put => seq![80u8, 85, 84],
        Method::Delete => seq![68u8, 69, 76, 69, 84, 69],
        Method::Head => seq![72u8, 69, 65, 68],
        Method::Patch => seq![80u8, 65, 84, 67, 72],
    }
}

/// The method whose canonical name is exactly `src`, if any.
pub open spec fn spec_method_from_bytes(src: Seq<u8>) -> Option<Method> {
    if src == method_bytes(Method::Options) {
        Some(Method::Options)
    } else if src == method_bytes(Method::Get) {
        Some(Method::Get)
    } else if src == method_bytes(Method::Post) {
        Some(Method::Post)
    } else if src == method_bytes(Method::Put) {
        Some(Method::Put)
    } else if src == method_bytes(Method::Delete) {
        Some(Method::Delete)
    } else if src == method_bytes(Method::Head) {
        Some(Method::Head)
    } else if src == method_bytes(Method::Patch) {
        Some(Method::Patch)
    } else {
        None
    }
}

/// Byte-wise equality of two slices.
fn bytes_eq(a: &[u8], b: &[u8]) -> (r: bool)
    ensures
        r == (a@ == b@),
{
    if a.len() != b.len() {
        return false;
    }
    let mut i: usize = 0;
    while i < a.len()
        invariant
            a@.len() == b@.len(),
            0 <= i <= a@.len(),
            forall|j: int| 0 <= j < i ==> a@[j] == b@[j],
        decreases a@.len() - i,
    {
        if a[i] != b[i] {
            return false;
        }
        i = i + 1;
    }
    assert(a@ =~= b@);
    true
}

impl Method {
    /// Returns a `Method` from the given bytes.
    pub fn from_bytes(src: &[u8]) -> (r: Option<Method>)
        ensures
            r == spec_method_from_bytes(src@),
    {
        let options: [u8; 7] = [79u8, 80, 84, 73, 79, 78, 83];
        let get: [u8; 3] = [71u8, 69, 84];
        let post: [u8; 4] = [80u8, 79, 83, 84];
        let put: [u8; 3] = [80u8, 85, 84];
        let delete: [u8; 6] = [68u8, 69, 76, 69, 84, 69];
        let head: [u8; 4] = [72u8, 69, 65, 68];
        let patch: [u8; 5] = [80u8, 65, 84, 67, 72];
        assert(options@ =~= method_bytes(Method::Options));
        assert(get@ =~= method_bytes(Method::Get));
        assert(post@ =~= method_bytes(Method::Post));
        assert(put@ =~= method_bytes(Method::Put));
        assert(delete@ =~= method_bytes(Method::Delete));
        assert(head@ =~= method_bytes(Method::Head));
        assert(patch@ =~= method_bytes(Method::Patch));
        if bytes_eq(src, options.as_slice()) {
            Some(Method::Options)
        } else if bytes_eq(src, get.as_slice()) {
            Some(Method::Get)
        } else if bytes_eq(src, post.as_slice()) {
            Some(Method::Post)
        } else if bytes_eq(src, put.as_slice()) {
            Some(Method::Put)
        } else if bytes_eq(src, delete.as_slice()) {
            Some(Method::Delete)
        } else if bytes_eq(src, head.as_slice()) {
            Some(Method::Head)
        } else if bytes_eq(src, patch.as_slice()) {
            Some(Method::Patch)
        } else {
            None
        }
    }
}


/// The canonical upper-case name of a method, as characters.
pub open spec fn method_name(m: Method) -> Seq<char> {
    match m {
        Method::Options => seq!['O', 'P', 'T', 'I', 'O', 'N', 'S'],
        Method::Get => seq!['G', 'E', 'T'],
        Method::Post => seq!['P', 'O', 'S', 'T'],
        Method::Put => seq!['P', 'U', 'T'],
        Method::Delete => seq!['D', 'E', 'L', 'E', 'T', 'E'],
        Method::Head => seq!['H', 'E', 'A', 'D'],
        Method::Patch => seq!['P', 'A', 'T', 'C', 'H'],
    }
}

/// The error returned when a string is not the name of a method.
#[derive(Debug, Clone, Copy, PartialEq, Eq, Structural)]
pub enum MethodError {
    /// The string names no known method.
    InvalidMethod,
}

impl MethodError {
    /// The message that describes this error.
    pub fn message(&self) -> (r: &'static str)
        ensures
            r@ == seq!['I', 'n', 'v', 'a', 'l', 'i', 'd', ' ', 'm', 'e', 't', 'h', 'o', 'd'],
    {
        proof {
            reveal_strlit("Invalid method");
        }
        "Invalid method"
    }
}

impl Method {
    /// The canonical name of this method.
    pub fn as_str(&self) -> (r: &'static str)
        ensures
            r@ == method_name(*self),
    {
        match self {
            Method::Options => {
                proof { reveal_strlit("OPTIONS"); }
                "OPTIONS"
            },
            Method::Get => {
                proof { reveal_strlit("GET"); }
                "GET"
            },
            Method::Post => {
                proof { reveal_strlit("POST"); }
                "POST"
            },
            Method::Put => {
                proof { reveal_strlit("PUT"); }
                "PUT"
            },
            Method::Delete => {
                proof { reveal_strlit("DELETE"); }
                "DELETE"
            },
            Method::Head => {
                proof { reveal_strlit("HEAD"); }
                "HEAD"
            },
            Method::Patch => {
                proof { reveal_strlit("PATCH"); }
                "PATCH"
            },
        }
    }

    /// Parses a method from its canonical (case-sensitive) name.
    pub fn parse(s: &str) -> (r: Result<Method, MethodError>)
        ensures
            match r {
                Ok(m) => method_name(m) == s@,
                Err(e) => e == MethodError::InvalidMethod && forall|m: Method| method_name(m) != s@,
            },
            r == match spec_method_from_bytes(vstd::utf8::encode_utf8(s@)) {
                Some(m) => Ok::<Method, MethodError>(m),
                None => Err::<Method, MethodError>(MethodError::InvalidMethod),
            },
    {
        proof {
            lemma_name_iff_bytes(s@);
        }
        let all: [Method; 7] = [
            Method::Options,
            Method::Get,
            Method::Post,
            Method::Put,
            Method::Delete,
            Method::Head,
            Method::Patch,
        ];
        let mut i: usize = 0;
        while i < 7
            invariant
                0 <= i <= 7,
                all@ == seq![
                    Method::Options,
                    Method::Get,
                    Method::Post,
                    Method::Put,
                    Method::Delete,
                    Method::Head,
                    Method::Patch,
                ],
                forall|j: int| 0 <= j < i ==> method_name(#[trigger] all@[j]) != s@,
            decreases 7 - i,
        {
            let m = all[i];
            if str_eq(m.as_str(), s) {
                proof {
                    lemma_name_iff_bytes(s@);
                    assert(method_name(m) == s@);
                }
                return Ok(m);
            }
            i = i + 1;
        }
        assert forall|m: Method| method_name(m) != s@ by {
            match m {
                Method::Options => assert(all@[0] == m),
                Method::Get => assert(all@[1] == m),
                Method::Post => assert(all@[2] == m),
                Method::Put => assert(all@[3] == m),
                Method::Delete => assert(all@[4] == m),
                Method::Head => assert(all@[5] == m),
                Method::Patch => assert(all@[6] == m),
            }
        }
        Err(MethodError::InvalidMethod)
    }
}

impl core::str::FromStr for Method {
    type Err = MethodError;

    fn from_str(s: &str) -> (r: Result<Self, Self::Err>)
        ensures
            match r {
                Ok(m) => method_name(m) == s@,
                Err(e) => e == MethodError::InvalidMethod && forall|m: Method| method_name(m) != s@,
            },
            r == match spec_method_from_bytes(vstd::utf8::encode_utf8(s@)) {
                Some(m) => Ok::<Method, MethodError>(m),
                None => Err::<Method, MethodError>(MethodError::InvalidMethod),
            },
    {
        Method::parse(s)
    }
}

/// Each method's name, read back as bytes, gives that method again, and
/// parsing its name gives it again.
pub proof fn lemma_method_name_roundtrip(m: Method)
    ensures
        spec_method_from_bytes(method_bytes(m)) == Some(m),
        forall|n: Method| method_name(n) == method_name(m) ==> n == m,
{
    reveal_with_fuel(spec_method_from_bytes, 1);
    assert(method_bytes(Method::Get) != method_bytes(Method::Options));
    assert(method_bytes(Method::Post) != method_bytes(Method::Options));
    assert(method_bytes(Method::Post) != method_bytes(Method::Get));
    assert(method_bytes(Method::Put) != method_bytes(Method::Post));
    assert(method_bytes(Method::Put) != method_bytes(Method::Get));
    assert(method_bytes(Method::Put) != method_bytes(Method::Options));
    assert(method_bytes(Method::Delete) != method_bytes(Method::Put));
    assert(method_bytes(Method::Head) != method_bytes(Method::Put));
    assert(method_bytes(Method::Patch) != method_bytes(Method::Put));
    assert(method_bytes(Method::Head) != method_bytes(Method::Post));
    assert(method_bytes(Method::Patch) != method_bytes(Method::Post));
    assert forall|n: Method| method_name(n) == method_name(m) implies n == m by {
        if n != m {
            assert(method_name(n).len() != method_name(m).len()
                || method_name(n)[0] != method_name(m)[0]
                || method_name(n)[1] != method_name(m)[1]);
        }
    }
}

/// The bytes of a sequence of ASCII characters, one byte per character.
pub open spec fn ascii_bytes(chars: Seq<char>) -> Seq<u8> {
    Seq::new(chars.len(), |i: int| chars[i] as u32 as u8)
}

/// The UTF-8 encoding of ASCII characters is one byte per character.
pub proof fn lemma_ascii_utf8(chars: Seq<char>)
    requires
        forall|i: int| 0 <= i < chars.len() ==> (#[trigger] chars[i]) as u32 <= 0x7f,
    ensures
        vstd::utf8::encode_utf8(chars) == ascii_bytes(chars),
    decreases chars.len(),
{
    if chars.len() > 0 {
        let v = chars[0] as u32;
        assert(v <= 0x7f);
        assert((v & 0x7f) as u8 == v as u8) by (bit_vector)
            requires
                v <= 0x7f,
        ;
        let rest = chars.drop_first();
        assert forall|i: int| 0 <= i < rest.len() implies (#[trigger] rest[i]) as u32 <= 0x7f by {
            assert(rest[i] == chars[i + 1]);
        }
        lemma_ascii_utf8(rest);
        assert(vstd::utf8::encode_utf8(chars) =~= ascii_bytes(chars));
    } else {
        assert(vstd::utf8::encode_utf8(chars) =~= ascii_bytes(chars));
    }
}

/// The UTF-8 encoding of a method's name is its name as bytes.
pub proof fn lemma_method_name_utf8(m: Method)
    ensures
        vstd::utf8::encode_utf8(method_name(m)) == method_bytes(m),
{
    let n = method_name(m);
    assert forall|i: int| 0 <= i < n.len() implies (#[trigger] n[i]) as u32 <= 0x7f by {}
    lemma_ascii_utf8(n);
    assert(ascii_bytes(n) =~= method_bytes(m));
}

/// A string names a method exactly when its UTF-8 encoding is the method's
/// name as bytes, so reading a method from a string and from its bytes agree.
pub proof fn lemma_name_iff_bytes(s: Seq<char>)
    ensures
        forall|m: Method| (method_name(m) == s) == (method_bytes(m) == vstd::utf8::encode_utf8(s)),
        match spec_method_from_bytes(vstd::utf8::encode_utf8(s)) {
            Some(m) => method_name(m) == s,
            None => forall|m: Method| method_name(m) != s,
        },
        forall|m: Method|
            method_name(m) == s ==> spec_method_from_bytes(vstd::utf8::encode_utf8(s)) == Some(m),
{
    assert forall|m: Method|
        method_name(m) == s implies spec_method_from_bytes(vstd::utf8::encode_utf8(s)) == Some(m) by {
        lemma_method_name_utf8(m);
        lemma_method_name_roundtrip(m);
    }
    assert forall|m: Method| (method_name(m) == s) == (method_bytes(m) == vstd::utf8::encode_utf8(s)) by {
        lemma_method_name_utf8(m);
        if method_bytes(m) == vstd::utf8::encode_utf8(s) {
            vstd::utf8::encode_utf8_decode_utf8(s);
            vstd::utf8::encode_utf8_decode_utf8(method_name(m));
        }
    }
    match spec_method_from_bytes(vstd::utf8::encode_utf8(s)) {
        Some(m) => {
            assert(method_bytes(m) == vstd::utf8::encode_utf8(s));
        },
        None => {
            assert forall|m: Method| method_name(m) != s by {
                if method_name(m) == s {
                    lemma_method_name_roundtrip(m);
                }
            }
        },
    }
}

/// Each method is named by its HTTP token, and read back from that token as
/// text and as bytes.
pub proof fn lemma_method_tokens()
    ensures
        method_name(Method::Options) == "OPTIONS"@,
        method_name(Method::Get) == "GET"@,
        method_name(Method::Post) == "POST"@,
        method_name(Method::Put) == "PUT"@,
        method_name(Method::Delete) == "DELETE"@,
        method_name(Method::Head) == "HEAD"@,
        method_name(Method::Patch) == "PATCH"@,
        spec_method_from_bytes(vstd::utf8::encode_utf8("OPTIONS"@)) == Some(Method::Options),
        spec_method_from_bytes(vstd::utf8::encode_utf8("GET"@)) == Some(Method::Get),
        spec_method_from_bytes(vstd::utf8::encode_utf8("POST"@)) == Some(Method::Post),
        spec_method_from_bytes(vstd::utf8::encode_utf8("PUT"@)) == Some(Method::Put),
        spec_method_from_bytes(vstd::utf8::encode_utf8("DELETE"@)) == Some(Method::Delete),
        spec_method_from_bytes(vstd::utf8::encode_utf8("HEAD"@)) == Some(Method::Head),
        spec_method_from_bytes(vstd::utf8::encode_utf8("PATCH"@)) == Some(Method::Patch),
{
    reveal_strlit("OPTIONS");
    assert(method_name(Method::Options) =~= "OPTIONS"@);
    lemma_method_name_utf8(Method::Options);
    lemma_method_name_roundtrip(Method::Options);
    reveal_strlit("GET");
    assert(method_name(Method::Get) =~= "GET"@);
    lemma_method_name_utf8(Method::Get);
    lemma_method_name_roundtrip(Method::Get);
    reveal_strlit("POST");
    assert(method_name(Method::Post) =~= "POST"@);
    lemma_method_name_utf8(Method::Post);
    lemma_method_name_roundtrip(Method::Post);
    reveal_strlit("PUT");
    assert(method_name(Method::Put) =~= "PUT"@);
    lemma_method_name_utf8(Method::Put);
    lemma_method_name_roundtrip(Method::Put);
    reveal_strlit("DELETE");
    assert(method_name(Method::Delete) =~= "DELETE"@);
    lemma_method_name_utf8(Method::Delete);
    lemma_method_name_roundtrip(Method::Delete);
    reveal_strlit("HEAD");
    assert(method_name(Method::Head) =~= "HEAD"@);
    lemma_method_name_utf8(Method::Head);
    lemma_method_name_roundtrip(Method::Head);
    reveal_strlit("PATCH");
    assert(method_name(Method::Patch) =~= "PATCH"@);
    lemma_method_name_utf8(Method::Patch);
    lemma_method_name_roundtrip(Method::Patch);
}

} // verus!
