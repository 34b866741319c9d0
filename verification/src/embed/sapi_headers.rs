//! Owned copies of the response headers a SAPI is handed.
use vstd::prelude::*;

use crate::text::{trim, trim_str};
use crate::types::zval::utf8_str;

verus! {

/// The response status PHP set, copied out of the engine.
#[derive(Debug)]
pub struct SapiHeaders {
    http_response_code: i32,
}

impl SapiHeaders {
    /// A copy holding the given status code.
    pub fn snapshot(http_response_code: i32) -> (r: Self)
        ensures
            r.http_response_code() == http_response_code,
    {
        SapiHeaders { http_response_code }
    }

    /// The status code.
    pub closed spec fn spec_code(&self) -> i32 {
        self.http_response_code
    }

    /// The HTTP response code set by PHP (e.g. 200, 404, 500).
    #[verifier::when_used_as_spec(spec_code)]
    pub fn http_response_code(&self) -> (r: i32)
        ensures
            r == self.spec_code(),
    {
        self.http_response_code
    }
}

/// One response header PHP sent, copied out of the engine.
#[derive(Debug)]
pub struct SapiHeader {
    header: Option<Vec<u8>>,
    header_len: usize,
}

/// Index of the first `:` in `s`, if any.
pub open spec fn first_colon(s: Seq<char>) -> Option<int> {
    if exists|i: int| 0 <= i < s.len() && s[i] == ':' {
        Some(choose|i: int| 0 <= i < s.len() && s[i] == ':' && forall|j: int| 0 <= j < i ==> s[j] != ':')
    } else {
        None
    }
}

impl SapiHeader {
    /// A copy of a header: its bytes, if the engine had any, and the length it
    /// reported. A reported length of 0 keeps no bytes.
    pub fn snapshot(header: Option<Vec<u8>>, header_len: usize) -> (r: Self)
        ensures
            r.len() == header_len,
            r.bytes() == (match header {
                Some(b) => if header_len == 0 { Some(Seq::<u8>::empty()) } else { Some(b@) },
                None => None,
            }),
    {
        let header = match header {
            Some(b) => if header_len == 0 {
                Some(Vec::new())
            } else {
                Some(b)
            },
            None => None,
        };
        SapiHeader { header, header_len }
    }

    /// The copied bytes.
    pub closed spec fn bytes(&self) -> Option<Seq<u8>> {
        match self.header {
            Some(b) => Some(b@),
            None => None,
        }
    }

    /// The reported length.
    pub closed spec fn spec_len(&self) -> usize {
        self.header_len
    }

    /// The header text; `None` when it is empty, missing or not valid UTF-8.
    pub open spec fn text(&self) -> Option<Seq<char>> {
        if self.len() != 0 && self.bytes() is Some && vstd::utf8::valid_utf8(self.bytes().unwrap()) {
            Some(vstd::utf8::decode_utf8(self.bytes().unwrap()))
        } else {
            None
        }
    }

    /// The raw header line (e.g. `"Content-Type: text/html"`); `None` when it
    /// is empty, missing or not valid UTF-8.
    pub fn as_str(&self) -> (r: Option<&str>)
        ensures
            match r {
                Some(s) => self.text() == Some(s@),
                None => self.text() is None,
            },
    {
        if self.header_len == 0 {
            return None;
        }
        match &self.header {
            Some(b) => utf8_str(b.as_slice()),
            None => None,
        }
    }

    /// The header split at its first `:` into name and value, both trimmed;
    /// `None` when there is no text or no `:`.
    pub fn as_name_value(&self) -> (r: Option<(&str, &str)>)
        ensures
            match r {
                Some((n, v)) => self.text() matches Some(t) && first_colon(t) matches Some(i)
                    && n@ == trim(t.subrange(0, i)) && v@ == trim(t.subrange(i + 1, t.len() as int)),
                None => self.text() is None || first_colon(self.text().unwrap()) is None,
            },
    {
        let s = match self.as_str() {
            Some(s) => s,
            None => return None,
        };
        assert(self.text() == Some(s@));
        let n = s.unicode_len();
        let mut i: usize = 0;
        while i < n
            invariant
                n == s@.len(),
                i <= n,
                self.text() == Some(s@),
                forall|j: int| 0 <= j < i ==> s@[j] != ':',
            decreases n - i,
        {
            if s.get_char(i) == ':' {
                assert(first_colon(s@) == Some(i as int)) by {
                    assert(0 <= i < s@.len() && s@[i as int] == ':' && forall|j: int| 0 <= j < i ==> s@[j] != ':');
                    let k = choose|k: int| 0 <= k < s@.len() && s@[k] == ':' && forall|j: int| 0 <= j < k ==> s@[j] != ':';
                    if k < i {
                        assert(s@[k] != ':');
                    }
                    if k > i {
                        assert(s@[i as int] != ':');
                    }
                }
                let name = trim_str(s.substring_char(0, i));
                let value = trim_str(s.substring_char(i + 1, n));
                return Some((name, value));
            }
            i = i + 1;
        }
        assert(first_colon(s@) is None);
        None
    }

    /// The length of the header in bytes.
    #[verifier::when_used_as_spec(spec_len)]
    pub fn len(&self) -> (r: usize)
        ensures
            r == self.spec_len(),
    {
        self.header_len
    }

    /// Whether the header is empty.
    pub fn is_empty(&self) -> (r: bool)
        ensures
            r == (self.len() == 0),
    {
        self.header_len == 0
    }
}

/// What a SAPI's `send_headers` callback tells the engine.
#[non_exhaustive]
#[derive(Debug, Clone, Copy, PartialEq, Eq)]
pub enum SendHeadersResult {
    /// The SAPI sent every header itself.
    SentSuccessfully,
    /// The engine should hand the headers over one by one.
    DoSend,
    /// Sending failed.
    Failed,
}

impl SendHeadersResult {
    /// The engine's code for the result (`SAPI_HEADER_*`).
    pub fn into_c_int(self) -> (r: i32)
        ensures
            r == (match self {
                SendHeadersResult::SentSuccessfully => 1i32,
                SendHeadersResult::DoSend => 2i32,
                SendHeadersResult::Failed => 3i32,
            }),
    {
        match self {
            SendHeadersResult::SentSuccessfully => 1,
            SendHeadersResult::DoSend => 2,
            SendHeadersResult::Failed => 3,
        }
    }
}

} // verus!
