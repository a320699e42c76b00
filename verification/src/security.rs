//! The security headers that every response of the gateway carries.

use vstd::prelude::*;

verus! {

/// The fixed headers, as pairs of a lower-case name and a value.
pub open spec fn security_headers() -> Seq<(Seq<char>, Seq<char>)> {
    seq![
        ("content-security-policy"@, "default-src 'self'"@),
        ("x-content-type-options"@, "nosniff"@),
    ]
}

/// Header pairs as characters.
pub open spec fn headers_view(headers: Seq<(String, String)>) -> Seq<(Seq<char>, Seq<char>)> {
    headers.map_values(|pair: (String, String)| (pair.0@, pair.1@))
}

/// The first gate of the pipeline: it marks the response and never refuses.
#[derive(Clone, Copy, Debug, Default, PartialEq, Eq)]
pub struct SecurityHeaders;

impl SecurityHeaders {
    /// The headers to set on a response, each replacing what the response
    /// holds under the same name.
    pub fn headers(&self) -> (headers: Vec<(String, String)>)
        ensures
            headers_view(headers@) == security_headers(),
    {
        let mut headers: Vec<(String, String)> = Vec::new();
        headers.push(("content-security-policy".to_owned(), "default-src 'self'".to_owned()));
        headers.push(("x-content-type-options".to_owned(), "nosniff".to_owned()));
        assert(headers_view(headers@) =~= security_headers());
        headers
    }
}

} // verus!
