//! Requests to a tracker, as plain values for a transport to perform.

use crate::text::pair_views;
use base64::Engine;
use vstd::prelude::*;

verus! {

/// A GET request: the address, the headers to send along and the
/// parameters of the query string, each as a name with its value.
#[derive(Debug)]
pub struct HttpRequest {
    pub url: String,
    pub headers: Vec<(String, String)>,
    pub query: Vec<(String, String)>,
}

/// The mathematical content of an `HttpRequest`.
pub struct HttpRequestView {
    pub url: Seq<char>,
    pub headers: Seq<(Seq<char>, Seq<char>)>,
    pub query: Seq<(Seq<char>, Seq<char>)>,
}

impl View for HttpRequest {
    type V = HttpRequestView;

    open spec fn view(&self) -> HttpRequestView {
        HttpRequestView {
            url: self.url@,
            headers: pair_views(self.headers@),
            query: pair_views(self.query@),
        }
    }
}

/// A request without headers or parameters.
pub open spec fn plain_request(url: Seq<char>) -> HttpRequestView {
    HttpRequestView { url, headers: Seq::empty(), query: Seq::empty() }
}

impl HttpRequest {
    /// A request for `url` without headers or parameters.
    pub fn get(url: String) -> (r: HttpRequest)
        ensures
            r@ == plain_request(url@),
    {
        let r = HttpRequest { url, headers: Vec::new(), query: Vec::new() };
        assert(pair_views(r.query@) =~= Seq::empty());
        r
    }

    /// The request with one more header, behind those it has.
    pub fn set(self, name: &str, value: String) -> (r: HttpRequest)
        ensures
            r@ == (HttpRequestView { headers: self@.headers.push((name@, value@)), ..self@ }),
    {
        let mut r = self;
        r.headers.push((name.to_owned(), value));
        assert(pair_views(r.headers@) =~= self@.headers.push((name@, value@)));
        r
    }

    /// The request with one more parameter, behind those it has.
    pub fn query(self, name: &str, value: String) -> (r: HttpRequest)
        ensures
            r@ == (HttpRequestView { query: self@.query.push((name@, value@)), ..self@ }),
    {
        let mut r = self;
        r.query.push((name.to_owned(), value));
        assert(pair_views(r.query@) =~= self@.query.push((name@, value@)));
        r
    }
}

/// The standard base64 encoding, with padding, of the UTF-8 bytes of a text.
pub uninterp spec fn base64_text(text: Seq<char>) -> Seq<char>;

/// Calls `encode` of the base64 crate's `STANDARD` engine on the bytes of
/// the text. Trusted: the result depends on the text alone. The call
/// panics only where four thirds of the length overflow `usize`, which no
/// string in memory reaches.
#[verifier::external_body]
pub(crate) fn base64_encode(text: &str) -> (r: String)
    ensures
        r@ == base64_text(text@),
{
    base64::prelude::BASE64_STANDARD.encode(text)
}

} // verus!
