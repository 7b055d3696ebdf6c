//! The responder that serves the editor's page.
//!
//! Every address gets the same page, so that the page itself can decide what
//! to show for an address.

use vstd::prelude::*;
use vstd::string::*;

verus! {

/// A request for a page.
#[derive(Clone, Debug, PartialEq, Eq)]
pub struct HttpRequest {
    pub method: String,
    pub url: String,
    pub headers: Vec<(String, String)>,
    pub body: Vec<u8>,
}

/// The answer to a request for a page.
#[derive(Clone, Debug, PartialEq, Eq)]
pub struct HttpResponse {
    pub status_code: u16,
    pub headers: Vec<(String, String)>,
    pub body: Vec<u8>,
    pub upgrade: Option<bool>,
    pub streaming_strategy: Option<String>,
}

/// A response as plain mathematical values.
pub struct ResponseModel {
    pub status_code: u16,
    pub headers: Seq<(Seq<char>, Seq<char>)>,
    pub body: Seq<u8>,
    pub upgrade: Option<bool>,
    pub streaming_strategy: Option<Seq<char>>,
}

impl View for HttpResponse {
    type V = ResponseModel;

    open spec fn view(&self) -> ResponseModel {
        ResponseModel {
            status_code: self.status_code,
            headers: Seq::new(
                self.headers@.len(),
                |i: int| (self.headers@[i].0@, self.headers@[i].1@),
            ),
            body: self.body@,
            upgrade: self.upgrade,
            streaming_strategy: match self.streaming_strategy {
                Some(text) => Some(text@),
                None => None,
            },
        }
    }
}

/// The response that serves `page`: status 200, the page as the body, marked
/// as HTML that is not to be cached.
pub open spec fn page_response(page: Seq<u8>) -> ResponseModel {
    ResponseModel {
        status_code: 200,
        headers: seq![
            ("Content-Type"@, "text/html"@),
            ("Cache-Control"@, "no-cache"@),
        ],
        body: page,
        upgrade: None,
        streaming_strategy: None,
    }
}

/// Answers a request with the editor's page, whatever the request asks for.
pub fn http_request(req: HttpRequest, page: &[u8]) -> (response: HttpResponse)
    ensures
        response@ == page_response(page@),
{
    let mut headers: Vec<(String, String)> = Vec::new();
    headers.push((String::from_str("Content-Type"), String::from_str("text/html")));
    headers.push((String::from_str("Cache-Control"), String::from_str("no-cache")));
    let response = HttpResponse {
        status_code: 200,
        headers,
        body: vstd::slice::slice_to_vec(page),
        upgrade: None,
        streaming_strategy: None,
    };
    assert(response@.headers =~= page_response(page@).headers);
    response
}

} // verus!
