//! Plain models of HTTP requests and responses. The surrounding server
//! converts its transport types into these values and back; the routing
//! and serving logic reads and produces nothing else.

use vstd::prelude::*;

verus! {

/// An incoming request, reduced to what routing and serving read.
pub struct HttpRequest {
    /// The request method, e.g. `GET`.
    pub method: String,
    /// The raw request path; `None` when the transport could not extract
    /// one from the request.
    pub path: Option<String>,
    /// The query string, without the `?`, when there is one.
    pub query: Option<String>,
    /// The request headers, in order.
    pub headers: Vec<(String, String)>,
    /// The request body.
    pub body: Vec<u8>,
}

/// The path of a request as a sequence of characters, when it has one.
pub open spec fn req_path_view(req: HttpRequest) -> Option<Seq<char>> {
    match req.path {
        None => None,
        Some(p) => Some(p@),
    }
}

/// An outgoing response.
pub struct HttpResponse {
    /// The status code, e.g. `200`.
    pub status: u16,
    /// The response headers, in order.
    pub headers: Vec<(String, String)>,
    /// The response body.
    pub body: Vec<u8>,
}

} // verus!
