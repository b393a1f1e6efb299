//! Pages: the response-producing behaviours a route can be bound to.
//!
//! Every I/O-dependent step is resolved when a page is prepared: a
//! static file is read fully into memory by the caller and installed
//! here once, a regular expression is compiled once. Serving afterwards
//! is pure; only the reverse-proxy variant leaves work — the network
//! call itself — to the surrounding server, described by the
//! `ServeOutcome` it returns.

use vstd::prelude::*;

use crate::errors::{ConfigError, ErrView, ErrorContext};
use crate::http::{HttpRequest, HttpResponse};

verus! {

/// A response-producing behaviour bound to a matched route.
pub enum StaticPage {
    /// A temporary redirect to the literal target `to`.
    Redirect { to: String },
    /// A `200` response with fixed in-memory bytes.
    Embedded { data: Vec<u8>, content_type: String },
    /// Like `Embedded`, but the bytes are read from `path` once, at
    /// preparation time, into `cached_data`; serving never reads the
    /// file again.
    StaticFile { path: String, content_type: String, cached_data: Vec<u8> },
    /// Forward the request to `scheme://host` and return the upstream
    /// response verbatim.
    ReverseProxy { scheme: String, host: String },
}

/// What serving a page asks of the caller: either a finished response,
/// produced without I/O, or an instruction to forward the request.
pub enum ServeOutcome {
    /// A finished response.
    Ready(HttpResponse),
    /// Forward the request to `scheme://host`, preserving its method,
    /// path, query, headers and body; hand the upstream response back to
    /// the client verbatim, or a gateway error when forwarding fails.
    Proxy { scheme: String, host: String, request: HttpRequest },
}

/// The outcome of reading a page's backing file, as mathematical values.
pub open spec fn file_view(f: Option<Result<Vec<u8>, String>>) -> Option<Result<Seq<u8>, Seq<char>>> {
    match f {
        None => None,
        Some(Ok(b)) => Some(Ok(b@)),
        Some(Err(m)) => Some(Err(m@)),
    }
}

/// A file-read outcome is handed in exactly for a page that has a
/// backing file.
pub open spec fn file_matches_page(p: StaticPage, f: Option<Result<Vec<u8>, String>>) -> bool {
    (f is Some) <==> (p is StaticFile)
}

/// The problem preparing `p` against file outcome `f` reports; `None`
/// when preparation succeeds.
pub open spec fn page_err(p: StaticPage, f: Option<Result<Vec<u8>, String>>) -> Option<ErrView> {
    if p is StaticFile {
        match f {
            Some(Err(m)) => Some(
                ErrView { message: m@, contexts: seq![ErrorContext::InStaticFilePage] },
            ),
            _ => None,
        }
    } else {
        None
    }
}

/// `q` is `p` with preparation carried out against file outcome `f`:
/// for a static file the read bytes are installed in the cache, and
/// every other page is untouched.
pub open spec fn page_prepared_from(
    p: StaticPage,
    f: Option<Result<Vec<u8>, String>>,
    q: StaticPage,
) -> bool {
    match p {
        StaticPage::StaticFile { path, content_type, cached_data } => {
            &&& q is StaticFile
            &&& q->StaticFile_path@ == path@
            &&& q->StaticFile_content_type@ == content_type@
            &&& (f matches Some(Ok(b)) ==> q->StaticFile_cached_data@ == b@)
        },
        _ => q == p,
    }
}

/// `a` and `b` configure the same behaviour: the same variant with the
/// same strings and bytes, the file cache aside.
pub open spec fn page_like(a: StaticPage, b: StaticPage) -> bool {
    match (a, b) {
        (StaticPage::Redirect { to: t1 }, StaticPage::Redirect { to: t2 }) => t1@ == t2@,
        (
            StaticPage::Embedded { data: d1, content_type: c1 },
            StaticPage::Embedded { data: d2, content_type: c2 },
        ) => d1@ == d2@ && c1@ == c2@,
        (
            StaticPage::StaticFile { path: p1, content_type: c1, .. },
            StaticPage::StaticFile { path: p2, content_type: c2, .. },
        ) => p1@ == p2@ && c1@ == c2@,
        (
            StaticPage::ReverseProxy { scheme: s1, host: h1 },
            StaticPage::ReverseProxy { scheme: s2, host: h2 },
        ) => s1@ == s2@ && h1@ == h2@,
        _ => false,
    }
}

/// What `serve` returns for page `p` and request `req`, clause by
/// clause: the exact status, headers and body of each ready response,
/// and the exact forwarding instruction of a reverse proxy.
pub open spec fn serve_outcome_matches(p: StaticPage, req: HttpRequest, r: ServeOutcome) -> bool {
    match p {
        StaticPage::Redirect { to } => {
            &&& r matches ServeOutcome::Ready(resp)
            &&& resp.status == 307
            &&& resp.headers@.len() == 1
            &&& resp.headers@[0].0@ == "Location"@
            &&& resp.headers@[0].1@ == to@
            &&& resp.body@ == Seq::<u8>::empty()
        },
        StaticPage::Embedded { data, content_type } => {
            &&& r matches ServeOutcome::Ready(resp)
            &&& resp.status == 200
            &&& resp.headers@.len() == 1
            &&& resp.headers@[0].0@ == "Content-Type"@
            &&& resp.headers@[0].1@ == content_type@
            &&& resp.body@ == data@
        },
        StaticPage::StaticFile { content_type, cached_data, .. } => {
            &&& r matches ServeOutcome::Ready(resp)
            &&& resp.status == 200
            &&& resp.headers@.len() == 1
            &&& resp.headers@[0].0@ == "Content-Type"@
            &&& resp.headers@[0].1@ == content_type@
            &&& resp.body@ == cached_data@
        },
        StaticPage::ReverseProxy { scheme, host } => {
            &&& r matches ServeOutcome::Proxy { scheme: s, host: h, request: q }
            &&& s@ == scheme@
            &&& h@ == host@
            &&& q == req
        },
    }
}

/// A byte-for-byte copy of `src`.
fn copy_bytes(src: &Vec<u8>) -> (r: Vec<u8>)
    ensures
        r@ == src@,
{
    let mut out: Vec<u8> = Vec::new();
    let mut i: usize = 0;
    while i < src.len()
        invariant
            i <= src@.len(),
            out@ == src@.subrange(0, i as int),
        decreases src@.len() - i,
    {
        out.push(src[i]);
        proof {
            assert(out@ =~= src@.subrange(0, i as int + 1));
        }
        i = i + 1;
    }
    proof {
        assert(out@ =~= src@);
    }
    out
}

impl StaticPage {
    /// Serves a request. Pure: the response of a redirect, embedded or
    /// static-file page is computed from the page alone, with no I/O;
    /// a reverse proxy hands back the forwarding instruction with the
    /// request preserved whole.
    pub fn serve(&self, req: HttpRequest) -> (r: ServeOutcome)
        ensures
            serve_outcome_matches(*self, req, r),
    {
        match self {
            StaticPage::Redirect { to } => {
                let mut headers: Vec<(String, String)> = Vec::new();
                headers.push(("Location".to_owned(), to.clone()));
                ServeOutcome::Ready(HttpResponse { status: 307, headers, body: Vec::new() })
            },
            StaticPage::Embedded { data, content_type } => {
                let mut headers: Vec<(String, String)> = Vec::new();
                headers.push(("Content-Type".to_owned(), content_type.clone()));
                ServeOutcome::Ready(
                    HttpResponse { status: 200, headers, body: copy_bytes(data) },
                )
            },
            StaticPage::StaticFile { content_type, cached_data, .. } => {
                let mut headers: Vec<(String, String)> = Vec::new();
                headers.push(("Content-Type".to_owned(), content_type.clone()));
                ServeOutcome::Ready(
                    HttpResponse { status: 200, headers, body: copy_bytes(cached_data) },
                )
            },
            StaticPage::ReverseProxy { scheme, host } => {
                ServeOutcome::Proxy { scheme: scheme.clone(), host: host.clone(), request: req }
            },
        }
    }

    /// Validates and prepares the page in place. The caller reads the
    /// backing file of a static-file page and hands the outcome in as
    /// `file`; all other variants take no file and need no work.
    pub fn check(&mut self, file: Option<Result<Vec<u8>, String>>) -> (r: Result<(), ConfigError>)
        requires
            file_matches_page(*old(self), file),
        ensures
            r is Ok <==> page_err(*old(self), file) is None,
            r is Ok ==> page_prepared_from(*old(self), file, *final(self)),
            page_like(*old(self), *final(self)),
            r is Err ==> *final(self) == *old(self),
            r matches Err(e) ==> (page_err(*old(self), file) matches Some(v) && e@ == v),
    {
        let mut owned = StaticPage::Redirect { to: String::new() };
        core::mem::swap(self, &mut owned);
        let (p2, res) = page_check_owned(owned, file);
        *self = p2;
        res
    }
}

/// Validates and prepares a page, returning the prepared form.
pub(crate) fn page_check_owned(
    p: StaticPage,
    file: Option<Result<Vec<u8>, String>>,
) -> (r: (StaticPage, Result<(), ConfigError>))
    requires
        file_matches_page(p, file),
    ensures
        r.1 is Ok <==> page_err(p, file) is None,
        r.1 is Ok ==> page_prepared_from(p, file, r.0),
        page_like(p, r.0),
        r.1 is Err ==> r.0 == p,
        r.1 matches Err(e) ==> (page_err(p, file) matches Some(v) && e@ == v),
{
    match p {
        StaticPage::StaticFile { path, content_type, cached_data } => {
            match file {
                Some(Ok(bytes)) => (
                    StaticPage::StaticFile { path, content_type, cached_data: bytes },
                    Ok(()),
                ),
                Some(Err(m)) => {
                    let e = ConfigError::new(m).with_context(ErrorContext::InStaticFilePage);
                    proof {
                        assert(Seq::<ErrorContext>::empty().push(ErrorContext::InStaticFilePage)
                            =~= seq![ErrorContext::InStaticFilePage]);
                    }
                    (StaticPage::StaticFile { path, content_type, cached_data }, Err(e))
                },
                None => (StaticPage::StaticFile { path, content_type, cached_data }, Ok(())),
            }
        },
        other => (other, Ok(())),
    }
}

} // verus!
