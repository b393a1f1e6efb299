//! The routing table: an ordered list of handlers (first match wins),
//! the fallback pages, and the bind address, validated and prepared as a
//! whole before it may serve a single request.

use vstd::prelude::*;
use vstd::pervasive::arbitrary;
use vstd::string::StrSliceExecFns;
use vstd::string::StringSliceAdditionalSpecFns;

use crate::check::CheckConfig;
use crate::errors::{add_ctx, ConfigError, ErrView, ErrorContext};
use crate::matcher::{lemma_err_none_iff_valid, lemma_like_reflexive, lemma_like_same_meaning,
    matcher_err, matcher_like, matcher_matches, matcher_prepared, Matcher};
use crate::page::{file_matches_page, page_check_owned, page_err, page_like, page_prepared_from,
    StaticPage};

verus! {

/// One routing rule: a matcher paired with the page it serves.
pub struct Handler {
    /// The predicate a request path must satisfy.
    pub matcher: Matcher,
    /// The page served when the matcher accepts the path.
    pub page: StaticPage,
}

/// The matcher of the handler is fully prepared.
pub open spec fn handler_prepared(h: Handler) -> bool {
    matcher_prepared(h.matcher)
}

/// `a` and `b` carry the same plain routing rule, preparation artifacts
/// aside.
pub open spec fn handler_like(a: Handler, b: Handler) -> bool {
    matcher_like(a.matcher, b.matcher) && page_like(a.page, b.page)
}

/// The first problem preparing a handler against file outcome `f`:
/// its matcher's first problem, else its page's, each located.
pub open spec fn handler_err(h: Handler, f: Option<Result<Vec<u8>, String>>) -> Option<ErrView> {
    match matcher_err(h.matcher) {
        Some(e) => Some(add_ctx(e, ErrorContext::InRootMatcher)),
        None => match page_err(h.page, f) {
            Some(e) => Some(add_ctx(e, ErrorContext::InPage)),
            None => None,
        },
    }
}

/// `handler_like` holds of every handler and itself.
pub proof fn lemma_handler_like_reflexive(h: Handler)
    ensures
        handler_like(h, h),
{
    lemma_like_reflexive(h.matcher);
}

/// Validates and prepares a handler, returning the prepared form: its
/// matcher first, then its page, stopping at the first failure.
pub(crate) fn handler_check_owned(
    h: Handler,
    file: Option<Result<Vec<u8>, String>>,
) -> (r: (Handler, Result<(), ConfigError>))
    requires
        file_matches_page(h.page, file),
    ensures
        handler_like(h, r.0),
        r.1 is Ok <==> handler_err(h, file) is None,
        r.1 is Ok ==> handler_prepared(r.0) && page_prepared_from(h.page, file, r.0.page),
        r.1 matches Err(e) ==> (handler_err(h, file) matches Some(v) && e@ == v),
{
    let ghost horig = h;
    let Handler { matcher, page } = h;
    let mut matcher = matcher;
    proof {
        lemma_err_none_iff_valid(horig.matcher);
    }
    let res1 = matcher.check();
    match res1 {
        Err(e) => (
            Handler { matcher, page },
            Err(e.with_context(ErrorContext::InRootMatcher)),
        ),
        Ok(()) => {
            let (page2, res2) = page_check_owned(page, file);
            match res2 {
                Err(e) => (
                    Handler { matcher, page: page2 },
                    Err(e.with_context(ErrorContext::InPage)),
                ),
                Ok(()) => (Handler { matcher, page: page2 }, Ok(())),
            }
        },
    }
}

impl Handler {
    /// Validates and prepares the handler in place; `file` is the
    /// outcome of reading its page's backing file, where it has one.
    pub fn check(&mut self, file: Option<Result<Vec<u8>, String>>) -> (r: Result<
        (),
        ConfigError,
    >)
        requires
            file_matches_page(old(self).page, file),
        ensures
            handler_like(*old(self), *final(self)),
            r is Ok <==> handler_err(*old(self), file) is None,
            r is Ok ==> handler_prepared(*final(self)) && page_prepared_from(
                old(self).page,
                file,
                final(self).page,
            ),
            r matches Err(e) ==> (handler_err(*old(self), file) matches Some(v) && e@ == v),
    {
        let mut owned = Handler { matcher: Matcher::Root, page: StaticPage::Redirect {
            to: String::new(),
        } };
        core::mem::swap(self, &mut owned);
        let (h2, res) = handler_check_owned(owned, file);
        *self = h2;
        res
    }
}

/// The address a server binds: host and port.
pub struct HostSpec {
    /// The host to bind, e.g. `127.0.0.1`.
    pub host: String,
    /// The port to bind.
    pub port: u16,
}

/// `a` and `b` name the same bind address.
pub open spec fn host_eq(a: HostSpec, b: HostSpec) -> bool {
    a.host@ == b.host@ && a.port == b.port
}

impl HostSpec {
    /// The host used when the configuration names none.
    pub fn default_host() -> (r: String)
        ensures
            r@ == "127.0.0.1"@,
    {
        "127.0.0.1".to_owned()
    }

    /// The port used when the configuration names none.
    pub fn default_port() -> (r: u16)
        ensures
            r == 8387,
    {
        8387
    }
}

impl Default for HostSpec {
    /// The default bind address.
    fn default() -> (r: Self)
        ensures
            r.host@ == "127.0.0.1"@,
            r.port == 8387,
    {
        HostSpec { host: HostSpec::default_host(), port: HostSpec::default_port() }
    }
}

impl PartialEq for HostSpec {
    fn eq(&self, other: &HostSpec) -> (r: bool) {
        self.host == other.host && self.port == other.port
    }
}

impl vstd::std_specs::cmp::PartialEqSpecImpl for HostSpec {
    open spec fn obeys_eq_spec() -> bool {
        true
    }

    open spec fn eq_spec(&self, other: &HostSpec) -> bool {
        host_eq(*self, *other)
    }
}

impl CheckConfig for HostSpec {
    open spec fn valid(self) -> bool {
        true
    }

    open spec fn prepared(self) -> bool {
        true
    }

    open spec fn like(self, other: Self) -> bool {
        host_eq(self, other)
    }

    open spec fn check_error(self) -> ErrView {
        arbitrary()
    }

    fn check(&mut self) -> (r: Result<(), ConfigError>) {
        Ok(())
    }
}

/// The fallback pages: one per way a request can miss every handler.
pub struct ErrorPages {
    /// Served when no handler matches the request path.
    pub not_found: StaticPage,
    /// Served when the dispatcher cannot extract a path from the
    /// request at all.
    pub no_path: StaticPage,
}

impl ErrorPages {
    /// The page served for a routing miss when the configuration names
    /// none: an embedded `404: not found.` as `text/html`.
    pub fn default_page_not_found() -> (r: StaticPage)
        ensures
            r matches StaticPage::Embedded { data, content_type }
                && data@ == "404: not found.".spec_bytes() && content_type@ == "text/html"@,
    {
        StaticPage::Embedded {
            data: "404: not found.".as_bytes_vec(),
            content_type: "text/html".to_owned(),
        }
    }

    /// The page served for a pathless request when the configuration
    /// names none: an embedded `400: bad request.` as `text/html`.
    pub fn default_page_no_path() -> (r: StaticPage)
        ensures
            r matches StaticPage::Embedded { data, content_type }
                && data@ == "400: bad request.".spec_bytes() && content_type@ == "text/html"@,
    {
        StaticPage::Embedded {
            data: "400: bad request.".as_bytes_vec(),
            content_type: "text/html".to_owned(),
        }
    }
}

impl Default for ErrorPages {
    /// Both fallback pages at their defaults.
    fn default() -> (r: Self)
        ensures
            r.not_found matches StaticPage::Embedded { data, content_type }
                && data@ == "404: not found.".spec_bytes() && content_type@ == "text/html"@,
            r.no_path matches StaticPage::Embedded { data, content_type }
                && data@ == "400: bad request.".spec_bytes() && content_type@ == "text/html"@,
    {
        ErrorPages {
            not_found: ErrorPages::default_page_not_found(),
            no_path: ErrorPages::default_page_no_path(),
        }
    }
}

/// A full routing table: bind address, ordered handlers, fallback pages.
pub struct Config {
    /// The address the server binds; a reload may never change it.
    pub host: HostSpec,
    /// The routing rules, evaluated in order; the first whose matcher
    /// accepts the path wins.
    pub handlers: Vec<Handler>,
    /// The fallback pages.
    pub errors: ErrorPages,
}

/// The file-read outcomes handed to `check` line up with the
/// configuration: one slot per handler in order, then one for the
/// not-found page, then one for the no-path page, each filled exactly
/// when its page has a backing file.
pub open spec fn files_match(c: Config, files: Seq<Option<Result<Vec<u8>, String>>>) -> bool {
    &&& files.len() == c.handlers@.len() + 2
    &&& forall|i: int| 0 <= i < c.handlers@.len() ==> file_matches_page(
        (#[trigger] c.handlers@[i]).page,
        files[i],
    )
    &&& file_matches_page(c.errors.not_found, files[c.handlers@.len() as int])
    &&& file_matches_page(c.errors.no_path, files[c.handlers@.len() as int + 1])
}

/// The first problem among the handlers, left to right, each located by
/// its position, counting from `base`.
pub open spec fn handlers_err(
    hs: Seq<Handler>,
    fs: Seq<Option<Result<Vec<u8>, String>>>,
    base: int,
) -> Option<ErrView>
    decreases hs.len(),
{
    if hs.len() == 0 {
        None
    } else {
        match handler_err(hs[0], fs[0]) {
            Some(e) => Some(add_ctx(e, ErrorContext::InHandler { index: base as usize })),
            None => handlers_err(hs.drop_first(), fs.drop_first(), base + 1),
        }
    }
}

/// The first problem preparing a whole table: its handlers in order,
/// then the not-found page, then the no-path page; `None` when the
/// table is valid.
pub open spec fn config_err(c: Config, files: Seq<Option<Result<Vec<u8>, String>>>) -> Option<
    ErrView,
> {
    let n = c.handlers@.len() as int;
    match handlers_err(c.handlers@, files, 0) {
        Some(e) => Some(e),
        None => match page_err(c.errors.not_found, files[n]) {
            Some(e) => Some(
                add_ctx(add_ctx(e, ErrorContext::InNotFoundErrorPage), ErrorContext::InErrorHandlers),
            ),
            None => match page_err(c.errors.no_path, files[n + 1]) {
                Some(e) => Some(
                    add_ctx(add_ctx(e, ErrorContext::InNoPathErrorPage), ErrorContext::InErrorHandlers),
                ),
                None => None,
            },
        },
    }
}

/// `a` and `b` carry the same plain configuration content, preparation
/// artifacts aside: the same bind address, the same rules in the same
/// order, the same fallback pages.
pub open spec fn config_like(a: Config, b: Config) -> bool {
    &&& host_eq(a.host, b.host)
    &&& a.handlers@.len() == b.handlers@.len()
    &&& forall|i: int| 0 <= i < a.handlers@.len() ==> handler_like(
        #[trigger] a.handlers@[i],
        b.handlers@[i],
    )
    &&& page_like(a.errors.not_found, b.errors.not_found)
    &&& page_like(a.errors.no_path, b.errors.no_path)
}

/// Every matcher of the table is fully prepared: serving never meets an
/// uncompiled regular expression.
pub open spec fn config_prepared(c: Config) -> bool {
    forall|i: int| 0 <= i < c.handlers@.len() ==> handler_prepared(#[trigger] c.handlers@[i])
}

/// `c2` is `c` with preparation carried out against `files`: the same
/// plain content, every matcher prepared, and every read file installed
/// in its page's cache.
pub open spec fn config_checked_from(
    c: Config,
    files: Seq<Option<Result<Vec<u8>, String>>>,
    c2: Config,
) -> bool {
    &&& config_like(c, c2)
    &&& config_prepared(c2)
    &&& forall|i: int| 0 <= i < c.handlers@.len() ==> page_prepared_from(
        (#[trigger] c.handlers@[i]).page,
        files[i],
        c2.handlers@[i].page,
    )
    &&& page_prepared_from(c.errors.not_found, files[c.handlers@.len() as int], c2.errors.not_found)
    &&& page_prepared_from(c.errors.no_path, files[c.handlers@.len() as int + 1], c2.errors.no_path)
}

/// Validates and prepares a whole table, returning the prepared form.
/// A table that fails is reported with the location of its first
/// problem and is never meant to be installed.
#[verifier::loop_isolation(false)]
pub(crate) fn config_check_owned(
    c: Config,
    files: Vec<Option<Result<Vec<u8>, String>>>,
) -> (r: (Config, Result<(), ConfigError>))
    requires
        files_match(c, files@),
    ensures
        config_like(c, r.0),
        r.1 is Ok <==> config_err(c, files@) is None,
        r.1 is Ok ==> config_checked_from(c, files@, r.0),
        r.1 matches Err(e) ==> (config_err(c, files@) matches Some(v) && e@ == v),
{
    let ghost corig = c;
    let ghost forig = files@;
    let Config { host, handlers, errors } = c;
    let mut files = files;
    let mut hrest = handlers;
    let mut hout: Vec<Handler> = Vec::new();
    while hrest.len() > 0
        invariant
            hout@.len() + hrest@.len() == corig.handlers@.len(),
            hrest@ == corig.handlers@.subrange(hout@.len() as int, corig.handlers@.len() as int),
            files@ == forig.subrange(hout@.len() as int, forig.len() as int),
            forall|i: int| 0 <= i < hout@.len() ==> handler_like(
                #[trigger] corig.handlers@[i],
                hout@[i],
            ),
            forall|i: int| 0 <= i < hout@.len() ==> handler_prepared(#[trigger] hout@[i]),
            forall|i: int| 0 <= i < hout@.len() ==> page_prepared_from(
                (#[trigger] corig.handlers@[i]).page,
                forig[i],
                hout@[i].page,
            ),
            handlers_err(corig.handlers@, forig, 0) == handlers_err(
                hrest@,
                files@,
                hout@.len() as int,
            ),
        decreases hrest@.len(),
    {
        let ghost hrest_b = hrest@;
        let ghost frest_b = files@;
        let ghost k = hout@.len() as int;
        let h = hrest.remove(0);
        let f = files.remove(0);
        proof {
            assert(hrest_b.remove(0) =~= hrest_b.drop_first());
            assert(frest_b.remove(0) =~= frest_b.drop_first());
            assert(hrest@ =~= corig.handlers@.subrange(k + 1, corig.handlers@.len() as int));
            assert(files@ =~= forig.subrange(k + 1, forig.len() as int));
            assert(h == corig.handlers@[k]);
            assert(f == forig[k]);
        }
        let (h2, res) = handler_check_owned(h, f);
        hout.push(h2);
        match res {
            Ok(()) => {},
            Err(e) => {
                let e2 = e.with_context(ErrorContext::InHandler { index: hout.len() - 1 });
                proof {
                    assert forall|i: int| hout@.len() <= i < corig.handlers@.len()
                        implies handler_like(#[trigger] corig.handlers@[i], corig.handlers@[i]) by {
                        lemma_handler_like_reflexive(corig.handlers@[i]);
                    }
                }
                hout.append(&mut hrest);
                return (Config { host, handlers: hout, errors }, Err(e2));
            },
        }
    }
    proof {
        assert(hrest@ =~= Seq::<Handler>::empty());
        assert(files@ =~= forig.subrange(corig.handlers@.len() as int, forig.len() as int));
        assert(files@.len() == 2);
        assert(files@[0] == forig[corig.handlers@.len() as int]);
        assert(files@[1] == forig[corig.handlers@.len() as int + 1]);
    }
    let ErrorPages { not_found, no_path } = errors;
    let f_nf = files.remove(0);
    let f_np = files.remove(0);
    let (nf2, res_nf) = page_check_owned(not_found, f_nf);
    match res_nf {
        Err(e) => {
            let e2 = e.with_context(ErrorContext::InNotFoundErrorPage).with_context(
                ErrorContext::InErrorHandlers,
            );
            return (
                Config { host, handlers: hout, errors: ErrorPages { not_found: nf2, no_path } },
                Err(e2),
            );
        },
        Ok(()) => {},
    }
    let (np2, res_np) = page_check_owned(no_path, f_np);
    match res_np {
        Err(e) => {
            let e2 = e.with_context(ErrorContext::InNoPathErrorPage).with_context(
                ErrorContext::InErrorHandlers,
            );
            return (
                Config {
                    host,
                    handlers: hout,
                    errors: ErrorPages { not_found: nf2, no_path: np2 },
                },
                Err(e2),
            );
        },
        Ok(()) => {},
    }
    (Config { host, handlers: hout, errors: ErrorPages { not_found: nf2, no_path: np2 } }, Ok(()))
}

/// The page the handler list resolves a path to: the page of the first
/// handler whose matcher accepts it, else the given fallback.
pub open spec fn resolve_handlers(hs: Seq<Handler>, path: Seq<char>, nf: StaticPage) -> StaticPage
    decreases hs.len(),
{
    if hs.len() == 0 {
        nf
    } else if matcher_matches(hs[0].matcher, path) {
        hs[0].page
    } else {
        resolve_handlers(hs.drop_first(), path, nf)
    }
}

/// An optional path as a sequence of characters.
pub open spec fn opt_str_view(p: Option<&str>) -> Option<Seq<char>> {
    match p {
        None => None,
        Some(s) => Some(s@),
    }
}

impl Config {
    /// The page this table resolves a request path to: declaration
    /// order decides, the first match wins; a miss resolves to the
    /// not-found page, and a request without a path to the no-path
    /// page.
    pub open spec fn spec_resolve(self, path: Option<Seq<char>>) -> StaticPage {
        match path {
            None => self.errors.no_path,
            Some(p) => resolve_handlers(self.handlers@, p, self.errors.not_found),
        }
    }

    /// Resolves a request path to the page to serve, in declaration
    /// order; pure and total on a prepared table.
    #[verifier::loop_isolation(false)]
    pub fn resolve<'a>(&'a self, path: Option<&str>) -> (r: &'a StaticPage)
        requires
            config_prepared(*self),
        ensures
            *r == self.spec_resolve(opt_str_view(path)),
    {
        match path {
            None => &self.errors.no_path,
            Some(p) => {
                let ghost full = self.handlers@;
                let mut i: usize = 0;
                proof {
                    assert(full.subrange(0, full.len() as int) =~= full);
                }
                while i < self.handlers.len()
                    invariant
                        i <= full.len(),
                        resolve_handlers(full, p@, self.errors.not_found) == resolve_handlers(
                            full.subrange(i as int, full.len() as int),
                            p@,
                            self.errors.not_found,
                        ),
                    decreases full.len() - i,
                {
                    let ghost suffix = full.subrange(i as int, full.len() as int);
                    let h: &Handler = &self.handlers[i];
                    proof {
                        assert(suffix[0] == full[i as int]);
                        assert(suffix.drop_first() =~= full.subrange(
                            i as int + 1,
                            full.len() as int,
                        ));
                    }
                    if h.matcher.matches(p) {
                        return &h.page;
                    }
                    i = i + 1;
                }
                proof {
                    assert(full.subrange(i as int, full.len() as int)
                        =~= Seq::<Handler>::empty());
                }
                &self.errors.not_found
            },
        }
    }

    /// Whether switching to `other`'s configuration cannot be done by a
    /// live reload: true exactly when the bind host or port differ.
    pub fn requires_restart(&self, other: &Config) -> (r: bool)
        ensures
            r == !host_eq(self.host, other.host),
    {
        !(self.host == other.host)
    }

    /// Validates and prepares the table in place; `files` holds the
    /// outcome of reading each backing file, one slot per handler in
    /// order, then the not-found page's, then the no-path page's.
    pub fn check(&mut self, files: Vec<Option<Result<Vec<u8>, String>>>) -> (r: Result<
        (),
        ConfigError,
    >)
        requires
            files_match(*old(self), files@),
        ensures
            config_like(*old(self), *final(self)),
            r is Ok <==> config_err(*old(self), files@) is None,
            r is Ok ==> config_checked_from(*old(self), files@, *final(self)),
            r matches Err(e) ==> (config_err(*old(self), files@) matches Some(v) && e@ == v),
    {
        let mut owned = Config {
            host: HostSpec { host: String::new(), port: 0 },
            handlers: Vec::new(),
            errors: ErrorPages {
                not_found: StaticPage::Redirect { to: String::new() },
                no_path: StaticPage::Redirect { to: String::new() },
            },
        };
        core::mem::swap(self, &mut owned);
        let (c2, res) = config_check_owned(owned, files);
        *self = c2;
        res
    }

    /// A known-good bind address for exercising the library.
    pub fn working_dummy_hostspec() -> (r: HostSpec)
        ensures
            r.host@ == "127.0.0.1"@,
            r.port == 43982,
    {
        HostSpec { host: "127.0.0.1".to_owned(), port: 43982 }
    }

    /// A known-good table for exercising the library: `abc` serves an
    /// embedded `abc`, `redir` redirects to `/abc`, everything else
    /// falls back to the default error pages.
    pub fn working_dummy_config() -> (r: Config)
        ensures
            r.host.host@ == "127.0.0.1"@,
            r.host.port == 43982,
            r.handlers@.len() == 2,
            r.handlers@[0].matcher matches Matcher::Path { path } && path@ == "abc"@,
            r.handlers@[0].page matches StaticPage::Embedded { data, content_type }
                && data@ == "abc".spec_bytes() && content_type@ == "text/plain"@,
            r.handlers@[1].matcher matches Matcher::Path { path } && path@ == "redir"@,
            r.handlers@[1].page matches StaticPage::Redirect { to } && to@ == "/abc"@,
            r.errors.not_found matches StaticPage::Embedded { data, content_type }
                && data@ == "404: not found.".spec_bytes() && content_type@ == "text/html"@,
            r.errors.no_path matches StaticPage::Embedded { data, content_type }
                && data@ == "400: bad request.".spec_bytes() && content_type@ == "text/html"@,
            config_prepared(r),
    {
        let mut handlers: Vec<Handler> = Vec::new();
        handlers.push(Handler {
            matcher: Matcher::Path { path: "abc".to_owned() },
            page: StaticPage::Embedded {
                data: "abc".as_bytes_vec(),
                content_type: "text/plain".to_owned(),
            },
        });
        handlers.push(Handler {
            matcher: Matcher::Path { path: "redir".to_owned() },
            page: StaticPage::Redirect { to: "/abc".to_owned() },
        });
        Config {
            host: Config::working_dummy_hostspec(),
            handlers,
            errors: ErrorPages::default(),
        }
    }
}

/// Handler order decides the outcome: when two handlers both match a
/// path, the page resolved for it belongs to a matching handler no
/// later than the first of the two — a later handler never wins.
pub proof fn lemma_first_match_wins(c: Config, path: Seq<char>, i: int, j: int)
    requires
        0 <= i < j < c.handlers@.len(),
        matcher_matches(c.handlers@[i].matcher, path),
        matcher_matches(c.handlers@[j].matcher, path),
    ensures
        exists|k: int|
            0 <= k <= i && matcher_matches(#[trigger] c.handlers@[k].matcher, path)
                && c.spec_resolve(Some(path)) == c.handlers@[k].page,
{
    lemma_resolve_first(c.handlers@, path, c.errors.not_found, i);
}

/// The page resolved when some handler at or before `i` matches is the
/// page of the first matching handler.
proof fn lemma_resolve_first(hs: Seq<Handler>, path: Seq<char>, nf: StaticPage, i: int)
    requires
        0 <= i < hs.len(),
        matcher_matches(hs[i].matcher, path),
    ensures
        exists|k: int|
            0 <= k <= i && matcher_matches(#[trigger] hs[k].matcher, path) && resolve_handlers(
                hs,
                path,
                nf,
            ) == hs[k].page,
    decreases hs.len(),
{
    if matcher_matches(hs[0].matcher, path) {
        assert(0 <= 0 <= i && matcher_matches(hs[0].matcher, path) && resolve_handlers(
            hs,
            path,
            nf,
        ) == hs[0].page);
    } else {
        let df = hs.drop_first();
        assert(df[i - 1] == hs[i]);
        lemma_resolve_first(df, path, nf, i - 1);
        let k = choose|k: int|
            0 <= k <= i - 1 && matcher_matches(#[trigger] df[k].matcher, path) && resolve_handlers(
                df,
                path,
                nf,
            ) == df[k].page;
        assert(hs[k + 1] == df[k]);
        assert(0 <= k + 1 <= i && matcher_matches(hs[k + 1].matcher, path) && resolve_handlers(
            hs,
            path,
            nf,
        ) == hs[k + 1].page);
    }
}

/// Two tables with the same plain content resolve every path to pages
/// with the same plain content: installing the prepared form of a table
/// changes nothing about what is served.
pub proof fn lemma_like_same_resolution(a: Config, b: Config, path: Option<Seq<char>>)
    requires
        config_like(a, b),
    ensures
        page_like(a.spec_resolve(path), b.spec_resolve(path)),
{
    match path {
        None => {},
        Some(p) => {
            lemma_resolve_like(
                a.handlers@,
                b.handlers@,
                a.errors.not_found,
                b.errors.not_found,
                p,
            );
        },
    }
}

proof fn lemma_resolve_like(
    ha: Seq<Handler>,
    hb: Seq<Handler>,
    nfa: StaticPage,
    nfb: StaticPage,
    path: Seq<char>,
)
    requires
        ha.len() == hb.len(),
        forall|i: int| 0 <= i < ha.len() ==> handler_like(#[trigger] ha[i], hb[i]),
        page_like(nfa, nfb),
    ensures
        page_like(resolve_handlers(ha, path, nfa), resolve_handlers(hb, path, nfb)),
    decreases ha.len(),
{
    if ha.len() > 0 {
        lemma_like_same_meaning(ha[0].matcher, hb[0].matcher, path);
        if !matcher_matches(ha[0].matcher, path) {
            let da = ha.drop_first();
            let db = hb.drop_first();
            assert forall|i: int| 0 <= i < da.len() implies handler_like(
                #[trigger] da[i],
                db[i],
            ) by {
                assert(handler_like(ha[i + 1], hb[i + 1]));
            }
            lemma_resolve_like(da, db, nfa, nfb, path);
        }
    }
}

} // verus!
