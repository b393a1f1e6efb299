use shrtlnk::config::{Config, ErrorPages, Handler, HostSpec};
use shrtlnk::errors::ErrorContext;
use shrtlnk::http::HttpRequest;
use shrtlnk::matcher::Matcher;
use shrtlnk::page::{ServeOutcome, StaticPage};
use shrtlnk::store::ConfigStore;

fn get(path: &str) -> HttpRequest {
    HttpRequest {
        method: "GET".to_string(),
        path: Some(path.to_string()),
        query: None,
        headers: vec![],
        body: vec![],
    }
}

fn ready(outcome: ServeOutcome) -> shrtlnk::http::HttpResponse {
    match outcome {
        ServeOutcome::Ready(resp) => resp,
        ServeOutcome::Proxy { .. } => panic!("expected a ready response"),
    }
}

fn embedded(data: &str, content_type: &str) -> StaticPage {
    StaticPage::Embedded {
        data: data.as_bytes().to_vec(),
        content_type: content_type.to_string(),
    }
}

fn handler(path: &str, page: StaticPage) -> Handler {
    Handler { matcher: Matcher::Path { path: path.to_string() }, page }
}

fn load(store: &mut ConfigStore, config: Config) -> Result<(), shrtlnk::errors::ReloadError> {
    let slots = config.handlers.len() + 2;
    store.try_load_config(config, vec![None; slots])
}

#[test]
fn redirect_serves_307_with_location() {
    let page = StaticPage::Redirect { to: "/abc".to_string() };
    let resp = ready(page.serve(get("/redir")));
    assert_eq!(resp.status, 307);
    assert_eq!(resp.headers, vec![("Location".to_string(), "/abc".to_string())]);
    assert!(resp.body.is_empty());
}

#[test]
fn embedded_serves_200_with_bytes() {
    let page = embedded("hello", "text/plain");
    let resp = ready(page.serve(get("/x")));
    assert_eq!(resp.status, 200);
    assert_eq!(resp.headers, vec![("Content-Type".to_string(), "text/plain".to_string())]);
    assert_eq!(resp.body, b"hello".to_vec());
}

#[test]
fn static_file_serves_from_cache_without_io() {
    // the caller reads the backing file once, at preparation time; after
    // that the page owns the bytes and serving touches no file at all
    let mut page = StaticPage::StaticFile {
        path: "/a/file/that/no/longer/exists".to_string(),
        content_type: "text/html".to_string(),
        cached_data: vec![],
    };
    page.check(Some(Ok(b"cached content".to_vec()))).unwrap();
    let first = ready(page.serve(get("/f")));
    assert_eq!(first.status, 200);
    assert_eq!(first.body, b"cached content".to_vec());
    // serving again still uses the same cache
    let second = ready(page.serve(get("/f")));
    assert_eq!(second.body, b"cached content".to_vec());
}

#[test]
fn unreadable_static_file_is_a_config_error() {
    let mut page = StaticPage::StaticFile {
        path: "/missing".to_string(),
        content_type: "text/html".to_string(),
        cached_data: vec![],
    };
    let e = page.check(Some(Err("No such file or directory (os error 2)".to_string())))
        .unwrap_err();
    assert_eq!(e.message, "No such file or directory (os error 2)");
    assert_eq!(e.contexts, vec![ErrorContext::InStaticFilePage]);
}

#[test]
fn proxy_preserves_the_whole_request() {
    let page = StaticPage::ReverseProxy {
        scheme: "http".to_string(),
        host: "upstream:8080".to_string(),
    };
    let req = HttpRequest {
        method: "POST".to_string(),
        path: Some("/echo".to_string()),
        query: Some("a=1&b=2".to_string()),
        headers: vec![("X-Token".to_string(), "t".to_string())],
        body: b"payload".to_vec(),
    };
    match page.serve(req) {
        ServeOutcome::Proxy { scheme, host, request } => {
            assert_eq!(scheme, "http");
            assert_eq!(host, "upstream:8080");
            assert_eq!(request.method, "POST");
            assert_eq!(request.path, Some("/echo".to_string()));
            assert_eq!(request.query, Some("a=1&b=2".to_string()));
            assert_eq!(request.headers, vec![("X-Token".to_string(), "t".to_string())]);
            assert_eq!(request.body, b"payload".to_vec());
        },
        ServeOutcome::Ready(_) => panic!("a reverse proxy never serves directly"),
    }
}

#[test]
fn dispatch_routes_and_serves() {
    let mut store = ConfigStore::new();
    load(&mut store, Config::working_dummy_config()).unwrap();

    let ok = ready(store.dispatch(get("/abc")));
    assert_eq!(ok.status, 200);
    assert_eq!(ok.body, b"abc".to_vec());

    let redir = ready(store.dispatch(get("/redir")));
    assert_eq!(redir.status, 307);
    assert_eq!(redir.headers, vec![("Location".to_string(), "/abc".to_string())]);

    let miss = ready(store.dispatch(get("/xyz")));
    assert_eq!(miss.body, b"404: not found.".to_vec());
}

#[test]
fn dispatch_trims_request_paths_like_the_matcher() {
    let mut store = ConfigStore::new();
    load(&mut store, Config::working_dummy_config()).unwrap();
    for path in ["abc", "/abc", "abc/", "/abc/"] {
        let resp = ready(store.dispatch(get(path)));
        assert_eq!(resp.body, b"abc".to_vec(), "path {:?}", path);
    }
    let miss = ready(store.dispatch(get("/abcd")));
    assert_eq!(miss.body, b"404: not found.".to_vec());
}

#[test]
fn first_declared_handler_wins() {
    let config = Config {
        host: HostSpec::default(),
        handlers: vec![
            handler("abc", embedded("first", "text/plain")),
            handler("abc", embedded("second", "text/plain")),
        ],
        errors: ErrorPages::default(),
    };
    let mut store = ConfigStore::new();
    load(&mut store, config).unwrap();
    let resp = ready(store.dispatch(get("/abc")));
    assert_eq!(resp.body, b"first".to_vec());
}

#[test]
fn pathless_request_gets_the_no_path_page() {
    let mut store = ConfigStore::new();
    load(&mut store, Config::working_dummy_config()).unwrap();
    let req = HttpRequest {
        method: "GET".to_string(),
        path: None,
        query: None,
        headers: vec![],
        body: vec![],
    };
    let resp = ready(store.dispatch(req));
    assert_eq!(resp.body, b"400: bad request.".to_vec());
}

#[test]
fn dispatch_through_a_proxy_handler() {
    let config = Config {
        host: HostSpec::default(),
        handlers: vec![handler(
            "echo",
            StaticPage::ReverseProxy {
                scheme: "http".to_string(),
                host: "127.0.0.1:9999".to_string(),
            },
        )],
        errors: ErrorPages::default(),
    };
    let mut store = ConfigStore::new();
    load(&mut store, config).unwrap();
    match store.dispatch(get("/echo")) {
        ServeOutcome::Proxy { scheme, host, request } => {
            assert_eq!(scheme, "http");
            assert_eq!(host, "127.0.0.1:9999");
            assert_eq!(request.path, Some("/echo".to_string()));
        },
        ServeOutcome::Ready(_) => panic!("the proxy handler must forward"),
    }
}

#[test]
fn dispatch_through_a_regex_handler() {
    let config = Config {
        host: HostSpec::default(),
        handlers: vec![Handler {
            matcher: Matcher::Regex { expr: "^/user/[0-9]+$".to_string(), compiled: None },
            page: embedded("a user", "text/plain"),
        }],
        errors: ErrorPages::default(),
    };
    let mut store = ConfigStore::new();
    load(&mut store, config).unwrap();
    assert_eq!(ready(store.dispatch(get("/user/42"))).body, b"a user".to_vec());
    let miss = ready(store.dispatch(get("/user/abc")));
    assert_eq!(miss.body, b"404: not found.".to_vec());
}
