use shrtlnk::config::{Config, ErrorPages, Handler, HostSpec};
use shrtlnk::errors::{usize_to_string, ErrorContext, ReloadError};
use shrtlnk::http::HttpRequest;
use shrtlnk::matcher::Matcher;
use shrtlnk::page::{ServeOutcome, StaticPage};
use shrtlnk::store::ConfigStore;

fn get(path: &str) -> HttpRequest {
    HttpRequest {
        method: "GET".to_string(),
        path: Some(path.to_string()),
        query: None,
        headers: vec![],
        body: vec![],
    }
}

fn body_of(outcome: ServeOutcome) -> Vec<u8> {
    match outcome {
        ServeOutcome::Ready(resp) => resp.body,
        ServeOutcome::Proxy { .. } => panic!("expected a ready response"),
    }
}

fn one_page_config(host: HostSpec, path: &str, body: &str) -> Config {
    Config {
        host,
        handlers: vec![Handler {
            matcher: Matcher::Path { path: path.to_string() },
            page: StaticPage::Embedded {
                data: body.as_bytes().to_vec(),
                content_type: "text/plain".to_string(),
            },
        }],
        errors: ErrorPages::default(),
    }
}

fn host(port: u16) -> HostSpec {
    HostSpec { host: "127.0.0.1".to_string(), port }
}

fn load(store: &mut ConfigStore, config: Config) -> Result<(), ReloadError> {
    let slots = config.handlers.len() + 2;
    store.try_load_config(config, vec![None; slots])
}

#[test]
fn store_starts_empty_and_loads_once() {
    let mut store = ConfigStore::new();
    assert!(!store.is_loaded());
    load(&mut store, Config::working_dummy_config()).unwrap();
    assert!(store.is_loaded());
}

#[test]
fn reload_with_same_host_swaps_content() {
    let mut store = ConfigStore::new();
    load(&mut store, one_page_config(host(43982), "abc", "old")).unwrap();

    // a request resolved before the swap keeps the old table's page
    let resolved_before = store.dispatch(get("/abc"));

    load(&mut store, one_page_config(host(43982), "abc", "new")).unwrap();

    assert_eq!(body_of(resolved_before), b"old".to_vec());
    assert_eq!(body_of(store.dispatch(get("/abc"))), b"new".to_vec());
}

#[test]
fn reload_with_other_port_needs_restart_and_changes_nothing() {
    let mut store = ConfigStore::new();
    load(&mut store, one_page_config(host(43982), "abc", "old")).unwrap();

    let err = load(&mut store, one_page_config(host(43983), "abc", "new")).unwrap_err();
    assert!(matches!(err, ReloadError::RestartRequired));
    assert_eq!(err.render(), "These configuration changes would require a restart.");

    // the active table is untouched
    assert_eq!(body_of(store.dispatch(get("/abc"))), b"old".to_vec());
}

#[test]
fn reload_with_other_host_needs_restart() {
    let mut store = ConfigStore::new();
    load(&mut store, one_page_config(host(43982), "abc", "old")).unwrap();
    let other = Config {
        host: HostSpec { host: "0.0.0.0".to_string(), port: 43982 },
        ..one_page_config(host(43982), "abc", "new")
    };
    let err = load(&mut store, other).unwrap_err();
    assert!(matches!(err, ReloadError::RestartRequired));
}

#[test]
fn invalid_reload_keeps_the_active_table() {
    let mut store = ConfigStore::new();
    load(&mut store, one_page_config(host(43982), "abc", "old")).unwrap();

    let mut bad = one_page_config(host(43982), "abc", "new");
    bad.handlers.push(Handler {
        matcher: Matcher::Regex { expr: "(".to_string(), compiled: None },
        page: StaticPage::Redirect { to: "/".to_string() },
    });
    let err = load(&mut store, bad).unwrap_err();
    match err {
        ReloadError::Invalid(e) => {
            assert_eq!(e.message, "invalid regular expression");
            assert_eq!(
                e.contexts,
                vec![ErrorContext::InRootMatcher, ErrorContext::InHandler { index: 1 }]
            );
            assert_eq!(
                e.render(),
                "inside handler 1 (counting from 0): inside the root matcher: \
                 invalid regular expression"
            );
        },
        ReloadError::RestartRequired => panic!("the error must say the configuration is invalid"),
    }

    assert_eq!(body_of(store.dispatch(get("/abc"))), b"old".to_vec());
}

#[test]
fn handler_position_is_reported_from_zero() {
    let mut store = ConfigStore::new();
    let mut config = one_page_config(host(43982), "a", "x");
    config.handlers.push(Handler {
        matcher: Matcher::Path { path: "b".to_string() },
        page: StaticPage::Redirect { to: "/a".to_string() },
    });
    config.handlers.push(Handler {
        matcher: Matcher::Any { of: vec![] },
        page: StaticPage::Redirect { to: "/a".to_string() },
    });
    let err = load(&mut store, config).unwrap_err();
    match err {
        ReloadError::Invalid(e) => {
            assert_eq!(
                e.contexts,
                vec![
                    ErrorContext::InAnyBlock,
                    ErrorContext::InRootMatcher,
                    ErrorContext::InHandler { index: 2 },
                ]
            );
            assert!(e.render().starts_with("inside handler 2 (counting from 0): "));
        },
        ReloadError::RestartRequired => panic!("the error must say the configuration is invalid"),
    }
    assert!(!store.is_loaded());
}

#[test]
fn unreadable_file_fails_the_whole_reload() {
    let mut store = ConfigStore::new();
    let config = Config {
        host: host(43982),
        handlers: vec![Handler {
            matcher: Matcher::Path { path: "f".to_string() },
            page: StaticPage::StaticFile {
                path: "/missing".to_string(),
                content_type: "text/html".to_string(),
                cached_data: vec![],
            },
        }],
        errors: ErrorPages::default(),
    };
    let files = vec![Some(Err("No such file or directory (os error 2)".to_string())), None, None];
    let err = store.try_load_config(config, files).unwrap_err();
    match err {
        ReloadError::Invalid(e) => {
            assert_eq!(e.message, "No such file or directory (os error 2)");
            assert_eq!(
                e.contexts,
                vec![
                    ErrorContext::InStaticFilePage,
                    ErrorContext::InPage,
                    ErrorContext::InHandler { index: 0 },
                ]
            );
        },
        ReloadError::RestartRequired => panic!("the error must say the configuration is invalid"),
    }
    assert!(!store.is_loaded());
}

#[test]
fn static_file_bytes_are_installed_by_the_reload() {
    let mut store = ConfigStore::new();
    let config = Config {
        host: host(43982),
        handlers: vec![Handler {
            matcher: Matcher::Path { path: "f".to_string() },
            page: StaticPage::StaticFile {
                path: "/some/file".to_string(),
                content_type: "text/html".to_string(),
                cached_data: vec![],
            },
        }],
        errors: ErrorPages::default(),
    };
    let files = vec![Some(Ok(b"file body".to_vec())), None, None];
    store.try_load_config(config, files).unwrap();
    assert_eq!(body_of(store.dispatch(get("/f"))), b"file body".to_vec());
}

#[test]
fn requires_restart_compares_the_bind_address() {
    let a = one_page_config(host(1000), "x", "x");
    let b = one_page_config(host(1000), "y", "y");
    let c = one_page_config(host(1001), "x", "x");
    assert!(!a.requires_restart(&b));
    assert!(a.requires_restart(&c));
}

#[test]
fn default_host_and_port() {
    assert_eq!(HostSpec::default_host(), "127.0.0.1");
    assert_eq!(HostSpec::default_port(), 8387);
    let d = HostSpec::default();
    assert_eq!(d.host, "127.0.0.1");
    assert_eq!(d.port, 8387);
}

#[test]
fn working_dummy_values() {
    let h = Config::working_dummy_hostspec();
    assert_eq!(h.host, "127.0.0.1");
    assert_eq!(h.port, 43982);
    let c = Config::working_dummy_config();
    assert_eq!(c.handlers.len(), 2);
}

#[test]
fn decimal_rendering_is_exact() {
    assert_eq!(usize_to_string(0), "0");
    assert_eq!(usize_to_string(7), "7");
    assert_eq!(usize_to_string(10), "10");
    assert_eq!(usize_to_string(208), "208");
    assert_eq!(usize_to_string(43982), "43982");
    assert_eq!(usize_to_string(usize::MAX), usize::MAX.to_string());
}

#[test]
fn fallback_page_errors_are_located() {
    let mut store = ConfigStore::new();
    let config = Config {
        host: host(43982),
        handlers: vec![],
        errors: ErrorPages {
            not_found: StaticPage::StaticFile {
                path: "/missing".to_string(),
                content_type: "text/html".to_string(),
                cached_data: vec![],
            },
            no_path: ErrorPages::default_page_no_path(),
        },
    };
    let files = vec![Some(Err("permission denied".to_string())), None];
    let err = store.try_load_config(config, files).unwrap_err();
    match err {
        ReloadError::Invalid(e) => {
            assert_eq!(e.message, "permission denied");
            assert_eq!(
                e.contexts,
                vec![
                    ErrorContext::InStaticFilePage,
                    ErrorContext::InNotFoundErrorPage,
                    ErrorContext::InErrorHandlers,
                ]
            );
            assert_eq!(
                e.render(),
                "inside the error handlers: inside the not_found ErrorPage: \
                 inside a StaticFile page: permission denied"
            );
        },
        ReloadError::RestartRequired => panic!("the error must say the configuration is invalid"),
    }
}

#[test]
fn config_check_prepares_in_place() {
    let mut c = Config {
        host: host(43982),
        handlers: vec![Handler {
            matcher: Matcher::Regex { expr: "^/x$".to_string(), compiled: None },
            page: StaticPage::Redirect { to: "/y".to_string() },
        }],
        errors: ErrorPages::default(),
    };
    c.check(vec![None, None, None]).unwrap();
    assert!(c.handlers[0].matcher.matches("/x"));
    assert!(!c.handlers[0].matcher.matches("/xy"));
}

#[test]
fn handler_check_locates_its_part() {
    let mut h = Handler {
        matcher: Matcher::Any { of: vec![] },
        page: StaticPage::Redirect { to: "/".to_string() },
    };
    let e = h.check(None).unwrap_err();
    assert_eq!(e.contexts, vec![ErrorContext::InAnyBlock, ErrorContext::InRootMatcher]);
}
