use shrtlnk::check::CheckConfig;
use shrtlnk::errors::ErrorContext;
use shrtlnk::matcher::Matcher;

fn path_matcher(s: &str) -> Matcher {
    Matcher::Path { path: s.to_string() }
}

#[test]
fn root_matches_only_slashes() {
    let m = Matcher::Root;
    assert!(m.matches(""));
    assert!(m.matches("/"));
    assert!(m.matches("///"));
    assert!(!m.matches("/a"));
}

#[test]
fn path_matcher_trims_both_ends() {
    let m = path_matcher("abc");
    assert!(m.matches("abc"));
    assert!(m.matches("/abc"));
    assert!(m.matches("abc/"));
    assert!(m.matches("/abc/"));
    assert!(!m.matches("abcd"));
}

#[test]
fn path_matcher_trims_configured_side_too() {
    let m = path_matcher("//abc//");
    assert!(m.matches("abc"));
    assert!(m.matches("/abc/"));
    assert!(!m.matches("ab"));
}

#[test]
fn all_matches_iff_every_child_matches() {
    let mut both = Matcher::All {
        of: vec![path_matcher("abc"), Matcher::Not { matcher: Box::new(path_matcher("xyz")) }],
    };
    assert!(both.check().is_ok());
    assert!(both.matches("/abc"));
    assert!(!both.matches("/xyz"));

    let mut contradictory = Matcher::All { of: vec![path_matcher("abc"), path_matcher("xyz")] };
    assert!(contradictory.check().is_ok());
    assert!(!contradictory.matches("/abc"));
    assert!(!contradictory.matches("/xyz"));
}

#[test]
fn any_matches_iff_some_child_matches() {
    let mut either = Matcher::Any { of: vec![path_matcher("abc"), path_matcher("xyz")] };
    assert!(either.check().is_ok());
    assert!(either.matches("/abc"));
    assert!(either.matches("/xyz"));
    assert!(!either.matches("/other"));
}

#[test]
fn not_matches_iff_child_does_not() {
    let mut m = Matcher::Not { matcher: Box::new(path_matcher("abc")) };
    assert!(m.check().is_ok());
    assert!(!m.matches("/abc"));
    assert!(m.matches("/xyz"));
}

#[test]
fn regex_matcher_tests_the_raw_path() {
    let mut m = Matcher::Regex { expr: "^/a.c$".to_string(), compiled: None };
    assert!(m.check().is_ok());
    assert!(m.matches("/abc"));
    assert!(m.matches("/azc"));
    assert!(!m.matches("/abcd"));
    // the raw path is tested, with no slash trimming
    assert!(!m.matches("abc"));
}

#[test]
fn regex_matcher_must_be_anchored_to_pin_the_path() {
    let mut m = Matcher::Regex { expr: "abc".to_string(), compiled: None };
    assert!(m.check().is_ok());
    // an unanchored pattern matches anywhere in the path
    assert!(m.matches("/abc"));
    assert!(m.matches("/xabcy"));
}

#[test]
fn invalid_regex_is_a_config_error() {
    let mut m = Matcher::Regex { expr: "(".to_string(), compiled: None };
    let e = m.check().unwrap_err();
    assert_eq!(e.message, "invalid regular expression");
    assert!(e.contexts.is_empty());
}

#[test]
fn empty_any_is_a_config_error() {
    let mut m = Matcher::Any { of: vec![] };
    let e = m.check().unwrap_err();
    assert_eq!(e.message, "no submatchers. there should be at least one.");
    assert_eq!(e.contexts, vec![ErrorContext::InAnyBlock]);
    assert_eq!(
        e.render(),
        "inside a MatchesAny matcher block: no submatchers. there should be at least one."
    );
}

#[test]
fn empty_all_is_a_config_error() {
    let mut m = Matcher::All { of: vec![] };
    let e = m.check().unwrap_err();
    assert_eq!(e.message, "no submatchers. there should be at least one.");
    assert_eq!(e.contexts, vec![ErrorContext::InAllBlock]);
}

#[test]
fn nested_error_keeps_its_context_chain() {
    let mut m = Matcher::All { of: vec![Matcher::Root, Matcher::Any { of: vec![] }] };
    let e = m.check().unwrap_err();
    assert_eq!(e.contexts, vec![ErrorContext::InAnyBlock, ErrorContext::InAllBlock]);
    assert_eq!(
        e.render(),
        "inside a MatchesAll matcher block: inside a MatchesAny matcher block: \
         no submatchers. there should be at least one."
    );
}

#[test]
fn check_is_required_once_for_regex_only() {
    // matchers without a regex need no preparation to match correctly
    let m = path_matcher("abc");
    assert!(m.matches("abc"));
    let r = Matcher::Root;
    assert!(r.matches("//"));
}
