//! Validation errors. A failed preparation always says where in the
//! configuration tree it arose: the innermost message plus the chain of
//! surrounding contexts, innermost first.

use vstd::prelude::*;

verus! {

/// One step of location context around a validation failure.
#[derive(Clone, Copy, Debug, PartialEq, Eq, Structural)]
pub enum ErrorContext {
    /// Inside an `all` combinator block.
    InAllBlock,
    /// Inside an `any` combinator block.
    InAnyBlock,
    /// Inside the matcher of a handler.
    InRootMatcher,
    /// Inside the page of a handler.
    InPage,
    /// Inside a static-file page.
    InStaticFilePage,
    /// Inside the not-found fallback page.
    InNotFoundErrorPage,
    /// Inside the no-path fallback page.
    InNoPathErrorPage,
    /// Inside the fallback error pages.
    InErrorHandlers,
    /// Inside the handler with this position, counting from 0.
    InHandler { index: usize },
}

/// The mathematical content of a `ConfigError`.
pub struct ErrView {
    pub message: Seq<char>,
    pub contexts: Seq<ErrorContext>,
}

/// Appends one more layer of context around an error.
pub open spec fn add_ctx(e: ErrView, c: ErrorContext) -> ErrView {
    ErrView { message: e.message, contexts: e.contexts.push(c) }
}

/// The message reported for an empty `any`/`all` combinator list.
pub open spec fn msg_no_submatchers() -> Seq<char> {
    "no submatchers. there should be at least one."@
}

/// The message reported for a pattern the regular-expression engine rejects.
pub open spec fn msg_invalid_regex() -> Seq<char> {
    "invalid regular expression"@
}

/// A validation failure raised while preparing a configuration, carrying
/// the location in the configuration tree where it arose.
#[derive(Debug)]
pub struct ConfigError {
    /// The innermost description of what went wrong.
    pub message: String,
    /// The surrounding locations, innermost first.
    pub contexts: Vec<ErrorContext>,
}

impl View for ConfigError {
    type V = ErrView;

    open spec fn view(&self) -> ErrView {
        ErrView { message: self.message@, contexts: self.contexts@ }
    }
}

impl ConfigError {
    /// A fresh failure with no surrounding context yet.
    pub fn new(message: String) -> (r: Self)
        ensures
            r@.message == message@,
            r@.contexts == Seq::<ErrorContext>::empty(),
    {
        ConfigError { message, contexts: Vec::new() }
    }

    /// The same failure, seen from one more layer out.
    pub fn with_context(self, c: ErrorContext) -> (r: Self)
        ensures
            r@ == add_ctx(self@, c),
    {
        let mut contexts = self.contexts;
        contexts.push(c);
        ConfigError { message: self.message, contexts }
    }
}

/// The decimal digit character for a value below ten.
pub open spec fn digit_char(d: int) -> char {
    if d == 0 { '0' }
    else if d == 1 { '1' }
    else if d == 2 { '2' }
    else if d == 3 { '3' }
    else if d == 4 { '4' }
    else if d == 5 { '5' }
    else if d == 6 { '6' }
    else if d == 7 { '7' }
    else if d == 8 { '8' }
    else { '9' }
}

/// The decimal rendering of a number, most significant digit first.
pub open spec fn spec_decimal(n: int) -> Seq<char>
    decreases n,
{
    if n < 10 {
        seq![digit_char(n)]
    } else {
        spec_decimal(n / 10).push(digit_char(n % 10))
    }
}

/// The single-digit strings, for building decimal renderings.
fn digit_str(d: usize) -> (r: &'static str)
    requires
        d < 10,
    ensures
        r@ == seq![digit_char(d as int)],
{
    proof {
        reveal_strlit("0");
        reveal_strlit("1");
        reveal_strlit("2");
        reveal_strlit("3");
        reveal_strlit("4");
        reveal_strlit("5");
        reveal_strlit("6");
        reveal_strlit("7");
        reveal_strlit("8");
        reveal_strlit("9");
    }
    if d == 0 { "0" }
    else if d == 1 { "1" }
    else if d == 2 { "2" }
    else if d == 3 { "3" }
    else if d == 4 { "4" }
    else if d == 5 { "5" }
    else if d == 6 { "6" }
    else if d == 7 { "7" }
    else if d == 8 { "8" }
    else { "9" }
}

/// The decimal rendering of a number, as text.
pub fn usize_to_string(n: usize) -> (r: String)
    ensures
        r@ == spec_decimal(n as int),
    decreases n,
{
    if n < 10 {
        digit_str(n).to_owned()
    } else {
        let mut s = usize_to_string(n / 10);
        s.append(digit_str(n % 10));
        proof {
            assert(spec_decimal((n / 10) as int) + seq![digit_char(n as int % 10)]
                =~= spec_decimal((n / 10) as int).push(digit_char(n as int % 10)));
        }
        s
    }
}

/// The text of one context layer, as the reload log shows it.
pub open spec fn ctx_text(c: ErrorContext) -> Seq<char> {
    match c {
        ErrorContext::InAllBlock => "inside a MatchesAll matcher block"@,
        ErrorContext::InAnyBlock => "inside a MatchesAny matcher block"@,
        ErrorContext::InRootMatcher => "inside the root matcher"@,
        ErrorContext::InPage => "inside the page"@,
        ErrorContext::InStaticFilePage => "inside a StaticFile page"@,
        ErrorContext::InNotFoundErrorPage => "inside the not_found ErrorPage"@,
        ErrorContext::InNoPathErrorPage => "inside the no_path ErrorPage"@,
        ErrorContext::InErrorHandlers => "inside the error handlers"@,
        ErrorContext::InHandler { index } => "inside handler "@ + spec_decimal(index as int)
            + " (counting from 0)"@,
    }
}

impl ErrorContext {
    /// The text of this context layer.
    pub fn render(&self) -> (r: String)
        ensures
            r@ == ctx_text(*self),
    {
        match self {
            ErrorContext::InAllBlock => "inside a MatchesAll matcher block".to_owned(),
            ErrorContext::InAnyBlock => "inside a MatchesAny matcher block".to_owned(),
            ErrorContext::InRootMatcher => "inside the root matcher".to_owned(),
            ErrorContext::InPage => "inside the page".to_owned(),
            ErrorContext::InStaticFilePage => "inside a StaticFile page".to_owned(),
            ErrorContext::InNotFoundErrorPage => "inside the not_found ErrorPage".to_owned(),
            ErrorContext::InNoPathErrorPage => "inside the no_path ErrorPage".to_owned(),
            ErrorContext::InErrorHandlers => "inside the error handlers".to_owned(),
            ErrorContext::InHandler { index } => {
                let mut s = "inside handler ".to_owned();
                s.append(usize_to_string(*index).as_str());
                s.append(" (counting from 0)");
                s
            },
        }
    }
}

/// The log line for an error: the contexts outermost first, each
/// followed by `: `, then the innermost message.
pub open spec fn err_text(e: ErrView) -> Seq<char>
    decreases e.contexts.len(),
{
    if e.contexts.len() == 0 {
        e.message
    } else {
        ctx_text(e.contexts.last()) + ": "@ + err_text(
            ErrView { message: e.message, contexts: e.contexts.drop_last() },
        )
    }
}

impl ConfigError {
    /// The log line for this error: the contexts outermost first, then
    /// the innermost message.
    pub fn render(&self) -> (r: String)
        ensures
            r@ == err_text(self@),
    {
        let mut s = String::new();
        let mut i: usize = self.contexts.len();
        proof {
            assert(self.contexts@.subrange(0, self.contexts@.len() as int) =~= self.contexts@);
            assert(ErrView { message: self.message@, contexts: self.contexts@ } == self@);
            assert(Seq::<char>::empty() + err_text(self@) =~= err_text(self@));
        }
        while i > 0
            invariant
                i <= self.contexts@.len(),
                s@ + err_text(
                    ErrView {
                        message: self.message@,
                        contexts: self.contexts@.subrange(0, i as int),
                    },
                ) == err_text(self@),
            decreases i,
        {
            i = i - 1;
            let ghost before = ErrView {
                message: self.message@,
                contexts: self.contexts@.subrange(0, i as int + 1),
            };
            let ghost after = ErrView {
                message: self.message@,
                contexts: self.contexts@.subrange(0, i as int),
            };
            proof {
                assert(before.contexts.last() == self.contexts@[i as int]);
                assert(before.contexts.drop_last() =~= after.contexts);
            }
            s.append(self.contexts[i].render().as_str());
            s.append(": ");
            proof {
                assert(s@ + err_text(after) =~= err_text(self@));
            }
        }
        proof {
            assert(self.contexts@.subrange(0, 0) =~= Seq::<ErrorContext>::empty());
        }
        s.append(self.message.as_str());
        proof {
            assert(s@ =~= err_text(self@));
        }
        s
    }
}

/// The outcome of a reload attempt that did not install a new table.
#[derive(Debug)]
pub enum ReloadError {
    /// The new configuration failed validation; the error says where.
    Invalid(ConfigError),
    /// The new configuration is valid but binds a different host or port;
    /// applying it needs a restart, never a live reload.
    RestartRequired,
}

impl ReloadError {
    /// The log line for a failed reload, telling an invalid
    /// configuration apart from one that needs a restart.
    pub fn render(&self) -> (r: String)
        ensures
            (match self {
                ReloadError::Invalid(e) => r@ == err_text(e@),
                ReloadError::RestartRequired => r@
                    == "These configuration changes would require a restart."@,
            }),
    {
        match self {
            ReloadError::Invalid(e) => e.render(),
            ReloadError::RestartRequired => {
                "These configuration changes would require a restart.".to_owned()
            },
        }
    }
}

} // verus!
