//! One-time validation and preparation of configuration components.

use vstd::prelude::*;

use crate::errors::{ConfigError, ErrView};

verus! {

/// A configuration component that is validated and prepared once, before
/// the table it belongs to may serve requests.
///
/// `check` succeeds exactly on valid content; it never changes the plain
/// configuration content (`like`), and on success the component is fully
/// prepared. On failure it reports the first problem in declaration
/// order, located by its chain of contexts.
pub trait CheckConfig: Sized {
    /// The configuration content is acceptable.
    spec fn valid(self) -> bool;

    /// One-time preparation has been carried out on valid content.
    spec fn prepared(self) -> bool;

    /// `other` carries the same plain configuration content as `self`,
    /// preparation artifacts aside.
    spec fn like(self, other: Self) -> bool;

    /// The error `check` reports when the content is invalid.
    spec fn check_error(self) -> ErrView;

    /// Validates and prepares the component in place.
    fn check(&mut self) -> (r: Result<(), ConfigError>)
        ensures
            r is Ok <==> old(self).valid(),
            old(self).like(*final(self)),
            r is Ok ==> final(self).prepared(),
            r matches Err(e) ==> e@ == old(self).check_error(),
    ;
}

} // verus!
