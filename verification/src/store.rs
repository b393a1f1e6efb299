//! The configuration store: holds the active routing table and applies
//! the hot-reload rules. A table is either fully prepared and installed,
//! or rejected whole; a reload that would change the bind address is
//! refused with a distinguished error and leaves the active table
//! untouched.

use vstd::prelude::*;

use crate::config::{config_checked_from, config_check_owned, config_err, config_prepared,
    files_match, host_eq, Config};
use crate::errors::ReloadError;
use crate::http::{req_path_view, HttpRequest};
use crate::page::{serve_outcome_matches, ServeOutcome};

verus! {

/// Holds the active routing table, `None` before the first successful
/// load. Readers take the whole current table; a reload replaces it
/// wholesale and never mutates an installed table in place.
pub struct ConfigStore {
    /// The active table, once one has been loaded.
    pub current: Option<Config>,
}

impl ConfigStore {
    /// Every table the store holds went through preparation whole.
    pub open spec fn wf(self) -> bool {
        self.current matches Some(c) ==> config_prepared(c)
    }

    /// An empty store: no table loaded, nothing may be served yet.
    pub fn new() -> (r: Self)
        ensures
            r.current is None,
            r.wf(),
    {
        ConfigStore { current: None }
    }

    /// Whether a table is loaded and requests may be served.
    pub fn is_loaded(&self) -> (r: bool)
        ensures
            r == (self.current is Some),
    {
        match &self.current {
            Some(_) => true,
            None => false,
        }
    }

    /// The reload state machine. Validates and prepares `new_config`
    /// against the file-read outcomes in `files`; on a validation
    /// failure, or when the new table binds a different host or port
    /// than the active one, nothing changes and the error says which of
    /// the two happened. Otherwise the prepared table replaces the
    /// active one wholesale.
    pub fn try_load_config(
        &mut self,
        new_config: Config,
        files: Vec<Option<Result<Vec<u8>, String>>>,
    ) -> (r: Result<(), ReloadError>)
        requires
            old(self).wf(),
            files_match(new_config, files@),
        ensures
            final(self).wf(),
            (match r {
                Ok(()) => {
                    &&& config_err(new_config, files@) is None
                    &&& (old(self).current matches Some(c) ==> host_eq(c.host, new_config.host))
                    &&& final(self).current matches Some(nc) && config_checked_from(
                        new_config,
                        files@,
                        nc,
                    )
                },
                Err(ReloadError::Invalid(e)) => {
                    &&& config_err(new_config, files@) matches Some(v) && e@ == v
                    &&& *final(self) == *old(self)
                },
                Err(ReloadError::RestartRequired) => {
                    &&& config_err(new_config, files@) is None
                    &&& old(self).current matches Some(c) && !host_eq(c.host, new_config.host)
                    &&& *final(self) == *old(self)
                },
            }),
    {
        let (checked, res) = config_check_owned(new_config, files);
        match res {
            Err(e) => Err(ReloadError::Invalid(e)),
            Ok(()) => {
                match &self.current {
                    Some(cur) => {
                        if checked.requires_restart(cur) {
                            return Err(ReloadError::RestartRequired);
                        }
                    },
                    None => {},
                }
                self.current = Some(checked);
                Ok(())
            },
        }
    }

    /// Serves one request against the active table: resolves the page
    /// in declaration order and serves it. Serving before the first
    /// successful load is a bootstrap-ordering fault, excluded here,
    /// not a recoverable request error.
    pub fn dispatch(&self, req: HttpRequest) -> (r: ServeOutcome)
        requires
            self.wf(),
            self.current is Some,
        ensures
            serve_outcome_matches(
                self.current->Some_0.spec_resolve(req_path_view(req)),
                req,
                r,
            ),
    {
        let c = self.current.as_ref().unwrap();
        let path = match &req.path {
            Some(p) => Some(p.as_str()),
            None => None,
        };
        let page = c.resolve(path);
        page.serve(req)
    }
}

} // verus!

