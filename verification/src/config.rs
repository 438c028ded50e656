//! The server's configuration, as far as file operations read it, and the
//! guard that keeps a read-only server unchanged.

use crate::error::{ErrorView, ServiceError};
use vstd::prelude::*;

verus! {

/// What every request reads of the configuration. It is loaded once, before
/// the first request, and never changed.
#[derive(Debug, Clone, PartialEq, Eq)]
pub struct Config {
    /// The secret under which bearer tokens are signed.
    pub jwt_secret: Vec<u8>,
    /// Whether the server refuses every operation that changes anything.
    pub read_only: bool,
    /// The directory below which the users' directories lie.
    pub data_root: String,
}

/// A configuration as a value.
pub struct ConfigView {
    pub jwt_secret: Seq<u8>,
    pub read_only: bool,
    pub data_root: Seq<char>,
}

impl View for Config {
    type V = ConfigView;

    open spec fn view(&self) -> ConfigView {
        ConfigView {
            jwt_secret: self.jwt_secret@,
            read_only: self.read_only,
            data_root: self.data_root@,
        }
    }
}

/// What the guard answers: nothing on a writable server, a violation on a
/// read-only one.
pub open spec fn guarded(config: ConfigView) -> Result<(), ErrorView> {
    if config.read_only {
        Err(ErrorView::ReadOnlyViolation)
    } else {
        Ok(())
    }
}

/// The check that every operation which changes the file system makes
/// first. It reads one flag and touches nothing.
pub fn read_only_guard(config: &Config) -> (result: Result<(), ServiceError>)
    ensures
        match result {
            Ok(_) => guarded(config@) is Ok,
            Err(e) => guarded(config@) == Err::<(), ErrorView>(e@),
        },
{
    if config.read_only {
        Err(ServiceError::ReadOnlyViolation)
    } else {
        Ok(())
    }
}

} // verus!
