//! Errors as stream and connection users see them.
use vstd::prelude::*;
use crate::error_code::ErrorCode;

verus! {

/// Why a stream or a connection failed, as its users see it.
#[derive(Clone, Copy, Debug, PartialEq, Eq, Structural)]
pub enum Error {
    /// The stream alone was reset, by the peer or locally, with this code.
    Stream(ErrorCode),
    /// The connection failed with this code; every stream on it fails.
    Connection(ErrorCode),
    /// The connection is gone and left no cause.
    ConnectionDied,
}

/// Records why a connection died, so that late readers of its streams see
/// a cause rather than a silent end.
#[derive(Clone, Copy, Debug, PartialEq, Eq, Structural)]
pub struct ConnDiedErrorHolder {
    pub cause: Option<Error>,
}

impl ConnDiedErrorHolder {
    pub open spec fn error_spec(&self) -> Error {
        match self.cause {
            Some(e) => e,
            None => Error::ConnectionDied,
        }
    }

    /// A holder with no cause yet.
    pub fn new() -> (r: ConnDiedErrorHolder)
        ensures
            r.cause is None,
    {
        ConnDiedErrorHolder { cause: None }
    }

    /// Records the cause; the first one recorded is kept.
    pub fn set_once(&mut self, e: Error)
        ensures
            final(self).cause == (if old(self).cause is Some { old(self).cause } else { Some(e) }),
    {
        if self.cause.is_none() {
            self.cause = Some(e);
        }
    }

    /// The recorded cause, or `ConnectionDied` when none was recorded.
    pub fn error(&self) -> (r: Error)
        ensures
            r == self.error_spec(),
    {
        match self.cause {
            Some(e) => e,
            None => Error::ConnectionDied,
        }
    }
}

} // verus!
