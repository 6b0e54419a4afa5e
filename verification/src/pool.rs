//! Which connection to the database a request gets.

use vstd::prelude::*;

verus! {

/// Why a request gets no connection.
#[derive(Debug, Clone, Copy, PartialEq, Eq, Structural)]
pub enum DbError {
    /// There is no pool of connections.
    NoPool,
    /// The pool has no connection left.
    NoConnection,
}

impl DbError {
    /// The status that the request is answered with: an internal error, or that the service is
    /// unavailable.
    pub fn status(self) -> (r: u16)
        ensures
            r == match self {
                DbError::NoPool => 500u16,
                DbError::NoConnection => 503u16,
            },
    {
        match self {
            DbError::NoPool => 500,
            DbError::NoConnection => 503,
        }
    }
}

/// The connection that a pool gave, if there is a pool and it gave one.
pub fn connection<C>(pool: Option<Option<C>>) -> (r: Result<C, DbError>)
    ensures
        r == match pool {
            None => Err::<C, DbError>(DbError::NoPool),
            Some(None) => Err(DbError::NoConnection),
            Some(Some(connection)) => Ok(connection),
        },
{
    match pool {
        None => Err(DbError::NoPool),
        Some(None) => Err(DbError::NoConnection),
        Some(Some(connection)) => Ok(connection),
    }
}

} // verus!
