//! Relaying bytes both ways between two connections.
use vstd::prelude::*;

verus! {

/// How many bytes a relay copied each way.
#[derive(Debug, Clone, Copy, PartialEq, Eq, Structural)]
pub struct RelayStats {
    /// Bytes copied from side A to side B.
    pub a_to_b: u64,
    /// Bytes copied from side B to side A.
    pub b_to_a: u64,
}

/// The result of a relay once both directions have finished: the error of
/// the A-to-B direction if it failed, else that of the B-to-A direction,
/// else the byte counts of both.
pub fn relay_outcome<E>(a_to_b: Result<u64, E>, b_to_a: Result<u64, E>) -> (r: Result<RelayStats, E>)
    ensures
        match (a_to_b, b_to_a) {
            (Err(e), _) => r == Err::<RelayStats, E>(e),
            (Ok(_), Err(e)) => r == Err::<RelayStats, E>(e),
            (Ok(x), Ok(y)) => r == Ok::<RelayStats, E>(RelayStats { a_to_b: x, b_to_a: y }),
        },
{
    match a_to_b {
        Err(e) => Err(e),
        Ok(x) => match b_to_a {
            Err(e) => Err(e),
            Ok(y) => Ok(RelayStats { a_to_b: x, b_to_a: y }),
        },
    }
}

} // verus!
