//! The number of workers of a search.

use vstd::prelude::*;

verus! {

/// Why a search has no workers.
#[derive(Debug, Clone, Copy, PartialEq, Eq, Structural)]
pub enum WorkersError {
    /// A search with no worker was asked for.
    NoWorkers,
}

/// `num_cpus::get` returns the number of logical processors that the
/// process may use, of which its documentation says that it is at least
/// one.
pub assume_specification[ num_cpus::get ]() -> (available: usize)
    ensures
        available >= 1,
;

/// The number of workers of a search on a machine with `available`
/// processors: the number that was asked for; one worker for each processor
/// where none was asked for. A search has one worker at least.
pub open spec fn workers_for(requested: Option<usize>, available: usize) -> Result<
    usize,
    WorkersError,
> {
    let count = match requested {
        Some(count) => count,
        None => available,
    };
    if count == 0 {
        Err(WorkersError::NoWorkers)
    } else {
        Ok(count)
    }
}

/// Computes the number of workers of a search on a machine with
/// `available` processors.
pub fn workers_among(requested: Option<usize>, available: usize) -> (workers: Result<
    usize,
    WorkersError,
>)
    ensures
        workers == workers_for(requested, available),
{
    let count = match requested {
        Some(count) => count,
        None => available,
    };
    if count == 0 {
        Err(WorkersError::NoWorkers)
    } else {
        Ok(count)
    }
}

/// Computes the number of workers of a search on this machine, whatever
/// the number of its processors is.
pub fn worker_count(requested: Option<usize>) -> (workers: Result<usize, WorkersError>)
    ensures
        exists|available: usize| available >= 1 && workers == workers_for(requested, available),
{
    workers_among(requested, num_cpus::get())
}

} // verus!
