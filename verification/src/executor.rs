//! The cooperative scheduler the bootstraps run on. The scheduling calls
//! themselves — blocking on a future, spawning a task — are runtime work
//! and live with the loop that owns the socket; the library holds the
//! executor handle and its identity.

use vstd::prelude::*;

verus! {

/// A handle naming the executor that runs the event loops on the current
/// thread's runtime.
#[derive(Clone)]
pub struct TokioLocalExecutor {}

/// A fresh executor handle.
pub fn new() -> (r: TokioLocalExecutor) {
    TokioLocalExecutor {  }
}

impl TokioLocalExecutor {
    /// The executor's name, used for identification in diagnostics.
    pub fn name(&self) -> &'static str {
        "retty-tokio-local-executor"
    }
}

} // verus!
