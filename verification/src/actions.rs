pub mod download;
pub mod exec;

use vstd::prelude::*;

verus! {

/// An action that could not run to completion, with the reason.
#[derive(Debug)]
pub struct ExecError(pub String);

} // verus!
