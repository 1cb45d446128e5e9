//! Processes that were run.

use vstd::prelude::*;

verus! {

/// What a process that ended left.
#[derive(Debug)]
pub struct ProcessOutput {
    pub success: bool,
    pub code: Option<i32>,
    pub stdout: Vec<u8>,
    pub stderr: Vec<u8>,
}

} // verus!
