//! What a recovery after interrupted operations found and did.
use vstd::prelude::*;

verus! {

/// The outcome of a recovery.
pub struct RecoveryReport {
    pub interrupted_transactions: usize,
    pub rolled_back: usize,
    pub cleaned_progress_files: usize,
    pub errors: Vec<String>,
}

} // verus!
