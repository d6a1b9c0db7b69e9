//! The ways a run over a capture can fail.

use vstd::prelude::*;

verus! {

/// Why a stage gave up. Every failure ends the run: nothing is skipped.
#[derive(Clone, Copy, Debug, PartialEq, Eq)]
pub enum AnalysisError {
    /// The payload text of the captured packet at `index` is not
    /// colon-separated hexadecimal.
    MalformedPayload { index: usize },
    /// The decoder's text for the extracted packet at `index` does not
    /// describe a message.
    DecodeError { index: usize },
    /// A counter of the traffic statistics would pass `u64::MAX`.
    CounterOverflow,
}

} // verus!
