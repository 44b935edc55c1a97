//! The library's error type.
//!
//! Every failure is fatal to the current trial: a trial with a missing
//! data point would corrupt the comparison table, so nothing is retried
//! or silently skipped.  Each variant's contract states exactly when it
//! is returned.

use vstd::prelude::*;

verus! {

/// Why a trial step was aborted.
#[derive(Clone, Copy, Debug, PartialEq, Eq, Structural)]
pub enum BenchError {
    /// A batch was built with differing field and column counts.
    FieldCountMismatch,
    /// A batch was built from columns of differing row counts.
    RowCountMismatch,
    /// A random-access position is not below the row count.
    IndexOutOfRange,
    /// The storage backend failed to serialize the batch.
    EncodeFailed,
    /// The stored bytes could not be decoded into integer columns.
    DecodeFailed,
    /// A written size of zero: ratios must fail loudly, not divide by it.
    ZeroWrittenSize,
    /// The uncompressed-size formula does not fit the result type.
    SizeOverflow,
}

} // verus!
