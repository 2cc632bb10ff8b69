//! The reasons for which an operation refuses its arguments.

use vstd::prelude::*;

verus! {

/// A validation failure. Every one of them is found before any output is
/// written, so a call that returns an error has changed nothing.
#[derive(Clone, Copy, Debug, PartialEq, Eq, Structural)]
pub enum UndistortError {
    /// The lookup table holds no sample.
    Configuration,
    /// The input and the output buffer differ in shape.
    ShapeMismatch,
    /// The image buffers do not have the shape the remap was configured for.
    ConfigurationMismatch,
    /// The point buffer does not have exactly two columns.
    ColumnCount,
}

} // verus!
