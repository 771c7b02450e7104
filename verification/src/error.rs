//! Error conditions of the network core.

use vstd::prelude::*;

verus! {

/// What can be wrong with a network description or with the data handed to it.
#[derive(Clone, Copy, Debug, PartialEq, Eq, Structural)]
pub enum NetworkError {
    /// Fewer than two layers were given, or some layer has no neurons.
    InvalidTopology,
    /// A sample's input or target length disagrees with the layer sizes.
    ShapeMismatch,
}

impl NetworkError {
    /// A short human-readable description of the error.
    pub fn message(&self) -> (text: &'static str)
        ensures
            text@ == (match *self {
                NetworkError::InvalidTopology => "invalid topology"@,
                NetworkError::ShapeMismatch => "shape mismatch"@,
            }),
    {
        match self {
            NetworkError::InvalidTopology => "invalid topology",
            NetworkError::ShapeMismatch => "shape mismatch",
        }
    }
}

} // verus!
