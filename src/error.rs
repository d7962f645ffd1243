use vstd::prelude::*;

verus! {

/// Why a registration could not produce a transform.
#[derive(Debug, Clone, Copy, PartialEq, Eq, Structural)]
pub enum RegistrationError {
    /// The source or the target cloud holds no point.
    EmptyInput,
    /// A decomposition step produced no usable rotation.
    NumericFailure,
}

impl RegistrationError {
    /// A short human-readable description.
    pub fn message(&self) -> (r: String) {
        match self {
            RegistrationError::EmptyInput => String::from_str("source or target point cloud is empty"),
            RegistrationError::NumericFailure => String::from_str("alignment produced no valid rotation"),
        }
    }
}

} // verus!
