//! Errors of material registration and texture lookup.

use vstd::prelude::*;

verus! {

/// Why a material could not be registered or resolved.
#[derive(Debug, Clone)]
pub enum MaterialError {
    AlreadyRegistered(String),
    MissingTexture(String),
    InvalidTexture(String),
    InvalidValue(String),
}

impl MaterialError {
    /// The characters of the error's description.
    pub open spec fn spec_message(self) -> Seq<char> {
        match self {
            MaterialError::AlreadyRegistered(s) => "material already registered: "@ + s@,
            MaterialError::MissingTexture(s) => "missing texture: "@ + s@,
            MaterialError::InvalidTexture(s) => "invalid texture: "@ + s@,
            MaterialError::InvalidValue(s) => "invalid value: "@ + s@,
        }
    }

    /// A human-readable description of the error.
    pub fn message(&self) -> (m: String)
        ensures
            m@ == self.spec_message(),
    {
        match self {
            MaterialError::AlreadyRegistered(s) => String::from_str(
                "material already registered: ",
            ).concat(s.as_str()),
            MaterialError::MissingTexture(s) => String::from_str("missing texture: ").concat(
                s.as_str(),
            ),
            MaterialError::InvalidTexture(s) => String::from_str("invalid texture: ").concat(
                s.as_str(),
            ),
            MaterialError::InvalidValue(s) => String::from_str("invalid value: ").concat(
                s.as_str(),
            ),
        }
    }
}

} // verus!
