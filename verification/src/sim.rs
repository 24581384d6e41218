//! Simulation resource kinds.

use vstd::prelude::*;

verus! {

/// What a simulation buffer holds: image data or geometry.
#[derive(Clone, Copy, PartialEq, Eq, Structural)]
pub enum Format {
    Image,
    Geo,
}

impl Format {
    /// The characters of the kind's display name.
    pub open spec fn spec_name(self) -> Seq<char> {
        match self {
            Format::Image => "Image"@,
            Format::Geo => "Geometry"@,
        }
    }

    /// The kind's display name.
    pub fn name(&self) -> (s: String)
        ensures
            s@ == self.spec_name(),
    {
        match self {
            Format::Image => String::from_str("Image"),
            Format::Geo => String::from_str("Geometry"),
        }
    }
}

} // verus!
