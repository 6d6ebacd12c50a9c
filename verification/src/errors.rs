use vstd::prelude::*;

verus! {

/// The error that constructors return when their input does not describe a valid geometry.
#[derive(Debug, Clone, Copy, PartialEq, Eq, Structural)]
pub enum GeometryError {
    InvalidGeometry,
}

impl GeometryError {
    /// Human readable description of the error.
    pub fn message(&self) -> (r: &'static str)
        ensures
            r@ == "invalid geometry"@,
    {
        match self {
            GeometryError::InvalidGeometry => "invalid geometry",
        }
    }
}

} // verus!
