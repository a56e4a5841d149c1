use vstd::prelude::*;

verus! {

/// The closed set of object kinds a scene can hold.
#[derive(Clone, Copy, Debug, PartialEq, Eq, Structural)]
pub enum RaytracerObjectType {
    Plane,
    Sphere,
    /// A placeholder kind with no surface of its own.
    TestShape,
}

impl RaytracerObjectType {
    /// Whether intersections and surface normals are defined for this kind;
    /// asking a kind without them for either is a configuration error.
    pub fn has_geometry(&self) -> (r: bool)
        ensures
            r == (*self != RaytracerObjectType::TestShape),
    {
        match self {
            RaytracerObjectType::Plane => true,
            RaytracerObjectType::Sphere => true,
            RaytracerObjectType::TestShape => false,
        }
    }
}

} // verus!
