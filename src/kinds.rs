use vstd::prelude::*;

verus! {

/// The variants a platform can have. `_ExhaustiveMatches` stands for variants
/// that have no color assigned yet.
#[derive(Clone, Copy, Debug, PartialEq, Eq, Structural)]
pub enum PlatformType {
    Blank,
    _ExhaustiveMatches,
}

/// The attribute component of a platform.
#[derive(Clone, Copy, Debug, PartialEq, Eq, Structural)]
pub struct PlatformAttributes(pub PlatformType);

impl Default for PlatformAttributes {
    fn default() -> (r: Self)
        ensures
            r == PlatformAttributes(PlatformType::Blank),
    {
        PlatformAttributes(PlatformType::Blank)
    }
}

/// The kinds of collectable resources.
#[derive(Clone, Copy, Debug, PartialEq, Eq, Structural)]
pub enum ResourceType {
    Perl,
}

/// The attribute component of a resource.
#[derive(Clone, Copy, Debug, PartialEq, Eq, Structural)]
pub struct ResourceAttributes {
    pub kind: ResourceType,
}

impl ResourceAttributes {
    pub fn new(kind: ResourceType) -> (r: Self)
        ensures
            r.kind == kind,
    {
        ResourceAttributes { kind }
    }
}

/// The attribute component of a mobile unit: its velocity per tick.
#[derive(Clone, Copy, Debug, PartialEq, Eq, Structural)]
pub struct GUnitAttributes {
    pub vx: i64,
    pub vy: i64,
}

pub const UNIT_DEFAULT_VX: i64 = 1;
pub const UNIT_DEFAULT_VY: i64 = 1;

impl Default for GUnitAttributes {
    fn default() -> (r: Self)
        ensures
            r == (GUnitAttributes { vx: UNIT_DEFAULT_VX, vy: UNIT_DEFAULT_VY }),
    {
        GUnitAttributes { vx: UNIT_DEFAULT_VX, vy: UNIT_DEFAULT_VY }
    }
}

} // verus!
