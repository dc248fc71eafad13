//! The closed enumeration of shape kinds and its stable numeric tags.
use vstd::prelude::*;

verus! {

/// The kind of a shape. Each kind has a stable numeric tag (see `tag`).
#[derive(Clone, Copy, Debug, PartialEq, Eq, Hash, Structural)]
pub enum ShapeType {
    Ball,
    Cuboid,
    Capsule,
    Segment,
    Triangle,
    Voxels,
    TriMesh,
    Polyline,
    HalfSpace,
    HeightField,
    Compound,
    ConvexPolygon,
    RoundCuboid,
    RoundTriangle,
    RoundConvexPolygon,
    Custom,
}

impl ShapeType {
    /// The stable numeric tag of each kind, in declaration order from zero.
    pub open spec fn tag_spec(self) -> u32 {
        match self {
            ShapeType::Ball => 0,
            ShapeType::Cuboid => 1,
            ShapeType::Capsule => 2,
            ShapeType::Segment => 3,
            ShapeType::Triangle => 4,
            ShapeType::Voxels => 5,
            ShapeType::TriMesh => 6,
            ShapeType::Polyline => 7,
            ShapeType::HalfSpace => 8,
            ShapeType::HeightField => 9,
            ShapeType::Compound => 10,
            ShapeType::ConvexPolygon => 11,
            ShapeType::RoundCuboid => 12,
            ShapeType::RoundTriangle => 13,
            ShapeType::RoundConvexPolygon => 14,
            ShapeType::Custom => 15,
        }
    }

    /// Kinds whose shapes are made of parts under a hierarchy of boxes.
    pub open spec fn is_composite_kind(self) -> bool {
        self == ShapeType::Compound || self == ShapeType::TriMesh || self == ShapeType::Polyline
            || self == ShapeType::HeightField
    }

    pub fn tag(&self) -> (r: u32)
        ensures
            r == self.tag_spec(),
    {
        match self {
            ShapeType::Ball => 0,
            ShapeType::Cuboid => 1,
            ShapeType::Capsule => 2,
            ShapeType::Segment => 3,
            ShapeType::Triangle => 4,
            ShapeType::Voxels => 5,
            ShapeType::TriMesh => 6,
            ShapeType::Polyline => 7,
            ShapeType::HalfSpace => 8,
            ShapeType::HeightField => 9,
            ShapeType::Compound => 10,
            ShapeType::ConvexPolygon => 11,
            ShapeType::RoundCuboid => 12,
            ShapeType::RoundTriangle => 13,
            ShapeType::RoundConvexPolygon => 14,
            ShapeType::Custom => 15,
        }
    }

    /// The kind with tag `t`, if there is one.
    pub fn from_u32(t: u32) -> (r: Option<ShapeType>)
        ensures
            r matches Some(k) ==> k.tag_spec() == t,
            r is None <==> t > 15,
    {
        if t == 0 {
            Some(ShapeType::Ball)
        } else if t == 1 {
            Some(ShapeType::Cuboid)
        } else if t == 2 {
            Some(ShapeType::Capsule)
        } else if t == 3 {
            Some(ShapeType::Segment)
        } else if t == 4 {
            Some(ShapeType::Triangle)
        } else if t == 5 {
            Some(ShapeType::Voxels)
        } else if t == 6 {
            Some(ShapeType::TriMesh)
        } else if t == 7 {
            Some(ShapeType::Polyline)
        } else if t == 8 {
            Some(ShapeType::HalfSpace)
        } else if t == 9 {
            Some(ShapeType::HeightField)
        } else if t == 10 {
            Some(ShapeType::Compound)
        } else if t == 11 {
            Some(ShapeType::ConvexPolygon)
        } else if t == 12 {
            Some(ShapeType::RoundCuboid)
        } else if t == 13 {
            Some(ShapeType::RoundTriangle)
        } else if t == 14 {
            Some(ShapeType::RoundConvexPolygon)
        } else if t == 15 {
            Some(ShapeType::Custom)
        } else {
            None
        }
    }

    pub fn is_composite(&self) -> (r: bool)
        ensures
            r == self.is_composite_kind(),
    {
        match self {
            ShapeType::Compound | ShapeType::TriMesh | ShapeType::Polyline
            | ShapeType::HeightField => true,
            _ => false,
        }
    }
}

/// Distinct kinds have distinct tags.
pub proof fn lemma_tag_injective(a: ShapeType, b: ShapeType)
    ensures
        a.tag_spec() == b.tag_spec() <==> a == b,
{
}

} // verus!
