use vstd::prelude::*;

pub mod boolean_shape;
pub mod edge;
pub mod shape;

verus! {

/// The kind of a topological shape, in the order of OCCT's `TopAbs_ShapeEnum`.
#[derive(Debug, Copy, Clone, PartialEq, Eq, Structural)]
pub enum ShapeType {
    Compound,
    CompoundSolid,
    Solid,
    Shell,
    Face,
    Wire,
    Edge,
    Vertex,
    Shape,
}

/// How a face is oriented relative to its underlying surface (`TopAbs_Orientation`).
#[derive(Debug, Copy, Clone, PartialEq, Eq, Structural)]
pub enum FaceOrientation {
    Forward,
    Reversed,
    Internal,
    External,
}

} // verus!
