use vstd::prelude::*;

pub mod history;
pub mod iteration;
pub mod mesh;
pub mod primitives;
pub mod xcaf;

verus! {

/// The boolean operation that an algorithm ran.
#[derive(Debug, Copy, Clone, PartialEq, Eq, Structural)]
pub enum BooleanOperation {
    Cut,
    Fuse,
    Common,
}

/// Everything that can go wrong in this library.
#[derive(Debug)]
pub enum Error {
    StlWriteFailed,
    StepReadFailed,
    IgesReadFailed,
    /// A KiCAD PCB file could not be read; the parser's message.
    KicadReadFailed(String),
    StepWriteFailed,
    IgesWriteFailed,
    BrepReadFailed,
    BrepWriteFailed,
    TriangulationFailed,
    UntriangulatedFace,
    NotEnoughPoints,
    /// Consecutive spline points at these indices are identical.
    IdenticalSplinePoints(usize, usize),
    EdgeFailed(EdgeError),
    WireFailed(WireError),
    FaceFailed(FaceError),
    NotASimilarityTransform,
    TweakFailed(String),
    /// A boolean operation did not complete; the algorithm's error report.
    BooleanFailed(BooleanOperation, String),
    CleanFailed(String),
}

/// Reason a `BRepBuilderAPI_MakeEdge` failed to produce an edge.
#[derive(Debug, Copy, Clone, PartialEq, Eq, Structural)]
pub enum EdgeError {
    PointProjectionFailed,
    ParameterOutOfRange,
    DifferentPointsOnClosedCurve,
    PointWithInfiniteParameter,
    DifferentPointAndParameter,
    LineThroughIdenticalPoints,
    /// An error code not recognized by this wrapper (including a spurious "done").
    Unknown,
}

/// Reason a `BRepBuilderAPI_MakeWire` failed to produce a wire.
#[derive(Debug, Copy, Clone, PartialEq, Eq, Structural)]
pub enum WireError {
    EmptyWire,
    DisconnectedWire,
    NonManifoldWire,
    /// An error code not recognized by this wrapper (including a spurious "done").
    Unknown,
}

/// Reason a `BRepBuilderAPI_MakeFace` failed to produce a face.
#[derive(Debug, Copy, Clone, PartialEq, Eq, Structural)]
pub enum FaceError {
    NoFace,
    NotPlanar,
    CurveProjectionFailed,
    ParametersOutOfRange,
    /// An error code not recognized by this wrapper (including a spurious "done").
    Unknown,
}

/// The edge error that a `BRepBuilderAPI_EdgeError` status code stands for.
/// Codes follow the order of the OCCT enumeration, `0` being `EdgeDone`.
pub open spec fn edge_error_of(code: i32) -> EdgeError {
    if code == 1 {
        EdgeError::PointProjectionFailed
    } else if code == 2 {
        EdgeError::ParameterOutOfRange
    } else if code == 3 {
        EdgeError::DifferentPointsOnClosedCurve
    } else if code == 4 {
        EdgeError::PointWithInfiniteParameter
    } else if code == 5 {
        EdgeError::DifferentPointAndParameter
    } else if code == 6 {
        EdgeError::LineThroughIdenticalPoints
    } else {
        EdgeError::Unknown
    }
}

/// The wire error that a `BRepBuilderAPI_WireError` status code stands for,
/// `0` being `WireDone`.
pub open spec fn wire_error_of(code: i32) -> WireError {
    if code == 1 {
        WireError::EmptyWire
    } else if code == 2 {
        WireError::DisconnectedWire
    } else if code == 3 {
        WireError::NonManifoldWire
    } else {
        WireError::Unknown
    }
}

/// The face error that a `BRepBuilderAPI_FaceError` status code stands for,
/// `0` being `FaceDone`.
pub open spec fn face_error_of(code: i32) -> FaceError {
    if code == 1 {
        FaceError::NoFace
    } else if code == 2 {
        FaceError::NotPlanar
    } else if code == 3 {
        FaceError::CurveProjectionFailed
    } else if code == 4 {
        FaceError::ParametersOutOfRange
    } else {
        FaceError::Unknown
    }
}

impl EdgeError {
    /// Converts the status code of an edge builder.
    pub fn from(code: i32) -> (e: EdgeError)
        ensures
            e == edge_error_of(code),
    {
        match code {
            1 => EdgeError::PointProjectionFailed,
            2 => EdgeError::ParameterOutOfRange,
            3 => EdgeError::DifferentPointsOnClosedCurve,
            4 => EdgeError::PointWithInfiniteParameter,
            5 => EdgeError::DifferentPointAndParameter,
            6 => EdgeError::LineThroughIdenticalPoints,
            _ => EdgeError::Unknown,
        }
    }
}

impl WireError {
    /// Converts the status code of a wire builder.
    pub fn from(code: i32) -> (e: WireError)
        ensures
            e == wire_error_of(code),
    {
        match code {
            1 => WireError::EmptyWire,
            2 => WireError::DisconnectedWire,
            3 => WireError::NonManifoldWire,
            _ => WireError::Unknown,
        }
    }
}

impl FaceError {
    /// Converts the status code of a face builder.
    pub fn from(code: i32) -> (e: FaceError)
        ensures
            e == face_error_of(code),
    {
        match code {
            1 => FaceError::NoFace,
            2 => FaceError::NotPlanar,
            3 => FaceError::CurveProjectionFailed,
            4 => FaceError::ParametersOutOfRange,
            _ => FaceError::Unknown,
        }
    }
}

} // verus!
