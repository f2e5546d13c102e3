use glam::{dvec3, DVec3};
use opencascade::primitives::boolean_shape::{boolean_outcome, non_empty};
use opencascade::primitives::edge::{
    check_spline_points, edge_outcome, ApproximationSegmentIterator, EdgeType,
};
use opencascade::primitives::shape::{seam_edges, tweak_owner, EdgeUse};
use opencascade::{BooleanOperation, EdgeError, Error, FaceError, WireError};

/// The interpolation tolerance of spline building.
const TOLERANCE: f64 = 1.0e-7;

/// Checks spline points the way spline building does: coincidence is a
/// distance within the interpolation tolerance.
fn check_points(points: &[DVec3], periodic: bool) -> Result<(), Error> {
    let coincident: Vec<bool> = points.windows(2).map(|p| p[0].distance(p[1]) <= TOLERANCE).collect();
    let closing = points.len() >= 2 && points[points.len() - 1].distance(points[0]) <= TOLERANCE;
    check_spline_points(points.len(), &coincident, periodic, closing)
}

#[test]
fn spline_through_consecutive_identical_points_reports_error() {
    let p = dvec3(1.0, 2.0, 3.0);
    let result = check_points(&[p, p, dvec3(4.0, 5.0, 6.0)], false);
    assert!(matches!(result, Err(Error::IdenticalSplinePoints(0, 1))));
}

#[test]
fn spline_through_nonconsecutive_duplicate_points_is_accepted() {
    let p = dvec3(0.0, 0.0, 0.0);
    let result = check_points(&[p, dvec3(1.0, 0.0, 0.0), dvec3(1.0, 1.0, 0.0), p], false);
    assert!(result.is_ok());
}

#[test]
fn periodic_spline_must_not_repeat_its_first_point() {
    let p = dvec3(0.0, 0.0, 0.0);
    let points = [p, dvec3(1.0, 0.0, 0.0), dvec3(1.0, 1.0, 0.0), p];
    assert!(matches!(check_points(&points, true), Err(Error::IdenticalSplinePoints(3, 0))));
    assert!(check_points(&points[..3], true).is_ok());
}

#[test]
fn spline_needs_two_points() {
    assert!(matches!(check_points(&[], false), Err(Error::NotEnoughPoints)));
    assert!(matches!(check_points(&[dvec3(1.0, 1.0, 1.0)], true), Err(Error::NotEnoughPoints)));
}

#[test]
fn first_coincident_pair_is_reported() {
    let result = check_spline_points(5, &vec![false, false, true, true], true, true);
    assert!(matches!(result, Err(Error::IdenticalSplinePoints(2, 3))));
}

#[test]
fn edge_status_codes_name_their_errors() {
    assert_eq!(EdgeError::from(0), EdgeError::Unknown);
    assert_eq!(EdgeError::from(1), EdgeError::PointProjectionFailed);
    assert_eq!(EdgeError::from(2), EdgeError::ParameterOutOfRange);
    assert_eq!(EdgeError::from(3), EdgeError::DifferentPointsOnClosedCurve);
    assert_eq!(EdgeError::from(4), EdgeError::PointWithInfiniteParameter);
    assert_eq!(EdgeError::from(5), EdgeError::DifferentPointAndParameter);
    assert_eq!(EdgeError::from(6), EdgeError::LineThroughIdenticalPoints);
    assert_eq!(EdgeError::from(7), EdgeError::Unknown);
    assert_eq!(EdgeError::from(-1), EdgeError::Unknown);
}

#[test]
fn wire_and_face_status_codes_name_their_errors() {
    assert_eq!(WireError::from(0), WireError::Unknown);
    assert_eq!(WireError::from(1), WireError::EmptyWire);
    assert_eq!(WireError::from(2), WireError::DisconnectedWire);
    assert_eq!(WireError::from(3), WireError::NonManifoldWire);
    assert_eq!(WireError::from(4), WireError::Unknown);
    assert_eq!(FaceError::from(0), FaceError::Unknown);
    assert_eq!(FaceError::from(1), FaceError::NoFace);
    assert_eq!(FaceError::from(2), FaceError::NotPlanar);
    assert_eq!(FaceError::from(3), FaceError::CurveProjectionFailed);
    assert_eq!(FaceError::from(4), FaceError::ParametersOutOfRange);
    assert_eq!(FaceError::from(5), FaceError::Unknown);
}

#[test]
fn identical_points_status_fails_the_edge() {
    assert!(matches!(
        edge_outcome(false, 6),
        Err(Error::EdgeFailed(EdgeError::LineThroughIdenticalPoints))
    ));
    assert!(edge_outcome(true, 6).is_ok());
}

#[test]
fn curve_type_codes_name_edge_types() {
    let expected = [
        EdgeType::Line,
        EdgeType::Circle,
        EdgeType::Ellipse,
        EdgeType::Hyperbola,
        EdgeType::Parabola,
        EdgeType::BezierCurve,
        EdgeType::BSplineCurve,
        EdgeType::OffsetCurve,
        EdgeType::OtherCurve,
    ];
    for (code, edge_type) in expected.iter().enumerate() {
        assert_eq!(EdgeType::from(code as i32), *edge_type);
    }
}

#[test]
fn approximation_points_are_walked_from_one() {
    let mut it = ApproximationSegmentIterator::new();
    assert_eq!(it.next_index(3), Some(1));
    assert_eq!(it.next_index(3), Some(2));
    assert_eq!(it.next_index(3), Some(3));
    assert_eq!(it.next_index(3), None);
    assert_eq!(it.next_index(3), None);
    let mut empty = ApproximationSegmentIterator::new();
    assert_eq!(empty.next_index(0), None);
}

#[test]
fn blank_reports_are_dropped_and_others_trimmed() {
    assert_eq!(non_empty(String::new()), None);
    assert_eq!(non_empty(" \t\n\r ".to_string()), None);
    assert_eq!(non_empty("\u{a0}\u{3000}".to_string()), None);
    assert_eq!(non_empty("  Warning: gaps \n".to_string()), Some("Warning: gaps".to_string()));
    assert_eq!(non_empty("x".to_string()), Some("x".to_string()));
    assert_eq!(non_empty("\u{2003}a b\u{2028}".to_string()), Some("a b".to_string()));
}

#[test]
fn non_empty_agrees_with_str_trim() {
    for s in ["", " ", "ab", " a b ", "\u{85}z\u{205f}", "é \u{1680}", "\u{200b}"] {
        let trimmed = s.trim();
        let expected = if trimmed.is_empty() { None } else { Some(trimmed.to_string()) };
        assert_eq!(non_empty(s.to_string()), expected, "{s:?}");
    }
}

#[test]
fn non_empty_strips_exactly_unicode_white_space() {
    for c in (0u32..0x11_0000).filter_map(char::from_u32) {
        assert_eq!(non_empty(c.to_string()).is_none(), c.is_whitespace(), "{:#x}", c as u32);
    }
}

#[test]
fn failed_boolean_reports_its_errors() {
    let result = boolean_outcome(BooleanOperation::Cut, false, "BOPAlgo fail".to_string(), String::new());
    match result {
        Err(Error::BooleanFailed(op, errors)) => {
            assert_eq!(op, BooleanOperation::Cut);
            assert_eq!(errors, "BOPAlgo fail");
        },
        other => panic!("unexpected outcome: {other:?}"),
    }
}

#[test]
fn done_boolean_keeps_only_real_warnings() {
    assert_eq!(boolean_outcome(BooleanOperation::Fuse, true, String::new(), " \n".to_string()).unwrap(), None);
    assert_eq!(
        boolean_outcome(BooleanOperation::Common, true, String::new(), " W1\n".to_string()).unwrap(),
        Some("W1".to_string())
    );
}

fn uses(list: &[(u64, bool)]) -> Vec<EdgeUse> {
    list.iter().map(|&(edge, is_seam)| EdgeUse { edge, is_seam }).collect()
}

#[test]
fn seam_edges_are_kept_once_at_first_seam_occurrence() {
    // Edge 5 is a seam twice, edge 6 first appears as a plain edge, then as a seam.
    let list = uses(&[(1, false), (5, true), (6, false), (5, true), (6, true), (2, false)]);
    assert_eq!(seam_edges(&list), vec![1, 4]);
}

#[test]
fn shape_without_seams_has_none() {
    assert!(seam_edges(&uses(&[(1, false), (2, false), (1, false)])).is_empty());
    assert!(seam_edges(&vec![]).is_empty());
}

#[test]
fn tweak_in_compound_edits_the_owning_child() {
    let children = vec![vec![1, 2, 3], vec![4, 5, 6]];
    assert_eq!(tweak_owner(&children, &vec![5, 4]).unwrap(), 1);
    assert_eq!(tweak_owner(&children, &vec![2]).unwrap(), 0);
}

#[test]
fn tweak_faces_spanning_children_fail() {
    let children = vec![vec![1, 2, 3], vec![4, 5, 6]];
    match tweak_owner(&children, &vec![1, 4]) {
        Err(Error::TweakFailed(m)) => assert_eq!(m, "tweak: faces span multiple children of a compound"),
        other => panic!("unexpected outcome: {other:?}"),
    }
}

#[test]
fn tweak_face_of_no_child_fails() {
    let children = vec![vec![1, 2, 3], vec![4, 5, 6]];
    // The first face that fails decides the error.
    match tweak_owner(&children, &vec![9, 1]) {
        Err(Error::TweakFailed(m)) => assert_eq!(m, "tweak: a face does not belong to the shape"),
        other => panic!("unexpected outcome: {other:?}"),
    }
    match tweak_owner(&children, &vec![1, 9, 4]) {
        Err(Error::TweakFailed(m)) => assert_eq!(m, "tweak: a face does not belong to the shape"),
        other => panic!("unexpected outcome: {other:?}"),
    }
}

#[test]
fn tweak_without_faces_fails() {
    match tweak_owner(&vec![vec![1]], &vec![]) {
        Err(Error::TweakFailed(m)) => assert_eq!(m, "tweak: no faces given"),
        other => panic!("unexpected outcome: {other:?}"),
    }
}

#[test]
fn shared_face_belongs_to_the_first_child_holding_it() {
    let children = vec![vec![1, 7], vec![7, 8]];
    assert_eq!(tweak_owner(&children, &vec![7, 1]).unwrap(), 0);
    assert!(tweak_owner(&children, &vec![7, 8]).is_err());
}
