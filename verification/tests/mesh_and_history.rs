use opencascade::history::{face_positions, source_face, FaceImages};
use opencascade::mesh::{mesh_with_face_ranges, FaceTriangulation};
use opencascade::primitives::{FaceOrientation, ShapeType};
use opencascade::Error;

fn face(node_count: usize, triangles: Vec<(i32, i32, i32)>, orientation: FaceOrientation) -> Option<FaceTriangulation> {
    Some(FaceTriangulation { node_count, triangles, orientation })
}

#[test]
fn forward_face_keeps_winding_and_reversed_face_flips_it() {
    let faces = vec![
        face(4, vec![(1, 2, 3), (1, 3, 4)], FaceOrientation::Forward),
        face(3, vec![(1, 2, 3)], FaceOrientation::Reversed),
    ];
    let (indices, ranges) = mesh_with_face_ranges(&faces).unwrap();
    // Second face's nodes start after the first face's 4 nodes; its winding is reversed.
    assert_eq!(indices, vec![0, 1, 2, 0, 2, 3, 6, 5, 4]);
    assert_eq!(ranges.len(), 2);
    assert_eq!((ranges[0].start, ranges[0].count), (0, 2));
    assert_eq!((ranges[1].start, ranges[1].count), (2, 1));
}

#[test]
fn internal_and_external_faces_are_wound_like_reversed_ones() {
    let faces = vec![
        face(3, vec![(1, 2, 3)], FaceOrientation::Internal),
        face(3, vec![(3, 1, 2)], FaceOrientation::External),
    ];
    let (indices, _) = mesh_with_face_ranges(&faces).unwrap();
    assert_eq!(indices, vec![2, 1, 0, 4, 3, 5]);
}

#[test]
fn untriangulated_face_fails_the_mesh() {
    let faces = vec![face(3, vec![(1, 2, 3)], FaceOrientation::Forward), None];
    assert!(matches!(mesh_with_face_ranges(&faces), Err(Error::UntriangulatedFace)));
    let faces = vec![None, face(3, vec![(1, 2, 3)], FaceOrientation::Forward)];
    assert!(matches!(mesh_with_face_ranges(&faces), Err(Error::UntriangulatedFace)));
}

#[test]
fn empty_mesh_has_no_indices_and_no_ranges() {
    let (indices, ranges) = mesh_with_face_ranges(&vec![]).unwrap();
    assert!(indices.is_empty());
    assert!(ranges.is_empty());
}

#[test]
fn face_ranges_tile_the_triangles_and_select_each_face() {
    // A face without triangles still gets its (empty) range.
    let faces = vec![
        face(3, vec![(1, 2, 3)], FaceOrientation::Forward),
        face(2, vec![], FaceOrientation::Forward),
        face(5, vec![(1, 2, 3), (3, 4, 5), (5, 1, 3)], FaceOrientation::Forward),
    ];
    let (indices, ranges) = mesh_with_face_ranges(&faces).unwrap();
    assert_eq!(indices.len(), 3 * 4);
    assert_eq!(ranges[0].start, 0);
    for k in 0..ranges.len() - 1 {
        assert_eq!(ranges[k].start + ranges[k].count, ranges[k + 1].start);
    }
    let last = ranges[ranges.len() - 1];
    assert_eq!((last.start + last.count) as usize * 3, indices.len());
    assert_eq!((ranges[1].start, ranges[1].count), (1, 0));
    // The third face's nodes are 5..10; its range selects exactly its triangles.
    let third = &indices[3 * ranges[2].start as usize..3 * (ranges[2].start + ranges[2].count) as usize];
    assert_eq!(third, &[5, 6, 7, 7, 8, 9, 9, 5, 7]);
    // Every index names a node of the mesh.
    assert!(indices.iter().all(|&i| i < 3 + 2 + 5));
}

fn images(face: u64, modified: Vec<u64>, generated: Vec<u64>) -> FaceImages {
    FaceImages { face, modified, generated }
}

#[test]
fn source_face_inverts_modified_and_generated_images() {
    let faces = vec![
        images(1, vec![10], vec![]),
        images(2, vec![], vec![20, 21]),
        images(3, vec![], vec![]),
    ];
    assert_eq!(source_face(&faces, 10), Some(0));
    assert_eq!(source_face(&faces, 21), Some(1));
    // An unchanged face is its own source.
    assert_eq!(source_face(&faces, 3), Some(2));
    assert_eq!(source_face(&faces, 99), None);
    assert_eq!(source_face(&vec![], 10), None);
}

#[test]
fn source_face_takes_the_first_face_that_traces_back() {
    let faces = vec![images(1, vec![], vec![7]), images(2, vec![7], vec![]), images(7, vec![], vec![])];
    assert_eq!(source_face(&faces, 7), Some(0));
}

#[test]
fn face_positions_keep_only_faces_in_order() {
    let types = vec![
        ShapeType::Edge,
        ShapeType::Face,
        ShapeType::Solid,
        ShapeType::Face,
        ShapeType::Face,
        ShapeType::Vertex,
    ];
    assert_eq!(face_positions(&types), vec![1, 3, 4]);
    assert!(face_positions(&vec![ShapeType::Wire, ShapeType::Shell]).is_empty());
}
