use vstd::prelude::*;

use crate::primitives::FaceOrientation;
use crate::Error;

verus! {

/// Triangle index range for a single B-Rep face within a tessellated mesh.
///
/// `start` and `count` are in triangles (not raw indices). Multiply by 3 to
/// get the raw index offset into the mesh's index list.
#[derive(Debug, Clone, Copy)]
pub struct FaceRange {
    /// First triangle index belonging to this face.
    pub start: u32,
    /// Number of triangles belonging to this face.
    pub count: u32,
}

/// The triangulation of one face: how many nodes it has and its triangles,
/// each given by the 1-based indices of its three nodes among the face's
/// nodes (as a `Poly_Triangle` stores them).
pub struct FaceTriangulation {
    pub node_count: usize,
    pub triangles: Vec<(i32, i32, i32)>,
    pub orientation: FaceOrientation,
}

/// A triangle names nodes of its own face only.
pub open spec fn triangle_is_valid(t: (i32, i32, i32), node_count: int) -> bool {
    &&& 1 <= t.0 <= node_count
    &&& 1 <= t.1 <= node_count
    &&& 1 <= t.2 <= node_count
}

/// Every triangle of the face names nodes of the face.
pub open spec fn face_is_valid(f: FaceTriangulation) -> bool {
    forall|k: int|
        0 <= k < f.triangles@.len() ==> #[trigger] triangle_is_valid(
            f.triangles@[k],
            f.node_count as int,
        )
}

/// Every triangulated face is valid.
pub open spec fn faces_are_valid(faces: Seq<Option<FaceTriangulation>>) -> bool {
    forall|k: int| 0 <= k < faces.len() && (#[trigger] faces[k]) is Some ==> face_is_valid(faces[k]->0)
}

/// Every face has a triangulation.
pub open spec fn all_triangulated(faces: Seq<Option<FaceTriangulation>>) -> bool {
    forall|k: int| 0 <= k < faces.len() ==> (#[trigger] faces[k]) is Some
}

/// The number of nodes of the triangulated faces.
pub open spec fn node_total(faces: Seq<Option<FaceTriangulation>>) -> int
    decreases faces.len(),
{
    if faces.len() == 0 {
        0
    } else {
        node_total(faces.drop_last()) + match faces.last() {
            Some(f) => f.node_count as int,
            None => 0,
        }
    }
}

/// The number of triangles of the triangulated faces.
pub open spec fn triangle_total(faces: Seq<Option<FaceTriangulation>>) -> int
    decreases faces.len(),
{
    if faces.len() == 0 {
        0
    } else {
        triangle_total(faces.drop_last()) + match faces.last() {
            Some(f) => f.triangles@.len() as int,
            None => 0,
        }
    }
}

/// The mesh indices of one triangle, whose face's nodes start at `offset`:
/// 0-based, in the face's winding (reversed for a face that is not forward).
pub open spec fn corners(t: (i32, i32, i32), orientation: FaceOrientation, offset: int) -> Seq<
    int,
> {
    if orientation == FaceOrientation::Forward {
        seq![offset + t.0 - 1, offset + t.1 - 1, offset + t.2 - 1]
    } else {
        seq![offset + t.2 - 1, offset + t.1 - 1, offset + t.0 - 1]
    }
}

/// The mesh indices of the triangles of one face, in order.
pub open spec fn face_indices(
    triangles: Seq<(i32, i32, i32)>,
    orientation: FaceOrientation,
    offset: int,
) -> Seq<int>
    decreases triangles.len(),
{
    if triangles.len() == 0 {
        seq![]
    } else {
        face_indices(triangles.drop_last(), orientation, offset) + corners(
            triangles.last(),
            orientation,
            offset,
        )
    }
}

/// The flat index list of the mesh: face after face, each face's node
/// indices shifted past the nodes of the faces before it.
pub open spec fn mesh_indices(faces: Seq<Option<FaceTriangulation>>) -> Seq<int>
    decreases faces.len(),
{
    if faces.len() == 0 {
        seq![]
    } else {
        mesh_indices(faces.drop_last()) + match faces.last() {
            Some(f) => face_indices(f.triangles@, f.orientation, node_total(faces.drop_last())),
            None => seq![],
        }
    }
}

/// The triangle range of face `k`: it starts after the triangles of the faces before it.
pub open spec fn face_range_of(faces: Seq<Option<FaceTriangulation>>, k: int) -> (int, int) {
    (triangle_total(faces.take(k)), triangle_total(faces.take(k + 1)) - triangle_total(faces.take(k)))
}

/// `v` holds the integers of `s`, in order.
pub open spec fn holds(v: Seq<usize>, s: Seq<int>) -> bool {
    &&& v.len() == s.len()
    &&& forall|i: int| 0 <= i < v.len() ==> v[i] as int == #[trigger] s[i]
}

proof fn lemma_take_step(faces: Seq<Option<FaceTriangulation>>, k: int)
    requires
        0 <= k < faces.len(),
    ensures
        faces.take(k + 1).drop_last() == faces.take(k),
        faces.take(k + 1).last() == faces[k],
        faces.take(k + 1).len() == k + 1,
{
    assert(faces.take(k + 1).drop_last() =~= faces.take(k));
}

proof fn lemma_totals_monotone(faces: Seq<Option<FaceTriangulation>>, k: int)
    requires
        0 <= k <= faces.len(),
    ensures
        0 <= node_total(faces.take(k)) <= node_total(faces),
        0 <= triangle_total(faces.take(k)) <= triangle_total(faces),
    decreases faces.len(),
{
    if k == faces.len() {
        assert(faces.take(k) =~= faces);
        lemma_totals_nonneg(faces);
    } else {
        lemma_totals_monotone(faces.drop_last(), k);
        assert(faces.drop_last().take(k) =~= faces.take(k));
        lemma_totals_nonneg(faces);
    }
}

proof fn lemma_totals_nonneg(faces: Seq<Option<FaceTriangulation>>)
    ensures
        node_total(faces) >= 0,
        triangle_total(faces) >= 0,
    decreases faces.len(),
{
    if faces.len() > 0 {
        lemma_totals_nonneg(faces.drop_last());
    }
}

proof fn lemma_face_indices(
    triangles: Seq<(i32, i32, i32)>,
    orientation: FaceOrientation,
    offset: int,
    node_count: int,
)
    ensures
        face_indices(triangles, orientation, offset).len() == 3 * triangles.len(),
        (forall|k: int|
            0 <= k < triangles.len() ==> #[trigger] triangle_is_valid(triangles[k], node_count))
            ==> forall|i: int|
            0 <= i < 3 * triangles.len() ==> offset <= #[trigger] face_indices(
                triangles,
                orientation,
                offset,
            )[i] < offset + node_count,
    decreases triangles.len(),
{
    if triangles.len() > 0 {
        let rest = triangles.drop_last();
        lemma_face_indices(rest, orientation, offset, node_count);
        if forall|k: int|
            0 <= k < triangles.len() ==> #[trigger] triangle_is_valid(triangles[k], node_count) {
            assert forall|k: int| 0 <= k < rest.len() implies #[trigger] triangle_is_valid(
                rest[k],
                node_count,
            ) by {
                assert(rest[k] == triangles[k]);
            }
            assert(triangle_is_valid(triangles[triangles.len() - 1], node_count));
        }
    }
}

proof fn lemma_mesh_indices(faces: Seq<Option<FaceTriangulation>>)
    ensures
        mesh_indices(faces).len() == 3 * triangle_total(faces),
        faces_are_valid(faces) ==> forall|i: int|
            0 <= i < mesh_indices(faces).len() ==> 0 <= #[trigger] mesh_indices(faces)[i]
                < node_total(faces),
    decreases faces.len(),
{
    if faces.len() > 0 {
        let rest = faces.drop_last();
        lemma_mesh_indices(rest);
        lemma_totals_nonneg(rest);
        if faces_are_valid(faces) {
            assert forall|k: int| 0 <= k < rest.len() && (#[trigger] rest[k]) is Some implies face_is_valid(rest[k]->0) by {
                assert(rest[k] == faces[k]);
            }
        }
        match faces.last() {
            Some(f) => {
                lemma_face_indices(f.triangles@, f.orientation, node_total(rest), f.node_count as int);
                if faces_are_valid(faces) {
                    assert(faces[faces.len() - 1] is Some);
                    assert(face_is_valid(f));
                }
            },
            None => {},
        }
    }
}

proof fn lemma_mesh_prefix(faces: Seq<Option<FaceTriangulation>>, k: int)
    requires
        0 <= k <= faces.len(),
    ensures
        mesh_indices(faces.take(k)).len() <= mesh_indices(faces).len(),
        mesh_indices(faces).subrange(0, mesh_indices(faces.take(k)).len() as int) == mesh_indices(
            faces.take(k),
        ),
    decreases faces.len(),
{
    if k == faces.len() {
        assert(faces.take(k) =~= faces);
        assert(mesh_indices(faces).subrange(0, mesh_indices(faces).len() as int) =~= mesh_indices(
            faces,
        ));
    } else {
        let rest = faces.drop_last();
        lemma_mesh_prefix(rest, k);
        assert(rest.take(k) =~= faces.take(k));
        let m = mesh_indices(faces.take(k)).len() as int;
        assert(mesh_indices(faces).subrange(0, m) =~= mesh_indices(rest).subrange(0, m));
    }
}

/// Every index of the mesh names one of its nodes: the indices of a face
/// point into that face's nodes, past the nodes of the faces before it.
pub proof fn indices_name_mesh_nodes(faces: Seq<Option<FaceTriangulation>>)
    requires
        faces_are_valid(faces),
    ensures
        forall|i: int|
            0 <= i < mesh_indices(faces).len() ==> 0 <= #[trigger] mesh_indices(faces)[i]
                < node_total(faces),
{
    lemma_mesh_indices(faces);
}

/// The index list holds three indices per triangle.
pub proof fn three_indices_per_triangle(faces: Seq<Option<FaceTriangulation>>)
    ensures
        mesh_indices(faces).len() == 3 * triangle_total(faces),
{
    lemma_mesh_indices(faces);
}

/// The face ranges tile the triangles: the first starts at 0, each starts
/// where the one before it ends, and the last ends at the triangle count.
/// A face's range counts exactly its own triangles.
pub proof fn face_ranges_tile(faces: Seq<Option<FaceTriangulation>>)
    ensures
        faces.len() > 0 ==> face_range_of(faces, 0).0 == 0,
        forall|k: int|
            0 <= k < faces.len() - 1 ==> #[trigger] face_range_of(faces, k).0 + face_range_of(
                faces,
                k,
            ).1 == face_range_of(faces, k + 1).0,
        faces.len() > 0 ==> face_range_of(faces, faces.len() - 1).0 + face_range_of(
            faces,
            faces.len() - 1,
        ).1 == triangle_total(faces),
        forall|k: int|
            0 <= k < faces.len() && (#[trigger] faces[k]) is Some ==> face_range_of(faces, k).1
                == faces[k]->0.triangles@.len(),
{
    if faces.len() > 0 {
        assert(faces.take(0) =~= Seq::<Option<FaceTriangulation>>::empty());
        assert(faces.take(faces.len() as int) =~= faces);
    }
    assert forall|k: int| 0 <= k < faces.len() && (#[trigger] faces[k]) is Some implies face_range_of(faces, k).1
        == faces[k]->0.triangles@.len() by {
        lemma_take_step(faces, k);
    }
}

/// The triangles in a face's range are that face's triangles: the indices
/// from `3 * start` to `3 * (start + count)` are the face's node indices
/// shifted past the nodes of the faces before it, in the face's winding.
pub proof fn face_range_selects_face(faces: Seq<Option<FaceTriangulation>>, k: int)
    requires
        0 <= k < faces.len(),
        faces[k] is Some,
    ensures
        ({
            let (start, count) = face_range_of(faces, k);
            let f = faces[k]->0;
            &&& mesh_indices(faces).subrange(3 * start, 3 * (start + count)) == face_indices(
                f.triangles@,
                f.orientation,
                node_total(faces.take(k)),
            )
            &&& face_is_valid(f) ==> forall|i: int|
                3 * start <= i < 3 * (start + count) ==> node_total(faces.take(k))
                    <= #[trigger] mesh_indices(faces)[i] < node_total(faces.take(k))
                    + f.node_count
        }),
{
    let f = faces[k]->0;
    lemma_take_step(faces, k);
    lemma_mesh_prefix(faces, k + 1);
    lemma_mesh_indices(faces.take(k));
    lemma_mesh_indices(faces.take(k + 1));
    let before = mesh_indices(faces.take(k));
    let fi = face_indices(f.triangles@, f.orientation, node_total(faces.take(k)));
    assert(mesh_indices(faces.take(k + 1)) == before + fi);
    let all = mesh_indices(faces);
    let m = (before + fi).len() as int;
    assert(all.subrange(0, m) == before + fi);
    assert(all.subrange(before.len() as int, m) =~= (before + fi).subrange(before.len() as int, m));
    assert((before + fi).subrange(before.len() as int, m) =~= fi);
    lemma_face_indices(f.triangles@, f.orientation, node_total(faces.take(k)), f.node_count as int);
    assert forall|i: int| before.len() <= i < m implies #[trigger] all[i] == fi[i - before.len()] by {
        assert(all.subrange(before.len() as int, m)[i - before.len()] == all[i]);
    }
}

proof fn lemma_face_indices_at(
    triangles: Seq<(i32, i32, i32)>,
    orientation: FaceOrientation,
    offset: int,
    j: int,
    c: int,
)
    requires
        0 <= j < triangles.len(),
        0 <= c < 3,
    ensures
        face_indices(triangles, orientation, offset)[3 * j + c] == corners(
            triangles[j],
            orientation,
            offset,
        )[c],
    decreases triangles.len(),
{
    let rest = triangles.drop_last();
    lemma_face_indices(rest, orientation, offset, 0);
    if j < triangles.len() - 1 {
        lemma_face_indices_at(rest, orientation, offset, j, c);
        assert(rest[j] == triangles[j]);
    }
}

/// Where each triangle of a face lands: triangle `j` of face `k` fills the
/// indices `3 * (start + j)` to `3 * (start + j) + 2`, where `start` is the
/// start of the face's range. With `offset` the number of nodes of the
/// faces before it, a forward face gives node `n` of the triangle as
/// `offset + n - 1`, in the triangle's order; any other face gives the same
/// three indices in reverse order.
pub proof fn triangle_corners_in_mesh(faces: Seq<Option<FaceTriangulation>>, k: int, j: int)
    requires
        0 <= k < faces.len(),
        faces[k] is Some,
        0 <= j < faces[k]->0.triangles@.len(),
    ensures
        ({
            let f = faces[k]->0;
            let t = f.triangles@[j];
            let p = 3 * (face_range_of(faces, k).0 + j);
            let offset = node_total(faces.take(k));
            let m = mesh_indices(faces);
            &&& p + 2 < m.len()
            &&& f.orientation == FaceOrientation::Forward ==> m[p] == offset + t.0 - 1 && m[p + 1]
                == offset + t.1 - 1 && m[p + 2] == offset + t.2 - 1
            &&& f.orientation != FaceOrientation::Forward ==> m[p] == offset + t.2 - 1 && m[p + 1]
                == offset + t.1 - 1 && m[p + 2] == offset + t.0 - 1
        }),
{
    let f = faces[k]->0;
    let (start, count) = face_range_of(faces, k);
    let offset = node_total(faces.take(k));
    face_range_selects_face(faces, k);
    face_ranges_tile(faces);
    lemma_face_indices(f.triangles@, f.orientation, offset, f.node_count as int);
    let m = mesh_indices(faces);
    let sub = m.subrange(3 * start, 3 * (start + count));
    lemma_take_step(faces, k);
    lemma_totals_monotone(faces, k + 1);
    lemma_totals_monotone(faces, k);
    three_indices_per_triangle(faces);
    assert(3 * (start + count) <= m.len());
    lemma_face_indices_at(f.triangles@, f.orientation, offset, j, 0);
    lemma_face_indices_at(f.triangles@, f.orientation, offset, j, 1);
    lemma_face_indices_at(f.triangles@, f.orientation, offset, j, 2);
    assert(m[3 * (start + j)] == sub[3 * j]);
    assert(m[3 * (start + j) + 1] == sub[3 * j + 1]);
    assert(m[3 * (start + j) + 2] == sub[3 * j + 2]);
}

/// A face that is not forward is wound the other way: each of its
/// triangles gives its corners in the reverse of the forward order.
pub proof fn reversed_faces_flip_winding(
    t: (i32, i32, i32),
    orientation: FaceOrientation,
    offset: int,
)
    requires
        orientation != FaceOrientation::Forward,
    ensures
        corners(t, orientation, offset) == corners(t, FaceOrientation::Forward, offset).reverse(),
{
    assert(corners(t, orientation, offset) =~= corners(t, FaceOrientation::Forward, offset).reverse());
}

/// Assembles the flat triangle index list of a mesh from the triangulations
/// of its faces, with the triangle range of each face.
///
/// Fails with `UntriangulatedFace` when a face has no triangulation.
pub fn mesh_with_face_ranges(faces: &Vec<Option<FaceTriangulation>>) -> (r: Result<
    (Vec<usize>, Vec<FaceRange>),
    Error,
>)
    requires
        faces_are_valid(faces@),
        node_total(faces@) <= usize::MAX,
        triangle_total(faces@) <= u32::MAX,
    ensures
        r is Err <==> !all_triangulated(faces@),
        r matches Err(e) ==> e is UntriangulatedFace,
        r matches Ok((indices, ranges)) ==> {
            &&& holds(indices@, mesh_indices(faces@))
            &&& ranges@.len() == faces@.len()
            &&& forall|k: int|
                0 <= k < ranges@.len() ==> (#[trigger] ranges@[k]).start as int == face_range_of(
                    faces@,
                    k,
                ).0 && ranges@[k].count as int == face_range_of(faces@, k).1
        },
{
    let n = faces.len();
    let mut k: usize = 0;
    while k < n
        invariant
            n == faces@.len(),
            k <= n,
            forall|j: int| 0 <= j < k ==> (#[trigger] faces@[j]) is Some,
        decreases n - k,
    {
        if faces[k].is_none() {
            return Err(Error::UntriangulatedFace);
        }
        k = k + 1;
    }
    let mut indices: Vec<usize> = Vec::new();
    let mut ranges: Vec<FaceRange> = Vec::new();
    let mut offset: usize = 0;
    let mut triangles_before: u32 = 0;
    let mut k: usize = 0;
    while k < n
        invariant
            n == faces@.len(),
            k <= n,
            all_triangulated(faces@),
            faces_are_valid(faces@),
            node_total(faces@) <= usize::MAX,
            triangle_total(faces@) <= u32::MAX,
            offset as int == node_total(faces@.take(k as int)),
            triangles_before as int == triangle_total(faces@.take(k as int)),
            holds(indices@, mesh_indices(faces@.take(k as int))),
            ranges@.len() == k,
            forall|j: int|
                0 <= j < k ==> (#[trigger] ranges@[j]).start as int == face_range_of(faces@, j).0
                    && ranges@[j].count as int == face_range_of(faces@, j).1,
        decreases n - k,
    {
        proof {
            lemma_take_step(faces@, k as int);
            lemma_totals_monotone(faces@, k as int + 1);
        }
        let face = faces[k].as_ref().unwrap();
        assert(faces@[k as int] is Some);
        assert(face_is_valid(*face));
        let count = face.triangles.len();
        let mut t: usize = 0;
        let ghost before = mesh_indices(faces@.take(k as int));
        while t < count
            invariant
                count == face.triangles@.len(),
                t <= count,
                face_is_valid(*face),
                offset as int + face.node_count <= usize::MAX,
                holds(
                    indices@,
                    before + face_indices(
                        face.triangles@.take(t as int),
                        face.orientation,
                        offset as int,
                    ),
                ),
            decreases count - t,
        {
            let tri = face.triangles[t];
            assert(triangle_is_valid(face.triangles@[t as int], face.node_count as int));
            let a: usize = offset + (tri.0 as usize) - 1;
            let b: usize = offset + (tri.1 as usize) - 1;
            let c: usize = offset + (tri.2 as usize) - 1;
            let ghost old_indices = indices@;
            match face.orientation {
                FaceOrientation::Forward => {
                    indices.push(a);
                    indices.push(b);
                    indices.push(c);
                },
                _ => {
                    indices.push(c);
                    indices.push(b);
                    indices.push(a);
                },
            }
            proof {
                let tris = face.triangles@;
                assert(tris.take(t as int + 1).drop_last() =~= tris.take(t as int));
                assert(tris.take(t as int + 1).last() == tri);
                let fi = face_indices(tris.take(t as int), face.orientation, offset as int);
                let cs = corners(tri, face.orientation, offset as int);
                assert(face_indices(tris.take(t as int + 1), face.orientation, offset as int)
                    == fi + cs);
                assert(before + (fi + cs) =~= (before + fi) + cs);
                assert(holds(indices@, (before + fi) + cs));
            }
            t = t + 1;
        }
        proof {
            assert(face.triangles@.take(count as int) =~= face.triangles@);
            assert(mesh_indices(faces@.take(k as int + 1)) == before + face_indices(
                face.triangles@,
                face.orientation,
                offset as int,
            ));
        }
        ranges.push(FaceRange { start: triangles_before, count: count as u32 });
        offset = offset + face.node_count;
        triangles_before = triangles_before + count as u32;
        k = k + 1;
    }
    proof {
        assert(faces@.take(n as int) =~= faces@);
    }
    Ok((indices, ranges))
}

} // verus!
