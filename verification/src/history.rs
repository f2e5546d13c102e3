use vstd::prelude::*;

use crate::primitives::ShapeType;

verus! {

/// A face of an operation's input, with the images that the operation's
/// history records for it. Sub-shapes are given by identity keys: two
/// sub-shapes with the same key are the same sub-shape (`IsSame`).
pub struct FaceImages {
    /// The input face.
    pub face: u64,
    /// The result faces modified from it.
    pub modified: Vec<u64>,
    /// The result faces generated from it.
    pub generated: Vec<u64>,
}

/// `result_face` is the input face itself, or one of its recorded images.
pub open spec fn traces_to(f: FaceImages, result_face: u64) -> bool {
    ||| f.face == result_face
    ||| f.modified@.contains(result_face)
    ||| f.generated@.contains(result_face)
}

/// The position of the first input face that `result_face` traces back to.
pub open spec fn first_source(faces: Seq<FaceImages>, result_face: u64) -> Option<int>
    decreases faces.len(),
{
    if faces.len() == 0 {
        None
    } else {
        match first_source(faces.drop_last(), result_face) {
            Some(i) => Some(i),
            None => if traces_to(faces.last(), result_face) {
                Some(faces.len() - 1)
            } else {
                None
            },
        }
    }
}

fn contains_key(keys: &Vec<u64>, key: u64) -> (b: bool)
    ensures
        b == keys@.contains(key),
{
    let n = keys.len();
    let mut i: usize = 0;
    while i < n
        invariant
            n == keys@.len(),
            i <= n,
            forall|j: int| 0 <= j < i ==> keys@[j] != key,
        decreases n - i,
    {
        if keys[i] == key {
            return true;
        }
        i = i + 1;
    }
    false
}

proof fn lemma_first_source_step(faces: Seq<FaceImages>, result_face: u64, i: int)
    requires
        0 <= i < faces.len(),
    ensures
        first_source(faces.take(i + 1), result_face) == match first_source(
            faces.take(i),
            result_face,
        ) {
            Some(j) => Some(j),
            None => if traces_to(faces[i], result_face) {
                Some(i)
            } else {
                None
            },
        },
{
    assert(faces.take(i + 1).drop_last() =~= faces.take(i));
}

/// The input face whose image in the result is `result_face`, by position
/// among `faces`: the first face that is `result_face` itself, or that was
/// modified into it or generated it.
///
/// The inverse of the history's modified and generated images.
pub fn source_face(faces: &Vec<FaceImages>, result_face: u64) -> (r: Option<usize>)
    ensures
        r matches Some(i) ==> first_source(faces@, result_face) == Some(i as int),
        r is None ==> first_source(faces@, result_face) is None,
        r matches Some(i) ==> i < faces@.len() && (faces@[i as int].face == result_face
            || faces@[i as int].modified@.contains(result_face)
            || faces@[i as int].generated@.contains(result_face)),
        r matches Some(i) ==> forall|l: int|
            0 <= l < i ==> (#[trigger] faces@[l]).face != result_face
                && !faces@[l].modified@.contains(result_face)
                && !faces@[l].generated@.contains(result_face),
        r is None ==> forall|l: int|
            0 <= l < faces@.len() ==> (#[trigger] faces@[l]).face != result_face
                && !faces@[l].modified@.contains(result_face)
                && !faces@[l].generated@.contains(result_face),
{
    let n = faces.len();
    let mut i: usize = 0;
    assert(faces@.take(0) =~= Seq::<FaceImages>::empty());
    while i < n
        invariant
            n == faces@.len(),
            i <= n,
            first_source(faces@.take(i as int), result_face) is None,
        decreases n - i,
    {
        proof {
            lemma_first_source_step(faces@, result_face, i as int);
        }
        let face = &faces[i];
        if face.face == result_face || contains_key(&face.modified, result_face) || contains_key(
            &face.generated,
            result_face,
        ) {
            proof {
                lemma_first_source_prefix(faces@, result_face, i as int + 1);
                lemma_first_source_is_first(faces@, result_face);
            }
            return Some(i);
        }
        i = i + 1;
    }
    assert(faces@.take(n as int) =~= faces@);
    proof {
        lemma_first_source_is_first(faces@, result_face);
    }
    None
}

proof fn lemma_first_source_prefix(faces: Seq<FaceImages>, result_face: u64, k: int)
    requires
        0 <= k <= faces.len(),
        first_source(faces.take(k), result_face) is Some,
    ensures
        first_source(faces, result_face) == first_source(faces.take(k), result_face),
    decreases faces.len(),
{
    if k == faces.len() {
        assert(faces.take(k) =~= faces);
    } else {
        assert(faces.drop_last().take(k) =~= faces.take(k));
        lemma_first_source_prefix(faces.drop_last(), result_face, k);
    }
}

proof fn lemma_first_source_is_first(faces: Seq<FaceImages>, result_face: u64)
    ensures
        first_source(faces, result_face) matches Some(i) ==> {
            &&& 0 <= i < faces.len()
            &&& traces_to(faces[i], result_face)
            &&& forall|j: int| 0 <= j < i ==> !traces_to(#[trigger] faces[j], result_face)
        },
        first_source(faces, result_face) is None ==> forall|j: int|
            0 <= j < faces.len() ==> !traces_to(#[trigger] faces[j], result_face),
    decreases faces.len(),
{
    if faces.len() > 0 {
        let rest = faces.drop_last();
        lemma_first_source_is_first(rest, result_face);
        assert forall|j: int| 0 <= j < rest.len() implies rest[j] == faces[j] by {}
    }
}

/// Every image traces back: when `result_face` is an input face, or any one
/// of its modified or generated images, a source is found, no later than
/// that face; the source is the input face itself or has `result_face`
/// among its images, and no earlier face does.
pub proof fn every_image_has_a_source(faces: Seq<FaceImages>, i: int, result_face: u64)
    requires
        0 <= i < faces.len(),
        faces[i].face == result_face || faces[i].modified@.contains(result_face)
            || faces[i].generated@.contains(result_face),
    ensures
        first_source(faces, result_face) matches Some(j) && 0 <= j <= i && (faces[j].face
            == result_face || faces[j].modified@.contains(result_face)
            || faces[j].generated@.contains(result_face)) && forall|l: int|
            0 <= l < j ==> (#[trigger] faces[l]).face != result_face
                && !faces[l].modified@.contains(result_face)
                && !faces[l].generated@.contains(result_face),
{
    lemma_first_source_is_first(faces, result_face);
}

/// A face split into several pieces traces back from each piece: whichever
/// of an input face's modified images is asked for (the first or any
/// later one), its source is that face or an earlier one.
pub proof fn every_modified_piece_has_a_source(
    faces: Seq<FaceImages>,
    i: int,
    k: int,
    result_face: u64,
)
    requires
        0 <= i < faces.len(),
        0 <= k < faces[i].modified@.len(),
        faces[i].modified@[k] == result_face,
    ensures
        first_source(faces, result_face) matches Some(j) && 0 <= j <= i,
{
    assert(faces[i].modified@.contains(result_face));
    lemma_first_source_is_first(faces, result_face);
}

/// Likewise for each face that an input face generated, whichever of them
/// is asked for.
pub proof fn every_generated_face_has_a_source(
    faces: Seq<FaceImages>,
    i: int,
    k: int,
    result_face: u64,
)
    requires
        0 <= i < faces.len(),
        0 <= k < faces[i].generated@.len(),
        faces[i].generated@[k] == result_face,
    ensures
        first_source(faces, result_face) matches Some(j) && 0 <= j <= i,
{
    assert(faces[i].generated@.contains(result_face));
    lemma_first_source_is_first(faces, result_face);
}

/// A result face that no input face traces to has no source.
pub proof fn no_source_without_image(faces: Seq<FaceImages>, result_face: u64)
    requires
        forall|j: int| 0 <= j < faces.len() ==> !traces_to(#[trigger] faces[j], result_face),
    ensures
        first_source(faces, result_face) is None,
{
    lemma_first_source_is_first(faces, result_face);
}

/// The positions of the faces among shapes of the given types, in order.
pub open spec fn face_positions_of(types: Seq<ShapeType>) -> Seq<int>
    decreases types.len(),
{
    if types.len() == 0 {
        seq![]
    } else if types.last() == ShapeType::Face {
        face_positions_of(types.drop_last()).push(types.len() - 1)
    } else {
        face_positions_of(types.drop_last())
    }
}

/// The kept positions are exactly the faces, each once, in order: every
/// position names a face, positions increase, and every face is kept.
pub proof fn face_positions_are_the_faces(types: Seq<ShapeType>)
    ensures
        forall|k: int|
            0 <= k < face_positions_of(types).len() ==> 0 <= #[trigger] face_positions_of(types)[k]
                < types.len() && types[face_positions_of(types)[k]] == ShapeType::Face,
        forall|a: int, b: int|
            0 <= a < b < face_positions_of(types).len() ==> #[trigger] face_positions_of(types)[a]
                < #[trigger] face_positions_of(types)[b],
        forall|j: int|
            0 <= j < types.len() && types[j] == ShapeType::Face ==> face_positions_of(
                types,
            ).contains(j),
    decreases types.len(),
{
    if types.len() > 0 {
        let rest = types.drop_last();
        face_positions_are_the_faces(rest);
        let p = face_positions_of(rest);
        assert forall|j: int| 0 <= j < rest.len() implies rest[j] == types[j] by {}
        if types.last() == ShapeType::Face {
            let p2 = p.push(types.len() - 1);
            assert forall|j: int| 0 <= j < types.len() && types[j] == ShapeType::Face implies p2.contains(j) by {
                if j == types.len() - 1 {
                    assert(p2[p.len() as int] == j);
                } else {
                    assert(rest[j] == ShapeType::Face);
                    let k = choose|k: int| 0 <= k < p.len() && p[k] == j;
                    assert(p2[k] == j);
                }
            }
        } else {
            assert forall|j: int| 0 <= j < types.len() && types[j] == ShapeType::Face implies p.contains(j) by {
                assert(rest[j] == ShapeType::Face);
            }
        }
    }
}

/// The positions of the faces in a list of shapes (the shapes of other
/// types are left out), in order.
pub fn face_positions(types: &Vec<ShapeType>) -> (r: Vec<usize>)
    ensures
        r@.len() == face_positions_of(types@).len(),
        forall|i: int| 0 <= i < r@.len() ==> r@[i] as int == #[trigger] face_positions_of(types@)[i],
{
    let n = types.len();
    let mut r: Vec<usize> = Vec::new();
    let mut i: usize = 0;
    assert(types@.take(0) =~= Seq::<ShapeType>::empty());
    while i < n
        invariant
            n == types@.len(),
            i <= n,
            r@.len() == face_positions_of(types@.take(i as int)).len(),
            forall|j: int|
                0 <= j < r@.len() ==> r@[j] as int == #[trigger] face_positions_of(
                    types@.take(i as int),
                )[j],
        decreases n - i,
    {
        assert(types@.take(i + 1).drop_last() =~= types@.take(i as int));
        if types[i] == ShapeType::Face {
            r.push(i);
        }
        i = i + 1;
    }
    assert(types@.take(n as int) =~= types@);
    r
}

} // verus!
