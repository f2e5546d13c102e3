use vstd::prelude::*;

use crate::Error;

verus! {

/// One occurrence of an edge while walking the edges of the faces of a
/// shape: the edge's identity key (equal keys are the same edge, `IsSame`)
/// and whether it is a seam on the face it was reached from.
#[derive(Debug, Clone, Copy)]
pub struct EdgeUse {
    pub edge: u64,
    pub is_seam: bool,
}

/// Occurrence `i` is a seam, and no earlier seam occurrence is the same edge.
pub open spec fn is_first_seam(uses: Seq<EdgeUse>, i: int) -> bool {
    &&& uses[i].is_seam
    &&& forall|j: int| 0 <= j < i && (#[trigger] uses[j]).is_seam ==> uses[j].edge != uses[i].edge
}

/// The positions of the first seam occurrence of each seam edge, in order.
pub open spec fn seam_positions(uses: Seq<EdgeUse>) -> Seq<int>
    decreases uses.len(),
{
    if uses.len() == 0 {
        seq![]
    } else if is_first_seam(uses, uses.len() - 1) {
        seam_positions(uses.drop_last()).push(uses.len() - 1)
    } else {
        seam_positions(uses.drop_last())
    }
}

/// The edges that occur as a seam are kept once each, at their first seam
/// occurrence: the kept positions are seam occurrences in increasing order,
/// no two of them are the same edge, and every seam occurrence is the same
/// edge as a kept one.
pub proof fn seam_edges_are_distinct_and_complete(uses: Seq<EdgeUse>)
    ensures
        forall|k: int|
            0 <= k < seam_positions(uses).len() ==> 0 <= #[trigger] seam_positions(uses)[k]
                < uses.len() && uses[seam_positions(uses)[k]].is_seam,
        forall|a: int, b: int|
            0 <= a < b < seam_positions(uses).len() ==> seam_positions(uses)[a] < seam_positions(
                uses,
            )[b] && uses[#[trigger] seam_positions(uses)[a]].edge != uses[#[trigger] seam_positions(
                uses,
            )[b]].edge,
        forall|j: int|
            0 <= j < uses.len() && (#[trigger] uses[j]).is_seam ==> exists|k: int|
                0 <= k < seam_positions(uses).len() && uses[#[trigger] seam_positions(uses)[k]].edge
                    == uses[j].edge,
    decreases uses.len(),
{
    if uses.len() > 0 {
        let rest = uses.drop_last();
        let n = uses.len() - 1;
        seam_edges_are_distinct_and_complete(rest);
        let sp = seam_positions(rest);
        assert forall|k: int| 0 <= k < sp.len() implies uses[sp[k]] == rest[sp[k]] by {}
        assert forall|j: int| 0 <= j < n implies rest[j] == uses[j] by {}
        if is_first_seam(uses, n) {
            let sp2 = sp.push(n);
            assert(seam_positions(uses) == sp2);
            assert forall|j: int| 0 <= j < uses.len() && (#[trigger] uses[j]).is_seam implies exists|k: int|
                0 <= k < sp2.len() && uses[#[trigger] sp2[k]].edge == uses[j].edge by {
                if j == n {
                    assert(sp2[sp.len() as int] == n);
                } else {
                    assert(rest[j].is_seam);
                    let k = choose|k: int| 0 <= k < sp.len() && rest[#[trigger] sp[k]].edge == rest[j].edge;
                    assert(sp2[k] == sp[k]);
                }
            }
            assert forall|a: int, b: int| 0 <= a < b < sp2.len() implies sp2[a] < sp2[b]
                && uses[#[trigger] sp2[a]].edge != uses[#[trigger] sp2[b]].edge by {
                if b == sp.len() {
                    assert(sp2[a] == sp[a]);
                    assert(uses[sp[a]].is_seam);
                } else {
                    assert(sp2[a] == sp[a] && sp2[b] == sp[b]);
                }
            }
        } else {
            assert(seam_positions(uses) == sp);
            assert forall|j: int| 0 <= j < uses.len() && (#[trigger] uses[j]).is_seam implies exists|k: int|
                0 <= k < sp.len() && uses[#[trigger] sp[k]].edge == uses[j].edge by {
                if j == n {
                    let j2 = choose|j2: int| 0 <= j2 < n && (#[trigger] uses[j2]).is_seam && uses[j2].edge == uses[n].edge;
                    assert(rest[j2].is_seam);
                    let k = choose|k: int| 0 <= k < sp.len() && rest[#[trigger] sp[k]].edge == rest[j2].edge;
                } else {
                    assert(rest[j].is_seam);
                }
            }
        }
    }
}

/// Each seam edge is kept at its first seam occurrence: no seam occurrence
/// before a kept position is the same edge.
pub proof fn seam_edges_kept_at_first_occurrence(uses: Seq<EdgeUse>)
    ensures
        forall|k: int, j: int|
            0 <= k < seam_positions(uses).len() && 0 <= j < seam_positions(uses)[k]
                && (#[trigger] uses[j]).is_seam ==> uses[j].edge != uses[#[trigger] seam_positions(
                uses,
            )[k]].edge,
    decreases uses.len(),
{
    if uses.len() > 0 {
        let rest = uses.drop_last();
        seam_edges_kept_at_first_occurrence(rest);
        seam_edges_are_distinct_and_complete(rest);
        let sp = seam_positions(rest);
        assert forall|j: int| 0 <= j < rest.len() implies rest[j] == uses[j] by {}
        if is_first_seam(uses, uses.len() - 1) {
            let sp2 = sp.push(uses.len() - 1);
            assert(seam_positions(uses) == sp2);
            assert forall|k: int, j: int|
                0 <= k < sp2.len() && 0 <= j < sp2[k] && (#[trigger] uses[j]).is_seam implies uses[j].edge
                    != uses[#[trigger] sp2[k]].edge by {
                if k < sp.len() {
                    assert(sp2[k] == sp[k]);
                    assert(rest[j].is_seam);
                }
            }
        } else {
            assert(seam_positions(uses) == sp);
            assert forall|k: int, j: int|
                0 <= k < sp.len() && 0 <= j < sp[k] && (#[trigger] uses[j]).is_seam implies uses[j].edge
                    != uses[#[trigger] sp[k]].edge by {
                assert(rest[j].is_seam);
            }
        }
    }
}

/// The edges that occur as a seam on at least one face, each once: given
/// the edge occurrences of the faces of a shape (face after face), the
/// positions of the first seam occurrence of each seam edge.
pub fn seam_edges(uses: &Vec<EdgeUse>) -> (r: Vec<usize>)
    ensures
        r@.len() == seam_positions(uses@).len(),
        forall|k: int| 0 <= k < r@.len() ==> r@[k] as int == #[trigger] seam_positions(uses@)[k],
{
    let n = uses.len();
    let mut seams: Vec<usize> = Vec::new();
    let mut i: usize = 0;
    assert(uses@.take(0) =~= Seq::<EdgeUse>::empty());
    while i < n
        invariant
            n == uses@.len(),
            i <= n,
            seams@.len() == seam_positions(uses@.take(i as int)).len(),
            forall|k: int|
                0 <= k < seams@.len() ==> seams@[k] as int == #[trigger] seam_positions(
                    uses@.take(i as int),
                )[k],
        decreases n - i,
    {
        let ghost prefix = uses@.take(i as int);
        let ghost next = uses@.take(i + 1);
        proof {
            assert(next.drop_last() =~= prefix);
            seam_edges_are_distinct_and_complete(prefix);
            assert forall|j: int| 0 <= j <= i implies next[j] == uses@[j] by {}
            assert forall|j: int| 0 <= j < i implies prefix[j] == uses@[j] by {}
        }
        let edge = uses[i];
        if edge.is_seam {
            let mut found = false;
            let mut k: usize = 0;
            while k < seams.len()
                invariant
                    n == uses@.len(),
                    i < n,
                    edge == uses@[i as int],
                    seams@.len() == seam_positions(prefix).len(),
                    forall|k2: int|
                        0 <= k2 < seams@.len() ==> seams@[k2] as int == #[trigger] seam_positions(
                            prefix,
                        )[k2],
                    forall|k2: int|
                        0 <= k2 < seam_positions(prefix).len() ==> 0 <= #[trigger] seam_positions(
                            prefix,
                        )[k2] < prefix.len(),
                    prefix == uses@.take(i as int),
                    k <= seams@.len(),
                    found <==> exists|k2: int|
                        0 <= k2 < k && uses@[#[trigger] seams@[k2] as int].edge == edge.edge,
                decreases seams@.len() - k,
            {
                let p = seams[k];
                assert(seam_positions(prefix)[k as int] < prefix.len());
                if uses[p].edge == edge.edge {
                    found = true;
                }
                k = k + 1;
            }
            proof {
                if found {
                    let k2 = choose|k2: int|
                        0 <= k2 < seams@.len() && uses@[#[trigger] seams@[k2] as int].edge
                            == edge.edge;
                    let p = seam_positions(prefix)[k2];
                    assert(prefix[p].is_seam);
                    assert(!is_first_seam(next, i as int));
                } else {
                    assert forall|j: int| 0 <= j < i && (#[trigger] next[j]).is_seam implies next[j].edge
                        != next[i as int].edge by {
                        assert(prefix[j].is_seam);
                        if next[j].edge == next[i as int].edge {
                            let k2 = choose|k2: int|
                                0 <= k2 < seam_positions(prefix).len() && prefix[#[trigger] seam_positions(
                                    prefix,
                                )[k2]].edge == prefix[j].edge;
                            assert(seams@[k2] as int == seam_positions(prefix)[k2]);
                        }
                    }
                    assert(is_first_seam(next, i as int));
                }
            }
            if !found {
                seams.push(i);
            }
        } else {
            assert(!is_first_seam(next, i as int));
        }
        i = i + 1;
    }
    assert(uses@.take(n as int) =~= uses@);
    seams
}


/// The message of a tweak whose face is not a face of any child.
pub open spec fn foreign_face_message() -> Seq<char> {
    "tweak: a face does not belong to the shape"@
}

/// The message of a tweak whose faces belong to different children.
pub open spec fn spanning_faces_message() -> Seq<char> {
    "tweak: faces span multiple children of a compound"@
}

/// The message of a tweak without faces.
pub open spec fn no_faces_message() -> Seq<char> {
    "tweak: no faces given"@
}

/// The position of the first child that has `face` among its faces.
pub open spec fn owner_of(children: Seq<Vec<u64>>, face: u64) -> Option<int>
    decreases children.len(),
{
    if children.len() == 0 {
        None
    } else {
        match owner_of(children.drop_last(), face) {
            Some(i) => Some(i),
            None => if children.last()@.contains(face) {
                Some(children.len() - 1)
            } else {
                None
            },
        }
    }
}

/// Walking the faces in order: the owner found so far, or the message of
/// the first failure.
pub open spec fn owner_scan(children: Seq<Vec<u64>>, faces: Seq<u64>) -> Result<
    Option<int>,
    Seq<char>,
>
    decreases faces.len(),
{
    if faces.len() == 0 {
        Ok(None)
    } else {
        match owner_scan(children, faces.drop_last()) {
            Err(m) => Err(m),
            Ok(previous) => match owner_of(children, faces.last()) {
                None => Err(foreign_face_message()),
                Some(i) => match previous {
                    Some(p) => if p != i {
                        Err(spanning_faces_message())
                    } else {
                        Ok(Some(i))
                    },
                    None => Ok(Some(i)),
                },
            },
        }
    }
}

/// The child of a compound that owns all the faces to tweak, or why there is none.
pub open spec fn compound_owner(children: Seq<Vec<u64>>, faces: Seq<u64>) -> Result<
    int,
    Seq<char>,
> {
    match owner_scan(children, faces) {
        Err(m) => Err(m),
        Ok(None) => Err(no_faces_message()),
        Ok(Some(i)) => Ok(i),
    }
}

fn contains_face(faces: &Vec<u64>, face: u64) -> (b: bool)
    ensures
        b == faces@.contains(face),
{
    let n = faces.len();
    let mut i: usize = 0;
    while i < n
        invariant
            n == faces@.len(),
            i <= n,
            forall|j: int| 0 <= j < i ==> faces@[j] != face,
        decreases n - i,
    {
        if faces[i] == face {
            return true;
        }
        i = i + 1;
    }
    false
}

proof fn lemma_owner_prefix(children: Seq<Vec<u64>>, face: u64, k: int)
    requires
        0 <= k <= children.len(),
        owner_of(children.take(k), face) is Some,
    ensures
        owner_of(children, face) == owner_of(children.take(k), face),
    decreases children.len(),
{
    if k == children.len() {
        assert(children.take(k) =~= children);
    } else {
        assert(children.drop_last().take(k) =~= children.take(k));
        lemma_owner_prefix(children.drop_last(), face, k);
    }
}

fn first_owner(children: &Vec<Vec<u64>>, face: u64) -> (r: Option<usize>)
    ensures
        r matches Some(i) ==> owner_of(children@, face) == Some(i as int),
        r is None ==> owner_of(children@, face) is None,
{
    let n = children.len();
    let mut c: usize = 0;
    assert(children@.take(0) =~= Seq::<Vec<u64>>::empty());
    while c < n
        invariant
            n == children@.len(),
            c <= n,
            owner_of(children@.take(c as int), face) is None,
        decreases n - c,
    {
        assert(children@.take(c + 1).drop_last() =~= children@.take(c as int));
        if contains_face(&children[c], face) {
            proof {
                lemma_owner_prefix(children@, face, c + 1);
            }
            return Some(c);
        }
        c = c + 1;
    }
    assert(children@.take(n as int) =~= children@);
    None
}

/// The child of a compound that owns the faces to tweak: the position,
/// among the children (each given by the identity keys of its faces), of
/// the first child holding the first face; every other face must be held
/// first by that same child.
///
/// Fails, naming the reason, on the first face that no child holds or that
/// another child holds first, or when there are no faces.
pub fn tweak_owner(children: &Vec<Vec<u64>>, faces: &Vec<u64>) -> (r: Result<usize, Error>)
    ensures
        r matches Ok(i) ==> compound_owner(children@, faces@) == Ok::<int, Seq<char>>(i as int),
        r matches Err(e) ==> e matches Error::TweakFailed(m) && compound_owner(children@, faces@)
            == Err::<int, Seq<char>>(m@),
{
    let n = faces.len();
    let mut owner: Option<usize> = None;
    let mut i: usize = 0;
    assert(faces@.take(0) =~= Seq::<u64>::empty());
    while i < n
        invariant
            n == faces@.len(),
            i <= n,
            owner_scan(children@, faces@.take(i as int)) == Ok::<Option<int>, Seq<char>>(
                match owner {
                    Some(o) => Some(o as int),
                    None => None,
                },
            ),
        decreases n - i,
    {
        assert(faces@.take(i + 1).drop_last() =~= faces@.take(i as int));
        assert(faces@.take(i + 1).last() == faces@[i as int]);
        match first_owner(children, faces[i]) {
            None => {
                proof {
                    lemma_owner_scan_fails(children@, faces@, i as int + 1);
                }
                return Err(Error::TweakFailed("tweak: a face does not belong to the shape".to_owned()));
            },
            Some(index) => {
                match owner {
                    Some(previous) => {
                        if previous != index {
                            proof {
                                lemma_owner_scan_fails(children@, faces@, i as int + 1);
                            }
                            return Err(
                                Error::TweakFailed(
                                    "tweak: faces span multiple children of a compound".to_owned(),
                                ),
                            );
                        }
                    },
                    None => {
                        owner = Some(index);
                    },
                }
            },
        }
        i = i + 1;
    }
    assert(faces@.take(n as int) =~= faces@);
    match owner {
        Some(o) => Ok(o),
        None => Err(Error::TweakFailed("tweak: no faces given".to_owned())),
    }
}

proof fn lemma_owner_scan_fails(children: Seq<Vec<u64>>, faces: Seq<u64>, k: int)
    requires
        0 <= k <= faces.len(),
        owner_scan(children, faces.take(k)) is Err,
    ensures
        owner_scan(children, faces) == owner_scan(children, faces.take(k)),
    decreases faces.len(),
{
    if k == faces.len() {
        assert(faces.take(k) =~= faces);
    } else {
        assert(faces.drop_last().take(k) =~= faces.take(k));
        lemma_owner_scan_fails(children, faces.drop_last(), k);
    }
}


proof fn lemma_owner_holds(children: Seq<Vec<u64>>, face: u64)
    ensures
        owner_of(children, face) matches Some(i) ==> 0 <= i < children.len()
            && children[i]@.contains(face) && forall|c: int|
            0 <= c < i ==> !(#[trigger] children[c])@.contains(face),
        owner_of(children, face) is None ==> forall|c: int|
            0 <= c < children.len() ==> !(#[trigger] children[c])@.contains(face),
    decreases children.len(),
{
    if children.len() > 0 {
        let rest = children.drop_last();
        lemma_owner_holds(rest, face);
        assert forall|c: int| 0 <= c < rest.len() implies rest[c] == children[c] by {}
    }
}

proof fn lemma_owner_scan_ok(children: Seq<Vec<u64>>, faces: Seq<u64>, i: int)
    ensures
        owner_scan(children, faces) matches Ok(o) ==> (o is None <==> faces.len() == 0) && (o
            matches Some(p) ==> forall|j: int|
            0 <= j < faces.len() ==> owner_of(children, #[trigger] faces[j]) == Some(p)),
        (forall|j: int| 0 <= j < faces.len() ==> owner_of(children, #[trigger] faces[j]) == Some(i))
            ==> owner_scan(children, faces) == Ok::<Option<int>, Seq<char>>(
            if faces.len() == 0 {
                None
            } else {
                Some(i)
            },
        ),
    decreases faces.len(),
{
    if faces.len() > 0 {
        let rest = faces.drop_last();
        lemma_owner_scan_ok(children, rest, i);
        assert forall|j: int| 0 <= j < rest.len() implies rest[j] == faces[j] by {}
        assert(faces.last() == faces[faces.len() - 1]);
    }
}

/// A tweak in a compound edits one child: when an owner is found, there are
/// faces, and every one of them is a face of the owner and of no child before
/// it. Conversely, when one child is the first holder of every face, and
/// there are faces, that child is the owner.
pub proof fn owner_holds_every_face(children: Seq<Vec<u64>>, faces: Seq<u64>, i: int)
    ensures
        compound_owner(children, faces) matches Ok(o) ==> {
            &&& faces.len() > 0
            &&& 0 <= o < children.len()
            &&& forall|j: int|
                0 <= j < faces.len() ==> children[o]@.contains(#[trigger] faces[j]) && forall|
                    c: int,
                |
                    0 <= c < o ==> !(#[trigger] children[c])@.contains(faces[j])
        },
        faces.len() > 0 && (forall|j: int|
            0 <= j < faces.len() ==> owner_of(children, #[trigger] faces[j]) == Some(i))
            ==> compound_owner(children, faces) == Ok::<int, Seq<char>>(i),
{
    lemma_owner_scan_ok(children, faces, i);
    if compound_owner(children, faces) is Ok {
        let o = compound_owner(children, faces)->Ok_0;
        assert(faces.len() > 0);
        lemma_owner_holds(children, faces[0]);
        assert forall|j: int| 0 <= j < faces.len() implies children[o]@.contains(
            #[trigger] faces[j],
        ) && forall|c: int| 0 <= c < o ==> !(#[trigger] children[c])@.contains(faces[j]) by {
            lemma_owner_holds(children, faces[j]);
        }
    }
}

/// A face that no child holds makes the tweak fail, whatever the other faces are.
pub proof fn foreign_face_fails(children: Seq<Vec<u64>>, faces: Seq<u64>, j: int)
    requires
        0 <= j < faces.len(),
        forall|c: int| 0 <= c < children.len() ==> !(#[trigger] children[c])@.contains(faces[j]),
    ensures
        compound_owner(children, faces) is Err,
{
    lemma_owner_holds(children, faces[j]);
    lemma_owner_scan_ok(children, faces, 0);
    if owner_scan(children, faces) is Ok {
        let o = owner_scan(children, faces)->Ok_0;
        if o is Some {
            assert(owner_of(children, faces[j]) == o);
        }
    }
}

} // verus!
