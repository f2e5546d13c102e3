# opencascade (verified core)

The topology and decision logic of a Rust wrapper around the OpenCASCADE
CAD kernel, written in Verus and proved against its contracts.

- `src/lib.rs`: the error types and the mapping of the kernel's builder
  status codes to them.
- `src/mesh.rs`: assembly of the flat triangle index list of a tessellated
  shape and of the per-face triangle ranges, with the laws that the indices
  name mesh nodes and that the ranges tile the triangles face by face.
- `src/history.rs`: finding the input face that a result face comes from,
  and picking the faces out of a list of sub-shapes.
- `src/primitives/`: report trimming and outcomes of boolean operations,
  edge types and spline point checks, seam edge collection, and the owner
  of the faces to tweak in a compound.
- `src/xcaf.rs`: label text attributes, datum data and the walk over a
  label sequence; `src/iteration.rs` holds the law of that walk.
- `app/`: floating point geometry (UV normalization, normals, similarity
  test of transforms, spline point distances) and the error's messages.
