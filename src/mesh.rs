use vstd::prelude::*;

verus! {

/// The three vertex indices of a triangular face.
pub type TriangleFaceIndices = (usize, usize, usize);

/// Why a mesh's face list was rejected.
#[derive(Debug, Clone, Copy, PartialEq, Eq, Structural)]
pub enum MeshError {
    /// The face at this position names a vertex that does not exist.
    FaceIndexOutOfRange { face: usize },
}

/// All three indices of the face name one of `vertex_count` vertices.
pub open spec fn face_in_range(f: TriangleFaceIndices, vertex_count: nat) -> bool {
    f.0 < vertex_count && f.1 < vertex_count && f.2 < vertex_count
}

/// Every face of the list names existing vertices only.
pub open spec fn faces_in_range(faces: Seq<TriangleFaceIndices>, vertex_count: nat) -> bool {
    forall|k: int| 0 <= k < faces.len() ==> face_in_range(#[trigger] faces[k], vertex_count)
}

/// The vertices of face `f`, looked up in `vertices`.
pub open spec fn resolved<V>(vertices: Seq<V>, f: TriangleFaceIndices) -> (V, V, V) {
    (vertices[f.0 as int], vertices[f.1 as int], vertices[f.2 as int])
}

/// Check that every face names existing vertices; on failure, report the
/// first face that does not.
pub fn validate_faces(vertex_count: usize, faces: &Vec<TriangleFaceIndices>) -> (r: Result<
    (),
    MeshError,
>)
    ensures
        r is Ok <==> faces_in_range(faces@, vertex_count as nat),
        match r {
            Ok(_) => true,
            Err(MeshError::FaceIndexOutOfRange { face }) => {
                &&& face < faces@.len()
                &&& !face_in_range(faces@[face as int], vertex_count as nat)
                &&& faces_in_range(faces@.take(face as int), vertex_count as nat)
            },
        },
{
    let mut k: usize = 0;
    while k < faces.len()
        invariant
            k <= faces@.len(),
            faces_in_range(faces@.take(k as int), vertex_count as nat),
        decreases faces@.len() - k,
    {
        let (a, b, c) = faces[k];
        if a >= vertex_count || b >= vertex_count || c >= vertex_count {
            return Err(MeshError::FaceIndexOutOfRange { face: k });
        }
        proof {
            assert forall|j: int| 0 <= j < k + 1 implies face_in_range(
                #[trigger] faces@.take(k + 1)[j],
                vertex_count as nat,
            ) by {
                if j < k {
                    assert(faces@.take(k + 1)[j] == faces@.take(k as int)[j]);
                }
            }
        }
        k += 1;
    }
    assert(faces@.take(k as int) =~= faces@);
    Ok(())
}

/// A restartable walk over the faces of a mesh that hands out each face as
/// its three vertices, in face order.
pub struct FacesIterator<'a, V> {
    index: usize,
    vertices: &'a Vec<V>,
    face_indices: &'a Vec<TriangleFaceIndices>,
}

impl<'a, V: Copy> FacesIterator<'a, V> {
    /// The vertex list looked up.
    pub closed spec fn vertex_seq(&self) -> Seq<V> {
        self.vertices@
    }

    /// The faces walked over.
    pub closed spec fn face_seq(&self) -> Seq<TriangleFaceIndices> {
        self.face_indices@
    }

    /// How many faces have been handed out.
    pub closed spec fn position(&self) -> nat {
        self.index as nat
    }

    pub open spec fn wf(&self) -> bool {
        &&& faces_in_range(self.face_seq(), self.vertex_seq().len())
        &&& self.position() <= self.face_seq().len()
    }

    /// Start a walk at the first face. Every face must name existing vertices
    /// (see `validate_faces`).
    pub fn new(vertices: &'a Vec<V>, face_indices: &'a Vec<TriangleFaceIndices>) -> (it: Self)
        requires
            faces_in_range(face_indices@, vertices@.len()),
        ensures
            it.wf(),
            it.vertex_seq() == vertices@,
            it.face_seq() == face_indices@,
            it.position() == 0,
    {
        FacesIterator { index: 0, vertices, face_indices }
    }

    /// The next face as its three vertices, or `None` once all have been
    /// handed out.
    pub fn next(&mut self) -> (r: Option<(V, V, V)>)
        requires
            old(self).wf(),
        ensures
            final(self).wf(),
            final(self).vertex_seq() == old(self).vertex_seq(),
            final(self).face_seq() == old(self).face_seq(),
            old(self).position() < old(self).face_seq().len() ==> r == Some(
                resolved(old(self).vertex_seq(), old(self).face_seq()[old(self).position() as int]),
            ) && final(self).position() == old(self).position() + 1,
            old(self).position() == old(self).face_seq().len() ==> r is None
                && final(self).position() == old(self).position(),
    {
        if self.index < self.face_indices.len() {
            let (i0, i1, i2) = self.face_indices[self.index];
            proof {
                assert(face_in_range(self.face_indices@[self.index as int], self.vertices@.len()));
            }
            let v0 = self.vertices[i0];
            let v1 = self.vertices[i1];
            let v2 = self.vertices[i2];
            self.index = self.index + 1;
            Some((v0, v1, v2))
        } else {
            None
        }
    }
}

} // verus!
