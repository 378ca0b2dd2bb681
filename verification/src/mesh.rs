//! Triangle meshes: vertices, and indices that name a triangle by every three
//! of them.

use vstd::prelude::*;
use crate::ops::accepts_all3;
use crate::text::{decimal_chars, push_decimal, push_text};

verus! {

/// Why a mesh was refused.
#[derive(Debug, Clone, Copy, PartialEq, Eq)]
pub enum MeshError {
    /// The mesh has no triangle.
    NoTriangles,
    /// The number of indices is not a multiple of three.
    IndexCount { count: usize },
    /// The index at `position` names no vertex.
    IndexOutOfRange { position: usize, index: usize, vertices: usize },
}

impl MeshError {
    /// The text of the error.
    pub open spec fn message_chars(self) -> Seq<char> {
        match self {
            MeshError::NoTriangles => "Surface extraction produced no triangles. Try adjusting the iso-level"@,
            MeshError::IndexCount { count } => "Invalid mesh: index count ("@ + decimal_chars(
                count as nat,
            ) + ") is not a multiple of 3"@,
            MeshError::IndexOutOfRange { position, index, vertices } => "Invalid mesh: index "@
                + decimal_chars(index as nat) + " at position "@ + decimal_chars(position as nat)
                + " names none of "@ + decimal_chars(vertices as nat) + " vertices"@,
        }
    }

    /// The text of the error.
    pub fn message(&self) -> (text: String)
        ensures
            text@ == self.message_chars(),
    {
        let mut text = String::new();
        match *self {
            MeshError::NoTriangles => {
                push_text(
                    &mut text,
                    "Surface extraction produced no triangles. Try adjusting the iso-level",
                );
            },
            MeshError::IndexCount { count } => {
                push_text(&mut text, "Invalid mesh: index count (");
                push_decimal(&mut text, count);
                push_text(&mut text, ") is not a multiple of 3");
            },
            MeshError::IndexOutOfRange { position, index, vertices } => {
                push_text(&mut text, "Invalid mesh: index ");
                push_decimal(&mut text, index);
                push_text(&mut text, " at position ");
                push_decimal(&mut text, position);
                push_text(&mut text, " names none of ");
                push_decimal(&mut text, vertices);
                push_text(&mut text, " vertices");
            },
        }
        assert(text@ =~= self.message_chars());
        text
    }
}

/// Number of whole triangles that `index_count` indices name, if there is at
/// least one. A mesh without a triangle is an error, not an empty result.
pub fn require_triangles(index_count: usize) -> (r: Result<usize, MeshError>)
    ensures
        match r {
            Ok(triangles) => triangles == index_count / 3 && triangles > 0,
            Err(e) => e == MeshError::NoTriangles && index_count / 3 == 0,
        },
{
    let triangles = index_count / 3;
    if triangles == 0 {
        Err(MeshError::NoTriangles)
    } else {
        Ok(triangles)
    }
}

/// Whether every index before `upto` names one of `vertices` vertices.
pub open spec fn indices_in_range(indices: Seq<usize>, vertices: int, upto: int) -> bool {
    forall|p: int| 0 <= p < upto ==> #[trigger] indices[p] < vertices
}

/// Why `triangle_records` refuses a mesh of `vertices` vertices with these
/// indices, or none: a number of indices that is no multiple of three, else
/// the first index that names no vertex.
pub open spec fn mesh_refusal(vertices: int, indices: Seq<usize>) -> Option<MeshError> {
    if indices.len() % 3 != 0 {
        Some(MeshError::IndexCount { count: indices.len() as usize })
    } else if !indices_in_range(indices, vertices, indices.len() as int) {
        let first = choose|p: int|
            0 <= p < indices.len() && #[trigger] indices[p] >= vertices && indices_in_range(
                indices,
                vertices,
                p,
            );
        Some(
            MeshError::IndexOutOfRange {
                position: first as usize,
                index: indices[first],
                vertices: vertices as usize,
            },
        )
    } else {
        None
    }
}

/// If the index at `at` names no vertex and every index before it does, the
/// refusal names the index at `at`.
proof fn lemma_first_out_of_range(vertices: int, indices: Seq<usize>, at: int)
    requires
        indices.len() % 3 == 0,
        0 <= at < indices.len(),
        indices[at] >= vertices,
        indices_in_range(indices, vertices, at),
    ensures
        mesh_refusal(vertices, indices) == Some(
            MeshError::IndexOutOfRange {
                position: at as usize,
                index: indices[at],
                vertices: vertices as usize,
            },
        ),
{
    let first = choose|p: int|
        0 <= p < indices.len() && #[trigger] indices[p] >= vertices && indices_in_range(
            indices,
            vertices,
            p,
        );
    assert(first == at) by {
        if first < at {
            assert(indices[first] < vertices);
        }
        if at < first {
            assert(indices[at] < vertices);
        }
    }
}

/// One record for each triangle of the mesh, in the order of the indices:
/// `make` is given the three vertices that the triangle's indices name, in
/// their order.
///
/// A mesh whose number of indices is no multiple of three, or with an index
/// that names no vertex, yields no record at all.
pub fn triangle_records<V: Copy, R, F: Fn(V, V, V) -> R>(
    vertices: &Vec<V>,
    indices: &Vec<usize>,
    make: F,
) -> (r: Result<Vec<R>, MeshError>)
    requires
        accepts_all3(make),
    ensures
        match r {
            Ok(records) => {
                &&& mesh_refusal(vertices@.len() as int, indices@) is None
                &&& records@.len() == indices@.len() / 3
                &&& forall|t: int|
                    0 <= t < records@.len() ==> call_ensures(
                        make,
                        (
                            vertices@[indices@[3 * t] as int],
                            vertices@[indices@[3 * t + 1] as int],
                            vertices@[indices@[3 * t + 2] as int],
                        ),
                        #[trigger] records@[t],
                    )
            },
            Err(e) => mesh_refusal(vertices@.len() as int, indices@) == Some(e),
        },
{
    let count = indices.len();
    let known = vertices.len();
    if count % 3 != 0 {
        return Err(MeshError::IndexCount { count });
    }
    let triangles = count / 3;
    let mut records: Vec<R> = Vec::with_capacity(triangles);
    let mut t: usize = 0;
    while t < triangles
        invariant
            t <= triangles,
            accepts_all3(make),
            count == indices@.len(),
            known == vertices@.len(),
            count % 3 == 0,
            triangles == count / 3,
            records@.len() == t,
            indices_in_range(indices@, known as int, 3 * t),
            forall|u: int|
                0 <= u < t ==> call_ensures(
                    make,
                    (
                        vertices@[indices@[3 * u] as int],
                        vertices@[indices@[3 * u + 1] as int],
                        vertices@[indices@[3 * u + 2] as int],
                    ),
                    #[trigger] records@[u],
                ),
        decreases triangles - t,
    {
        let base = 3 * t;
        let a = indices[base];
        let b = indices[base + 1];
        let c = indices[base + 2];
        if a >= known {
            proof {
                lemma_first_out_of_range(known as int, indices@, base as int);
            }
            return Err(MeshError::IndexOutOfRange { position: base, index: a, vertices: known });
        }
        if b >= known {
            proof {
                lemma_first_out_of_range(known as int, indices@, base + 1);
            }
            return Err(
                MeshError::IndexOutOfRange { position: base + 1, index: b, vertices: known },
            );
        }
        if c >= known {
            proof {
                lemma_first_out_of_range(known as int, indices@, base + 2);
            }
            return Err(
                MeshError::IndexOutOfRange { position: base + 2, index: c, vertices: known },
            );
        }
        let record = make(vertices[a], vertices[b], vertices[c]);
        records.push(record);
        t = t + 1;
    }
    Ok(records)
}

} // verus!
