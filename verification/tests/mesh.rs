use dcm_converter::mesh::{require_triangles, triangle_records, MeshError};
use std::io::Cursor;
use stl_io::{Normal, Triangle, Vertex};

fn face(v0: [f32; 3], v1: [f32; 3], v2: [f32; 3]) -> Triangle {
    let edge1 = [v1[0] - v0[0], v1[1] - v0[1], v1[2] - v0[2]];
    let edge2 = [v2[0] - v0[0], v2[1] - v0[1], v2[2] - v0[2]];
    let nx = edge1[1] * edge2[2] - edge1[2] * edge2[1];
    let ny = edge1[2] * edge2[0] - edge1[0] * edge2[2];
    let nz = edge1[0] * edge2[1] - edge1[1] * edge2[0];
    let len = (nx * nx + ny * ny + nz * nz).sqrt();
    let (nx, ny, nz) = if len > 0.0 {
        (nx / len, ny / len, nz / len)
    } else {
        (0.0, 0.0, 1.0)
    };
    Triangle {
        normal: Normal::new([nx, ny, nz]),
        vertices: [Vertex::new(v0), Vertex::new(v1), Vertex::new(v2)],
    }
}

#[test]
fn zero_triangles_are_an_error() {
    assert_eq!(require_triangles(0), Err(MeshError::NoTriangles));
    assert_eq!(require_triangles(1), Err(MeshError::NoTriangles));
    assert_eq!(require_triangles(2), Err(MeshError::NoTriangles));
    assert_eq!(require_triangles(3), Ok(1));
    assert_eq!(require_triangles(5), Ok(1));
    assert_eq!(require_triangles(300), Ok(100));
    assert!(MeshError::NoTriangles
        .message()
        .contains("produced no triangles"));
}

#[test]
fn records_follow_the_indices_in_their_order() {
    let vertices = vec![10u32, 20, 30, 40];
    let indices = vec![0, 1, 2, 2, 1, 3, 3, 3, 0];
    let records = triangle_records(&vertices, &indices, |a: u32, b: u32, c: u32| (a, b, c));
    assert_eq!(
        records,
        Ok(vec![(10, 20, 30), (30, 20, 40), (40, 40, 10)])
    );
}

#[test]
fn mesh_without_indices_has_no_records() {
    let vertices: Vec<u32> = Vec::new();
    let indices: Vec<usize> = Vec::new();
    let records = triangle_records(&vertices, &indices, |a: u32, _b: u32, _c: u32| a);
    assert_eq!(records, Ok(Vec::new()));
}

#[test]
fn index_count_must_be_a_multiple_of_three() {
    let vertices = vec![1u8, 2, 3];
    for count in [1usize, 2, 4, 5, 7] {
        let indices = vec![0usize; count];
        let err = triangle_records(&vertices, &indices, |a: u8, _b: u8, _c: u8| a).unwrap_err();
        assert_eq!(err, MeshError::IndexCount { count });
    }
    assert_eq!(
        MeshError::IndexCount { count: 7 }.message(),
        "Invalid mesh: index count (7) is not a multiple of 3"
    );
    // the count is looked at before the indices
    let err = triangle_records(&vertices, &vec![9, 9, 9, 9], |a: u8, _b: u8, _c: u8| a);
    assert_eq!(err, Err(MeshError::IndexCount { count: 4 }));
}

#[test]
fn the_first_index_without_a_vertex_is_named() {
    let vertices = vec![1u8, 2, 3];
    let make = |a: u8, _b: u8, _c: u8| a;
    assert_eq!(
        triangle_records(&vertices, &vec![0, 1, 2, 0, 3, 7], make),
        Err(MeshError::IndexOutOfRange {
            position: 4,
            index: 3,
            vertices: 3
        })
    );
    assert_eq!(
        triangle_records(&vertices, &vec![5, 1, 2], make),
        Err(MeshError::IndexOutOfRange {
            position: 0,
            index: 5,
            vertices: 3
        })
    );
    assert_eq!(
        triangle_records(&vertices, &vec![0, 1, usize::MAX], make),
        Err(MeshError::IndexOutOfRange {
            position: 2,
            index: usize::MAX,
            vertices: 3
        })
    );
    assert_eq!(
        MeshError::IndexOutOfRange {
            position: 4,
            index: 3,
            vertices: 3
        }
        .message(),
        "Invalid mesh: index 3 at position 4 names none of 3 vertices"
    );
}

#[test]
fn written_triangles_are_read_back() {
    let vertices: Vec<[f32; 3]> = vec![
        [0.0, 0.0, 0.0],
        [1.0, 0.0, 0.0],
        [0.0, 1.0, 0.0],
        [0.0, 0.0, 2.5],
        [3.0, -1.5, 0.25],
        [2.0, 0.0, 0.0],
    ];
    // the last triangle is degenerate: its corners lie on one line
    let indices = vec![0, 1, 2, 0, 2, 3, 1, 4, 3, 2, 1, 0, 0, 1, 5];
    let triangles = triangle_records(&vertices, &indices, face).unwrap();
    let count = require_triangles(indices.len()).unwrap();
    assert_eq!(triangles.len(), count);

    let mut bytes = Vec::<u8>::new();
    stl_io::write_stl(&mut bytes, triangles.iter()).unwrap();
    assert_eq!(bytes.len(), 80 + 4 + 50 * count);

    let mut reader = Cursor::new(bytes);
    let read: Vec<Triangle> = stl_io::create_stl_reader(&mut reader)
        .unwrap()
        .map(|t| t.unwrap())
        .collect();
    assert_eq!(read.len(), count);
    for (t, triangle) in read.iter().enumerate() {
        for corner in 0..3 {
            assert_eq!(triangle.vertices[corner].0, vertices[indices[3 * t + corner]]);
        }
        let n = triangle.normal.0;
        let length = (n[0] * n[0] + n[1] * n[1] + n[2] * n[2]).sqrt();
        assert!((length - 1.0).abs() < 1e-5, "normal of triangle {t}");
    }
    assert_eq!(read[0].normal.0, [0.0, 0.0, 1.0]);
    assert_eq!(read[3].normal.0, [0.0, 0.0, -1.0]);
    // the degenerate triangle has the fallback normal
    assert_eq!(read[4].normal.0, [0.0, 0.0, 1.0]);
}
