use bevy_silk::error::Error;
use bevy_silk::rendering::{ClothRendering, NormalComputing, VertexNormals};

type Pos = [f32; 3];
type Rendering = ClothRendering<Pos, [f32; 2], [f32; 4]>;

fn quad() -> (Vec<Pos>, Vec<u32>) {
    (
        vec![[0.0, 0.0, 0.0], [1.0, 0.0, 0.0], [0.0, 1.0, 0.0], [1.0, 1.0, 0.0]],
        vec![0, 1, 2, 2, 1, 3],
    )
}

fn face_normal(a: Pos, b: Pos, c: Pos) -> Pos {
    let u = [b[0] - a[0], b[1] - a[1], b[2] - a[2]];
    let v = [c[0] - a[0], c[1] - a[1], c[2] - a[2]];
    let n = [u[1] * v[2] - u[2] * v[1], u[2] * v[0] - u[0] * v[2], u[0] * v[1] - u[1] * v[0]];
    let l = (n[0] * n[0] + n[1] * n[1] + n[2] * n[2]).sqrt();
    [n[0] / l, n[1] / l, n[2] / l]
}

#[test]
fn default_normals_are_smooth() {
    assert_eq!(NormalComputing::default(), NormalComputing::SmoothNormals);
}

#[test]
fn init_requires_positions() {
    let (_, indices) = quad();
    let r = Rendering::init(None, None, None, Some(indices), NormalComputing::Disabled);
    match r {
        Err(Error::MissingMeshAttribute(name)) => assert_eq!(name, "Vertex_Position"),
        _ => panic!("expected a missing attribute"),
    }
}

#[test]
fn init_checks_uv_count() {
    let (positions, indices) = quad();
    let r = Rendering::init(Some(positions), Some(vec![[0.0; 2]; 3]), None, Some(indices), NormalComputing::Disabled);
    match r {
        Err(Error::InvalidMeshAttribute { attribute, expected, got }) => {
            assert_eq!(attribute, "Vertex_Uv");
            assert_eq!((expected, got), (4, 3));
        }
        _ => panic!("expected an invalid attribute"),
    }
}

#[test]
fn init_checks_color_count() {
    let (positions, indices) = quad();
    let r = Rendering::init(Some(positions), None, Some(vec![[1.0; 4]; 5]), Some(indices), NormalComputing::Disabled);
    match r {
        Err(Error::InvalidMeshAttribute { attribute, expected, got }) => {
            assert_eq!(attribute, "Vertex_Color");
            assert_eq!((expected, got), (4, 5));
        }
        _ => panic!("expected an invalid attribute"),
    }
}

#[test]
fn init_requires_indices() {
    let (positions, _) = quad();
    let r = Rendering::init(Some(positions), None, None, None, NormalComputing::Disabled);
    assert!(matches!(r, Err(Error::MissingIndices)));
}

#[test]
fn init_keeps_the_mesh_data() {
    let (positions, indices) = quad();
    let r = Rendering::init(Some(positions.clone()), Some(vec![[0.5; 2]; 4]), None, Some(indices.clone()), NormalComputing::FlatNormals)
        .unwrap();
    assert_eq!(r.vertex_positions, positions);
    assert_eq!(r.indices, indices);
    assert_eq!(r.vertex_uvs, Some(vec![[0.5; 2]; 4]));
    assert!(r.vertex_colors.is_none());
    assert_eq!(r.normal_computing, NormalComputing::FlatNormals);
}

#[test]
fn duplication_gives_one_vertex_per_index() {
    let (positions, indices) = quad();
    let uvs = vec![[0.0, 0.0], [1.0, 0.0], [0.0, 1.0], [1.0, 1.0]];
    let r = Rendering::init(Some(positions.clone()), Some(uvs.clone()), None, Some(indices.clone()), NormalComputing::FlatNormals)
        .unwrap();
    let d = r.duplicated_self();
    assert_eq!(d.indices, vec![0, 1, 2, 3, 4, 5]);
    let expected: Vec<Pos> = indices.iter().map(|i| positions[*i as usize]).collect();
    assert_eq!(d.vertex_positions, expected);
    assert_eq!(d.vertex_uvs.unwrap()[5], uvs[3]);
    assert!(d.vertex_colors.is_none());
}

#[test]
fn flat_render_data_duplicates_vertices() {
    let (positions, indices) = quad();
    let r = Rendering::init(Some(positions), None, None, Some(indices.clone()), NormalComputing::FlatNormals).unwrap();
    let snapshot = r.render_data(face_normal);
    let new_indices = snapshot.indices.unwrap();
    assert_eq!(new_indices.len(), snapshot.vertex_positions.len());
    assert_eq!(snapshot.vertex_positions.len(), indices.len());
    match snapshot.normals {
        VertexNormals::Flat(normals) => {
            assert_eq!(normals.len(), 6);
            assert!(normals.iter().all(|n| *n == [0.0, 0.0, 1.0]));
        }
        _ => panic!("expected flat normals"),
    }
}

#[test]
fn smooth_render_data_lists_adjacent_faces() {
    let (positions, indices) = quad();
    let r = Rendering::init(Some(positions.clone()), None, None, Some(indices), NormalComputing::SmoothNormals).unwrap();
    let snapshot = r.render_data(|_, _, _| [1.0, 2.0, 3.0]);
    assert!(snapshot.indices.is_none());
    assert_eq!(snapshot.vertex_positions, positions);
    match snapshot.normals {
        VertexNormals::Smooth(lists) => {
            let counts: Vec<usize> = lists.iter().map(Vec::len).collect();
            assert_eq!(counts, vec![1, 2, 2, 1]);
        }
        _ => panic!("expected smooth normals"),
    }
}

#[test]
fn vertex_face_normals_follow_triangle_order() {
    let (positions, indices) = quad();
    let r = Rendering::init(Some(positions), None, None, Some(indices), NormalComputing::SmoothNormals).unwrap();
    let faces = vec![[1.0, 0.0, 0.0], [2.0, 0.0, 0.0]];
    let lists = r.vertex_face_normals(&faces);
    assert_eq!(lists[1], vec![[1.0, 0.0, 0.0], [2.0, 0.0, 0.0]]);
    assert_eq!(lists[3], vec![[2.0, 0.0, 0.0]]);
    assert_eq!(r.face_normals(face_normal), vec![[0.0, 0.0, 1.0], [0.0, 0.0, 1.0]]);
}

#[test]
fn disabled_normals_keep_positions() {
    let (positions, indices) = quad();
    let mut r = Rendering::init(Some(positions), None, None, Some(indices), NormalComputing::Disabled).unwrap();
    r.update_positions(vec![[2.0; 3]; 4]);
    let snapshot = r.render_data(face_normal);
    assert!(matches!(snapshot.normals, VertexNormals::Unchanged));
    assert_eq!(snapshot.vertex_positions, vec![[2.0; 3]; 4]);
    assert!(snapshot.indices.is_none());
}
