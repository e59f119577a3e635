use tobj::face::{Face, VertexIndices};
use tobj::merge::merge_identical_points;
use tobj::mesh::Mesh;
use tobj::multi::export_faces_multi_index;
use tobj::reorder::reorder_data;
use tobj::single::export_faces;
use tobj::{LoadError, LoadOptions};

fn bits(vals: &[f32]) -> Vec<u32> {
    vals.iter().map(|v| v.to_bits()).collect()
}

fn vi(v: isize, vt: Option<isize>, vn: Option<isize>) -> VertexIndices {
    VertexIndices { v, vt, vn }
}

fn p(v: isize) -> VertexIndices {
    vi(v, None, None)
}

fn square() -> Vec<u32> {
    bits(&[0.0, 1.0, 0.0, 0.0, 0.0, 0.0, 1.0, 0.0, 0.0, 1.0, 1.0, 0.0])
}

fn single() -> LoadOptions {
    LoadOptions { single_index: true, ..Default::default() }
}

#[test]
fn repeated_vertex_reuses_its_index() {
    let pos = square();
    let faces = vec![Face::Triangle(p(0), p(0), p(1)), Face::Triangle(p(1), p(0), p(0))];
    let mesh = export_faces(&pos, &[], &[], &[], &faces, None, &single()).unwrap();
    assert_eq!(mesh.positions.len(), 6);
    assert_eq!(mesh.indices, vec![0, 0, 1, 1, 0, 0]);
    let mesh = export_faces_multi_index(&pos, &[], &[], &[], &faces, None, &LoadOptions::default()).unwrap();
    assert_eq!(mesh.positions.len(), 6);
    assert_eq!(mesh.indices, vec![0, 0, 1, 1, 0, 0]);
}

#[test]
fn single_index_splits_vertices_by_texcoord() {
    let pos = square();
    let tex = bits(&[0.0, 0.0, 1.0, 1.0]);
    let faces = vec![Face::Triangle(vi(0, Some(0), None), vi(1, Some(0), None), vi(0, Some(1), None))];
    let mesh = export_faces(&pos, &[], &tex, &[], &faces, Some(2), &single()).unwrap();
    assert_eq!(mesh.indices, vec![0, 1, 2]);
    assert_eq!(mesh.positions, bits(&[0.0, 1.0, 0.0, 0.0, 0.0, 0.0, 0.0, 1.0, 0.0]));
    assert_eq!(mesh.texcoords, bits(&[0.0, 0.0, 0.0, 0.0, 1.0, 1.0]));
    assert!(mesh.texcoord_indices.is_empty());
    assert_eq!(mesh.material_id, Some(2));
}

#[test]
fn multi_index_keeps_channels_apart() {
    let pos = square();
    let tex = bits(&[0.0, 0.0, 1.0, 1.0]);
    let faces = vec![Face::Triangle(vi(0, Some(0), None), vi(1, Some(0), None), vi(0, Some(1), None))];
    let mesh = export_faces_multi_index(&pos, &[], &tex, &[], &faces, None, &LoadOptions::default()).unwrap();
    assert_eq!(mesh.indices, vec![0, 1, 0]);
    assert_eq!(mesh.texcoord_indices, vec![0, 0, 1]);
    assert_eq!(mesh.texcoords, tex);
    assert_eq!(mesh.positions.len(), 6);
}

#[test]
fn missing_channel_index_falls_back() {
    let pos = square();
    let nor = bits(&[0.0, 0.0, 1.0, 0.0, 1.0, 0.0]);
    let faces = vec![Face::Quad(p(0), vi(1, None, Some(1)), p(2), vi(3, None, Some(0)))];
    let mesh = export_faces_multi_index(&pos, &[], &[], &nor, &faces, None, &LoadOptions::default()).unwrap();
    // The first use falls back to the first normal; later misses repeat the one before.
    assert_eq!(mesh.normal_indices, vec![0, 1, 1, 0]);
    assert_eq!(mesh.normals, nor);
}

#[test]
fn out_of_range_channels_fail_with_their_error() {
    let pos = square();
    let tex = bits(&[0.0, 0.0]);
    let nor = bits(&[0.0, 0.0, 1.0]);
    let col = bits(&[1.0, 0.0, 0.0]);
    let tri = |a: VertexIndices| vec![Face::Triangle(a, p(0), p(0))];
    let m = LoadOptions::default();
    let s = single();
    assert_eq!(export_faces(&pos, &[], &[], &[], &tri(p(4)), None, &s).err(), Some(LoadError::FaceVertexOutOfBounds));
    assert_eq!(export_faces(&pos, &[], &[], &[], &tri(p(-1)), None, &s).err(), Some(LoadError::FaceVertexOutOfBounds));
    assert_eq!(
        export_faces(&pos, &[], &tex, &[], &tri(vi(0, Some(1), None)), None, &s).err(),
        Some(LoadError::FaceTexCoordOutOfBounds)
    );
    assert_eq!(
        export_faces(&pos, &[], &[], &nor, &tri(vi(0, None, Some(-1))), None, &s).err(),
        Some(LoadError::FaceNormalOutOfBounds)
    );
    assert_eq!(export_faces(&pos, &col, &[], &[], &tri(p(1)), None, &s).err(), Some(LoadError::FaceColorOutOfBounds));
    assert_eq!(
        export_faces_multi_index(&pos, &[], &[], &[], &tri(p(9)), None, &m).err(),
        Some(LoadError::FaceVertexOutOfBounds)
    );
    assert_eq!(
        export_faces_multi_index(&pos, &[], &tex, &[], &tri(vi(0, Some(3), None)), None, &m).err(),
        Some(LoadError::FaceTexCoordOutOfBounds)
    );
    assert_eq!(
        export_faces_multi_index(&pos, &[], &[], &nor, &tri(vi(0, None, Some(1))), None, &m).err(),
        Some(LoadError::FaceNormalOutOfBounds)
    );
    assert_eq!(
        export_faces_multi_index(&pos, &col, &tex, &[], &tri(vi(1, Some(3), None)), None, &m).err(),
        Some(LoadError::FaceColorOutOfBounds)
    );
    // A texture coordinate index is not checked where there are none.
    assert!(export_faces(&pos, &[], &[], &[], &tri(vi(0, Some(7), None)), None, &s).is_ok());
}

#[test]
fn degenerate_polygon_cannot_be_triangulated() {
    let pos = square();
    let opts = LoadOptions { single_index: true, triangulate: true, ..Default::default() };
    let faces = vec![Face::Triangle(p(0), p(1), p(2)), Face::Polygon(vec![p(0)])];
    assert_eq!(export_faces(&pos, &[], &[], &[], &faces, None, &opts).err(), Some(LoadError::InvalidPolygon));
    let opts = LoadOptions { triangulate: true, ..Default::default() };
    assert_eq!(
        export_faces_multi_index(&pos, &[], &[], &[], &faces, None, &opts).err(),
        Some(LoadError::InvalidPolygon)
    );
    // An earlier index error comes first.
    let faces = vec![Face::Triangle(p(0), p(1), p(8)), Face::Polygon(vec![])];
    assert_eq!(
        export_faces_multi_index(&pos, &[], &[], &[], &faces, None, &opts).err(),
        Some(LoadError::FaceVertexOutOfBounds)
    );
}

#[test]
fn polygon_triangulates_as_fan() {
    let pos = bits(&[0.0; 15]);
    let opts = LoadOptions { single_index: true, triangulate: true, ..Default::default() };
    let faces = vec![Face::Polygon(vec![p(0), p(1), p(2), p(3), p(4)])];
    let mesh = export_faces(&pos, &[], &[], &[], &faces, None, &opts).unwrap();
    assert_eq!(mesh.indices, vec![0, 1, 2, 0, 2, 3, 0, 3, 4]);
    let plain = export_faces(&pos, &[], &[], &[], &faces, None, &single()).unwrap();
    assert_eq!(plain.indices, vec![0, 1, 2, 3, 4]);
    assert_eq!(plain.face_arities, vec![5]);
}

#[test]
fn merging_joins_bit_identical_positions() {
    // Positions 0 and 2 are the same point.
    let pos = bits(&[0.0, 0.0, 0.0, 1.0, 0.0, 0.0, 0.0, 0.0, 0.0, 0.0, 1.0, 0.0]);
    let faces = vec![Face::Triangle(p(0), p(1), p(3)), Face::Triangle(p(2), p(3), p(1))];
    let opts = LoadOptions { merge_identical_points: true, ..Default::default() };
    let mesh = export_faces_multi_index(&pos, &[], &[], &[], &faces, None, &opts).unwrap();
    assert_eq!(mesh.positions, bits(&[0.0, 0.0, 0.0, 1.0, 0.0, 0.0, 0.0, 1.0, 0.0]));
    assert_eq!(mesh.indices, vec![0, 1, 2, 0, 2, 1]);
    let plain = export_faces_multi_index(&pos, &[], &[], &[], &faces, None, &LoadOptions::default()).unwrap();
    assert_eq!(plain.positions.len(), 12);
    assert_eq!(plain.indices, vec![0, 1, 2, 3, 2, 1]);
}

#[test]
fn merging_gives_colors_their_own_indices() {
    let pos = bits(&[0.0, 0.0, 0.0, 1.0, 0.0, 0.0, 0.0, 1.0, 0.0]);
    let col = bits(&[1.0, 1.0, 1.0, 0.5, 0.5, 0.5, 1.0, 1.0, 1.0]);
    let faces = vec![Face::Triangle(p(0), p(1), p(2))];
    let opts = LoadOptions { merge_identical_points: true, ..Default::default() };
    let mesh = export_faces_multi_index(&pos, &col, &[], &[], &faces, None, &opts).unwrap();
    assert_eq!(mesh.vertex_color, bits(&[1.0, 1.0, 1.0, 0.5, 0.5, 0.5]));
    assert_eq!(mesh.vertex_color_indices, vec![0, 1, 0]);
    assert_eq!(mesh.indices, vec![0, 1, 2]);
}

#[test]
fn negative_zero_is_a_different_point() {
    let mut points = bits(&[0.0, 0.0, -0.0, 0.0, 0.0, 0.0]);
    let mut indices = vec![2, 1, 0];
    merge_identical_points::<2>(&mut points, &mut indices);
    assert_eq!(points, bits(&[0.0, 0.0, -0.0, 0.0]));
    assert_eq!(indices, vec![0, 1, 0]);
    let mut untouched = bits(&[1.0, 1.0]);
    let mut none: Vec<u32> = Vec::new();
    merge_identical_points::<2>(&mut untouched, &mut none);
    assert_eq!(untouched, bits(&[1.0, 1.0]));
}

#[test]
fn reordering_lays_normals_along_positions() {
    let pos = square();
    let nor = bits(&[0.0, 0.0, 1.0, 0.0, 1.0, 0.0]);
    let faces = vec![Face::Triangle(vi(0, None, Some(1)), vi(1, None, Some(0)), vi(2, None, Some(0)))];
    let opts = LoadOptions { reorder_data: true, ..Default::default() };
    let mesh = export_faces_multi_index(&pos, &[], &[], &nor, &faces, None, &opts).unwrap();
    assert!(mesh.normal_indices.is_empty());
    assert_eq!(mesh.normals, bits(&[0.0, 1.0, 0.0, 0.0, 0.0, 1.0, 0.0, 0.0, 1.0]));
}

#[test]
fn reordering_per_position_when_channel_is_no_longer_than_positions() {
    // Six texture coordinate values against six position values: scattered
    // along the position indices.
    let mut mesh = Mesh {
        positions: bits(&[0.0, 0.0, 0.0, 1.0, 1.0, 1.0]),
        indices: vec![1, 0],
        texcoords: bits(&[1.0, 2.0, 3.0, 4.0, 5.0, 6.0]),
        texcoord_indices: vec![0, 1],
        ..Default::default()
    };
    reorder_data(&mut mesh);
    assert_eq!(mesh.texcoords, bits(&[3.0, 4.0, 1.0, 2.0]));
    assert!(mesh.texcoord_indices.is_empty());
}

#[test]
fn reordering_per_use_when_channel_is_longer_than_positions() {
    // Four texture coordinate values against three position values:
    // gathered per use.
    let mut mesh = Mesh {
        positions: bits(&[0.0, 0.0, 0.0]),
        indices: vec![0, 0],
        texcoords: bits(&[0.1, 0.2, 0.3, 0.4]),
        texcoord_indices: vec![1, 0],
        ..Default::default()
    };
    reorder_data(&mut mesh);
    assert_eq!(mesh.texcoords, bits(&[0.3, 0.4, 0.1, 0.2]));
    assert!(mesh.texcoord_indices.is_empty());
    assert_eq!(mesh.indices, vec![0, 0]);
}
