use tobj::face::{parse_face, Face, VertexIndices};
use tobj::loader::{offset_material_index, ObjLoader};
use tobj::mesh::Model;
use tobj::{LoadError, LoadOptions};

fn bits(vals: &[f32]) -> Vec<u32> {
    vals.iter().map(|v| v.to_bits()).collect()
}

/// Parses the leading tokens that are floats, stopping at the first that
/// is not, out of at most `n`.
fn float_prefix<'a>(words: &mut std::str::SplitWhitespace<'a>, n: usize) -> Vec<u32> {
    let mut out = Vec::new();
    for w in words.take(n) {
        match w.parse::<f32>() {
            Ok(x) => out.push(x.to_bits()),
            Err(_) => break,
        }
    }
    out
}

/// Drives the loader over OBJ text; materials are never known.
fn load(text: &str, options: &LoadOptions) -> Result<Vec<Model>, LoadError> {
    let mut loader = ObjLoader::new(options)?;
    for line in text.lines() {
        let mut words = line.split_whitespace();
        match words.next() {
            Some("v") => {
                let xyz = float_prefix(&mut words, 3);
                let color = float_prefix(&mut words, 3);
                loader.add_position(&xyz, &color)?;
            }
            Some("vt") => loader.add_texcoord(&float_prefix(&mut words, 2))?,
            Some("vn") => loader.add_normal(&float_prefix(&mut words, 3))?,
            Some("f") | Some("l") => {
                let tokens: Vec<&str> = words.collect();
                loader.add_face(&tokens)?;
            }
            Some("o") | Some("g") => loader.begin_object(line[1..].trim().to_owned())?,
            Some("usemtl") => {
                let name = line.split_once(' ').unwrap_or_default().1.trim();
                loader.use_material(name, None)?;
            }
            _ => {}
        }
    }
    loader.finish()
}

#[test]
fn end_to_end_default_triangle() {
    let models = load("v 0 0 0\nv 1 0 0\nv 0 1 0\nf 1 2 3", &LoadOptions::default()).unwrap();
    assert_eq!(models.len(), 1);
    assert_eq!(models[0].name, "unnamed_object");
    let mesh = &models[0].mesh;
    assert_eq!(mesh.positions, bits(&[0.0, 0.0, 0.0, 1.0, 0.0, 0.0, 0.0, 1.0, 0.0]));
    assert_eq!(mesh.indices, vec![0, 1, 2]);
    assert!(mesh.face_arities.is_empty());
    assert!(mesh.normals.is_empty());
    assert!(mesh.texcoords.is_empty());
    assert_eq!(mesh.material_id, None);
}

#[test]
fn single_index_triangle_has_three_positions() {
    let opts = LoadOptions { single_index: true, ..Default::default() };
    let models = load("o Triangle\nv 0 0 0\nv 1 0 0\nv 0 1 0\nf 1 2 3\n", &opts).unwrap();
    assert_eq!(models.len(), 1);
    assert_eq!(models[0].name, "Triangle");
    assert_eq!(models[0].mesh.positions.len(), 9);
    assert_eq!(models[0].mesh.indices, vec![0, 1, 2]);
}

#[test]
fn colored_triangle_keeps_colors() {
    let opts = LoadOptions { single_index: true, ..Default::default() };
    let text = "v 0 0 0 1 0 0\nv 1 0 0 0 1 0\nv 0 1 0 0 0 1\nf 1 2 3\n";
    let models = load(text, &opts).unwrap();
    let mesh = &models[0].mesh;
    assert_eq!(mesh.vertex_color, bits(&[1.0, 0.0, 0.0, 0.0, 1.0, 0.0, 0.0, 0.0, 1.0]));
}

#[test]
fn quad_triangulated_uses_fixed_diagonal() {
    let opts = LoadOptions { triangulate: true, single_index: true, ..Default::default() };
    let text = "v 0 1 0\nv 0 0 0\nv 1 0 0\nv 1 1 0\nf 1 2 3 4\n";
    let models = load(text, &opts).unwrap();
    let mesh = &models[0].mesh;
    assert_eq!(mesh.indices, vec![0, 1, 2, 0, 2, 3]);
    assert!(mesh.face_arities.is_empty());
    assert_eq!(mesh.positions.len(), 12);
}

#[test]
fn quad_kept_records_arity() {
    let opts = LoadOptions { single_index: true, ..Default::default() };
    let text = "v 0 1 0\nv 0 0 0\nv 1 0 0\nv 1 1 0\nf 1 2 3 4\n";
    let models = load(text, &opts).unwrap();
    let mesh = &models[0].mesh;
    assert_eq!(mesh.face_arities, vec![4]);
    assert_eq!(mesh.indices, vec![0, 1, 2, 3]);
}

#[test]
fn quad_kept_in_default_mode() {
    let text = "v 0 1 0\nv 0 0 0\nv 1 0 0\nv 1 1 0\nf 1 2 3 4\n";
    let models = load(text, &LoadOptions::default()).unwrap();
    assert_eq!(models[0].mesh.face_arities, vec![4]);
    assert_eq!(models[0].mesh.indices, vec![0, 1, 2, 3]);
}

#[test]
fn lines_are_kept_with_arity_two() {
    let opts = LoadOptions { single_index: true, ..Default::default() };
    let text = "v 0 0 0\nv 1 0 0\nv 0 1 0\nl 1 2\nl 2 3\nl 3 1\n";
    let models = load(text, &opts).unwrap();
    let mesh = &models[0].mesh;
    assert_eq!(mesh.indices, vec![0, 1, 1, 2, 2, 0]);
    assert_eq!(mesh.face_arities, vec![2, 2, 2]);
}

#[test]
fn lines_triangulate_to_degenerate_triangles() {
    let opts = LoadOptions { single_index: true, triangulate: true, ..Default::default() };
    let models = load("v 0 0 0\nv 1 0 0\nl 1 2\n", &opts).unwrap();
    assert_eq!(models[0].mesh.indices, vec![0, 1, 1]);
    assert!(models[0].mesh.face_arities.is_empty());
}

#[test]
fn ignored_points_and_lines_are_dropped() {
    let opts = LoadOptions {
        single_index: true,
        triangulate: true,
        ignore_points: true,
        ignore_lines: true,
        ..Default::default()
    };
    let models = load("v 0 0 0\nv 1 0 0\nv 0 1 0\nf 1\nl 1 2\nf 1 2 3\n", &opts).unwrap();
    assert_eq!(models[0].mesh.indices, vec![0, 1, 2]);
}

#[test]
fn points_triangulate_to_three_uses() {
    let opts = LoadOptions { single_index: true, triangulate: true, ..Default::default() };
    let models = load("v 0 0 0\nf 1\n", &opts).unwrap();
    assert_eq!(models[0].mesh.indices, vec![0, 0, 0]);
    assert_eq!(models[0].mesh.positions.len(), 3);
}

#[test]
fn objects_split_models() {
    let opts = LoadOptions { single_index: true, ..Default::default() };
    let text = "v 0 0 0\nv 1 0 0\nv 0 1 0\no First\nf 1 2 3\ng\nf 3 2 1\n";
    let models = load(text, &opts).unwrap();
    assert_eq!(models.len(), 2);
    assert_eq!(models[0].name, "First");
    assert_eq!(models[1].name, "unnamed_object");
    assert_eq!(models[1].mesh.positions, bits(&[0.0, 1.0, 0.0, 1.0, 0.0, 0.0, 0.0, 0.0, 0.0]));
}

#[test]
fn material_change_splits_object() {
    let opts = LoadOptions { single_index: true, ..Default::default() };
    let mut loader = ObjLoader::new(&opts).unwrap();
    for p in [[0.0f32, 0.0, 0.0], [1.0, 0.0, 0.0], [0.0, 1.0, 0.0]] {
        loader.add_position(&bits(&p), &[]).unwrap();
    }
    loader.begin_object("Box".to_owned()).unwrap();
    loader.use_material("red", Some(0)).unwrap();
    loader.add_face(&["1", "2", "3"]).unwrap();
    loader.use_material("blue", Some(1)).unwrap();
    loader.add_face(&["3", "2", "1"]).unwrap();
    loader.use_material("blue", Some(1)).unwrap();
    let models = loader.finish().unwrap();
    assert_eq!(models.len(), 2);
    assert_eq!(models[0].name, "Box");
    assert_eq!(models[1].name, "Box");
    assert_eq!(models[0].mesh.material_id, Some(0));
    assert_eq!(models[1].mesh.material_id, Some(1));
}

#[test]
fn empty_material_name_is_an_error() {
    let mut loader = ObjLoader::new(&LoadOptions::default()).unwrap();
    assert_eq!(loader.use_material("", Some(0)), Err(LoadError::MaterialParseError));
}

#[test]
fn exclusive_options_fail_before_any_line() {
    let merge = LoadOptions { single_index: true, merge_identical_points: true, ..Default::default() };
    let reorder = LoadOptions { single_index: true, reorder_data: true, ..Default::default() };
    assert!(!merge.is_valid());
    assert!(!reorder.is_valid());
    assert!(ObjLoader::new(&merge).is_err());
    assert_eq!(load("not even obj", &reorder).err(), Some(LoadError::InvalidLoadOptionConfig));
    let fine = LoadOptions { merge_identical_points: true, reorder_data: true, ..Default::default() };
    assert!(fine.is_valid());
    assert!(LoadOptions { single_index: true, ..Default::default() }.is_valid());
}

#[test]
fn malformed_lines_are_errors() {
    let opts = LoadOptions::default();
    assert_eq!(load("v 0 0\n", &opts).err(), Some(LoadError::PositionParseError));
    assert_eq!(load("v 0 x 0\n", &opts).err(), Some(LoadError::PositionParseError));
    assert_eq!(load("vt 0\n", &opts).err(), Some(LoadError::TexcoordParseError));
    assert_eq!(load("vn 0 0 q\n", &opts).err(), Some(LoadError::NormalParseError));
    assert_eq!(load("v 0 0 0\nf 1 a 1\n", &opts).err(), Some(LoadError::FaceParseError));
    assert_eq!(load("v 0 0 0\nf\n", &opts).err(), Some(LoadError::FaceParseError));
    assert_eq!(load("v 0 0 0\nf 1/1/1/1\n", &opts).err(), Some(LoadError::FaceParseError));
}

#[test]
fn out_of_range_position_fails_the_load() {
    let opts = LoadOptions { single_index: true, triangulate: true, ..Default::default() };
    assert_eq!(load("v 0 0 0\nf 1 2 3\n", &opts).err(), Some(LoadError::FaceVertexOutOfBounds));
    assert_eq!(
        load("v 0 0 0\nf 1 2 3\n", &LoadOptions::default()).err(),
        Some(LoadError::FaceVertexOutOfBounds)
    );
}

#[test]
fn relative_index_names_last_position() {
    let models = load("v 0 0 0\nv 1 0 0\nv 0 1 0\nf -3 -2 -1\n", &LoadOptions::default()).unwrap();
    assert_eq!(models[0].mesh.indices, vec![0, 1, 2]);
    assert_eq!(models[0].mesh.positions, bits(&[0.0, 0.0, 0.0, 1.0, 0.0, 0.0, 0.0, 1.0, 0.0]));
}

#[test]
fn relative_index_resolves_against_count_so_far() {
    let v = VertexIndices::parse("-1", 5, 0, 0).unwrap();
    assert_eq!(v, VertexIndices { v: 4, vt: None, vn: None });
    let w = VertexIndices::parse("-1/-2/-1", 7, 3, 2).unwrap();
    assert_eq!(w, VertexIndices { v: 6, vt: Some(1), vn: Some(1) });
}

#[test]
fn vertex_tokens_parse_each_channel() {
    assert_eq!(VertexIndices::parse("12", 0, 0, 0), Some(VertexIndices { v: 11, vt: None, vn: None }));
    assert_eq!(VertexIndices::parse("3//2", 0, 0, 0), Some(VertexIndices { v: 2, vt: None, vn: Some(1) }));
    assert_eq!(VertexIndices::parse("+3/4", 0, 0, 0), Some(VertexIndices { v: 2, vt: Some(3), vn: None }));
    assert_eq!(VertexIndices::parse("1/2/3", 0, 0, 0), Some(VertexIndices { v: 0, vt: Some(1), vn: Some(2) }));
    assert_eq!(VertexIndices::parse("1/2/3/", 0, 0, 0), None);
    assert_eq!(VertexIndices::parse("1///", 0, 0, 0), None);
    assert_eq!(VertexIndices::parse("1//", 0, 0, 0), Some(VertexIndices { v: 0, vt: None, vn: None }));
    assert_eq!(VertexIndices::parse("0", 0, 0, 0), Some(VertexIndices { v: -1, vt: None, vn: None }));
    assert_eq!(VertexIndices::parse("-4", 2, 0, 0), Some(VertexIndices { v: -2, vt: None, vn: None }));
    assert_eq!(VertexIndices::parse("/2", 0, 0, 0), None);
    assert_eq!(VertexIndices::parse("", 0, 0, 0), None);
    assert_eq!(VertexIndices::parse("1/x", 0, 0, 0), None);
    assert_eq!(VertexIndices::parse("1/2/3/4", 0, 0, 0), None);
    assert_eq!(VertexIndices::parse("-", 0, 0, 0), None);
    assert_eq!(VertexIndices::parse("99999999999999999999", 0, 0, 0), None);
}

#[test]
fn faces_take_the_variant_of_their_arity() {
    let mut faces = Vec::new();
    assert!(parse_face(&["1"], &mut faces, 1, 0, 0));
    assert!(parse_face(&["1", "2"], &mut faces, 2, 0, 0));
    assert!(parse_face(&["1", "2", "3"], &mut faces, 3, 0, 0));
    assert!(parse_face(&["1", "2", "3", "4"], &mut faces, 4, 0, 0));
    assert!(parse_face(&["1", "2", "3", "4", "5"], &mut faces, 5, 0, 0));
    assert!(!parse_face(&[], &mut faces, 5, 0, 0));
    assert!(!parse_face(&["1", "?"], &mut faces, 5, 0, 0));
    assert_eq!(faces.len(), 5);
    assert!(matches!(faces[0], Face::Point(_)));
    assert!(matches!(faces[1], Face::Line(_, _)));
    assert!(matches!(faces[2], Face::Triangle(_, _, _)));
    assert!(matches!(faces[3], Face::Quad(_, _, _, _)));
    match &faces[4] {
        Face::Polygon(l) => assert_eq!(l.len(), 5),
        _ => panic!("expected a polygon"),
    }
}

#[test]
fn error_messages_describe_the_error() {
    assert_eq!(LoadError::FaceVertexOutOfBounds.message(), "face vertex index out of bounds");
    assert_eq!(LoadError::InvalidLoadOptionConfig.message(), "mutually exclusive load options");
}

#[test]
fn appended_materials_are_offset() {
    assert_eq!(offset_material_index(2, 5), Some(7));
    assert_eq!(offset_material_index(0, 0), Some(0));
    assert_eq!(offset_material_index(usize::MAX, 1), None);
}

#[test]
fn every_error_has_its_own_message() {
    let all = [
        LoadError::OpenFileFailed,
        LoadError::ReadError,
        LoadError::UnrecognizedCharacter,
        LoadError::PositionParseError,
        LoadError::NormalParseError,
        LoadError::TexcoordParseError,
        LoadError::FaceParseError,
        LoadError::MaterialParseError,
        LoadError::InvalidObjectName,
        LoadError::InvalidPolygon,
        LoadError::FaceVertexOutOfBounds,
        LoadError::FaceTexCoordOutOfBounds,
        LoadError::FaceNormalOutOfBounds,
        LoadError::FaceColorOutOfBounds,
        LoadError::InvalidLoadOptionConfig,
        LoadError::GenericFailure,
    ];
    for (i, a) in all.iter().enumerate() {
        for b in &all[i + 1..] {
            assert_ne!(a.message(), b.message());
        }
    }
    assert_eq!(LoadError::FaceColorOutOfBounds.message(), "face vertex color index out of bounds");
}
