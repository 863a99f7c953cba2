use web_geo_viewer::bytes::ByteOrder;
use web_geo_viewer::model::{Face3, Scalar};
use web_geo_viewer::ply::{
    load_header, load_ply, point_with_order, read_face_type, read_vertex_type, Axis, Padding,
    PlyError, PlyFormat, PlyType, VertexLayout,
};

fn text(s: &Scalar) -> &[u8] {
    match s {
        Scalar::Decimal(t) => t.as_slice(),
        _ => panic!("not decimal text"),
    }
}

fn f(a: usize, b: usize, c: usize) -> Face3 {
    Face3 { a, b, c }
}

fn header(lines: &[&str]) -> Vec<u8> {
    let mut s = String::new();
    for l in lines {
        s.push_str(l);
        s.push('\n');
    }
    s.into_bytes()
}

#[test]
fn header_errors() {
    assert_eq!(load_ply(b"plx\n", b"a").err(), Some(PlyError::StartNotFound));
    assert_eq!(load_ply(b"ply\nformat text 1.0\n", b"a").err(), Some(PlyError::FormatNotFound));
    let d = header(&["ply", "format ascii 1.0", "property float x"]);
    assert_eq!(load_ply(&d, b"a").err(), Some(PlyError::InvalidProperty(3)));
    let d = header(&["ply", "format ascii 1.0", "element vertex many"]);
    assert_eq!(load_ply(&d, b"a").err(), Some(PlyError::LineParse(3)));
    let d = header(&["ply", "format ascii 1.0", "element vertex 1", "property quad x"]);
    assert_eq!(load_ply(&d, b"a").err(), Some(PlyError::InvalidProperty(4)));
    let d = header(&["ply", "format ascii 1.0", "element vertex 1", "property int x"]);
    assert_eq!(load_ply(&d, b"a").err(), Some(PlyError::InvalidProperty(4)));
    let d = header(&["ply", "format ascii 1.0", "element vertex 1", "property float x", "end_header"]);
    assert_eq!(load_ply(&d, b"a").err(), Some(PlyError::HeaderInvalid));
    let d = header(&["ply", "format ascii 1.0", "element edge 1"]);
    assert_eq!(load_ply(&d, b"a").err(), Some(PlyError::HeaderInvalid));
    assert_eq!(load_ply(b"ply\nformat ascii 1.0\n", b"a").err(), Some(PlyError::HeaderInvalid));
}

fn ascii_header(n_vertices: usize, n_faces: usize, vertex_props: &[&str]) -> Vec<String> {
    let mut h = vec!["ply".to_string(), "format ascii 1.0".to_string()];
    h.push("obj_info generated".to_string());
    h.push(format!("element vertex {}", n_vertices));
    for p in vertex_props {
        h.push(format!("property {}", p));
    }
    h.push(format!("element face {}", n_faces));
    h.push("property list uchar int vertex_indices".to_string());
    h.push("end_header".to_string());
    h
}

fn ascii_file(n_vertices: usize, n_faces: usize, props: &[&str], body: &[&str]) -> Vec<u8> {
    let mut lines = ascii_header(n_vertices, n_faces, props);
    for b in body {
        lines.push(b.to_string());
    }
    let refs: Vec<&str> = lines.iter().map(|s| s.as_str()).collect();
    header(&refs)
}

#[test]
fn ascii_columns_in_any_order_with_padding() {
    let props = ["uchar red", "double z", "float nx", "float y", "float x", "float s", "float t"];
    let d = ascii_file(3, 1, &props, &["9 3.0 0 2.0 1.0 7 7", "9 6 0 5 4 7 7", "9 9 0 8 7 7 7", "3 0 1 2"]);
    let m = load_ply(&d, b"m.ply").ok().unwrap();
    assert_eq!(m.mesh.num_vertices(), 3);
    assert_eq!(text(&m.mesh.vertices[0].x), b"1.0");
    assert_eq!(text(&m.mesh.vertices[0].y), b"2.0");
    assert_eq!(text(&m.mesh.vertices[0].z), b"3.0");
    assert_eq!(text(&m.mesh.vertices[2].x), b"7");
    assert_eq!(m.mesh.faces, vec![f(0, 1, 2)]);
    assert_eq!(m.material_info.surfaces[0].0, b"m.ply".to_vec());
}

#[test]
fn ascii_body_errors() {
    let xyz = ["float x", "float y", "float z"];
    let d = ascii_file(2, 0, &xyz, &["0 0 0"]);
    assert_eq!(load_ply(&d, b"a").err(), Some(PlyError::VertexCountIncorrect));
    let d = ascii_file(1, 0, &xyz, &["0 zero 0"]);
    assert_eq!(load_ply(&d, b"a").err(), Some(PlyError::InvalidVertex(11)));
    let d = ascii_file(3, 1, &xyz, &["0 0 0", "1 0 0", "0 1 0", "4 0 1 2"]);
    assert_eq!(load_ply(&d, b"a").err(), Some(PlyError::FaceStructure));
    let d = ascii_file(3, 2, &xyz, &["0 0 0", "1 0 0", "0 1 0", "3 0 1 2", "3 0 1 5", "extra"]);
    let m = load_ply(&d, b"a").ok().unwrap();
    assert_eq!(m.mesh.faces, vec![f(0, 1, 2)]);
    assert_eq!(m.rejected, vec![f(0, 1, 5)]);
}

fn binary_file(lists: &[&str], faces: &[u8], vertices: &[[f32; 3]]) -> Vec<u8> {
    let mut lines = vec![
        "ply".to_string(),
        "format binary_little_endian 1.0".to_string(),
        format!("element vertex {}", vertices.len()),
        "property float x".to_string(),
        "property float y".to_string(),
        "property float z".to_string(),
        "element face 1".to_string(),
    ];
    for l in lists {
        lines.push(format!("property list {}", l));
    }
    lines.push("end_header".to_string());
    let refs: Vec<&str> = lines.iter().map(|s| s.as_str()).collect();
    let mut d = header(&refs);
    for v in vertices {
        for c in v {
            d.extend_from_slice(&c.to_le_bytes());
        }
    }
    d.extend_from_slice(faces);
    d
}

const TRI: [[f32; 3]; 3] = [[0.0, 0.0, 0.0], [1.0, 0.0, 0.0], [0.0, 1.0, 0.0]];

#[test]
fn ascii_body_with_too_few_faces_fails() {
    let xyz = ["float x", "float y", "float z"];
    let d = ascii_file(3, 2, &xyz, &["0 0 0", "1 0 0", "0 1 0", "3 0 1 2"]);
    assert_eq!(load_ply(&d, b"a").err(), Some(PlyError::FaceStructure));
    let d = ascii_file(0, 1, &xyz, &[]);
    assert_eq!(load_ply(&d, b"a").err(), Some(PlyError::FaceStructure));
}

#[test]
fn binary_face_shape_and_truncation() {
    let d = binary_file(&["uchar uchar vertex_indices"], &[4, 0, 1, 2, 0], &TRI);
    assert_eq!(load_ply(&d, b"a").err(), Some(PlyError::FaceStructure));
    let d = binary_file(&["uchar uchar vertex_indices"], &[3, 0, 1], &TRI);
    assert_eq!(load_ply(&d, b"a").err(), Some(PlyError::AccessFile));
    let mut d = binary_file(&["uchar uchar vertex_indices"], &[], &TRI);
    d.truncate(d.len() - 1);
    assert_eq!(load_ply(&d, b"a").err(), Some(PlyError::AccessFile));
    let d = binary_file(&["uchar float vertex_indices"], &[3, 0, 0, 0, 0], &TRI);
    assert_eq!(load_ply(&d, b"a").err(), Some(PlyError::FaceStructure));
}

#[test]
fn binary_negative_index_is_rejected_not_fatal() {
    let d = binary_file(&["uchar char vertex_indices"], &[3, 0, 1, 0xff], &TRI);
    let m = load_ply(&d, b"a").ok().unwrap();
    assert!(m.mesh.faces.is_empty());
    assert_eq!(m.rejected, vec![f(0, 1, usize::MAX)]);
}

#[test]
fn binary_texcoord_links_face_to_its_wedges() {
    let mut face = vec![2u8, 0xaa, 0xbb, 6];
    for v in [0.0f32, 0.5, 1.0, 0.5, 1.0, 1.0] {
        face.extend_from_slice(&v.to_le_bytes());
    }
    face.extend_from_slice(&[3, 0, 1, 2]);
    let d = binary_file(
        &["uchar uchar flags", "uchar float texcoord", "uchar uchar vertex_indices"],
        &face,
        &TRI,
    );
    let m = load_ply(&d, b"a").ok().unwrap();
    assert_eq!(m.mesh.faces, vec![f(0, 1, 2)]);
    assert_eq!(m.material_info.uv.len(), 3);
    assert_eq!(m.material_info.surfaces[0].1.uvs, vec![(f(0, 1, 2), f(0, 1, 2))]);
    match &m.material_info.uv[1].y {
        Scalar::Single(b) => assert_eq!(f32::from_bits(*b), 0.5),
        _ => panic!("not a single"),
    }
    assert_eq!(text(&m.material_info.uv[1].z), b"1");
}

#[test]
fn header_reads_layout() {
    let d = header(&[
        "comment before the start",
        "ply",
        "format binary_big_endian 1.0",
        "comment TextureFile skin.png",
        "element vertex 2",
        "property double y",
        "property short pad",
        "property double x",
        "property float z",
        "property uchar w",
        "element face 3",
        "property list uchar uint vertex_indices",
        "property uchar ignored",
        "end_header",
    ]);
    let (h, body, n) = load_header(&d).ok().unwrap();
    assert_eq!(h.format, PlyFormat::BigEndian);
    assert_eq!((h.n_vertices, h.n_faces), (2, 3));
    assert_eq!((h.vertex.first_axis, h.vertex.snd_axis, h.vertex.third_axis), (Axis::Y, Axis::X, Axis::Z));
    assert_eq!((h.vertex.first, h.vertex.snd, h.vertex.third), (PlyType::Double, PlyType::Double, PlyType::Float));
    assert_eq!(h.vertex.between_first_snd, Padding { bytes: 2, words: 1 });
    assert_eq!(h.vertex.after, Padding { bytes: 1, words: 1 });
    assert_eq!(h.face_lists.len(), 1);
    assert_eq!(h.texture_name, Some(b"skin.png".to_vec()));
    assert_eq!(body, d.len());
    assert_eq!(n, 15);
}

#[test]
fn primitive_reads() {
    let d = [0x01u8, 0x02, 0xff, 0xfe];
    assert_eq!(read_face_type(&d, 0, PlyType::UShort, ByteOrder::Little), Ok(0x0201));
    assert_eq!(read_face_type(&d, 0, PlyType::UShort, ByteOrder::Big), Ok(0x0102));
    assert_eq!(read_face_type(&d, 2, PlyType::Short, ByteOrder::Big), Ok(usize::MAX - 1));
    assert_eq!(read_face_type(&d, 2, PlyType::Short, ByteOrder::Little), Ok(usize::MAX - 256));
    assert_eq!(read_face_type(&d, 3, PlyType::Char, ByteOrder::Big), Ok(usize::MAX - 1));
    assert_eq!(read_face_type(&d, 0, PlyType::UInt, ByteOrder::Little), Ok(0xfeff0201));
    assert_eq!(read_face_type(&d, 1, PlyType::UInt, ByteOrder::Little), Err(PlyError::AccessFile));
    assert_eq!(read_face_type(&d, 0, PlyType::Float, ByteOrder::Little), Err(PlyError::FaceStructure));
    let v = 2.5f64.to_be_bytes();
    match read_vertex_type(&v, 0, PlyType::Double, ByteOrder::Big) {
        Ok(Scalar::Double(b)) => assert_eq!(f64::from_bits(b), 2.5),
        _ => panic!("not a double"),
    }
    assert_eq!(read_vertex_type(&v, 1, PlyType::Double, ByteOrder::Big).err(), Some(PlyError::AccessFile));
    assert_eq!(read_vertex_type(&v, 4, PlyType::Float, ByteOrder::Little).is_ok(), true);
    assert_eq!(read_vertex_type(&v, 5, PlyType::Float, ByteOrder::Little).err(), Some(PlyError::AccessFile));
    let l = VertexLayout {
        first_axis: Axis::Z,
        snd_axis: Axis::X,
        third_axis: Axis::Y,
        first: PlyType::Float,
        snd: PlyType::Float,
        third: PlyType::Float,
        before: Padding { bytes: 0, words: 0 },
        between_first_snd: Padding { bytes: 0, words: 0 },
        between_snd_third: Padding { bytes: 0, words: 0 },
        after: Padding { bytes: 0, words: 0 },
    };
    let p = point_with_order(Scalar::Single(3), Scalar::Single(1), Scalar::Single(2), &l);
    assert!(matches!((p.x, p.y, p.z), (Scalar::Single(1), Scalar::Single(2), Scalar::Single(3))));
}

#[test]
fn reading_ply_and_mtl_twice_gives_the_same_result() {
    let d = ascii_file(3, 2, &["float x", "float y", "float z"], &["0 0 0", "1 0 0", "0 1 0", "3 0 1 2", "3 2 1 0"]);
    let a = load_ply(&d, b"a").ok().unwrap();
    let b = load_ply(&d, b"a").ok().unwrap();
    assert_eq!(a.mesh.faces, b.mesh.faces);
    assert_eq!(a.material_info.surfaces[0].1.faces, b.material_info.surfaces[0].1.faces);
    for i in 0..3 {
        assert_eq!(text(&a.mesh.vertices[i].y), text(&b.mesh.vertices[i].y));
    }
    let m = b"newmtl z\nKd 1 0 0\nnewmtl a\nNs 2\n";
    let x = web_geo_viewer::mtl::load_mtl(m).ok().unwrap();
    let y = web_geo_viewer::mtl::load_mtl(m).ok().unwrap();
    let names = |v: &Vec<(Vec<u8>, web_geo_viewer::model::Material)>| v.iter().map(|e| e.0.clone()).collect::<Vec<_>>();
    assert_eq!(names(&x), vec![b"z".to_vec(), b"a".to_vec()]);
    assert_eq!(names(&x), names(&y));
    assert_eq!(text(&x[1].1.specular_intensity), text(&y[1].1.specular_intensity));
}
