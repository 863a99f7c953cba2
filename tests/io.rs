use web_geo_viewer::model::{Face3, MaterialInfo, Scalar};
use web_geo_viewer::mtl::load_mtl;
use web_geo_viewer::obj::load_obj_mesh;
use web_geo_viewer::ply::load_ply;

fn box_obj() -> Vec<u8> {
    let mut s = String::new();
    for (x, y, z) in [
        (0, 0, 0),
        (1, 0, 0),
        (1, 1, 0),
        (0, 1, 0),
        (0, 0, 1),
        (1, 0, 1),
        (1, 1, 1),
        (0, 1, 1),
    ] {
        s.push_str(&format!("v {}.0 {}.0 {}.0\n", x, y, z));
    }
    for f in [
        [1, 2, 3],
        [1, 3, 4],
        [5, 7, 6],
        [5, 8, 7],
        [1, 5, 6],
        [1, 6, 2],
        [2, 6, 7],
        [2, 7, 3],
        [3, 7, 8],
        [3, 8, 4],
        [4, 8, 5],
        [4, 5, 1],
    ] {
        s.push_str(&format!("f {} {} {}\n", f[0], f[1], f[2]));
    }
    s.into_bytes()
}

fn box_quads_obj() -> Vec<u8> {
    let mut s = String::from("# a cube of quads\n");
    for (x, y, z) in [
        (0, 0, 0),
        (1, 0, 0),
        (1, 1, 0),
        (0, 1, 0),
        (0, 0, 1),
        (1, 0, 1),
        (1, 1, 1),
        (0, 1, 1),
    ] {
        s.push_str(&format!("v {} {} {}\r\n", x, y, z));
    }
    for f in [
        [1, 2, 3, 4],
        [5, 8, 7, 6],
        [1, 5, 6, 2],
        [2, 6, 7, 3],
        [3, 7, 8, 4],
        [4, 8, 5, 1],
    ] {
        s.push_str(&format!("f {} {} {} {}\r\n", f[0], f[1], f[2], f[3]));
    }
    s.into_bytes()
}

const N_VERTICES: usize = 5252;
const N_FACES: usize = 10200;

/// The corners of face `f` of the capsule-sized test meshes: all triples
/// differ and no triple repeats an index.
fn capsule_face(f: usize) -> [usize; 3] {
    let a = f % N_VERTICES;
    let step = 1 + f / N_VERTICES;
    [a, (a + step) % N_VERTICES, (a + step + 1) % N_VERTICES]
}

fn capsule_obj() -> Vec<u8> {
    let mut s = String::from("mtllib capsule.mtl\n");
    for i in 0..N_VERTICES {
        s.push_str(&format!("v {} {} {}\n", i, i as f64 * 0.5, -(i as f64)));
    }
    for i in 0..N_VERTICES {
        s.push_str(&format!("vt {} {}\n", i as f64 / 6000.0, 0.25));
    }
    s.push_str("usemtl material0\n");
    for f in 0..N_FACES {
        let [a, b, c] = capsule_face(f);
        s.push_str(&format!("f {}/{} {}/{} {}/{}\n", a + 1, a + 1, b + 1, b + 1, c + 1, c + 1));
    }
    s.into_bytes()
}

fn surface_faces(info: &MaterialInfo, name: &[u8]) -> Option<usize> {
    info.surfaces.iter().find(|(n, _)| n.as_slice() == name).map(|(_, s)| s.faces.len())
}

fn decimal(s: &Scalar) -> &[u8] {
    match s {
        Scalar::Decimal(t) => t.as_slice(),
        _ => panic!("not decimal text"),
    }
}

fn single(s: &Scalar) -> f32 {
    match s {
        Scalar::Single(b) => f32::from_bits(*b),
        _ => panic!("not a single"),
    }
}

#[test]
fn load_untextured_obj() {
    let m = load_obj_mesh(&box_obj()).ok().unwrap();
    assert_eq!(m.mesh.num_vertices(), 8);
    assert_eq!(m.mesh.num_faces(), 12);
    assert_eq!(m.material_info.uv.len(), 0);
    assert_eq!(surface_faces(&m.material_info, b"Default").is_some(), true);
    assert_eq!(surface_faces(&m.material_info, b"Default").unwrap(), 12);
}

#[test]
fn load_textured_obj() {
    let m = load_obj_mesh(&capsule_obj()).ok().unwrap();
    assert_eq!(m.mesh.num_vertices(), 5252);
    assert_eq!(m.mesh.num_faces(), 10200);
    assert_eq!(m.material_info.uv.len(), 5252);
    assert_eq!(surface_faces(&m.material_info, b"material0").is_some(), true);
    assert_eq!(surface_faces(&m.material_info, b"material0").unwrap(), 10200);
    assert_eq!(m.material_info.material_libs.len(), 1);
    assert_eq!(m.material_info.material_libs.contains(&b"capsule.mtl".to_vec()), true);
}

#[test]
fn quad_mesh_works() {
    let m = load_obj_mesh(&box_quads_obj()).ok().unwrap();
    assert_eq!(m.mesh.num_vertices(), 8);
    assert_eq!(m.mesh.num_faces(), 12);
    assert_eq!(m.material_info.uv.len(), 0);
    assert_eq!(surface_faces(&m.material_info, b"Default").is_some(), true);
    assert_eq!(surface_faces(&m.material_info, b"Default").unwrap(), 12);
}

#[test]
fn load_mtl_works() {
    let text = b"# exported\nnewmtl material0\nKa 1.0 1.0 1.0\nKd 0.8 0.75 0.70\nKs 0.5 0.5 0.5\nNs 30.0\nmap_Kd capsule0.jpg\n";
    let materials = load_mtl(text).ok().unwrap();
    assert_eq!(materials.len(), 1);
    assert_eq!(materials[0].0.as_slice(), b"material0");
    let material = &materials[0].1;
    let value = |s: &Scalar| std::str::from_utf8(decimal(s)).unwrap().parse::<f64>().unwrap();
    assert!((value(&material.diffuse_color.x) - 0.8).abs() < 1e-6);
    assert!((value(&material.diffuse_color.y) - 0.75).abs() < 1e-6);
    assert!((value(&material.diffuse_color.z) - 0.70).abs() < 1e-6);
    assert!((value(&material.specular_intensity) - 30.0).abs() < 1e-6);
    assert_eq!(material.texture_name.clone().unwrap(), b"capsule0.jpg".to_vec());
}

/// A capsule-sized PLY: float x, y, z, then per face `vertex_indices` and,
/// where `texcoord` is set, six float texture coordinates.
fn capsule_ply(format: &str, texcoord: bool, big_endian: bool) -> Vec<u8> {
    let mut s = String::from("ply\n");
    s.push_str(&format!("format {} 1.0\n", format));
    s.push_str("comment made for a test\n");
    if texcoord {
        s.push_str("comment TextureFile capsule0.jpg\n");
    }
    s.push_str(&format!("element vertex {}\n", N_VERTICES));
    s.push_str("property float x\nproperty float y\nproperty float z\n");
    s.push_str(&format!("element face {}\n", N_FACES));
    s.push_str("property list uchar int vertex_indices\n");
    if texcoord {
        s.push_str("property list uchar float texcoord\n");
    }
    s.push_str("end_header\n");
    let mut out = s.into_bytes();
    let f32_bytes = |v: f32| if big_endian { v.to_be_bytes() } else { v.to_le_bytes() };
    let i32_bytes = |v: i32| if big_endian { v.to_be_bytes() } else { v.to_le_bytes() };
    if format == "ascii" {
        for i in 0..N_VERTICES {
            out.extend_from_slice(format!("{} {} {}\n", i, i as f32 * 0.5, 1.5).as_bytes());
        }
        for f in 0..N_FACES {
            let [a, b, c] = capsule_face(f);
            let mut line = format!("3 {} {} {}", a, b, c);
            if texcoord {
                line.push_str(" 6 0 0 1 0 1 1");
            }
            line.push('\n');
            out.extend_from_slice(line.as_bytes());
        }
    } else {
        for i in 0..N_VERTICES {
            out.extend_from_slice(&f32_bytes(i as f32));
            out.extend_from_slice(&f32_bytes(i as f32 * 0.5));
            out.extend_from_slice(&f32_bytes(1.5));
        }
        for f in 0..N_FACES {
            out.push(3);
            for v in capsule_face(f) {
                out.extend_from_slice(&i32_bytes(v as i32));
            }
            if texcoord {
                out.push(6);
                for v in [0.0f32, 0.0, 1.0, 0.0, 1.0, 1.0] {
                    out.extend_from_slice(&f32_bytes(v));
                }
            }
        }
    }
    out
}

#[test]
fn load_textured_binary_ply() {
    let data = capsule_ply("binary_little_endian", true, false);
    let file_name = b"capsule.ply";
    let m = load_ply(&data, file_name).ok().unwrap();
    assert_eq!(m.mesh.num_vertices(), 5252);
    assert_eq!(m.mesh.num_faces(), 10200);
    assert_eq!(m.material_info.uv.len(), 3 * 10200);
    assert_eq!(m.material_info.surfaces.len(), 1);
    assert_eq!(surface_faces(&m.material_info, file_name).is_some(), true);
    assert_eq!(m.material.texture_name.unwrap(), b"capsule0.jpg".to_vec());
}

#[test]
fn load_untextured_binary_ply() {
    let data = capsule_ply("binary_little_endian", false, false);
    let file_name = b"capsule.ply";
    let m = load_ply(&data, file_name).ok().unwrap();
    assert_eq!(m.mesh.num_vertices(), 5252);
    assert_eq!(m.mesh.num_faces(), 10200);
    assert_eq!(m.material_info.uv.len(), 0);
    assert_eq!(m.material_info.surfaces.len(), 1);
    assert_eq!(surface_faces(&m.material_info, file_name).is_some(), true);
    assert_eq!(m.material.texture_name, None);
}

#[test]
fn load_untextured_ascii_ply() {
    let data = capsule_ply("ascii", false, false);
    let file_name = b"capsule.ply";
    let m = load_ply(&data, file_name).ok().unwrap();
    assert_eq!(m.mesh.num_vertices(), 5252);
    assert_eq!(m.mesh.num_faces(), 10200);
    assert_eq!(m.material_info.uv.len(), 0);
    assert_eq!(m.material_info.surfaces.len(), 1);
    assert_eq!(surface_faces(&m.material_info, file_name).is_some(), true);
    assert_eq!(m.material.texture_name, None);
}

#[test]
fn big_endian_ply_reads_the_same_values() {
    let little = load_ply(&capsule_ply("binary_little_endian", true, false), b"a").ok().unwrap();
    let big = load_ply(&capsule_ply("binary_big_endian", true, true), b"a").ok().unwrap();
    assert_eq!(big.mesh.num_vertices(), 5252);
    assert_eq!(big.mesh.faces, little.mesh.faces);
    for i in [0usize, 1, 17, 5251] {
        assert_eq!(single(&big.mesh.vertices[i].x), i as f32);
        assert_eq!(single(&big.mesh.vertices[i].y), i as f32 * 0.5);
        assert_eq!(single(&little.mesh.vertices[i].x), i as f32);
        assert_eq!(single(&little.mesh.vertices[i].z), 1.5);
    }
    assert_eq!(big.mesh.faces[3], Face3 { a: 3, b: 4, c: 5 });
}
