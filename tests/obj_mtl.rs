use web_geo_viewer::model::{Face3, MaterialInfo, Scalar};
use web_geo_viewer::mtl::{load_mtl, MtlError};
use web_geo_viewer::obj::{load_obj_mesh, load_obj_points, ObjError};

fn text(s: &Scalar) -> &[u8] {
    match s {
        Scalar::Decimal(t) => t.as_slice(),
        _ => panic!("not decimal text"),
    }
}

fn faces_of<'a>(info: &'a MaterialInfo, name: &[u8]) -> &'a Vec<Face3> {
    let i = info.surface_index(name).unwrap();
    &info.surfaces[i].1.faces
}

fn f(a: usize, b: usize, c: usize) -> Face3 {
    Face3 { a, b, c }
}

#[test]
fn quad_splits_along_first_diagonal() {
    let data = b"v 0 0 0\nv 1 0 0\nv 1 1 0\nv 0 1 0\nf 1 2 3 4\n";
    let m = load_obj_mesh(data).ok().unwrap();
    assert_eq!(faces_of(&m.material_info, b"Default"), &vec![f(0, 1, 2), f(0, 2, 3)]);
    assert_eq!(m.mesh.faces, vec![f(0, 1, 2), f(0, 2, 3)]);
}

#[test]
fn usemtl_routes_following_faces() {
    let data = b"v 0 0 0\nv 1 0 0\nv 1 1 0\nv 0 1 0\nf 1 2 3\nusemtl red\nf 1 3 4\nf 2 3 4\nusemtl Default\nf 1 2 4\n";
    let m = load_obj_mesh(data).ok().unwrap();
    assert_eq!(m.material_info.surfaces.len(), 2);
    assert_eq!(faces_of(&m.material_info, b"Default"), &vec![f(0, 1, 2), f(0, 1, 3)]);
    assert_eq!(faces_of(&m.material_info, b"red"), &vec![f(0, 2, 3), f(1, 2, 3)]);
    // Faces join the mesh surface by surface.
    assert_eq!(m.mesh.faces, vec![f(0, 1, 2), f(0, 1, 3), f(0, 2, 3), f(1, 2, 3)]);
}

#[test]
fn obj_counts_vertices_and_triangles() {
    let data = b"# two triangles\nv 0 0 0\nv 1 0 0\nvt 0 0\nv 1 1 0\nv 0 1 0\nf 1 2 3\nf 1 3 4\n";
    let m = load_obj_mesh(data).ok().unwrap();
    assert_eq!(m.mesh.num_vertices(), 4);
    assert_eq!(m.mesh.num_faces(), 2);
    assert_eq!(faces_of(&m.material_info, b"Default").len(), 2);
    assert_eq!(m.material_info.uv.len(), 1);
}

#[test]
fn texture_indices_link_faces_to_uv_faces() {
    let data = b"v 0 0 0\nv 1 0 0\nv 1 1 0\nv 0 1 0\nvt 0 0\nvt 1 0\nvt 1 1\nvt 0 1\nf 1/1 2/2/7 3/3 4/4\nf 1//1 2//2 4//4\n";
    let m = load_obj_mesh(data).ok().unwrap();
    let i = m.material_info.surface_index(b"Default").unwrap();
    let s = &m.material_info.surfaces[i].1;
    assert_eq!(s.faces, vec![f(0, 1, 2), f(0, 2, 3), f(0, 1, 3)]);
    assert_eq!(s.uvs, vec![(f(0, 1, 2), f(0, 1, 2)), (f(0, 2, 3), f(0, 2, 3))]);
}

#[test]
fn vt_fills_missing_components_with_zero() {
    let m = load_obj_mesh(b"vt 0.25\nvt 0.5 0.75 1\n").ok().unwrap();
    let uv = &m.material_info.uv;
    assert_eq!(text(&uv[0].x), b"0.25");
    assert_eq!(text(&uv[0].y), b"0");
    assert_eq!(text(&uv[0].z), b"0");
    assert_eq!(text(&uv[1].y), b"0.75");
    assert_eq!(text(&uv[1].z), b"1");
}

#[test]
fn faces_may_come_before_their_vertices() {
    let m = load_obj_mesh(b"f 1 2 3\nv 0 0 0\nv 1 0 0\nv 1 1 0\n").ok().unwrap();
    assert_eq!(m.mesh.faces, vec![f(0, 1, 2)]);
    assert!(m.rejected.is_empty());
}

#[test]
fn faces_that_do_not_fit_are_rejected() {
    let m = load_obj_mesh(b"v 0 0 0\nv 1 0 0\nv 1 1 0\nf 1 2 9\nf 1 1 2\nf 1 2 3\n").ok().unwrap();
    assert_eq!(m.mesh.faces, vec![f(0, 1, 2)]);
    assert_eq!(m.rejected, vec![f(0, 1, 8), f(0, 0, 1)]);
    assert_eq!(faces_of(&m.material_info, b"Default").len(), 3);
}

#[test]
fn repeated_face_is_kept_once() {
    let m = load_obj_mesh(b"v 0 0 0\nv 1 0 0\nv 1 1 0\nf 1 2 3\nf 1 2 3\nf 2 3 1\n").ok().unwrap();
    assert_eq!(m.mesh.faces, vec![f(0, 1, 2), f(1, 2, 0)]);
}

#[test]
fn mtllib_names_are_a_set() {
    let m = load_obj_mesh(b"mtllib a.mtl\nmtllib b.mtl\nmtllib a.mtl\n").ok().unwrap();
    assert_eq!(m.material_info.material_libs, vec![b"a.mtl".to_vec(), b"b.mtl".to_vec()]);
}

#[test]
fn obj_errors_carry_line_numbers() {
    assert_eq!(load_obj_mesh(b"v 1 2 3\nv 1 2\n").err(), Some(ObjError::LineParse(2)));
    assert_eq!(load_obj_mesh(b"v 1 2 x\n").err(), Some(ObjError::LineParse(1)));
    assert_eq!(load_obj_mesh(b"\n\nf 1 2 3 4 5\n").err(), Some(ObjError::NotTriangularMesh(3)));
    assert_eq!(load_obj_mesh(b"f 0 1 2\n").err(), Some(ObjError::LineParse(1)));
    assert_eq!(load_obj_mesh(b"f 1 2\n").err(), Some(ObjError::LineParse(1)));
    assert_eq!(load_obj_mesh(b"f 1 2 3 x\n").err(), Some(ObjError::LineParse(1)));
    assert_eq!(load_obj_mesh(b"f 1 2 3 /4\n").err(), Some(ObjError::LineParse(1)));
    assert_eq!(load_obj_mesh(b"usemtl \n").err(), Some(ObjError::LineParse(1)));
    assert_eq!(load_obj_mesh(b"mtllib\t\n").err(), None);
    assert_eq!(load_obj_mesh(b"vt\n").err(), None);
}

#[test]
fn reading_twice_gives_the_same_result() {
    let data = b"mtllib m.mtl\nv 0 0 0\nv 1 0 0\nv 1 1 0\nusemtl b\nf 1 2 3\nusemtl a\nf 3 2 1\n";
    let a = load_obj_mesh(data).ok().unwrap();
    let b = load_obj_mesh(data).ok().unwrap();
    assert_eq!(a.mesh.faces, b.mesh.faces);
    let names = |m: &web_geo_viewer::obj::ObjMesh| {
        m.material_info.surfaces.iter().map(|s| s.0.clone()).collect::<Vec<_>>()
    };
    assert_eq!(names(&a), names(&b));
    assert_eq!(names(&a), vec![b"Default".to_vec(), b"b".to_vec(), b"a".to_vec()]);
    for i in 0..3 {
        assert_eq!(text(&a.mesh.vertices[i].x), text(&b.mesh.vertices[i].x));
    }
}

#[test]
fn obj_points_reads_only_vertices() {
    let ps = load_obj_points(b"v 1 2 3\nf 1 2 3\nv -4.5e1 inf NaN\n").ok().unwrap();
    assert_eq!(ps.len(), 2);
    assert_eq!(text(&ps[1].x), b"-4.5e1");
    assert_eq!(text(&ps[1].y), b"inf");
    assert_eq!(text(&ps[1].z), b"NaN");
    assert_eq!(load_obj_points(b"v 1 2 .\n").err(), Some(ObjError::LineParse(1)));
}

#[test]
fn mtl_defaults_and_equals_sign() {
    let ms = load_mtl(b"newmtl a\nnewmtl b\nKd = 0.1 0.2 0.3\n").ok().unwrap();
    assert_eq!(ms.len(), 2);
    assert_eq!(ms[0].0, b"a".to_vec());
    assert_eq!(text(&ms[0].1.diffuse_color.x), b"0.8");
    assert_eq!(text(&ms[0].1.diffuse_intensity), b"0.5");
    assert_eq!(text(&ms[0].1.specular_intensity), b"0.5");
    assert_eq!(ms[0].1.texture_name, None);
    assert_eq!(text(&ms[1].1.diffuse_color.x), b"0.1");
    assert_eq!(text(&ms[1].1.diffuse_color.z), b"0.3");
}

#[test]
fn newmtl_again_resets_the_material() {
    let ms = load_mtl(b"newmtl a\nNs 7\nnewmtl b\nnewmtl a\n").ok().unwrap();
    assert_eq!(ms.len(), 2);
    assert_eq!(text(&ms[0].1.specular_intensity), b"0.5");
}

#[test]
fn mtl_errors() {
    assert_eq!(load_mtl(b"Kd 1 1 1\n").err(), Some(MtlError::NoMaterialError(1)));
    assert_eq!(load_mtl(b"# c\nmap_Kd t.png\n").err(), Some(MtlError::NoMaterialError(2)));
    assert_eq!(load_mtl(b"newmtl a\nKd 1 x 1\n").err(), Some(MtlError::LineParse(2)));
    assert_eq!(load_mtl(b"newmtl a\nKd =\n").err(), Some(MtlError::LineParse(2)));
    assert_eq!(load_mtl(b"illum 2\nnewmtl a\nNs x\n").err(), Some(MtlError::LineParse(3)));
    assert_eq!(load_mtl(b"newmtl a\nmap_Kd \n").err(), Some(MtlError::LineParse(2)));
    assert_eq!(load_mtl(b"newmtl \n").err(), Some(MtlError::LineParse(1)));
    // An unknown directive is ignored.
    assert_eq!(load_mtl(b"illum 2\nnewmtl a\nKs 1 1 1\n").ok().unwrap().len(), 1);
}
