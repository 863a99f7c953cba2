use web_geo_viewer::loader::{file_kind, prepare_mesh, FileKind, ImageFormat};
use web_geo_viewer::model::{Face3, Scalar};
use web_geo_viewer::obj::load_obj_mesh;
use web_geo_viewer::ply::load_ply;
use web_geo_viewer::render_input::{
    divide_mesh_by_materials, divide_mesh_by_materials_per_wedge, surface_indices,
    uses_per_wedge_uvs,
};

fn text(s: &Scalar) -> &[u8] {
    match s {
        Scalar::Decimal(t) => t.as_slice(),
        _ => panic!("not decimal text"),
    }
}

#[test]
fn extensions_choose_readers() {
    assert_eq!(file_kind(b"ply"), FileKind::Ply);
    assert_eq!(file_kind(b"obj"), FileKind::Obj);
    assert_eq!(file_kind(b"mtl"), FileKind::Mtl);
    assert_eq!(file_kind(b"OBJ"), FileKind::Other);
    assert_eq!(file_kind(b"PNG"), FileKind::Image(ImageFormat::Png));
    assert_eq!(file_kind(b"Jpg"), FileKind::Image(ImageFormat::Jpeg));
    assert_eq!(file_kind(b"tiff"), FileKind::Image(ImageFormat::Tiff));
    assert_eq!(file_kind(b"hdr"), FileKind::Image(ImageFormat::Hdr));
    assert_eq!(file_kind(b"stl"), FileKind::Other);
    assert_eq!(file_kind(b""), FileKind::Other);
}

#[test]
fn per_vertex_division_keeps_vertices_and_splits_indices() {
    let data = b"v 0 0 0\nv 1 0 0\nv 1 1 0\nv 0 1 0\nvt 0 0\nf 1 2 3\nusemtl m\nf 1 3 4\n";
    let m = load_obj_mesh(data).ok().unwrap();
    assert!(!uses_per_wedge_uvs(&m.mesh, &m.material_info));
    let c = divide_mesh_by_materials(&m.mesh, &m.material_info);
    assert_eq!(c.vertices.len(), 4);
    assert_eq!(c.surfaces.len(), 2);
    assert_eq!(c.surfaces[0].indices, vec![0, 1, 2]);
    assert_eq!(c.surfaces[1].indices, vec![0, 2, 3]);
    assert_eq!(c.surfaces[1].material_name, Some(b"m".to_vec()));
    assert_eq!(c.surfaces[1].uvs.len(), 1);
    assert!(c.visible);
}

#[test]
fn per_wedge_division_gives_each_corner_a_vertex() {
    let data = b"v 0 0 0\nv 1 0 0\nv 1 1 0\nv 0 1 0\nvt 0 0\nvt 1 0\nvt 1 1\nvt 0 0\nvt 1 1\nvt 0 1\nf 1 2 3\nusemtl m\nf 1 3 4\n";
    let m = load_obj_mesh(data).ok().unwrap();
    assert!(uses_per_wedge_uvs(&m.mesh, &m.material_info));
    let c = divide_mesh_by_materials_per_wedge(&m.mesh, &m.material_info);
    assert_eq!(c.vertices.len(), 6);
    assert_eq!(text(&c.vertices[3].x), b"0");
    assert_eq!(text(&c.vertices[4].x), b"1");
    assert_eq!(text(&c.vertices[5].y), b"1");
    assert_eq!(c.surfaces[0].indices, vec![0, 1, 2]);
    assert_eq!(c.surfaces[1].indices, vec![3, 4, 5]);
    assert_eq!(c.surfaces[1].uvs.len(), 6);
}

#[test]
fn prepare_mesh_follows_the_uv_count() {
    let none = load_obj_mesh(b"vt 0 0\n").ok().unwrap();
    assert!(prepare_mesh(&none.mesh, &none.material_info).is_none());
    let mut ply = String::from("ply\nformat ascii 1.0\nelement vertex 3\nproperty float x\nproperty float y\nproperty float z\n");
    ply.push_str("element face 1\nproperty list uchar int vertex_indices\nend_header\n0 0 0\n1 0 0\n0 1 0\n3 2 1 0\n");
    let m = load_ply(ply.as_bytes(), b"t.ply").ok().unwrap();
    let c = prepare_mesh(&m.mesh, &m.material_info).unwrap();
    assert_eq!(c.vertices.len(), 3);
    assert_eq!(c.surfaces[0].indices, vec![2, 1, 0]);
}

#[test]
fn surface_indices_follow_mesh_order() {
    let faces = vec![Face3 { a: 0, b: 1, c: 2 }, Face3 { a: 2, b: 3, c: 0 }, Face3 { a: 1, b: 2, c: 3 }];
    let members = vec![Face3 { a: 1, b: 2, c: 3 }, Face3 { a: 0, b: 1, c: 2 }];
    assert_eq!(surface_indices(&faces, &members), vec![0, 1, 2, 1, 2, 3]);
}
