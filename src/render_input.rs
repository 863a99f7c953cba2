//! The index and vertex sequences that a renderer draws from a read mesh:
//! one index sequence per surface, and for per-wedge texture coordinates a
//! vertex for every face corner.
use vstd::prelude::*;
use crate::model::{
    Face3, MaterialInfo, Mesh, Point3, Point3Model, copy_points, face_fits, lemma_points_view_push, points_view,
};
use crate::text::{
    copy_range,
};

verus! {

/// What one draw call needs: indices into the vertices, the texture
/// coordinates (empty where there are none) and the material's name.
pub struct MeshSurface {
    pub indices: Vec<usize>,
    pub uvs: Vec<Point3>,
    pub material_name: Option<Vec<u8>>,
}

/// The vertices of a mesh as a renderer takes them, and its surfaces.
pub struct MeshContainer {
    pub vertices: Vec<Point3>,
    pub surfaces: Vec<MeshSurface>,
    pub visible: bool,
}

/// The corner `k` (0, 1 or 2) of `f`.
pub open spec fn corner(f: Face3, k: int) -> usize {
    if k == 0 {
        f.a
    } else if k == 1 {
        f.b
    } else {
        f.c
    }
}

/// The corners of the first `k` faces that belong to `members`, in mesh
/// order.
pub open spec fn member_indices(faces: Seq<Face3>, members: Seq<Face3>, k: int) -> Seq<usize>
    decreases k,
{
    if k <= 0 {
        seq![]
    } else {
        let f = faces[k - 1];
        member_indices(faces, members, k - 1) + if members.contains(f) {
            seq![f.a, f.b, f.c]
        } else {
            seq![]
        }
    }
}

/// The positions of the corners of the first `k` faces that belong to
/// `members`, where face `i` has its own vertices `3i`, `3i + 1` and
/// `3i + 2`.
pub open spec fn wedge_indices(faces: Seq<Face3>, members: Seq<Face3>, k: int) -> Seq<usize>
    decreases k,
{
    if k <= 0 {
        seq![]
    } else {
        let i = (k - 1) as usize;
        wedge_indices(faces, members, k - 1) + if members.contains(faces[k - 1]) {
            seq![(3 * i) as usize, (3 * i + 1) as usize, (3 * i + 2) as usize]
        } else {
            seq![]
        }
    }
}

/// A vertex for every face corner, in face order.
pub open spec fn wedge_vertices(vertices: Seq<Point3Model>, faces: Seq<Face3>) -> Seq<Point3Model> {
    Seq::new(3 * faces.len(), |j: int| vertices[corner(faces[j / 3], j % 3) as int])
}

/// Texture coordinates go with the corners of the faces, three per face,
/// rather than with the vertices.
pub open spec fn is_per_wedge(mesh_faces: nat, uv_len: nat) -> bool {
    uv_len == 3 * mesh_faces
}

pub fn uses_per_wedge_uvs(mesh: &Mesh, info: &MaterialInfo) -> (r: bool)
    ensures
        r == is_per_wedge(mesh@.faces.len(), info@.uv.len()),
{
    info.uv.len() / 3 == mesh.faces.len() && info.uv.len() % 3 == 0
}

fn contains_face(v: &Vec<Face3>, f: Face3) -> (r: bool)
    ensures
        r == v@.contains(f),
{
    let mut i: usize = 0;
    while i < v.len()
        invariant
            i <= v@.len(),
            forall|j: int| 0 <= j < i ==> v@[j] != f,
        decreases v@.len() - i,
    {
        if v[i] == f {
            return true;
        }
        i = i + 1;
    }
    false
}

/// The corners of the faces of `faces` that belong to `members`.
pub fn surface_indices(faces: &Vec<Face3>, members: &Vec<Face3>) -> (r: Vec<usize>)
    ensures
        r@ == member_indices(faces@, members@, faces@.len() as int),
{
    let mut r: Vec<usize> = Vec::new();
    let mut k: usize = 0;
    while k < faces.len()
        invariant
            k <= faces@.len(),
            r@ == member_indices(faces@, members@, k as int),
        decreases faces@.len() - k,
    {
        let f = faces[k];
        let ghost before = r@;
        if contains_face(members, f) {
            r.push(f.a);
            r.push(f.b);
            r.push(f.c);
            assert(r@ =~= before + seq![f.a, f.b, f.c]);
        } else {
            assert(r@ =~= before + seq![]);
        }
        k = k + 1;
    }
    r
}

/// The positions of the corners of the faces that belong to `members`,
/// face `i` having the vertices `3i` to `3i + 2`.
pub fn surface_wedge_indices(faces: &Vec<Face3>, members: &Vec<Face3>) -> (r: Vec<usize>)
    requires
        3 * faces@.len() <= usize::MAX,
    ensures
        r@ == wedge_indices(faces@, members@, faces@.len() as int),
{
    let mut r: Vec<usize> = Vec::new();
    let mut k: usize = 0;
    while k < faces.len()
        invariant
            k <= faces@.len(),
            3 * faces@.len() <= usize::MAX,
            r@ == wedge_indices(faces@, members@, k as int),
        decreases faces@.len() - k,
    {
        let ghost before = r@;
        if contains_face(members, faces[k]) {
            r.push(3 * k);
            r.push(3 * k + 1);
            r.push(3 * k + 2);
            assert(r@ =~= before + seq![(3 * k) as usize, (3 * k + 1) as usize, (3 * k + 2) as usize]);
        } else {
            assert(r@ =~= before + seq![]);
        }
        k = k + 1;
    }
    r
}

/// The draw data of a mesh whose texture coordinates, if any, go with its
/// vertices: the vertices as they are, and per surface the corners of its
/// faces, all texture coordinates and the material's name. A mesh without
/// surfaces is drawn whole as one surface without a name.
pub fn divide_mesh_by_materials(mesh: &Mesh, info: &MaterialInfo) -> (r: MeshContainer)
    ensures
        points_view(r.vertices@) == mesh@.vertices,
        r.visible,
        info@.surfaces.len() > 0 ==> {
            &&& r.surfaces@.len() == info@.surfaces.len()
            &&& forall|s: int|
                0 <= s < r.surfaces@.len() ==> {
                    &&& (#[trigger] r.surfaces@[s]).indices@ == member_indices(
                        mesh@.faces,
                        info@.surfaces[s].1.faces,
                        mesh@.faces.len() as int,
                    )
                    &&& points_view(r.surfaces@[s].uvs@) == info@.uv
                    &&& r.surfaces@[s].material_name matches Some(n) && n@ == info@.surfaces[s].0
                }
        },
        info@.surfaces.len() == 0 ==> {
            &&& r.surfaces@.len() == 1
            &&& r.surfaces@[0].indices@ == member_indices(
                mesh@.faces,
                mesh@.faces,
                mesh@.faces.len() as int,
            )
            &&& r.surfaces@[0].uvs@.len() == 0
            &&& r.surfaces@[0].material_name is None
        },
{
    let vertices = copy_points(&mesh.vertices);
    let mut surfaces: Vec<MeshSurface> = Vec::new();
    if info.surfaces.len() == 0 {
        let all = surface_indices(&mesh.faces, &mesh.faces);
        surfaces.push(MeshSurface { indices: all, uvs: Vec::new(), material_name: None });
        return MeshContainer { vertices, surfaces, visible: true };
    }
    let mut s: usize = 0;
    while s < info.surfaces.len()
        invariant
            s <= info.surfaces@.len(),
            surfaces@.len() == s,
            forall|t: int|
                0 <= t < s ==> {
                    &&& (#[trigger] surfaces@[t]).indices@ == member_indices(
                        mesh@.faces,
                        info@.surfaces[t].1.faces,
                        mesh@.faces.len() as int,
                    )
                    &&& points_view(surfaces@[t].uvs@) == info@.uv
                    &&& surfaces@[t].material_name matches Some(n) && n@ == info@.surfaces[t].0
                },
        decreases info.surfaces@.len() - s,
    {
        let entry = &info.surfaces[s];
        let indices = surface_indices(&mesh.faces, &entry.1.faces);
        let uvs = copy_points(&info.uv);
        let name = copy_range(entry.0.as_slice(), 0, entry.0.len());
        assert(name@ =~= entry.0@);
        surfaces.push(MeshSurface { indices, uvs, material_name: Some(name) });
        s = s + 1;
    }
    MeshContainer { vertices, surfaces, visible: true }
}

/// The draw data of a mesh with a texture coordinate for every face corner:
/// each face gets three vertices of its own, copied from its corners, so
/// that vertices and texture coordinates line up one to one; per surface,
/// the positions of its faces' corners, all texture coordinates and the
/// material's name.
pub fn divide_mesh_by_materials_per_wedge(mesh: &Mesh, info: &MaterialInfo) -> (r: MeshContainer)
    requires
        is_per_wedge(mesh@.faces.len(), info@.uv.len()),
        forall|i: int| 0 <= i < mesh@.faces.len() ==> face_fits(#[trigger] mesh@.faces[i], mesh@.vertices.len()),
    ensures
        points_view(r.vertices@) == wedge_vertices(mesh@.vertices, mesh@.faces),
        r.visible,
        r.surfaces@.len() == info@.surfaces.len(),
        forall|s: int|
            0 <= s < r.surfaces@.len() ==> {
                &&& (#[trigger] r.surfaces@[s]).indices@ == wedge_indices(
                    mesh@.faces,
                    info@.surfaces[s].1.faces,
                    mesh@.faces.len() as int,
                )
                &&& points_view(r.surfaces@[s].uvs@) == info@.uv
                &&& r.surfaces@[s].material_name matches Some(n) && n@ == info@.surfaces[s].0
            },
{
    let ghost want = wedge_vertices(mesh@.vertices, mesh@.faces);
    let mut vertices: Vec<Point3> = Vec::new();
    let mut k: usize = 0;
    while k < mesh.faces.len()
        invariant
            k <= mesh.faces@.len(),
            3 * mesh@.faces.len() == info@.uv.len(),
            want == wedge_vertices(mesh@.vertices, mesh@.faces),
            forall|i: int| 0 <= i < mesh@.faces.len() ==> face_fits(#[trigger] mesh@.faces[i], mesh@.vertices.len()),
            points_view(vertices@) == want.take(3 * k as int),
        decreases mesh.faces@.len() - k,
    {
        let f = mesh.faces[k];
        assert(face_fits(mesh@.faces[k as int], mesh@.vertices.len()));
        let ghost before = vertices@;
        let pa = mesh.vertices[f.a].copy();
        let pb = mesh.vertices[f.b].copy();
        let pc = mesh.vertices[f.c].copy();
        proof {
            lemma_points_view_push(vertices@, pa);
            lemma_points_view_push(vertices@.push(pa), pb);
            lemma_points_view_push(vertices@.push(pa).push(pb), pc);
        }
        vertices.push(pa);
        vertices.push(pb);
        vertices.push(pc);
        assert(want.take(3 * k as int + 3) =~= want.take(3 * k as int).push(pa@).push(pb@).push(pc@)) by {
            assert((3 * k) / 3 == k && (3 * k) % 3 == 0);
            assert((3 * k + 1) / 3 == k && (3 * k + 1) % 3 == 1);
            assert((3 * k + 2) / 3 == k && (3 * k + 2) % 3 == 2);
        };
        k = k + 1;
    }
    assert(want.take(3 * mesh@.faces.len() as int) =~= want);
    let ul = info.uv.len();
    assert(3 * mesh@.faces.len() == ul);
    let mut surfaces: Vec<MeshSurface> = Vec::new();
    let mut s: usize = 0;
    while s < info.surfaces.len()
        invariant
            s <= info.surfaces@.len(),
            surfaces@.len() == s,
            3 * mesh@.faces.len() <= usize::MAX,
            forall|t: int|
                0 <= t < s ==> {
                    &&& (#[trigger] surfaces@[t]).indices@ == wedge_indices(
                        mesh@.faces,
                        info@.surfaces[t].1.faces,
                        mesh@.faces.len() as int,
                    )
                    &&& points_view(surfaces@[t].uvs@) == info@.uv
                    &&& surfaces@[t].material_name matches Some(n) && n@ == info@.surfaces[t].0
                },
        decreases info.surfaces@.len() - s,
    {
        let entry = &info.surfaces[s];
        let indices = surface_wedge_indices(&mesh.faces, &entry.1.faces);
        let uvs = copy_points(&info.uv);
        let name = copy_range(entry.0.as_slice(), 0, entry.0.len());
        assert(name@ =~= entry.0@);
        surfaces.push(MeshSurface { indices, uvs, material_name: Some(name) });
        s = s + 1;
    }
    MeshContainer { vertices, surfaces, visible: true }
}

} // verus!
