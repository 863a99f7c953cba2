//! What to do with a file that the user hands over: which reader its
//! extension calls for, and how a read mesh is prepared for drawing.
use vstd::prelude::*;
use crate::model::{MaterialInfo, Mesh, face_fits};
use crate::render_input::{
    MeshContainer, divide_mesh_by_materials, divide_mesh_by_materials_per_wedge, is_per_wedge,
    member_indices, uses_per_wedge_uvs, wedge_indices, wedge_vertices,
};
use crate::text::{bytes_eq, to_lower};
use crate::model::points_view;

verus! {

#[derive(Clone, Copy, Debug, PartialEq, Eq, Structural)]
pub enum ImageFormat {
    Png,
    Jpeg,
    Gif,
    WebP,
    Pnm,
    Tiff,
    Tga,
    Dds,
    Bmp,
    Ico,
    Hdr,
}

#[derive(Clone, Copy, Debug, PartialEq, Eq, Structural)]
pub enum FileKind {
    Image(ImageFormat),
    Ply,
    Obj,
    Mtl,
    Other,
}

pub open spec fn lower_seq(s: Seq<u8>) -> Seq<u8> {
    s.map_values(|b: u8| to_lower(b))
}

/// The image format that a lower-case extension names.
pub open spec fn image_format_of(e: Seq<u8>) -> Option<ImageFormat> {
    if e == seq![112u8, 110u8, 103u8] {
        Some(ImageFormat::Png)
    } else if e == seq![106u8, 112u8, 103u8] {
        Some(ImageFormat::Jpeg)
    } else if e == seq![103u8, 105u8, 102u8] {
        Some(ImageFormat::Gif)
    } else if e == seq![119u8, 101u8, 98u8, 112u8] {
        Some(ImageFormat::WebP)
    } else if e == seq![112u8, 110u8, 109u8] {
        Some(ImageFormat::Pnm)
    } else if e == seq![116u8, 105u8, 102u8, 102u8] {
        Some(ImageFormat::Tiff)
    } else if e == seq![116u8, 103u8, 97u8] {
        Some(ImageFormat::Tga)
    } else if e == seq![100u8, 100u8, 115u8] {
        Some(ImageFormat::Dds)
    } else if e == seq![98u8, 109u8, 112u8] {
        Some(ImageFormat::Bmp)
    } else if e == seq![105u8, 99u8, 111u8] {
        Some(ImageFormat::Ico)
    } else if e == seq![104u8, 100u8, 114u8] {
        Some(ImageFormat::Hdr)
    } else {
        None
    }
}

/// The kind of a file with extension `ext`: image extensions in any case,
/// mesh and material extensions in lower case.
pub open spec fn kind_of(ext: Seq<u8>) -> FileKind {
    match image_format_of(lower_seq(ext)) {
        Some(f) => FileKind::Image(f),
        None => if ext == seq![112u8, 108u8, 121u8] {
            FileKind::Ply
        } else if ext == seq![111u8, 98u8, 106u8] {
            FileKind::Obj
        } else if ext == seq![109u8, 116u8, 108u8] {
            FileKind::Mtl
        } else {
            FileKind::Other
        },
    }
}

fn is(e: &[u8], lit: &[u8]) -> (r: bool)
    ensures
        r == (e@ == lit@),
{
    bytes_eq(e, lit)
}

fn string_to_format(e: &[u8]) -> (r: Option<ImageFormat>)
    ensures
        r == image_format_of(e@),
{
    let png: [u8; 3] = [112u8, 110u8, 103u8];
    let jpg: [u8; 3] = [106u8, 112u8, 103u8];
    let gif: [u8; 3] = [103u8, 105u8, 102u8];
    let webp: [u8; 4] = [119u8, 101u8, 98u8, 112u8];
    let pnm: [u8; 3] = [112u8, 110u8, 109u8];
    let tiff: [u8; 4] = [116u8, 105u8, 102u8, 102u8];
    let tga: [u8; 3] = [116u8, 103u8, 97u8];
    let dds: [u8; 3] = [100u8, 100u8, 115u8];
    let bmp: [u8; 3] = [98u8, 109u8, 112u8];
    let ico: [u8; 3] = [105u8, 99u8, 111u8];
    let hdr: [u8; 3] = [104u8, 100u8, 114u8];
    assert(png@ =~= seq![112u8, 110u8, 103u8]);
    assert(jpg@ =~= seq![106u8, 112u8, 103u8]);
    assert(gif@ =~= seq![103u8, 105u8, 102u8]);
    assert(webp@ =~= seq![119u8, 101u8, 98u8, 112u8]);
    assert(pnm@ =~= seq![112u8, 110u8, 109u8]);
    assert(tiff@ =~= seq![116u8, 105u8, 102u8, 102u8]);
    assert(tga@ =~= seq![116u8, 103u8, 97u8]);
    assert(dds@ =~= seq![100u8, 100u8, 115u8]);
    assert(bmp@ =~= seq![98u8, 109u8, 112u8]);
    assert(ico@ =~= seq![105u8, 99u8, 111u8]);
    assert(hdr@ =~= seq![104u8, 100u8, 114u8]);
    if is(e, png.as_slice()) {
        Some(ImageFormat::Png)
    } else if is(e, jpg.as_slice()) {
        Some(ImageFormat::Jpeg)
    } else if is(e, gif.as_slice()) {
        Some(ImageFormat::Gif)
    } else if is(e, webp.as_slice()) {
        Some(ImageFormat::WebP)
    } else if is(e, pnm.as_slice()) {
        Some(ImageFormat::Pnm)
    } else if is(e, tiff.as_slice()) {
        Some(ImageFormat::Tiff)
    } else if is(e, tga.as_slice()) {
        Some(ImageFormat::Tga)
    } else if is(e, dds.as_slice()) {
        Some(ImageFormat::Dds)
    } else if is(e, bmp.as_slice()) {
        Some(ImageFormat::Bmp)
    } else if is(e, ico.as_slice()) {
        Some(ImageFormat::Ico)
    } else if is(e, hdr.as_slice()) {
        Some(ImageFormat::Hdr)
    } else {
        None
    }
}

fn lowercase(s: &[u8]) -> (r: Vec<u8>)
    ensures
        r@ == lower_seq(s@),
{
    let mut r: Vec<u8> = Vec::new();
    let mut i: usize = 0;
    while i < s.len()
        invariant
            i <= s@.len(),
            r@ == lower_seq(s@).take(i as int),
        decreases s@.len() - i,
    {
        let b = s[i];
        let l = if 65u8 <= b && b <= 90u8 {
            b + 32
        } else {
            b
        };
        r.push(l);
        assert(lower_seq(s@).take(i + 1) =~= lower_seq(s@).take(i as int).push(l));
        i = i + 1;
    }
    assert(lower_seq(s@).take(s@.len() as int) =~= lower_seq(s@));
    r
}

/// Which reader a file with extension `ext` goes to.
pub fn file_kind(ext: &[u8]) -> (r: FileKind)
    ensures
        r == kind_of(ext@),
{
    let lower = lowercase(ext);
    match string_to_format(lower.as_slice()) {
        Some(f) => FileKind::Image(f),
        None => {
            let ply: [u8; 3] = [112u8, 108u8, 121u8];
            let obj: [u8; 3] = [111u8, 98u8, 106u8];
            let mtl: [u8; 3] = [109u8, 116u8, 108u8];
            assert(ply@ =~= seq![112u8, 108u8, 121u8]);
            assert(obj@ =~= seq![111u8, 98u8, 106u8]);
            assert(mtl@ =~= seq![109u8, 116u8, 108u8]);
            if is(ext, ply.as_slice()) {
                FileKind::Ply
            } else if is(ext, obj.as_slice()) {
                FileKind::Obj
            } else if is(ext, mtl.as_slice()) {
                FileKind::Mtl
            } else {
                FileKind::Other
            }
        },
    }
}

fn all_faces_fit(mesh: &Mesh) -> (r: bool)
    ensures
        r == forall|i: int| 0 <= i < mesh@.faces.len() ==> face_fits(#[trigger] mesh@.faces[i], mesh@.vertices.len()),
{
    let n = mesh.vertices.len();
    let mut i: usize = 0;
    while i < mesh.faces.len()
        invariant
            i <= mesh@.faces.len(),
            n == mesh@.vertices.len(),
            forall|j: int| 0 <= j < i ==> face_fits(#[trigger] mesh@.faces[j], mesh@.vertices.len()),
        decreases mesh@.faces.len() - i,
    {
        if !crate::model::face_fits_exec(mesh.faces[i], n) {
            return false;
        }
        i = i + 1;
    }
    true
}

/// The draw data of a read mesh: nothing for a mesh without vertices; a
/// vertex per face corner where there is a texture coordinate per face
/// corner (and every face fits the vertices); else the vertices as they
/// are.
pub fn prepare_mesh(mesh: &Mesh, info: &MaterialInfo) -> (r: Option<MeshContainer>)
    ensures
        mesh@.vertices.len() == 0 <==> r is None,
        r matches Some(c) ==> {
            let wedge = is_per_wedge(mesh@.faces.len(), info@.uv.len()) && forall|i: int|
                0 <= i < mesh@.faces.len() ==> face_fits(#[trigger] mesh@.faces[i], mesh@.vertices.len());
            &&& c.visible
            &&& wedge ==> points_view(c.vertices@) == wedge_vertices(mesh@.vertices, mesh@.faces)
            &&& !wedge ==> points_view(c.vertices@) == mesh@.vertices
            &&& (wedge || info@.surfaces.len() > 0) ==> c.surfaces@.len() == info@.surfaces.len()
            &&& (wedge || info@.surfaces.len() > 0) ==> forall|s: int|
                0 <= s < c.surfaces@.len() ==> {
                    &&& (#[trigger] c.surfaces@[s]).indices@ == if wedge {
                        wedge_indices(mesh@.faces, info@.surfaces[s].1.faces, mesh@.faces.len() as int)
                    } else {
                        member_indices(mesh@.faces, info@.surfaces[s].1.faces, mesh@.faces.len() as int)
                    }
                    &&& points_view(c.surfaces@[s].uvs@) == info@.uv
                    &&& c.surfaces@[s].material_name matches Some(n) && n@ == info@.surfaces[s].0
                }
            &&& (!wedge && info@.surfaces.len() == 0) ==> {
                &&& c.surfaces@.len() == 1
                &&& c.surfaces@[0].indices@ == member_indices(
                    mesh@.faces,
                    mesh@.faces,
                    mesh@.faces.len() as int,
                )
                &&& c.surfaces@[0].uvs@.len() == 0
                &&& c.surfaces@[0].material_name is None
            }
        },
{
    if mesh.vertices.len() == 0 {
        return None;
    }
    if uses_per_wedge_uvs(mesh, info) && all_faces_fit(mesh) {
        Some(divide_mesh_by_materials_per_wedge(mesh, info))
    } else {
        Some(divide_mesh_by_materials(mesh, info))
    }
}

} // verus!
