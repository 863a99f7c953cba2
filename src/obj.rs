//! Wavefront OBJ meshes.
use vstd::prelude::*;
use crate::model::{
    Face3, InfoModel, MaterialInfo, MaterialSurface, Mesh, MeshModel, Point3, Point3Model, Scalar, ScalarModel, SurfaceModel, empty_surface, face_fits, insert_face, insert_name, insert_uv, key_index, lemma_points_view_push, map_insert, points_view, set_insert, surfaces_view, info_wf, surface_wf,
    lemma_set_insert_wf, lemma_map_insert_wf, lemma_update_value_wf, lemma_push_new_key_wf,
    lemma_key_index_from,
};
use crate::text::{
    all_ascii, bytes_seq, copy_range, float_token, has_prefix, is_ascii, is_float_text, lemma_next_line_advances, line_at, next_line, next_line_start, parse_usize, split_words, starts_with, until, until_byte, usize_of, words,
};

verus! {

/// Why an OBJ file could not be read; line numbers start at 1. A face that
/// does not fit the vertices is no error: it is listed in
/// `ObjMesh::rejected`.
#[derive(Clone, Copy, Debug, PartialEq, Eq, Structural)]
pub enum ObjError {
    AccessFile,
    LineParse(usize),
    NotTriangularMesh(usize),
}

pub open spec fn usemtl_tag() -> Seq<u8> {
    seq![117u8, 115u8, 101u8, 109u8, 116u8, 108u8, 32u8]
}

pub open spec fn mtllib_tag() -> Seq<u8> {
    seq![109u8, 116u8, 108u8, 108u8, 105u8, 98u8, 32u8]
}

pub open spec fn v_tag() -> Seq<u8> {
    seq![118u8, 32u8]
}

pub open spec fn vt_tag() -> Seq<u8> {
    seq![118u8, 116u8, 32u8]
}

pub open spec fn f_tag() -> Seq<u8> {
    seq![102u8, 32u8]
}

/// The name of the surface that owns faces before any `usemtl`.
pub open spec fn default_name() -> Seq<u8> {
    seq![68u8, 101u8, 102u8, 97u8, 117u8, 108u8, 116u8]
}

pub open spec fn zero_text() -> Seq<u8> {
    seq![48u8]
}

/// The vertex index of a face group `v[/t[/n]]`, as written (1-based).
pub open spec fn group_vertex(g: Seq<u8>) -> Option<nat> {
    usize_of(until(g, 47u8))
}

/// The texture index of a face group, as written, where there is one.
pub open spec fn group_texture(g: Seq<u8>) -> Option<nat> {
    let p = until(g, 47u8).len();
    if p + 1 < g.len() {
        usize_of(until(g.subrange(p as int + 1, g.len() as int), 47u8))
    } else {
        None
    }
}

/// The 0-based index of a 1-based one; 0 has none.
pub open spec fn zero_based(i: Option<nat>) -> Option<usize> {
    match i {
        Some(v) => if v >= 1 {
            Some((v - 1) as usize)
        } else {
            None
        },
        None => None,
    }
}

/// An index that the line writes as 0, which no 1-based index can be.
pub open spec fn is_zero(i: Option<nat>) -> bool {
    i == Some(0nat)
}

/// The triangles that one `f` line yields: the first three groups, and
/// for a fourth group the triangle of the first, third and fourth; each
/// with its texture triangle where all three of its groups name one.
#[derive(Clone, Copy)]
pub struct FaceLine {
    pub tri: Face3,
    pub tri_uv: Option<Face3>,
    pub quad: Option<Face3>,
    pub quad_uv: Option<Face3>,
}

pub open spec fn uv_face(a: Option<usize>, b: Option<usize>, c: Option<usize>) -> Option<Face3> {
    if a is Some && b is Some && c is Some {
        Some(Face3 { a: a->0, b: b->0, c: c->0 })
    } else {
        None
    }
}

/// The meaning of the words of an `f` line, number `n`.
pub open spec fn face_line(w: Seq<Seq<u8>>, n: nat) -> Result<FaceLine, ObjError> {
    if w.len() < 4 || group_vertex(w[1]) is None || group_vertex(w[2]) is None || group_vertex(
        w[3],
    ) is None || (w.len() == 5 && group_vertex(w[4]) is None) {
        Err(ObjError::LineParse(n as usize))
    } else if w.len() > 5 {
        Err(ObjError::NotTriangularMesh(n as usize))
    } else {
        let d = if w.len() == 5 {
            group_vertex(w[4])
        } else {
            None
        };
        let dt = if w.len() == 5 {
            group_texture(w[4])
        } else {
            None
        };
        if is_zero(group_vertex(w[1])) || is_zero(group_vertex(w[2])) || is_zero(
            group_vertex(w[3]),
        ) || is_zero(group_texture(w[1])) || is_zero(group_texture(w[2])) || is_zero(
            group_texture(w[3]),
        ) || is_zero(d) || (d is Some && is_zero(dt)) {
            Err(ObjError::LineParse(n as usize))
        } else {
            let a = zero_based(group_vertex(w[1]))->0;
            let b = zero_based(group_vertex(w[2]))->0;
            let c = zero_based(group_vertex(w[3]))->0;
            let at = zero_based(group_texture(w[1]));
            let bt = zero_based(group_texture(w[2]));
            let ct = zero_based(group_texture(w[3]));
            let dz = zero_based(d);
            Ok(
                FaceLine {
                    tri: Face3 { a, b, c },
                    tri_uv: uv_face(at, bt, ct),
                    quad: if dz is Some {
                        Some(Face3 { a, b: c, c: dz->0 })
                    } else {
                        None
                    },
                    quad_uv: if dz is Some {
                        uv_face(at, ct, zero_based(dt))
                    } else {
                        None
                    },
                },
            )
        }
    }
}

/// What an OBJ file has given so far; `current` is the position of the
/// surface that new faces go to.
pub struct ObjState {
    pub vertices: Seq<Point3Model>,
    pub uv: Seq<Point3Model>,
    pub surfaces: Seq<(Seq<u8>, SurfaceModel)>,
    pub libs: Seq<Seq<u8>>,
    pub current: int,
}

pub open spec fn obj_start() -> ObjState {
    ObjState {
        vertices: seq![],
        uv: seq![],
        surfaces: seq![(default_name(), empty_surface())],
        libs: seq![],
        current: 0,
    }
}

/// Surface `i` with triangle `f` added, and its texture triangle `t` if any.
pub open spec fn surface_add(s: SurfaceModel, f: Face3, t: Option<Face3>) -> SurfaceModel {
    SurfaceModel {
        faces: set_insert(s.faces, f),
        uvs: match t {
            Some(t) => map_insert(s.uvs, f, t),
            None => s.uvs,
        },
        material: s.material,
    }
}

pub open spec fn add_face_line(s: SurfaceModel, fl: FaceLine) -> SurfaceModel {
    let s1 = surface_add(s, fl.tri, fl.tri_uv);
    match fl.quad {
        Some(q) => surface_add(s1, q, fl.quad_uv),
        None => s1,
    }
}

pub open spec fn decimal_or_zero(w: Seq<Seq<u8>>, i: int) -> ScalarModel {
    if w.len() > i && is_float_text(w[i]) {
        ScalarModel::Decimal(w[i])
    } else {
        ScalarModel::Decimal(zero_text())
    }
}

/// The effect of line number `n` of an OBJ file.
pub open spec fn obj_step(st: ObjState, line: Seq<u8>, n: nat) -> Result<ObjState, ObjError> {
    let w = words(line);
    if has_prefix(line, usemtl_tag()) {
        if w.len() > 1 && all_ascii(w[1]) {
            let i = key_index(st.surfaces, w[1]);
            if i >= 0 {
                Ok(ObjState { current: i, ..st })
            } else {
                Ok(
                    ObjState {
                        surfaces: st.surfaces.push((w[1], empty_surface())),
                        current: st.surfaces.len() as int,
                        ..st
                    },
                )
            }
        } else {
            Err(ObjError::LineParse(n as usize))
        }
    } else if has_prefix(line, mtllib_tag()) {
        if w.len() > 1 && all_ascii(w[1]) {
            Ok(ObjState { libs: set_insert(st.libs, w[1]), ..st })
        } else {
            Err(ObjError::LineParse(n as usize))
        }
    } else if has_prefix(line, v_tag()) {
        if w.len() >= 4 && is_float_text(w[1]) && is_float_text(w[2]) && is_float_text(w[3]) {
            Ok(
                ObjState {
                    vertices: st.vertices.push(
                        (
                            ScalarModel::Decimal(w[1]),
                            ScalarModel::Decimal(w[2]),
                            ScalarModel::Decimal(w[3]),
                        ),
                    ),
                    ..st
                },
            )
        } else {
            Err(ObjError::LineParse(n as usize))
        }
    } else if has_prefix(line, vt_tag()) {
        if w.len() >= 2 && is_float_text(w[1]) {
            Ok(
                ObjState {
                    uv: st.uv.push(
                        (ScalarModel::Decimal(w[1]), decimal_or_zero(w, 2), decimal_or_zero(w, 3)),
                    ),
                    ..st
                },
            )
        } else {
            Err(ObjError::LineParse(n as usize))
        }
    } else if has_prefix(line, f_tag()) {
        match face_line(w, n) {
            Ok(fl) => Ok(
                ObjState {
                    surfaces: st.surfaces.update(
                        st.current,
                        (st.surfaces[st.current].0, add_face_line(st.surfaces[st.current].1, fl)),
                    ),
                    ..st
                },
            ),
            Err(e) => Err(e),
        }
    } else {
        Ok(st)
    }
}

/// The lines of `data` from byte `pos` on, applied in turn to `st`; the line
/// at `pos` has number `n`.
pub open spec fn obj_run(data: Seq<u8>, pos: int, st: ObjState, n: nat) -> Result<
    ObjState,
    ObjError,
>
    decreases data.len() - pos via obj_run_decreases
{
    if pos < 0 || pos >= data.len() {
        Ok(st)
    } else {
        match obj_step(st, line_at(data, pos), n) {
            Ok(next) => obj_run(data, next_line_start(data, pos), next, n + 1),
            Err(e) => Err(e),
        }
    }
}

#[via_fn]
proof fn obj_run_decreases(data: Seq<u8>, pos: int, st: ObjState, n: nat) {
    if 0 <= pos < data.len() {
        lemma_next_line_advances(data, pos);
    }
}

/// The faces of all surfaces, surface by surface.
pub open spec fn all_faces(s: Seq<(Seq<u8>, SurfaceModel)>) -> Seq<Face3>
    decreases s.len(),
{
    if s.len() == 0 {
        seq![]
    } else {
        all_faces(s.drop_last()) + s.last().1.faces
    }
}

/// The faces of `fs` that fit a mesh of `n` vertices, in order.
pub open spec fn fitting(fs: Seq<Face3>, n: nat) -> Seq<Face3>
    decreases fs.len(),
{
    if fs.len() == 0 {
        seq![]
    } else if face_fits(fs.last(), n) {
        fitting(fs.drop_last(), n).push(fs.last())
    } else {
        fitting(fs.drop_last(), n)
    }
}

/// The faces of `fs` that do not fit a mesh of `n` vertices, in order.
pub open spec fn misfits(fs: Seq<Face3>, n: nat) -> Seq<Face3>
    decreases fs.len(),
{
    if fs.len() == 0 {
        seq![]
    } else if !face_fits(fs.last(), n) {
        misfits(fs.drop_last(), n).push(fs.last())
    } else {
        misfits(fs.drop_last(), n)
    }
}

/// A read OBJ file: the mesh, its surfaces and texture coordinates, and the
/// faces that could not join the mesh.
pub struct ObjMesh {
    pub mesh: Mesh,
    pub material_info: MaterialInfo,
    pub rejected: Vec<Face3>,
}

pub struct ObjModel {
    pub mesh: MeshModel,
    pub info: InfoModel,
    pub rejected: Seq<Face3>,
}

impl View for ObjMesh {
    type V = ObjModel;

    open spec fn view(&self) -> ObjModel {
        ObjModel { mesh: self.mesh@, info: self.material_info@, rejected: self.rejected@ }
    }
}

/// The result of a whole file: the faces join the mesh after the last line,
/// so that a face may name vertices that come after it.
pub open spec fn obj_finish(st: ObjState) -> ObjModel {
    let fs = all_faces(st.surfaces);
    ObjModel {
        mesh: MeshModel { vertices: st.vertices, faces: fitting(fs, st.vertices.len()) },
        info: InfoModel { uv: st.uv, surfaces: st.surfaces, material_libs: st.libs },
        rejected: misfits(fs, st.vertices.len()),
    }
}

pub open spec fn obj_model(data: Seq<u8>) -> Result<ObjModel, ObjError> {
    match obj_run(data, 0, obj_start(), 1) {
        Ok(st) => Ok(obj_finish(st)),
        Err(e) => Err(e),
    }
}

pub open spec fn as_nat(o: Option<usize>) -> Option<nat> {
    match o {
        Some(v) => Some(v as nat),
        None => None,
    }
}

/// Reads a face group `v[/t[/n]]`: its vertex index and, if written, its
/// texture index, both as written.
fn parse_group(g: &[u8]) -> (r: (Option<usize>, Option<usize>, usize))
    ensures
        as_nat(r.0) == group_vertex(g@),
        as_nat(r.1) == group_texture(g@),
        r.2 == until(g@, 47u8).len(),
{
    let p = until_byte(g, 47u8);
    let head = copy_range(g, 0, p);
    let v = parse_usize(head.as_slice());
    let t = if p < g.len() && p + 1 < g.len() {
        let rest = copy_range(g, p + 1, g.len());
        let q = until_byte(rest.as_slice(), 47u8);
        let tex = copy_range(rest.as_slice(), 0, q);
        parse_usize(tex.as_slice())
    } else {
        None
    };
    (v, t, p)
}

fn zero_index(o: Option<usize>) -> (r: bool)
    ensures
        r == is_zero(as_nat(o)),
{
    match o {
        Some(v) => v == 0,
        None => false,
    }
}

fn to_zero_based(o: Option<usize>) -> (r: Option<usize>)
    ensures
        r == zero_based(as_nat(o)),
{
    match o {
        Some(v) => if v >= 1 {
            Some(v - 1)
        } else {
            None
        },
        None => None,
    }
}

fn make_uv_face(a: Option<usize>, b: Option<usize>, c: Option<usize>) -> (r: Option<Face3>)
    ensures
        r == uv_face(a, b, c),
{
    match (a, b, c) {
        (Some(a), Some(b), Some(c)) => Some(Face3 { a, b, c }),
        _ => None,
    }
}

/// Reads the words of an `f` line, number `n`.
pub fn parse_face_line(w: &Vec<Vec<u8>>, n: usize) -> (r: Result<FaceLine, ObjError>)
    ensures
        r == face_line(bytes_seq(w@), n as nat),
{
    let ghost ws = bytes_seq(w@);
    if w.len() < 4 {
        return Err(ObjError::LineParse(n));
    }
    let (va, ta, _) = parse_group(w[1].as_slice());
    let (vb, tb, _) = parse_group(w[2].as_slice());
    let (vc, tc, _) = parse_group(w[3].as_slice());
    assert(ws[1] == w@[1]@ && ws[2] == w@[2]@ && ws[3] == w@[3]@);
    if va.is_none() || vb.is_none() || vc.is_none() {
        return Err(ObjError::LineParse(n));
    }
    if w.len() > 5 {
        return Err(ObjError::NotTriangularMesh(n));
    }
    let (d, dt) = if w.len() == 5 {
        let (gd, gdt, _) = parse_group(w[4].as_slice());
        assert(ws[4] == w@[4]@);
        if gd.is_none() {
            return Err(ObjError::LineParse(n));
        }
        (gd, gdt)
    } else {
        (None, None)
    };
    if zero_index(va) || zero_index(vb) || zero_index(vc) || zero_index(ta) || zero_index(tb)
        || zero_index(tc) || zero_index(d) || (d.is_some() && zero_index(dt)) {
        return Err(ObjError::LineParse(n));
    }
    let a = to_zero_based(va).unwrap();
    let b = to_zero_based(vb).unwrap();
    let c = to_zero_based(vc).unwrap();
    let at = to_zero_based(ta);
    let bt = to_zero_based(tb);
    let ct = to_zero_based(tc);
    let dz = to_zero_based(d);
    let quad = match dz {
        Some(dv) => Some(Face3 { a, b: c, c: dv }),
        None => None,
    };
    let quad_uv = match dz {
        Some(_) => make_uv_face(at, ct, to_zero_based(dt)),
        None => None,
    };
    Ok(FaceLine { tri: Face3 { a, b, c }, tri_uv: make_uv_face(at, bt, ct), quad, quad_uv })
}

/// The reader's state while it walks the lines of an OBJ file.
struct ObjBuilder {
    vertices: Vec<Point3>,
    info: MaterialInfo,
    current: usize,
}

impl View for ObjBuilder {
    type V = ObjState;

    closed spec fn view(&self) -> ObjState {
        ObjState {
            vertices: points_view(self.vertices@),
            uv: self.info@.uv,
            surfaces: self.info@.surfaces,
            libs: self.info@.material_libs,
            current: self.current as int,
        }
    }
}

impl ObjBuilder {
    spec fn wf(&self) -> bool {
        self.current < self.info.surfaces@.len()
    }
}

fn tag_bytes(bytes: &[u8]) -> (r: Vec<u8>)
    ensures
        r@ == bytes@,
{
    let r = copy_range(bytes, 0, bytes.len());
    assert(r@ =~= bytes@);
    r
}

/// Adds a triangle, and its texture triangle if any, to a surface.
fn surface_add_exec(s: &mut MaterialSurface, f: Face3, t: Option<Face3>)
    ensures
        final(s)@ == surface_add(old(s)@, f, t),
{
    insert_face(&mut s.faces, f);
    match t {
        Some(t) => insert_uv(&mut s.uvs, f, t),
        None => {},
    }
}

/// Applies one line of an OBJ file to the reader's state.
fn obj_line(b: &mut ObjBuilder, line: &[u8], n: usize) -> (r: Result<(), ObjError>)
    requires
        old(b).wf(),
    ensures
        final(b).wf(),
        match r {
            Ok(()) => obj_step(old(b)@, line@, n as nat) == Ok::<_, ObjError>(final(b)@),
            Err(e) => obj_step(old(b)@, line@, n as nat) == Err::<ObjState, _>(e),
        },
{
    let w = split_words(line);
    let ghost ws = bytes_seq(w@);
    let t_usemtl: [u8; 7] = [117u8, 115u8, 101u8, 109u8, 116u8, 108u8, 32u8];
    let t_mtllib: [u8; 7] = [109u8, 116u8, 108u8, 108u8, 105u8, 98u8, 32u8];
    let t_v: [u8; 2] = [118u8, 32u8];
    let t_vt: [u8; 3] = [118u8, 116u8, 32u8];
    let t_f: [u8; 2] = [102u8, 32u8];
    assert(t_usemtl@ =~= usemtl_tag());
    assert(t_mtllib@ =~= mtllib_tag());
    assert(t_v@ =~= v_tag());
    assert(t_vt@ =~= vt_tag());
    assert(t_f@ =~= f_tag());
    if starts_with(line, t_usemtl.as_slice()) {
        if w.len() > 1 && is_ascii(w[1].as_slice()) {
            assert(ws[1] == w@[1]@);
            match b.info.surface_index(w[1].as_slice()) {
                Some(i) => {
                    b.current = i;
                },
                None => {
                    let name = tag_bytes(w[1].as_slice());
                    let ghost before = b.info.surfaces@;
                    b.current = b.info.surfaces.len();
                    b.info.surfaces.push((name, MaterialSurface::new()));
                    assert(surfaces_view(b.info.surfaces@) =~= surfaces_view(before).push(
                        (ws[1], empty_surface()),
                    ));
                },
            }
            return Ok(());
        }
        return Err(ObjError::LineParse(n));
    }
    if starts_with(line, t_mtllib.as_slice()) {
        if w.len() > 1 && is_ascii(w[1].as_slice()) {
            assert(ws[1] == w@[1]@);
            insert_name(&mut b.info.material_libs, tag_bytes(w[1].as_slice()));
            return Ok(());
        }
        return Err(ObjError::LineParse(n));
    }
    if starts_with(line, t_v.as_slice()) {
        if w.len() >= 4 && float_token(w[1].as_slice()) && float_token(w[2].as_slice())
            && float_token(w[3].as_slice()) {
            assert(ws[1] == w@[1]@ && ws[2] == w@[2]@ && ws[3] == w@[3]@);
            let p = Point3 {
                x: Scalar::decimal(w[1].as_slice()),
                y: Scalar::decimal(w[2].as_slice()),
                z: Scalar::decimal(w[3].as_slice()),
            };
            proof {
                lemma_points_view_push(b.vertices@, p);
            }
            b.vertices.push(p);
            return Ok(());
        }
        return Err(ObjError::LineParse(n));
    }
    if starts_with(line, t_vt.as_slice()) {
        if w.len() >= 2 && float_token(w[1].as_slice()) {
            assert(ws[1] == w@[1]@);
            let zero: [u8; 1] = [48u8];
            assert(zero@ =~= zero_text());
            let y = if w.len() > 2 && float_token(w[2].as_slice()) {
                assert(ws[2] == w@[2]@);
                Scalar::decimal(w[2].as_slice())
            } else {
                Scalar::decimal(zero.as_slice())
            };
            let z = if w.len() > 3 && float_token(w[3].as_slice()) {
                assert(ws[3] == w@[3]@);
                Scalar::decimal(w[3].as_slice())
            } else {
                Scalar::decimal(zero.as_slice())
            };
            let p = Point3 { x: Scalar::decimal(w[1].as_slice()), y, z };
            proof {
                lemma_points_view_push(b.info.uv@, p);
            }
            b.info.uv.push(p);
            return Ok(());
        }
        return Err(ObjError::LineParse(n));
    }
    if starts_with(line, t_f.as_slice()) {
        let fl = match parse_face_line(&w, n) {
            Ok(fl) => fl,
            Err(e) => {
                return Err(e);
            },
        };
        let c = b.current;
        let ghost before = b.info.surfaces@;
        let (name, mut s) = b.info.surfaces.remove(c);
        surface_add_exec(&mut s, fl.tri, fl.tri_uv);
        match fl.quad {
            Some(q) => surface_add_exec(&mut s, q, fl.quad_uv),
            None => {},
        }
        b.info.surfaces.insert(c, (name, s));
        assert(surfaces_view(b.info.surfaces@) =~= surfaces_view(before).update(
            c as int,
            (surfaces_view(before)[c as int].0, add_face_line(surfaces_view(before)[c as int].1, fl)),
        ));
        return Ok(());
    }
    Ok(())
}

/// Joins the faces of every surface to `mesh`, in surface order, and
/// collects those that do not fit its vertices.
fn connect(surfaces: &Vec<(Vec<u8>, MaterialSurface)>, mesh: &mut Mesh, rejected: &mut Vec<Face3>)
    requires
        old(mesh)@.faces.len() == 0,
        old(rejected)@.len() == 0,
    ensures
        final(mesh)@.vertices == old(mesh)@.vertices,
        final(mesh)@.faces == fitting(all_faces(surfaces_view(surfaces@)), old(mesh)@.vertices.len()),
        final(rejected)@ == misfits(all_faces(surfaces_view(surfaces@)), old(mesh)@.vertices.len()),
{
    let ghost sv = surfaces_view(surfaces@);
    let ghost nv = mesh@.vertices.len();
    let mut i: usize = 0;
    assert(sv.take(0) =~= seq![]);
    while i < surfaces.len()
        invariant
            i <= surfaces@.len(),
            sv == surfaces_view(surfaces@),
            nv == old(mesh)@.vertices.len(),
            mesh@.vertices == old(mesh)@.vertices,
            mesh@.faces == fitting(all_faces(sv.take(i as int)), nv),
            rejected@ == misfits(all_faces(sv.take(i as int)), nv),
        decreases surfaces@.len() - i,
    {
        let fs = &surfaces[i].1.faces;
        let ghost pre = all_faces(sv.take(i as int));
        assert(sv[i as int].1.faces == fs@);
        let mut j: usize = 0;
        assert(pre + fs@.take(0) =~= pre);
        while j < fs.len()
            invariant
                i < surfaces@.len(),
                j <= fs@.len(),
                fs@ == sv[i as int].1.faces,
                nv == old(mesh)@.vertices.len(),
                mesh@.vertices == old(mesh)@.vertices,
                mesh@.faces == fitting(pre + fs@.take(j as int), nv),
                rejected@ == misfits(pre + fs@.take(j as int), nv),
            decreases fs@.len() - j,
        {
            let f = fs[j];
            let ghost p = pre + fs@.take(j as int);
            assert(pre + fs@.take(j + 1) =~= p.push(f));
            assert(p.push(f).drop_last() =~= p);
            if !mesh.try_add_connection(f) {
                rejected.push(f);
            }
            j = j + 1;
        }
        assert(sv.take(i + 1).drop_last() =~= sv.take(i as int));
        assert(pre + fs@.take(fs@.len() as int) =~= all_faces(sv.take(i + 1)));
        i = i + 1;
    }
    assert(sv.take(surfaces@.len() as int) =~= sv);
}

/// The state has a current surface, and its surfaces and libraries are well
/// formed.
pub open spec fn obj_state_wf(st: ObjState) -> bool {
    &&& 0 <= st.current < st.surfaces.len()
    &&& info_wf(InfoModel { uv: st.uv, surfaces: st.surfaces, material_libs: st.libs })
}

proof fn lemma_surface_add_wf(s: SurfaceModel, f: Face3, t: Option<Face3>)
    requires
        surface_wf(s),
    ensures
        surface_wf(surface_add(s, f, t)),
{
    lemma_set_insert_wf(s.faces, f);
    if let Some(t) = t {
        lemma_map_insert_wf(s.uvs, f, t);
    }
}

proof fn lemma_obj_step_wf(st: ObjState, line: Seq<u8>, n: nat)
    requires
        obj_state_wf(st),
        obj_step(st, line, n) is Ok,
    ensures
        obj_state_wf(obj_step(st, line, n)->Ok_0),
{
    let w = words(line);
    let next = obj_step(st, line, n)->Ok_0;
    if has_prefix(line, usemtl_tag()) {
        lemma_key_index_from(st.surfaces, w[1], 0);
        if key_index(st.surfaces, w[1]) < 0 {
            lemma_push_new_key_wf(st.surfaces, w[1], empty_surface());
            assert(empty_surface().faces.no_duplicates());
            assert forall|i: int| 0 <= i < next.surfaces.len() implies surface_wf(
                #[trigger] next.surfaces[i].1,
            ) by {
                if i < st.surfaces.len() {
                    assert(next.surfaces[i] == st.surfaces[i]);
                }
            };
        }
    } else if has_prefix(line, mtllib_tag()) {
        lemma_set_insert_wf(st.libs, w[1]);
    } else if has_prefix(line, v_tag()) || has_prefix(line, vt_tag()) {
    } else if has_prefix(line, f_tag()) {
        let fl = face_line(w, n)->Ok_0;
        let c = st.current;
        let s0 = st.surfaces[c].1;
        lemma_surface_add_wf(s0, fl.tri, fl.tri_uv);
        if let Some(q) = fl.quad {
            lemma_surface_add_wf(surface_add(s0, fl.tri, fl.tri_uv), q, fl.quad_uv);
        }
        lemma_update_value_wf(st.surfaces, c, add_face_line(s0, fl));
        assert forall|i: int| 0 <= i < next.surfaces.len() implies surface_wf(
            #[trigger] next.surfaces[i].1,
        ) by {
            if i != c {
                assert(next.surfaces[i] == st.surfaces[i]);
            }
        };
    }
}

/// Reads an OBJ file: `v`, `vt`, `f` (triangles and quads), `usemtl` and
/// `mtllib`. Faces go to the surface of the last `usemtl`, or to the
/// surface named `Default` before any; they join the mesh after the last
/// line, surface by surface.
pub fn load_obj_mesh(data: &[u8]) -> (r: Result<ObjMesh, ObjError>)
    ensures
        match r {
            Ok(m) => obj_model(data@) == Ok::<_, ObjError>(m@),
            Err(e) => obj_model(data@) == Err::<ObjModel, _>(e),
        },
        r matches Ok(m) ==> info_wf(m@.info),
{
    let default_tag: [u8; 7] = [68u8, 101u8, 102u8, 97u8, 117u8, 108u8, 116u8];
    assert(default_tag@ =~= default_name());
    let mut info = MaterialInfo::new();
    info.surfaces.push((tag_bytes(default_tag.as_slice()), MaterialSurface::new()));
    let mut b = ObjBuilder { vertices: Vec::new(), info, current: 0 };
    assert(b@.vertices =~= obj_start().vertices);
    assert(b@.uv =~= obj_start().uv);
    assert(b@.surfaces =~= obj_start().surfaces);
    assert(b@.libs =~= obj_start().libs);
    assert(obj_state_wf(b@)) by {
        assert(empty_surface().faces.no_duplicates());
        assert(b@.surfaces[0].1 == empty_surface());
    };
    let mut pos: usize = 0;
    let mut k: usize = 0;
    while pos < data.len()
        invariant
            pos <= data@.len(),
            k <= pos,
            b.wf(),
            obj_state_wf(b@),
            obj_run(data@, 0, obj_start(), 1) == obj_run(data@, pos as int, b@, (k + 1) as nat),
        decreases data@.len() - pos,
    {
        let (end, next) = next_line(data, pos);
        let line = copy_range(data, pos, end);
        proof {
            lemma_next_line_advances(data@, pos as int);
        }
        let ghost before = b@;
        match obj_line(&mut b, line.as_slice(), k + 1) {
            Ok(()) => {
                proof {
                    lemma_obj_step_wf(before, line@, (k + 1) as nat);
                }
            },
            Err(e) => {
                return Err(e);
            },
        }
        pos = next;
        k = k + 1;
    }
    let ObjBuilder { vertices, info, current: _ } = b;
    let mut mesh = Mesh { vertices, faces: Vec::new() };
    let mut rejected: Vec<Face3> = Vec::new();
    connect(&info.surfaces, &mut mesh, &mut rejected);
    Ok(ObjMesh { mesh, material_info: info, rejected })
}

/// The effect of line number `n` on the points read so far: only `v`
/// lines count.
pub open spec fn points_step(ps: Seq<Point3Model>, line: Seq<u8>, n: nat) -> Result<
    Seq<Point3Model>,
    ObjError,
> {
    let w = words(line);
    if has_prefix(line, v_tag()) {
        if w.len() >= 4 && is_float_text(w[1]) && is_float_text(w[2]) && is_float_text(w[3]) {
            Ok(
                ps.push(
                    (
                        ScalarModel::Decimal(w[1]),
                        ScalarModel::Decimal(w[2]),
                        ScalarModel::Decimal(w[3]),
                    ),
                ),
            )
        } else {
            Err(ObjError::LineParse(n as usize))
        }
    } else {
        Ok(ps)
    }
}

pub open spec fn points_run(data: Seq<u8>, pos: int, ps: Seq<Point3Model>, n: nat) -> Result<
    Seq<Point3Model>,
    ObjError,
>
    decreases data.len() - pos via points_run_decreases
{
    if pos < 0 || pos >= data.len() {
        Ok(ps)
    } else {
        match points_step(ps, line_at(data, pos), n) {
            Ok(next) => points_run(data, next_line_start(data, pos), next, n + 1),
            Err(e) => Err(e),
        }
    }
}

#[via_fn]
proof fn points_run_decreases(data: Seq<u8>, pos: int, ps: Seq<Point3Model>, n: nat) {
    if 0 <= pos < data.len() {
        lemma_next_line_advances(data, pos);
    }
}

/// Reads the vertex positions (`v` lines) of an OBJ file and nothing else.
pub fn load_obj_points(data: &[u8]) -> (r: Result<Vec<Point3>, ObjError>)
    ensures
        match r {
            Ok(ps) => points_run(data@, 0, seq![], 1) == Ok::<_, ObjError>(points_view(ps@)),
            Err(e) => points_run(data@, 0, seq![], 1) == Err::<Seq<Point3Model>, _>(e),
        },
{
    let mut ps: Vec<Point3> = Vec::new();
    let mut pos: usize = 0;
    let mut k: usize = 0;
    let t_v: [u8; 2] = [118u8, 32u8];
    assert(t_v@ =~= v_tag());
    assert(points_view(ps@) =~= seq![]);
    while pos < data.len()
        invariant
            pos <= data@.len(),
            k <= pos,
            t_v@ == v_tag(),
            points_run(data@, 0, seq![], 1) == points_run(
                data@,
                pos as int,
                points_view(ps@),
                (k + 1) as nat,
            ),
        decreases data@.len() - pos,
    {
        let (end, next) = next_line(data, pos);
        let line = copy_range(data, pos, end);
        proof {
            lemma_next_line_advances(data@, pos as int);
        }
        if starts_with(line.as_slice(), t_v.as_slice()) {
            let w = split_words(line.as_slice());
            let ghost ws = bytes_seq(w@);
            if w.len() >= 4 && float_token(w[1].as_slice()) && float_token(w[2].as_slice())
                && float_token(w[3].as_slice()) {
                assert(ws[1] == w@[1]@ && ws[2] == w@[2]@ && ws[3] == w@[3]@);
                let p = Point3 {
                    x: Scalar::decimal(w[1].as_slice()),
                    y: Scalar::decimal(w[2].as_slice()),
                    z: Scalar::decimal(w[3].as_slice()),
                };
                proof {
                    lemma_points_view_push(ps@, p);
                }
                ps.push(p);
            } else {
                return Err(ObjError::LineParse(k + 1));
            }
        }
        pos = next;
        k = k + 1;
    }
    Ok(ps)
}

} // verus!
