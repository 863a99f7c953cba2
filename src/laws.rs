//! Properties that relate the readers' results across inputs and calls.
use vstd::prelude::*;
use crate::model::{
    Face3, lemma_key_index_from,
};
use crate::mtl::mtl_materials;
use crate::obj::{
    ObjState, f_tag, face_line, obj_model, obj_step, usemtl_tag, mtllib_tag, v_tag, vt_tag, add_face_line, surface_add, obj_run, obj_start, all_faces, fitting, default_name,
};
use crate::model::{face_fits, lemma_key_index_from as lemma_key_index};
use crate::model::{SurfaceModel, empty_surface};
use crate::ply::{
    AsciiState, BodyAcc, FaceList, ListKind, PlyFormat, RecordFaces, ascii_run, ascii_step, empty_acc, faces_run, index_at, link, list_step, ply_header, ply_model, record_run, PlyError,
};
use crate::bytes::ByteOrder;
use crate::text::{has_prefix, words, lemma_next_line_advances, line_at, next_line_start};

verus! {

/// Reading the same bytes twice gives the same result, for every format:
/// no result depends on anything but the bytes (and, for PLY, the name).
pub proof fn law_deterministic(a: Seq<u8>, b: Seq<u8>, name: Seq<u8>)
    requires
        a == b,
    ensures
        obj_model(a) == obj_model(b),
        mtl_materials(a) == mtl_materials(b),
        ply_model(a, name) == ply_model(b, name),
{
}

proof fn lemma_prefixes_differ(line: Seq<u8>)
    requires
        has_prefix(line, f_tag()),
    ensures
        !has_prefix(line, usemtl_tag()),
        !has_prefix(line, mtllib_tag()),
        !has_prefix(line, v_tag()),
        !has_prefix(line, vt_tag()),
{
    assert(line[0] == line.subrange(0, 2)[0]);
    if has_prefix(line, usemtl_tag()) {
        assert(line[0] == line.subrange(0, 7)[0]);
    }
    if has_prefix(line, mtllib_tag()) {
        assert(line[0] == line.subrange(0, 7)[0]);
    }
    if has_prefix(line, v_tag()) {
        assert(line[0] == line.subrange(0, 2)[0]);
    }
    if has_prefix(line, vt_tag()) {
        assert(line[0] == line.subrange(0, 3)[0]);
    }
}

/// A quad `f a b c d` adds exactly two triangles to the current surface,
/// `(a, b, c)` and `(a, c, d)`, which share the diagonal from `a` to `c`
/// (where neither triangle was in the surface before and they differ).
pub proof fn law_quad_split(st: ObjState, line: Seq<u8>, n: nat)
    requires
        0 <= st.current < st.surfaces.len(),
        has_prefix(line, f_tag()),
        face_line(words(line), n) is Ok,
        face_line(words(line), n)->Ok_0.quad is Some,
        !st.surfaces[st.current].1.faces.contains(face_line(words(line), n)->Ok_0.tri),
        !st.surfaces[st.current].1.faces.contains(face_line(words(line), n)->Ok_0.quad->0),
        face_line(words(line), n)->Ok_0.tri != face_line(words(line), n)->Ok_0.quad->0,
    ensures
        ({
            let fl = face_line(words(line), n)->Ok_0;
            let tri = fl.tri;
            let quad = fl.quad->0;
            &&& obj_step(st, line, n) is Ok
            &&& obj_step(st, line, n)->Ok_0.surfaces[st.current].1.faces
                == st.surfaces[st.current].1.faces + seq![tri, quad]
            &&& quad.a == tri.a
            &&& quad.b == tri.c
        }),
{
    lemma_prefixes_differ(line);
    let fl = face_line(words(line), n)->Ok_0;
    let old_faces = st.surfaces[st.current].1.faces;
    let s1 = surface_add(st.surfaces[st.current].1, fl.tri, fl.tri_uv);
    assert(s1.faces == old_faces.push(fl.tri));
    assert(!s1.faces.contains(fl.quad->0)) by {
        if s1.faces.contains(fl.quad->0) {
            let i = choose|i: int| 0 <= i < s1.faces.len() && s1.faces[i] == fl.quad->0;
            if i < old_faces.len() {
                assert(old_faces[i] == fl.quad->0);
            }
        }
    };
    assert(add_face_line(st.surfaces[st.current].1, fl).faces =~= old_faces + seq![
        fl.tri,
        fl.quad->0,
    ]);
}

/// After `usemtl <name>`, new faces go to the surface named `<name>`.
pub proof fn law_usemtl_selects(st: ObjState, line: Seq<u8>, n: nat)
    requires
        has_prefix(line, usemtl_tag()),
        obj_step(st, line, n) is Ok,
    ensures
        ({
            let next = obj_step(st, line, n)->Ok_0;
            &&& 0 <= next.current < next.surfaces.len()
            &&& next.surfaces[next.current].0 == words(line)[1]
        }),
{
    let w = words(line);
    lemma_key_index_from(st.surfaces, w[1], 0);
}

/// A line other than `usemtl` keeps the current surface, and changes no
/// other surface: faces stay with the material that the last `usemtl`
/// chose.
pub proof fn law_faces_go_to_current(st: ObjState, line: Seq<u8>, n: nat)
    requires
        !has_prefix(line, usemtl_tag()),
        0 <= st.current < st.surfaces.len(),
        obj_step(st, line, n) is Ok,
    ensures
        ({
            let next = obj_step(st, line, n)->Ok_0;
            &&& next.current == st.current
            &&& next.surfaces.len() == st.surfaces.len()
            &&& next.surfaces[st.current].0 == st.surfaces[st.current].0
            &&& forall|i: int|
                0 <= i < st.surfaces.len() && i != st.current ==> next.surfaces[i]
                    == st.surfaces[i]
        }),
{
}

/// How many lists of a face record, from the `j`-th on, are of kind `k`.
pub open spec fn count_kind(lists: Seq<FaceList>, j: int, k: ListKind) -> nat
    decreases lists.len() - j,
{
    if j < 0 || j >= lists.len() {
        0
    } else {
        (if lists[j].kind == k {
            1nat
        } else {
            0nat
        }) + count_kind(lists, j + 1, k)
    }
}

/// The faces that a body has read, whether or not they joined the mesh.
pub open spec fn faces_seen(acc: BodyAcc) -> nat {
    acc.mesh_faces.len() + acc.rejected.len()
}

#[verifier::rlimit(40)]
proof fn lemma_record_counts(
    data: Seq<u8>,
    pos: int,
    lists: Seq<FaceList>,
    j: int,
    order: ByteOrder,
    nv: nat,
    acc: BodyAcc,
    rec: RecordFaces,
)
    requires
        0 <= j,
        record_run(data, pos, lists, j, order, nv, acc, rec) is Ok,
    ensures
        ({
            let a = record_run(data, pos, lists, j, order, nv, acc, rec)->Ok_0.1;
            &&& faces_seen(a) == faces_seen(acc) + count_kind(lists, j, ListKind::VertexIndices)
            &&& a.uv.len() == acc.uv.len() + 3 * count_kind(lists, j, ListKind::Texcoord)
        }),
    decreases lists.len() - j,
{
    if j < lists.len() {
        let r = list_step(data, pos, lists[j], order, nv, acc, rec);
        let (p, a, r2) = r->Ok_0;
        lemma_record_counts(data, p, lists, j + 1, order, nv, a, r2);
    }
}

proof fn lemma_faces_counts(
    data: Seq<u8>,
    pos: int,
    i: nat,
    nf: nat,
    lists: Seq<FaceList>,
    order: ByteOrder,
    nv: nat,
    acc: BodyAcc,
)
    requires
        i <= nf,
        faces_run(data, pos, i, nf, lists, order, nv, acc) is Ok,
    ensures
        ({
            let a = faces_run(data, pos, i, nf, lists, order, nv, acc)->Ok_0;
            &&& faces_seen(a) == faces_seen(acc) + (nf - i) * count_kind(
                lists,
                0,
                ListKind::VertexIndices,
            )
            &&& a.uv.len() == acc.uv.len() + 3 * ((nf - i) * count_kind(
                lists,
                0,
                ListKind::Texcoord,
            ))
        }),
    decreases nf - i,
{
    if i < nf {
        let (p, a, r) = record_run(data, pos, lists, 0, order, nv, acc, (None, None))->Ok_0;
        lemma_record_counts(data, pos, lists, 0, order, nv, acc, (None, None));
        lemma_faces_counts(data, p, i + 1, nf, lists, order, nv, link(a, r));
        let cv = count_kind(lists, 0, ListKind::VertexIndices);
        let ct = count_kind(lists, 0, ListKind::Texcoord);
        assert((nf - i) * cv == cv + (nf - (i + 1)) * cv) by (nonlinear_arith)
            requires
                i < nf,
        ;
        assert((nf - i) * ct == ct + (nf - (i + 1)) * ct) by (nonlinear_arith)
            requires
                i < nf,
        ;
    }
}

proof fn lemma_ascii_counts(data: Seq<u8>, pos: int, st: AsciiState, n: nat, h: crate::ply::PlyHeaderModel)
    requires
        ascii_run(data, pos, st, n, h) is Ok,
        st.acc.uv.len() == 0,
        faces_seen(st.acc) == st.faces_read,
        st.faces_read <= h.n_faces,
    ensures
        ({
            let r = ascii_run(data, pos, st, n, h)->Ok_0;
            &&& r.acc.uv.len() == 0
            &&& faces_seen(r.acc) == r.faces_read
            &&& r.faces_read <= h.n_faces
        }),
    decreases data.len() - pos,
{
    if 0 <= pos < data.len() {
        lemma_next_line_advances(data, pos);
        let next = ascii_step(st, line_at(data, pos), n, h)->Ok_0;
        lemma_ascii_counts(data, next_line_start(data, pos), next, n + 1, h);
    }
}

/// A PLY file that reads without error has exactly the vertices that its
/// header announces. A binary body yields, for each announced face record,
/// one face per `vertex_indices` list (joined to the mesh or rejected) and
/// three texture coordinates per `texcoord` list; so with one `texcoord`
/// list the texture coordinates number exactly three per record, and
/// without one there are none. An ASCII body yields exactly one face per
/// announced face (joined to the mesh or rejected) and no texture
/// coordinates.
pub proof fn law_ply_counts(data: Seq<u8>, name: Seq<u8>)
    requires
        ply_model(data, name) is Ok,
    ensures
        ({
            let (h, body, n) = ply_header(data)->Ok_0;
            let m = ply_model(data, name)->Ok_0;
            let nf = h.n_faces as nat;
            &&& m.mesh.vertices.len() == h.n_vertices
            &&& h.format != PlyFormat::Ascii ==> m.mesh.faces.len() + m.rejected.len() == nf
                * count_kind(h.face_lists, 0, ListKind::VertexIndices)
            &&& h.format != PlyFormat::Ascii ==> m.info.uv.len() == 3 * (nf * count_kind(
                h.face_lists,
                0,
                ListKind::Texcoord,
            ))
            &&& h.format == PlyFormat::Ascii ==> m.info.uv.len() == 0
            &&& h.format == PlyFormat::Ascii ==> m.mesh.faces.len() + m.rejected.len() == nf
        }),
{
    let (h, body, n) = ply_header(data)->Ok_0;
    let nf = h.n_faces as nat;
    if h.format == PlyFormat::Ascii {
        let st0 = AsciiState { vertices: seq![], faces_read: 0, acc: empty_acc() };
        lemma_ascii_counts(data, body, st0, n, h);
    } else {
        let order = if h.format == PlyFormat::LittleEndian {
            ByteOrder::Little
        } else {
            ByteOrder::Big
        };
        let vend = body + h.n_vertices * crate::ply::record_size(h.vertex);
        lemma_faces_counts(data, vend, 0, nf, h.face_lists, order, h.n_vertices as nat, empty_acc());
    }
}

/// A face record whose `vertex_indices` list does not count exactly three
/// indices fails as a malformed face; it is never cut short.
pub proof fn law_ply_face_shape(
    data: Seq<u8>,
    pos: int,
    l: FaceList,
    order: ByteOrder,
    nv: nat,
    acc: BodyAcc,
    rec: RecordFaces,
)
    requires
        l.kind == ListKind::VertexIndices,
        index_at(data, pos, l.count, order) is Ok,
        index_at(data, pos, l.count, order)->Ok_0 != 3,
    ensures
        list_step(data, pos, l, order, nv, acc, rec) == Err::<(int, BodyAcc, RecordFaces), _>(
            PlyError::FaceStructure,
        ),
{
}

/// How many lines of `data` from byte `pos` on start with `tag`.
pub open spec fn count_tagged(data: Seq<u8>, pos: int, tag: Seq<u8>) -> nat
    decreases data.len() - pos via count_tagged_decreases
{
    if pos < 0 || pos >= data.len() {
        0
    } else {
        (if has_prefix(line_at(data, pos), tag) {
            1nat
        } else {
            0nat
        }) + count_tagged(data, next_line_start(data, pos), tag)
    }
}

#[via_fn]
proof fn count_tagged_decreases(data: Seq<u8>, pos: int, tag: Seq<u8>) {
    if 0 <= pos < data.len() {
        lemma_next_line_advances(data, pos);
    }
}

/// The triangles that the `f` lines of `data` from byte `pos` on write
/// first (line `pos` has number `n`).
pub open spec fn tris_from(data: Seq<u8>, pos: int, n: nat) -> Seq<Face3>
    decreases data.len() - pos via tris_from_decreases
{
    if pos < 0 || pos >= data.len() {
        seq![]
    } else {
        let l = line_at(data, pos);
        let rest = tris_from(data, next_line_start(data, pos), n + 1);
        if has_prefix(l, f_tag()) && face_line(words(l), n) is Ok {
            seq![face_line(words(l), n)->Ok_0.tri] + rest
        } else {
            rest
        }
    }
}

#[via_fn]
proof fn tris_from_decreases(data: Seq<u8>, pos: int, n: nat) {
    if 0 <= pos < data.len() {
        lemma_next_line_advances(data, pos);
    }
}

/// No `f` line of `data` from byte `pos` on is a quad.
pub open spec fn no_quads_from(data: Seq<u8>, pos: int, n: nat) -> bool
    decreases data.len() - pos via no_quads_from_decreases
{
    if pos < 0 || pos >= data.len() {
        true
    } else {
        let l = line_at(data, pos);
        (has_prefix(l, f_tag()) && face_line(words(l), n) is Ok ==> face_line(words(l), n)->Ok_0.quad
            is None) && no_quads_from(data, next_line_start(data, pos), n + 1)
    }
}

#[via_fn]
proof fn no_quads_from_decreases(data: Seq<u8>, pos: int, n: nat) {
    if 0 <= pos < data.len() {
        lemma_next_line_advances(data, pos);
    }
}

/// Every line of `data` from byte `pos` on is well formed by itself: read
/// in any state, it gives no error (line `pos` has number `n`).
pub open spec fn obj_lines_read(data: Seq<u8>, pos: int, n: nat) -> bool
    decreases data.len() - pos via obj_lines_read_decreases
{
    if pos < 0 || pos >= data.len() {
        true
    } else {
        obj_step(obj_start(), line_at(data, pos), n) is Ok && obj_lines_read(
            data,
            next_line_start(data, pos),
            n + 1,
        )
    }
}

#[via_fn]
proof fn obj_lines_read_decreases(data: Seq<u8>, pos: int, n: nat) {
    if 0 <= pos < data.len() {
        lemma_next_line_advances(data, pos);
    }
}

/// Whether a line reads without error does not depend on the state.
proof fn lemma_obj_step_ok_any(st: ObjState, line: Seq<u8>, n: nat)
    ensures
        (obj_step(st, line, n) is Ok) == (obj_step(obj_start(), line, n) is Ok),
{
}

proof fn lemma_obj_run_plain(data: Seq<u8>, pos: int, st: ObjState, n: nat)
    requires
        0 <= pos,
        obj_lines_read(data, pos, n),
        st.surfaces.len() == 1,
        st.current == 0,
        count_tagged(data, pos, usemtl_tag()) == 0,
        no_quads_from(data, pos, n),
        (st.surfaces[0].1.faces + tris_from(data, pos, n)).no_duplicates(),
    ensures
        obj_run(data, pos, st, n) is Ok,
        ({
            let r = obj_run(data, pos, st, n)->Ok_0;
            &&& r.surfaces.len() == 1
            &&& r.current == 0
            &&& r.surfaces[0].0 == st.surfaces[0].0
            &&& r.surfaces[0].1.faces == st.surfaces[0].1.faces + tris_from(data, pos, n)
            &&& r.vertices.len() == st.vertices.len() + count_tagged(data, pos, v_tag())
            &&& tris_from(data, pos, n).len() == count_tagged(data, pos, f_tag())
        }),
    decreases data.len() - pos,
{
    if pos < data.len() {
        lemma_next_line_advances(data, pos);
        let l = line_at(data, pos);
        let q = next_line_start(data, pos);
        lemma_obj_step_ok_any(st, l, n);
        let next = obj_step(st, l, n)->Ok_0;
        let faces = st.surfaces[0].1.faces;
        let rest = tris_from(data, q, n + 1);
        if has_prefix(l, f_tag()) {
            lemma_prefixes_differ(l);
            let fl = face_line(words(l), n)->Ok_0;
            let all = faces + tris_from(data, pos, n);
            assert(all =~= faces.push(fl.tri) + rest);
            assert(!faces.contains(fl.tri)) by {
                if faces.contains(fl.tri) {
                    let i = choose|i: int| 0 <= i < faces.len() && faces[i] == fl.tri;
                    assert(all[i] == all[faces.len() as int]);
                }
            };
            assert(next.surfaces[0].1.faces == faces.push(fl.tri));
            lemma_obj_run_plain(data, q, next, n + 1);
        } else {
            assert(tris_from(data, pos, n) == rest);
            lemma_obj_run_plain(data, q, next, n + 1);
        }
    }
}

proof fn lemma_fitting_all(fs: Seq<Face3>, nv: nat)
    requires
        forall|i: int| 0 <= i < fs.len() ==> face_fits(fs[i], nv),
    ensures
        fitting(fs, nv) == fs,
    decreases fs.len(),
{
    if fs.len() > 0 {
        lemma_fitting_all(fs.drop_last(), nv);
        assert(fs.drop_last().push(fs.last()) =~= fs);
    }
}

/// A well-formed OBJ file (every line reads without error) without `usemtl`
/// lines and without quads, whose triangles are all different and all name
/// existing, distinct vertices, reads without error and gives one vertex
/// per `v` line and one face per `f` line, all of them owned by the surface
/// named `Default`.
pub proof fn law_obj_counts(data: Seq<u8>)
    requires
        obj_lines_read(data, 0, 1),
        count_tagged(data, 0, usemtl_tag()) == 0,
        no_quads_from(data, 0, 1),
        tris_from(data, 0, 1).no_duplicates(),
        forall|i: int|
            0 <= i < tris_from(data, 0, 1).len() ==> face_fits(
                #[trigger] tris_from(data, 0, 1)[i],
                count_tagged(data, 0, v_tag()),
            ),
    ensures
        obj_model(data) is Ok,
        ({
            let m = obj_model(data)->Ok_0;
            &&& m.mesh.vertices.len() == count_tagged(data, 0, v_tag())
            &&& m.mesh.faces.len() == count_tagged(data, 0, f_tag())
            &&& m.info.surfaces.len() == 1
            &&& m.info.surfaces[0].0 == default_name()
            &&& m.info.surfaces[0].1.faces.len() == count_tagged(data, 0, f_tag())
        }),
{
    let st0 = obj_start();
    assert(st0.surfaces[0].1.faces + tris_from(data, 0, 1) =~= tris_from(data, 0, 1));
    lemma_obj_run_plain(data, 0, st0, 1);
    let r = obj_run(data, 0, st0, 1)->Ok_0;
    assert(r.surfaces[0].1.faces =~= tris_from(data, 0, 1));
    assert(r.surfaces.drop_last() =~= seq![]);
    assert(all_faces(r.surfaces.drop_last()) =~= seq![]);
    assert(all_faces(r.surfaces) =~= r.surfaces[0].1.faces);
    lemma_fitting_all(all_faces(r.surfaces), r.vertices.len());
}

/// The per-wedge signal of a binary PLY file with at most one `texcoord`
/// list and at least one face: its texture coordinates number three per
/// face record exactly when the records carry `texcoord`, and otherwise
/// there are none, never a count in between.
pub proof fn law_ply_per_wedge_signal(data: Seq<u8>, name: Seq<u8>)
    requires
        ply_model(data, name) is Ok,
        ply_header(data)->Ok_0.0.format != PlyFormat::Ascii,
        ply_header(data)->Ok_0.0.n_faces > 0,
        count_kind(ply_header(data)->Ok_0.0.face_lists, 0, ListKind::Texcoord) <= 1,
    ensures
        ({
            let h = ply_header(data)->Ok_0.0;
            let uv = ply_model(data, name)->Ok_0.info.uv;
            &&& uv.len() == 3 * h.n_faces <==> count_kind(h.face_lists, 0, ListKind::Texcoord) == 1
            &&& uv.len() == 0 || uv.len() == 3 * h.n_faces
        }),
{
    law_ply_counts(data, name);
    let h = ply_header(data)->Ok_0.0;
    let c = count_kind(h.face_lists, 0, ListKind::Texcoord);
    let nf = h.n_faces as nat;
    if c == 0 {
        assert(nf * c == 0) by (nonlinear_arith)
            requires
                c == 0,
        ;
    } else {
        assert(nf * c == nf) by (nonlinear_arith)
            requires
                c == 1,
        ;
    }
}

/// Some surface holds face `f`.
pub open spec fn in_surfaces(s: Seq<(Seq<u8>, SurfaceModel)>, f: Face3) -> bool {
    exists|i: int| 0 <= i < s.len() && (#[trigger] s[i].1.faces).contains(f)
}

/// Every face of every surface fits a mesh of `nv` vertices.
pub open spec fn surfaces_fit(s: Seq<(Seq<u8>, SurfaceModel)>, nv: nat) -> bool {
    forall|i: int, k: int|
        0 <= i < s.len() && 0 <= k < s[i].1.faces.len() ==> face_fits(
            #[trigger] s[i].1.faces[k],
            nv,
        )
}

proof fn lemma_all_faces_push(s: Seq<(Seq<u8>, SurfaceModel)>, e: (Seq<u8>, SurfaceModel))
    ensures
        all_faces(s.push(e)) == all_faces(s) + e.1.faces,
{
    assert(s.push(e).drop_last() =~= s);
}

proof fn lemma_all_faces_grow(s: Seq<(Seq<u8>, SurfaceModel)>, c: int, m: SurfaceModel, x: Face3)
    requires
        0 <= c < s.len(),
        m.faces == s[c].1.faces.push(x),
    ensures
        all_faces(s.update(c, (s[c].0, m))).len() == all_faces(s).len() + 1,
    decreases s.len(),
{
    let t = s.update(c, (s[c].0, m));
    if c == s.len() - 1 {
        assert(t.drop_last() =~= s.drop_last());
    } else {
        assert(t.drop_last() =~= s.drop_last().update(c, (s[c].0, m)));
        lemma_all_faces_grow(s.drop_last(), c, m, x);
    }
}

proof fn lemma_all_faces_fit(s: Seq<(Seq<u8>, SurfaceModel)>, nv: nat)
    requires
        surfaces_fit(s, nv),
    ensures
        forall|k: int| 0 <= k < all_faces(s).len() ==> face_fits(#[trigger] all_faces(s)[k], nv),
    decreases s.len(),
{
    if s.len() > 0 {
        let d = s.drop_last();
        assert forall|i: int, k: int| 0 <= i < d.len() && 0 <= k < d[i].1.faces.len() implies face_fits(
            #[trigger] d[i].1.faces[k],
            nv,
        ) by {
            assert(d[i] == s[i]);
        };
        lemma_all_faces_fit(d, nv);
        let l = s.last().1.faces;
        assert forall|k: int| 0 <= k < all_faces(s).len() implies face_fits(
            #[trigger] all_faces(s)[k],
            nv,
        ) by {
            if k >= all_faces(d).len() {
                assert(all_faces(s)[k] == l[k - all_faces(d).len()]);
                assert(s[s.len() - 1].1.faces[k - all_faces(d).len()] == l[k - all_faces(d).len()]);
            } else {
                assert(all_faces(s)[k] == all_faces(d)[k]);
            }
        };
    }
}

proof fn lemma_obj_run_counts(data: Seq<u8>, pos: int, st: ObjState, n: nat, nv: nat)
    requires
        0 <= pos,
        obj_lines_read(data, pos, n),
        0 <= st.current < st.surfaces.len(),
        no_quads_from(data, pos, n),
        tris_from(data, pos, n).no_duplicates(),
        forall|k: int|
            0 <= k < tris_from(data, pos, n).len() ==> !in_surfaces(
                st.surfaces,
                #[trigger] tris_from(data, pos, n)[k],
            ) && face_fits(tris_from(data, pos, n)[k], nv),
        surfaces_fit(st.surfaces, nv),
    ensures
        obj_run(data, pos, st, n) is Ok,
        ({
            let r = obj_run(data, pos, st, n)->Ok_0;
            &&& all_faces(r.surfaces).len() == all_faces(st.surfaces).len() + count_tagged(
                data,
                pos,
                f_tag(),
            )
            &&& r.vertices.len() == st.vertices.len() + count_tagged(data, pos, v_tag())
            &&& surfaces_fit(r.surfaces, nv)
        }),
    decreases data.len() - pos,
{
    if pos < data.len() {
        lemma_next_line_advances(data, pos);
        let l = line_at(data, pos);
        let q = next_line_start(data, pos);
        lemma_obj_step_ok_any(st, l, n);
        let next = obj_step(st, l, n)->Ok_0;
        let rest = tris_from(data, q, n + 1);
        let w = words(l);
        if has_prefix(l, f_tag()) {
            lemma_prefixes_differ(l);
            let fl = face_line(w, n)->Ok_0;
            let tri = fl.tri;
            let c = st.current;
            let tr = tris_from(data, pos, n);
            assert(tr == seq![tri] + rest);
            assert(tr[0] == tri);
            assert(!st.surfaces[c].1.faces.contains(tri));
            let m = next.surfaces[c].1;
            assert(m.faces == st.surfaces[c].1.faces.push(tri));
            assert(next.surfaces =~= st.surfaces.update(c, (st.surfaces[c].0, m)));
            lemma_all_faces_grow(st.surfaces, c, m, tri);
            assert forall|k: int| 0 <= k < rest.len() implies !in_surfaces(
                next.surfaces,
                #[trigger] rest[k],
            ) && face_fits(rest[k], nv) by {
                assert(rest[k] == tr[k + 1]);
                assert(tr[k + 1] != tr[0]);
                if in_surfaces(next.surfaces, rest[k]) {
                    let i = choose|i: int|
                        0 <= i < next.surfaces.len() && (#[trigger] next.surfaces[i].1.faces).contains(
                            rest[k],
                        );
                    if i != c {
                        assert(next.surfaces[i] == st.surfaces[i]);
                        assert(st.surfaces[i].1.faces.contains(tr[k + 1]));
                    } else {
                        let j = choose|j: int| 0 <= j < m.faces.len() && m.faces[j] == rest[k];
                        if j < st.surfaces[c].1.faces.len() {
                            assert(st.surfaces[c].1.faces[j] == rest[k]);
                            assert(st.surfaces[c].1.faces.contains(tr[k + 1]));
                        }
                    }
                }
            };
            assert(rest.no_duplicates()) by {
                assert forall|a: int, b: int| 0 <= a < rest.len() && 0 <= b < rest.len() && a != b implies rest[a]
                    != rest[b] by {
                    assert(rest[a] == tr[a + 1] && rest[b] == tr[b + 1]);
                };
            };
            assert(face_fits(tr[0], nv));
            assert(surfaces_fit(next.surfaces, nv)) by {
                assert forall|i: int, k: int|
                    0 <= i < next.surfaces.len() && 0 <= k < next.surfaces[i].1.faces.len() implies face_fits(
                    #[trigger] next.surfaces[i].1.faces[k],
                    nv,
                ) by {
                    if i != c {
                        assert(next.surfaces[i] == st.surfaces[i]);
                        assert(face_fits(st.surfaces[i].1.faces[k], nv));
                    } else if k < st.surfaces[c].1.faces.len() {
                        assert(next.surfaces[i].1.faces[k] == st.surfaces[c].1.faces[k]);
                        assert(face_fits(st.surfaces[c].1.faces[k], nv));
                    } else {
                        assert(next.surfaces[i].1.faces[k] == tri);
                    }
                };
            };
            lemma_obj_run_counts(data, q, next, n + 1, nv);
        } else {
            assert(tris_from(data, pos, n) == rest);
            if has_prefix(l, usemtl_tag()) {
                lemma_key_index(st.surfaces, w[1], 0);
                if next.surfaces.len() > st.surfaces.len() {
                    let e = (w[1], empty_surface());
                    assert(next.surfaces == st.surfaces.push(e));
                    lemma_all_faces_push(st.surfaces, e);
                    assert(all_faces(next.surfaces) =~= all_faces(st.surfaces));
                    assert forall|k: int| 0 <= k < rest.len() implies !in_surfaces(
                        next.surfaces,
                        #[trigger] rest[k],
                    ) by {
                        if in_surfaces(next.surfaces, rest[k]) {
                            let i = choose|i: int|
                                0 <= i < next.surfaces.len() && (#[trigger] next.surfaces[i].1.faces).contains(
                                    rest[k],
                                );
                            assert(i < st.surfaces.len());
                            assert(next.surfaces[i] == st.surfaces[i]);
                        }
                    };
                    assert(surfaces_fit(next.surfaces, nv)) by {
                        assert forall|i: int, k: int|
                            0 <= i < next.surfaces.len() && 0 <= k < next.surfaces[i].1.faces.len() implies face_fits(
                            #[trigger] next.surfaces[i].1.faces[k],
                            nv,
                        ) by {
                            assert(next.surfaces[i] == st.surfaces[i]);
                            assert(face_fits(st.surfaces[i].1.faces[k], nv));
                        };
                    };
                }
            }
            lemma_obj_run_counts(data, q, next, n + 1, nv);
        }
    }
}

/// A well-formed OBJ file (every line reads without error) without quads,
/// whose triangles are all different and all name existing, distinct
/// vertices, reads without error into a mesh with one vertex per `v` line
/// and one face per `f` line, whatever `usemtl` lines it has.
pub proof fn law_obj_mesh_counts(data: Seq<u8>)
    requires
        obj_lines_read(data, 0, 1),
        no_quads_from(data, 0, 1),
        tris_from(data, 0, 1).no_duplicates(),
        forall|i: int|
            0 <= i < tris_from(data, 0, 1).len() ==> face_fits(
                #[trigger] tris_from(data, 0, 1)[i],
                count_tagged(data, 0, v_tag()),
            ),
    ensures
        obj_model(data) is Ok,
        obj_model(data)->Ok_0.mesh.vertices.len() == count_tagged(data, 0, v_tag()),
        obj_model(data)->Ok_0.mesh.faces.len() == count_tagged(data, 0, f_tag()),
{
    let st0 = obj_start();
    let nv = count_tagged(data, 0, v_tag());
    assert(st0.surfaces[0].1.faces =~= seq![]);
    assert forall|k: int| 0 <= k < tris_from(data, 0, 1).len() implies !in_surfaces(
        st0.surfaces,
        #[trigger] tris_from(data, 0, 1)[k],
    ) && face_fits(tris_from(data, 0, 1)[k], nv) by {
        if in_surfaces(st0.surfaces, tris_from(data, 0, 1)[k]) {
            let i = choose|i: int|
                0 <= i < st0.surfaces.len() && (#[trigger] st0.surfaces[i].1.faces).contains(
                    tris_from(data, 0, 1)[k],
                );
            assert(i == 0);
        }
    };
    lemma_obj_run_counts(data, 0, st0, 1, nv);
    let r = obj_run(data, 0, st0, 1)->Ok_0;
    assert(st0.surfaces.drop_last() =~= seq![]);
    assert(all_faces(st0.surfaces.drop_last()).len() == 0);
    assert(all_faces(st0.surfaces).len() == 0);
    lemma_all_faces_fit(r.surfaces, nv);
    lemma_fitting_all(all_faces(r.surfaces), r.vertices.len());
}

} // verus!
