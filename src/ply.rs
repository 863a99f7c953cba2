//! Stanford PLY meshes: the header, and ASCII or binary bodies in either
//! byte order.
use vstd::prelude::*;
use crate::bytes::{ByteOrder, lemma_pow256_8, pow256, read_unsigned, signed_of, unsigned_at};
use crate::model::{
    Face3, InfoModel, Material, MaterialInfo, MaterialModel, MaterialSurface, Mesh, MeshModel, Point3, Point3Model, Scalar, ScalarModel, SurfaceModel, default_material, face_fits, insert_face, insert_uv, lemma_points_view_push, map_insert, points_view, set_insert,
    info_wf, keys_distinct, lemma_set_insert_wf, lemma_map_insert_wf,
};
use crate::ply_words::{
    kw_comment, lit_comment, kw_texture_file, lit_texture_file, kw_obj_info, lit_obj_info, kw_ply, lit_ply, kw_format_ascii, lit_format_ascii, kw_format_le, lit_format_le, kw_format_be, lit_format_be, kw_element_vertex, lit_element_vertex, kw_element_face, lit_element_face, kw_property, lit_property, kw_property_list, lit_property_list, kw_end_header, lit_end_header, kw_x, lit_x, kw_y, lit_y, kw_z, lit_z, kw_vertex_indices, lit_vertex_indices, kw_texcoord, lit_texcoord, kw_char, lit_char, kw_int8, lit_int8, kw_uchar, lit_uchar, kw_uint8, lit_uint8, kw_short, lit_short, kw_int16, lit_int16, kw_ushort, lit_ushort, kw_uint16, lit_uint16, kw_int, lit_int, kw_int32, lit_int32, kw_uint, lit_uint, kw_uint32, lit_uint32, kw_float, lit_float, kw_float32, lit_float32, kw_double, lit_double, kw_float64, lit_float64, kw_three, lit_three,
};
use crate::text::{
    bytes_eq, bytes_seq, copy_range, float_token, has_prefix, is_float_text,
    lemma_next_line_advances, line_at, next_line, next_line_start, parse_usize, split_words,
    starts_with, usize_of, words,
};

verus! {

/// Why a PLY file could not be read; line numbers start at 1.
#[derive(Clone, Copy, Debug, PartialEq, Eq, Structural)]
pub enum PlyError {
    /// The body ends before a record that the header announces.
    AccessFile,
    LineParse(usize),
    StartNotFound,
    FormatNotFound,
    HeaderInvalid,
    InvalidProperty(usize),
    InvalidVertex(usize),
    FaceStructure,
    VertexCountIncorrect,
}

#[derive(Clone, Copy, Debug, PartialEq, Eq, Structural)]
pub enum PlyFormat {
    Ascii,
    LittleEndian,
    BigEndian,
}

/// The scalar types of PLY properties.
#[derive(Clone, Copy, Debug, PartialEq, Eq, Structural)]
pub enum PlyType {
    Char,
    UChar,
    Short,
    UShort,
    Int,
    UInt,
    Float,
    Double,
}

pub open spec fn type_size(t: PlyType) -> nat {
    match t {
        PlyType::Char | PlyType::UChar => 1,
        PlyType::Short | PlyType::UShort => 2,
        PlyType::Int | PlyType::UInt | PlyType::Float => 4,
        PlyType::Double => 8,
    }
}

pub fn size_bytes(t: PlyType) -> (r: usize)
    ensures
        r == type_size(t),
{
    match t {
        PlyType::Char | PlyType::UChar => 1,
        PlyType::Short | PlyType::UShort => 2,
        PlyType::Int | PlyType::UInt | PlyType::Float => 4,
        PlyType::Double => 8,
    }
}

pub open spec fn is_float_type(t: PlyType) -> bool {
    t == PlyType::Float || t == PlyType::Double
}

pub open spec fn is_signed_type(t: PlyType) -> bool {
    t == PlyType::Char || t == PlyType::Short || t == PlyType::Int
}

/// The type that a header word names.
pub open spec fn type_of(w: Seq<u8>) -> Option<PlyType> {
    if w == kw_char() || w == kw_int8() {
        Some(PlyType::Char)
    } else if w == kw_uchar() || w == kw_uint8() {
        Some(PlyType::UChar)
    } else if w == kw_short() || w == kw_int16() {
        Some(PlyType::Short)
    } else if w == kw_ushort() || w == kw_uint16() {
        Some(PlyType::UShort)
    } else if w == kw_int() || w == kw_int32() {
        Some(PlyType::Int)
    } else if w == kw_uint() || w == kw_uint32() {
        Some(PlyType::UInt)
    } else if w == kw_float() || w == kw_float32() {
        Some(PlyType::Float)
    } else if w == kw_double() || w == kw_float64() {
        Some(PlyType::Double)
    } else {
        None
    }
}

fn word_is(w: &[u8], k: &[u8]) -> (r: bool)
    ensures
        r == (w@ == k@),
{
    bytes_eq(w, k)
}

fn parse_type(w: &[u8]) -> (r: Option<PlyType>)
    ensures
        r == type_of(w@),
{
    if word_is(w, lit_char().as_slice()) || word_is(w, lit_int8().as_slice()) {
        Some(PlyType::Char)
    } else if word_is(w, lit_uchar().as_slice()) || word_is(w, lit_uint8().as_slice()) {
        Some(PlyType::UChar)
    } else if word_is(w, lit_short().as_slice()) || word_is(w, lit_int16().as_slice()) {
        Some(PlyType::Short)
    } else if word_is(w, lit_ushort().as_slice()) || word_is(w, lit_uint16().as_slice()) {
        Some(PlyType::UShort)
    } else if word_is(w, lit_int().as_slice()) || word_is(w, lit_int32().as_slice()) {
        Some(PlyType::Int)
    } else if word_is(w, lit_uint().as_slice()) || word_is(w, lit_uint32().as_slice()) {
        Some(PlyType::UInt)
    } else if word_is(w, lit_float().as_slice()) || word_is(w, lit_float32().as_slice()) {
        Some(PlyType::Float)
    } else if word_is(w, lit_double().as_slice()) || word_is(w, lit_float64().as_slice()) {
        Some(PlyType::Double)
    } else {
        None
    }
}

#[derive(Clone, Copy, Debug, PartialEq, Eq, Structural)]
pub enum Axis {
    X,
    Y,
    Z,
}

pub open spec fn axis_of(w: Seq<u8>) -> Option<Axis> {
    if w == kw_x() {
        Some(Axis::X)
    } else if w == kw_y() {
        Some(Axis::Y)
    } else if w == kw_z() {
        Some(Axis::Z)
    } else {
        None
    }
}

fn parse_axis(w: &[u8]) -> (r: Option<Axis>)
    ensures
        r == axis_of(w@),
{
    if word_is(w, lit_x().as_slice()) {
        Some(Axis::X)
    } else if word_is(w, lit_y().as_slice()) {
        Some(Axis::Y)
    } else if word_is(w, lit_z().as_slice()) {
        Some(Axis::Z)
    } else {
        None
    }
}

/// What a list property of a face record holds.
#[derive(Clone, Copy, Debug, PartialEq, Eq, Structural)]
pub enum ListKind {
    /// `vertex_indices`: the triangle.
    VertexIndices,
    /// `texcoord`: three texture coordinates, one per corner.
    Texcoord,
    /// Anything else, skipped.
    Other,
}

pub open spec fn list_kind_of(w: Seq<u8>) -> ListKind {
    if w == kw_vertex_indices() {
        ListKind::VertexIndices
    } else if w == kw_texcoord() {
        ListKind::Texcoord
    } else {
        ListKind::Other
    }
}

/// One `property list <count> <index> <name>` of the face element.
#[derive(Clone, Copy, Debug, PartialEq, Eq, Structural)]
pub struct FaceList {
    pub kind: ListKind,
    pub count: PlyType,
    pub index: PlyType,
}

/// Properties of a vertex record that are not coordinates: their size in
/// bytes (binary bodies) and in words (ASCII bodies).
#[derive(Clone, Copy, Debug, PartialEq, Eq, Structural)]
pub struct Padding {
    pub bytes: usize,
    pub words: usize,
}

pub open spec fn pad_add(p: Padding, t: PlyType) -> Option<Padding> {
    if p.bytes + type_size(t) <= usize::MAX && p.words + 1 <= usize::MAX {
        Some(Padding { bytes: (p.bytes + type_size(t)) as usize, words: (p.words + 1) as usize })
    } else {
        None
    }
}

fn pad_add_exec(p: Padding, t: PlyType) -> (r: Option<Padding>)
    ensures
        r == pad_add(p, t),
{
    match p.bytes.checked_add(size_bytes(t)) {
        Some(b) => match p.words.checked_add(1) {
            Some(w) => Some(Padding { bytes: b, words: w }),
            None => None,
        },
        None => None,
    }
}

/// The layout of a vertex record: the axes of its three coordinate columns
/// in file order, their types, and what lies before, between and after
/// them.
#[derive(Clone, Copy, Debug, PartialEq, Eq, Structural)]
pub struct VertexLayout {
    pub first_axis: Axis,
    pub snd_axis: Axis,
    pub third_axis: Axis,
    pub first: PlyType,
    pub snd: PlyType,
    pub third: PlyType,
    pub before: Padding,
    pub between_first_snd: Padding,
    pub between_snd_third: Padding,
    pub after: Padding,
}

/// A PLY header: the body's encoding, the announced counts, the layout of
/// the records, and the texture named by a `comment TextureFile` line.
pub struct PlyHeader {
    pub format: PlyFormat,
    pub n_vertices: usize,
    pub n_faces: usize,
    pub vertex: VertexLayout,
    pub face_lists: Vec<FaceList>,
    pub texture_name: Option<Vec<u8>>,
}

pub struct PlyHeaderModel {
    pub format: PlyFormat,
    pub n_vertices: usize,
    pub n_faces: usize,
    pub vertex: VertexLayout,
    pub face_lists: Seq<FaceList>,
    pub texture_name: Option<Seq<u8>>,
}

pub open spec fn opt_bytes(o: Option<Vec<u8>>) -> Option<Seq<u8>> {
    match o {
        Some(v) => Some(v@),
        None => None,
    }
}

impl View for PlyHeader {
    type V = PlyHeaderModel;

    open spec fn view(&self) -> PlyHeaderModel {
        PlyHeaderModel {
            format: self.format,
            n_vertices: self.n_vertices,
            n_faces: self.n_faces,
            vertex: self.vertex,
            face_lists: self.face_lists@,
            texture_name: opt_bytes(self.texture_name),
        }
    }
}

#[derive(Clone, Copy, Debug, PartialEq, Eq, Structural)]
pub enum ReadState {
    Meta,
    Vertex,
    Face,
}

/// What the header has declared so far, but for the face lists and the
/// texture name.
#[derive(Clone, Copy)]
pub struct HeaderMeta {
    pub ply_found: bool,
    pub format: Option<PlyFormat>,
    pub n_vertices: Option<usize>,
    pub n_faces: Option<usize>,
    pub state: ReadState,
    /// How many coordinate columns have been declared.
    pub n_principal: usize,
    pub axis0: Axis,
    pub axis1: Axis,
    pub axis2: Axis,
    pub x_type: Option<PlyType>,
    pub y_type: Option<PlyType>,
    pub z_type: Option<PlyType>,
    pub before: Padding,
    pub between_first_snd: Padding,
    pub between_snd_third: Padding,
    pub after: Padding,
}

pub struct HeaderState {
    pub meta: HeaderMeta,
    pub face_lists: Seq<FaceList>,
    pub texture_name: Option<Seq<u8>>,
}

pub open spec fn no_padding() -> Padding {
    Padding { bytes: 0, words: 0 }
}

pub open spec fn header_start() -> HeaderState {
    HeaderState {
        meta: HeaderMeta {
            ply_found: false,
            format: None,
            n_vertices: None,
            n_faces: None,
            state: ReadState::Meta,
            n_principal: 0,
            axis0: Axis::X,
            axis1: Axis::X,
            axis2: Axis::X,
            x_type: None,
            y_type: None,
            z_type: None,
            before: no_padding(),
            between_first_snd: no_padding(),
            between_snd_third: no_padding(),
            after: no_padding(),
        },
        face_lists: seq![],
        texture_name: None,
    }
}

/// The type declared for the coordinate column of axis `a`.
pub open spec fn axis_type(m: HeaderMeta, a: Axis) -> Option<PlyType> {
    match a {
        Axis::X => m.x_type,
        Axis::Y => m.y_type,
        Axis::Z => m.z_type,
    }
}

/// `m` after a coordinate column of axis `a` and type `t`.
pub open spec fn add_axis(m: HeaderMeta, a: Axis, t: PlyType) -> HeaderMeta {
    let m1 = if m.n_principal == 0 {
        HeaderMeta { axis0: a, ..m }
    } else if m.n_principal == 1 {
        HeaderMeta { axis1: a, ..m }
    } else {
        HeaderMeta { axis2: a, ..m }
    };
    let m2 = match a {
        Axis::X => HeaderMeta { x_type: Some(t), ..m1 },
        Axis::Y => HeaderMeta { y_type: Some(t), ..m1 },
        Axis::Z => HeaderMeta { z_type: Some(t), ..m1 },
    };
    HeaderMeta { n_principal: (m.n_principal + 1) as usize, ..m2 }
}

/// `m` after a property of type `t` that is not a coordinate: it counts
/// towards the gap it falls in.
pub open spec fn add_padding(m: HeaderMeta, t: PlyType) -> Option<HeaderMeta> {
    if m.n_principal == 0 {
        match pad_add(m.before, t) {
            Some(p) => Some(HeaderMeta { before: p, ..m }),
            None => None,
        }
    } else if m.n_principal == 1 {
        match pad_add(m.between_first_snd, t) {
            Some(p) => Some(HeaderMeta { between_first_snd: p, ..m }),
            None => None,
        }
    } else if m.n_principal == 2 {
        match pad_add(m.between_snd_third, t) {
            Some(p) => Some(HeaderMeta { between_snd_third: p, ..m }),
            None => None,
        }
    } else {
        match pad_add(m.after, t) {
            Some(p) => Some(HeaderMeta { after: p, ..m }),
            None => None,
        }
    }
}

/// A `property <type> <name>` line of the vertex element.
pub open spec fn vertex_property(m: HeaderMeta, w: Seq<Seq<u8>>, n: nat) -> Result<
    HeaderMeta,
    PlyError,
> {
    if w.len() < 3 || type_of(w[1]) is None {
        Err(PlyError::InvalidProperty(n as usize))
    } else {
        let t = type_of(w[1])->0;
        match axis_of(w[2]) {
            Some(a) => if !is_float_type(t) {
                Err(PlyError::InvalidProperty(n as usize))
            } else if m.n_principal >= 3 {
                Err(PlyError::HeaderInvalid)
            } else {
                Ok(add_axis(m, a, t))
            },
            None => match add_padding(m, t) {
                Some(m2) => Ok(m2),
                None => Err(PlyError::HeaderInvalid),
            },
        }
    }
}

/// A `property list <count> <index> <name>` line of the face element.
pub open spec fn face_property(w: Seq<Seq<u8>>, n: nat) -> Result<FaceList, PlyError> {
    if w.len() < 5 || type_of(w[2]) is None || type_of(w[3]) is None || is_float_type(
        type_of(w[2])->0,
    ) {
        Err(PlyError::InvalidProperty(n as usize))
    } else {
        Ok(FaceList { kind: list_kind_of(w[4]), count: type_of(w[2])->0, index: type_of(w[3])->0 })
    }
}

/// The header that `end_header` closes, where everything it needs was
/// declared.
pub open spec fn header_finish(st: HeaderState) -> Option<PlyHeaderModel> {
    let m = st.meta;
    if m.format is Some && m.n_vertices is Some && m.n_faces is Some && m.x_type is Some
        && m.y_type is Some && m.z_type is Some {
        Some(
            PlyHeaderModel {
                format: m.format->0,
                n_vertices: m.n_vertices->0,
                n_faces: m.n_faces->0,
                vertex: VertexLayout {
                    first_axis: m.axis0,
                    snd_axis: m.axis1,
                    third_axis: m.axis2,
                    first: axis_type(m, m.axis0)->0,
                    snd: axis_type(m, m.axis1)->0,
                    third: axis_type(m, m.axis2)->0,
                    before: m.before,
                    between_first_snd: m.between_first_snd,
                    between_snd_third: m.between_snd_third,
                    after: m.after,
                },
                face_lists: st.face_lists,
                texture_name: st.texture_name,
            },
        )
    } else {
        None
    }
}

pub enum HeaderStep {
    Continue(HeaderState),
    Done(PlyHeaderModel),
    Fail(PlyError),
}

/// The effect of header line number `n`.
pub open spec fn header_step(st: HeaderState, line: Seq<u8>, n: nat) -> HeaderStep {
    let w = words(line);
    let m = st.meta;
    if has_prefix(line, kw_comment()) {
        if w.len() > 2 && w[1] == kw_texture_file() {
            HeaderStep::Continue(HeaderState { texture_name: Some(w[2]), ..st })
        } else {
            HeaderStep::Continue(st)
        }
    } else if has_prefix(line, kw_obj_info()) {
        HeaderStep::Continue(st)
    } else if !m.ply_found {
        if line == kw_ply() {
            HeaderStep::Continue(HeaderState { meta: HeaderMeta { ply_found: true, ..m }, ..st })
        } else {
            HeaderStep::Fail(PlyError::StartNotFound)
        }
    } else if m.format is None {
        if line == kw_format_ascii() {
            HeaderStep::Continue(
                HeaderState { meta: HeaderMeta { format: Some(PlyFormat::Ascii), ..m }, ..st },
            )
        } else if line == kw_format_le() {
            HeaderStep::Continue(
                HeaderState { meta: HeaderMeta { format: Some(PlyFormat::LittleEndian), ..m }, ..st },
            )
        } else if line == kw_format_be() {
            HeaderStep::Continue(
                HeaderState { meta: HeaderMeta { format: Some(PlyFormat::BigEndian), ..m }, ..st },
            )
        } else {
            HeaderStep::Fail(PlyError::FormatNotFound)
        }
    } else if m.n_vertices is None && has_prefix(line, kw_element_vertex()) {
        if w.len() > 2 && usize_of(w[2]) is Some {
            HeaderStep::Continue(
                HeaderState {
                    meta: HeaderMeta {
                        state: ReadState::Vertex,
                        n_vertices: Some(usize_of(w[2])->0 as usize),
                        ..m
                    },
                    ..st
                },
            )
        } else {
            HeaderStep::Fail(PlyError::LineParse(n as usize))
        }
    } else if m.n_faces is None && has_prefix(line, kw_element_face()) {
        if w.len() > 2 && usize_of(w[2]) is Some {
            HeaderStep::Continue(
                HeaderState {
                    meta: HeaderMeta {
                        state: ReadState::Face,
                        n_faces: Some(usize_of(w[2])->0 as usize),
                        ..m
                    },
                    ..st
                },
            )
        } else {
            HeaderStep::Fail(PlyError::LineParse(n as usize))
        }
    } else if has_prefix(line, kw_property()) {
        match m.state {
            ReadState::Vertex => match vertex_property(m, w, n) {
                Ok(m2) => HeaderStep::Continue(HeaderState { meta: m2, ..st }),
                Err(e) => HeaderStep::Fail(e),
            },
            ReadState::Face => if has_prefix(line, kw_property_list()) {
                match face_property(w, n) {
                    Ok(l) => HeaderStep::Continue(
                        HeaderState { face_lists: st.face_lists.push(l), ..st },
                    ),
                    Err(e) => HeaderStep::Fail(e),
                }
            } else {
                HeaderStep::Continue(st)
            },
            ReadState::Meta => HeaderStep::Fail(PlyError::InvalidProperty(n as usize)),
        }
    } else if line == kw_end_header() {
        match header_finish(st) {
            Some(h) => HeaderStep::Done(h),
            None => HeaderStep::Fail(PlyError::HeaderInvalid),
        }
    } else {
        HeaderStep::Fail(PlyError::HeaderInvalid)
    }
}

/// The header read from the lines of `data` from byte `pos` on; with it,
/// where the body starts and the number of the body's first line.
pub open spec fn header_run(data: Seq<u8>, pos: int, st: HeaderState, n: nat) -> Result<
    (PlyHeaderModel, int, nat),
    PlyError,
>
    decreases data.len() - pos via header_run_decreases
{
    if pos < 0 || pos >= data.len() {
        Err(PlyError::HeaderInvalid)
    } else {
        match header_step(st, line_at(data, pos), n) {
            HeaderStep::Continue(next) => header_run(data, next_line_start(data, pos), next, n + 1),
            HeaderStep::Done(h) => Ok((h, next_line_start(data, pos), n + 1)),
            HeaderStep::Fail(e) => Err(e),
        }
    }
}

#[via_fn]
proof fn header_run_decreases(data: Seq<u8>, pos: int, st: HeaderState, n: nat) {
    if 0 <= pos < data.len() {
        lemma_next_line_advances(data, pos);
    }
}

pub open spec fn ply_header(data: Seq<u8>) -> Result<(PlyHeaderModel, int, nat), PlyError> {
    header_run(data, 0, header_start(), 1)
}

fn add_axis_exec(m: HeaderMeta, a: Axis, t: PlyType) -> (r: HeaderMeta)
    requires
        m.n_principal < 3,
    ensures
        r == add_axis(m, a, t),
{
    let mut m1 = m;
    if m.n_principal == 0 {
        m1.axis0 = a;
    } else if m.n_principal == 1 {
        m1.axis1 = a;
    } else {
        m1.axis2 = a;
    }
    match a {
        Axis::X => {
            m1.x_type = Some(t);
        },
        Axis::Y => {
            m1.y_type = Some(t);
        },
        Axis::Z => {
            m1.z_type = Some(t);
        },
    }
    m1.n_principal = m.n_principal + 1;
    m1
}

fn add_padding_exec(m: HeaderMeta, t: PlyType) -> (r: Option<HeaderMeta>)
    ensures
        r == add_padding(m, t),
{
    let mut m1 = m;
    if m.n_principal == 0 {
        match pad_add_exec(m.before, t) {
            Some(p) => {
                m1.before = p;
            },
            None => {
                return None;
            },
        }
    } else if m.n_principal == 1 {
        match pad_add_exec(m.between_first_snd, t) {
            Some(p) => {
                m1.between_first_snd = p;
            },
            None => {
                return None;
            },
        }
    } else if m.n_principal == 2 {
        match pad_add_exec(m.between_snd_third, t) {
            Some(p) => {
                m1.between_snd_third = p;
            },
            None => {
                return None;
            },
        }
    } else {
        match pad_add_exec(m.after, t) {
            Some(p) => {
                m1.after = p;
            },
            None => {
                return None;
            },
        }
    }
    Some(m1)
}

fn vertex_property_exec(m: HeaderMeta, w: &Vec<Vec<u8>>, n: usize) -> (r: Result<
    HeaderMeta,
    PlyError,
>)
    ensures
        r == vertex_property(m, bytes_seq(w@), n as nat),
{
    let ghost ws = bytes_seq(w@);
    if w.len() < 3 {
        return Err(PlyError::InvalidProperty(n));
    }
    assert(ws[1] == w@[1]@ && ws[2] == w@[2]@);
    let t = match parse_type(w[1].as_slice()) {
        Some(t) => t,
        None => {
            return Err(PlyError::InvalidProperty(n));
        },
    };
    match parse_axis(w[2].as_slice()) {
        Some(a) => {
            if !(t == PlyType::Float || t == PlyType::Double) {
                Err(PlyError::InvalidProperty(n))
            } else if m.n_principal >= 3 {
                Err(PlyError::HeaderInvalid)
            } else {
                Ok(add_axis_exec(m, a, t))
            }
        },
        None => match add_padding_exec(m, t) {
            Some(m2) => Ok(m2),
            None => Err(PlyError::HeaderInvalid),
        },
    }
}

fn face_property_exec(w: &Vec<Vec<u8>>, n: usize) -> (r: Result<FaceList, PlyError>)
    ensures
        r == face_property(bytes_seq(w@), n as nat),
{
    let ghost ws = bytes_seq(w@);
    if w.len() < 5 {
        return Err(PlyError::InvalidProperty(n));
    }
    assert(ws[2] == w@[2]@ && ws[3] == w@[3]@ && ws[4] == w@[4]@);
    let count = match parse_type(w[2].as_slice()) {
        Some(t) => t,
        None => {
            return Err(PlyError::InvalidProperty(n));
        },
    };
    let index = match parse_type(w[3].as_slice()) {
        Some(t) => t,
        None => {
            return Err(PlyError::InvalidProperty(n));
        },
    };
    if count == PlyType::Float || count == PlyType::Double {
        return Err(PlyError::InvalidProperty(n));
    }
    let kind = if word_is(w[4].as_slice(), lit_vertex_indices().as_slice()) {
        ListKind::VertexIndices
    } else if word_is(w[4].as_slice(), lit_texcoord().as_slice()) {
        ListKind::Texcoord
    } else {
        ListKind::Other
    };
    Ok(FaceList { kind, count, index })
}

fn axis_type_exec(m: &HeaderMeta, a: Axis) -> (r: Option<PlyType>)
    ensures
        r == axis_type(*m, a),
{
    match a {
        Axis::X => m.x_type,
        Axis::Y => m.y_type,
        Axis::Z => m.z_type,
    }
}

/// The header while its lines are read.
pub struct HeaderBuilder {
    pub meta: HeaderMeta,
    pub face_lists: Vec<FaceList>,
    pub texture_name: Option<Vec<u8>>,
}

impl View for HeaderBuilder {
    type V = HeaderState;

    open spec fn view(&self) -> HeaderState {
        HeaderState {
            meta: self.meta,
            face_lists: self.face_lists@,
            texture_name: opt_bytes(self.texture_name),
        }
    }
}

pub enum HeaderOutcome {
    More(HeaderBuilder),
    Finished(PlyHeader),
}

fn header_finish_exec(b: HeaderBuilder) -> (r: Option<PlyHeader>)
    ensures
        match r {
            Some(h) => header_finish(b@) == Some(h@),
            None => header_finish(b@) is None,
        },
{
    let m = b.meta;
    match (m.format, m.n_vertices, m.n_faces, m.x_type, m.y_type, m.z_type) {
        (Some(format), Some(n_vertices), Some(n_faces), Some(_), Some(_), Some(_)) => {
            let first = axis_type_exec(&m, m.axis0).unwrap();
            let snd = axis_type_exec(&m, m.axis1).unwrap();
            let third = axis_type_exec(&m, m.axis2).unwrap();
            Some(
                PlyHeader {
                    format,
                    n_vertices,
                    n_faces,
                    vertex: VertexLayout {
                        first_axis: m.axis0,
                        snd_axis: m.axis1,
                        third_axis: m.axis2,
                        first,
                        snd,
                        third,
                        before: m.before,
                        between_first_snd: m.between_first_snd,
                        between_snd_third: m.between_snd_third,
                        after: m.after,
                    },
                    face_lists: b.face_lists,
                    texture_name: b.texture_name,
                },
            )
        },
        _ => None,
    }
}

/// Applies header line number `n`.
fn header_line(b: HeaderBuilder, line: &[u8], n: usize) -> (r: Result<HeaderOutcome, PlyError>)
    ensures
        match r {
            Ok(HeaderOutcome::More(b2)) => header_step(b@, line@, n as nat) == HeaderStep::Continue(
                b2@,
            ),
            Ok(HeaderOutcome::Finished(h)) => header_step(b@, line@, n as nat) == HeaderStep::Done(
                h@,
            ) && line@ == kw_end_header(),
            Err(e) => header_step(b@, line@, n as nat) == HeaderStep::Fail(e),
        },
{
    let w = split_words(line);
    let ghost ws = bytes_seq(w@);
    let mut b = b;
    let m = b.meta;
    if starts_with(line, lit_comment().as_slice()) {
        if w.len() > 2 && word_is(w[1].as_slice(), lit_texture_file().as_slice()) {
            assert(ws[1] == w@[1]@ && ws[2] == w@[2]@);
            b.texture_name = Some(copy_range(w[2].as_slice(), 0, w[2].len()));
            assert(opt_bytes(b.texture_name) == Some(ws[2]));
        } else {
            proof {
                if w@.len() > 2 {
                    assert(ws[1] == w@[1]@);
                }
            }
        }
        return Ok(HeaderOutcome::More(b));
    }
    if starts_with(line, lit_obj_info().as_slice()) {
        return Ok(HeaderOutcome::More(b));
    }
    if !m.ply_found {
        if word_is(line, lit_ply().as_slice()) {
            b.meta.ply_found = true;
            return Ok(HeaderOutcome::More(b));
        }
        return Err(PlyError::StartNotFound);
    }
    if m.format.is_none() {
        if word_is(line, lit_format_ascii().as_slice()) {
            b.meta.format = Some(PlyFormat::Ascii);
        } else if word_is(line, lit_format_le().as_slice()) {
            b.meta.format = Some(PlyFormat::LittleEndian);
        } else if word_is(line, lit_format_be().as_slice()) {
            b.meta.format = Some(PlyFormat::BigEndian);
        } else {
            return Err(PlyError::FormatNotFound);
        }
        return Ok(HeaderOutcome::More(b));
    }
    if m.n_vertices.is_none() && starts_with(line, lit_element_vertex().as_slice()) {
        if w.len() > 2 {
            assert(ws[2] == w@[2]@);
            match parse_usize(w[2].as_slice()) {
                Some(v) => {
                    b.meta.state = ReadState::Vertex;
                    b.meta.n_vertices = Some(v);
                    return Ok(HeaderOutcome::More(b));
                },
                None => {},
            }
        }
        return Err(PlyError::LineParse(n));
    }
    if m.n_faces.is_none() && starts_with(line, lit_element_face().as_slice()) {
        if w.len() > 2 {
            assert(ws[2] == w@[2]@);
            match parse_usize(w[2].as_slice()) {
                Some(v) => {
                    b.meta.state = ReadState::Face;
                    b.meta.n_faces = Some(v);
                    return Ok(HeaderOutcome::More(b));
                },
                None => {},
            }
        }
        return Err(PlyError::LineParse(n));
    }
    if starts_with(line, lit_property().as_slice()) {
        match m.state {
            ReadState::Vertex => {
                match vertex_property_exec(m, &w, n) {
                    Ok(m2) => {
                        b.meta = m2;
                        return Ok(HeaderOutcome::More(b));
                    },
                    Err(e) => {
                        return Err(e);
                    },
                }
            },
            ReadState::Face => {
                if starts_with(line, lit_property_list().as_slice()) {
                    match face_property_exec(&w, n) {
                        Ok(l) => {
                            b.face_lists.push(l);
                            return Ok(HeaderOutcome::More(b));
                        },
                        Err(e) => {
                            return Err(e);
                        },
                    }
                }
                return Ok(HeaderOutcome::More(b));
            },
            ReadState::Meta => {
                return Err(PlyError::InvalidProperty(n));
            },
        }
    }
    if word_is(line, lit_end_header().as_slice()) {
        return match header_finish_exec(b) {
            Some(h) => Ok(HeaderOutcome::Finished(h)),
            None => Err(PlyError::HeaderInvalid),
        };
    }
    Err(PlyError::HeaderInvalid)
}

/// Reads the header of a PLY file. With the header come the position of
/// the body's first byte and the number of the body's first line.
pub fn load_header(data: &[u8]) -> (r: Result<(PlyHeader, usize, usize), PlyError>)
    ensures
        match r {
            Ok((h, pos, n)) => ply_header(data@) == Ok::<_, PlyError>(
                (h@, pos as int, n as nat),
            ),
            Err(e) => ply_header(data@) == Err::<(PlyHeaderModel, int, nat), _>(e),
        },
        r matches Ok((h, pos, n)) ==> pos <= data@.len() && n <= pos,
{
    let none = Padding { bytes: 0, words: 0 };
    let mut b = HeaderBuilder {
        meta: HeaderMeta {
            ply_found: false,
            format: None,
            n_vertices: None,
            n_faces: None,
            state: ReadState::Meta,
            n_principal: 0,
            axis0: Axis::X,
            axis1: Axis::X,
            axis2: Axis::X,
            x_type: None,
            y_type: None,
            z_type: None,
            before: none,
            between_first_snd: none,
            between_snd_third: none,
            after: none,
        },
        face_lists: Vec::new(),
        texture_name: None,
    };
    assert(b@.face_lists =~= header_start().face_lists);
    let mut pos: usize = 0;
    let mut k: usize = 0;
    while pos < data.len()
        invariant
            pos <= data@.len(),
            k <= pos,
            ply_header(data@) == header_run(data@, pos as int, b@, (k + 1) as nat),
        decreases data@.len() - pos,
    {
        let (end, next) = next_line(data, pos);
        let line = copy_range(data, pos, end);
        proof {
            lemma_next_line_advances(data@, pos as int);
        }
        match header_line(b, line.as_slice(), k + 1) {
            Ok(HeaderOutcome::More(b2)) => {
                b = b2;
            },
            Ok(HeaderOutcome::Finished(h)) => {
                assert(line@.len() == 10);
                return Ok((h, next, k + 2));
            },
            Err(e) => {
                return Err(e);
            },
        }
        pos = next;
        k = k + 1;
    }
    Err(PlyError::HeaderInvalid)
}

/// The value of an integer of type `t` at `pos`.
pub open spec fn int_at(data: Seq<u8>, pos: int, t: PlyType, order: ByteOrder) -> int {
    let raw = unsigned_at(data, pos, type_size(t) as int, order);
    if is_signed_type(t) {
        signed_of(raw, type_size(t))
    } else {
        raw as int
    }
}

/// An integer as an index: negative values wrap around as they do when
/// cast to `usize`, which puts them out of any mesh's range.
pub open spec fn index_of(v: int) -> usize {
    if v >= 0 {
        v as usize
    } else {
        (usize::MAX + 1 + v) as usize
    }
}

/// An index or count of a face record, of type `t`, at `pos`.
pub open spec fn index_at(data: Seq<u8>, pos: int, t: PlyType, order: ByteOrder) -> Result<
    usize,
    PlyError,
> {
    if is_float_type(t) {
        Err(PlyError::FaceStructure)
    } else if pos + type_size(t) > data.len() {
        Err(PlyError::AccessFile)
    } else {
        Ok(index_of(int_at(data, pos, t, order)))
    }
}

/// Reads an index or count of type `t` at `pos`.
pub fn read_face_type(data: &[u8], pos: usize, t: PlyType, order: ByteOrder) -> (r: Result<
    usize,
    PlyError,
>)
    ensures
        r == index_at(data@, pos as int, t, order),
{
    if t == PlyType::Float || t == PlyType::Double {
        return Err(PlyError::FaceStructure);
    }
    let size = size_bytes(t);
    if pos > data.len() || size > data.len() - pos {
        return Err(PlyError::AccessFile);
    }
    proof {
        lemma_pow256_8();
    }
    let raw = read_unsigned(data, pos, size, order);
    let full: u64 = if size == 1 {
        256
    } else if size == 2 {
        65536
    } else {
        4294967296
    };
    assert(full == pow256(size as nat));
    if (t == PlyType::Char || t == PlyType::Short || t == PlyType::Int) && raw >= full / 2 {
        Ok(usize::MAX - ((full - 1 - raw) as usize))
    } else {
        Ok(raw as usize)
    }
}

/// The size of a coordinate of type `t`: a `float` or else a `double`.
pub open spec fn coord_size(t: PlyType) -> nat {
    if t == PlyType::Float {
        4
    } else {
        8
    }
}

/// The coordinate of type `t` at `pos`, as its bit pattern.
pub open spec fn scalar_at(data: Seq<u8>, pos: int, t: PlyType, order: ByteOrder) -> ScalarModel {
    if t == PlyType::Float {
        ScalarModel::Single(unsigned_at(data, pos, 4, order) as u32)
    } else {
        ScalarModel::Double(unsigned_at(data, pos, 8, order) as u64)
    }
}

/// The coordinate of type `t` at `pos`, if the data holds it.
pub open spec fn coord_at(data: Seq<u8>, pos: int, t: PlyType, order: ByteOrder) -> Result<
    ScalarModel,
    PlyError,
> {
    if pos + coord_size(t) > data.len() {
        Err(PlyError::AccessFile)
    } else {
        Ok(scalar_at(data, pos, t, order))
    }
}

/// Reads the coordinate of type `t` at `pos`; too few bytes left is a read
/// error.
pub fn read_vertex_type(data: &[u8], pos: usize, t: PlyType, order: ByteOrder) -> (r: Result<
    Scalar,
    PlyError,
>)
    ensures
        match r {
            Ok(v) => coord_at(data@, pos as int, t, order) == Ok::<_, PlyError>(v@),
            Err(e) => coord_at(data@, pos as int, t, order) == Err::<ScalarModel, _>(e),
        },
{
    proof {
        lemma_pow256_8();
    }
    let size: usize = if t == PlyType::Float {
        4
    } else {
        8
    };
    if pos > data.len() || size > data.len() - pos {
        return Err(PlyError::AccessFile);
    }
    if t == PlyType::Float {
        Ok(Scalar::Single(read_unsigned(data, pos, 4, order) as u32))
    } else {
        Ok(Scalar::Double(read_unsigned(data, pos, 8, order)))
    }
}

/// Reads a coordinate that the data is known to hold.
fn read_coord(data: &[u8], pos: usize, t: PlyType, order: ByteOrder) -> (r: Scalar)
    requires
        pos + coord_size(t) <= data@.len(),
    ensures
        r@ == scalar_at(data@, pos as int, t, order),
{
    match read_vertex_type(data, pos, t, order) {
        Ok(v) => v,
        // Not reached: the data holds the coordinate.
        Err(_) => Scalar::Single(0),
    }
}

/// The coordinate of axis `a` among the three columns of a record.
pub open spec fn pick<T>(l: VertexLayout, a: Axis, fst: T, snd: T, third: T) -> T {
    if l.first_axis == a {
        fst
    } else if l.snd_axis == a {
        snd
    } else {
        third
    }
}

/// The point of three columns read in file order.
pub open spec fn ordered_point(
    l: VertexLayout,
    fst: ScalarModel,
    snd: ScalarModel,
    third: ScalarModel,
) -> Point3Model {
    (
        pick(l, Axis::X, fst, snd, third),
        pick(l, Axis::Y, fst, snd, third),
        pick(l, Axis::Z, fst, snd, third),
    )
}

fn pick_exec<'a>(l: &VertexLayout, a: Axis, fst: &'a Scalar, snd: &'a Scalar, third: &'a Scalar) -> (r: &'a Scalar)
    ensures
        r@ == pick(*l, a, fst@, snd@, third@),
{
    if l.first_axis == a {
        fst
    } else if l.snd_axis == a {
        snd
    } else {
        third
    }
}

/// Builds a point from three columns read in file order.
pub fn point_with_order(fst: Scalar, snd: Scalar, third: Scalar, l: &VertexLayout) -> (r: Point3)
    ensures
        r@ == ordered_point(*l, fst@, snd@, third@),
{
    let x = pick_exec(l, Axis::X, &fst, &snd, &third).copy();
    let y = pick_exec(l, Axis::Y, &fst, &snd, &third).copy();
    let z = pick_exec(l, Axis::Z, &fst, &snd, &third).copy();
    Point3 { x, y, z }
}

/// The size of a binary vertex record.
pub open spec fn record_size(l: VertexLayout) -> int {
    l.before.bytes + coord_size(l.first) + l.between_first_snd.bytes + coord_size(l.snd)
        + l.between_snd_third.bytes + coord_size(l.third) + l.after.bytes
}

/// The vertex whose binary record starts at `p`.
pub open spec fn vertex_at(data: Seq<u8>, p: int, l: VertexLayout, order: ByteOrder) -> Point3Model {
    let at_first = p + l.before.bytes;
    let at_snd = at_first + coord_size(l.first) + l.between_first_snd.bytes;
    let at_third = at_snd + coord_size(l.snd) + l.between_snd_third.bytes;
    ordered_point(
        l,
        scalar_at(data, at_first, l.first, order),
        scalar_at(data, at_snd, l.snd, order),
        scalar_at(data, at_third, l.third, order),
    )
}

/// The `n` vertices of a binary body that starts at `body`.
pub open spec fn binary_vertices(
    data: Seq<u8>,
    body: int,
    n: nat,
    l: VertexLayout,
    order: ByteOrder,
) -> Seq<Point3Model> {
    Seq::new(n, |i: int| vertex_at(data, body + i * record_size(l), l, order))
}

/// What the face records have given so far: the faces of the surface, its
/// face-to-texture-triangle links, the texture coordinates, and the faces
/// that joined the mesh or did not fit it.
pub struct BodyAcc {
    pub faces: Seq<Face3>,
    pub uvs: Seq<(Face3, Face3)>,
    pub uv: Seq<Point3Model>,
    pub mesh_faces: Seq<Face3>,
    pub rejected: Seq<Face3>,
}

pub open spec fn empty_acc() -> BodyAcc {
    BodyAcc { faces: seq![], uvs: seq![], uv: seq![], mesh_faces: seq![], rejected: seq![] }
}

/// `acc` with face `f` added to the surface, and to the mesh of `nv`
/// vertices if it fits.
pub open spec fn add_mesh_face(acc: BodyAcc, f: Face3, nv: nat) -> BodyAcc {
    BodyAcc {
        faces: set_insert(acc.faces, f),
        mesh_faces: if face_fits(f, nv) {
            acc.mesh_faces.push(f)
        } else {
            acc.mesh_faces
        },
        rejected: if face_fits(f, nv) {
            acc.rejected
        } else {
            acc.rejected.push(f)
        },
        ..acc
    }
}

pub open spec fn one_text() -> Seq<u8> {
    seq![49u8]
}

/// The texture coordinate of the pair of type `t` at `p`; its third
/// component is 1.
pub open spec fn uv_point(data: Seq<u8>, p: int, t: PlyType, order: ByteOrder) -> Point3Model {
    (
        scalar_at(data, p, t, order),
        scalar_at(data, p + coord_size(t), t, order),
        ScalarModel::Decimal(one_text()),
    )
}

/// The face and texture triangle that a face record has given so far.
pub type RecordFaces = (Option<Face3>, Option<Face3>);

/// Reads the list `l` of a face record at `pos`; the result holds where
/// the next list starts.
pub open spec fn list_step(
    data: Seq<u8>,
    pos: int,
    l: FaceList,
    order: ByteOrder,
    nv: nat,
    acc: BodyAcc,
    rec: RecordFaces,
) -> Result<(int, BodyAcc, RecordFaces), PlyError> {
    match index_at(data, pos, l.count, order) {
        Err(e) => Err(e),
        Ok(c) => {
            let p = pos + type_size(l.count);
            let sz = type_size(l.index) as int;
            match l.kind {
                ListKind::VertexIndices => if c != 3 || is_float_type(l.index) {
                    Err(PlyError::FaceStructure)
                } else if p + 3 * sz > data.len() {
                    Err(PlyError::AccessFile)
                } else {
                    let f = Face3 {
                        a: index_of(int_at(data, p, l.index, order)),
                        b: index_of(int_at(data, p + sz, l.index, order)),
                        c: index_of(int_at(data, p + 2 * sz, l.index, order)),
                    };
                    Ok((p + 3 * sz, add_mesh_face(acc, f, nv), (Some(f), rec.1)))
                },
                ListKind::Texcoord => if c != 6 || !is_float_type(l.index) {
                    Err(PlyError::FaceStructure)
                } else if p + 6 * sz > data.len() {
                    Err(PlyError::AccessFile)
                } else {
                    let base = acc.uv.len();
                    Ok(
                        (
                            p + 6 * sz,
                            BodyAcc {
                                uv: acc.uv + seq![
                                    uv_point(data, p, l.index, order),
                                    uv_point(data, p + 2 * sz, l.index, order),
                                    uv_point(data, p + 4 * sz, l.index, order),
                                ],
                                ..acc
                            },
                            (
                                rec.0,
                                Some(
                                    Face3 {
                                        a: base as usize,
                                        b: (base + 1) as usize,
                                        c: (base + 2) as usize,
                                    },
                                ),
                            ),
                        ),
                    )
                },
                ListKind::Other => if c * sz > data.len() - p {
                    Err(PlyError::AccessFile)
                } else {
                    Ok((p + c * sz, acc, rec))
                },
            }
        },
    }
}

/// Reads the lists of a face record from the `j`-th on.
pub open spec fn record_run(
    data: Seq<u8>,
    pos: int,
    lists: Seq<FaceList>,
    j: int,
    order: ByteOrder,
    nv: nat,
    acc: BodyAcc,
    rec: RecordFaces,
) -> Result<(int, BodyAcc, RecordFaces), PlyError>
    decreases lists.len() - j,
{
    if j < 0 || j >= lists.len() {
        Ok((pos, acc, rec))
    } else {
        match list_step(data, pos, lists[j], order, nv, acc, rec) {
            Ok((p, a, r)) => record_run(data, p, lists, j + 1, order, nv, a, r),
            Err(e) => Err(e),
        }
    }
}

/// `acc` with the texture triangle of a record linked to its face, where
/// the record gave both.
pub open spec fn link(acc: BodyAcc, rec: RecordFaces) -> BodyAcc {
    match rec {
        (Some(f), Some(t)) => BodyAcc { uvs: map_insert(acc.uvs, f, t), ..acc },
        _ => acc,
    }
}

/// Reads face records `i` to `nf` of a binary body.
pub open spec fn faces_run(
    data: Seq<u8>,
    pos: int,
    i: nat,
    nf: nat,
    lists: Seq<FaceList>,
    order: ByteOrder,
    nv: nat,
    acc: BodyAcc,
) -> Result<BodyAcc, PlyError>
    decreases nf - i,
{
    if i >= nf {
        Ok(acc)
    } else {
        match record_run(data, pos, lists, 0, order, nv, acc, (None, None)) {
            Ok((p, a, r)) => faces_run(data, p, i + 1, nf, lists, order, nv, link(a, r)),
            Err(e) => Err(e),
        }
    }
}

/// The vertices and face records of a binary body that starts at `body`.
pub open spec fn binary_body(data: Seq<u8>, body: int, h: PlyHeaderModel, order: ByteOrder) -> Result<
    (Seq<Point3Model>, BodyAcc),
    PlyError,
> {
    let vend = body + h.n_vertices * record_size(h.vertex);
    if vend > data.len() {
        Err(PlyError::AccessFile)
    } else {
        match faces_run(
            data,
            vend,
            0,
            h.n_faces as nat,
            h.face_lists,
            order,
            h.n_vertices as nat,
            empty_acc(),
        ) {
            Ok(acc) => Ok((binary_vertices(data, body, h.n_vertices as nat, h.vertex, order), acc)),
            Err(e) => Err(e),
        }
    }
}

/// The faces, texture coordinates and mesh that a body fills.
pub struct BodyBuilder {
    pub surface: MaterialSurface,
    pub uv: Vec<Point3>,
    pub mesh: Mesh,
    pub rejected: Vec<Face3>,
}

pub open spec fn acc_of(b: &BodyBuilder) -> BodyAcc {
    BodyAcc {
        faces: b.surface.faces@,
        uvs: b.surface.uvs@,
        uv: points_view(b.uv@),
        mesh_faces: b.mesh.faces@,
        rejected: b.rejected@,
    }
}

/// The parts of a builder that reading faces leaves as they are.
pub open spec fn same_frame(a: &BodyBuilder, b: &BodyBuilder) -> bool {
    a.mesh@.vertices == b.mesh@.vertices && a.surface.material@ == b.surface.material@
}

fn add_mesh_face_exec(b: &mut BodyBuilder, f: Face3)
    ensures
        acc_of(final(b)) == add_mesh_face(acc_of(old(b)), f, old(b).mesh@.vertices.len()),
        same_frame(final(b), old(b)),
        final(b).uv@ == old(b).uv@,
{
    insert_face(&mut b.surface.faces, f);
    if !b.mesh.try_add_connection(f) {
        b.rejected.push(f);
    }
}

fn coord_size_exec(t: PlyType) -> (r: usize)
    ensures
        r == coord_size(t),
{
    if t == PlyType::Float {
        4
    } else {
        8
    }
}

fn record_size_exec(l: &VertexLayout) -> (r: Option<usize>)
    ensures
        r matches Some(s) ==> s == record_size(*l),
        r is None ==> record_size(*l) > usize::MAX,
{
    let s = l.before.bytes.checked_add(coord_size_exec(l.first))?;
    let s = s.checked_add(l.between_first_snd.bytes)?;
    let s = s.checked_add(coord_size_exec(l.snd))?;
    let s = s.checked_add(l.between_snd_third.bytes)?;
    let s = s.checked_add(coord_size_exec(l.third))?;
    s.checked_add(l.after.bytes)
}

/// Reads the vertex records of a binary body that starts at `body`; the
/// result holds where the face records start.
fn read_binary_vertices(data: &[u8], body: usize, h: &PlyHeader, order: ByteOrder) -> (r: Result<
    (Vec<Point3>, usize),
    PlyError,
>)
    requires
        body <= data@.len(),
    ensures
        match r {
            Ok((vs, p)) => {
                &&& p == body + h.n_vertices * record_size(h.vertex)
                &&& p <= data@.len()
                &&& points_view(vs@) == binary_vertices(
                    data@,
                    body as int,
                    h.n_vertices as nat,
                    h.vertex,
                    order,
                )
            },
            Err(e) => e == PlyError::AccessFile && body + h.n_vertices * record_size(h.vertex)
                > data@.len(),
        },
{
    let l = h.vertex;
    let n = h.n_vertices;
    let ghost rs = record_size(l);
    let ghost want = binary_vertices(data@, body as int, n as nat, l, order);
    let c1 = coord_size_exec(l.first);
    let c2 = coord_size_exec(l.snd);
    let c3 = coord_size_exec(l.third);
    let mut vs: Vec<Point3> = Vec::new();
    if n == 0 {
        assert(points_view(vs@) =~= want);
        return Ok((vs, body));
    }
    let size = match record_size_exec(&l) {
        Some(t) => t,
        None => {
            assert(n * rs >= rs) by (nonlinear_arith)
                requires
                    n >= 1,
                    rs >= 0,
            ;
            assert(data@.len() == data.len());
            assert(rs > usize::MAX);
            return Err(PlyError::AccessFile);
        },
    };
    assert(size == rs);
    let dl = data.len();
    let total = match n.checked_mul(size) {
        Some(t) => t,
        None => {
            assert(n * size > usize::MAX);
            assert(dl == data@.len());
            assert(body + n * rs > data@.len());
            return Err(PlyError::AccessFile);
        },
    };
    if total > dl - body {
        assert(n * rs == total);
        return Err(PlyError::AccessFile);
    }
    let mut i: usize = 0;
    let mut p: usize = body;
    assert(points_view(vs@) =~= want.take(0));
    while i < n
        invariant
            i <= n,
            n == h.n_vertices,
            l == h.vertex,
            size == rs,
            rs == record_size(l),
            total == n * rs,
            body + total <= data.len(),
            p == body + i * rs,
            c1 == coord_size(l.first),
            c2 == coord_size(l.snd),
            c3 == coord_size(l.third),
            want == binary_vertices(data@, body as int, n as nat, l, order),
            points_view(vs@) == want.take(i as int),
        decreases n - i,
    {
        assert(p + rs <= body + total) by (nonlinear_arith)
            requires
                p == body + i * rs,
                i < n,
                total == n * rs,
                rs >= 0,
        ;
        assert(rs == l.before.bytes + c1 + l.between_first_snd.bytes + c2 + l.between_snd_third.bytes
            + c3 + l.after.bytes);
        let at_first = p + l.before.bytes;
        let at_snd = at_first + c1 + l.between_first_snd.bytes;
        let at_third = at_snd + c2 + l.between_snd_third.bytes;
        let x = read_coord(data, at_first, l.first, order);
        let y = read_coord(data, at_snd, l.snd, order);
        let z = read_coord(data, at_third, l.third, order);
        let v = point_with_order(x, y, z, &l);
        proof {
            lemma_points_view_push(vs@, v);
            assert(want.take(i + 1) =~= want.take(i as int).push(v@));
        }
        vs.push(v);
        assert(p + rs == body + (i + 1) * rs) by (nonlinear_arith)
            requires
                p == body + i * rs,
        ;
        p = p + size;
        i = i + 1;
    }
    assert(want.take(n as int) =~= want);
    Ok((vs, p))
}

/// Reads list `l` of a face record at `pos`.
fn list_step_exec(
    data: &[u8],
    pos: usize,
    l: FaceList,
    order: ByteOrder,
    b: &mut BodyBuilder,
    rec: &mut RecordFaces,
) -> (r: Result<usize, PlyError>)
    requires
        pos <= data@.len(),
        old(b).uv@.len() * 8 <= pos,
    ensures
        same_frame(final(b), old(b)),
        match r {
            Ok(p) => {
                &&& list_step(
                    data@,
                    pos as int,
                    l,
                    order,
                    old(b).mesh@.vertices.len(),
                    acc_of(old(b)),
                    *old(rec),
                ) == Ok::<_, PlyError>((p as int, acc_of(final(b)), *final(rec)))
                &&& p <= data@.len()
                &&& final(b).uv@.len() * 8 <= p
            },
            Err(e) => list_step(
                data@,
                pos as int,
                l,
                order,
                old(b).mesh@.vertices.len(),
                acc_of(old(b)),
                *old(rec),
            ) == Err::<(int, BodyAcc, RecordFaces), _>(e),
        },
{
    let dl = data.len();
    let c = match read_face_type(data, pos, l.count, order) {
        Ok(c) => c,
        Err(e) => {
            return Err(e);
        },
    };
    let p = pos + size_bytes(l.count);
    let sz = size_bytes(l.index);
    match l.kind {
        ListKind::VertexIndices => {
            if c != 3 || l.index == PlyType::Float || l.index == PlyType::Double {
                return Err(PlyError::FaceStructure);
            }
            if 3 * sz > data.len() - p {
                return Err(PlyError::AccessFile);
            }
            let fa = read_face_type(data, p, l.index, order);
            let fb = read_face_type(data, p + sz, l.index, order);
            let fc = read_face_type(data, p + 2 * sz, l.index, order);
            let f = Face3 { a: fa.unwrap(), b: fb.unwrap(), c: fc.unwrap() };
            add_mesh_face_exec(b, f);
            rec.0 = Some(f);
            Ok(p + 3 * sz)
        },
        ListKind::Texcoord => {
            if c != 6 || !(l.index == PlyType::Float || l.index == PlyType::Double) {
                return Err(PlyError::FaceStructure);
            }
            if 6 * sz > data.len() - p {
                return Err(PlyError::AccessFile);
            }
            let base = b.uv.len();
            let one: [u8; 1] = [49u8];
            assert(one@ =~= one_text());
            let ghost before = points_view(b.uv@);
            let mut k: usize = 0;
            while k < 3
                invariant
                    k <= 3,
                    sz == type_size(l.index),
                    is_float_type(l.index),
                    p + 6 * sz <= dl,
                    dl == data@.len(),
                    base == before.len(),
                    one@ == one_text(),
                    points_view(b.uv@) == before + Seq::new(
                        k as nat,
                        |m: int| uv_point(data@, p + 2 * m * sz, l.index, order),
                    ),
                    same_frame(b, old(b)),
                    b.surface.faces@ == old(b).surface.faces@,
                    b.surface.uvs@ == old(b).surface.uvs@,
                    b.mesh.faces@ == old(b).mesh.faces@,
                    b.rejected@ == old(b).rejected@,
                decreases 3 - k,
            {
                let q = p + 2 * k * sz;
                let x = read_coord(data, q, l.index, order);
                let y = read_coord(data, q + sz, l.index, order);
                let pt = Point3 { x, y, z: Scalar::decimal(one.as_slice()) };
                proof {
                    lemma_points_view_push(b.uv@, pt);
                    assert(before + Seq::new(
                        (k + 1) as nat,
                        |m: int| uv_point(data@, p + 2 * m * sz, l.index, order),
                    ) =~= (before + Seq::new(
                        k as nat,
                        |m: int| uv_point(data@, p + 2 * m * sz, l.index, order),
                    )).push(pt@));
                }
                b.uv.push(pt);
                k = k + 1;
            }
            assert(Seq::new(3, |m: int| uv_point(data@, p + 2 * m * sz, l.index, order)) =~= seq![
                uv_point(data@, p as int, l.index, order),
                uv_point(data@, p + 2 * sz, l.index, order),
                uv_point(data@, p + 4 * sz, l.index, order),
            ]);
            assert(sz >= 4);
            rec.1 = Some(Face3 { a: base, b: base + 1, c: base + 2 });
            Ok(p + 6 * sz)
        },
        ListKind::Other => {
            let skip = match c.checked_mul(sz) {
                Some(t) => t,
                None => {
                    return Err(PlyError::AccessFile);
                },
            };
            if skip > data.len() - p {
                return Err(PlyError::AccessFile);
            }
            Ok(p + skip)
        },
    }
}

/// Reads the lists of one face record at `pos`.
fn read_record(
    data: &[u8],
    pos: usize,
    lists: &Vec<FaceList>,
    order: ByteOrder,
    b: &mut BodyBuilder,
) -> (r: Result<(usize, RecordFaces), PlyError>)
    requires
        pos <= data@.len(),
        old(b).uv@.len() * 8 <= pos,
    ensures
        same_frame(final(b), old(b)),
        match r {
            Ok((p, rec)) => {
                &&& record_run(
                    data@,
                    pos as int,
                    lists@,
                    0,
                    order,
                    old(b).mesh@.vertices.len(),
                    acc_of(old(b)),
                    (None, None),
                ) == Ok::<_, PlyError>((p as int, acc_of(final(b)), rec))
                &&& p <= data@.len()
                &&& final(b).uv@.len() * 8 <= p
            },
            Err(e) => record_run(
                data@,
                pos as int,
                lists@,
                0,
                order,
                old(b).mesh@.vertices.len(),
                acc_of(old(b)),
                (None, None),
            ) == Err::<(int, BodyAcc, RecordFaces), _>(e),
        },
{
    let ghost nv = b.mesh@.vertices.len();
    let ghost start = acc_of(b);
    let mut rec: RecordFaces = (None, None);
    let mut p = pos;
    let mut j: usize = 0;
    while j < lists.len()
        invariant
            j <= lists@.len(),
            p <= data@.len(),
            b.uv@.len() * 8 <= p,
            same_frame(b, old(b)),
            nv == old(b).mesh@.vertices.len(),
            start == acc_of(old(b)),
            record_run(data@, pos as int, lists@, 0, order, nv, start, (None, None)) == record_run(
                data@,
                p as int,
                lists@,
                j as int,
                order,
                nv,
                acc_of(b),
                rec,
            ),
        decreases lists@.len() - j,
    {
        match list_step_exec(data, p, lists[j], order, b, &mut rec) {
            Ok(q) => {
                p = q;
            },
            Err(e) => {
                return Err(e);
            },
        }
        j = j + 1;
    }
    Ok((p, rec))
}

fn link_exec(b: &mut BodyBuilder, rec: RecordFaces)
    ensures
        acc_of(final(b)) == link(acc_of(old(b)), rec),
        same_frame(final(b), old(b)),
        final(b).uv@ == old(b).uv@,
{
    match rec {
        (Some(f), Some(t)) => insert_uv(&mut b.surface.uvs, f, t),
        _ => {},
    }
}

/// Reads a binary body that starts at `body`, in byte order `order`.
fn load_binary(data: &[u8], body: usize, h: &PlyHeader, order: ByteOrder) -> (r: Result<
    BodyBuilder,
    PlyError,
>)
    requires
        body <= data@.len(),
    ensures
        match r {
            Ok(b) => {
                &&& binary_body(data@, body as int, h@, order) == Ok::<_, PlyError>(
                    (b.mesh@.vertices, acc_of(&b)),
                )
                &&& b.surface.material@ == default_material()
            },
            Err(e) => binary_body(data@, body as int, h@, order) == Err::<
                (Seq<Point3Model>, BodyAcc),
                _,
            >(e),
        },
{
    let (vs, vend) = match read_binary_vertices(data, body, h, order) {
        Ok(x) => x,
        Err(e) => {
            return Err(e);
        },
    };
    let ghost vs_view = vs@;
    let mut b = BodyBuilder {
        surface: MaterialSurface::new(),
        uv: Vec::new(),
        mesh: Mesh { vertices: vs, faces: Vec::new() },
        rejected: Vec::new(),
    };
    assert(acc_of(&b) =~= empty_acc()) by {
        assert(b.surface.faces@ =~= seq![]);
        assert(b.surface.uvs@ =~= seq![]);
        assert(points_view(b.uv@) =~= seq![]);
        assert(b.mesh.faces@ =~= seq![]);
        assert(b.rejected@ =~= seq![]);
    };
    let ghost verts = b.mesh@.vertices;
    assert(verts == points_view(vs_view));
    let mut p = vend;
    let mut i: usize = 0;
    while i < h.n_faces
        invariant
            i <= h.n_faces,
            p <= data@.len(),
            vend == body + h.n_vertices * record_size(h.vertex),
            vend <= data@.len(),
            points_view(vs_view) == binary_vertices(
                data@,
                body as int,
                h.n_vertices as nat,
                h.vertex,
                order,
            ),
            b.uv@.len() * 8 <= p,
            b.mesh@.vertices == verts,
            verts.len() == h.n_vertices,
            b.surface.material@ == default_material(),
            faces_run(
                data@,
                vend as int,
                0,
                h.n_faces as nat,
                h.face_lists@,
                order,
                h.n_vertices as nat,
                empty_acc(),
            ) == faces_run(
                data@,
                p as int,
                i as nat,
                h.n_faces as nat,
                h.face_lists@,
                order,
                h.n_vertices as nat,
                acc_of(&b),
            ),
        decreases h.n_faces - i,
    {
        match read_record(data, p, &h.face_lists, order, &mut b) {
            Ok((q, rec)) => {
                link_exec(&mut b, rec);
                p = q;
            },
            Err(e) => {
                return Err(e);
            },
        }
        i = i + 1;
    }
    Ok(b)
}

/// The vertex of an ASCII line: the words of the three coordinate columns
/// after skipping the other properties.
pub open spec fn ascii_vertex(w: Seq<Seq<u8>>, l: VertexLayout) -> Option<Point3Model> {
    let i1 = l.before.words as int;
    let i2 = i1 + 1 + l.between_first_snd.words;
    let i3 = i2 + 1 + l.between_snd_third.words;
    if w.len() > i3 && is_float_text(w[i1]) && is_float_text(w[i2]) && is_float_text(w[i3]) {
        Some(
            ordered_point(
                l,
                ScalarModel::Decimal(w[i1]),
                ScalarModel::Decimal(w[i2]),
                ScalarModel::Decimal(w[i3]),
            ),
        )
    } else {
        None
    }
}

/// The triangle of an ASCII face line `3 a b c`.
pub open spec fn index_line(w: Seq<Seq<u8>>) -> Option<Face3> {
    if w.len() >= 4 && w[0] == kw_three() && usize_of(w[1]) is Some && usize_of(w[2]) is Some
        && usize_of(w[3]) is Some {
        Some(
            Face3 {
                a: usize_of(w[1])->0 as usize,
                b: usize_of(w[2])->0 as usize,
                c: usize_of(w[3])->0 as usize,
            },
        )
    } else {
        None
    }
}

pub struct AsciiState {
    pub vertices: Seq<Point3Model>,
    pub faces_read: nat,
    pub acc: BodyAcc,
}

/// The effect of line number `n` of an ASCII body: vertex lines until the
/// announced vertices are read, then face lines until the announced faces
/// are read; later lines are ignored.
pub open spec fn ascii_step(st: AsciiState, line: Seq<u8>, n: nat, h: PlyHeaderModel) -> Result<
    AsciiState,
    PlyError,
> {
    let w = words(line);
    if st.vertices.len() < h.n_vertices {
        match ascii_vertex(w, h.vertex) {
            Some(v) => Ok(AsciiState { vertices: st.vertices.push(v), ..st }),
            None => Err(PlyError::InvalidVertex(n as usize)),
        }
    } else if st.faces_read < h.n_faces {
        match index_line(w) {
            Some(f) => Ok(
                AsciiState {
                    faces_read: st.faces_read + 1,
                    acc: add_mesh_face(st.acc, f, st.vertices.len()),
                    ..st
                },
            ),
            None => Err(PlyError::FaceStructure),
        }
    } else {
        Ok(st)
    }
}

pub open spec fn ascii_run(data: Seq<u8>, pos: int, st: AsciiState, n: nat, h: PlyHeaderModel) -> Result<
    AsciiState,
    PlyError,
>
    decreases data.len() - pos via ascii_run_decreases
{
    if pos < 0 || pos >= data.len() {
        Ok(st)
    } else {
        match ascii_step(st, line_at(data, pos), n, h) {
            Ok(next) => ascii_run(data, next_line_start(data, pos), next, n + 1, h),
            Err(e) => Err(e),
        }
    }
}

#[via_fn]
proof fn ascii_run_decreases(data: Seq<u8>, pos: int, st: AsciiState, n: nat, h: PlyHeaderModel) {
    if 0 <= pos < data.len() {
        lemma_next_line_advances(data, pos);
    }
}

/// The vertices and faces of an ASCII body that starts at byte `body`,
/// line number `n`. A body with fewer vertex or face lines than the header
/// announces is an error.
pub open spec fn ascii_body(data: Seq<u8>, body: int, n: nat, h: PlyHeaderModel) -> Result<
    (Seq<Point3Model>, BodyAcc),
    PlyError,
> {
    match ascii_run(data, body, AsciiState { vertices: seq![], faces_read: 0, acc: empty_acc() }, n, h) {
        Ok(st) => if st.vertices.len() != h.n_vertices {
            Err(PlyError::VertexCountIncorrect)
        } else if st.faces_read != h.n_faces {
            Err(PlyError::FaceStructure)
        } else {
            Ok((st.vertices, st.acc))
        },
        Err(e) => Err(e),
    }
}

fn ascii_vertex_exec(w: &Vec<Vec<u8>>, l: &VertexLayout) -> (r: Option<Point3>)
    ensures
        match r {
            Some(p) => ascii_vertex(bytes_seq(w@), *l) == Some(p@),
            None => ascii_vertex(bytes_seq(w@), *l) is None,
        },
{
    let ghost ws = bytes_seq(w@);
    let wl = w.len();
    let i1 = l.before.words;
    if i1 >= wl {
        return None;
    }
    if l.between_first_snd.words >= wl - i1 - 1 {
        return None;
    }
    let i2 = i1 + 1 + l.between_first_snd.words;
    if l.between_snd_third.words >= wl - i2 - 1 {
        return None;
    }
    let i3 = i2 + 1 + l.between_snd_third.words;
    assert(ws[i1 as int] == w@[i1 as int]@ && ws[i2 as int] == w@[i2 as int]@ && ws[i3 as int]
        == w@[i3 as int]@);
    if float_token(w[i1].as_slice()) && float_token(w[i2].as_slice()) && float_token(
        w[i3].as_slice(),
    ) {
        Some(
            point_with_order(
                Scalar::decimal(w[i1].as_slice()),
                Scalar::decimal(w[i2].as_slice()),
                Scalar::decimal(w[i3].as_slice()),
                l,
            ),
        )
    } else {
        None
    }
}

fn index_line_exec(w: &Vec<Vec<u8>>) -> (r: Option<Face3>)
    ensures
        r == index_line(bytes_seq(w@)),
{
    let ghost ws = bytes_seq(w@);
    if w.len() < 4 {
        return None;
    }
    assert(ws[0] == w@[0]@ && ws[1] == w@[1]@ && ws[2] == w@[2]@ && ws[3] == w@[3]@);
    if !word_is(w[0].as_slice(), lit_three().as_slice()) {
        return None;
    }
    match (parse_usize(w[1].as_slice()), parse_usize(w[2].as_slice()), parse_usize(w[3].as_slice())) {
        (Some(a), Some(b), Some(c)) => Some(Face3 { a, b, c }),
        _ => None,
    }
}

pub open spec fn ascii_state_of(b: &BodyBuilder, faces_read: usize) -> AsciiState {
    AsciiState { vertices: b.mesh@.vertices, faces_read: faces_read as nat, acc: acc_of(b) }
}

/// Reads an ASCII body that starts at byte `body`, line number `n`.
fn load_ascii(data: &[u8], body: usize, n: usize, h: &PlyHeader) -> (r: Result<BodyBuilder, PlyError>)
    requires
        body <= data@.len(),
        n <= body,
    ensures
        match r {
            Ok(b) => {
                &&& ascii_body(data@, body as int, n as nat, h@) == Ok::<_, PlyError>(
                    (b.mesh@.vertices, acc_of(&b)),
                )
                &&& b.surface.material@ == default_material()
            },
            Err(e) => ascii_body(data@, body as int, n as nat, h@) == Err::<
                (Seq<Point3Model>, BodyAcc),
                _,
            >(e),
        },
{
    let mut b = BodyBuilder {
        surface: MaterialSurface::new(),
        uv: Vec::new(),
        mesh: Mesh::new(),
        rejected: Vec::new(),
    };
    let mut faces_read: usize = 0;
    assert(ascii_state_of(&b, faces_read) =~= AsciiState {
        vertices: seq![],
        faces_read: 0,
        acc: empty_acc(),
    }) by {
        assert(b.surface.faces@ =~= seq![]);
        assert(b.surface.uvs@ =~= seq![]);
        assert(points_view(b.uv@) =~= seq![]);
        assert(b.mesh.faces@ =~= seq![]);
        assert(b.mesh@.vertices =~= seq![]);
        assert(b.rejected@ =~= seq![]);
        assert(acc_of(&b) =~= empty_acc());
    };
    let mut pos = body;
    let mut k = n;
    while pos < data.len()
        invariant
            body <= pos <= data@.len(),
            k <= pos,
            faces_read <= h.n_faces,
            b.surface.material@ == default_material(),
            b.uv@.len() == 0,
            ascii_run(
                data@,
                body as int,
                AsciiState { vertices: seq![], faces_read: 0, acc: empty_acc() },
                n as nat,
                h@,
            ) == ascii_run(data@, pos as int, ascii_state_of(&b, faces_read), k as nat, h@),
        decreases data@.len() - pos,
    {
        let (end, next) = next_line(data, pos);
        let line = copy_range(data, pos, end);
        proof {
            lemma_next_line_advances(data@, pos as int);
        }
        let w = split_words(line.as_slice());
        if b.mesh.num_vertices() < h.n_vertices {
            match ascii_vertex_exec(&w, &h.vertex) {
                Some(v) => {
                    proof {
                        lemma_points_view_push(b.mesh.vertices@, v);
                    }
                    b.mesh.vertices.push(v);
                },
                None => {
                    return Err(PlyError::InvalidVertex(k));
                },
            }
        } else if faces_read < h.n_faces {
            match index_line_exec(&w) {
                Some(f) => {
                    add_mesh_face_exec(&mut b, f);
                    faces_read = faces_read + 1;
                },
                None => {
                    return Err(PlyError::FaceStructure);
                },
            }
        }
        pos = next;
        k = k + 1;
    }
    if b.mesh.num_vertices() != h.n_vertices {
        return Err(PlyError::VertexCountIncorrect);
    }
    if faces_read != h.n_faces {
        return Err(PlyError::FaceStructure);
    }
    Ok(b)
}

/// A read PLY file: the mesh, its material (which carries the header's
/// texture name), one surface named after the file, and the faces that
/// could not join the mesh.
pub struct PlyMesh {
    pub mesh: Mesh,
    pub material: Material,
    pub material_info: MaterialInfo,
    pub rejected: Vec<Face3>,
}

pub struct PlyModel {
    pub mesh: MeshModel,
    pub material: MaterialModel,
    pub info: InfoModel,
    pub rejected: Seq<Face3>,
}

impl View for PlyMesh {
    type V = PlyModel;

    open spec fn view(&self) -> PlyModel {
        PlyModel {
            mesh: self.mesh@,
            material: self.material@,
            info: self.material_info@,
            rejected: self.rejected@,
        }
    }
}

/// The vertices and face records of the body that follows header `h`.
pub open spec fn ply_body(data: Seq<u8>, body: int, n: nat, h: PlyHeaderModel) -> Result<
    (Seq<Point3Model>, BodyAcc),
    PlyError,
> {
    match h.format {
        PlyFormat::Ascii => ascii_body(data, body, n, h),
        PlyFormat::LittleEndian => binary_body(data, body, h, ByteOrder::Little),
        PlyFormat::BigEndian => binary_body(data, body, h, ByteOrder::Big),
    }
}

pub open spec fn ply_result(
    name: Seq<u8>,
    texture_name: Option<Seq<u8>>,
    vs: Seq<Point3Model>,
    acc: BodyAcc,
) -> PlyModel {
    PlyModel {
        mesh: MeshModel { vertices: vs, faces: acc.mesh_faces },
        material: MaterialModel { texture_name, ..default_material() },
        info: InfoModel {
            uv: acc.uv,
            surfaces: seq![
                (name, SurfaceModel { faces: acc.faces, uvs: acc.uvs, material: default_material() }),
            ],
            material_libs: seq![],
        },
        rejected: acc.rejected,
    }
}

/// What reading `data` as a PLY file named `name` gives.
pub open spec fn ply_model(data: Seq<u8>, name: Seq<u8>) -> Result<PlyModel, PlyError> {
    match ply_header(data) {
        Err(e) => Err(e),
        Ok((h, body, n)) => match ply_body(data, body, n, h) {
            Ok((vs, acc)) => Ok(ply_result(name, h.texture_name, vs, acc)),
            Err(e) => Err(e),
        },
    }
}

fn finish_ply(name: &[u8], texture_name: Option<Vec<u8>>, b: BodyBuilder) -> (r: PlyMesh)
    requires
        b.surface.material@ == default_material(),
    ensures
        r@ == ply_result(name@, opt_bytes(texture_name), b.mesh@.vertices, acc_of(&b)),
{
    let ghost acc = acc_of(&b);
    let BodyBuilder { surface, uv, mesh, rejected } = b;
    let mut material = Material::new();
    material.texture_name = texture_name;
    let mut surfaces: Vec<(Vec<u8>, MaterialSurface)> = Vec::new();
    let owned = copy_range(name, 0, name.len());
    assert(owned@ =~= name@);
    surfaces.push((owned, surface));
    let material_info = MaterialInfo { uv, surfaces, material_libs: Vec::new() };
    let r = PlyMesh { mesh, material, material_info, rejected };
    assert(r@.info.surfaces =~= seq![
        (name@, SurfaceModel { faces: acc.faces, uvs: acc.uvs, material: default_material() }),
    ]);
    assert(r@.info.material_libs =~= seq![]);
    r
}

/// The surface that a body fills holds each face once and links each face
/// to at most one texture triangle.
pub open spec fn acc_wf(acc: BodyAcc) -> bool {
    acc.faces.no_duplicates() && keys_distinct(acc.uvs)
}

proof fn lemma_list_step_wf(
    data: Seq<u8>,
    pos: int,
    l: FaceList,
    order: ByteOrder,
    nv: nat,
    acc: BodyAcc,
    rec: RecordFaces,
)
    requires
        acc_wf(acc),
        list_step(data, pos, l, order, nv, acc, rec) is Ok,
    ensures
        acc_wf(list_step(data, pos, l, order, nv, acc, rec)->Ok_0.1),
{
    if l.kind == ListKind::VertexIndices {
        let p = pos + type_size(l.count);
        let sz = type_size(l.index) as int;
        let f = Face3 {
            a: index_of(int_at(data, p, l.index, order)),
            b: index_of(int_at(data, p + sz, l.index, order)),
            c: index_of(int_at(data, p + 2 * sz, l.index, order)),
        };
        lemma_set_insert_wf(acc.faces, f);
    }
}

proof fn lemma_record_wf(
    data: Seq<u8>,
    pos: int,
    lists: Seq<FaceList>,
    j: int,
    order: ByteOrder,
    nv: nat,
    acc: BodyAcc,
    rec: RecordFaces,
)
    requires
        0 <= j,
        acc_wf(acc),
        record_run(data, pos, lists, j, order, nv, acc, rec) is Ok,
    ensures
        acc_wf(record_run(data, pos, lists, j, order, nv, acc, rec)->Ok_0.1),
    decreases lists.len() - j,
{
    if j < lists.len() {
        lemma_list_step_wf(data, pos, lists[j], order, nv, acc, rec);
        let (p, a, r2) = list_step(data, pos, lists[j], order, nv, acc, rec)->Ok_0;
        lemma_record_wf(data, p, lists, j + 1, order, nv, a, r2);
    }
}

proof fn lemma_faces_wf(
    data: Seq<u8>,
    pos: int,
    i: nat,
    nf: nat,
    lists: Seq<FaceList>,
    order: ByteOrder,
    nv: nat,
    acc: BodyAcc,
)
    requires
        acc_wf(acc),
        faces_run(data, pos, i, nf, lists, order, nv, acc) is Ok,
    ensures
        acc_wf(faces_run(data, pos, i, nf, lists, order, nv, acc)->Ok_0),
    decreases nf - i,
{
    if i < nf {
        lemma_record_wf(data, pos, lists, 0, order, nv, acc, (None, None));
        let (p, a, r) = record_run(data, pos, lists, 0, order, nv, acc, (None, None))->Ok_0;
        if let (Some(f), Some(t)) = r {
            lemma_map_insert_wf(a.uvs, f, t);
        }
        lemma_faces_wf(data, p, i + 1, nf, lists, order, nv, link(a, r));
    }
}

proof fn lemma_ascii_wf(data: Seq<u8>, pos: int, st: AsciiState, n: nat, h: PlyHeaderModel)
    requires
        acc_wf(st.acc),
        ascii_run(data, pos, st, n, h) is Ok,
    ensures
        acc_wf(ascii_run(data, pos, st, n, h)->Ok_0.acc),
    decreases data.len() - pos,
{
    if 0 <= pos < data.len() {
        lemma_next_line_advances(data, pos);
        let w = words(line_at(data, pos));
        if st.vertices.len() >= h.n_vertices && st.faces_read < h.n_faces {
            lemma_set_insert_wf(st.acc.faces, index_line(w)->0);
        }
        let next = ascii_step(st, line_at(data, pos), n, h)->Ok_0;
        lemma_ascii_wf(data, next_line_start(data, pos), next, n + 1, h);
    }
}

/// The surfaces of a PLY file that reads without error are well formed.
pub proof fn lemma_ply_model_wf(data: Seq<u8>, name: Seq<u8>)
    requires
        ply_model(data, name) is Ok,
    ensures
        info_wf(ply_model(data, name)->Ok_0.info),
{
    let (h, body, n) = ply_header(data)->Ok_0;
    assert(empty_acc().faces.no_duplicates());
    if h.format == PlyFormat::Ascii {
        let st0 = AsciiState { vertices: seq![], faces_read: 0, acc: empty_acc() };
        lemma_ascii_wf(data, body, st0, n, h);
    } else {
        let order = if h.format == PlyFormat::LittleEndian {
            ByteOrder::Little
        } else {
            ByteOrder::Big
        };
        let vend = body + h.n_vertices * record_size(h.vertex);
        lemma_faces_wf(data, vend, 0, h.n_faces as nat, h.face_lists, order, h.n_vertices as nat, empty_acc());
    }
    let m = ply_model(data, name)->Ok_0;
    assert(m.info.material_libs.no_duplicates());
}

/// Reads a PLY file whose name is `name`: the header, then the body in the
/// encoding that the header declares. The faces go to one surface named
/// `name`.
pub fn load_ply(data: &[u8], name: &[u8]) -> (r: Result<PlyMesh, PlyError>)
    ensures
        match r {
            Ok(m) => ply_model(data@, name@) == Ok::<_, PlyError>(m@),
            Err(e) => ply_model(data@, name@) == Err::<PlyModel, _>(e),
        },
        r matches Ok(m) ==> info_wf(m@.info),
{
    let (header, body, n) = match load_header(data) {
        Ok(x) => x,
        Err(e) => {
            return Err(e);
        },
    };
    let b = match header.format {
        PlyFormat::Ascii => load_ascii(data, body, n, &header),
        PlyFormat::LittleEndian => load_binary(data, body, &header, ByteOrder::Little),
        PlyFormat::BigEndian => load_binary(data, body, &header, ByteOrder::Big),
    };
    let b = match b {
        Ok(b) => b,
        Err(e) => {
            return Err(e);
        },
    };
    let ghost vs = b.mesh@.vertices;
    let ghost acc = acc_of(&b);
    let r = finish_ply(name, header.texture_name, b);
    assert(r@ == ply_result(name@, header@.texture_name, vs, acc));
    proof {
        lemma_ply_model_wf(data@, name@);
    }
    Ok(r)
}

} // verus!
