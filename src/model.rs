//! The geometry and material model that every reader fills.
//!
//! Collections that behave as sets or maps are vectors kept in insertion
//! order without repeated keys, so that the result of a read never depends
//! on hashing.
use vstd::prelude::*;
use crate::text::{bytes_seq, bytes_eq};

verus! {

/// A coordinate as the file wrote it: decimal text that `f64::from_str`
/// accepts, or the bit pattern of an IEEE-754 single or double.
pub enum Scalar {
    Decimal(Vec<u8>),
    Single(u32),
    Double(u64),
}

pub enum ScalarModel {
    Decimal(Seq<u8>),
    Single(u32),
    Double(u64),
}

impl View for Scalar {
    type V = ScalarModel;

    open spec fn view(&self) -> ScalarModel {
        match self {
            Scalar::Decimal(t) => ScalarModel::Decimal(t@),
            Scalar::Single(b) => ScalarModel::Single(*b),
            Scalar::Double(b) => ScalarModel::Double(*b),
        }
    }
}

impl Scalar {
    /// A copy of this coordinate.
    pub fn copy(&self) -> (r: Scalar)
        ensures
            r@ == self@,
    {
        match self {
            Scalar::Decimal(t) => Scalar::decimal(t.as_slice()),
            Scalar::Single(b) => Scalar::Single(*b),
            Scalar::Double(b) => Scalar::Double(*b),
        }
    }

    /// The decimal text `digits`.
    pub fn decimal(digits: &[u8]) -> (r: Scalar)
        ensures
            r@ == ScalarModel::Decimal(digits@),
    {
        let t = crate::text::copy_range(digits, 0, digits.len());
        assert(t@ =~= digits@);
        Scalar::Decimal(t)
    }
}

/// Three coordinates: a position, a texture coordinate or a colour.
pub struct Point3 {
    pub x: Scalar,
    pub y: Scalar,
    pub z: Scalar,
}

pub type Point3Model = (ScalarModel, ScalarModel, ScalarModel);

impl View for Point3 {
    type V = Point3Model;

    open spec fn view(&self) -> Point3Model {
        (self.x@, self.y@, self.z@)
    }
}

impl Point3 {
    /// A copy of this point.
    pub fn copy(&self) -> (r: Point3)
        ensures
            r@ == self@,
    {
        Point3 { x: self.x.copy(), y: self.y.copy(), z: self.z.copy() }
    }
}

/// A copy of a sequence of points.
pub fn copy_points(v: &Vec<Point3>) -> (r: Vec<Point3>)
    ensures
        points_view(r@) == points_view(v@),
{
    let mut r: Vec<Point3> = Vec::new();
    let mut i: usize = 0;
    while i < v.len()
        invariant
            i <= v@.len(),
            points_view(r@) == points_view(v@).take(i as int),
        decreases v@.len() - i,
    {
        let p = v[i].copy();
        proof {
            lemma_points_view_push(r@, p);
            assert(points_view(v@).take(i + 1) =~= points_view(v@).take(i as int).push(p@));
        }
        r.push(p);
        i = i + 1;
    }
    assert(points_view(v@).take(v@.len() as int) =~= points_view(v@));
    r
}

pub open spec fn points_view(v: Seq<Point3>) -> Seq<Point3Model> {
    v.map_values(|p: Point3| p@)
}

pub proof fn lemma_points_view_push(v: Seq<Point3>, p: Point3)
    ensures
        points_view(v.push(p)) == points_view(v).push(p@),
{
    assert(points_view(v.push(p)) =~= points_view(v).push(p@));
}

/// A triangle as an ordered triple of vertex indices. Two triangles are
/// equal only when their triples are equal in order.
#[derive(Clone, Copy, Debug, PartialEq, Eq, Structural)]
pub struct Face3 {
    pub a: usize,
    pub b: usize,
    pub c: usize,
}

/// A triangle can join a mesh of `n` vertices: its indices are in range
/// and pairwise distinct.
pub open spec fn face_fits(f: Face3, n: nat) -> bool {
    &&& f.a < n
    &&& f.b < n
    &&& f.c < n
    &&& f.a != f.b
    &&& f.a != f.c
    &&& f.b != f.c
}

pub fn face_fits_exec(f: Face3, n: usize) -> (r: bool)
    ensures
        r == face_fits(f, n as nat),
{
    f.a < n && f.b < n && f.c < n && f.a != f.b && f.a != f.c && f.b != f.c
}

/// Vertex positions and the triangles that join them.
pub struct Mesh {
    pub vertices: Vec<Point3>,
    pub faces: Vec<Face3>,
}

pub struct MeshModel {
    pub vertices: Seq<Point3Model>,
    pub faces: Seq<Face3>,
}

impl View for Mesh {
    type V = MeshModel;

    open spec fn view(&self) -> MeshModel {
        MeshModel { vertices: points_view(self.vertices@), faces: self.faces@ }
    }
}

impl Mesh {
    pub fn new() -> (r: Mesh)
        ensures
            r@.vertices.len() == 0,
            r@.faces.len() == 0,
    {
        Mesh { vertices: Vec::new(), faces: Vec::new() }
    }

    pub fn num_vertices(&self) -> (r: usize)
        ensures
            r == self@.vertices.len(),
    {
        self.vertices.len()
    }

    pub fn num_faces(&self) -> (r: usize)
        ensures
            r == self@.faces.len(),
    {
        self.faces.len()
    }

    /// Adds `f` when it fits the vertices; tells whether it did.
    pub fn try_add_connection(&mut self, f: Face3) -> (r: bool)
        ensures
            r == face_fits(f, old(self)@.vertices.len()),
            final(self)@.vertices == old(self)@.vertices,
            final(self)@.faces == if r {
                old(self)@.faces.push(f)
            } else {
                old(self)@.faces
            },
    {
        if face_fits_exec(f, self.vertices.len()) {
            self.faces.push(f);
            true
        } else {
            false
        }
    }
}

/// Diffuse colour and intensities of a surface; ambient and specular colour
/// belong to the scene's lights.
pub struct Material {
    pub diffuse_color: Point3,
    pub diffuse_intensity: Scalar,
    pub specular_intensity: Scalar,
    pub texture_name: Option<Vec<u8>>,
}

pub struct MaterialModel {
    pub diffuse_color: Point3Model,
    pub diffuse_intensity: ScalarModel,
    pub specular_intensity: ScalarModel,
    pub texture_name: Option<Seq<u8>>,
}

impl View for Material {
    type V = MaterialModel;

    open spec fn view(&self) -> MaterialModel {
        MaterialModel {
            diffuse_color: self.diffuse_color@,
            diffuse_intensity: self.diffuse_intensity@,
            specular_intensity: self.specular_intensity@,
            texture_name: match &self.texture_name {
                Some(t) => Some(t@),
                None => None,
            },
        }
    }
}

pub open spec fn text_08() -> Seq<u8> {
    seq![48u8, 46u8, 56u8]
}

pub open spec fn text_05() -> Seq<u8> {
    seq![48u8, 46u8, 53u8]
}

/// The material that a name has before any directive sets a value: a grey
/// of 0.8, both intensities 0.5 and no texture.
pub open spec fn default_material() -> MaterialModel {
    MaterialModel {
        diffuse_color: (
            ScalarModel::Decimal(text_08()),
            ScalarModel::Decimal(text_08()),
            ScalarModel::Decimal(text_08()),
        ),
        diffuse_intensity: ScalarModel::Decimal(text_05()),
        specular_intensity: ScalarModel::Decimal(text_05()),
        texture_name: None,
    }
}

fn text_value(t: &[u8; 3]) -> (r: Scalar)
    ensures
        r@ == ScalarModel::Decimal(t@),
{
    Scalar::decimal(t.as_slice())
}

impl Material {
    pub fn new() -> (r: Material)
        ensures
            r@ == default_material(),
    {
        let grey: [u8; 3] = [48u8, 46u8, 56u8];
        let half: [u8; 3] = [48u8, 46u8, 53u8];
        assert(grey@ =~= text_08());
        assert(half@ =~= text_05());
        Material {
            diffuse_color: Point3 { x: text_value(&grey), y: text_value(&grey), z: text_value(&grey) },
            diffuse_intensity: text_value(&half),
            specular_intensity: text_value(&half),
            texture_name: None,
        }
    }
}

/// The triangles of one material, and for some of them the triangle of
/// texture-coordinate indices that goes with each.
pub struct MaterialSurface {
    pub uvs: Vec<(Face3, Face3)>,
    pub faces: Vec<Face3>,
    pub material: Material,
}

pub struct SurfaceModel {
    pub uvs: Seq<(Face3, Face3)>,
    pub faces: Seq<Face3>,
    pub material: MaterialModel,
}

impl View for MaterialSurface {
    type V = SurfaceModel;

    open spec fn view(&self) -> SurfaceModel {
        SurfaceModel { uvs: self.uvs@, faces: self.faces@, material: self.material@ }
    }
}

pub open spec fn empty_surface() -> SurfaceModel {
    SurfaceModel { uvs: seq![], faces: seq![], material: default_material() }
}

impl MaterialSurface {
    pub fn new() -> (r: MaterialSurface)
        ensures
            r@ == empty_surface(),
    {
        let r = MaterialSurface { faces: Vec::new(), uvs: Vec::new(), material: Material::new() };
        assert(r@.uvs =~= seq![]);
        assert(r@.faces =~= seq![]);
        r
    }
}

/// The texture coordinates shared by all surfaces of one file, the surfaces
/// by material name, and the material libraries that the file names.
pub struct MaterialInfo {
    pub uv: Vec<Point3>,
    pub surfaces: Vec<(Vec<u8>, MaterialSurface)>,
    pub material_libs: Vec<Vec<u8>>,
}

pub struct InfoModel {
    pub uv: Seq<Point3Model>,
    pub surfaces: Seq<(Seq<u8>, SurfaceModel)>,
    pub material_libs: Seq<Seq<u8>>,
}

pub open spec fn surfaces_view(v: Seq<(Vec<u8>, MaterialSurface)>) -> Seq<(Seq<u8>, SurfaceModel)> {
    v.map_values(|e: (Vec<u8>, MaterialSurface)| (e.0@, e.1@))
}

impl View for MaterialInfo {
    type V = InfoModel;

    open spec fn view(&self) -> InfoModel {
        InfoModel {
            uv: points_view(self.uv@),
            surfaces: surfaces_view(self.surfaces@),
            material_libs: bytes_seq(self.material_libs@),
        }
    }
}

impl MaterialInfo {
    pub fn new() -> (r: MaterialInfo)
        ensures
            r@.uv.len() == 0,
            r@.surfaces.len() == 0,
            r@.material_libs.len() == 0,
    {
        MaterialInfo { uv: Vec::new(), surfaces: Vec::new(), material_libs: Vec::new() }
    }

    /// Position of the surface named `name`, if there is one.
    pub fn surface_index(&self, name: &[u8]) -> (r: Option<usize>)
        ensures
            r matches Some(i) ==> i == key_index(self@.surfaces, name@) && i < self.surfaces@.len(),
            r is None ==> key_index(self@.surfaces, name@) == -1,
    {
        let mut i: usize = 0;
        while i < self.surfaces.len()
            invariant
                i <= self.surfaces@.len(),
                key_index(self@.surfaces, name@) == key_index_from(self@.surfaces, name@, i as int),
            decreases self.surfaces@.len() - i,
        {
            if bytes_eq(self.surfaces[i].0.as_slice(), name) {
                assert(key_index_from(self@.surfaces, name@, i as int) == i);
                return Some(i);
            }
            i = i + 1;
        }
        None
    }
}

/// `s` with `x` added at the end unless it is there already.
pub open spec fn set_insert<T>(s: Seq<T>, x: T) -> Seq<T> {
    if s.contains(x) {
        s
    } else {
        s.push(x)
    }
}

/// Index of the first entry at or after `i` whose key is `k`, or -1.
pub open spec fn key_index_from<K, V>(s: Seq<(K, V)>, k: K, i: int) -> int
    decreases s.len() - i,
{
    if i < 0 || i >= s.len() {
        -1
    } else if s[i].0 == k {
        i
    } else {
        key_index_from(s, k, i + 1)
    }
}

pub open spec fn key_index<K, V>(s: Seq<(K, V)>, k: K) -> int {
    key_index_from(s, k, 0)
}

/// `s` with the value of `k` set to `v`: in place where `k` has an entry,
/// else as a new entry at the end.
pub open spec fn map_insert<K, V>(s: Seq<(K, V)>, k: K, v: V) -> Seq<(K, V)> {
    let i = key_index(s, k);
    if i >= 0 {
        s.update(i, (k, v))
    } else {
        s.push((k, v))
    }
}

pub proof fn lemma_key_index_from<K, V>(s: Seq<(K, V)>, k: K, i: int)
    requires
        0 <= i,
    ensures
        key_index_from(s, k, i) == -1 || (i <= key_index_from(s, k, i) < s.len() && s[key_index_from(s, k, i)].0 == k),
        key_index_from(s, k, i) == -1 ==> forall|j: int| i <= j < s.len() ==> s[j].0 != k,
    decreases s.len() - i,
{
    if i < s.len() && s[i].0 != k {
        lemma_key_index_from(s, k, i + 1);
    }
}

/// Adds `f` to a set of triangles kept in insertion order.
pub fn insert_face(faces: &mut Vec<Face3>, f: Face3)
    ensures
        final(faces)@ == set_insert(old(faces)@, f),
{
    let mut i: usize = 0;
    while i < faces.len()
        invariant
            i <= faces@.len(),
            forall|j: int| 0 <= j < i ==> faces@[j] != f,
        decreases faces@.len() - i,
    {
        if faces[i] == f {
            assert(faces@.contains(f));
            return;
        }
        i = i + 1;
    }
    assert(!faces@.contains(f));
    faces.push(f);
}

/// Sets the texture triangle of `f` to `t`.
pub fn insert_uv(uvs: &mut Vec<(Face3, Face3)>, f: Face3, t: Face3)
    ensures
        final(uvs)@ == map_insert(old(uvs)@, f, t),
{
    let mut i: usize = 0;
    while i < uvs.len()
        invariant
            i <= uvs@.len(),
            uvs@ == old(uvs)@,
            key_index(uvs@, f) == key_index_from(uvs@, f, i as int),
        decreases uvs@.len() - i,
    {
        if uvs[i].0 == f {
            assert(key_index_from(uvs@, f, i as int) == i);
            uvs.set(i, (f, t));
            return;
        }
        i = i + 1;
    }
    assert(key_index_from(uvs@, f, i as int) == -1);
    uvs.push((f, t));
}

/// Adds `name` to a set of names kept in insertion order.
pub fn insert_name(names: &mut Vec<Vec<u8>>, name: Vec<u8>)
    ensures
        bytes_seq(final(names)@) == set_insert(bytes_seq(old(names)@), name@),
{
    let mut i: usize = 0;
    while i < names.len()
        invariant
            i <= names@.len(),
            forall|j: int| 0 <= j < i ==> bytes_seq(names@)[j] != name@,
        decreases names@.len() - i,
    {
        if bytes_eq(names[i].as_slice(), name.as_slice()) {
            assert(bytes_seq(names@)[i as int] == name@);
            assert(bytes_seq(names@).contains(name@));
            return;
        }
        i = i + 1;
    }
    assert(!bytes_seq(names@).contains(name@));
    proof {
        assert(bytes_seq(names@.push(name)) =~= bytes_seq(names@).push(name@));
    }
    names.push(name);
}

/// No two entries of `s` have the same key.
pub open spec fn keys_distinct<K, V>(s: Seq<(K, V)>) -> bool {
    forall|i: int, j: int| 0 <= i < j < s.len() ==> s[i].0 != s[j].0
}

/// A surface holds each face once, and links each face to at most one
/// texture triangle.
pub open spec fn surface_wf(s: SurfaceModel) -> bool {
    s.faces.no_duplicates() && keys_distinct(s.uvs)
}

/// Surface names are distinct, every surface is well formed, and each
/// material library is named once.
pub open spec fn info_wf(m: InfoModel) -> bool {
    &&& keys_distinct(m.surfaces)
    &&& forall|i: int| 0 <= i < m.surfaces.len() ==> surface_wf(#[trigger] m.surfaces[i].1)
    &&& m.material_libs.no_duplicates()
}

pub proof fn lemma_set_insert_wf<T>(s: Seq<T>, x: T)
    requires
        s.no_duplicates(),
    ensures
        set_insert(s, x).no_duplicates(),
{
    if !s.contains(x) {
        let t = s.push(x);
        assert forall|i: int, j: int| 0 <= i < t.len() && 0 <= j < t.len() && i != j implies t[i]
            != t[j] by {
            if i == s.len() as int {
                assert(s[j] == t[j]);
            } else if j == s.len() as int {
                assert(s[i] == t[i]);
            }
        };
    }
}

pub proof fn lemma_map_insert_wf<K, V>(s: Seq<(K, V)>, k: K, v: V)
    requires
        keys_distinct(s),
    ensures
        keys_distinct(map_insert(s, k, v)),
        forall|k2: K| key_index(s, k2) >= 0 ==> key_index(map_insert(s, k, v), k2) >= 0,
{
    lemma_key_index_from(s, k, 0);
    let t = map_insert(s, k, v);
    let i = key_index(s, k);
    assert forall|a: int, b: int| 0 <= a < b < t.len() implies t[a].0 != t[b].0 by {
        if b == s.len() as int {
            assert(s[a].0 != k);
        } else if a == i || b == i {
            if a == i {
                assert(s[b].0 != s[i].0);
            } else {
                assert(s[a].0 != s[i].0);
            }
        } else {
            assert(s[a].0 != s[b].0);
        }
    };
    assert forall|k2: K| key_index(s, k2) >= 0 implies key_index(t, k2) >= 0 by {
        lemma_key_index_from(s, k2, 0);
        lemma_key_index_from(t, k2, 0);
        let j = key_index(s, k2);
        if key_index(t, k2) == -1 {
            assert(t[j].0 == k2);
        }
    };
}

/// Replacing the value at position `i` keeps the keys.
pub proof fn lemma_update_value_wf<K, V>(s: Seq<(K, V)>, i: int, v: V)
    requires
        keys_distinct(s),
        0 <= i < s.len(),
    ensures
        keys_distinct(s.update(i, (s[i].0, v))),
{
    let t = s.update(i, (s[i].0, v));
    assert forall|a: int, b: int| 0 <= a < b < t.len() implies t[a].0 != t[b].0 by {
        assert(t[a].0 == s[a].0 && t[b].0 == s[b].0);
    };
}

/// Adding an entry under a key that is not there keeps the keys distinct.
pub proof fn lemma_push_new_key_wf<K, V>(s: Seq<(K, V)>, k: K, v: V)
    requires
        keys_distinct(s),
        key_index(s, k) == -1,
    ensures
        keys_distinct(s.push((k, v))),
{
    lemma_key_index_from(s, k, 0);
    let t = s.push((k, v));
    assert forall|a: int, b: int| 0 <= a < b < t.len() implies t[a].0 != t[b].0 by {
        if b == s.len() as int {
            assert(s[a].0 != k);
        } else {
            assert(s[a].0 != s[b].0);
        }
    };
}

} // verus!
