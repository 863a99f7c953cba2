//! Material libraries (`.mtl`).
use vstd::prelude::*;
use crate::model::{
    Material, MaterialModel, Point3, Scalar, ScalarModel, default_material, key_index,
    key_index_from, map_insert, keys_distinct, lemma_map_insert_wf, lemma_update_value_wf,
};
use crate::text::{
    all_ascii, bytes_eq, bytes_seq, float_token, has_prefix, is_ascii, is_float_text,
    lemma_next_line_advances, line_at, next_line, next_line_start, split_words, starts_with,
    words,
};

verus! {

/// Why a material library could not be read; line numbers start at 1.
#[derive(Clone, Copy, Debug, PartialEq, Eq, Structural)]
pub enum MtlError {
    AccessFile,
    LineParse(usize),
    NoMaterialError(usize),
}

/// The materials read so far, and the position of the one that `newmtl`
/// opened last (-1 before the first).
pub struct MtlState {
    pub materials: Seq<(Seq<u8>, MaterialModel)>,
    pub current: int,
}

pub open spec fn materials_view(v: Seq<(Vec<u8>, Material)>) -> Seq<(Seq<u8>, MaterialModel)> {
    v.map_values(|e: (Vec<u8>, Material)| (e.0@, e.1@))
}

pub open spec fn newmtl_tag() -> Seq<u8> {
    seq![110u8, 101u8, 119u8, 109u8, 116u8, 108u8, 32u8]
}

pub open spec fn map_kd_tag() -> Seq<u8> {
    seq![109u8, 97u8, 112u8, 95u8, 75u8, 100u8, 32u8]
}

pub open spec fn ns_tag() -> Seq<u8> {
    seq![78u8, 115u8, 32u8]
}

pub open spec fn kd_tag() -> Seq<u8> {
    seq![75u8, 100u8, 32u8]
}

/// The word `=` that some exporters write between `Kd` and its values.
pub open spec fn equals_word() -> Seq<u8> {
    seq![61u8]
}

/// Position of the diffuse colour's first value among the words of a `Kd`
/// line.
pub open spec fn kd_first(w: Seq<Seq<u8>>) -> int {
    if w.len() > 1 && w[1] == equals_word() {
        2
    } else {
        1
    }
}

/// The material at position `i` with `f` applied.
pub open spec fn with_material(
    s: Seq<(Seq<u8>, MaterialModel)>,
    i: int,
    m: MaterialModel,
) -> Seq<(Seq<u8>, MaterialModel)> {
    s.update(i, (s[i].0, m))
}

/// The effect of line number `n` of a material library.
pub open spec fn mtl_step(st: MtlState, line: Seq<u8>, n: nat) -> Result<MtlState, MtlError> {
    let w = words(line);
    let cur = st.current;
    if has_prefix(line, newmtl_tag()) {
        if w.len() > 1 && all_ascii(w[1]) {
            let i = key_index(st.materials, w[1]);
            Ok(
                MtlState {
                    materials: map_insert(st.materials, w[1], default_material()),
                    current: if i >= 0 {
                        i
                    } else {
                        st.materials.len() as int
                    },
                },
            )
        } else {
            Err(MtlError::LineParse(n as usize))
        }
    } else if has_prefix(line, map_kd_tag()) || has_prefix(line, ns_tag()) || has_prefix(
        line,
        kd_tag(),
    ) {
        if cur < 0 {
            Err(MtlError::NoMaterialError(n as usize))
        } else if has_prefix(line, map_kd_tag()) {
            if w.len() > 1 && all_ascii(w[1]) {
                Ok(
                    MtlState {
                        materials: with_material(
                            st.materials,
                            cur,
                            MaterialModel { texture_name: Some(w[1]), ..st.materials[cur].1 },
                        ),
                        current: cur,
                    },
                )
            } else {
                Err(MtlError::LineParse(n as usize))
            }
        } else if has_prefix(line, ns_tag()) {
            if w.len() > 1 && is_float_text(w[1]) {
                Ok(
                    MtlState {
                        materials: with_material(
                            st.materials,
                            cur,
                            MaterialModel {
                                specular_intensity: ScalarModel::Decimal(w[1]),
                                ..st.materials[cur].1
                            },
                        ),
                        current: cur,
                    },
                )
            } else {
                Err(MtlError::LineParse(n as usize))
            }
        } else {
            let k = kd_first(w);
            if w.len() >= k + 3 && is_float_text(w[k]) && is_float_text(w[k + 1])
                && is_float_text(w[k + 2]) {
                Ok(
                    MtlState {
                        materials: with_material(
                            st.materials,
                            cur,
                            MaterialModel {
                                diffuse_color: (
                                    ScalarModel::Decimal(w[k]),
                                    ScalarModel::Decimal(w[k + 1]),
                                    ScalarModel::Decimal(w[k + 2]),
                                ),
                                ..st.materials[cur].1
                            },
                        ),
                        current: cur,
                    },
                )
            } else {
                Err(MtlError::LineParse(n as usize))
            }
        }
    } else {
        Ok(st)
    }
}

/// The lines of `data` from byte `pos` on, applied in turn to `st`; the line
/// at `pos` has number `n`.
pub open spec fn mtl_run(data: Seq<u8>, pos: int, st: MtlState, n: nat) -> Result<
    Seq<(Seq<u8>, MaterialModel)>,
    MtlError,
>
    decreases data.len() - pos via mtl_run_decreases
{
    if pos < 0 || pos >= data.len() {
        Ok(st.materials)
    } else {
        match mtl_step(st, line_at(data, pos), n) {
            Ok(next) => mtl_run(data, next_line_start(data, pos), next, n + 1),
            Err(e) => Err(e),
        }
    }
}

#[via_fn]
proof fn mtl_run_decreases(data: Seq<u8>, pos: int, st: MtlState, n: nat) {
    if 0 <= pos < data.len() {
        lemma_next_line_advances(data, pos);
    }
}

/// The materials of a library, by name in order of first definition.
pub open spec fn mtl_materials(data: Seq<u8>) -> Result<Seq<(Seq<u8>, MaterialModel)>, MtlError> {
    mtl_run(data, 0, MtlState { materials: seq![], current: -1 }, 1)
}

proof fn lemma_mtl_step_wf(st: MtlState, line: Seq<u8>, n: nat)
    requires
        keys_distinct(st.materials),
        -1 <= st.current < st.materials.len(),
        mtl_step(st, line, n) is Ok,
    ensures
        keys_distinct(mtl_step(st, line, n)->Ok_0.materials),
{
    let w = words(line);
    if has_prefix(line, newmtl_tag()) {
        lemma_map_insert_wf(st.materials, w[1], default_material());
    } else if st.current >= 0 {
        let next = mtl_step(st, line, n)->Ok_0;
        if next.materials != st.materials {
            lemma_update_value_wf(st.materials, st.current, next.materials[st.current].1);
            assert(next.materials =~= st.materials.update(
                st.current,
                (st.materials[st.current].0, next.materials[st.current].1),
            ));
        }
    }
}

fn tag(bytes: &[u8]) -> (r: Vec<u8>)
    ensures
        r@ == bytes@,
{
    let r = crate::text::copy_range(bytes, 0, bytes.len());
    assert(r@ =~= bytes@);
    r
}

/// Sets the value of `name` to a default material; returns its position.
fn upsert_default(mats: &mut Vec<(Vec<u8>, Material)>, name: &Vec<u8>) -> (r: usize)
    ensures
        materials_view(final(mats)@) == map_insert(
            materials_view(old(mats)@),
            name@,
            default_material(),
        ),
        r == (if key_index(materials_view(old(mats)@), name@) >= 0 {
            key_index(materials_view(old(mats)@), name@)
        } else {
            old(mats)@.len() as int
        }),
        r < final(mats)@.len(),
{
    let ghost v = materials_view(mats@);
    let mut i: usize = 0;
    while i < mats.len()
        invariant
            i <= mats@.len(),
            mats@ == old(mats)@,
            v == materials_view(mats@),
            key_index(v, name@) == key_index_from(v, name@, i as int),
        decreases mats@.len() - i,
    {
        if bytes_eq(mats[i].0.as_slice(), name.as_slice()) {
            assert(key_index_from(v, name@, i as int) == i);
            let n = tag(name.as_slice());
            mats.set(i, (n, Material::new()));
            assert(materials_view(mats@) =~= map_insert(v, name@, default_material()));
            return i;
        }
        i = i + 1;
    }
    let n = tag(name.as_slice());
    mats.push((n, Material::new()));
    assert(materials_view(mats@) =~= map_insert(v, name@, default_material()));
    i
}

/// Reads a material library: `newmtl <name>` opens a material with default
/// values, and `Kd`, `Ns` and `map_Kd` set the diffuse colour, the specular
/// intensity and the texture of the material opened last. A value directive
/// before any `newmtl` is an error, and so is one of the four directives
/// without a well-formed value; other lines are ignored.
pub fn load_mtl(data: &[u8]) -> (r: Result<Vec<(Vec<u8>, Material)>, MtlError>)
    ensures
        match r {
            Ok(m) => mtl_materials(data@) == Ok::<_, MtlError>(materials_view(m@)),
            Err(e) => mtl_materials(data@) == Err::<Seq<(Seq<u8>, MaterialModel)>, _>(e),
        },
        r matches Ok(m) ==> keys_distinct(materials_view(m@)),
{
    let mut mats: Vec<(Vec<u8>, Material)> = Vec::new();
    let mut cur: Option<usize> = None;
    let mut pos: usize = 0;
    let mut k: usize = 0;
    assert(materials_view(mats@) =~= seq![]);
    while pos < data.len()
        invariant
            pos <= data@.len(),
            k <= pos,
            cur matches Some(c) ==> c < mats@.len(),
            keys_distinct(materials_view(mats@)),
            mtl_materials(data@) == mtl_run(
                data@,
                pos as int,
                MtlState {
                    materials: materials_view(mats@),
                    current: match cur {
                        Some(c) => c as int,
                        None => -1,
                    },
                },
                (k + 1) as nat,
            ),
        decreases data@.len() - pos,
    {
        let (end, next) = next_line(data, pos);
        let line = crate::text::copy_range(data, pos, end);
        proof {
            lemma_next_line_advances(data@, pos as int);
        }
        let ghost before = MtlState {
            materials: materials_view(mats@),
            current: match cur {
                Some(c) => c as int,
                None => -1,
            },
        };
        match mtl_line(&mut mats, &mut cur, line.as_slice(), k + 1) {
            Ok(()) => {
                proof {
                    lemma_mtl_step_wf(before, line@, (k + 1) as nat);
                }
            },
            Err(e) => {
                return Err(e);
            },
        }
        pos = next;
        k = k + 1;
    }
    Ok(mats)
}

/// Applies one line to the materials read so far.
fn mtl_line(
    mats: &mut Vec<(Vec<u8>, Material)>,
    cur: &mut Option<usize>,
    line: &[u8],
    n: usize,
) -> (r: Result<(), MtlError>)
    requires
        *old(cur) matches Some(c) ==> c < old(mats)@.len(),
    ensures
        *final(cur) matches Some(c) ==> c < final(mats)@.len(),
        ({
            let before = MtlState {
                materials: materials_view(old(mats)@),
                current: match *old(cur) {
                    Some(c) => c as int,
                    None => -1,
                },
            };
            let after = MtlState {
                materials: materials_view(final(mats)@),
                current: match *final(cur) {
                    Some(c) => c as int,
                    None => -1,
                },
            };
            match r {
                Ok(()) => mtl_step(before, line@, n as nat) == Ok::<_, MtlError>(after),
                Err(e) => mtl_step(before, line@, n as nat) == Err::<MtlState, _>(e),
            }
        }),
{
    let ghost v = materials_view(mats@);
    let w = split_words(line);
    let ghost ws = bytes_seq(w@);
    let t_newmtl: [u8; 7] = [110u8, 101u8, 119u8, 109u8, 116u8, 108u8, 32u8];
    let t_map_kd: [u8; 7] = [109u8, 97u8, 112u8, 95u8, 75u8, 100u8, 32u8];
    let t_ns: [u8; 3] = [78u8, 115u8, 32u8];
    let t_kd: [u8; 3] = [75u8, 100u8, 32u8];
    assert(t_newmtl@ =~= newmtl_tag());
    assert(t_map_kd@ =~= map_kd_tag());
    assert(t_ns@ =~= ns_tag());
    assert(t_kd@ =~= kd_tag());
    if starts_with(line, t_newmtl.as_slice()) {
        if w.len() > 1 && is_ascii(w[1].as_slice()) {
            let i = upsert_default(mats, &w[1]);
            *cur = Some(i);
            return Ok(());
        }
        return Err(MtlError::LineParse(n));
    }
    let is_map_kd = starts_with(line, t_map_kd.as_slice());
    let is_ns = starts_with(line, t_ns.as_slice());
    let is_kd = starts_with(line, t_kd.as_slice());
    if !(is_map_kd || is_ns || is_kd) {
        return Ok(());
    }
    let c = match *cur {
        Some(c) => c,
        None => {
            return Err(MtlError::NoMaterialError(n));
        },
    };
    let (name, mut m) = mats.remove(c);
    assert(m@ == v[c as int].1);
    if is_map_kd {
        if w.len() > 1 && is_ascii(w[1].as_slice()) {
            m.texture_name = Some(tag(w[1].as_slice()));
            assert(ws[1] == w@[1]@);
            assert(m@ == MaterialModel { texture_name: Some(ws[1]), ..v[c as int].1 });
        } else {
            mats.insert(c, (name, m));
            assert(materials_view(mats@) =~= v);
            return Err(MtlError::LineParse(n));
        }
    } else if is_ns {
        if w.len() > 1 && float_token(w[1].as_slice()) {
            m.specular_intensity = Scalar::decimal(w[1].as_slice());
            assert(ws[1] == w@[1]@);
            assert(m@ == MaterialModel {
                specular_intensity: ScalarModel::Decimal(ws[1]),
                ..v[c as int].1
            });
        } else {
            mats.insert(c, (name, m));
            assert(materials_view(mats@) =~= v);
            return Err(MtlError::LineParse(n));
        }
    } else {
        let k: usize = if w.len() > 1 && bytes_eq(w[1].as_slice(), [61u8].as_slice()) {
            2
        } else {
            1
        };
        proof {
            if w@.len() > 1 {
                assert([61u8]@ =~= equals_word());
            }
        }
        if w.len() >= k + 3 && float_token(w[k].as_slice()) && float_token(w[k + 1].as_slice())
            && float_token(w[k + 2].as_slice()) {
            m.diffuse_color =
            Point3 {
                x: Scalar::decimal(w[k].as_slice()),
                y: Scalar::decimal(w[k + 1].as_slice()),
                z: Scalar::decimal(w[k + 2].as_slice()),
            };
            assert(ws[k as int] == w@[k as int]@);
            assert(ws[k + 1] == w@[k + 1]@);
            assert(ws[k + 2] == w@[k + 2]@);
            assert(m@ == MaterialModel {
                diffuse_color: (
                    ScalarModel::Decimal(ws[k as int]),
                    ScalarModel::Decimal(ws[k + 1]),
                    ScalarModel::Decimal(ws[k + 2]),
                ),
                ..v[c as int].1
            });
        } else {
            mats.insert(c, (name, m));
            assert(materials_view(mats@) =~= v);
            return Err(MtlError::LineParse(n));
        }
    }
    mats.insert(c, (name, m));
    assert(materials_view(mats@) =~= with_material(v, c as int, m@));
    assert(with_material(v, c as int, v[c as int].1) =~= v);
    Ok(())
}

} // verus!
