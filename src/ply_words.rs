//! The words that a PLY header is made of.
use vstd::prelude::*;

verus! {

/// The bytes of `comment`.
pub open spec fn kw_comment() -> Seq<u8> {
    seq![99u8, 111u8, 109u8, 109u8, 101u8, 110u8, 116u8]
}

pub(crate) fn lit_comment() -> (r: [u8; 7])
    ensures
        r@ == kw_comment(),
{
    let r: [u8; 7] = [99u8, 111u8, 109u8, 109u8, 101u8, 110u8, 116u8];
    assert(r@ =~= kw_comment());
    r
}

/// The bytes of `TextureFile`.
pub open spec fn kw_texture_file() -> Seq<u8> {
    seq![84u8, 101u8, 120u8, 116u8, 117u8, 114u8, 101u8, 70u8, 105u8, 108u8, 101u8]
}

pub(crate) fn lit_texture_file() -> (r: [u8; 11])
    ensures
        r@ == kw_texture_file(),
{
    let r: [u8; 11] = [84u8, 101u8, 120u8, 116u8, 117u8, 114u8, 101u8, 70u8, 105u8, 108u8, 101u8];
    assert(r@ =~= kw_texture_file());
    r
}

/// The bytes of `obj_info`.
pub open spec fn kw_obj_info() -> Seq<u8> {
    seq![111u8, 98u8, 106u8, 95u8, 105u8, 110u8, 102u8, 111u8]
}

pub(crate) fn lit_obj_info() -> (r: [u8; 8])
    ensures
        r@ == kw_obj_info(),
{
    let r: [u8; 8] = [111u8, 98u8, 106u8, 95u8, 105u8, 110u8, 102u8, 111u8];
    assert(r@ =~= kw_obj_info());
    r
}

/// The bytes of `ply`.
pub open spec fn kw_ply() -> Seq<u8> {
    seq![112u8, 108u8, 121u8]
}

pub(crate) fn lit_ply() -> (r: [u8; 3])
    ensures
        r@ == kw_ply(),
{
    let r: [u8; 3] = [112u8, 108u8, 121u8];
    assert(r@ =~= kw_ply());
    r
}

/// The bytes of `format ascii 1.0`.
pub open spec fn kw_format_ascii() -> Seq<u8> {
    seq![102u8, 111u8, 114u8, 109u8, 97u8, 116u8, 32u8, 97u8, 115u8, 99u8, 105u8, 105u8, 32u8, 49u8, 46u8, 48u8]
}

pub(crate) fn lit_format_ascii() -> (r: [u8; 16])
    ensures
        r@ == kw_format_ascii(),
{
    let r: [u8; 16] = [102u8, 111u8, 114u8, 109u8, 97u8, 116u8, 32u8, 97u8, 115u8, 99u8, 105u8, 105u8, 32u8, 49u8, 46u8, 48u8];
    assert(r@ =~= kw_format_ascii());
    r
}

/// The bytes of `format binary_little_endian 1.0`.
pub open spec fn kw_format_le() -> Seq<u8> {
    seq![102u8, 111u8, 114u8, 109u8, 97u8, 116u8, 32u8, 98u8, 105u8, 110u8, 97u8, 114u8, 121u8, 95u8, 108u8, 105u8, 116u8, 116u8, 108u8, 101u8, 95u8, 101u8, 110u8, 100u8, 105u8, 97u8, 110u8, 32u8, 49u8, 46u8, 48u8]
}

pub(crate) fn lit_format_le() -> (r: [u8; 31])
    ensures
        r@ == kw_format_le(),
{
    let r: [u8; 31] = [102u8, 111u8, 114u8, 109u8, 97u8, 116u8, 32u8, 98u8, 105u8, 110u8, 97u8, 114u8, 121u8, 95u8, 108u8, 105u8, 116u8, 116u8, 108u8, 101u8, 95u8, 101u8, 110u8, 100u8, 105u8, 97u8, 110u8, 32u8, 49u8, 46u8, 48u8];
    assert(r@ =~= kw_format_le());
    r
}

/// The bytes of `format binary_big_endian 1.0`.
pub open spec fn kw_format_be() -> Seq<u8> {
    seq![102u8, 111u8, 114u8, 109u8, 97u8, 116u8, 32u8, 98u8, 105u8, 110u8, 97u8, 114u8, 121u8, 95u8, 98u8, 105u8, 103u8, 95u8, 101u8, 110u8, 100u8, 105u8, 97u8, 110u8, 32u8, 49u8, 46u8, 48u8]
}

pub(crate) fn lit_format_be() -> (r: [u8; 28])
    ensures
        r@ == kw_format_be(),
{
    let r: [u8; 28] = [102u8, 111u8, 114u8, 109u8, 97u8, 116u8, 32u8, 98u8, 105u8, 110u8, 97u8, 114u8, 121u8, 95u8, 98u8, 105u8, 103u8, 95u8, 101u8, 110u8, 100u8, 105u8, 97u8, 110u8, 32u8, 49u8, 46u8, 48u8];
    assert(r@ =~= kw_format_be());
    r
}

/// The bytes of `element vertex`.
pub open spec fn kw_element_vertex() -> Seq<u8> {
    seq![101u8, 108u8, 101u8, 109u8, 101u8, 110u8, 116u8, 32u8, 118u8, 101u8, 114u8, 116u8, 101u8, 120u8]
}

pub(crate) fn lit_element_vertex() -> (r: [u8; 14])
    ensures
        r@ == kw_element_vertex(),
{
    let r: [u8; 14] = [101u8, 108u8, 101u8, 109u8, 101u8, 110u8, 116u8, 32u8, 118u8, 101u8, 114u8, 116u8, 101u8, 120u8];
    assert(r@ =~= kw_element_vertex());
    r
}

/// The bytes of `element face`.
pub open spec fn kw_element_face() -> Seq<u8> {
    seq![101u8, 108u8, 101u8, 109u8, 101u8, 110u8, 116u8, 32u8, 102u8, 97u8, 99u8, 101u8]
}

pub(crate) fn lit_element_face() -> (r: [u8; 12])
    ensures
        r@ == kw_element_face(),
{
    let r: [u8; 12] = [101u8, 108u8, 101u8, 109u8, 101u8, 110u8, 116u8, 32u8, 102u8, 97u8, 99u8, 101u8];
    assert(r@ =~= kw_element_face());
    r
}

/// The bytes of `property`.
pub open spec fn kw_property() -> Seq<u8> {
    seq![112u8, 114u8, 111u8, 112u8, 101u8, 114u8, 116u8, 121u8]
}

pub(crate) fn lit_property() -> (r: [u8; 8])
    ensures
        r@ == kw_property(),
{
    let r: [u8; 8] = [112u8, 114u8, 111u8, 112u8, 101u8, 114u8, 116u8, 121u8];
    assert(r@ =~= kw_property());
    r
}

/// The bytes of `property list`.
pub open spec fn kw_property_list() -> Seq<u8> {
    seq![112u8, 114u8, 111u8, 112u8, 101u8, 114u8, 116u8, 121u8, 32u8, 108u8, 105u8, 115u8, 116u8]
}

pub(crate) fn lit_property_list() -> (r: [u8; 13])
    ensures
        r@ == kw_property_list(),
{
    let r: [u8; 13] = [112u8, 114u8, 111u8, 112u8, 101u8, 114u8, 116u8, 121u8, 32u8, 108u8, 105u8, 115u8, 116u8];
    assert(r@ =~= kw_property_list());
    r
}

/// The bytes of `end_header`.
pub open spec fn kw_end_header() -> Seq<u8> {
    seq![101u8, 110u8, 100u8, 95u8, 104u8, 101u8, 97u8, 100u8, 101u8, 114u8]
}

pub(crate) fn lit_end_header() -> (r: [u8; 10])
    ensures
        r@ == kw_end_header(),
{
    let r: [u8; 10] = [101u8, 110u8, 100u8, 95u8, 104u8, 101u8, 97u8, 100u8, 101u8, 114u8];
    assert(r@ =~= kw_end_header());
    r
}

/// The bytes of `x`.
pub open spec fn kw_x() -> Seq<u8> {
    seq![120u8]
}

pub(crate) fn lit_x() -> (r: [u8; 1])
    ensures
        r@ == kw_x(),
{
    let r: [u8; 1] = [120u8];
    assert(r@ =~= kw_x());
    r
}

/// The bytes of `y`.
pub open spec fn kw_y() -> Seq<u8> {
    seq![121u8]
}

pub(crate) fn lit_y() -> (r: [u8; 1])
    ensures
        r@ == kw_y(),
{
    let r: [u8; 1] = [121u8];
    assert(r@ =~= kw_y());
    r
}

/// The bytes of `z`.
pub open spec fn kw_z() -> Seq<u8> {
    seq![122u8]
}

pub(crate) fn lit_z() -> (r: [u8; 1])
    ensures
        r@ == kw_z(),
{
    let r: [u8; 1] = [122u8];
    assert(r@ =~= kw_z());
    r
}

/// The bytes of `vertex_indices`.
pub open spec fn kw_vertex_indices() -> Seq<u8> {
    seq![118u8, 101u8, 114u8, 116u8, 101u8, 120u8, 95u8, 105u8, 110u8, 100u8, 105u8, 99u8, 101u8, 115u8]
}

pub(crate) fn lit_vertex_indices() -> (r: [u8; 14])
    ensures
        r@ == kw_vertex_indices(),
{
    let r: [u8; 14] = [118u8, 101u8, 114u8, 116u8, 101u8, 120u8, 95u8, 105u8, 110u8, 100u8, 105u8, 99u8, 101u8, 115u8];
    assert(r@ =~= kw_vertex_indices());
    r
}

/// The bytes of `texcoord`.
pub open spec fn kw_texcoord() -> Seq<u8> {
    seq![116u8, 101u8, 120u8, 99u8, 111u8, 111u8, 114u8, 100u8]
}

pub(crate) fn lit_texcoord() -> (r: [u8; 8])
    ensures
        r@ == kw_texcoord(),
{
    let r: [u8; 8] = [116u8, 101u8, 120u8, 99u8, 111u8, 111u8, 114u8, 100u8];
    assert(r@ =~= kw_texcoord());
    r
}

/// The bytes of `char`.
pub open spec fn kw_char() -> Seq<u8> {
    seq![99u8, 104u8, 97u8, 114u8]
}

pub(crate) fn lit_char() -> (r: [u8; 4])
    ensures
        r@ == kw_char(),
{
    let r: [u8; 4] = [99u8, 104u8, 97u8, 114u8];
    assert(r@ =~= kw_char());
    r
}

/// The bytes of `int8`.
pub open spec fn kw_int8() -> Seq<u8> {
    seq![105u8, 110u8, 116u8, 56u8]
}

pub(crate) fn lit_int8() -> (r: [u8; 4])
    ensures
        r@ == kw_int8(),
{
    let r: [u8; 4] = [105u8, 110u8, 116u8, 56u8];
    assert(r@ =~= kw_int8());
    r
}

/// The bytes of `uchar`.
pub open spec fn kw_uchar() -> Seq<u8> {
    seq![117u8, 99u8, 104u8, 97u8, 114u8]
}

pub(crate) fn lit_uchar() -> (r: [u8; 5])
    ensures
        r@ == kw_uchar(),
{
    let r: [u8; 5] = [117u8, 99u8, 104u8, 97u8, 114u8];
    assert(r@ =~= kw_uchar());
    r
}

/// The bytes of `uint8`.
pub open spec fn kw_uint8() -> Seq<u8> {
    seq![117u8, 105u8, 110u8, 116u8, 56u8]
}

pub(crate) fn lit_uint8() -> (r: [u8; 5])
    ensures
        r@ == kw_uint8(),
{
    let r: [u8; 5] = [117u8, 105u8, 110u8, 116u8, 56u8];
    assert(r@ =~= kw_uint8());
    r
}

/// The bytes of `short`.
pub open spec fn kw_short() -> Seq<u8> {
    seq![115u8, 104u8, 111u8, 114u8, 116u8]
}

pub(crate) fn lit_short() -> (r: [u8; 5])
    ensures
        r@ == kw_short(),
{
    let r: [u8; 5] = [115u8, 104u8, 111u8, 114u8, 116u8];
    assert(r@ =~= kw_short());
    r
}

/// The bytes of `int16`.
pub open spec fn kw_int16() -> Seq<u8> {
    seq![105u8, 110u8, 116u8, 49u8, 54u8]
}

pub(crate) fn lit_int16() -> (r: [u8; 5])
    ensures
        r@ == kw_int16(),
{
    let r: [u8; 5] = [105u8, 110u8, 116u8, 49u8, 54u8];
    assert(r@ =~= kw_int16());
    r
}

/// The bytes of `ushort`.
pub open spec fn kw_ushort() -> Seq<u8> {
    seq![117u8, 115u8, 104u8, 111u8, 114u8, 116u8]
}

pub(crate) fn lit_ushort() -> (r: [u8; 6])
    ensures
        r@ == kw_ushort(),
{
    let r: [u8; 6] = [117u8, 115u8, 104u8, 111u8, 114u8, 116u8];
    assert(r@ =~= kw_ushort());
    r
}

/// The bytes of `uint16`.
pub open spec fn kw_uint16() -> Seq<u8> {
    seq![117u8, 105u8, 110u8, 116u8, 49u8, 54u8]
}

pub(crate) fn lit_uint16() -> (r: [u8; 6])
    ensures
        r@ == kw_uint16(),
{
    let r: [u8; 6] = [117u8, 105u8, 110u8, 116u8, 49u8, 54u8];
    assert(r@ =~= kw_uint16());
    r
}

/// The bytes of `int`.
pub open spec fn kw_int() -> Seq<u8> {
    seq![105u8, 110u8, 116u8]
}

pub(crate) fn lit_int() -> (r: [u8; 3])
    ensures
        r@ == kw_int(),
{
    let r: [u8; 3] = [105u8, 110u8, 116u8];
    assert(r@ =~= kw_int());
    r
}

/// The bytes of `int32`.
pub open spec fn kw_int32() -> Seq<u8> {
    seq![105u8, 110u8, 116u8, 51u8, 50u8]
}

pub(crate) fn lit_int32() -> (r: [u8; 5])
    ensures
        r@ == kw_int32(),
{
    let r: [u8; 5] = [105u8, 110u8, 116u8, 51u8, 50u8];
    assert(r@ =~= kw_int32());
    r
}

/// The bytes of `uint`.
pub open spec fn kw_uint() -> Seq<u8> {
    seq![117u8, 105u8, 110u8, 116u8]
}

pub(crate) fn lit_uint() -> (r: [u8; 4])
    ensures
        r@ == kw_uint(),
{
    let r: [u8; 4] = [117u8, 105u8, 110u8, 116u8];
    assert(r@ =~= kw_uint());
    r
}

/// The bytes of `uint32`.
pub open spec fn kw_uint32() -> Seq<u8> {
    seq![117u8, 105u8, 110u8, 116u8, 51u8, 50u8]
}

pub(crate) fn lit_uint32() -> (r: [u8; 6])
    ensures
        r@ == kw_uint32(),
{
    let r: [u8; 6] = [117u8, 105u8, 110u8, 116u8, 51u8, 50u8];
    assert(r@ =~= kw_uint32());
    r
}

/// The bytes of `float`.
pub open spec fn kw_float() -> Seq<u8> {
    seq![102u8, 108u8, 111u8, 97u8, 116u8]
}

pub(crate) fn lit_float() -> (r: [u8; 5])
    ensures
        r@ == kw_float(),
{
    let r: [u8; 5] = [102u8, 108u8, 111u8, 97u8, 116u8];
    assert(r@ =~= kw_float());
    r
}

/// The bytes of `float32`.
pub open spec fn kw_float32() -> Seq<u8> {
    seq![102u8, 108u8, 111u8, 97u8, 116u8, 51u8, 50u8]
}

pub(crate) fn lit_float32() -> (r: [u8; 7])
    ensures
        r@ == kw_float32(),
{
    let r: [u8; 7] = [102u8, 108u8, 111u8, 97u8, 116u8, 51u8, 50u8];
    assert(r@ =~= kw_float32());
    r
}

/// The bytes of `double`.
pub open spec fn kw_double() -> Seq<u8> {
    seq![100u8, 111u8, 117u8, 98u8, 108u8, 101u8]
}

pub(crate) fn lit_double() -> (r: [u8; 6])
    ensures
        r@ == kw_double(),
{
    let r: [u8; 6] = [100u8, 111u8, 117u8, 98u8, 108u8, 101u8];
    assert(r@ =~= kw_double());
    r
}

/// The bytes of `float64`.
pub open spec fn kw_float64() -> Seq<u8> {
    seq![102u8, 108u8, 111u8, 97u8, 116u8, 54u8, 52u8]
}

pub(crate) fn lit_float64() -> (r: [u8; 7])
    ensures
        r@ == kw_float64(),
{
    let r: [u8; 7] = [102u8, 108u8, 111u8, 97u8, 116u8, 54u8, 52u8];
    assert(r@ =~= kw_float64());
    r
}



/// The bytes of `3`.
pub open spec fn kw_three() -> Seq<u8> {
    seq![51u8]
}

pub(crate) fn lit_three() -> (r: [u8; 1])
    ensures
        r@ == kw_three(),
{
    let r: [u8; 1] = [51u8];
    assert(r@ =~= kw_three());
    r
}
} // verus!
