//! The structured values the codec encodes and decodes, and the shapes that
//! drive decoding.
//!
//! A [`CdrValue`] is the executable form of a structured value: primitives,
//! length-prefixed strings, byte buffers and sequences, fixed-size arrays,
//! ordered struct fields, and enums carrying a variant discriminant with a
//! payload. 32- and 64-bit floating-point values travel as their IEEE 754 bit
//! patterns. A [`CdrShape`] tells the decoder what shape to expect, since CDR
//! carries no embedded type tags.
//!
//! [`Val`] and [`Shp`] are the mathematical models of the two, used by every
//! contract: strings become character sequences, buffers byte sequences, and
//! field lists `Seq`s.

use vstd::prelude::*;

use vstd::utf8::encode_utf8;

verus! {

/// A structured value, as handed to `serialize` or returned by `deserialize`.
#[derive(Debug, PartialEq)]
pub enum CdrValue {
    Bool(bool),
    U8(u8),
    I8(i8),
    U16(u16),
    I16(i16),
    U32(u32),
    I32(i32),
    U64(u64),
    I64(i64),
    /// A 32-bit IEEE 754 value, carried as its bit pattern.
    F32Bits(u32),
    /// A 64-bit IEEE 754 value, carried as its bit pattern.
    F64Bits(u64),
    Char(char),
    Str(String),
    ByteBuf(Vec<u8>),
    /// A variable-length homogeneous list; a 4-byte count precedes the
    /// elements on the wire.
    Sequence(Vec<CdrValue>),
    /// A fixed-size array; both sides know the length, so no count is
    /// written.
    Array(Vec<CdrValue>),
    /// Ordered fields of a struct or tuple; the wire layout is simply the
    /// concatenation of the fields' own encodings.
    Struct(Vec<CdrValue>),
    /// An enum value: a 4-byte variant discriminant, then the payload.
    Enum(u32, Box<CdrValue>),
    /// A nullable value; plain CDR cannot encode it.
    Nullable,
    /// An associative map; plain CDR cannot encode it.
    Mapping,
}

/// The shape a decoder expects at a given point of the byte stream.
#[derive(Debug, PartialEq)]
pub enum CdrShape {
    Bool,
    U8,
    I8,
    U16,
    I16,
    U32,
    I32,
    U64,
    I64,
    F32,
    F64,
    Char,
    Str,
    ByteBuf,
    Sequence(Box<CdrShape>),
    /// A fixed-size array of the given length.
    Array(usize, Box<CdrShape>),
    /// Ordered field shapes of a struct or tuple.
    Struct(Vec<CdrShape>),
    /// Payload shapes of an enum's variants, indexed by discriminant.
    Enum(Vec<CdrShape>),
    Nullable,
    Mapping,
    /// No known target shape: schema-less decoding, which CDR cannot do.
    Unspecified,
}

/// The mathematical model of a structured value.
pub enum Val {
    VBool(bool),
    VU8(u8),
    VI8(i8),
    VU16(u16),
    VI16(i16),
    VU32(u32),
    VI32(i32),
    VU64(u64),
    VI64(i64),
    VF32Bits(u32),
    VF64Bits(u64),
    VChar(char),
    VStr(Seq<char>),
    VByteBuf(Seq<u8>),
    VSequence(Seq<Val>),
    VArray(Seq<Val>),
    VStruct(Seq<Val>),
    VEnum(u32, Box<Val>),
    VNullable,
    VMapping,
}

/// The mathematical model of a decoding shape.
pub enum Shp {
    SBool,
    SU8,
    SI8,
    SU16,
    SI16,
    SU32,
    SI32,
    SU64,
    SI64,
    SF32,
    SF64,
    SChar,
    SStr,
    SByteBuf,
    SSequence(Box<Shp>),
    SArray(nat, Box<Shp>),
    SStruct(Seq<Shp>),
    SEnum(Seq<Shp>),
    SNullable,
    SMapping,
    SUnspecified,
}

/// The model of a structured value: strings as character sequences, buffers
/// as byte sequences, field lists as `Seq`s.
pub open spec fn val_of(v: CdrValue) -> Val
    decreases v,
{
    match v {
        CdrValue::Bool(b) => Val::VBool(b),
        CdrValue::U8(x) => Val::VU8(x),
        CdrValue::I8(x) => Val::VI8(x),
        CdrValue::U16(x) => Val::VU16(x),
        CdrValue::I16(x) => Val::VI16(x),
        CdrValue::U32(x) => Val::VU32(x),
        CdrValue::I32(x) => Val::VI32(x),
        CdrValue::U64(x) => Val::VU64(x),
        CdrValue::I64(x) => Val::VI64(x),
        CdrValue::F32Bits(x) => Val::VF32Bits(x),
        CdrValue::F64Bits(x) => Val::VF64Bits(x),
        CdrValue::Char(c) => Val::VChar(c),
        CdrValue::Str(s) => Val::VStr(s@),
        CdrValue::ByteBuf(b) => Val::VByteBuf(b@),
        CdrValue::Sequence(vs) => Val::VSequence(vals_of(vs@)),
        CdrValue::Array(vs) => Val::VArray(vals_of(vs@)),
        CdrValue::Struct(vs) => Val::VStruct(vals_of(vs@)),
        CdrValue::Enum(d, p) => Val::VEnum(d, Box::new(val_of(*p))),
        CdrValue::Nullable => Val::VNullable,
        CdrValue::Mapping => Val::VMapping,
    }
}

/// The models of a list of structured values, in order.
pub open spec fn vals_of(vs: Seq<CdrValue>) -> Seq<Val>
    decreases vs,
{
    if vs.len() == 0 {
        Seq::empty()
    } else {
        seq![val_of(vs[0])] + vals_of(vs.drop_first())
    }
}

/// The model of a decoding shape.
pub open spec fn shp_of(s: CdrShape) -> Shp
    decreases s,
{
    match s {
        CdrShape::Bool => Shp::SBool,
        CdrShape::U8 => Shp::SU8,
        CdrShape::I8 => Shp::SI8,
        CdrShape::U16 => Shp::SU16,
        CdrShape::I16 => Shp::SI16,
        CdrShape::U32 => Shp::SU32,
        CdrShape::I32 => Shp::SI32,
        CdrShape::U64 => Shp::SU64,
        CdrShape::I64 => Shp::SI64,
        CdrShape::F32 => Shp::SF32,
        CdrShape::F64 => Shp::SF64,
        CdrShape::Char => Shp::SChar,
        CdrShape::Str => Shp::SStr,
        CdrShape::ByteBuf => Shp::SByteBuf,
        CdrShape::Sequence(elem) => Shp::SSequence(Box::new(shp_of(*elem))),
        CdrShape::Array(n, elem) => Shp::SArray(n as nat, Box::new(shp_of(*elem))),
        CdrShape::Struct(ss) => Shp::SStruct(shps_of(ss@)),
        CdrShape::Enum(ss) => Shp::SEnum(shps_of(ss@)),
        CdrShape::Nullable => Shp::SNullable,
        CdrShape::Mapping => Shp::SMapping,
        CdrShape::Unspecified => Shp::SUnspecified,
    }
}

/// The models of a list of decoding shapes, in order.
pub open spec fn shps_of(ss: Seq<CdrShape>) -> Seq<Shp>
    decreases ss,
{
    if ss.len() == 0 {
        Seq::empty()
    } else {
        seq![shp_of(ss[0])] + shps_of(ss.drop_first())
    }
}

/// Whether plain CDR can represent the value at all: no nullable values and
/// no associative maps anywhere inside it.
pub open spec fn supported_val(v: Val) -> bool
    decreases v,
{
    match v {
        Val::VSequence(vs) => supported_vals(vs),
        Val::VArray(vs) => supported_vals(vs),
        Val::VStruct(vs) => supported_vals(vs),
        Val::VEnum(_d, p) => supported_val(*p),
        Val::VNullable => false,
        Val::VMapping => false,
        _ => true,
    }
}

/// Whether every value of the list is supported.
pub open spec fn supported_vals(vs: Seq<Val>) -> bool
    decreases vs,
{
    vs.len() == 0 || (supported_val(vs[0]) && supported_vals(vs.drop_first()))
}

/// Whether the value can be encoded faithfully: it is supported, every
/// character fits in a single byte, and every length fits the 4-byte length
/// prefix the wire format uses.
pub open spec fn wf_val(v: Val) -> bool
    decreases v,
{
    match v {
        Val::VChar(c) => (c as u32) < 0x80,
        Val::VStr(chars) => encode_utf8(chars).len() + 1 <= u32::MAX,
        Val::VByteBuf(bs) => bs.len() <= u32::MAX,
        Val::VSequence(vs) => vs.len() <= u32::MAX && wf_vals(vs),
        Val::VArray(vs) => wf_vals(vs),
        Val::VStruct(vs) => wf_vals(vs),
        Val::VEnum(_d, p) => wf_val(*p),
        Val::VNullable => false,
        Val::VMapping => false,
        _ => true,
    }
}

/// Whether every value of the list can be encoded faithfully.
pub open spec fn wf_vals(vs: Seq<Val>) -> bool
    decreases vs,
{
    vs.len() == 0 || (wf_val(vs[0]) && wf_vals(vs.drop_first()))
}

/// The models of a value list line up with the list: same length, and the
/// model of each element in place.
pub proof fn lemma_vals_of_index(vs: Seq<CdrValue>)
    ensures
        vals_of(vs).len() == vs.len(),
        forall|i: int| 0 <= i < vs.len() ==> vals_of(vs)[i] == val_of(vs[i]),
    decreases vs,
{
    if vs.len() > 0 {
        lemma_vals_of_index(vs.drop_first());
        assert forall|i: int| 0 <= i < vs.len() implies vals_of(vs)[i] == val_of(vs[i]) by {
            if i > 0 {
                assert(vals_of(vs)[i] == vals_of(vs.drop_first())[i - 1]);
                assert(vs.drop_first()[i - 1] == vs[i]);
            }
        }
    }
}

/// Appending a value to a list appends its model to the list's models.
pub proof fn lemma_vals_of_push(vs: Seq<CdrValue>, v: CdrValue)
    ensures
        vals_of(vs.push(v)) == vals_of(vs).push(val_of(v)),
{
    lemma_vals_of_index(vs);
    lemma_vals_of_index(vs.push(v));
    assert(vals_of(vs.push(v)) =~= vals_of(vs).push(val_of(v)));
}

/// The models of a shape list line up with the list: same length, and the
/// model of each element in place.
pub proof fn lemma_shps_of_index(ss: Seq<CdrShape>)
    ensures
        shps_of(ss).len() == ss.len(),
        forall|i: int| 0 <= i < ss.len() ==> shps_of(ss)[i] == shp_of(ss[i]),
    decreases ss,
{
    if ss.len() > 0 {
        lemma_shps_of_index(ss.drop_first());
        assert forall|i: int| 0 <= i < ss.len() implies shps_of(ss)[i] == shp_of(ss[i]) by {
            if i > 0 {
                assert(shps_of(ss)[i] == shps_of(ss.drop_first())[i - 1]);
                assert(ss.drop_first()[i - 1] == ss[i]);
            }
        }
    }
}

/// A value list is well formed exactly when each of its values is.
pub proof fn lemma_wf_vals_index(vs: Seq<Val>)
    ensures
        wf_vals(vs) <==> (forall|i: int| 0 <= i < vs.len() ==> wf_val(vs[i])),
    decreases vs,
{
    if vs.len() > 0 {
        lemma_wf_vals_index(vs.drop_first());
        if wf_vals(vs) {
            assert forall|i: int| 0 <= i < vs.len() implies wf_val(vs[i]) by {
                if i > 0 {
                    assert(vs.drop_first()[i - 1] == vs[i]);
                    assert(wf_val(vs.drop_first()[i - 1]));
                }
            }
        }
        if forall|i: int| 0 <= i < vs.len() ==> wf_val(vs[i]) {
            assert forall|j: int| 0 <= j < vs.drop_first().len() implies wf_val(
                vs.drop_first()[j],
            ) by {
                assert(vs.drop_first()[j] == vs[j + 1]);
            }
            assert(wf_vals(vs.drop_first()));
        }
    }
}

/// A value list is supported exactly when each of its values is.
pub proof fn lemma_supported_vals_index(vs: Seq<Val>)
    ensures
        supported_vals(vs) <==> (forall|i: int| 0 <= i < vs.len() ==> supported_val(vs[i])),
    decreases vs,
{
    if vs.len() > 0 {
        lemma_supported_vals_index(vs.drop_first());
        if supported_vals(vs) {
            assert forall|i: int| 0 <= i < vs.len() implies supported_val(vs[i]) by {
                if i > 0 {
                    assert(vs.drop_first()[i - 1] == vs[i]);
                    assert(supported_val(vs.drop_first()[i - 1]));
                }
            }
        }
        if forall|i: int| 0 <= i < vs.len() ==> supported_val(vs[i]) {
            assert forall|j: int| 0 <= j < vs.drop_first().len() implies supported_val(
                vs.drop_first()[j],
            ) by {
                assert(vs.drop_first()[j] == vs[j + 1]);
            }
            assert(supported_vals(vs.drop_first()));
        }
    }
}

/// A value list matches an element shape exactly when each value does.
pub proof fn lemma_vals_match_elem_index(vs: Seq<Val>, elem: Shp)
    ensures
        vals_match_elem(vs, elem) <==> (forall|i: int|
            0 <= i < vs.len() ==> val_matches(vs[i], elem)),
    decreases vs,
{
    if vs.len() > 0 {
        lemma_vals_match_elem_index(vs.drop_first(), elem);
        if vals_match_elem(vs, elem) {
            assert forall|i: int| 0 <= i < vs.len() implies val_matches(vs[i], elem) by {
                if i > 0 {
                    assert(vs.drop_first()[i - 1] == vs[i]);
                    assert(val_matches(vs.drop_first()[i - 1], elem));
                }
            }
        }
        if forall|i: int| 0 <= i < vs.len() ==> val_matches(vs[i], elem) {
            assert forall|j: int| 0 <= j < vs.drop_first().len() implies val_matches(
                vs.drop_first()[j],
                elem,
            ) by {
                assert(vs.drop_first()[j] == vs[j + 1]);
            }
            assert(vals_match_elem(vs.drop_first(), elem));
        }
    }
}

/// A value list matches a shape list exactly when the lengths agree and
/// each value matches its shape.
pub proof fn lemma_vals_match_index(vs: Seq<Val>, ss: Seq<Shp>)
    ensures
        vals_match(vs, ss) <==> (vs.len() == ss.len() && (forall|i: int|
            0 <= i < vs.len() ==> val_matches(vs[i], ss[i]))),
    decreases vs,
{
    if vs.len() > 0 && vs.len() == ss.len() {
        lemma_vals_match_index(vs.drop_first(), ss.drop_first());
        if vals_match(vs, ss) {
            assert forall|i: int| 0 <= i < vs.len() implies val_matches(vs[i], ss[i]) by {
                if i > 0 {
                    assert(vs.drop_first()[i - 1] == vs[i]);
                    assert(ss.drop_first()[i - 1] == ss[i]);
                    assert(val_matches(vs.drop_first()[i - 1], ss.drop_first()[i - 1]));
                }
            }
        }
        if forall|i: int| 0 <= i < vs.len() ==> val_matches(vs[i], ss[i]) {
            assert forall|j: int| 0 <= j < vs.drop_first().len() implies val_matches(
                vs.drop_first()[j],
                ss.drop_first()[j],
            ) by {
                assert(vs.drop_first()[j] == vs[j + 1]);
                assert(ss.drop_first()[j] == ss[j + 1]);
            }
            assert(vals_match(vs.drop_first(), ss.drop_first()));
        }
    }
}

/// Whether the value has the given shape, so that decoding the value's
/// encoding under that shape is meaningful.
pub open spec fn val_matches(v: Val, s: Shp) -> bool
    decreases v,
{
    match v {
        Val::VBool(_) => s == Shp::SBool,
        Val::VU8(_) => s == Shp::SU8,
        Val::VI8(_) => s == Shp::SI8,
        Val::VU16(_) => s == Shp::SU16,
        Val::VI16(_) => s == Shp::SI16,
        Val::VU32(_) => s == Shp::SU32,
        Val::VI32(_) => s == Shp::SI32,
        Val::VU64(_) => s == Shp::SU64,
        Val::VI64(_) => s == Shp::SI64,
        Val::VF32Bits(_) => s == Shp::SF32,
        Val::VF64Bits(_) => s == Shp::SF64,
        Val::VChar(_) => s == Shp::SChar,
        Val::VStr(_) => s == Shp::SStr,
        Val::VByteBuf(_) => s == Shp::SByteBuf,
        Val::VSequence(vs) => s matches Shp::SSequence(elem) && vals_match_elem(vs, *elem),
        Val::VArray(vs) => s matches Shp::SArray(n, elem) && vs.len() == n && vals_match_elem(
            vs,
            *elem,
        ),
        Val::VStruct(vs) => s matches Shp::SStruct(ss) && vals_match(vs, ss),
        Val::VEnum(d, p) => s matches Shp::SEnum(ss) && d < ss.len() && val_matches(
            *p,
            ss[d as int],
        ),
        Val::VNullable => s == Shp::SNullable,
        Val::VMapping => s == Shp::SMapping,
    }
}

/// Whether the values match the shapes pointwise, in order.
pub open spec fn vals_match(vs: Seq<Val>, ss: Seq<Shp>) -> bool
    decreases vs,
{
    vs.len() == ss.len() && (vs.len() == 0 || (val_matches(vs[0], ss[0]) && vals_match(
        vs.drop_first(),
        ss.drop_first(),
    )))
}

/// Whether every value of the list has the given element shape.
pub open spec fn vals_match_elem(vs: Seq<Val>, elem: Shp) -> bool
    decreases vs,
{
    vs.len() == 0 || (val_matches(vs[0], elem) && vals_match_elem(vs.drop_first(), elem))
}

} // verus!
