//! The laws of the codec, stated and proved over its mathematical model:
//! alignment, agreement of the size pass with real encoding, bound
//! enforcement, and the round trip from encoding back through decoding.

use vstd::prelude::*;

use vstd::utf8::{encode_utf8, encode_utf8_decode_utf8, encode_utf8_valid_utf8};

use crate::de::{dec_fixed, dec_len32, dec_value, dec_elems, dec_fields, DecListOut, DecOut,
    FixOut, U32Out};
use crate::error::Error;
use crate::prim::{bytes_of_u16, bytes_of_u32, bytes_of_u64, lemma_u16_bytes_round_trip,
    lemma_u32_bytes_round_trip, lemma_u64_bytes_round_trip, pad_len, u16_of_bytes, zeros};
use crate::ser::{enc_vals_from, enc_value};
use crate::size::{len_value, len_vals_from, lemma_sz_bounded, sz_value, SzOut};
use crate::value::{lemma_vals_match_elem_index, lemma_vals_match_index, lemma_wf_vals_index,
    val_matches, vals_match, vals_match_elem, wf_val, wf_vals, Shp, Val};
use crate::{dec_header, format_of_id, header_bytes, message_bytes, Endianness, HdrOut,
    RepresentationFormat};

verus! {

/// Alignment: the padding the codec inserts before a value of width `w` is
/// fewer than `w` bytes and leaves the position at an exact multiple of
/// `w`, so every value of width `w` begins at a position divisible by `w`.
pub proof fn lemma_alignment(pos: int, w: int)
    requires
        w == 1 || w == 2 || w == 4 || w == 8,
        pos >= 0,
    ensures
        0 <= pad_len(pos, w) < w,
        (pos + pad_len(pos, w)) % w == 0,
{
    let m = pos % w;
    vstd::arithmetic::div_mod::lemma_mod_self_0(w);
    if m != 0 {
        vstd::arithmetic::div_mod::lemma_small_mod((w - m) as nat, w as nat);
        vstd::arithmetic::div_mod::lemma_add_mod_noop(pos, w - m, w);
    }
}

/// Size/encode agreement: the dry-run size of a value at a position is
/// exactly the length of its encoding there, under either byte order.
pub proof fn lemma_size_encode_agree(v: Val, pos: int, e: Endianness)
    ensures
        enc_value(v, pos, e).len() == len_value(v, pos),
    decreases v, 0int,
{
    match v {
        Val::VSequence(vs) => {
            let c0 = pad_len(pos, 4) + 4;
            lemma_size_encode_agree_vals(vs, 0, pos + c0, e);
        },
        Val::VArray(vs) => {
            lemma_size_encode_agree_vals(vs, 0, pos, e);
        },
        Val::VStruct(vs) => {
            lemma_size_encode_agree_vals(vs, 0, pos, e);
        },
        Val::VEnum(_d, p) => {
            let c0 = pad_len(pos, 4) + 4;
            lemma_size_encode_agree(*p, pos + c0, e);
        },
        _ => {},
    }
}

/// Size/encode agreement over a value list.
pub proof fn lemma_size_encode_agree_vals(vs: Seq<Val>, i: int, pos: int, e: Endianness)
    ensures
        enc_vals_from(vs, i, pos, e).len() == len_vals_from(vs, i, pos),
    decreases vs, vs.len() - i,
{
    if 0 <= i < vs.len() {
        lemma_size_encode_agree(vs[i], pos, e);
        lemma_size_encode_agree_vals(vs, i + 1, pos + enc_value(vs[i], pos, e).len(), e);
    }
}

/// Bound enforcement: for a well-formed value, the bounded size check with
/// `max` total bytes (header included) fits exactly when the true total
/// size stays within `max`, and fails with `SizeLimit` exactly when it
/// does not.
pub proof fn lemma_bound_enforcement(v: Val, max: usize)
    requires
        wf_val(v),
        max >= 4,
    ensures
        sz_value(v, 0, Option::Some(max - 4)) == (if 4 + len_value(v, 0) <= max {
            SzOut::Fits(len_value(v, 0))
        } else {
            SzOut::SzErr(Error::SizeLimit)
        }),
{
    lemma_sz_bounded(v, 0, Option::Some(max - 4));
}

/// Round trip: a well-formed value, encoded at any position and laid into
/// any buffer there, decodes back to itself under the shape it matches,
/// consuming exactly its encoding.
#[verifier::rlimit(100)]
pub proof fn lemma_round_trip(v: Val, s: Shp, b: Seq<u8>, cur: int, pos: int, e: Endianness)
    requires
        wf_val(v),
        val_matches(v, s),
        0 <= cur,
        0 <= pos,
        cur + enc_value(v, pos, e).len() <= b.len(),
        forall|i: int|
            0 <= i < enc_value(v, pos, e).len() ==> #[trigger] b[cur + i] == enc_value(v, pos, e)[i],
    ensures
        dec_value(b, cur, pos, Option::None, s, e) == DecOut::Found(
            v,
            enc_value(v, pos, e).len() as int,
        ),
    decreases v, 0int,
{
    let encv = enc_value(v, pos, e);
    match v {
        Val::VBool(x) => {
            assert(b[cur] == encv[0]);
        },
        Val::VU8(x) => {
            assert(b[cur] == encv[0]);
        },
        Val::VI8(x) => {
            assert(b[cur] == encv[0]);
            assert((x as u8) as i8 == x) by (bit_vector);
        },
        Val::VU16(x) => {
            lemma_round_trip_fixed16(x, b, cur, pos, e);
            lemma_u16_bytes_round_trip(x, e);
        },
        Val::VI16(x) => {
            lemma_round_trip_fixed16((x as u16), b, cur, pos, e);
            lemma_u16_bytes_round_trip((x as u16), e);
            assert((x as u16) as i16 == x) by (bit_vector);
        },
        Val::VU32(x) => {
            lemma_round_trip_fixed32(x, b, cur, pos, e);
            lemma_u32_bytes_round_trip(x, e);
        },
        Val::VI32(x) => {
            lemma_round_trip_fixed32((x as u32), b, cur, pos, e);
            lemma_u32_bytes_round_trip((x as u32), e);
            assert((x as u32) as i32 == x) by (bit_vector);
        },
        Val::VF32Bits(x) => {
            lemma_round_trip_fixed32(x, b, cur, pos, e);
            lemma_u32_bytes_round_trip(x, e);
        },
        Val::VU64(x) => {
            lemma_round_trip_fixed64(x, b, cur, pos, e);
            lemma_u64_bytes_round_trip(x, e);
        },
        Val::VI64(x) => {
            lemma_round_trip_fixed64((x as u64), b, cur, pos, e);
            lemma_u64_bytes_round_trip((x as u64), e);
            assert((x as u64) as i64 == x) by (bit_vector);
        },
        Val::VF64Bits(x) => {
            lemma_round_trip_fixed64(x, b, cur, pos, e);
            lemma_u64_bytes_round_trip(x, e);
        },
        Val::VChar(c) => {
            let u = c as u32;
            assert(b[cur] == encv[0]);
            assert(u < 0x80 ==> ((u as u8) < 0x80 && (u as u8) as u32 == u)) by (bit_vector);
            assert((c as u8) == (u as u8));
            vstd::utf8::char_u32_cast(c, u);
            assert((b[cur] as char) == c);
        },
        Val::VStr(chars) => {
            lemma_round_trip_str(chars, b, cur, pos, e);
        },
        Val::VByteBuf(bs) => {
            lemma_round_trip_bytebuf(bs, b, cur, pos, e);
        },
        Val::VSequence(vs) => {
            let p = pad_len(pos, 4);
            let lenv = vs.len() as u32;
            lemma_dec_len32_of_enc(lenv, b, cur, pos, e, encv);
            assert(lenv as int == vs.len());
            let cur2 = cur + p + 4;
            let pos2 = pos + p + 4;
            let tail = enc_vals_from(vs, 0, pos2, e);
            assert forall|j: int| 0 <= j < tail.len() implies b[cur2 + j] == tail[j] by {
                assert(b[cur + (p + 4 + j)] == encv[p + 4 + j]);
            }
            if let Shp::SSequence(elem_s) = s {
                lemma_round_trip_elems(vs, 0, *elem_s, b, cur2, pos2, e);
            }
            assert(vs.skip(0) =~= vs);
        },
        Val::VArray(vs) => {
            if let Shp::SArray(_n, elem_s) = s {
                lemma_round_trip_elems(vs, 0, *elem_s, b, cur, pos, e);
            }
            assert(vs.skip(0) =~= vs);
        },
        Val::VStruct(vs) => {
            if let Shp::SStruct(field_ss) = s {
                lemma_round_trip_fields(vs, field_ss, 0, b, cur, pos, e);
            }
            assert(vs.skip(0) =~= vs);
        },
        Val::VEnum(d, payload) => {
            let p = pad_len(pos, 4);
            lemma_dec_len32_of_enc(d, b, cur, pos, e, encv);
            let cur2 = cur + p + 4;
            let pos2 = pos + p + 4;
            let tail = enc_value(*payload, pos2, e);
            assert forall|j: int| 0 <= j < tail.len() implies b[cur2 + j] == tail[j] by {
                assert(b[cur + (p + 4 + j)] == encv[p + 4 + j]);
            }
            if let Shp::SEnum(variant_ss) = s {
                lemma_round_trip(*payload, variant_ss[d as int], b, cur2, pos2, e);
            }
        },
        Val::VNullable => {},
        Val::VMapping => {},
    }
}

/// Round trip for a list of values of one element shape: decoding as many
/// elements as remain gives the remaining values back.
pub proof fn lemma_round_trip_elems(
    vs: Seq<Val>,
    i: int,
    elem: Shp,
    b: Seq<u8>,
    cur: int,
    pos: int,
    e: Endianness,
)
    requires
        wf_vals(vs),
        vals_match_elem(vs, elem),
        0 <= i <= vs.len(),
        0 <= cur,
        0 <= pos,
        cur + enc_vals_from(vs, i, pos, e).len() <= b.len(),
        forall|j: int|
            0 <= j < enc_vals_from(vs, i, pos, e).len() ==> #[trigger] b[cur + j]
                == enc_vals_from(vs, i, pos, e)[j],
    ensures
        dec_elems(b, cur, pos, Option::None, elem, vs.len() - i, e) == DecListOut::FoundList(
            vs.skip(i),
            enc_vals_from(vs, i, pos, e).len() as int,
        ),
    decreases vs, vs.len() - i,
{
    if i >= vs.len() {
        assert(vs.skip(i) =~= Seq::<Val>::empty());
    } else {
        lemma_wf_vals_index(vs);
        lemma_vals_match_elem_index(vs, elem);
        let h = enc_value(vs[i], pos, e);
        let tail = enc_vals_from(vs, i + 1, pos + h.len(), e);
        assert forall|j: int| 0 <= j < h.len() implies b[cur + j] == h[j] by {
            assert(b[cur + j] == enc_vals_from(vs, i, pos, e)[j]);
        }
        lemma_round_trip(vs[i], elem, b, cur, pos, e);
        assert forall|j: int| 0 <= j < tail.len() implies b[(cur + h.len()) + j] == tail[j] by {
            assert(b[cur + (h.len() + j)] == enc_vals_from(vs, i, pos, e)[h.len() + j]);
        }
        lemma_round_trip_elems(vs, i + 1, elem, b, cur + h.len(), pos + h.len(), e);
        assert(vs.skip(i) =~= seq![vs[i]] + vs.skip(i + 1));
    }
}

/// Round trip for the fields of a struct: decoding the remaining field
/// shapes gives the remaining field values back.
pub proof fn lemma_round_trip_fields(
    vs: Seq<Val>,
    ss: Seq<Shp>,
    i: int,
    b: Seq<u8>,
    cur: int,
    pos: int,
    e: Endianness,
)
    requires
        wf_vals(vs),
        vals_match(vs, ss),
        0 <= i <= vs.len(),
        0 <= cur,
        0 <= pos,
        cur + enc_vals_from(vs, i, pos, e).len() <= b.len(),
        forall|j: int|
            0 <= j < enc_vals_from(vs, i, pos, e).len() ==> #[trigger] b[cur + j]
                == enc_vals_from(vs, i, pos, e)[j],
    ensures
        dec_fields(b, cur, pos, Option::None, ss, i, e) == DecListOut::FoundList(
            vs.skip(i),
            enc_vals_from(vs, i, pos, e).len() as int,
        ),
    decreases vs, vs.len() - i,
{
    lemma_vals_match_index(vs, ss);
    if i >= vs.len() {
        assert(vs.skip(i) =~= Seq::<Val>::empty());
    } else {
        lemma_wf_vals_index(vs);
        let h = enc_value(vs[i], pos, e);
        let tail = enc_vals_from(vs, i + 1, pos + h.len(), e);
        assert forall|j: int| 0 <= j < h.len() implies b[cur + j] == h[j] by {
            assert(b[cur + j] == enc_vals_from(vs, i, pos, e)[j]);
        }
        lemma_round_trip(vs[i], ss[i], b, cur, pos, e);
        assert forall|j: int| 0 <= j < tail.len() implies b[(cur + h.len()) + j] == tail[j] by {
            assert(b[cur + (h.len() + j)] == enc_vals_from(vs, i, pos, e)[h.len() + j]);
        }
        lemma_round_trip_fields(vs, ss, i + 1, b, cur + h.len(), pos + h.len(), e);
        assert(vs.skip(i) =~= seq![vs[i]] + vs.skip(i + 1));
    }
}

/// Round trip of one string: its count-prefixed, terminated encoding
/// decodes back to its characters.
#[verifier::rlimit(60)]
proof fn lemma_round_trip_str(chars: Seq<char>, b: Seq<u8>, cur: int, pos: int, e: Endianness)
    requires
        encode_utf8(chars).len() + 1 <= u32::MAX,
        0 <= cur,
        0 <= pos,
        cur + enc_value(Val::VStr(chars), pos, e).len() <= b.len(),
        forall|i: int|
            0 <= i < enc_value(Val::VStr(chars), pos, e).len() ==> #[trigger] b[cur + i]
                == enc_value(Val::VStr(chars), pos, e)[i],
    ensures
        dec_value(b, cur, pos, Option::None, Shp::SStr, e) == DecOut::Found(
            Val::VStr(chars),
            enc_value(Val::VStr(chars), pos, e).len() as int,
        ),
{
    let encv = enc_value(Val::VStr(chars), pos, e);
    let content = encode_utf8(chars);
    let p = pad_len(pos, 4);
    let lenv = (content.len() + 1) as u32;
    lemma_dec_len32_of_enc(lenv, b, cur, pos, e, encv);
    assert(lenv as int == content.len() + 1);
    let cur2 = cur + p + 4;
    assert(cur2 + lenv <= b.len());
    let raw = b.subrange(cur2, cur2 + lenv);
    assert(raw =~= content + seq![0u8]) by {
        assert forall|j: int| 0 <= j < lenv implies raw[j] == (content + seq![0u8])[j] by {
            assert(b[cur + (p + 4 + j)] == encv[p + 4 + j]);
            assert(encv[p + 4 + j] == (content + seq![0u8])[j]);
            assert(raw[j] == b[cur2 + j]);
        }
    }
    assert(raw.drop_last() =~= content);
    encode_utf8_valid_utf8(chars);
    encode_utf8_decode_utf8(chars);
}

/// Round trip of one byte buffer: its count-prefixed encoding decodes back
/// to its bytes.
#[verifier::rlimit(60)]
proof fn lemma_round_trip_bytebuf(bs: Seq<u8>, b: Seq<u8>, cur: int, pos: int, e: Endianness)
    requires
        bs.len() <= u32::MAX,
        0 <= cur,
        0 <= pos,
        cur + enc_value(Val::VByteBuf(bs), pos, e).len() <= b.len(),
        forall|i: int|
            0 <= i < enc_value(Val::VByteBuf(bs), pos, e).len() ==> #[trigger] b[cur + i]
                == enc_value(Val::VByteBuf(bs), pos, e)[i],
    ensures
        dec_value(b, cur, pos, Option::None, Shp::SByteBuf, e) == DecOut::Found(
            Val::VByteBuf(bs),
            enc_value(Val::VByteBuf(bs), pos, e).len() as int,
        ),
{
    let encv = enc_value(Val::VByteBuf(bs), pos, e);
    let p = pad_len(pos, 4);
    let lenv = bs.len() as u32;
    lemma_dec_len32_of_enc(lenv, b, cur, pos, e, encv);
    assert(lenv as int == bs.len());
    let cur2 = cur + p + 4;
    assert(cur2 + lenv <= b.len());
    let raw = b.subrange(cur2, cur2 + lenv);
    assert(raw =~= bs) by {
        assert forall|j: int| 0 <= j < lenv implies raw[j] == bs[j] by {
            assert(b[cur + (p + 4 + j)] == encv[p + 4 + j]);
            assert(encv[p + 4 + j] == bs[j]);
            assert(raw[j] == b[cur2 + j]);
        }
    }
}

/// Helper for the round trip: the wire bytes of an aligned 16-bit value at
/// the start of an encoding are found at the padded index.
proof fn lemma_round_trip_fixed16(x: u16, b: Seq<u8>, cur: int, pos: int, e: Endianness)
    requires
        0 <= cur,
        0 <= pos,
        cur + pad_len(pos, 2) + 2 <= b.len(),
        forall|i: int|
            0 <= i < pad_len(pos, 2) + 2 ==> #[trigger] b[cur + i] == (zeros(pad_len(pos, 2))
                + bytes_of_u16(x, e))[i],
    ensures
        dec_fixed(b, cur, pos, Option::None, 2) == FixOut::At(cur + pad_len(pos, 2)),
        b[cur + pad_len(pos, 2)] == bytes_of_u16(x, e)[0],
        b[(cur + pad_len(pos, 2)) + 1] == bytes_of_u16(x, e)[1],
{
    let p = pad_len(pos, 2);
    assert(b[cur + p] == bytes_of_u16(x, e)[0]);
    assert(b[cur + (p + 1)] == bytes_of_u16(x, e)[1]);
}

/// Helper for the round trip: the wire bytes of an aligned 32-bit value at
/// the start of an encoding are found at the padded index.
proof fn lemma_round_trip_fixed32(x: u32, b: Seq<u8>, cur: int, pos: int, e: Endianness)
    requires
        0 <= cur,
        0 <= pos,
        cur + pad_len(pos, 4) + 4 <= b.len(),
        forall|i: int|
            0 <= i < pad_len(pos, 4) + 4 ==> #[trigger] b[cur + i] == (zeros(pad_len(pos, 4))
                + bytes_of_u32(x, e))[i],
    ensures
        dec_fixed(b, cur, pos, Option::None, 4) == FixOut::At(cur + pad_len(pos, 4)),
        b[cur + pad_len(pos, 4)] == bytes_of_u32(x, e)[0],
        b[(cur + pad_len(pos, 4)) + 1] == bytes_of_u32(x, e)[1],
        b[(cur + pad_len(pos, 4)) + 2] == bytes_of_u32(x, e)[2],
        b[(cur + pad_len(pos, 4)) + 3] == bytes_of_u32(x, e)[3],
{
    let p = pad_len(pos, 4);
    assert(b[cur + p] == bytes_of_u32(x, e)[0]);
    assert(b[cur + (p + 1)] == bytes_of_u32(x, e)[1]);
    assert(b[cur + (p + 2)] == bytes_of_u32(x, e)[2]);
    assert(b[cur + (p + 3)] == bytes_of_u32(x, e)[3]);
}

/// Helper for the round trip: the wire bytes of an aligned 64-bit value at
/// the start of an encoding are found at the padded index.
proof fn lemma_round_trip_fixed64(x: u64, b: Seq<u8>, cur: int, pos: int, e: Endianness)
    requires
        0 <= cur,
        0 <= pos,
        cur + pad_len(pos, 8) + 8 <= b.len(),
        forall|i: int|
            0 <= i < pad_len(pos, 8) + 8 ==> #[trigger] b[cur + i] == (zeros(pad_len(pos, 8))
                + bytes_of_u64(x, e))[i],
    ensures
        dec_fixed(b, cur, pos, Option::None, 8) == FixOut::At(cur + pad_len(pos, 8)),
        b[cur + pad_len(pos, 8)] == bytes_of_u64(x, e)[0],
        b[(cur + pad_len(pos, 8)) + 1] == bytes_of_u64(x, e)[1],
        b[(cur + pad_len(pos, 8)) + 2] == bytes_of_u64(x, e)[2],
        b[(cur + pad_len(pos, 8)) + 3] == bytes_of_u64(x, e)[3],
        b[(cur + pad_len(pos, 8)) + 4] == bytes_of_u64(x, e)[4],
        b[(cur + pad_len(pos, 8)) + 5] == bytes_of_u64(x, e)[5],
        b[(cur + pad_len(pos, 8)) + 6] == bytes_of_u64(x, e)[6],
        b[(cur + pad_len(pos, 8)) + 7] == bytes_of_u64(x, e)[7],
{
    let p = pad_len(pos, 8);
    assert(b[cur + p] == bytes_of_u64(x, e)[0]);
    assert(b[cur + (p + 1)] == bytes_of_u64(x, e)[1]);
    assert(b[cur + (p + 2)] == bytes_of_u64(x, e)[2]);
    assert(b[cur + (p + 3)] == bytes_of_u64(x, e)[3]);
    assert(b[cur + (p + 4)] == bytes_of_u64(x, e)[4]);
    assert(b[cur + (p + 5)] == bytes_of_u64(x, e)[5]);
    assert(b[cur + (p + 6)] == bytes_of_u64(x, e)[6]);
    assert(b[cur + (p + 7)] == bytes_of_u64(x, e)[7]);
}

/// Helper for the round trip: a 4-byte value written aligned at `pos` as
/// the first piece of an encoding is read back by `dec_len32`.
proof fn lemma_dec_len32_of_enc(
    x: u32,
    b: Seq<u8>,
    cur: int,
    pos: int,
    e: Endianness,
    encv: Seq<u8>,
)
    requires
        0 <= cur,
        0 <= pos,
        cur + encv.len() <= b.len(),
        forall|i: int| 0 <= i < encv.len() ==> #[trigger] b[cur + i] == encv[i],
        encv.len() >= pad_len(pos, 4) + 4,
        forall|i: int|
            0 <= i < pad_len(pos, 4) + 4 ==> #[trigger] encv[i] == (zeros(pad_len(pos, 4))
                + bytes_of_u32(x, e))[i],
    ensures
        dec_len32(b, cur, pos, Option::None, e) == U32Out::Got(x, pad_len(pos, 4) + 4),
{
    let p = pad_len(pos, 4);
    let bb = bytes_of_u32(x, e);
    assert(b[cur + p] == bb[0]);
    assert(b[cur + (p + 1)] == bb[1]);
    assert(b[cur + (p + 2)] == bb[2]);
    assert(b[cur + (p + 3)] == bb[3]);
    lemma_u32_bytes_round_trip(x, e);
    assert(dec_fixed(b, cur, pos, Option::None, 4) == FixOut::At(cur + p));
    assert(b[(cur + p) + 1] == bb[1]);
    assert(b[(cur + p) + 2] == bb[2]);
    assert(b[(cur + p) + 3] == bb[3]);
}

/// Header and message round trip: a complete message encodes the format in
/// its header and decodes, under the shape the value matches, back to the
/// value.
pub proof fn lemma_message_round_trip(v: Val, s: Shp, f: RepresentationFormat)
    requires
        wf_val(v),
        val_matches(v, s),
    ensures
        dec_header(message_bytes(v, f), Option::None) == HdrOut::GotHdr(f),
        dec_value(message_bytes(v, f), 4, 0, Option::None, s, f.spec_endianness()) == DecOut::Found(
            v,
            enc_value(v, 0, f.spec_endianness()).len() as int,
        ),
{
    let b = message_bytes(v, f);
    let e = f.spec_endianness();
    let hdr = header_bytes(f);
    assert(hdr.len() == 4);
    assert(b.len() == 4 + enc_value(v, 0, e).len());
    assert(b[0] == bytes_of_u16(f.spec_id(), Endianness::BigEndian)[0]);
    assert(b[1] == bytes_of_u16(f.spec_id(), Endianness::BigEndian)[1]);
    lemma_u16_bytes_round_trip(f.spec_id(), Endianness::BigEndian);
    assert(u16_of_bytes(b[0], b[1], Endianness::BigEndian) == f.spec_id());
    assert(format_of_id(f.spec_id()) == Option::Some(f));
    assert forall|i: int| 0 <= i < enc_value(v, 0, e).len() implies b[4 + i] == enc_value(
        v,
        0,
        e,
    )[i] by {}
    lemma_round_trip(v, s, b, 4, 0, e);
}

} // verus!
