//! Serializing structured values into CDR bytes: the mathematical encoding
//! of a value at a stream position under a chosen endianness, and the
//! `Serializer` that writes exactly those bytes.

use vstd::prelude::*;

use vstd::string::StrSliceExecFns;
use vstd::utf8::encode_utf8;

use crate::prim::{
    bytes_of_u16, bytes_of_u32, bytes_of_u64, pad_len, push_u16_bytes, push_u32_bytes,
    push_u64_bytes, zeros,
};
use crate::size::{sz_vals_from, sz_value, SzOut};
use crate::value::{lemma_vals_of_index, val_of, vals_of, CdrValue, Val};
use crate::{Endianness, RepresentationFormat};

verus! {

/// The CDR encoding of a value written at position `pos` (bytes since the
/// last position reset) under byte order `e`: the alignment padding the wire
/// format demands, then the value's own bytes. Nullable values and maps,
/// which plain CDR cannot encode, map to the empty sequence; encoding them
/// through the API fails before any byte is produced.
pub open spec fn enc_value(v: Val, pos: int, e: Endianness) -> Seq<u8>
    decreases v, 0int,
{
    match v {
        Val::VBool(b) => seq![
            if b {
                1u8
            } else {
                0u8
            },
        ],
        Val::VU8(x) => seq![x],
        Val::VI8(x) => seq![x as u8],
        Val::VU16(x) => zeros(pad_len(pos, 2)) + bytes_of_u16(x, e),
        Val::VI16(x) => zeros(pad_len(pos, 2)) + bytes_of_u16(x as u16, e),
        Val::VU32(x) => zeros(pad_len(pos, 4)) + bytes_of_u32(x, e),
        Val::VI32(x) => zeros(pad_len(pos, 4)) + bytes_of_u32(x as u32, e),
        Val::VF32Bits(x) => zeros(pad_len(pos, 4)) + bytes_of_u32(x, e),
        Val::VU64(x) => zeros(pad_len(pos, 8)) + bytes_of_u64(x, e),
        Val::VI64(x) => zeros(pad_len(pos, 8)) + bytes_of_u64(x as u64, e),
        Val::VF64Bits(x) => zeros(pad_len(pos, 8)) + bytes_of_u64(x, e),
        Val::VChar(c) => seq![c as u8],
        Val::VStr(chars) => {
            let content = encode_utf8(chars);
            zeros(pad_len(pos, 4)) + bytes_of_u32((content.len() + 1) as u32, e) + content
                + seq![0u8]
        },
        Val::VByteBuf(bs) => zeros(pad_len(pos, 4)) + bytes_of_u32(bs.len() as u32, e) + bs,
        Val::VSequence(vs) => {
            let head = zeros(pad_len(pos, 4)) + bytes_of_u32(vs.len() as u32, e);
            head + enc_vals_from(vs, 0, pos + head.len(), e)
        },
        Val::VArray(vs) => enc_vals_from(vs, 0, pos, e),
        Val::VStruct(vs) => enc_vals_from(vs, 0, pos, e),
        Val::VEnum(d, p) => {
            let head = zeros(pad_len(pos, 4)) + bytes_of_u32(d, e);
            head + enc_value(*p, pos + head.len(), e)
        },
        Val::VNullable => Seq::empty(),
        Val::VMapping => Seq::empty(),
    }
}

/// The encodings of the values `vs[i..]`, written one after another starting
/// at position `pos`.
pub open spec fn enc_vals_from(vs: Seq<Val>, i: int, pos: int, e: Endianness) -> Seq<u8>
    decreases vs, vs.len() - i,
{
    if i < 0 || i >= vs.len() {
        Seq::empty()
    } else {
        let h = enc_value(vs[i], pos, e);
        h + enc_vals_from(vs, i + 1, pos + h.len(), e)
    }
}

/// Writes the CDR encoding of values into a growing byte buffer, tracking
/// the position counter that drives alignment and the endianness the chosen
/// representation format fixed.
pub struct Serializer {
    /// The bytes written so far, the encapsulation header included.
    pub buf: Vec<u8>,
    /// The buffer index at which the position counter was last reset; the
    /// current position is the buffer length minus this base.
    pub base: usize,
    /// The byte order for every multi-byte value; set once from the chosen
    /// format and never changed mid-traversal.
    pub endianness: Endianness,
}

impl Serializer {
    /// The position base never passes the end of the buffer.
    pub open spec fn wf(self) -> bool {
        self.base <= self.buf@.len()
    }

    /// The position counter: bytes written since the last reset.
    pub open spec fn spos(self) -> int {
        self.buf@.len() - self.base
    }

    /// A fresh serializer writing under the given format's byte order.
    pub fn new(representation_format: &RepresentationFormat) -> (r: Serializer)
        ensures
            r.wf(),
            r.buf@ == Seq::<u8>::empty(),
            r.base == 0,
            r.endianness == representation_format.spec_endianness(),
    {
        Serializer { buf: Vec::new(), base: 0, endianness: representation_format.endianness() }
    }

    /// Switches the live endianness to the given format's, as the top-level
    /// API does after writing the header.
    pub fn set_representation_format(&mut self, representation_format: &RepresentationFormat)
        ensures
            final(self).buf == old(self).buf,
            final(self).base == old(self).base,
            final(self).endianness == representation_format.spec_endianness(),
    {
        self.endianness = representation_format.endianness();
    }

    /// Resets the position counter to zero, as the top-level API does after
    /// writing the header.
    pub fn reset_pos(&mut self)
        ensures
            final(self).buf == old(self).buf,
            final(self).endianness == old(self).endianness,
            final(self).base == final(self).buf@.len(),
            final(self).wf(),
    {
        self.base = self.buf.len();
    }

    /// Writes the zero bytes that align the position to a multiple of `w`.
    fn pad_to(&mut self, w: usize)
        requires
            old(self).wf(),
            w == 2 || w == 4 || w == 8,
        ensures
            final(self).wf(),
            final(self).endianness == old(self).endianness,
            final(self).base == old(self).base,
            final(self).buf@ == old(self).buf@ + zeros(pad_len(old(self).spos(), w as int)),
            final(self).spos() % (w as int) == 0,
    {
        let pos = self.buf.len() - self.base;
        let m = pos % w;
        proof {
            vstd::arithmetic::div_mod::lemma_mod_self_0(w as int);
        }
        if m == 0 {
            assert(self.buf@ =~= self.buf@ + zeros(0));
        } else {
            let ghost need = pad_len(old(self).spos(), w as int);
            proof {
                vstd::arithmetic::div_mod::lemma_small_mod((w - m) as nat, w as nat);
                vstd::arithmetic::div_mod::lemma_add_mod_noop(pos as int, (w - m) as int, w as int);
                assert(need == w - m);
            }
            let mut k: usize = w - m;
            while k > 0
                invariant
                    self.wf(),
                    self.endianness == old(self).endianness,
                    self.base == old(self).base,
                    k <= need,
                    self.buf@ == old(self).buf@ + zeros(need - k),
                decreases k,
            {
                self.buf.push(0);
                assert(self.buf@ =~= old(self).buf@ + zeros(need - (k - 1)));
                k = k - 1;
            }
            assert(self.buf@ =~= old(self).buf@ + zeros(need));
        }
    }

    /// Writes one raw byte; the position advances by one.
    pub fn write_byte(&mut self, x: u8)
        requires
            old(self).wf(),
        ensures
            final(self).wf(),
            final(self).endianness == old(self).endianness,
            final(self).base == old(self).base,
            final(self).buf@ == old(self).buf@ + seq![x],
    {
        self.buf.push(x);
        assert(self.buf@ =~= old(self).buf@ + seq![x]);
    }

    /// Aligns to two bytes and writes a 16-bit value in the live byte order.
    pub fn write_u16(&mut self, x: u16)
        requires
            old(self).wf(),
        ensures
            final(self).wf(),
            final(self).endianness == old(self).endianness,
            final(self).base == old(self).base,
            final(self).buf@ == old(self).buf@ + zeros(pad_len(old(self).spos(), 2))
                + bytes_of_u16(x, old(self).endianness),
    {
        self.pad_to(2);
        let e = self.endianness;
        push_u16_bytes(&mut self.buf, x, e);
        assert(self.buf@ =~= old(self).buf@ + zeros(pad_len(old(self).spos(), 2)) + bytes_of_u16(
            x,
            old(self).endianness,
        ));
    }

    /// Aligns to four bytes and writes a 32-bit value in the live byte order.
    pub fn write_u32(&mut self, x: u32)
        requires
            old(self).wf(),
        ensures
            final(self).wf(),
            final(self).endianness == old(self).endianness,
            final(self).base == old(self).base,
            final(self).buf@ == old(self).buf@ + zeros(pad_len(old(self).spos(), 4))
                + bytes_of_u32(x, old(self).endianness),
    {
        self.pad_to(4);
        let e = self.endianness;
        push_u32_bytes(&mut self.buf, x, e);
        assert(self.buf@ =~= old(self).buf@ + zeros(pad_len(old(self).spos(), 4)) + bytes_of_u32(
            x,
            old(self).endianness,
        ));
    }

    /// Aligns to eight bytes and writes a 64-bit value in the live byte
    /// order.
    pub fn write_u64(&mut self, x: u64)
        requires
            old(self).wf(),
        ensures
            final(self).wf(),
            final(self).endianness == old(self).endianness,
            final(self).base == old(self).base,
            final(self).buf@ == old(self).buf@ + zeros(pad_len(old(self).spos(), 8))
                + bytes_of_u64(x, old(self).endianness),
    {
        self.pad_to(8);
        let e = self.endianness;
        push_u64_bytes(&mut self.buf, x, e);
        assert(self.buf@ =~= old(self).buf@ + zeros(pad_len(old(self).spos(), 8)) + bytes_of_u64(
            x,
            old(self).endianness,
        ));
    }

    /// Writes one value's encoding. The caller has already run the size pass
    /// (whose success means the value is supported and every length fits its
    /// 4-byte prefix), so writing cannot fail.
    #[verifier::rlimit(60)]
    pub fn write_value(&mut self, v: &CdrValue)
        requires
            old(self).wf(),
            sz_value(val_of(*v), old(self).spos(), Option::None) is Fits,
        ensures
            final(self).wf(),
            final(self).endianness == old(self).endianness,
            final(self).base == old(self).base,
            final(self).buf@ == old(self).buf@ + enc_value(
                val_of(*v),
                old(self).spos(),
                old(self).endianness,
            ),
        decreases v,
    {
        match v {
            CdrValue::Bool(b) => {
                self.write_byte(
                    if *b {
                        1
                    } else {
                        0
                    },
                );
            },
            CdrValue::U8(x) => {
                self.write_byte(*x);
            },
            CdrValue::I8(x) => {
                self.write_byte(#[verifier::truncate] (*x as u8));
            },
            CdrValue::U16(x) => {
                self.write_u16(*x);
            },
            CdrValue::I16(x) => {
                self.write_u16(#[verifier::truncate] (*x as u16));
            },
            CdrValue::U32(x) => {
                self.write_u32(*x);
            },
            CdrValue::I32(x) => {
                self.write_u32(#[verifier::truncate] (*x as u32));
            },
            CdrValue::F32Bits(x) => {
                self.write_u32(*x);
            },
            CdrValue::U64(x) => {
                self.write_u64(*x);
            },
            CdrValue::I64(x) => {
                self.write_u64(#[verifier::truncate] (*x as u64));
            },
            CdrValue::F64Bits(x) => {
                self.write_u64(*x);
            },
            CdrValue::Char(c) => {
                self.write_byte(#[verifier::truncate] (*c as u8));
            },
            CdrValue::Str(s) => {
                let mut content = s.as_str().as_bytes_vec();
                let bl = content.len();
                self.write_u32((bl + 1) as u32);
                self.buf.append(&mut content);
                self.write_byte(0);
                assert(self.buf@ =~= old(self).buf@ + enc_value(
                    val_of(*v),
                    old(self).spos(),
                    old(self).endianness,
                ));
            },
            CdrValue::ByteBuf(b) => {
                let bl = b.len();
                self.write_u32(bl as u32);
                let mut content = clone_byte_vec(b);
                self.buf.append(&mut content);
                assert(self.buf@ =~= old(self).buf@ + enc_value(
                    val_of(*v),
                    old(self).spos(),
                    old(self).endianness,
                ));
            },
            CdrValue::Sequence(vs) => {
                proof {
                    lemma_vals_of_index(vs@);
                }
                self.write_u32(vs.len() as u32);
                self.write_values(vs);
                assert(self.buf@ =~= old(self).buf@ + enc_value(
                    val_of(*v),
                    old(self).spos(),
                    old(self).endianness,
                ));
            },
            CdrValue::Array(vs) => {
                self.write_values(vs);
            },
            CdrValue::Struct(vs) => {
                self.write_values(vs);
            },
            CdrValue::Enum(d, payload) => {
                self.write_u32(*d);
                self.write_value(payload);
                assert(self.buf@ =~= old(self).buf@ + enc_value(
                    val_of(*v),
                    old(self).spos(),
                    old(self).endianness,
                ));
            },
            CdrValue::Nullable => {
                // The size pass admitted the value, so it holds no nullable
                // value or map; this arm cannot be reached.
                proof {
                    assert(false);
                }
            },
            CdrValue::Mapping => {
                proof {
                    assert(false);
                }
            },
        }
    }

    /// Writes the encodings of the values in order.
    fn write_values(&mut self, vs: &Vec<CdrValue>)
        requires
            old(self).wf(),
            sz_vals_from(vals_of(vs@), 0, old(self).spos(), Option::None) is Fits,
        ensures
            final(self).wf(),
            final(self).endianness == old(self).endianness,
            final(self).base == old(self).base,
            final(self).buf@ == old(self).buf@ + enc_vals_from(
                vals_of(vs@),
                0,
                old(self).spos(),
                old(self).endianness,
            ),
        decreases vs,
    {
        let ghost models = vals_of(vs@);
        let ghost pos0 = self.spos();
        let ghost e0 = self.endianness;
        proof {
            lemma_vals_of_index(vs@);
        }
        let mut i: usize = 0;
        while i < vs.len()
            invariant
                self.wf(),
                i <= vs.len(),
                models == vals_of(vs@),
                models.len() == vs@.len(),
                self.endianness == e0,
                e0 == old(self).endianness,
                self.base == old(self).base,
                pos0 == old(self).spos(),
                sz_vals_from(models, i as int, self.spos(), Option::None) is Fits,
                self.buf@ + enc_vals_from(models, i as int, self.spos(), e0) == old(self).buf@
                    + enc_vals_from(models, 0, pos0, e0),
            decreases vs.len() - i,
        {
            proof {
                lemma_vals_of_index(vs@);
                lemma_sz_fits_enc_len(models[i as int], self.spos(), e0);
            }
            let ghost pos_i = self.spos();
            let ghost buf_i = self.buf@;
            self.write_value(&vs[i]);
            proof {
                let h = enc_value(models[i as int], pos_i, e0);
                assert(sz_value(models[i as int], pos_i, Option::None) == SzOut::Fits(
                    h.len() as int,
                ));
                assert(self.buf@ + enc_vals_from(models, i + 1, self.spos(), e0) =~= buf_i
                    + enc_vals_from(models, i as int, pos_i, e0));
            }
            i = i + 1;
        }
    }
}

/// A copy of a byte vector, so that encoding leaves the value untouched.
fn clone_byte_vec(b: &Vec<u8>) -> (r: Vec<u8>)
    ensures
        r@ == b@,
{
    let mut r: Vec<u8> = Vec::new();
    let mut i: usize = 0;
    while i < b.len()
        invariant
            i <= b@.len(),
            r@ == b@.subrange(0, i as int),
        decreases b@.len() - i,
    {
        r.push(b[i]);
        assert(r@ =~= b@.subrange(0, i + 1));
        i = i + 1;
    }
    assert(r@ =~= b@);
    r
}

/// When the size pass succeeds without a bound, the size it reports is
/// exactly the length of the encoding, under either byte order.
#[verifier::rlimit(60)]
pub proof fn lemma_sz_fits_enc_len(v: Val, pos: int, e: Endianness)
    requires
        sz_value(v, pos, Option::None) is Fits,
    ensures
        sz_value(v, pos, Option::None) == SzOut::Fits(enc_value(v, pos, e).len() as int),
    decreases v, 0int,
{
    match v {
        Val::VStr(chars) => {
            assert(enc_value(v, pos, e).len() == pad_len(pos, 4) + 4 + encode_utf8(chars).len()
                + 1);
        },
        Val::VSequence(vs) => {
            let c0 = pad_len(pos, 4) + 4;
            lemma_sz_fits_enc_len_vals(vs, 0, pos + c0, e);
            assert(enc_value(v, pos, e).len() == c0 + enc_vals_from(vs, 0, pos + c0, e).len());
        },
        Val::VArray(vs) => {
            lemma_sz_fits_enc_len_vals(vs, 0, pos, e);
        },
        Val::VStruct(vs) => {
            lemma_sz_fits_enc_len_vals(vs, 0, pos, e);
        },
        Val::VEnum(_d, p) => {
            let c0 = pad_len(pos, 4) + 4;
            lemma_sz_fits_enc_len(*p, pos + c0, e);
            assert(enc_value(v, pos, e).len() == c0 + enc_value(*p, pos + c0, e).len());
        },
        _ => {},
    }
}

/// When the size pass over a value list succeeds without a bound, the size
/// it reports is exactly the length of the list's encoding.
pub proof fn lemma_sz_fits_enc_len_vals(vs: Seq<Val>, i: int, pos: int, e: Endianness)
    requires
        sz_vals_from(vs, i, pos, Option::None) is Fits,
    ensures
        sz_vals_from(vs, i, pos, Option::None) == SzOut::Fits(
            enc_vals_from(vs, i, pos, e).len() as int,
        ),
    decreases vs, vs.len() - i,
{
    if 0 <= i < vs.len() {
        lemma_sz_fits_enc_len(vs[i], pos, e);
        let h = enc_value(vs[i], pos, e);
        lemma_sz_fits_enc_len_vals(vs, i + 1, pos + h.len(), e);
    }
}

} // verus!
