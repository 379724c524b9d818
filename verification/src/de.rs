//! Deserializing CDR bytes into structured values: the mathematical decoding
//! of a byte stream at a position under a shape and endianness, and the
//! `Deserializer` that reads exactly that way.
//!
//! Decoding tracks two counters: the read cursor (`cur`, an index into the
//! input) and the position counter (`pos`, bytes consumed since the last
//! header reset) that drives alignment. They advance together; only `pos` is
//! reset after the encapsulation header. A bounded deserializer also keeps a
//! byte budget that every size-consuming operation is checked against.

use vstd::prelude::*;

use vstd::utf8::{decode_utf8, encode_utf8, valid_utf8};

use crate::error::Error;
use crate::prim::{pad_len, u16_from_bytes, u16_of_bytes, u32_from_bytes, u32_of_bytes,
    u64_from_bytes, u64_of_bytes};
use crate::size::{budget_allows, budget_minus, SizeLimit};
use crate::value::{lemma_shps_of_index, lemma_vals_of_push, shp_of, shps_of, val_of, vals_of, CdrShape, CdrValue, Shp, Val};
use crate::{Endianness, RepresentationFormat};

verus! {

/// The outcome of decoding one value: the value and the bytes consumed, or
/// the error that stopped the decode.
pub enum DecOut {
    Found(Val, int),
    Fail(Error),
}

/// The outcome of decoding a list of values: the values and the bytes
/// consumed, or the error that stopped the decode.
pub enum DecListOut {
    FoundList(Seq<Val>, int),
    FailList(Error),
}

/// The outcome of the fixed-width read step: the index where the `w` body
/// bytes start (after padding), or the error. On success the step consumes
/// `pad_len(pos, w) + w` bytes.
pub enum FixOut {
    At(int),
    FixErr(Error),
}

/// The outcome of reading an aligned 4-byte unsigned value (a length prefix,
/// a sequence count, an enum discriminant): the value and the bytes
/// consumed, or the error.
pub enum U32Out {
    Got(u32, int),
    U32Err(Error),
}

/// The fixed-width read step at cursor `cur`, position `pos`: the byte
/// budget is charged for the padding, the padding bytes are skipped without
/// validation, the budget is charged for the `w`-byte body, and the body
/// must be present in full. Each charge fails with `SizeLimit` before the
/// corresponding read fails with `Io`.
pub open spec fn dec_fixed(b: Seq<u8>, cur: int, pos: int, rem: Option<int>, w: int) -> FixOut {
    let p = pad_len(pos, w);
    if !budget_allows(rem, p) {
        FixOut::FixErr(Error::SizeLimit)
    } else if cur + p > b.len() {
        FixOut::FixErr(Error::Io)
    } else if !budget_allows(budget_minus(rem, p), w) {
        FixOut::FixErr(Error::SizeLimit)
    } else if cur + p + w > b.len() {
        FixOut::FixErr(Error::Io)
    } else {
        FixOut::At(cur + p)
    }
}

/// Reading an aligned 4-byte unsigned value under the live byte order.
pub open spec fn dec_len32(
    b: Seq<u8>,
    cur: int,
    pos: int,
    rem: Option<int>,
    e: Endianness,
) -> U32Out {
    match dec_fixed(b, cur, pos, rem, 4) {
        FixOut::At(j) => U32Out::Got(
            u32_of_bytes(b[j], b[j + 1], b[j + 2], b[j + 3], e),
            pad_len(pos, 4) + 4,
        ),
        FixOut::FixErr(e0) => U32Out::U32Err(e0),
    }
}

/// Decoding one value of shape `s` from `b` at cursor `cur`, position `pos`,
/// under the remaining budget `rem` and byte order `e`. This is the exact
/// model of the `Deserializer`: every padding rule, every length and count
/// prefix, the boolean and character validity checks, the string terminator
/// and UTF-8 validation, the enum discriminant range check, and the refusals
/// of nullable values, maps and schema-less decoding.
pub open spec fn dec_value(
    b: Seq<u8>,
    cur: int,
    pos: int,
    rem: Option<int>,
    s: Shp,
    e: Endianness,
) -> DecOut
    decreases s, 0int,
{
    match s {
        Shp::SBool => {
            match dec_fixed(b, cur, pos, rem, 1) {
                FixOut::At(j) => {
                    if b[j] == 1 {
                        DecOut::Found(Val::VBool(true), 1)
                    } else if b[j] == 0 {
                        DecOut::Found(Val::VBool(false), 1)
                    } else {
                        DecOut::Fail(Error::InvalidBoolEncoding(b[j]))
                    }
                },
                FixOut::FixErr(e0) => DecOut::Fail(e0),
            }
        },
        Shp::SU8 => {
            match dec_fixed(b, cur, pos, rem, 1) {
                FixOut::At(j) => DecOut::Found(Val::VU8(b[j]), 1),
                FixOut::FixErr(e0) => DecOut::Fail(e0),
            }
        },
        Shp::SI8 => {
            match dec_fixed(b, cur, pos, rem, 1) {
                FixOut::At(j) => DecOut::Found(Val::VI8(b[j] as i8), 1),
                FixOut::FixErr(e0) => DecOut::Fail(e0),
            }
        },
        Shp::SU16 => {
            match dec_fixed(b, cur, pos, rem, 2) {
                FixOut::At(j) => DecOut::Found(
                    Val::VU16(u16_of_bytes(b[j], b[j + 1], e)),
                    pad_len(pos, 2) + 2,
                ),
                FixOut::FixErr(e0) => DecOut::Fail(e0),
            }
        },
        Shp::SI16 => {
            match dec_fixed(b, cur, pos, rem, 2) {
                FixOut::At(j) => DecOut::Found(
                    Val::VI16(u16_of_bytes(b[j], b[j + 1], e) as i16),
                    pad_len(pos, 2) + 2,
                ),
                FixOut::FixErr(e0) => DecOut::Fail(e0),
            }
        },
        Shp::SU32 => {
            match dec_len32(b, cur, pos, rem, e) {
                U32Out::Got(x, n) => DecOut::Found(Val::VU32(x), n),
                U32Out::U32Err(e0) => DecOut::Fail(e0),
            }
        },
        Shp::SI32 => {
            match dec_len32(b, cur, pos, rem, e) {
                U32Out::Got(x, n) => DecOut::Found(Val::VI32(x as i32), n),
                U32Out::U32Err(e0) => DecOut::Fail(e0),
            }
        },
        Shp::SF32 => {
            match dec_len32(b, cur, pos, rem, e) {
                U32Out::Got(x, n) => DecOut::Found(Val::VF32Bits(x), n),
                U32Out::U32Err(e0) => DecOut::Fail(e0),
            }
        },
        Shp::SU64 => {
            match dec_fixed(b, cur, pos, rem, 8) {
                FixOut::At(j) => DecOut::Found(
                    Val::VU64(
                        u64_of_bytes(
                            b[j],
                            b[j + 1],
                            b[j + 2],
                            b[j + 3],
                            b[j + 4],
                            b[j + 5],
                            b[j + 6],
                            b[j + 7],
                            e,
                        ),
                    ),
                    pad_len(pos, 8) + 8,
                ),
                FixOut::FixErr(e0) => DecOut::Fail(e0),
            }
        },
        Shp::SI64 => {
            match dec_fixed(b, cur, pos, rem, 8) {
                FixOut::At(j) => DecOut::Found(
                    Val::VI64(
                        u64_of_bytes(
                            b[j],
                            b[j + 1],
                            b[j + 2],
                            b[j + 3],
                            b[j + 4],
                            b[j + 5],
                            b[j + 6],
                            b[j + 7],
                            e,
                        ) as i64,
                    ),
                    pad_len(pos, 8) + 8,
                ),
                FixOut::FixErr(e0) => DecOut::Fail(e0),
            }
        },
        Shp::SF64 => {
            match dec_fixed(b, cur, pos, rem, 8) {
                FixOut::At(j) => DecOut::Found(
                    Val::VF64Bits(
                        u64_of_bytes(
                            b[j],
                            b[j + 1],
                            b[j + 2],
                            b[j + 3],
                            b[j + 4],
                            b[j + 5],
                            b[j + 6],
                            b[j + 7],
                            e,
                        ),
                    ),
                    pad_len(pos, 8) + 8,
                ),
                FixOut::FixErr(e0) => DecOut::Fail(e0),
            }
        },
        Shp::SChar => {
            // The byte is read before any accounting, so a missing byte is
            // an I/O error and an invalid leading byte is reported before
            // the budget is charged.
            if cur + 1 > b.len() {
                DecOut::Fail(Error::Io)
            } else if b[cur] >= 0x80 {
                DecOut::Fail(Error::InvalidCharEncoding)
            } else if !budget_allows(rem, 1) {
                DecOut::Fail(Error::SizeLimit)
            } else {
                DecOut::Found(Val::VChar(b[cur] as char), 1)
            }
        },
        Shp::SStr => {
            match dec_len32(b, cur, pos, rem, e) {
                U32Out::Got(len, n0) => {
                    let cur2 = cur + n0;
                    let rem2 = budget_minus(rem, n0);
                    if !budget_allows(rem2, len as int) {
                        DecOut::Fail(Error::SizeLimit)
                    } else if cur2 + len > b.len() {
                        DecOut::Fail(Error::Io)
                    } else {
                        let raw = b.subrange(cur2, cur2 + len);
                        let content = if len == 0 {
                            raw
                        } else {
                            raw.drop_last()
                        };
                        if valid_utf8(content) {
                            DecOut::Found(Val::VStr(decode_utf8(content)), n0 + len)
                        } else {
                            DecOut::Fail(Error::InvalidUtf8Encoding(utf8_invalid_pos(content)))
                        }
                    }
                },
                U32Out::U32Err(e0) => DecOut::Fail(e0),
            }
        },
        Shp::SByteBuf => {
            match dec_len32(b, cur, pos, rem, e) {
                U32Out::Got(len, n0) => {
                    let cur2 = cur + n0;
                    let rem2 = budget_minus(rem, n0);
                    if !budget_allows(rem2, len as int) {
                        DecOut::Fail(Error::SizeLimit)
                    } else if cur2 + len > b.len() {
                        DecOut::Fail(Error::Io)
                    } else {
                        DecOut::Found(Val::VByteBuf(b.subrange(cur2, cur2 + len)), n0 + len)
                    }
                },
                U32Out::U32Err(e0) => DecOut::Fail(e0),
            }
        },
        Shp::SSequence(elem) => {
            match dec_len32(b, cur, pos, rem, e) {
                U32Out::Got(count, n0) => {
                    match dec_elems(
                        b,
                        cur + n0,
                        pos + n0,
                        budget_minus(rem, n0),
                        *elem,
                        count as int,
                        e,
                    ) {
                        DecListOut::FoundList(vs, n1) => DecOut::Found(
                            Val::VSequence(vs),
                            n0 + n1,
                        ),
                        DecListOut::FailList(e0) => DecOut::Fail(e0),
                    }
                },
                U32Out::U32Err(e0) => DecOut::Fail(e0),
            }
        },
        Shp::SArray(count, elem) => {
            match dec_elems(b, cur, pos, rem, *elem, count as int, e) {
                DecListOut::FoundList(vs, n1) => DecOut::Found(Val::VArray(vs), n1),
                DecListOut::FailList(e0) => DecOut::Fail(e0),
            }
        },
        Shp::SStruct(ss) => {
            match dec_fields(b, cur, pos, rem, ss, 0, e) {
                DecListOut::FoundList(vs, n1) => DecOut::Found(Val::VStruct(vs), n1),
                DecListOut::FailList(e0) => DecOut::Fail(e0),
            }
        },
        Shp::SEnum(ss) => {
            match dec_len32(b, cur, pos, rem, e) {
                U32Out::Got(d, n0) => {
                    if d as int >= ss.len() {
                        DecOut::Fail(Error::UnknownVariant(d))
                    } else {
                        match dec_value(
                            b,
                            cur + n0,
                            pos + n0,
                            budget_minus(rem, n0),
                            ss[d as int],
                            e,
                        ) {
                            DecOut::Found(v, n1) => DecOut::Found(
                                Val::VEnum(d, Box::new(v)),
                                n0 + n1,
                            ),
                            DecOut::Fail(e0) => DecOut::Fail(e0),
                        }
                    }
                },
                U32Out::U32Err(e0) => DecOut::Fail(e0),
            }
        },
        Shp::SNullable => DecOut::Fail(Error::TypeNotSupported),
        Shp::SMapping => DecOut::Fail(Error::TypeNotSupported),
        Shp::SUnspecified => DecOut::Fail(Error::SchemaLessDecodingNotSupported),
    }
}

/// Decoding `k` values of the same shape, one after another.
pub open spec fn dec_elems(
    b: Seq<u8>,
    cur: int,
    pos: int,
    rem: Option<int>,
    elem: Shp,
    k: int,
    e: Endianness,
) -> DecListOut
    decreases elem, k,
{
    if k <= 0 {
        DecListOut::FoundList(Seq::empty(), 0)
    } else {
        match dec_value(b, cur, pos, rem, elem, e) {
            DecOut::Found(v, n) => {
                match dec_elems(b, cur + n, pos + n, budget_minus(rem, n), elem, k - 1, e) {
                    DecListOut::FoundList(vs, m) => DecListOut::FoundList(seq![v] + vs, n + m),
                    DecListOut::FailList(e0) => DecListOut::FailList(e0),
                }
            },
            DecOut::Fail(e0) => DecListOut::FailList(e0),
        }
    }
}

/// Decoding the fields `ss[i..]`, each of its own shape, one after another.
pub open spec fn dec_fields(
    b: Seq<u8>,
    cur: int,
    pos: int,
    rem: Option<int>,
    ss: Seq<Shp>,
    i: int,
    e: Endianness,
) -> DecListOut
    decreases ss, ss.len() - i,
{
    if i < 0 || i >= ss.len() {
        DecListOut::FoundList(Seq::empty(), 0)
    } else {
        match dec_value(b, cur, pos, rem, ss[i], e) {
            DecOut::Found(v, n) => {
                match dec_fields(b, cur + n, pos + n, budget_minus(rem, n), ss, i + 1, e) {
                    DecListOut::FoundList(vs, m) => DecListOut::FoundList(seq![v] + vs, n + m),
                    DecListOut::FailList(e0) => DecListOut::FailList(e0),
                }
            },
            DecOut::Fail(e0) => DecListOut::FailList(e0),
        }
    }
}

/// What `String::from_utf8` reports when its input is not valid UTF-8: the
/// index up to which valid UTF-8 was verified. A function of the bytes
/// alone.
pub uninterp spec fn utf8_invalid_pos(bytes: Seq<u8>) -> usize;

/// Relies on `String::from_utf8`: it succeeds exactly on valid UTF-8 input,
/// the returned string's bytes are the input bytes, and on failure it
/// reports the index up to which the input was verified as valid UTF-8.
#[verifier::external_body]
fn bytes_to_string(v: Vec<u8>) -> (r: Result<String, usize>)
    ensures
        match r {
            Ok(s) => valid_utf8(v@) && encode_utf8(s@) == v@,
            Err(p) => !valid_utf8(v@) && p == utf8_invalid_pos(v@),
        },
{
    match String::from_utf8(v) {
        Ok(s) => Ok(s),
        Err(e) => Err(e.utf8_error().valid_up_to()),
    }
}

/// The number of bytes of the UTF-8 character whose first byte is given: 1
/// for the single-byte range, 0 for bytes that can begin no character.
pub fn utf8_char_width(first_byte: u8) -> (r: usize)
    ensures
        r == 1 <==> first_byte < 0x80,
        first_byte < 0x80 ==> r == 1,
        0x80 <= first_byte < 0xC2 ==> r == 0,
        0xC2 <= first_byte < 0xE0 ==> r == 2,
        0xE0 <= first_byte < 0xF0 ==> r == 3,
        0xF0 <= first_byte < 0xF5 ==> r == 4,
        0xF5 <= first_byte ==> r == 0,
{
    if first_byte < 0x80 {
        1
    } else if first_byte < 0xC2 {
        0
    } else if first_byte < 0xE0 {
        2
    } else if first_byte < 0xF0 {
        3
    } else if first_byte < 0xF5 {
        4
    } else {
        0
    }
}

/// A deserializer that reads CDR bytes from a buffer.
pub struct Deserializer {
    /// The input bytes.
    pub input: Vec<u8>,
    /// The read cursor: how many input bytes have been consumed.
    pub cur: usize,
    /// The cursor value at the last position reset; the position counter is
    /// the cursor minus this base.
    pub base: usize,
    /// The byte order for every multi-byte value; set once from the chosen
    /// or decoded format.
    pub endianness: Endianness,
    /// The remaining byte budget, when bounded.
    pub limit: SizeLimit,
}

impl Deserializer {
    /// The base never passes the cursor, and the cursor never passes the end
    /// of the input.
    pub open spec fn wf(self) -> bool {
        self.base <= self.cur <= self.input@.len()
    }

    /// The position counter: bytes consumed since the last reset.
    pub open spec fn spos(self) -> int {
        self.cur - self.base
    }

    /// The remaining byte budget as the decoding model sees it.
    pub open spec fn srem(self) -> Option<int> {
        match self.limit {
            SizeLimit::Infinite => Option::None,
            SizeLimit::Bounded(r) => Option::Some(r as int),
        }
    }

    /// A fresh deserializer over the given bytes, reading under the given
    /// format's byte order, with an optional byte budget.
    pub fn new(
        input: Vec<u8>,
        representation_format: &RepresentationFormat,
        size_limit: SizeLimit,
    ) -> (r: Deserializer)
        ensures
            r.wf(),
            r.input == input,
            r.cur == 0,
            r.base == 0,
            r.endianness == representation_format.spec_endianness(),
            r.limit == size_limit,
    {
        Deserializer {
            input,
            cur: 0,
            base: 0,
            endianness: representation_format.endianness(),
            limit: size_limit,
        }
    }

    /// Switches the live endianness to the given format's, as the top-level
    /// API does after decoding the header.
    pub fn set_representation_format(&mut self, representation_format: &RepresentationFormat)
        ensures
            final(self).input == old(self).input,
            final(self).cur == old(self).cur,
            final(self).base == old(self).base,
            final(self).limit == old(self).limit,
            final(self).endianness == representation_format.spec_endianness(),
    {
        self.endianness = representation_format.endianness();
    }

    /// Resets the position counter to zero, as the top-level API does after
    /// decoding the header.
    pub fn reset_pos(&mut self)
        ensures
            final(self).input == old(self).input,
            final(self).cur == old(self).cur,
            final(self).base == final(self).cur,
            final(self).limit == old(self).limit,
            final(self).endianness == old(self).endianness,
            old(self).wf() ==> final(self).wf(),
    {
        self.base = self.cur;
    }

    /// Charges `size` bytes against the budget, failing when it does not
    /// allow them; an unbounded deserializer always allows.
    pub fn read_size(&mut self, size: usize) -> (r: Result<(), Error>)
        ensures
            final(self).input == old(self).input,
            final(self).cur == old(self).cur,
            final(self).base == old(self).base,
            final(self).endianness == old(self).endianness,
            budget_allows(old(self).srem(), size as int) ==> {
                &&& r == Result::<(), Error>::Ok(())
                &&& final(self).srem() == budget_minus(old(self).srem(), size as int)
            },
            !budget_allows(old(self).srem(), size as int) ==> {
                &&& r == Result::<(), Error>::Err(Error::SizeLimit)
                &&& final(self).limit == old(self).limit
            },
    {
        match self.limit {
            SizeLimit::Infinite => Ok(()),
            SizeLimit::Bounded(r) => {
                if size > r {
                    Err(Error::SizeLimit)
                } else {
                    self.limit = SizeLimit::Bounded(r - size);
                    Ok(())
                }
            },
        }
    }

    /// Charges the budget for one value of the given width.
    pub fn read_size_of(&mut self, width: usize) -> (r: Result<(), Error>)
        ensures
            final(self).input == old(self).input,
            final(self).cur == old(self).cur,
            final(self).base == old(self).base,
            final(self).endianness == old(self).endianness,
            budget_allows(old(self).srem(), width as int) ==> {
                &&& r == Result::<(), Error>::Ok(())
                &&& final(self).srem() == budget_minus(old(self).srem(), width as int)
            },
            !budget_allows(old(self).srem(), width as int) ==> {
                &&& r == Result::<(), Error>::Err(Error::SizeLimit)
                &&& final(self).limit == old(self).limit
            },
    {
        self.read_size(width)
    }

    /// Consumes the padding that aligns the position to a multiple of
    /// `width`: the budget is charged for the padding bytes, then they are
    /// skipped without validation.
    pub fn read_padding_of(&mut self, width: usize) -> (r: Result<(), Error>)
        requires
            old(self).wf(),
            width == 1 || width == 2 || width == 4 || width == 8,
        ensures
            final(self).wf(),
            final(self).input == old(self).input,
            final(self).base == old(self).base,
            final(self).endianness == old(self).endianness,
            final(self).cur >= old(self).cur,
            ({
                let p = pad_len(old(self).spos(), width as int);
                &&& !budget_allows(old(self).srem(), p) ==> r == Result::<(), Error>::Err(
                    Error::SizeLimit,
                )
                &&& budget_allows(old(self).srem(), p) && old(self).cur + p > old(
                    self,
                ).input@.len() ==> r == Result::<(), Error>::Err(Error::Io)
                &&& budget_allows(old(self).srem(), p) && old(self).cur + p <= old(
                    self,
                ).input@.len() ==> {
                    &&& r == Result::<(), Error>::Ok(())
                    &&& final(self).cur == old(self).cur + p
                    &&& final(self).srem() == budget_minus(old(self).srem(), p)
                }
            }),
    {
        let pos = self.cur - self.base;
        let m = pos % width;
        proof {
            vstd::arithmetic::div_mod::lemma_mod_self_0(width as int);
            if m != 0 {
                vstd::arithmetic::div_mod::lemma_small_mod((width - m) as nat, width as nat);
            }
        }
        if m == 0 {
            Ok(())
        } else {
            let amt = width - m;
            self.read_size(amt)?;
            if amt > self.input.len() - self.cur {
                return Err(Error::Io);
            }
            self.cur = self.cur + amt;
            Ok(())
        }
    }

    /// The fixed-width read step: padding, then budget and availability of
    /// the `w`-byte body. Returns the index where the body starts; the body
    /// bytes are consumed.
    fn read_fixed(&mut self, w: usize) -> (r: Result<usize, Error>)
        requires
            old(self).wf(),
            w == 1 || w == 2 || w == 4 || w == 8,
        ensures
            final(self).wf(),
            final(self).input == old(self).input,
            final(self).base == old(self).base,
            final(self).endianness == old(self).endianness,
            final(self).cur >= old(self).cur,
            match dec_fixed(
                old(self).input@,
                old(self).cur as int,
                old(self).spos(),
                old(self).srem(),
                w as int,
            ) {
                FixOut::At(j) => {
                    &&& r == Result::<usize, Error>::Ok(j as usize)
                    &&& j + w <= old(self).input@.len()
                    &&& final(self).cur == j + w
                    &&& final(self).srem() == budget_minus(
                        old(self).srem(),
                        pad_len(old(self).spos(), w as int) + w,
                    )
                },
                FixOut::FixErr(e0) => r == Result::<usize, Error>::Err(e0),
            },
    {
        self.read_padding_of(w)?;
        let j = self.cur;
        self.read_size_of(w)?;
        if w > self.input.len() - self.cur {
            return Err(Error::Io);
        }
        self.cur = self.cur + w;
        Ok(j)
    }

    /// Decodes a boolean: one byte, which must be exactly 0 or 1.
    pub fn deserialize_bool(&mut self) -> (r: Result<bool, Error>)
        requires
            old(self).wf(),
        ensures
            final(self).wf(),
            final(self).input == old(self).input,
            final(self).base == old(self).base,
            final(self).endianness == old(self).endianness,
            final(self).cur >= old(self).cur,
            match dec_value(
                old(self).input@,
                old(self).cur as int,
                old(self).spos(),
                old(self).srem(),
                Shp::SBool,
                old(self).endianness,
            ) {
                DecOut::Found(v, n) => {
                    &&& r matches Ok(x) && v == Val::VBool(x)
                    &&& final(self).cur == old(self).cur + n
                    &&& final(self).srem() == budget_minus(old(self).srem(), n)
                },
                DecOut::Fail(e0) => r == Result::<bool, Error>::Err(e0),
            },
    {
        let j = self.read_fixed(1)?;
        let x = self.input[j];
        if x == 1 {
            Ok(true)
        } else if x == 0 {
            Ok(false)
        } else {
            Err(Error::InvalidBoolEncoding(x))
        }
    }

    /// Decodes an unsigned byte; never padded.
    pub fn deserialize_u8(&mut self) -> (r: Result<u8, Error>)
        requires
            old(self).wf(),
        ensures
            final(self).wf(),
            final(self).input == old(self).input,
            final(self).base == old(self).base,
            final(self).endianness == old(self).endianness,
            final(self).cur >= old(self).cur,
            match dec_value(
                old(self).input@,
                old(self).cur as int,
                old(self).spos(),
                old(self).srem(),
                Shp::SU8,
                old(self).endianness,
            ) {
                DecOut::Found(v, n) => {
                    &&& r matches Ok(x) && v == Val::VU8(x)
                    &&& final(self).cur == old(self).cur + n
                    &&& final(self).srem() == budget_minus(old(self).srem(), n)
                },
                DecOut::Fail(e0) => r == Result::<u8, Error>::Err(e0),
            },
    {
        let j = self.read_fixed(1)?;
        Ok(self.input[j])
    }

    /// Decodes a signed byte; never padded.
    pub fn deserialize_i8(&mut self) -> (r: Result<i8, Error>)
        requires
            old(self).wf(),
        ensures
            final(self).wf(),
            final(self).input == old(self).input,
            final(self).base == old(self).base,
            final(self).endianness == old(self).endianness,
            final(self).cur >= old(self).cur,
            match dec_value(
                old(self).input@,
                old(self).cur as int,
                old(self).spos(),
                old(self).srem(),
                Shp::SI8,
                old(self).endianness,
            ) {
                DecOut::Found(v, n) => {
                    &&& r matches Ok(x) && v == Val::VI8(x)
                    &&& final(self).cur == old(self).cur + n
                    &&& final(self).srem() == budget_minus(old(self).srem(), n)
                },
                DecOut::Fail(e0) => r == Result::<i8, Error>::Err(e0),
            },
    {
        let j = self.read_fixed(1)?;
        Ok(#[verifier::truncate] (self.input[j] as i8))
    }

    /// Decodes a 16-bit unsigned value: two-byte alignment, then two bytes
    /// in the live byte order.
    pub fn deserialize_u16(&mut self) -> (r: Result<u16, Error>)
        requires
            old(self).wf(),
        ensures
            final(self).wf(),
            final(self).input == old(self).input,
            final(self).base == old(self).base,
            final(self).endianness == old(self).endianness,
            final(self).cur >= old(self).cur,
            match dec_value(
                old(self).input@,
                old(self).cur as int,
                old(self).spos(),
                old(self).srem(),
                Shp::SU16,
                old(self).endianness,
            ) {
                DecOut::Found(v, n) => {
                    &&& r matches Ok(x) && v == Val::VU16(x)
                    &&& final(self).cur == old(self).cur + n
                    &&& final(self).srem() == budget_minus(old(self).srem(), n)
                },
                DecOut::Fail(e0) => r == Result::<u16, Error>::Err(e0),
            },
    {
        let j = self.read_fixed(2)?;
        let e = self.endianness;
        Ok(u16_from_bytes(self.input[j], self.input[j + 1], e))
    }

    /// Decodes a 16-bit signed value.
    pub fn deserialize_i16(&mut self) -> (r: Result<i16, Error>)
        requires
            old(self).wf(),
        ensures
            final(self).wf(),
            final(self).input == old(self).input,
            final(self).base == old(self).base,
            final(self).endianness == old(self).endianness,
            final(self).cur >= old(self).cur,
            match dec_value(
                old(self).input@,
                old(self).cur as int,
                old(self).spos(),
                old(self).srem(),
                Shp::SI16,
                old(self).endianness,
            ) {
                DecOut::Found(v, n) => {
                    &&& r matches Ok(x) && v == Val::VI16(x)
                    &&& final(self).cur == old(self).cur + n
                    &&& final(self).srem() == budget_minus(old(self).srem(), n)
                },
                DecOut::Fail(e0) => r == Result::<i16, Error>::Err(e0),
            },
    {
        let x = self.deserialize_u16()?;
        Ok(#[verifier::truncate] (x as i16))
    }

    /// Decodes a 32-bit unsigned value: four-byte alignment, then four bytes
    /// in the live byte order.
    pub fn deserialize_u32(&mut self) -> (r: Result<u32, Error>)
        requires
            old(self).wf(),
        ensures
            final(self).wf(),
            final(self).input == old(self).input,
            final(self).base == old(self).base,
            final(self).endianness == old(self).endianness,
            final(self).cur >= old(self).cur,
            match dec_len32(
                old(self).input@,
                old(self).cur as int,
                old(self).spos(),
                old(self).srem(),
                old(self).endianness,
            ) {
                U32Out::Got(x, n) => {
                    &&& r == Result::<u32, Error>::Ok(x)
                    &&& final(self).cur == old(self).cur + n
                    &&& final(self).srem() == budget_minus(old(self).srem(), n)
                },
                U32Out::U32Err(e0) => r == Result::<u32, Error>::Err(e0),
            },
    {
        let j = self.read_fixed(4)?;
        let e = self.endianness;
        Ok(u32_from_bytes(self.input[j], self.input[j + 1], self.input[j + 2], self.input[j + 3], e))
    }

    /// Decodes a 32-bit signed value.
    pub fn deserialize_i32(&mut self) -> (r: Result<i32, Error>)
        requires
            old(self).wf(),
        ensures
            final(self).wf(),
            final(self).input == old(self).input,
            final(self).base == old(self).base,
            final(self).endianness == old(self).endianness,
            final(self).cur >= old(self).cur,
            match dec_value(
                old(self).input@,
                old(self).cur as int,
                old(self).spos(),
                old(self).srem(),
                Shp::SI32,
                old(self).endianness,
            ) {
                DecOut::Found(v, n) => {
                    &&& r matches Ok(x) && v == Val::VI32(x)
                    &&& final(self).cur == old(self).cur + n
                    &&& final(self).srem() == budget_minus(old(self).srem(), n)
                },
                DecOut::Fail(e0) => r == Result::<i32, Error>::Err(e0),
            },
    {
        let x = self.deserialize_u32()?;
        Ok(#[verifier::truncate] (x as i32))
    }

    /// Decodes the bit pattern of a 32-bit IEEE 754 value; the bytes travel
    /// exactly as a 32-bit unsigned value does.
    pub fn deserialize_f32_bits(&mut self) -> (r: Result<u32, Error>)
        requires
            old(self).wf(),
        ensures
            final(self).wf(),
            final(self).input == old(self).input,
            final(self).base == old(self).base,
            final(self).endianness == old(self).endianness,
            final(self).cur >= old(self).cur,
            match dec_value(
                old(self).input@,
                old(self).cur as int,
                old(self).spos(),
                old(self).srem(),
                Shp::SF32,
                old(self).endianness,
            ) {
                DecOut::Found(v, n) => {
                    &&& r matches Ok(x) && v == Val::VF32Bits(x)
                    &&& final(self).cur == old(self).cur + n
                    &&& final(self).srem() == budget_minus(old(self).srem(), n)
                },
                DecOut::Fail(e0) => r == Result::<u32, Error>::Err(e0),
            },
    {
        self.deserialize_u32()
    }

    /// Decodes a 64-bit unsigned value: eight-byte alignment, then eight
    /// bytes in the live byte order.
    pub fn deserialize_u64(&mut self) -> (r: Result<u64, Error>)
        requires
            old(self).wf(),
        ensures
            final(self).wf(),
            final(self).input == old(self).input,
            final(self).base == old(self).base,
            final(self).endianness == old(self).endianness,
            final(self).cur >= old(self).cur,
            match dec_value(
                old(self).input@,
                old(self).cur as int,
                old(self).spos(),
                old(self).srem(),
                Shp::SU64,
                old(self).endianness,
            ) {
                DecOut::Found(v, n) => {
                    &&& r matches Ok(x) && v == Val::VU64(x)
                    &&& final(self).cur == old(self).cur + n
                    &&& final(self).srem() == budget_minus(old(self).srem(), n)
                },
                DecOut::Fail(e0) => r == Result::<u64, Error>::Err(e0),
            },
    {
        let j = self.read_fixed(8)?;
        let e = self.endianness;
        Ok(
            u64_from_bytes(
                self.input[j],
                self.input[j + 1],
                self.input[j + 2],
                self.input[j + 3],
                self.input[j + 4],
                self.input[j + 5],
                self.input[j + 6],
                self.input[j + 7],
                e,
            ),
        )
    }

    /// Decodes a 64-bit signed value.
    pub fn deserialize_i64(&mut self) -> (r: Result<i64, Error>)
        requires
            old(self).wf(),
        ensures
            final(self).wf(),
            final(self).input == old(self).input,
            final(self).base == old(self).base,
            final(self).endianness == old(self).endianness,
            final(self).cur >= old(self).cur,
            match dec_value(
                old(self).input@,
                old(self).cur as int,
                old(self).spos(),
                old(self).srem(),
                Shp::SI64,
                old(self).endianness,
            ) {
                DecOut::Found(v, n) => {
                    &&& r matches Ok(x) && v == Val::VI64(x)
                    &&& final(self).cur == old(self).cur + n
                    &&& final(self).srem() == budget_minus(old(self).srem(), n)
                },
                DecOut::Fail(e0) => r == Result::<i64, Error>::Err(e0),
            },
    {
        let x = self.deserialize_u64()?;
        Ok(#[verifier::truncate] (x as i64))
    }

    /// Decodes the bit pattern of a 64-bit IEEE 754 value; the bytes travel
    /// exactly as a 64-bit unsigned value does.
    pub fn deserialize_f64_bits(&mut self) -> (r: Result<u64, Error>)
        requires
            old(self).wf(),
        ensures
            final(self).wf(),
            final(self).input == old(self).input,
            final(self).base == old(self).base,
            final(self).endianness == old(self).endianness,
            final(self).cur >= old(self).cur,
            match dec_value(
                old(self).input@,
                old(self).cur as int,
                old(self).spos(),
                old(self).srem(),
                Shp::SF64,
                old(self).endianness,
            ) {
                DecOut::Found(v, n) => {
                    &&& r matches Ok(x) && v == Val::VF64Bits(x)
                    &&& final(self).cur == old(self).cur + n
                    &&& final(self).srem() == budget_minus(old(self).srem(), n)
                },
                DecOut::Fail(e0) => r == Result::<u64, Error>::Err(e0),
            },
    {
        self.deserialize_u64()
    }

    /// Decodes a character: one byte, whose leading bits must not announce a
    /// multi-byte UTF-8 sequence.
    pub fn deserialize_char(&mut self) -> (r: Result<char, Error>)
        requires
            old(self).wf(),
        ensures
            final(self).wf(),
            final(self).input == old(self).input,
            final(self).base == old(self).base,
            final(self).endianness == old(self).endianness,
            final(self).cur >= old(self).cur,
            match dec_value(
                old(self).input@,
                old(self).cur as int,
                old(self).spos(),
                old(self).srem(),
                Shp::SChar,
                old(self).endianness,
            ) {
                DecOut::Found(v, n) => {
                    &&& r matches Ok(c) && v == Val::VChar(c)
                    &&& final(self).cur == old(self).cur + n
                    &&& final(self).srem() == budget_minus(old(self).srem(), n)
                },
                DecOut::Fail(e0) => r == Result::<char, Error>::Err(e0),
            },
    {
        if 1 > self.input.len() - self.cur {
            return Err(Error::Io);
        }
        let x = self.input[self.cur];
        let width = utf8_char_width(x);
        if width != 1 {
            return Err(Error::InvalidCharEncoding);
        }
        self.read_size(width)?;
        self.cur = self.cur + 1;
        Ok(x as char)
    }

    /// Decodes a count-prefixed byte buffer: an aligned 4-byte length, then
    /// that many raw bytes verbatim.
    pub fn read_vec(&mut self) -> (r: Result<Vec<u8>, Error>)
        requires
            old(self).wf(),
        ensures
            final(self).wf(),
            final(self).input == old(self).input,
            final(self).base == old(self).base,
            final(self).endianness == old(self).endianness,
            final(self).cur >= old(self).cur,
            match dec_value(
                old(self).input@,
                old(self).cur as int,
                old(self).spos(),
                old(self).srem(),
                Shp::SByteBuf,
                old(self).endianness,
            ) {
                DecOut::Found(v, n) => {
                    &&& r matches Ok(bytes) && v == Val::VByteBuf(bytes@)
                    &&& final(self).cur == old(self).cur + n
                    &&& final(self).srem() == budget_minus(old(self).srem(), n)
                },
                DecOut::Fail(e0) => r matches Err(e2) && e2 == e0,
            },
    {
        let len32 = self.deserialize_u32()?;
        let len = len32 as usize;
        self.read_size(len)?;
        if len > self.input.len() - self.cur {
            return Err(Error::Io);
        }
        let mut out: Vec<u8> = Vec::new();
        let start = self.cur;
        let mut i: usize = 0;
        while i < len
            invariant
                i <= len,
                start + len <= self.input@.len(),
                self.input@.len() <= usize::MAX,
                out@ == self.input@.subrange(start as int, start + i),
            decreases len - i,
        {
            out.push(self.input[start + i]);
            assert(out@ =~= self.input@.subrange(start as int, start + i + 1));
            i = i + 1;
        }
        self.cur = self.cur + len;
        Ok(out)
    }

    /// Decodes a string: a count-prefixed buffer whose final byte is the
    /// terminator (dropped without re-validation), the rest validated as
    /// UTF-8.
    pub fn read_string(&mut self) -> (r: Result<String, Error>)
        requires
            old(self).wf(),
        ensures
            final(self).wf(),
            final(self).input == old(self).input,
            final(self).base == old(self).base,
            final(self).endianness == old(self).endianness,
            final(self).cur >= old(self).cur,
            match dec_value(
                old(self).input@,
                old(self).cur as int,
                old(self).spos(),
                old(self).srem(),
                Shp::SStr,
                old(self).endianness,
            ) {
                DecOut::Found(v, n) => {
                    &&& r matches Ok(s) && v == Val::VStr(s@)
                    &&& final(self).cur == old(self).cur + n
                    &&& final(self).srem() == budget_minus(old(self).srem(), n)
                },
                DecOut::Fail(e0) => r matches Err(e2) && e2 == e0,
            },
    {
        let mut v = self.read_vec()?;
        let _terminator = v.pop();
        proof {
            assert(dec_value(
                old(self).input@,
                old(self).cur as int,
                old(self).spos(),
                old(self).srem(),
                Shp::SByteBuf,
                old(self).endianness,
            ) matches DecOut::Found(b0, _n) && b0 matches Val::VByteBuf(raw) ==> v@ == (if raw.len()
                == 0 {
                raw
            } else {
                raw.drop_last()
            }));
        }
        match bytes_to_string(v) {
            Ok(s) => {
                proof {
                    vstd::utf8::encode_utf8_decode_utf8(s@);
                }
                Ok(s)
            },
            Err(p) => Err(Error::InvalidUtf8Encoding(p)),
        }
    }

    /// Decodes one value of the given shape: the traversal driver, walking
    /// composites in declaration order and dispatching primitives to their
    /// codecs.
    #[verifier::rlimit(80)]
    pub fn read_value(&mut self, shape: &CdrShape) -> (r: Result<CdrValue, Error>)
        requires
            old(self).wf(),
        ensures
            final(self).wf(),
            final(self).input == old(self).input,
            final(self).base == old(self).base,
            final(self).endianness == old(self).endianness,
            final(self).cur >= old(self).cur,
            match dec_value(
                old(self).input@,
                old(self).cur as int,
                old(self).spos(),
                old(self).srem(),
                shp_of(*shape),
                old(self).endianness,
            ) {
                DecOut::Found(v, n) => {
                    &&& r matches Ok(cv) && val_of(cv) == v
                    &&& final(self).cur == old(self).cur + n
                    &&& final(self).srem() == budget_minus(old(self).srem(), n)
                },
                DecOut::Fail(e0) => r matches Err(e2) && e2 == e0,
            },
        decreases shape, 0int,
    {
        match shape {
            CdrShape::Bool => {
                match self.deserialize_bool() {
                    Ok(x) => Ok(CdrValue::Bool(x)),
                    Err(e) => Err(e),
                }
            },
            CdrShape::U8 => {
                match self.deserialize_u8() {
                    Ok(x) => Ok(CdrValue::U8(x)),
                    Err(e) => Err(e),
                }
            },
            CdrShape::I8 => {
                match self.deserialize_i8() {
                    Ok(x) => Ok(CdrValue::I8(x)),
                    Err(e) => Err(e),
                }
            },
            CdrShape::U16 => {
                match self.deserialize_u16() {
                    Ok(x) => Ok(CdrValue::U16(x)),
                    Err(e) => Err(e),
                }
            },
            CdrShape::I16 => {
                match self.deserialize_i16() {
                    Ok(x) => Ok(CdrValue::I16(x)),
                    Err(e) => Err(e),
                }
            },
            CdrShape::U32 => {
                match self.deserialize_u32() {
                    Ok(x) => Ok(CdrValue::U32(x)),
                    Err(e) => Err(e),
                }
            },
            CdrShape::I32 => {
                match self.deserialize_i32() {
                    Ok(x) => Ok(CdrValue::I32(x)),
                    Err(e) => Err(e),
                }
            },
            CdrShape::U64 => {
                match self.deserialize_u64() {
                    Ok(x) => Ok(CdrValue::U64(x)),
                    Err(e) => Err(e),
                }
            },
            CdrShape::I64 => {
                match self.deserialize_i64() {
                    Ok(x) => Ok(CdrValue::I64(x)),
                    Err(e) => Err(e),
                }
            },
            CdrShape::F32 => {
                match self.deserialize_f32_bits() {
                    Ok(x) => Ok(CdrValue::F32Bits(x)),
                    Err(e) => Err(e),
                }
            },
            CdrShape::F64 => {
                match self.deserialize_f64_bits() {
                    Ok(x) => Ok(CdrValue::F64Bits(x)),
                    Err(e) => Err(e),
                }
            },
            CdrShape::Char => {
                match self.deserialize_char() {
                    Ok(c) => Ok(CdrValue::Char(c)),
                    Err(e) => Err(e),
                }
            },
            CdrShape::Str => {
                match self.read_string() {
                    Ok(s) => Ok(CdrValue::Str(s)),
                    Err(e) => Err(e),
                }
            },
            CdrShape::ByteBuf => {
                match self.read_vec() {
                    Ok(b) => Ok(CdrValue::ByteBuf(b)),
                    Err(e) => Err(e),
                }
            },
            CdrShape::Sequence(elem) => {
                let count = self.deserialize_u32()?;
                match self.read_elems(elem, count as usize) {
                    Ok(vs) => Ok(CdrValue::Sequence(vs)),
                    Err(e) => Err(e),
                }
            },
            CdrShape::Array(n, elem) => {
                match self.read_elems(elem, *n) {
                    Ok(vs) => Ok(CdrValue::Array(vs)),
                    Err(e) => Err(e),
                }
            },
            CdrShape::Struct(ss) => {
                match self.read_fields(ss) {
                    Ok(vs) => Ok(CdrValue::Struct(vs)),
                    Err(e) => Err(e),
                }
            },
            CdrShape::Enum(ss) => {
                proof {
                    lemma_shps_of_index(ss@);
                }
                let d = self.deserialize_u32()?;
                if d as usize >= ss.len() {
                    return Err(Error::UnknownVariant(d));
                }
                match self.read_value(&ss[d as usize]) {
                    Ok(v) => Ok(CdrValue::Enum(d, Box::new(v))),
                    Err(e) => Err(e),
                }
            },
            CdrShape::Nullable => Err(Error::TypeNotSupported),
            CdrShape::Mapping => Err(Error::TypeNotSupported),
            CdrShape::Unspecified => Err(Error::SchemaLessDecodingNotSupported),
        }
    }

    /// Decodes `k` values of the same shape, in order.
    fn read_elems(&mut self, elem: &CdrShape, k: usize) -> (r: Result<Vec<CdrValue>, Error>)
        requires
            old(self).wf(),
        ensures
            final(self).wf(),
            final(self).input == old(self).input,
            final(self).base == old(self).base,
            final(self).endianness == old(self).endianness,
            final(self).cur >= old(self).cur,
            match dec_elems(
                old(self).input@,
                old(self).cur as int,
                old(self).spos(),
                old(self).srem(),
                shp_of(*elem),
                k as int,
                old(self).endianness,
            ) {
                DecListOut::FoundList(vs, n) => {
                    &&& r matches Ok(out) && vals_of(out@) == vs
                    &&& final(self).cur == old(self).cur + n
                    &&& final(self).srem() == budget_minus(old(self).srem(), n)
                },
                DecListOut::FailList(e0) => r matches Err(e2) && e2 == e0,
            },
        decreases elem, k,
    {
        let ghost b0 = self.input@;
        let ghost cur0 = self.cur as int;
        let ghost rem0 = self.srem();
        let ghost e0 = self.endianness;
        let ghost s_elem = shp_of(*elem);
        let mut out: Vec<CdrValue> = Vec::new();
        let mut i: usize = 0;
        while i < k
            invariant
                self.wf(),
                i <= k,
                out@.len() == i,
                self.input == old(self).input,
                b0 == old(self).input@,
                self.base == old(self).base,
                self.endianness == e0,
                e0 == old(self).endianness,
                s_elem == shp_of(*elem),
                cur0 == old(self).cur as int,
                rem0 == old(self).srem(),
                cur0 <= self.cur,
                self.srem() == budget_minus(rem0, self.cur - cur0),
                self.spos() == old(self).spos() + (self.cur - cur0),
                match dec_elems(b0, self.cur as int, self.spos(), self.srem(), s_elem, k - i, e0) {
                    DecListOut::FoundList(vs, n) => dec_elems(
                        b0,
                        cur0,
                        old(self).spos(),
                        rem0,
                        s_elem,
                        k as int,
                        e0,
                    ) == DecListOut::FoundList(vals_of(out@) + vs, (self.cur - cur0) + n),
                    DecListOut::FailList(e1) => dec_elems(
                        b0,
                        cur0,
                        old(self).spos(),
                        rem0,
                        s_elem,
                        k as int,
                        e0,
                    ) == DecListOut::FailList(e1),
                },
            decreases k - i,
        {
            let ghost cur_i = self.cur as int;
            let ghost out_snap = out@;
            let v = match self.read_value(elem) {
                Ok(v) => v,
                Err(e) => {
                    return Err(e);
                },
            };
            out.push(v);
            proof {
                lemma_vals_of_push(out_snap, v);
                assert(vals_of(out_snap) + seq![val_of(v)] =~= vals_of(out@));
                assert forall|tail_vs: Seq<Val>| #[trigger] (vals_of(out_snap) + (seq![
                    val_of(v),
                ] + tail_vs)) == vals_of(out@) + tail_vs by {
                    assert(vals_of(out_snap) + (seq![val_of(v)] + tail_vs) =~= vals_of(out@)
                        + tail_vs);
                }
            }
            i = i + 1;
        }
        proof {
            assert(vals_of(out@) + Seq::<Val>::empty() =~= vals_of(out@));
        }
        Ok(out)
    }

    /// Decodes one value per field shape, in order.
    fn read_fields(&mut self, ss: &Vec<CdrShape>) -> (r: Result<Vec<CdrValue>, Error>)
        requires
            old(self).wf(),
        ensures
            final(self).wf(),
            final(self).input == old(self).input,
            final(self).base == old(self).base,
            final(self).endianness == old(self).endianness,
            final(self).cur >= old(self).cur,
            match dec_fields(
                old(self).input@,
                old(self).cur as int,
                old(self).spos(),
                old(self).srem(),
                shps_of(ss@),
                0,
                old(self).endianness,
            ) {
                DecListOut::FoundList(vs, n) => {
                    &&& r matches Ok(out) && vals_of(out@) == vs
                    &&& final(self).cur == old(self).cur + n
                    &&& final(self).srem() == budget_minus(old(self).srem(), n)
                },
                DecListOut::FailList(e0) => r matches Err(e2) && e2 == e0,
            },
        decreases ss, 0int,
    {
        let ghost b0 = self.input@;
        let ghost cur0 = self.cur as int;
        let ghost rem0 = self.srem();
        let ghost e0 = self.endianness;
        let ghost models = shps_of(ss@);
        proof {
            lemma_shps_of_index(ss@);
        }
        let mut out: Vec<CdrValue> = Vec::new();
        let mut i: usize = 0;
        while i < ss.len()
            invariant
                self.wf(),
                i <= ss.len(),
                out@.len() == i,
                self.input == old(self).input,
                b0 == old(self).input@,
                self.base == old(self).base,
                self.endianness == e0,
                e0 == old(self).endianness,
                models == shps_of(ss@),
                models.len() == ss@.len(),
                cur0 == old(self).cur as int,
                rem0 == old(self).srem(),
                cur0 <= self.cur,
                self.srem() == budget_minus(rem0, self.cur - cur0),
                self.spos() == old(self).spos() + (self.cur - cur0),
                match dec_fields(
                    b0,
                    self.cur as int,
                    self.spos(),
                    self.srem(),
                    models,
                    i as int,
                    e0,
                ) {
                    DecListOut::FoundList(vs, n) => dec_fields(
                        b0,
                        cur0,
                        old(self).spos(),
                        rem0,
                        models,
                        0,
                        e0,
                    ) == DecListOut::FoundList(vals_of(out@) + vs, (self.cur - cur0) + n),
                    DecListOut::FailList(e1) => dec_fields(
                        b0,
                        cur0,
                        old(self).spos(),
                        rem0,
                        models,
                        0,
                        e0,
                    ) == DecListOut::FailList(e1),
                },
            decreases ss@.len() - i,
        {
            proof {
                lemma_shps_of_index(ss@);
            }
            let ghost out_snap = out@;
            let v = match self.read_value(&ss[i]) {
                Ok(v) => v,
                Err(e) => {
                    return Err(e);
                },
            };
            out.push(v);
            proof {
                lemma_vals_of_push(out_snap, v);
                assert(vals_of(out_snap) + seq![val_of(v)] =~= vals_of(out@));
                assert forall|tail_vs: Seq<Val>| #[trigger] (vals_of(out_snap) + (seq![
                    val_of(v),
                ] + tail_vs)) == vals_of(out@) + tail_vs by {
                    assert(vals_of(out_snap) + (seq![val_of(v)] + tail_vs) =~= vals_of(out@)
                        + tail_vs);
                }
            }
            i = i + 1;
        }
        proof {
            assert(vals_of(out@) + Seq::<Val>::empty() =~= vals_of(out@));
        }
        Ok(out)
    }
}

} // verus!
