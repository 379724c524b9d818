//! The size precomputation pass: a dry run of encoding that computes the
//! exact byte length a value would occupy — every padding byte included —
//! without producing output, and enforces an optional upper bound while
//! doing so. Endianness never affects sizes, so this pass is
//! endianness-agnostic.

use vstd::prelude::*;

use vstd::utf8::encode_utf8;

use crate::error::Error;
use crate::prim::pad_len;
use crate::value::{lemma_vals_of_index, lemma_wf_vals_index, val_of, vals_of, wf_val, wf_vals, CdrValue, Val};

verus! {

/// An optional bound on the total encoded size: either unbounded, or a
/// maximum byte count that every size-consuming operation is checked
/// against, failing fast before any byte is written.
#[derive(Clone, Copy, PartialEq, Eq, Structural, Debug)]
pub enum SizeLimit {
    Infinite,
    Bounded(usize),
}

/// The outcome of the size pass over one value: the number of bytes its
/// encoding occupies, or the error that encoding it would raise.
pub enum SzOut {
    Fits(int),
    SzErr(Error),
}

/// Whether a consumption of `n` bytes fits the remaining budget.
pub open spec fn budget_allows(rem: Option<int>, n: int) -> bool {
    match rem {
        Option::None => true,
        Option::Some(r) => n <= r,
    }
}

/// The budget left after consuming `n` bytes.
pub open spec fn budget_minus(rem: Option<int>, n: int) -> Option<int> {
    match rem {
        Option::None => Option::None,
        Option::Some(r) => Option::Some(r - n),
    }
}

/// The byte length of one value's encoding when written at position `pos`,
/// padding included. Positions count from the last reset of the position
/// counter; sequence counts, string terminators and length prefixes are all
/// accounted exactly as encoding writes them.
pub open spec fn len_value(v: Val, pos: int) -> int
    decreases v, 0int,
{
    match v {
        Val::VBool(_) => 1,
        Val::VU8(_) => 1,
        Val::VI8(_) => 1,
        Val::VChar(_) => 1,
        Val::VU16(_) => pad_len(pos, 2) + 2,
        Val::VI16(_) => pad_len(pos, 2) + 2,
        Val::VU32(_) => pad_len(pos, 4) + 4,
        Val::VI32(_) => pad_len(pos, 4) + 4,
        Val::VF32Bits(_) => pad_len(pos, 4) + 4,
        Val::VU64(_) => pad_len(pos, 8) + 8,
        Val::VI64(_) => pad_len(pos, 8) + 8,
        Val::VF64Bits(_) => pad_len(pos, 8) + 8,
        Val::VStr(chars) => pad_len(pos, 4) + 4 + encode_utf8(chars).len() + 1,
        Val::VByteBuf(bs) => pad_len(pos, 4) + 4 + bs.len(),
        Val::VSequence(vs) => {
            let c0 = pad_len(pos, 4) + 4;
            c0 + len_vals_from(vs, 0, pos + c0)
        },
        Val::VArray(vs) => len_vals_from(vs, 0, pos),
        Val::VStruct(vs) => len_vals_from(vs, 0, pos),
        Val::VEnum(_d, p) => {
            let c0 = pad_len(pos, 4) + 4;
            c0 + len_value(*p, pos + c0)
        },
        Val::VNullable => 0,
        Val::VMapping => 0,
    }
}

/// The combined byte length of the encodings of `vs[i..]`, written one after
/// another starting at position `pos`.
pub open spec fn len_vals_from(vs: Seq<Val>, i: int, pos: int) -> int
    decreases vs, vs.len() - i,
{
    if i < 0 || i >= vs.len() {
        0
    } else {
        let n = len_value(vs[i], pos);
        n + len_vals_from(vs, i + 1, pos + n)
    }
}

/// The size pass over one value at position `pos` under the given remaining
/// budget. It fails with `SizeLimit` as soon as the running total would pass
/// the budget, or when a string, buffer or sequence is too long for its
/// 4-byte length prefix; it fails with `TypeNotSupported` on a nullable
/// value or a map; otherwise it consumes exactly the encoded length.
pub open spec fn sz_value(v: Val, pos: int, rem: Option<int>) -> SzOut
    decreases v, 0int,
{
    match v {
        Val::VBool(_) => sz_fixed(rem, 0, 1),
        Val::VU8(_) => sz_fixed(rem, 0, 1),
        Val::VI8(_) => sz_fixed(rem, 0, 1),
        Val::VChar(_) => sz_fixed(rem, 0, 1),
        Val::VU16(_) => sz_fixed(rem, pad_len(pos, 2), 2),
        Val::VI16(_) => sz_fixed(rem, pad_len(pos, 2), 2),
        Val::VU32(_) => sz_fixed(rem, pad_len(pos, 4), 4),
        Val::VI32(_) => sz_fixed(rem, pad_len(pos, 4), 4),
        Val::VF32Bits(_) => sz_fixed(rem, pad_len(pos, 4), 4),
        Val::VU64(_) => sz_fixed(rem, pad_len(pos, 8), 8),
        Val::VI64(_) => sz_fixed(rem, pad_len(pos, 8), 8),
        Val::VF64Bits(_) => sz_fixed(rem, pad_len(pos, 8), 8),
        Val::VStr(chars) => {
            let bl = encode_utf8(chars).len() + 1;
            if bl > u32::MAX {
                SzOut::SzErr(Error::SizeLimit)
            } else {
                sz_fixed(rem, pad_len(pos, 4), (4 + bl) as int)
            }
        },
        Val::VByteBuf(bs) => {
            if bs.len() > u32::MAX {
                SzOut::SzErr(Error::SizeLimit)
            } else {
                sz_fixed(rem, pad_len(pos, 4), (4 + bs.len()) as int)
            }
        },
        Val::VSequence(vs) => {
            if vs.len() > u32::MAX {
                SzOut::SzErr(Error::SizeLimit)
            } else {
                let c0 = pad_len(pos, 4) + 4;
                if !budget_allows(rem, c0) {
                    SzOut::SzErr(Error::SizeLimit)
                } else {
                    match sz_vals_from(vs, 0, pos + c0, budget_minus(rem, c0)) {
                        SzOut::Fits(n) => SzOut::Fits(c0 + n),
                        SzOut::SzErr(e) => SzOut::SzErr(e),
                    }
                }
            }
        },
        Val::VArray(vs) => sz_vals_from(vs, 0, pos, rem),
        Val::VStruct(vs) => sz_vals_from(vs, 0, pos, rem),
        Val::VEnum(_d, p) => {
            let c0 = pad_len(pos, 4) + 4;
            if !budget_allows(rem, c0) {
                SzOut::SzErr(Error::SizeLimit)
            } else {
                match sz_value(*p, pos + c0, budget_minus(rem, c0)) {
                    SzOut::Fits(n) => SzOut::Fits(c0 + n),
                    SzOut::SzErr(e) => SzOut::SzErr(e),
                }
            }
        },
        Val::VNullable => SzOut::SzErr(Error::TypeNotSupported),
        Val::VMapping => SzOut::SzErr(Error::TypeNotSupported),
    }
}

/// One fixed-width consumption of the size pass: `p` padding bytes followed
/// by a `w`-byte body, against the remaining budget.
pub open spec fn sz_fixed(rem: Option<int>, p: int, w: int) -> SzOut {
    if budget_allows(rem, p + w) {
        SzOut::Fits(p + w)
    } else {
        SzOut::SzErr(Error::SizeLimit)
    }
}

/// The size pass over the values `vs[i..]`, one after another.
pub open spec fn sz_vals_from(vs: Seq<Val>, i: int, pos: int, rem: Option<int>) -> SzOut
    decreases vs, vs.len() - i,
{
    if i < 0 || i >= vs.len() {
        SzOut::Fits(0)
    } else {
        match sz_value(vs[i], pos, rem) {
            SzOut::Fits(n) => {
                match sz_vals_from(vs, i + 1, pos + n, budget_minus(rem, n)) {
                    SzOut::Fits(m) => SzOut::Fits(n + m),
                    SzOut::SzErr(e) => SzOut::SzErr(e),
                }
            },
            SzOut::SzErr(e) => SzOut::SzErr(e),
        }
    }
}

/// The remaining byte budget that a size limit grants.
pub open spec fn limit_rem(l: SizeLimit) -> Option<int> {
    match l {
        SizeLimit::Infinite => Option::None,
        SizeLimit::Bounded(r) => Option::Some(r as int),
    }
}

/// Encoded lengths are never negative.
pub proof fn lemma_len_value_nonneg(v: Val, pos: int)
    ensures
        len_value(v, pos) >= 0,
    decreases v, 0int,
{
    match v {
        Val::VSequence(vs) => {
            lemma_len_vals_from_nonneg(vs, 0, pos + pad_len(pos, 4) + 4);
        },
        Val::VArray(vs) => {
            lemma_len_vals_from_nonneg(vs, 0, pos);
        },
        Val::VStruct(vs) => {
            lemma_len_vals_from_nonneg(vs, 0, pos);
        },
        Val::VEnum(_d, p) => {
            lemma_len_value_nonneg(*p, pos + pad_len(pos, 4) + 4);
        },
        _ => {},
    }
}

/// Combined encoded lengths are never negative.
pub proof fn lemma_len_vals_from_nonneg(vs: Seq<Val>, i: int, pos: int)
    ensures
        len_vals_from(vs, i, pos) >= 0,
    decreases vs, vs.len() - i,
{
    if 0 <= i < vs.len() {
        lemma_len_value_nonneg(vs[i], pos);
        lemma_len_vals_from_nonneg(vs, i + 1, pos + len_value(vs[i], pos));
    }
}

/// A size pass that fits under some budget also fits, with the same size,
/// under no budget at all.
pub proof fn lemma_sz_relax(v: Val, pos: int, r: int)
    requires
        sz_value(v, pos, Option::Some(r)) is Fits,
    ensures
        sz_value(v, pos, Option::None) == sz_value(v, pos, Option::Some(r)),
    decreases v, 0int,
{
    match v {
        Val::VSequence(vs) => {
            let c0 = pad_len(pos, 4) + 4;
            lemma_sz_vals_relax(vs, 0, pos + c0, r - c0);
        },
        Val::VArray(vs) => {
            lemma_sz_vals_relax(vs, 0, pos, r);
        },
        Val::VStruct(vs) => {
            lemma_sz_vals_relax(vs, 0, pos, r);
        },
        Val::VEnum(_d, p) => {
            let c0 = pad_len(pos, 4) + 4;
            lemma_sz_relax(*p, pos + c0, r - c0);
        },
        _ => {},
    }
}

/// A size pass over a value list that fits under some budget also fits,
/// with the same size, under no budget at all.
pub proof fn lemma_sz_vals_relax(vs: Seq<Val>, i: int, pos: int, r: int)
    requires
        sz_vals_from(vs, i, pos, Option::Some(r)) is Fits,
    ensures
        sz_vals_from(vs, i, pos, Option::None) == sz_vals_from(vs, i, pos, Option::Some(r)),
    decreases vs, vs.len() - i,
{
    if 0 <= i < vs.len() {
        lemma_sz_relax(vs[i], pos, r);
        if let SzOut::Fits(n) = sz_value(vs[i], pos, Option::Some(r)) {
            lemma_sz_vals_relax(vs, i + 1, pos + n, r - n);
        }
    }
}

/// For a well-formed value the size pass is exactly the bound check: it
/// fits, reporting the encoded length, when the budget allows that length,
/// and fails with `SizeLimit` otherwise.
pub proof fn lemma_sz_bounded(v: Val, pos: int, rem: Option<int>)
    requires
        wf_val(v),
        rem matches Option::Some(r) ==> r >= 0,
    ensures
        sz_value(v, pos, rem) == (if budget_allows(rem, len_value(v, pos)) {
            SzOut::Fits(len_value(v, pos))
        } else {
            SzOut::SzErr(Error::SizeLimit)
        }),
    decreases v, 0int,
{
    lemma_len_value_nonneg(v, pos);
    match v {
        Val::VSequence(vs) => {
            let c0 = pad_len(pos, 4) + 4;
            lemma_len_vals_from_nonneg(vs, 0, pos + c0);
            if budget_allows(rem, c0) {
                lemma_sz_vals_bounded(vs, 0, pos + c0, budget_minus(rem, c0));
            }
        },
        Val::VArray(vs) => {
            lemma_sz_vals_bounded(vs, 0, pos, rem);
        },
        Val::VStruct(vs) => {
            lemma_sz_vals_bounded(vs, 0, pos, rem);
        },
        Val::VEnum(_d, p) => {
            let c0 = pad_len(pos, 4) + 4;
            lemma_len_value_nonneg(*p, pos + c0);
            if budget_allows(rem, c0) {
                lemma_sz_bounded(*p, pos + c0, budget_minus(rem, c0));
            }
        },
        _ => {},
    }
}

/// For a well-formed value list the size pass is exactly the bound check.
pub proof fn lemma_sz_vals_bounded(vs: Seq<Val>, i: int, pos: int, rem: Option<int>)
    requires
        wf_vals(vs),
        rem matches Option::Some(r) ==> r >= 0,
    ensures
        sz_vals_from(vs, i, pos, rem) == (if budget_allows(rem, len_vals_from(vs, i, pos)) {
            SzOut::Fits(len_vals_from(vs, i, pos))
        } else {
            SzOut::SzErr(Error::SizeLimit)
        }),
    decreases vs, vs.len() - i,
{
    lemma_len_vals_from_nonneg(vs, i, pos);
    if 0 <= i < vs.len() {
        lemma_wf_vals_index(vs);
        lemma_sz_bounded(vs[i], pos, rem);
        let n = len_value(vs[i], pos);
        lemma_len_value_nonneg(vs[i], pos);
        lemma_len_vals_from_nonneg(vs, i + 1, pos + n);
        if budget_allows(rem, n) {
            lemma_sz_vals_bounded(vs, i + 1, pos + n, budget_minus(rem, n));
        }
    }
}

/// Runs the size pass over values, tracking the position (for alignment)
/// and the remaining byte budget.
pub struct SizeChecker {
    /// Bytes accounted so far; drives the alignment arithmetic.
    pub pos: usize,
    /// Bytes still allowed before the bound is passed.
    pub remaining: usize,
}

impl SizeChecker {
    /// The checker never accounts more than its initial budget, so the two
    /// fields always sum within the machine's address range.
    pub open spec fn wf(self) -> bool {
        self.pos + self.remaining <= usize::MAX
    }

    /// A fresh checker with the whole budget ahead of it.
    pub fn new(max: usize) -> (r: SizeChecker)
        ensures
            r.wf(),
            r.pos == 0,
            r.remaining == max,
    {
        SizeChecker { pos: 0, remaining: max }
    }

    /// Accounts `n` bytes, failing before anything is accounted when the
    /// budget does not allow them.
    fn consume(&mut self, n: usize) -> (r: Result<(), Error>)
        requires
            old(self).wf(),
        ensures
            final(self).wf(),
            n <= old(self).remaining ==> {
                &&& r == Result::<(), Error>::Ok(())
                &&& final(self).pos == old(self).pos + n
                &&& final(self).remaining == old(self).remaining - n
            },
            n > old(self).remaining ==> {
                &&& r == Result::<(), Error>::Err(Error::SizeLimit)
                &&& *final(self) == *old(self)
            },
    {
        if n > self.remaining {
            Err(Error::SizeLimit)
        } else {
            self.pos = self.pos + n;
            self.remaining = self.remaining - n;
            Ok(())
        }
    }

    /// The padding bytes an aligned body of width `w` needs at the current
    /// position.
    fn padding_needed(&self, w: usize) -> (r: usize)
        requires
            w == 2 || w == 4 || w == 8,
        ensures
            r == pad_len(self.pos as int, w as int),
            r < w,
    {
        let m = self.pos % w;
        if m == 0 {
            0
        } else {
            w - m
        }
    }

    /// Accounts one value's encoding, exactly as `sz_value` prescribes for
    /// the current position and remaining budget.
    pub fn add_value(&mut self, v: &CdrValue) -> (r: Result<(), Error>)
        requires
            old(self).wf(),
        ensures
            final(self).wf(),
            match sz_value(
                val_of(*v),
                old(self).pos as int,
                Option::Some(old(self).remaining as int),
            ) {
                SzOut::Fits(n) => {
                    &&& r == Result::<(), Error>::Ok(())
                    &&& final(self).pos == old(self).pos + n
                    &&& final(self).remaining == old(self).remaining - n
                },
                SzOut::SzErr(e) => r == Result::<(), Error>::Err(e),
            },
        decreases v,
    {
        match v {
            CdrValue::Bool(_) => self.consume(1),
            CdrValue::U8(_) => self.consume(1),
            CdrValue::I8(_) => self.consume(1),
            CdrValue::Char(_) => self.consume(1),
            CdrValue::U16(_) => {
                let p = self.padding_needed(2);
                self.consume_fixed(p, 2)
            },
            CdrValue::I16(_) => {
                let p = self.padding_needed(2);
                self.consume_fixed(p, 2)
            },
            CdrValue::U32(_) => {
                let p = self.padding_needed(4);
                self.consume_fixed(p, 4)
            },
            CdrValue::I32(_) => {
                let p = self.padding_needed(4);
                self.consume_fixed(p, 4)
            },
            CdrValue::F32Bits(_) => {
                let p = self.padding_needed(4);
                self.consume_fixed(p, 4)
            },
            CdrValue::U64(_) => {
                let p = self.padding_needed(8);
                self.consume_fixed(p, 8)
            },
            CdrValue::I64(_) => {
                let p = self.padding_needed(8);
                self.consume_fixed(p, 8)
            },
            CdrValue::F64Bits(_) => {
                let p = self.padding_needed(8);
                self.consume_fixed(p, 8)
            },
            CdrValue::Str(s) => {
                let bl = s.as_str().as_bytes().len();
                if bl >= u32::MAX as usize {
                    return Err(Error::SizeLimit);
                }
                let p = self.padding_needed(4);
                self.consume_fixed(p, 4)?;
                self.consume(bl + 1)
            },
            CdrValue::ByteBuf(b) => {
                let bl = b.len();
                if bl > u32::MAX as usize {
                    return Err(Error::SizeLimit);
                }
                let p = self.padding_needed(4);
                self.consume_fixed(p, 4)?;
                self.consume(bl)
            },
            CdrValue::Sequence(vs) => {
                if vs.len() > u32::MAX as usize {
                    proof {
                        lemma_vals_of_index(vs@);
                    }
                    return Err(Error::SizeLimit);
                }
                proof {
                    lemma_vals_of_index(vs@);
                }
                let p = self.padding_needed(4);
                self.consume_fixed(p, 4)?;
                self.add_values(vs)
            },
            CdrValue::Array(vs) => self.add_values(vs),
            CdrValue::Struct(vs) => self.add_values(vs),
            CdrValue::Enum(_d, payload) => {
                let p = self.padding_needed(4);
                self.consume_fixed(p, 4)?;
                self.add_value(payload)
            },
            CdrValue::Nullable => Err(Error::TypeNotSupported),
            CdrValue::Mapping => Err(Error::TypeNotSupported),
        }
    }

    /// Accounts the encodings of the values in order, as `sz_vals_from`
    /// prescribes.
    fn add_values(&mut self, vs: &Vec<CdrValue>) -> (r: Result<(), Error>)
        requires
            old(self).wf(),
        ensures
            final(self).wf(),
            match sz_vals_from(
                vals_of(vs@),
                0,
                old(self).pos as int,
                Option::Some(old(self).remaining as int),
            ) {
                SzOut::Fits(n) => {
                    &&& r == Result::<(), Error>::Ok(())
                    &&& final(self).pos == old(self).pos + n
                    &&& final(self).remaining == old(self).remaining - n
                },
                SzOut::SzErr(e) => r == Result::<(), Error>::Err(e),
            },
        decreases vs,
    {
        let ghost models = vals_of(vs@);
        let ghost pos0 = self.pos as int;
        let ghost rem0 = self.remaining as int;
        proof {
            lemma_vals_of_index(vs@);
        }
        let mut i: usize = 0;
        while i < vs.len()
            invariant
                self.wf(),
                i <= vs.len(),
                models == vals_of(vs@),
                models.len() == vs@.len(),
                pos0 == old(self).pos as int,
                rem0 == old(self).remaining as int,
                self.pos - pos0 == rem0 - self.remaining,
                match sz_vals_from(
                    models,
                    i as int,
                    self.pos as int,
                    Option::Some(self.remaining as int),
                ) {
                    SzOut::Fits(n) => sz_vals_from(models, 0, pos0, Option::Some(rem0))
                        == SzOut::Fits(self.pos - pos0 + n),
                    SzOut::SzErr(e) => sz_vals_from(models, 0, pos0, Option::Some(rem0))
                        == SzOut::SzErr(e),
                },
            decreases vs.len() - i,
        {
            proof {
                lemma_vals_of_index(vs@);
            }
            let ghost pos_i = self.pos as int;
            let ghost rem_i = self.remaining as int;
            let r = self.add_value(&vs[i]);
            if let Err(e) = r {
                proof {
                    assert(sz_value(models[i as int], pos_i, Option::Some(rem_i))
                        == SzOut::SzErr(e));
                    assert(sz_vals_from(models, i as int, pos_i, Option::Some(rem_i))
                        == SzOut::SzErr(e));
                }
                return Err(e);
            }
            i = i + 1;
        }
        Ok(())
    }

    /// Accounts `p` padding bytes then a `w`-byte body, as `sz_fixed` says.
    fn consume_fixed(&mut self, p: usize, w: usize) -> (r: Result<(), Error>)
        requires
            old(self).wf(),
            p + w <= usize::MAX,
        ensures
            final(self).wf(),
            match sz_fixed(Option::Some(old(self).remaining as int), p as int, w as int) {
                SzOut::Fits(n) => {
                    &&& r == Result::<(), Error>::Ok(())
                    &&& final(self).pos == old(self).pos + n
                    &&& final(self).remaining == old(self).remaining - n
                },
                SzOut::SzErr(e) => r == Result::<(), Error>::Err(e),
            },
    {
        if p + w > self.remaining {
            Err(Error::SizeLimit)
        } else {
            self.consume(p)?;
            self.consume(w)
        }
    }
}

} // verus!
