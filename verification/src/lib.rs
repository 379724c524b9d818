//! A verified codec for the OMG Common Data Representation (CDR) binary
//! encoding: alignment-padded, endianness-parameterized packing of structured
//! data, framed by a 4-byte encapsulation header that identifies the byte
//! order and wire variant.

use vstd::prelude::*;

pub mod de;
pub mod error;
pub mod laws;
pub mod value;
pub mod prim;
pub mod ser;
pub mod size;

pub use crate::de::Deserializer;
pub use crate::error::Error;
pub use crate::ser::Serializer;
pub use crate::size::SizeLimit;
pub use crate::value::{CdrShape, CdrValue};

use vstd::slice::slice_to_vec;

use crate::de::{dec_value, DecOut};
use crate::prim::bytes_of_u16;
use crate::ser::enc_value;
use crate::size::{
    budget_minus, limit_rem, lemma_sz_bounded, lemma_sz_relax, len_value, sz_value, SizeChecker,
    SzOut,
};
use crate::value::{shp_of, val_of, wf_val, Val};

verus! {

/// Byte order used when packing a multi-byte value.
#[derive(Clone, Copy, PartialEq, Eq, Structural, Debug)]
pub enum Endianness {
    BigEndian,
    LittleEndian,
}

/// The wire variant requested by a caller or announced by an encapsulation
/// header: plain or parameter-list CDR, big- or little-endian payload.
#[derive(Clone, Copy, PartialEq, Eq, Structural, Debug)]
pub enum RepresentationFormat {
    CdrBe,
    CdrLe,
    PlCdrBe,
    PlCdrLe,
}

impl RepresentationFormat {
    /// The 16-bit identifier written into the encapsulation header.
    pub fn id(&self) -> (r: u16)
        ensures
            r == self.spec_id(),
    {
        match *self {
            RepresentationFormat::CdrBe => 0x0000,
            RepresentationFormat::CdrLe => 0x0001,
            RepresentationFormat::PlCdrBe => 0x0002,
            RepresentationFormat::PlCdrLe => 0x0003,
        }
    }

    pub open spec fn spec_id(self) -> u16 {
        match self {
            RepresentationFormat::CdrBe => 0x0000,
            RepresentationFormat::CdrLe => 0x0001,
            RepresentationFormat::PlCdrBe => 0x0002,
            RepresentationFormat::PlCdrLe => 0x0003,
        }
    }

    /// The 16-bit reserved options field; always zero on encode.
    pub fn option(&self) -> (r: u16)
        ensures
            r == 0,
    {
        0x0000
    }

    /// The byte order of the payload under this format.
    pub fn endianness(&self) -> (r: Endianness)
        ensures
            r == self.spec_endianness(),
    {
        match *self {
            RepresentationFormat::CdrBe | RepresentationFormat::PlCdrBe => Endianness::BigEndian,
            RepresentationFormat::CdrLe | RepresentationFormat::PlCdrLe => {
                Endianness::LittleEndian
            },
        }
    }

    pub open spec fn spec_endianness(self) -> Endianness {
        match self {
            RepresentationFormat::CdrBe | RepresentationFormat::PlCdrBe => Endianness::BigEndian,
            RepresentationFormat::CdrLe | RepresentationFormat::PlCdrLe => {
                Endianness::LittleEndian
            },
        }
    }

    /// Maps the header's 4 bytes to a representation format: the first two
    /// bytes, big-endian, are the format identifier; the reserved bytes are
    /// not validated.
    pub fn try_from(value: [u8; 4]) -> (r: Result<RepresentationFormat, Error>)
        ensures
            match format_of_id(
                crate::prim::u16_of_bytes(value@[0], value@[1], Endianness::BigEndian),
            ) {
                Option::Some(f) => r == Result::<RepresentationFormat, Error>::Ok(f),
                Option::None => r == Result::<RepresentationFormat, Error>::Err(
                    Error::InvalidEncapsulation,
                ),
            },
    {
        let representation_value = crate::prim::u16_from_bytes(
            value[0],
            value[1],
            Endianness::BigEndian,
        );
        match representation_value {
            0x0000 => Ok(RepresentationFormat::CdrBe),
            0x0001 => Ok(RepresentationFormat::CdrLe),
            0x0002 => Ok(RepresentationFormat::PlCdrBe),
            0x0003 => Ok(RepresentationFormat::PlCdrLe),
            _ => Err(Error::InvalidEncapsulation),
        }
    }
}

/// The representation format a header identifier names, if any.
pub open spec fn format_of_id(id: u16) -> Option<RepresentationFormat> {
    if id == 0x0000 {
        Option::Some(RepresentationFormat::CdrBe)
    } else if id == 0x0001 {
        Option::Some(RepresentationFormat::CdrLe)
    } else if id == 0x0002 {
        Option::Some(RepresentationFormat::PlCdrBe)
    } else if id == 0x0003 {
        Option::Some(RepresentationFormat::PlCdrLe)
    } else {
        Option::None
    }
}

/// The 4-byte encapsulation header: the format identifier and the zero
/// reserved field, both big-endian whatever the payload's byte order.
pub open spec fn header_bytes(f: RepresentationFormat) -> Seq<u8> {
    bytes_of_u16(f.spec_id(), Endianness::BigEndian) + bytes_of_u16(0, Endianness::BigEndian)
}

/// A complete encoded message: the header, then the payload encoded from
/// position zero under the format's byte order.
pub open spec fn message_bytes(v: Val, f: RepresentationFormat) -> Seq<u8> {
    header_bytes(f) + enc_value(v, 0, f.spec_endianness())
}

/// The outcome of reading an encapsulation header: the format it announces,
/// or the error. The four header bytes are read one by one, each charged
/// against the budget before it is read, so a budget under four bytes fails
/// with `SizeLimit`, an input under four bytes fails with `Io`, and an
/// unknown format identifier fails with `InvalidEncapsulation`.
pub enum HdrOut {
    GotHdr(RepresentationFormat),
    HdrErr(Error),
}

/// Reading the encapsulation header from the start of `b` under the
/// remaining budget `rem`.
pub open spec fn dec_header(b: Seq<u8>, rem: Option<int>) -> HdrOut {
    if rem matches Option::Some(r) && r < 4 && r <= b.len() {
        HdrOut::HdrErr(Error::SizeLimit)
    } else if b.len() < 4 {
        HdrOut::HdrErr(Error::Io)
    } else {
        match format_of_id(crate::prim::u16_of_bytes(b[0], b[1], Endianness::BigEndian)) {
            Option::Some(f) => HdrOut::GotHdr(f),
            Option::None => HdrOut::HdrErr(Error::InvalidEncapsulation),
        }
    }
}

/// The check `serialize` runs before writing anything: under a bound, the
/// header must fit and the payload's size pass must fit in what remains;
/// without one, the size pass still runs so that the output buffer can be
/// presized, against all the space a buffer can have.
pub open spec fn serialize_check(v: Val, size_limit: SizeLimit) -> SzOut {
    match size_limit {
        SizeLimit::Infinite => sz_value(v, 0, Option::Some(usize::MAX - 4)),
        SizeLimit::Bounded(l) => {
            if l < 4 {
                SzOut::SzErr(Error::SizeLimit)
            } else {
                sz_value(v, 0, Option::Some(l - 4))
            }
        },
    }
}

/// The size of the value's complete encoding, the 4-byte header included.
/// The value must be encodable and its total size must fit the machine.
pub fn calc_serialized_size(value: &CdrValue) -> (r: usize)
    requires
        wf_val(val_of(*value)),
        4 + len_value(val_of(*value), 0) <= usize::MAX,
    ensures
        r == 4 + len_value(val_of(*value), 0),
{
    proof {
        lemma_sz_bounded(val_of(*value), 0, Option::Some(usize::MAX - 4));
    }
    let mut checker = SizeChecker::new(usize::MAX - 4);
    let res = checker.add_value(value);
    proof {
        assert(res is Ok);
    }
    checker.pos + 4
}

/// The size of the value's complete encoding if it stays within `max`
/// bytes, header included; `SizeLimit` as soon as the running total would
/// pass `max`, `TypeNotSupported` on a nullable value or map.
pub fn calc_serialized_size_bounded(value: &CdrValue, max: usize) -> (r: Result<usize, Error>)
    ensures
        max < 4 ==> r == Result::<usize, Error>::Err(Error::SizeLimit),
        max >= 4 ==> match sz_value(val_of(*value), 0, Option::Some(max - 4)) {
            SzOut::Fits(n) => r matches Ok(u) && u == n + 4,
            SzOut::SzErr(e0) => r == Result::<usize, Error>::Err(e0),
        },
{
    if max < 4 {
        Err(Error::SizeLimit)
    } else {
        let mut checker = SizeChecker::new(max - 4);
        match checker.add_value(value) {
            Ok(()) => Ok(checker.pos + 4),
            Err(e) => Err(e),
        }
    }
}

/// Serializes the value into a byte vector with the encapsulation: the size
/// pass first (presizing the output and enforcing the bound, failing before
/// any byte is produced), then the header in fixed byte order, then the
/// payload from position zero under the chosen format's byte order.
pub fn serialize(
    value: &CdrValue,
    representation_format: RepresentationFormat,
    size_limit: SizeLimit,
) -> (r: Result<Vec<u8>, Error>)
    ensures
        match serialize_check(val_of(*value), size_limit) {
            SzOut::Fits(_n) => r matches Ok(bytes) && bytes@ == message_bytes(
                val_of(*value),
                representation_format,
            ),
            SzOut::SzErr(e0) => r matches Err(e2) && e2 == e0,
        },
{
    match size_limit {
        SizeLimit::Bounded(l) => {
            if let Err(e) = calc_serialized_size_bounded(value, l) {
                return Err(e);
            }
            proof {
                lemma_sz_relax(val_of(*value), 0, l - 4);
            }
        },
        SizeLimit::Infinite => {
            let mut checker = SizeChecker::new(usize::MAX - 4);
            if let Err(e) = checker.add_value(value) {
                return Err(e);
            }
            proof {
                lemma_sz_relax(val_of(*value), 0, usize::MAX - 4);
            }
        },
    }
    let mut serializer = Serializer::new(&RepresentationFormat::CdrBe);
    serializer.write_u16(representation_format.id());
    serializer.write_u16(representation_format.option());
    serializer.set_representation_format(&representation_format);
    serializer.reset_pos();
    proof {
        assert(serializer.buf@ =~= header_bytes(representation_format));
    }
    serializer.write_value(value);
    proof {
        assert(serializer.buf@ =~= message_bytes(val_of(*value), representation_format));
    }
    Ok(serializer.buf)
}

/// Serializes the value with the encapsulation, appending the bytes to the
/// given buffer; on failure the buffer is left untouched.
pub fn serialize_into(
    writer: &mut Vec<u8>,
    value: &CdrValue,
    representation_format: RepresentationFormat,
    size_limit: SizeLimit,
) -> (r: Result<(), Error>)
    ensures
        match serialize_check(val_of(*value), size_limit) {
            SzOut::Fits(_n) => {
                &&& r == Result::<(), Error>::Ok(())
                &&& final(writer)@ == old(writer)@ + message_bytes(
                    val_of(*value),
                    representation_format,
                )
            },
            SzOut::SzErr(e0) => {
                &&& r == Result::<(), Error>::Err(e0)
                &&& final(writer)@ == old(writer)@
            },
        },
{
    let mut bytes = match serialize(value, representation_format, size_limit) {
        Ok(bytes) => bytes,
        Err(e) => {
            return Err(e);
        },
    };
    writer.append(&mut bytes);
    Ok(())
}

/// Deserializes a value of the given shape from a complete message: the
/// header is read first in fixed byte order, the payload endianness comes
/// from the format it announces, and the position counter restarts at zero
/// for the payload.
pub fn deserialize(bytes: &[u8], shape: &CdrShape) -> (r: Result<CdrValue, Error>)
    ensures
        match dec_header(bytes@, Option::None) {
            HdrOut::GotHdr(f) => match dec_value(
                bytes@,
                4,
                0,
                Option::None,
                shp_of(*shape),
                f.spec_endianness(),
            ) {
                DecOut::Found(v, _n) => r matches Ok(cv) && val_of(cv) == v,
                DecOut::Fail(e0) => r matches Err(e2) && e2 == e0,
            },
            HdrOut::HdrErr(e0) => r matches Err(e2) && e2 == e0,
        },
{
    deserialize_from(bytes, shape, SizeLimit::Infinite)
}

/// Deserializes a value of the given shape from a complete message, under
/// an optional byte budget charged for the header and every payload byte.
pub fn deserialize_from(bytes: &[u8], shape: &CdrShape, size_limit: SizeLimit) -> (r: Result<
    CdrValue,
    Error,
>)
    ensures
        match dec_header(bytes@, limit_rem(size_limit)) {
            HdrOut::GotHdr(f) => match dec_value(
                bytes@,
                4,
                0,
                budget_minus(limit_rem(size_limit), 4),
                shp_of(*shape),
                f.spec_endianness(),
            ) {
                DecOut::Found(v, _n) => r matches Ok(cv) && val_of(cv) == v,
                DecOut::Fail(e0) => r matches Err(e2) && e2 == e0,
            },
            HdrOut::HdrErr(e0) => r matches Err(e2) && e2 == e0,
        },
{
    let mut deserializer = Deserializer::new(
        slice_to_vec(bytes),
        &RepresentationFormat::CdrBe,
        size_limit,
    );
    let b0 = match deserializer.deserialize_u8() {
        Ok(x) => x,
        Err(e) => {
            return Err(e);
        },
    };
    let b1 = match deserializer.deserialize_u8() {
        Ok(x) => x,
        Err(e) => {
            return Err(e);
        },
    };
    let b2 = match deserializer.deserialize_u8() {
        Ok(x) => x,
        Err(e) => {
            return Err(e);
        },
    };
    let b3 = match deserializer.deserialize_u8() {
        Ok(x) => x,
        Err(e) => {
            return Err(e);
        },
    };
    let format = match RepresentationFormat::try_from([b0, b1, b2, b3]) {
        Ok(f) => f,
        Err(e) => {
            return Err(e);
        },
    };
    deserializer.set_representation_format(&format);
    deserializer.reset_pos();
    deserializer.read_value(shape)
}

/// Deserializes a value of the given shape from payload bytes that carry no
/// header, under the given format.
pub fn deserialize_data(
    bytes: &[u8],
    shape: &CdrShape,
    representation_format: RepresentationFormat,
) -> (r: Result<CdrValue, Error>)
    ensures
        match dec_value(
            bytes@,
            0,
            0,
            Option::None,
            shp_of(*shape),
            representation_format.spec_endianness(),
        ) {
            DecOut::Found(v, _n) => r matches Ok(cv) && val_of(cv) == v,
            DecOut::Fail(e0) => r matches Err(e2) && e2 == e0,
        },
{
    deserialize_data_from(bytes, shape, representation_format, SizeLimit::Infinite)
}

/// Deserializes a value of the given shape from payload bytes that carry no
/// header, under the given format and an optional byte budget.
pub fn deserialize_data_from(
    bytes: &[u8],
    shape: &CdrShape,
    representation_format: RepresentationFormat,
    size_limit: SizeLimit,
) -> (r: Result<CdrValue, Error>)
    ensures
        match dec_value(
            bytes@,
            0,
            0,
            limit_rem(size_limit),
            shp_of(*shape),
            representation_format.spec_endianness(),
        ) {
            DecOut::Found(v, _n) => r matches Ok(cv) && val_of(cv) == v,
            DecOut::Fail(e0) => r matches Err(e2) && e2 == e0,
        },
{
    let mut deserializer = Deserializer::new(
        slice_to_vec(bytes),
        &representation_format,
        size_limit,
    );
    deserializer.read_value(shape)
}

} // verus!
