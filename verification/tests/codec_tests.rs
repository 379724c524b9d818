use cdr::de::{utf8_char_width, Deserializer};
use cdr::error::Error;
use cdr::size::SizeLimit;
use cdr::value::{CdrShape, CdrValue};
use cdr::{
    calc_serialized_size, calc_serialized_size_bounded, deserialize, deserialize_data,
    deserialize_data_from, deserialize_from, serialize, serialize_into, RepresentationFormat,
};

fn sample_struct() -> CdrValue {
    CdrValue::Struct(vec![
        CdrValue::U8(7),
        CdrValue::U64(123456789012345),
        CdrValue::Str(String::from("sample")),
        CdrValue::Sequence(vec![CdrValue::I16(-5), CdrValue::I16(300)]),
        CdrValue::Enum(1, Box::new(CdrValue::Struct(vec![CdrValue::Bool(true)]))),
    ])
}

fn sample_struct_shape() -> CdrShape {
    CdrShape::Struct(vec![
        CdrShape::U8,
        CdrShape::U64,
        CdrShape::Str,
        CdrShape::Sequence(Box::new(CdrShape::I16)),
        CdrShape::Enum(vec![
            CdrShape::Str,
            CdrShape::Struct(vec![CdrShape::Bool]),
        ]),
    ])
}

#[test]
fn bool_decode_rejects_two() {
    assert_eq!(
        deserialize_data(&vec![0x02], &CdrShape::Bool, RepresentationFormat::CdrBe).unwrap_err(),
        Error::InvalidBoolEncoding(2)
    );
}

#[test]
fn char_decode_rejects_multibyte_lead() {
    assert_eq!(
        deserialize_data(&vec![0xc3, 0xa9], &CdrShape::Char, RepresentationFormat::CdrBe)
            .unwrap_err(),
        Error::InvalidCharEncoding
    );
}

#[test]
fn string_encodes_with_terminator() {
    let bytes = serialize(
        &CdrValue::Str(String::from("AB")),
        RepresentationFormat::CdrBe,
        SizeLimit::Infinite,
    )
    .unwrap();
    assert_eq!(
        bytes,
        vec![0x00, 0x00, 0x00, 0x00, 0x00, 0x00, 0x00, 0x03, 0x41, 0x42, 0x00]
    );
    assert_eq!(
        deserialize_data(
            &vec![0x00, 0x00, 0x00, 0x03, 0x41, 0x42, 0x00],
            &CdrShape::Str,
            RepresentationFormat::CdrBe
        )
        .unwrap(),
        CdrValue::Str(String::from("AB"))
    );
}

#[test]
fn empty_string_encodes_to_length_one() {
    let be = serialize(
        &CdrValue::Str(String::from("")),
        RepresentationFormat::CdrBe,
        SizeLimit::Infinite,
    )
    .unwrap();
    assert_eq!(be[4..], [0x00, 0x00, 0x00, 0x01, 0x00]);
    let le = serialize(
        &CdrValue::Str(String::from("")),
        RepresentationFormat::CdrLe,
        SizeLimit::Infinite,
    )
    .unwrap();
    assert_eq!(le[4..], [0x01, 0x00, 0x00, 0x00, 0x00]);
    assert_eq!(
        deserialize(&be, &CdrShape::Str).unwrap(),
        CdrValue::Str(String::from(""))
    );
    assert_eq!(
        deserialize(&le, &CdrShape::Str).unwrap(),
        CdrValue::Str(String::from(""))
    );
}

#[test]
fn sequence_of_u8_wire_form() {
    let v = CdrValue::Sequence(vec![
        CdrValue::U8(1),
        CdrValue::U8(2),
        CdrValue::U8(3),
        CdrValue::U8(4),
        CdrValue::U8(5),
    ]);
    let bytes = serialize(&v, RepresentationFormat::CdrBe, SizeLimit::Infinite).unwrap();
    assert_eq!(bytes[4..], [0x00, 0x00, 0x00, 0x05, 0x01, 0x02, 0x03, 0x04, 0x05]);
    assert_eq!(
        deserialize(&bytes, &CdrShape::Sequence(Box::new(CdrShape::U8))).unwrap(),
        v
    );
}

#[test]
fn header_round_trip_without_format() {
    let v = sample_struct();
    let bytes = serialize(&v, RepresentationFormat::CdrLe, SizeLimit::Infinite).unwrap();
    assert_eq!(bytes[0..4], [0x00, 0x01, 0x00, 0x00]);
    assert_eq!(deserialize(&bytes, &sample_struct_shape()).unwrap(), v);
}

#[test]
fn header_round_trip_big_endian() {
    let v = sample_struct();
    let bytes = serialize(&v, RepresentationFormat::CdrBe, SizeLimit::Infinite).unwrap();
    assert_eq!(bytes[0..4], [0x00, 0x00, 0x00, 0x00]);
    assert_eq!(deserialize(&bytes, &sample_struct_shape()).unwrap(), v);
}

#[test]
fn pl_format_headers() {
    let v = CdrValue::U16(7);
    let be = serialize(&v, RepresentationFormat::PlCdrBe, SizeLimit::Infinite).unwrap();
    assert_eq!(be, vec![0x00, 0x02, 0x00, 0x00, 0x00, 0x07]);
    let le = serialize(&v, RepresentationFormat::PlCdrLe, SizeLimit::Infinite).unwrap();
    assert_eq!(le, vec![0x00, 0x03, 0x00, 0x00, 0x07, 0x00]);
    assert_eq!(deserialize(&be, &CdrShape::U16).unwrap(), v);
    assert_eq!(deserialize(&le, &CdrShape::U16).unwrap(), v);
}

#[test]
fn invalid_encapsulation_rejected() {
    assert_eq!(
        deserialize(&vec![0x00, 0x09, 0x00, 0x00, 0x07], &CdrShape::U8).unwrap_err(),
        Error::InvalidEncapsulation
    );
}

#[test]
fn short_header_is_io_error() {
    assert_eq!(
        deserialize(&vec![0x00, 0x01], &CdrShape::U8).unwrap_err(),
        Error::Io
    );
}

#[test]
fn size_agrees_with_encoding() {
    let v = sample_struct();
    let be = serialize(&v, RepresentationFormat::CdrBe, SizeLimit::Infinite).unwrap();
    let le = serialize(&v, RepresentationFormat::CdrLe, SizeLimit::Infinite).unwrap();
    let size = calc_serialized_size(&v);
    assert_eq!(size, be.len());
    assert_eq!(size, le.len());
}

#[test]
fn alignment_inserts_padding_bytes() {
    let v = CdrValue::Struct(vec![CdrValue::U8(1), CdrValue::U16(0x0203)]);
    let bytes = serialize(&v, RepresentationFormat::CdrBe, SizeLimit::Infinite).unwrap();
    assert_eq!(bytes[4..], [0x01, 0x00, 0x02, 0x03]);
    assert_eq!(calc_serialized_size(&v), 8);
    let v64 = CdrValue::Struct(vec![CdrValue::U8(1), CdrValue::U64(2)]);
    let bytes64 = serialize(&v64, RepresentationFormat::CdrBe, SizeLimit::Infinite).unwrap();
    assert_eq!(
        bytes64[4..],
        [0x01, 0x00, 0x00, 0x00, 0x00, 0x00, 0x00, 0x00, 0x00, 0x00, 0x00, 0x00, 0x00, 0x00,
            0x00, 0x02]
    );
}

#[test]
fn bound_enforcement_on_size() {
    let v = CdrValue::U64(5);
    assert_eq!(calc_serialized_size_bounded(&v, 12).unwrap(), 12);
    assert_eq!(
        calc_serialized_size_bounded(&v, 11).unwrap_err(),
        Error::SizeLimit
    );
    assert_eq!(
        calc_serialized_size_bounded(&v, 3).unwrap_err(),
        Error::SizeLimit
    );
    assert_eq!(
        serialize(&v, RepresentationFormat::CdrBe, SizeLimit::Bounded(11)).unwrap_err(),
        Error::SizeLimit
    );
    assert_eq!(
        serialize(&v, RepresentationFormat::CdrBe, SizeLimit::Bounded(12)).unwrap(),
        vec![0x00, 0x00, 0x00, 0x00, 0x00, 0x00, 0x00, 0x00, 0x00, 0x00, 0x00, 0x05]
    );
}

#[test]
fn nullable_and_map_are_not_supported() {
    assert_eq!(
        serialize(&CdrValue::Nullable, RepresentationFormat::CdrBe, SizeLimit::Infinite)
            .unwrap_err(),
        Error::TypeNotSupported
    );
    assert_eq!(
        serialize(&CdrValue::Mapping, RepresentationFormat::CdrBe, SizeLimit::Infinite)
            .unwrap_err(),
        Error::TypeNotSupported
    );
    assert_eq!(
        deserialize_data(&vec![0x00], &CdrShape::Nullable, RepresentationFormat::CdrBe)
            .unwrap_err(),
        Error::TypeNotSupported
    );
    assert_eq!(
        deserialize_data(&vec![0x00], &CdrShape::Mapping, RepresentationFormat::CdrBe)
            .unwrap_err(),
        Error::TypeNotSupported
    );
    assert_eq!(
        calc_serialized_size_bounded(&CdrValue::Nullable, 100).unwrap_err(),
        Error::TypeNotSupported
    );
}

#[test]
fn schema_less_decoding_is_refused() {
    assert_eq!(
        deserialize_data(&vec![0x00], &CdrShape::Unspecified, RepresentationFormat::CdrBe)
            .unwrap_err(),
        Error::SchemaLessDecodingNotSupported
    );
}

#[test]
fn unknown_variant_discriminant_rejected() {
    let shape = CdrShape::Enum(vec![CdrShape::U8, CdrShape::U16]);
    assert_eq!(
        deserialize_data(
            &vec![0x00, 0x00, 0x00, 0x05, 0x01],
            &shape,
            RepresentationFormat::CdrBe
        )
        .unwrap_err(),
        Error::UnknownVariant(5)
    );
}

#[test]
fn invalid_utf8_reports_position() {
    assert_eq!(
        deserialize_data(
            &vec![0x00, 0x00, 0x00, 0x03, 0x41, 0xff, 0x00],
            &CdrShape::Str,
            RepresentationFormat::CdrBe
        )
        .unwrap_err(),
        Error::InvalidUtf8Encoding(1)
    );
}

#[test]
fn short_input_is_io_error() {
    assert_eq!(
        deserialize_data(&vec![0x01], &CdrShape::U16, RepresentationFormat::CdrBe).unwrap_err(),
        Error::Io
    );
    assert_eq!(
        deserialize_data(
            &vec![0x00, 0x00, 0x00, 0x05, 0x01],
            &CdrShape::ByteBuf,
            RepresentationFormat::CdrBe
        )
        .unwrap_err(),
        Error::Io
    );
}

#[test]
fn primitive_round_trips_both_endiannesses() {
    let cases = vec![
        CdrValue::Bool(false),
        CdrValue::U8(200),
        CdrValue::I8(-100),
        CdrValue::U16(65500),
        CdrValue::I16(-32700),
        CdrValue::U32(4294967200),
        CdrValue::I32(-2147483600),
        CdrValue::U64(18446744073709551600),
        CdrValue::I64(-9223372036800),
        CdrValue::F32Bits(1.5f32.to_bits()),
        CdrValue::F64Bits(2.25f64.to_bits()),
        CdrValue::Char('z'),
    ];
    let shapes = vec![
        CdrShape::Bool,
        CdrShape::U8,
        CdrShape::I8,
        CdrShape::U16,
        CdrShape::I16,
        CdrShape::U32,
        CdrShape::I32,
        CdrShape::U64,
        CdrShape::I64,
        CdrShape::F32,
        CdrShape::F64,
        CdrShape::Char,
    ];
    for (v, shape) in cases.iter().zip(shapes.iter()) {
        for format in [RepresentationFormat::CdrBe, RepresentationFormat::CdrLe] {
            let bytes = serialize(v, format, SizeLimit::Infinite).unwrap();
            assert_eq!(&deserialize(&bytes, shape).unwrap(), v);
        }
    }
}

#[test]
fn multibyte_utf8_string_round_trips() {
    let v = CdrValue::Str(String::from("héllo wörld ✓"));
    let bytes = serialize(&v, RepresentationFormat::CdrLe, SizeLimit::Infinite).unwrap();
    assert_eq!(deserialize(&bytes, &CdrShape::Str).unwrap(), v);
}

#[test]
fn byte_buffer_round_trips_verbatim() {
    let v = CdrValue::ByteBuf(vec![0xde, 0xad, 0xbe, 0xef, 0x00, 0x01]);
    let bytes = serialize(&v, RepresentationFormat::CdrBe, SizeLimit::Infinite).unwrap();
    assert_eq!(bytes[4..], [0x00, 0x00, 0x00, 0x06, 0xde, 0xad, 0xbe, 0xef, 0x00, 0x01]);
    assert_eq!(deserialize(&bytes, &CdrShape::ByteBuf).unwrap(), v);
}

#[test]
fn enum_unit_variant_round_trips() {
    let shape = CdrShape::Enum(vec![
        CdrShape::Struct(vec![]),
        CdrShape::Struct(vec![CdrShape::U32]),
    ]);
    let unit = CdrValue::Enum(0, Box::new(CdrValue::Struct(vec![])));
    let bytes = serialize(&unit, RepresentationFormat::CdrBe, SizeLimit::Infinite).unwrap();
    assert_eq!(bytes[4..], [0x00, 0x00, 0x00, 0x00]);
    assert_eq!(deserialize(&bytes, &shape).unwrap(), unit);
    let newtype = CdrValue::Enum(1, Box::new(CdrValue::Struct(vec![CdrValue::U32(9)])));
    let bytes = serialize(&newtype, RepresentationFormat::CdrBe, SizeLimit::Infinite).unwrap();
    assert_eq!(bytes[4..], [0x00, 0x00, 0x00, 0x01, 0x00, 0x00, 0x00, 0x09]);
    assert_eq!(deserialize(&bytes, &shape).unwrap(), newtype);
}

#[test]
fn serialize_into_appends_to_writer() {
    let mut writer = vec![0xaa];
    serialize_into(
        &mut writer,
        &CdrValue::U8(5),
        RepresentationFormat::CdrBe,
        SizeLimit::Infinite,
    )
    .unwrap();
    assert_eq!(writer, vec![0xaa, 0x00, 0x00, 0x00, 0x00, 0x05]);
    let failed = serialize_into(
        &mut writer,
        &CdrValue::Nullable,
        RepresentationFormat::CdrBe,
        SizeLimit::Infinite,
    );
    assert_eq!(failed.unwrap_err(), Error::TypeNotSupported);
    assert_eq!(writer, vec![0xaa, 0x00, 0x00, 0x00, 0x00, 0x05]);
}

#[test]
fn bounded_deserialize_enforces_budget() {
    let v = sample_struct();
    let bytes = serialize(&v, RepresentationFormat::CdrLe, SizeLimit::Infinite).unwrap();
    assert_eq!(
        deserialize_from(&bytes, &sample_struct_shape(), SizeLimit::Bounded(bytes.len())).unwrap(),
        v
    );
    assert_eq!(
        deserialize_from(&bytes, &sample_struct_shape(), SizeLimit::Bounded(8)).unwrap_err(),
        Error::SizeLimit
    );
    assert_eq!(
        deserialize_from(&bytes, &sample_struct_shape(), SizeLimit::Bounded(2)).unwrap_err(),
        Error::SizeLimit
    );
}

#[test]
fn bounded_data_deserialize_enforces_budget() {
    assert_eq!(
        deserialize_data_from(
            &vec![0x00, 0x07],
            &CdrShape::U16,
            RepresentationFormat::CdrBe,
            SizeLimit::Bounded(2)
        )
        .unwrap(),
        CdrValue::U16(7)
    );
    assert_eq!(
        deserialize_data_from(
            &vec![0x00, 0x07],
            &CdrShape::U16,
            RepresentationFormat::CdrBe,
            SizeLimit::Bounded(1)
        )
        .unwrap_err(),
        Error::SizeLimit
    );
}

#[test]
fn deserializer_reads_primitives_in_order() {
    let input = vec![0x07, 0x00, 0xff, 0xdc, 0x00, 0x00, 0x00, 0x2a];
    let mut d = Deserializer::new(input, &RepresentationFormat::CdrBe, SizeLimit::Infinite);
    assert_eq!(d.deserialize_u8().unwrap(), 7);
    assert_eq!(d.deserialize_u16().unwrap(), 65500);
    assert_eq!(d.deserialize_u32().unwrap(), 42);
}

#[test]
fn deserializer_switches_endianness() {
    let input = vec![0xdc, 0xff];
    let mut d = Deserializer::new(input, &RepresentationFormat::CdrBe, SizeLimit::Infinite);
    d.set_representation_format(&RepresentationFormat::CdrLe);
    assert_eq!(d.deserialize_u16().unwrap(), 65500);
}

#[test]
fn deserializer_reset_pos_restarts_alignment() {
    // After one byte the position is odd; resetting it makes the next
    // 16-bit read start immediately, with no padding skipped.
    let input = vec![0x01, 0xff, 0xdc];
    let mut d = Deserializer::new(input, &RepresentationFormat::CdrBe, SizeLimit::Infinite);
    assert_eq!(d.deserialize_u8().unwrap(), 1);
    d.reset_pos();
    assert_eq!(d.deserialize_u16().unwrap(), 65500);
}

#[test]
fn deserializer_padding_and_sizes() {
    let input = vec![0x01, 0x00, 0xff, 0xdc];
    let mut d = Deserializer::new(input, &RepresentationFormat::CdrBe, SizeLimit::Bounded(4));
    assert_eq!(d.deserialize_u8().unwrap(), 1);
    d.read_padding_of(2).unwrap();
    assert_eq!(d.deserialize_u16().unwrap(), 65500);
    let mut short = Deserializer::new(vec![0x01], &RepresentationFormat::CdrBe, SizeLimit::Bounded(1));
    assert_eq!(short.deserialize_u8().unwrap(), 1);
    assert_eq!(short.read_size(1).unwrap_err(), Error::SizeLimit);
    let mut sized = Deserializer::new(vec![], &RepresentationFormat::CdrBe, SizeLimit::Bounded(8));
    sized.read_size_of(8).unwrap();
    assert_eq!(sized.read_size_of(1).unwrap_err(), Error::SizeLimit);
}

#[test]
fn utf8_char_width_table() {
    assert_eq!(utf8_char_width(0x41), 1);
    assert_eq!(utf8_char_width(0x7f), 1);
    assert_eq!(utf8_char_width(0x80), 0);
    assert_eq!(utf8_char_width(0xc1), 0);
    assert_eq!(utf8_char_width(0xc3), 2);
    assert_eq!(utf8_char_width(0xe2), 3);
    assert_eq!(utf8_char_width(0xf0), 4);
    assert_eq!(utf8_char_width(0xf5), 0);
}

#[test]
fn nested_structures_round_trip() {
    let v = CdrValue::Struct(vec![
        CdrValue::Sequence(vec![
            CdrValue::Struct(vec![CdrValue::U8(1), CdrValue::I32(-2)]),
            CdrValue::Struct(vec![CdrValue::U8(3), CdrValue::I32(-4)]),
        ]),
        CdrValue::Array(vec![
            CdrValue::Str(String::from("a")),
            CdrValue::Str(String::from("bc")),
        ]),
    ]);
    let shape = CdrShape::Struct(vec![
        CdrShape::Sequence(Box::new(CdrShape::Struct(vec![CdrShape::U8, CdrShape::I32]))),
        CdrShape::Array(2, Box::new(CdrShape::Str)),
    ]);
    for format in [
        RepresentationFormat::CdrBe,
        RepresentationFormat::CdrLe,
        RepresentationFormat::PlCdrBe,
        RepresentationFormat::PlCdrLe,
    ] {
        let bytes = serialize(&v, format, SizeLimit::Infinite).unwrap();
        assert_eq!(calc_serialized_size(&v), bytes.len());
        assert_eq!(deserialize(&bytes, &shape).unwrap(), v);
    }
}

#[test]
fn wide_char_is_truncated_on_encode_and_rejected_on_decode() {
    // The codec's character type carries single-byte code points only:
    // encoding writes exactly one byte, and decoding rejects a leading
    // byte that announces a multi-byte sequence.
    let bytes = serialize(
        &CdrValue::Char('é'),
        RepresentationFormat::CdrBe,
        SizeLimit::Infinite,
    )
    .unwrap();
    assert_eq!(bytes.len(), 5);
    assert_eq!(bytes[4], 'é' as u8);
    assert_eq!(
        deserialize(&bytes, &CdrShape::Char).unwrap_err(),
        Error::InvalidCharEncoding
    );
}

#[test]
fn deserializer_reads_strings_and_buffers() {
    let input = vec![0x00, 0x00, 0x00, 0x03, 0x41, 0x42, 0x00];
    let mut d = Deserializer::new(input, &RepresentationFormat::CdrBe, SizeLimit::Infinite);
    assert_eq!(d.read_string().unwrap(), "AB");
    let input = vec![0x02, 0x00, 0x00, 0x00, 0x09, 0x08];
    let mut d = Deserializer::new(input, &RepresentationFormat::CdrLe, SizeLimit::Infinite);
    assert_eq!(d.read_vec().unwrap(), vec![0x09, 0x08]);
}

#[test]
fn calc_serialized_size_of_primitives() {
    assert_eq!(calc_serialized_size(&CdrValue::U8(1)), 5);
    assert_eq!(calc_serialized_size(&CdrValue::U16(1)), 6);
    assert_eq!(calc_serialized_size(&CdrValue::U32(1)), 8);
    assert_eq!(calc_serialized_size(&CdrValue::U64(1)), 12);
    assert_eq!(calc_serialized_size(&CdrValue::Str(String::from("AB"))), 11);
    assert_eq!(
        calc_serialized_size(&CdrValue::Sequence(vec![CdrValue::U8(1), CdrValue::U8(2)])),
        10
    );
}
