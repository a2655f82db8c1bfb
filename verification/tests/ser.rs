use ispf::{
    str_lv16, str_lv8, to_bytes, to_bytes_le, vec_lv8, vec_lv8b, Error, FieldCodec, LittleEndian,
    NumSer, Serializer, Value, Width,
};

fn u8_field() -> FieldCodec {
    FieldCodec::Primitive(Width::W8)
}

fn u16_field() -> FieldCodec {
    FieldCodec::Primitive(Width::W16)
}

fn u32_field() -> FieldCodec {
    FieldCodec::Primitive(Width::W32)
}

fn u64_field() -> FieldCodec {
    FieldCodec::Primitive(Width::W64)
}

/// `Version { size: u32, typ: u8, tag: u16, msize: u32, version: String }`
/// with the given framing of `version`.
fn version_schema(version: FieldCodec) -> FieldCodec {
    FieldCodec::Nested(vec![u32_field(), u8_field(), u16_field(), u32_field(), version])
}

fn version_value() -> Value<'static> {
    Value::Record(vec![
        Value::U32(47),
        Value::U8(9),
        Value::U16(15),
        Value::U32(99),
        Value::Str("muffin".into()),
    ])
}

/// `Dirent { offset: u64, typ: u8, name: String }` with `name` under a
/// 16-bit length.
fn dirent_schema() -> FieldCodec {
    FieldCodec::Nested(vec![u64_field(), u8_field(), FieldCodec::PrefixString(Width::W16)])
}

fn dirent(offset: u64, typ: u8, name: &'static str) -> Value<'static> {
    Value::Record(vec![Value::U64(offset), Value::U8(typ), Value::Str(name.into())])
}

/// `Rreaddir { size: u32, typ: u8, tag: u16, data: Vec<Dirent> }` with the
/// given framing of `data`.
fn rreaddir_schema(data: FieldCodec) -> FieldCodec {
    FieldCodec::Nested(vec![u32_field(), u8_field(), u16_field(), data])
}

fn rreaddir_value() -> Value<'static> {
    Value::Record(vec![
        Value::U32(47),
        Value::U8(9),
        Value::U16(15),
        Value::List(vec![dirent(37, 2, "blueberry"), dirent(73, 9, "muffin")]),
    ])
}

fn dirent_bytes() -> Vec<u8> {
    vec![
        // .1
        37, 0, 0, 0, 0, 0, 0, 0,                              // offset
        2,                                                    // typ
        9, 0,                                                 // name.len
        b'b', b'l', b'u', b'e', b'b', b'e', b'r', b'r', b'y', // name

        // .2
        73, 0, 0, 0, 0, 0, 0, 0,            // offset
        9,                                  // typ
        6, 0,                               // name.len
        b'm', b'u', b'f', b'f', b'i', b'n', //name
    ]
}

#[test]
fn ser_test_struct_lv() {
    let v = version_value();

    let expected = vec![
        47, 0, 0, 0,
        9,
        15, 0,
        99, 0, 0, 0,
        b'm', b'u', b'f', b'f', b'i', b'n', b'\0',
    ];

    assert_eq!(to_bytes_le(&version_schema(FieldCodec::NullString), &v).unwrap(), expected);
}

#[test]
fn ser_test_struct_str_lv8() {
    let v = version_value();

    let expected = vec![
        47, 0, 0, 0,
        9,
        15, 0,
        99, 0, 0, 0,
        6,
        b'm', b'u', b'f', b'f', b'i', b'n',
    ];

    assert_eq!(
        to_bytes_le(&version_schema(FieldCodec::PrefixString(Width::W8)), &v).unwrap(),
        expected
    );
}

#[test]
fn ser_test_struct_str_lv16() {
    let v = version_value();

    let expected = vec![
        47, 0, 0, 0,
        9,
        15, 0,
        99, 0, 0, 0,
        6, 0,
        b'm', b'u', b'f', b'f', b'i', b'n',
    ];

    assert_eq!(
        to_bytes_le(&version_schema(FieldCodec::PrefixString(Width::W16)), &v).unwrap(),
        expected
    );
}

#[test]
fn ser_test_struct_str_lv32() {
    let v = version_value();

    let expected = vec![
        47, 0, 0, 0,
        9,
        15, 0,
        99, 0, 0, 0,
        6, 0, 0, 0,
        b'm', b'u', b'f', b'f', b'i', b'n',
    ];

    assert_eq!(
        to_bytes_le(&version_schema(FieldCodec::PrefixString(Width::W32)), &v).unwrap(),
        expected
    );
}

#[test]
fn ser_test_struct_str_lv64() {
    let v = version_value();

    let expected = vec![
        47, 0, 0, 0,
        9,
        15, 0,
        99, 0, 0, 0,
        6, 0, 0, 0, 0, 0, 0, 0,
        b'm', b'u', b'f', b'f', b'i', b'n',
    ];

    assert_eq!(
        to_bytes_le(&version_schema(FieldCodec::PrefixString(Width::W64)), &v).unwrap(),
        expected
    );
}

#[test]
fn test_nested_struct() {
    // Version { .., version: String (64-bit length), info: Info }
    // Info { typ: u8, version: u32, path: u64 }
    let schema = FieldCodec::Nested(vec![
        u32_field(),
        u8_field(),
        u16_field(),
        u32_field(),
        FieldCodec::PrefixString(Width::W64),
        FieldCodec::Nested(vec![u8_field(), u32_field(), u64_field()]),
    ]);

    let v = Value::Record(vec![
        Value::U32(47),
        Value::U8(9),
        Value::U16(15),
        Value::U32(99),
        Value::Str("muffin".into()),
        Value::Record(vec![Value::U8(3), Value::U32(12345), Value::U64(678910)]),
    ]);

    let expected = vec![
        47, 0, 0, 0,
        9,
        15, 0,
        99, 0, 0, 0,
        6, 0, 0, 0, 0, 0, 0, 0,
        b'm', b'u', b'f', b'f', b'i', b'n',
        3,
        57, 48, 0, 0,
        254, 91, 10, 0, 0, 0, 0, 0,
    ];

    assert_eq!(to_bytes_le(&schema, &v).unwrap(), expected);
}

fn with_dirents(head: &[u8]) -> Vec<u8> {
    let mut expected = head.to_vec();
    expected.extend_from_slice(&dirent_bytes());
    expected
}

#[test]
fn ser_test_struct_vec_lv8() {
    let r = rreaddir_value();

    let expected = with_dirents(&[
        47, 0, 0, 0,
        9,
        15, 0,
        2, // len
    ]);

    let schema = rreaddir_schema(FieldCodec::CountSeq(Width::W8, Box::new(dirent_schema())));
    assert_eq!(to_bytes_le(&schema, &r).unwrap(), expected);
}

#[test]
fn ser_test_struct_vec_lv16() {
    let r = rreaddir_value();

    let expected = with_dirents(&[
        47, 0, 0, 0,
        9,
        15, 0,
        2, 0, // len
    ]);

    let schema = rreaddir_schema(FieldCodec::CountSeq(Width::W16, Box::new(dirent_schema())));
    assert_eq!(to_bytes_le(&schema, &r).unwrap(), expected);
}

#[test]
fn ser_test_struct_vec_lv32() {
    let r = rreaddir_value();

    let expected = with_dirents(&[
        47, 0, 0, 0,
        9,
        15, 0,
        2, 0, 0, 0, // len
    ]);

    let schema = rreaddir_schema(FieldCodec::CountSeq(Width::W32, Box::new(dirent_schema())));
    assert_eq!(to_bytes_le(&schema, &r).unwrap(), expected);
}

#[test]
fn ser_test_struct_vec_lv64() {
    let r = rreaddir_value();

    let expected = with_dirents(&[
        47, 0, 0, 0,
        9,
        15, 0,
        2, 0, 0, 0, 0, 0, 0, 0, // len
    ]);

    let schema = rreaddir_schema(FieldCodec::CountSeq(Width::W64, Box::new(dirent_schema())));
    assert_eq!(to_bytes_le(&schema, &r).unwrap(), expected);
}

#[test]
fn ser_struct_vec_byte_budget_all_widths() {
    let r = rreaddir_value();
    let heads: [(Width, &[u8]); 4] = [
        (Width::W8, &[47, 0, 0, 0, 9, 15, 0, 37]),
        (Width::W16, &[47, 0, 0, 0, 9, 15, 0, 37, 0]),
        (Width::W32, &[47, 0, 0, 0, 9, 15, 0, 37, 0, 0, 0]),
        (Width::W64, &[47, 0, 0, 0, 9, 15, 0, 37, 0, 0, 0, 0, 0, 0, 0]),
    ];
    for (width, head) in heads {
        let schema = rreaddir_schema(FieldCodec::BudgetSeq(width, Box::new(dirent_schema())));
        assert_eq!(to_bytes_le(&schema, &r).unwrap(), with_dirents(head));
    }
}

#[test]
fn to_bytes_with_explicit_byte_order_matches_little_endian_entry_point() {
    let schema = version_schema(FieldCodec::PrefixString(Width::W16));
    let v = version_value();
    assert_eq!(
        to_bytes::<LittleEndian>(&schema, &v).unwrap(),
        to_bytes_le(&schema, &v).unwrap()
    );
}

#[test]
fn little_endian_lays_least_significant_byte_first() {
    assert_eq!(<LittleEndian as NumSer>::serialize_u16(0x1234), [0x34, 0x12]);
    assert_eq!(<LittleEndian as NumSer>::serialize_u16(15), [15, 0]);
    assert_eq!(<LittleEndian as NumSer>::serialize_u16(u16::MAX), [0xff, 0xff]);
    assert_eq!(<LittleEndian as NumSer>::serialize_u32(12345), [57, 48, 0, 0]);
    assert_eq!(<LittleEndian as NumSer>::serialize_u32(0x1234_5678), [0x78, 0x56, 0x34, 0x12]);
    assert_eq!(<LittleEndian as NumSer>::serialize_u32(u32::MAX), [0xff; 4]);
    assert_eq!(
        <LittleEndian as NumSer>::serialize_u64(678910),
        [254, 91, 10, 0, 0, 0, 0, 0]
    );
    assert_eq!(
        <LittleEndian as NumSer>::serialize_u64(0x0102_0304_0506_0708),
        [8, 7, 6, 5, 4, 3, 2, 1]
    );
    assert_eq!(<LittleEndian as NumSer>::serialize_u64(u64::MAX), [0xff; 8]);
    assert_eq!(<LittleEndian as NumSer>::serialize_u64(0), [0; 8]);
}

#[test]
fn little_endian_agrees_with_the_standard_library() {
    for v in [0u64, 1, 255, 256, 65535, 65536, 0xdead_beef, u64::MAX - 1, u64::MAX] {
        assert_eq!(<LittleEndian as NumSer>::serialize_u64(v), v.to_le_bytes());
        assert_eq!(<LittleEndian as NumSer>::serialize_u32(v as u32), (v as u32).to_le_bytes());
        assert_eq!(<LittleEndian as NumSer>::serialize_u16(v as u16), (v as u16).to_le_bytes());
    }
}

#[test]
fn serializer_appends_primitives_in_call_order() {
    let mut s = Serializer::<LittleEndian>::new();
    s.serialize_u32(47);
    s.serialize_u8(9);
    s.serialize_u16(15);
    s.serialize_u64(1);
    assert_eq!(s.into_bytes(), vec![47, 0, 0, 0, 9, 15, 0, 1, 0, 0, 0, 0, 0, 0, 0]);
}

#[test]
fn serializer_starts_empty() {
    assert_eq!(Serializer::<LittleEndian>::new().into_bytes(), Vec::<u8>::new());
}

#[test]
fn serialize_str_appends_utf8_and_one_zero_byte() {
    let mut s = Serializer::<LittleEndian>::new();
    s.serialize_str("muffin");
    s.serialize_str("");
    s.serialize_str("é");
    assert_eq!(
        s.into_bytes(),
        vec![b'm', b'u', b'f', b'f', b'i', b'n', 0, 0, 0xc3, 0xa9, 0]
    );
}

#[test]
fn serialize_bytes_appends_the_payload_as_it_is() {
    let mut s = Serializer::<LittleEndian>::new();
    s.serialize_u8(7);
    s.serialize_bytes(&[1, 0, 255]);
    s.serialize_bytes(&[]);
    assert_eq!(s.into_bytes(), vec![7, 1, 0, 255]);
}

#[test]
fn serialize_size_writes_each_width() {
    let mut s = Serializer::<LittleEndian>::new();
    assert_eq!(s.serialize_size(Width::W8, 6), Ok(()));
    assert_eq!(s.serialize_size(Width::W16, 6), Ok(()));
    assert_eq!(s.serialize_size(Width::W32, 6), Ok(()));
    assert_eq!(s.serialize_size(Width::W64, 6), Ok(()));
    assert_eq!(s.into_bytes(), vec![6, 6, 0, 6, 0, 0, 0, 6, 0, 0, 0, 0, 0, 0, 0]);
}

#[test]
fn serialize_size_overflow_writes_nothing() {
    let mut s = Serializer::<LittleEndian>::new();
    s.serialize_u8(1);
    assert_eq!(s.serialize_size(Width::W8, 256), Err(Error::Overflow));
    assert_eq!(s.serialize_size(Width::W16, 65536), Err(Error::Overflow));
    assert_eq!(s.serialize_size(Width::W8, 255), Ok(()));
    assert_eq!(s.serialize_size(Width::W16, 65535), Ok(()));
    assert_eq!(s.into_bytes(), vec![1, 255, 255, 255]);
}

#[test]
fn str_policy_modules_write_length_then_bytes() {
    let mut s = Serializer::<LittleEndian>::new();
    assert_eq!(str_lv8::serialize("muffin", &mut s), Ok(()));
    assert_eq!(str_lv16::serialize("", &mut s), Ok(()));
    assert_eq!(
        s.into_bytes(),
        vec![6, b'm', b'u', b'f', b'f', b'i', b'n', 0, 0]
    );
}

#[test]
fn length_prefix_counts_utf8_bytes_not_characters() {
    let mut s = Serializer::<LittleEndian>::new();
    assert_eq!(s.serialize_tlv_string(Width::W8, "héé"), Ok(()));
    assert_eq!(s.into_bytes(), vec![5, b'h', 0xc3, 0xa9, 0xc3, 0xa9]);
}

#[test]
fn vec_policy_modules_write_count_or_budget() {
    let items = vec![Value::U16(1), Value::U16(2), Value::U16(3)];
    let mut counted = Serializer::<LittleEndian>::new();
    assert_eq!(vec_lv8::serialize(&items, &u16_field(), &mut counted), Ok(()));
    assert_eq!(counted.into_bytes(), vec![3, 1, 0, 2, 0, 3, 0]);

    let mut budgeted = Serializer::<LittleEndian>::new();
    assert_eq!(vec_lv8b::serialize(&items, &u16_field(), &mut budgeted), Ok(()));
    assert_eq!(budgeted.into_bytes(), vec![6, 1, 0, 2, 0, 3, 0]);
}

#[test]
fn owned_and_borrowed_strings_encode_alike() {
    let owned = Value::Str(std::borrow::Cow::Owned(String::from("muffin")));
    let borrowed = Value::Str(std::borrow::Cow::Borrowed("muffin"));
    for codec in [FieldCodec::NullString, FieldCodec::PrefixString(Width::W16)] {
        assert_eq!(to_bytes_le(&codec, &owned), to_bytes_le(&codec, &borrowed));
    }
    assert_eq!(
        to_bytes_le(&FieldCodec::NullString, &owned).unwrap(),
        vec![b'm', b'u', b'f', b'f', b'i', b'n', 0]
    );
}

#[test]
fn empty_sequence_is_only_its_prefix() {
    let empty = Value::List(vec![]);
    let counted = FieldCodec::CountSeq(Width::W16, Box::new(u32_field()));
    let budgeted = FieldCodec::BudgetSeq(Width::W32, Box::new(u32_field()));
    assert_eq!(to_bytes_le(&counted, &empty).unwrap(), vec![0, 0]);
    assert_eq!(to_bytes_le(&budgeted, &empty).unwrap(), vec![0, 0, 0, 0]);
}

#[test]
fn empty_record_takes_no_bytes() {
    let schema = FieldCodec::Nested(vec![]);
    assert_eq!(to_bytes_le(&schema, &Value::Record(vec![])).unwrap(), Vec::<u8>::new());
}

#[test]
fn nested_record_adds_no_framing() {
    let flat = FieldCodec::Nested(vec![u8_field(), u16_field(), u8_field()]);
    let nested = FieldCodec::Nested(vec![
        u8_field(),
        FieldCodec::Nested(vec![u16_field(), u8_field()]),
    ]);
    let flat_value = Value::Record(vec![Value::U8(1), Value::U16(2), Value::U8(3)]);
    let nested_value = Value::Record(vec![
        Value::U8(1),
        Value::Record(vec![Value::U16(2), Value::U8(3)]),
    ]);
    assert_eq!(
        to_bytes_le(&flat, &flat_value).unwrap(),
        to_bytes_le(&nested, &nested_value).unwrap()
    );
    assert_eq!(to_bytes_le(&flat, &flat_value).unwrap(), vec![1, 2, 0, 3]);
}

#[test]
fn sequence_of_sequences_and_strings() {
    let schema = FieldCodec::CountSeq(
        Width::W8,
        Box::new(FieldCodec::BudgetSeq(Width::W8, Box::new(FieldCodec::NullString))),
    );
    let value = Value::List(vec![
        Value::List(vec![Value::Str("ab".into()), Value::Str("c".into())]),
        Value::List(vec![]),
    ]);
    assert_eq!(
        to_bytes_le(&schema, &value).unwrap(),
        vec![2, 5, b'a', b'b', 0, b'c', 0, 0]
    );
}

#[test]
fn value_of_another_kind_than_the_codec_is_unsupported() {
    assert_eq!(to_bytes_le(&u8_field(), &Value::U16(1)), Err(Error::UnsupportedShape));
    assert_eq!(to_bytes_le(&u16_field(), &Value::U8(1)), Err(Error::UnsupportedShape));
    assert_eq!(
        to_bytes_le(&FieldCodec::NullString, &Value::U8(1)),
        Err(Error::UnsupportedShape)
    );
    assert_eq!(
        to_bytes_le(&FieldCodec::PrefixString(Width::W8), &Value::List(vec![])),
        Err(Error::UnsupportedShape)
    );
    assert_eq!(
        to_bytes_le(&FieldCodec::CountSeq(Width::W8, Box::new(u8_field())), &Value::Record(vec![])),
        Err(Error::UnsupportedShape)
    );
    assert_eq!(
        to_bytes_le(&FieldCodec::Nested(vec![]), &Value::List(vec![])),
        Err(Error::UnsupportedShape)
    );
}

#[test]
fn record_with_wrong_number_of_fields_is_unsupported() {
    let schema = FieldCodec::Nested(vec![u8_field(), u8_field()]);
    assert_eq!(
        to_bytes_le(&schema, &Value::Record(vec![Value::U8(1)])),
        Err(Error::UnsupportedShape)
    );
    assert_eq!(
        to_bytes_le(&schema, &Value::Record(vec![Value::U8(1), Value::U8(2), Value::U8(3)])),
        Err(Error::UnsupportedShape)
    );
}

#[test]
fn first_failing_field_decides_the_error() {
    let schema = FieldCodec::Nested(vec![
        FieldCodec::PrefixString(Width::W8),
        u8_field(),
    ]);
    let long = "x".repeat(256);
    let value = Value::Record(vec![Value::Str(long.into()), Value::U16(1)]);
    assert_eq!(to_bytes_le(&schema, &value), Err(Error::Overflow));

    let schema = FieldCodec::Nested(vec![
        u8_field(),
        FieldCodec::PrefixString(Width::W8),
    ]);
    let value = Value::Record(vec![Value::U16(1), Value::Str("x".repeat(256).into())]);
    assert_eq!(to_bytes_le(&schema, &value), Err(Error::UnsupportedShape));
}

#[test]
fn count_overflow_comes_before_element_failures() {
    let schema = FieldCodec::CountSeq(Width::W8, Box::new(u8_field()));
    let mut items: Vec<Value> = (0..256).map(|_| Value::U8(0)).collect();
    items[0] = Value::U16(0);
    assert_eq!(to_bytes_le(&schema, &Value::List(items)), Err(Error::Overflow));
}

#[test]
fn budget_overflow_comes_after_element_failures() {
    let schema = FieldCodec::BudgetSeq(Width::W8, Box::new(u8_field()));
    let items: Vec<Value> = (0..256).map(|_| Value::U8(0)).collect();
    assert_eq!(to_bytes_le(&schema, &Value::List(items)), Err(Error::Overflow));
    let mut items: Vec<Value> = (0..256).map(|_| Value::U8(0)).collect();
    items[0] = Value::U16(0);
    assert_eq!(to_bytes_le(&schema, &Value::List(items)), Err(Error::UnsupportedShape));
}
