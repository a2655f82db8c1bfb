use ispf::{
    from_bytes_le, to_bytes_le, DecodeMode, Deserializer, Error, FieldCodec, LittleEndian,
    NumDe, NumSer, Serializer, Value, Width,
};

const WIDTHS: [Width; 4] = [Width::W8, Width::W16, Width::W32, Width::W64];

fn prefix_len(width: Width) -> usize {
    match width {
        Width::W8 => 1,
        Width::W16 => 2,
        Width::W32 => 4,
        Width::W64 => 8,
    }
}

fn string_codecs() -> Vec<FieldCodec> {
    let mut all = vec![FieldCodec::NullString];
    for width in WIDTHS {
        all.push(FieldCodec::PrefixString(width));
    }
    all
}

fn sequence_codecs(inner: fn() -> FieldCodec) -> Vec<FieldCodec> {
    let mut all = Vec::new();
    for width in WIDTHS {
        all.push(FieldCodec::CountSeq(width, Box::new(inner())));
        all.push(FieldCodec::BudgetSeq(width, Box::new(inner())));
    }
    all
}

fn round_trips(codec: &FieldCodec, value: &Value) {
    let bytes = to_bytes_le(codec, value).unwrap();
    assert_eq!(from_bytes_le(codec, &bytes, DecodeMode::Strict).as_ref(), Ok(value));
    assert_eq!(from_bytes_le(codec, &bytes, DecodeMode::Lenient).as_ref(), Ok(value));
}

#[test]
fn round_trip_of_integers() {
    for v in [0u64, 1, 0x7f, 0x80, 0xff, 0x100, 0xffff, 0x1_0000, 0xffff_ffff, u64::MAX] {
        round_trips(&FieldCodec::Primitive(Width::W8), &Value::U8(v as u8));
        round_trips(&FieldCodec::Primitive(Width::W16), &Value::U16(v as u16));
        round_trips(&FieldCodec::Primitive(Width::W32), &Value::U32(v as u32));
        round_trips(&FieldCodec::Primitive(Width::W64), &Value::U64(v));
    }
}

#[test]
fn round_trip_of_byte_order_pairs() {
    for v in [0u64, 1, 0x0102, 0x0102_0304, 0x0102_0304_0506_0708, u64::MAX] {
        assert_eq!(
            <LittleEndian as NumDe>::deserialize_u16(<LittleEndian as NumSer>::serialize_u16(
                v as u16
            )),
            v as u16
        );
        assert_eq!(
            <LittleEndian as NumDe>::deserialize_u32(<LittleEndian as NumSer>::serialize_u32(
                v as u32
            )),
            v as u32
        );
        assert_eq!(
            <LittleEndian as NumDe>::deserialize_u64(<LittleEndian as NumSer>::serialize_u64(v)),
            v
        );
    }
}

#[test]
fn round_trip_of_strings_under_every_policy() {
    for codec in string_codecs() {
        for text in ["", "muffin", "blueberry", "é", "日本語", "a\u{10348}b"] {
            round_trips(&codec, &Value::Str(text.into()));
        }
    }
}

#[test]
fn round_trip_of_sequences_under_every_policy() {
    for codec in sequence_codecs(|| FieldCodec::Primitive(Width::W16)) {
        round_trips(&codec, &Value::List(vec![]));
        round_trips(&codec, &Value::List(vec![Value::U16(7)]));
        round_trips(
            &codec,
            &Value::List((0..100).map(|i| Value::U16(i * 600)).collect()),
        );
    }
}

#[test]
fn round_trip_of_string_sequences_under_every_policy_pair() {
    for string in string_codecs() {
        for width in WIDTHS {
            for budget in [false, true] {
                let inner = match &string {
                    FieldCodec::NullString => FieldCodec::NullString,
                    FieldCodec::PrefixString(w) => FieldCodec::PrefixString(*w),
                    _ => unreachable!(),
                };
                let codec = if budget {
                    FieldCodec::BudgetSeq(width, Box::new(inner))
                } else {
                    FieldCodec::CountSeq(width, Box::new(inner))
                };
                let value = Value::List(vec![
                    Value::Str("blueberry".into()),
                    Value::Str("".into()),
                    Value::Str("muffin".into()),
                ]);
                round_trips(&codec, &value);
            }
        }
    }
}

#[test]
fn round_trip_of_nested_records() {
    let dirent = || {
        FieldCodec::Nested(vec![
            FieldCodec::Primitive(Width::W64),
            FieldCodec::Primitive(Width::W8),
            FieldCodec::PrefixString(Width::W16),
        ])
    };
    let codec = FieldCodec::Nested(vec![
        FieldCodec::Primitive(Width::W32),
        FieldCodec::NullString,
        FieldCodec::Nested(vec![
            FieldCodec::Primitive(Width::W8),
            FieldCodec::Nested(vec![]),
            FieldCodec::BudgetSeq(Width::W16, Box::new(dirent())),
        ]),
        FieldCodec::CountSeq(
            Width::W8,
            Box::new(FieldCodec::CountSeq(Width::W8, Box::new(dirent()))),
        ),
    ]);
    let entry = |offset: u64, typ: u8, name: &'static str| {
        Value::Record(vec![Value::U64(offset), Value::U8(typ), Value::Str(name.into())])
    };
    let value = Value::Record(vec![
        Value::U32(0xdead_beef),
        Value::Str("header".into()),
        Value::Record(vec![
            Value::U8(1),
            Value::Record(vec![]),
            Value::List(vec![entry(37, 2, "blueberry"), entry(73, 9, "muffin")]),
        ]),
        Value::List(vec![
            Value::List(vec![entry(1, 1, "a")]),
            Value::List(vec![]),
            Value::List(vec![entry(2, 2, ""), entry(u64::MAX, 255, "ü")]),
        ]),
    ]);
    round_trips(&codec, &value);
}

#[test]
fn round_trip_of_the_example_record() {
    let codec = FieldCodec::Nested(vec![
        FieldCodec::Primitive(Width::W32),
        FieldCodec::Primitive(Width::W8),
        FieldCodec::Primitive(Width::W16),
        FieldCodec::Primitive(Width::W32),
        FieldCodec::PrefixString(Width::W64),
    ]);
    let v = Value::Record(vec![
        Value::U32(47),
        Value::U8(9),
        Value::U16(15),
        Value::U32(99),
        Value::Str("muffin".into()),
    ]);
    let out = to_bytes_le(&codec, &v).unwrap();
    assert_eq!(
        out,
        vec![
            47, 0, 0, 0, 9, 15, 0, 99, 0, 0, 0, 6, 0, 0, 0, 0, 0, 0, 0, 109, 117, 102, 102, 105,
            110
        ]
    );
    let full_circle = from_bytes_le(&codec, out.as_slice(), DecodeMode::Strict).unwrap();
    assert_eq!(v, full_circle);
}

#[test]
fn null_terminated_string_with_a_zero_inside_does_not_round_trip() {
    let codec = FieldCodec::NullString;
    let value = Value::Str("a\0b".into());
    let bytes = to_bytes_le(&codec, &value).unwrap();
    assert_eq!(bytes, vec![b'a', 0, b'b', 0]);
    assert_eq!(from_bytes_le(&codec, &bytes, DecodeMode::Strict), Err(Error::TrailingBytes));
    assert_eq!(
        from_bytes_le(&codec, &bytes, DecodeMode::Lenient),
        Ok(Value::Str("a".into()))
    );
    // under a length prefix the same string is carried whole
    round_trips(&FieldCodec::PrefixString(Width::W8), &value);
}

#[test]
fn budgeted_sequence_of_empty_records_does_not_round_trip() {
    let codec = FieldCodec::BudgetSeq(Width::W8, Box::new(FieldCodec::Nested(vec![])));
    let value = Value::List(vec![Value::Record(vec![]), Value::Record(vec![])]);
    let bytes = to_bytes_le(&codec, &value).unwrap();
    assert_eq!(bytes, vec![0]);
    assert_eq!(from_bytes_le(&codec, &bytes, DecodeMode::Strict), Ok(Value::List(vec![])));
    // under a count the same sequence is carried whole
    round_trips(
        &FieldCodec::CountSeq(Width::W8, Box::new(FieldCodec::Nested(vec![]))),
        &value,
    );
}

#[test]
fn prefix_width_8_boundary() {
    let codec = FieldCodec::PrefixString(Width::W8);
    let fits = Value::Str("x".repeat(255).into());
    let bytes = to_bytes_le(&codec, &fits).unwrap();
    assert_eq!(bytes.len(), 256);
    assert_eq!(bytes[0], 255);
    assert_eq!(from_bytes_le(&codec, &bytes, DecodeMode::Strict), Ok(fits));

    let too_long = Value::Str("x".repeat(256).into());
    assert_eq!(to_bytes_le(&codec, &too_long), Err(Error::Overflow));
}

#[test]
fn prefix_width_16_boundary() {
    let codec = FieldCodec::PrefixString(Width::W16);
    let fits = Value::Str("y".repeat(65535).into());
    let bytes = to_bytes_le(&codec, &fits).unwrap();
    assert_eq!(bytes.len(), 65537);
    assert_eq!(&bytes[..2], &[0xff, 0xff]);
    assert_eq!(from_bytes_le(&codec, &bytes, DecodeMode::Strict), Ok(fits));

    let too_long = Value::Str("y".repeat(65536).into());
    assert_eq!(to_bytes_le(&codec, &too_long), Err(Error::Overflow));
}

#[test]
fn wider_prefixes_hold_what_narrower_ones_cannot() {
    let text = Value::Str("z".repeat(65536).into());
    for width in [Width::W32, Width::W64] {
        let codec = FieldCodec::PrefixString(width);
        let bytes = to_bytes_le(&codec, &text).unwrap();
        assert_eq!(bytes.len(), 65536 + prefix_len(width));
        assert_eq!(&bytes[..4], &[0, 0, 1, 0]);
        assert_eq!(from_bytes_le(&codec, &bytes, DecodeMode::Strict).as_ref(), Ok(&text));
    }
}

#[test]
fn prefix_boundary_counts_bytes_of_multibyte_text() {
    // 127 two-byte characters and one more byte make 255 bytes
    let fits = format!("{}a", "é".repeat(127));
    assert_eq!(fits.len(), 255);
    let mut s = Serializer::<LittleEndian>::new();
    assert_eq!(s.serialize_tlv_string(Width::W8, &fits), Ok(()));
    let bytes = s.into_bytes();
    let mut d = Deserializer::<LittleEndian>::from_bytes(&bytes);
    assert_eq!(d.read_tlv_string(Width::W8), Ok(fits.as_str()));

    // 128 two-byte characters make 256 bytes in 128 characters
    let too_long = "é".repeat(128);
    let mut s = Serializer::<LittleEndian>::new();
    assert_eq!(s.serialize_tlv_string(Width::W8, &too_long), Err(Error::Overflow));
    assert_eq!(s.into_bytes(), Vec::<u8>::new());
}

#[test]
fn count_boundary_of_sequences() {
    let codec = FieldCodec::CountSeq(Width::W8, Box::new(FieldCodec::Primitive(Width::W8)));
    let fits = Value::List((0..255).map(|i| Value::U8(i as u8)).collect());
    round_trips(&codec, &fits);
    let too_many = Value::List((0..256).map(|i| Value::U8(i as u8)).collect());
    assert_eq!(to_bytes_le(&codec, &too_many), Err(Error::Overflow));
}

#[test]
fn budget_boundary_of_sequences() {
    let codec = FieldCodec::BudgetSeq(Width::W8, Box::new(FieldCodec::Primitive(Width::W16)));
    // 127 elements take 254 bytes, 128 take 256
    let fits = Value::List((0..127).map(Value::U16).collect());
    round_trips(&codec, &fits);
    let too_many = Value::List((0..128).map(Value::U16).collect());
    assert_eq!(to_bytes_le(&codec, &too_many), Err(Error::Overflow));
    // by count the same elements fit
    let counted = FieldCodec::CountSeq(Width::W8, Box::new(FieldCodec::Primitive(Width::W16)));
    round_trips(&counted, &too_many);
}

#[test]
fn count_and_budget_differ_only_in_the_prefix() {
    let element = || {
        FieldCodec::Nested(vec![
            FieldCodec::Primitive(Width::W16),
            FieldCodec::Primitive(Width::W8),
        ])
    };
    let items = || {
        Value::List(
            (0..5u16)
                .map(|i| Value::Record(vec![Value::U16(i * 1000), Value::U8(i as u8)]))
                .collect(),
        )
    };
    for width in WIDTHS {
        let counted = FieldCodec::CountSeq(width, Box::new(element()));
        let budgeted = FieldCodec::BudgetSeq(width, Box::new(element()));
        let by_count = to_bytes_le(&counted, &items()).unwrap();
        let by_budget = to_bytes_le(&budgeted, &items()).unwrap();
        let n = prefix_len(width);

        assert_eq!(by_count.len(), by_budget.len());
        assert_eq!(&by_count[n..], &by_budget[n..]);
        assert_eq!(by_count[0], 5);
        assert_eq!(by_budget[0], 15);
        assert!(by_count[1..n].iter().all(|b| *b == 0));
        assert!(by_budget[1..n].iter().all(|b| *b == 0));

        let from_count = from_bytes_le(&counted, &by_count, DecodeMode::Strict).unwrap();
        let from_budget = from_bytes_le(&budgeted, &by_budget, DecodeMode::Strict).unwrap();
        assert_eq!(from_count, items());
        assert_eq!(from_count, from_budget);
    }
}

#[test]
fn trailing_byte_law_on_each_kind_of_codec() {
    let cases: Vec<(FieldCodec, Value)> = vec![
        (FieldCodec::Primitive(Width::W32), Value::U32(7)),
        (FieldCodec::NullString, Value::Str("abc".into())),
        (FieldCodec::PrefixString(Width::W16), Value::Str("abc".into())),
        (
            FieldCodec::CountSeq(Width::W8, Box::new(FieldCodec::NullString)),
            Value::List(vec![Value::Str("a".into()), Value::Str("b".into())]),
        ),
        (
            FieldCodec::BudgetSeq(Width::W8, Box::new(FieldCodec::NullString)),
            Value::List(vec![Value::Str("a".into()), Value::Str("b".into())]),
        ),
        (
            FieldCodec::Nested(vec![FieldCodec::Primitive(Width::W8), FieldCodec::NullString]),
            Value::Record(vec![Value::U8(1), Value::Str("x".into())]),
        ),
    ];
    for (codec, value) in cases {
        let exact = to_bytes_le(&codec, &value).unwrap();
        for extra in [0u8, 1, 0xff] {
            let mut longer = exact.clone();
            longer.push(extra);
            assert_eq!(
                from_bytes_le(&codec, &longer, DecodeMode::Strict),
                Err(Error::TrailingBytes)
            );
            assert_eq!(from_bytes_le(&codec, &longer, DecodeMode::Lenient).as_ref(), Ok(&value));
        }
    }
}

#[test]
fn a_failed_field_stops_the_record_whatever_follows() {
    let codecs_after: Vec<Vec<FieldCodec>> = vec![
        vec![],
        vec![FieldCodec::Primitive(Width::W8)],
        vec![FieldCodec::NullString, FieldCodec::Nested(vec![])],
    ];
    for after in codecs_after {
        let mut fields = vec![FieldCodec::Primitive(Width::W8), FieldCodec::Primitive(Width::W32)];
        fields.extend(after);
        let codec = FieldCodec::Nested(fields);
        assert_eq!(
            from_bytes_le(&codec, &[1, 2, 3, 4], DecodeMode::Lenient),
            Err(Error::UnexpectedEndOfInput)
        );
    }
}
