use pidgeon::decimal::DecimalValue;
use pidgeon::register::{
    format_hex, make_id, parse_reading, serialize_registers, DetectRegister, IdRegister, JsonField,
    Matcher, MeasurementRegister, NumericRegisterKind, ParseError, RawRegisterKind, Reading,
    RegisterKindStorage, RegisterValue, RegisterValueStorage, StringRegisterKind, Timestamp,
    finish_reading,
};

fn at() -> Timestamp {
    Timestamp { seconds: 1_700_000_000, nanoseconds: 5 }
}

fn numeric(multiplier: Option<DecimalValue>) -> NumericRegisterKind {
    NumericRegisterKind { multiplier }
}

fn value_of(kind: RegisterKindStorage, data: &[u16]) -> RegisterValueStorage {
    let reading = parse_reading(&kind, data, at()).expect("parses");
    finish_reading(reading, None).expect("finishes")
}

fn text_of(kind: RegisterKindStorage, data: &[u16]) -> String {
    value_of(kind, data).to_text()
}

#[test]
fn u16_register_reads_its_value() {
    assert_eq!(text_of(RegisterKindStorage::U16(numeric(None)), &[1234]), "1234");
}

#[test]
fn u32_register_reads_the_high_word_first() {
    assert_eq!(text_of(RegisterKindStorage::U32(numeric(None)), &[0x0001, 0x0002]), "65538");
}

#[test]
fn u64_register_reads_four_words() {
    assert_eq!(
        text_of(RegisterKindStorage::U64(numeric(None)), &[0, 0, 0x0001, 0x0000]),
        "65536"
    );
}

#[test]
fn signed_registers_read_twos_complement() {
    assert_eq!(text_of(RegisterKindStorage::S16(numeric(None)), &[0xFFFE]), "-2");
    assert_eq!(text_of(RegisterKindStorage::S32(numeric(None)), &[0xFFFF, 0xFFFD]), "-3");
}

#[test]
fn unset_registers_read_as_zero() {
    assert_eq!(text_of(RegisterKindStorage::U32(numeric(None)), &[0xFFFF, 0xFFFF]), "0");
}

#[test]
fn largest_value_of_a_kind_reads_as_zero() {
    assert_eq!(text_of(RegisterKindStorage::S16(numeric(None)), &[0x7FFF]), "0");
    assert_eq!(text_of(RegisterKindStorage::U16(numeric(None)), &[0xFFFE]), "65534");
}

#[test]
fn multiplier_scales_the_value() {
    let tenth = DecimalValue { mantissa: 1, scale: 1, negative: false };
    assert_eq!(text_of(RegisterKindStorage::U16(numeric(Some(tenth))), &[1234]), "123.4");
}

#[test]
fn decimal_text_puts_a_zero_before_a_bare_fraction() {
    let hundredth = DecimalValue { mantissa: 1, scale: 2, negative: false };
    assert_eq!(text_of(RegisterKindStorage::U16(numeric(Some(hundredth))), &[5]), "0.05");
    let half = DecimalValue { mantissa: 5, scale: 1, negative: false };
    assert_eq!(text_of(RegisterKindStorage::S16(numeric(Some(half))), &[0xFFFD]), "-1.5");
}

#[test]
fn wrong_number_of_registers_is_a_slice_length_error() {
    let kind = RegisterKindStorage::U32(numeric(None));
    assert!(matches!(parse_reading(&kind, &[1], at()), Err(ParseError::SliceLength)));
}

#[test]
fn string_register_reads_utf8_high_byte_first() {
    let kind = RegisterKindStorage::String(StringRegisterKind { length: 2 });
    let value = value_of(kind, &[0x6869, 0x2100]);
    match &value {
        RegisterValueStorage::String(v) => assert_eq!(v.value, "hi!\u{0}"),
        other => panic!("not a string {:?}", other),
    }
    assert_eq!(value.to_text(), "\"hi!\\0\"");
}

#[test]
fn invalid_utf8_is_an_error() {
    let kind = RegisterKindStorage::String(StringRegisterKind { length: 1 });
    assert!(matches!(parse_reading(&kind, &[0xFF00], at()), Err(ParseError::InvalidUtf8)));
}

#[test]
fn raw_register_keeps_its_words() {
    let kind = RegisterKindStorage::Raw(RawRegisterKind { length: 2 });
    let value = value_of(kind, &[1, 2]);
    assert_eq!(value.values(), vec![1, 2]);
    assert_eq!(value.to_text(), "Map { iter: Iter([1, 2]) }");
}

#[test]
fn float_reading_keeps_its_bits() {
    let kind = RegisterKindStorage::F32(numeric(None));
    match parse_reading(&kind, &[0x3FC0, 0x0000], at()).expect("parses") {
        Reading::Float(f) => {
            assert!(!f.wide);
            assert_eq!(f.bits, 0x3FC0_0000);
            assert_eq!(f32::from_bits(f.bits as u32), 1.5f32);
        }
        other => panic!("not a float {:?}", other),
    }
}

#[test]
fn float_without_decimal_is_a_conversion_error() {
    let kind = RegisterKindStorage::F64(numeric(None));
    let reading = parse_reading(&kind, &[0, 0, 0, 0], at()).expect("parses");
    assert!(matches!(finish_reading(reading, None), Err(ParseError::FloatConversion)));
}

#[test]
fn float_takes_its_decimal_and_multiplier() {
    let double = DecimalValue { mantissa: 2, scale: 0, negative: false };
    let kind = RegisterKindStorage::F32(numeric(Some(double)));
    let reading = parse_reading(&kind, &[0x3FC0, 0x0000], at()).expect("parses");
    let decimal = DecimalValue { mantissa: 15, scale: 1, negative: false };
    let value = finish_reading(reading, Some(decimal)).expect("finishes");
    assert_eq!(value.to_text(), "3.0");
    assert_eq!(value.timestamp(), at());
}

#[test]
fn multiplication_overflow_is_an_error() {
    let huge = DecimalValue { mantissa: 0xFFFF_FFFF_FFFF_FFFF_FFFF_FFFF, scale: 0, negative: false };
    let kind = RegisterKindStorage::U64(numeric(Some(huge)));
    let result = parse_reading(&kind, &[0x7FFF, 0xFFFF, 0xFFFF, 0xFFFE], at());
    assert!(matches!(result, Err(ParseError::Multiplication)));
}

#[test]
fn numeric_values_are_written_with_swapped_bytes() {
    let value = RegisterValueStorage::U16(RegisterValue {
        value: DecimalValue { mantissa: 0x1234, scale: 0, negative: false },
        timestamp: at(),
    });
    assert_eq!(value.values(), vec![0x3412]);
}

#[test]
fn values_that_do_not_fit_are_written_as_zero() {
    let negative = RegisterValueStorage::S16(RegisterValue {
        value: DecimalValue { mantissa: -5, scale: 0, negative: true },
        timestamp: at(),
    });
    assert_eq!(negative.values(), vec![0]);
}

#[test]
fn text_values_are_written_two_characters_per_register() {
    let value = RegisterValueStorage::String(RegisterValue { value: "ABC".to_string(), timestamp: at() });
    assert_eq!(value.values(), vec![0x4142, 0x4300]);
}

#[test]
fn detect_register_matches_exact_text() {
    let register = DetectRegister {
        address: 1,
        storage: RegisterValueStorage::U16(RegisterValue {
            value: DecimalValue { mantissa: 42, scale: 0, negative: false },
            timestamp: at(),
        }),
        matcher: Matcher::from_config("42".to_string()),
    };
    assert!(register.matches());
}

#[test]
fn detect_register_matches_a_pattern() {
    let register = DetectRegister {
        address: 1,
        storage: RegisterValueStorage::String(RegisterValue {
            value: "iEM3155".to_string(),
            timestamp: at(),
        }),
        matcher: Matcher::from_config("^\"iEM3[0-9]+\"$".to_string()),
    };
    assert!(register.matches());
    let other = DetectRegister {
        address: 1,
        storage: RegisterValueStorage::String(RegisterValue {
            value: "PM5000".to_string(),
            timestamp: at(),
        }),
        matcher: Matcher::from_config("^\"iEM3[0-9]+\"$".to_string()),
    };
    assert!(!other.matches());
}

#[test]
fn text_that_does_not_compile_is_matched_exactly() {
    let matcher = Matcher::from_config("(".to_string());
    assert!(matches!(matcher, Matcher::Exact(_)));
    assert!(matcher.accepts(&"(".to_string()));
    assert!(!matcher.accepts(&"((".to_string()));
}

#[test]
fn id_is_kind_dash_id_texts() {
    let ids = vec![
        IdRegister {
            address: 1,
            storage: RegisterValueStorage::U32(RegisterValue {
                value: DecimalValue { mantissa: 123, scale: 0, negative: false },
                timestamp: at(),
            }),
        },
        IdRegister {
            address: 3,
            storage: RegisterValueStorage::String(RegisterValue {
                value: "ab".to_string(),
                timestamp: at(),
            }),
        },
    ];
    assert_eq!(make_id(&"abb".to_string(), &ids), "abb-123\"ab\"");
    assert_eq!(make_id(&"abb".to_string(), &Vec::new()), "abb-");
}

#[test]
fn hex_is_four_uppercase_digits() {
    assert_eq!(format_hex(0x00af), "0x00AF");
    assert_eq!(format_hex(0xFFFF), "0xFFFF");
}

#[test]
fn registers_serialize_by_name_in_order() {
    let registers = vec![
        MeasurementRegister {
            address: 1,
            storage: RegisterValueStorage::U16(RegisterValue {
                value: DecimalValue { mantissa: 7, scale: 1, negative: false },
                timestamp: at(),
            }),
            name: "power".to_string(),
        },
        MeasurementRegister {
            address: 2,
            storage: RegisterValueStorage::Raw(RegisterValue { value: vec![0x10, 0xABCD], timestamp: at() }),
            name: "raw".to_string(),
        },
        MeasurementRegister {
            address: 4,
            storage: RegisterValueStorage::String(RegisterValue { value: "x".to_string(), timestamp: at() }),
            name: "text".to_string(),
        },
    ];
    let fields = serialize_registers(&registers);
    assert_eq!(fields.len(), 3);
    assert_eq!(fields[0].0, "power");
    assert!(matches!(&fields[0].1, JsonField::Decimal(d) if d.mantissa == 7 && d.scale == 1));
    assert_eq!(fields[1].0, "raw");
    assert!(matches!(&fields[1].1, JsonField::Hex(h) if *h == vec!["0x0010".to_string(), "0xABCD".to_string()]));
    assert!(matches!(&fields[2].1, JsonField::Text(t) if t == "x"));
}
