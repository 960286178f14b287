use query_engine::base64::base64_encode;
use query_engine::value::{convert, DriverValue, StructuredValue};

#[test]
fn convert_null_yields_null() {
    assert!(matches!(convert(&DriverValue::Null), StructuredValue::Null));
}

#[test]
fn convert_signed_integer_exact() {
    match convert(&DriverValue::Int(1)) {
        StructuredValue::Int(i) => assert_eq!(i, 1),
        _ => panic!("wrong kind"),
    }
    match convert(&DriverValue::Int(-5)) {
        StructuredValue::Int(i) => assert_eq!(i, -5),
        _ => panic!("wrong kind"),
    }
    match convert(&DriverValue::Int(i64::MIN)) {
        StructuredValue::Int(i) => assert_eq!(i, i64::MIN),
        _ => panic!("wrong kind"),
    }
}

#[test]
fn convert_unsigned_integer_exact() {
    match convert(&DriverValue::UInt(u64::MAX)) {
        StructuredValue::UInt(u) => assert_eq!(u, u64::MAX),
        _ => panic!("wrong kind"),
    }
}

#[test]
fn convert_utf8_bytes_to_text() {
    match convert(&DriverValue::Bytes(b"hello".to_vec())) {
        StructuredValue::Text(s) => assert_eq!(s, "hello"),
        _ => panic!("wrong kind"),
    }
}

#[test]
fn convert_binary_bytes_to_base64() {
    match convert(&DriverValue::Bytes(vec![0xff, 0x00])) {
        StructuredValue::Bytes(s) => assert_eq!(s, "/wA="),
        _ => panic!("wrong kind"),
    }
}

#[test]
fn convert_floating_keeps_bits_and_text() {
    let bits = 2.5f64.to_bits();
    match convert(&DriverValue::Double { bits, text: "2.5".to_string() }) {
        StructuredValue::Float { bits: b, text } => {
            assert_eq!(b, bits);
            assert_eq!(f64::from_bits(b), 2.5);
            assert_eq!(text, "2.5");
        }
        _ => panic!("wrong kind"),
    }
    let wide = (1.5f32 as f64).to_bits();
    match convert(&DriverValue::Float { bits: wide, text: "1.5".to_string() }) {
        StructuredValue::Float { bits: b, text } => {
            assert_eq!(b, wide);
            assert_eq!(text, "1.5");
        }
        _ => panic!("wrong kind"),
    }
}

#[test]
fn convert_date_to_fixed_text() {
    let v = DriverValue::Date { year: 2024, month: 3, day: 7, hour: 9, minute: 5, second: 2, micros: 0 };
    match convert(&v) {
        StructuredValue::Text(s) => assert_eq!(s, "2024-03-07 09:05:02"),
        _ => panic!("wrong kind"),
    }
}

#[test]
fn convert_date_keeps_microseconds() {
    let v = DriverValue::Date { year: 1999, month: 12, day: 31, hour: 23, minute: 59, second: 59, micros: 1500 };
    match convert(&v) {
        StructuredValue::Text(s) => assert_eq!(s, "1999-12-31 23:59:59.001500"),
        _ => panic!("wrong kind"),
    }
}

#[test]
fn convert_time_folds_days_into_hours() {
    let v = DriverValue::Time { negative: true, days: 1, hours: 2, minutes: 3, seconds: 4, micros: 0 };
    match convert(&v) {
        StructuredValue::Text(s) => assert_eq!(s, "-26:03:04"),
        _ => panic!("wrong kind"),
    }
    let w = DriverValue::Time { negative: false, days: 0, hours: 0, minutes: 0, seconds: 7, micros: 250 };
    match convert(&w) {
        StructuredValue::Text(s) => assert_eq!(s, "00:00:07.000250"),
        _ => panic!("wrong kind"),
    }
}

#[test]
fn base64_reference_vectors() {
    assert_eq!(base64_encode(&b"".to_vec()), "");
    assert_eq!(base64_encode(&b"f".to_vec()), "Zg==");
    assert_eq!(base64_encode(&b"fo".to_vec()), "Zm8=");
    assert_eq!(base64_encode(&b"foo".to_vec()), "Zm9v");
    assert_eq!(base64_encode(&b"foob".to_vec()), "Zm9vYg==");
    assert_eq!(base64_encode(&b"fooba".to_vec()), "Zm9vYmE=");
    assert_eq!(base64_encode(&b"foobar".to_vec()), "Zm9vYmFy");
    assert_eq!(base64_encode(&vec![0xfb, 0xff, 0xbe]), "+/++");
}
