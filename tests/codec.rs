use catalog_mirror::codec::{decode, hex_encode, Cell, JsonValue};

fn text(s: &str) -> JsonValue {
    JsonValue::Str(s.to_string())
}

#[test]
fn null_becomes_null() {
    assert_eq!(decode(Cell::Null), JsonValue::Null);
}

#[test]
fn integer_becomes_number() {
    assert_eq!(decode(Cell::Integer(42)), JsonValue::Number(42));
    assert_eq!(decode(Cell::Integer(i64::MIN)), JsonValue::Number(i64::MIN));
    assert_eq!(decode(Cell::Integer(i64::MAX)), JsonValue::Number(i64::MAX));
}

#[test]
fn blob_becomes_lowercase_hex() {
    assert_eq!(decode(Cell::Blob(vec![0x00, 0xab, 0x10, 0xff])), text("00ab10ff"));
    assert_eq!(hex_encode(&vec![0x0f, 0xa0]), "0fa0");
}

#[test]
fn empty_blob_becomes_empty_string() {
    assert_eq!(decode(Cell::Blob(vec![])), text(""));
}

#[test]
fn text_is_kept() {
    assert_eq!(decode(Cell::Text(b"1.20".to_vec())), text("1.20"));
    assert_eq!(decode(Cell::Text(vec![])), text(""));
}

#[test]
fn invalid_utf8_is_replaced() {
    assert_eq!(decode(Cell::Text(vec![0x66, 0xff, 0x6f])), text("f\u{FFFD}o"));
}

#[test]
fn finite_real_stays_a_number() {
    let bits = 1.5f64.to_bits();
    assert_eq!(decode(Cell::Real(bits)), JsonValue::Float(bits));
    let neg = (-0.25f64).to_bits();
    assert_eq!(decode(Cell::Real(neg)), JsonValue::Float(neg));
}

#[test]
fn non_finite_real_becomes_text() {
    assert_eq!(decode(Cell::Real(f64::NAN.to_bits())), text("NaN"));
    assert_eq!(decode(Cell::Real(f64::INFINITY.to_bits())), text("inf"));
    assert_eq!(decode(Cell::Real(f64::NEG_INFINITY.to_bits())), text("-inf"));
    assert_eq!(format!("{}", f64::NEG_INFINITY), "-inf");
    assert_eq!(format!("{}", f64::NAN), "NaN");
}
