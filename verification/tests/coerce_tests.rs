use innervoice_core::coerce::{dyn_to_sql, prepare_params, real_to_byte, sql_to_dyn, Coerced};
use innervoice_core::error::ErrorKind;
use innervoice_core::value::{DynValue, Num, SqlVal};

fn ok_value(r: Result<Coerced, innervoice_core::error::Error>) -> SqlVal {
    match r {
        Ok(Coerced::Value(s)) => s,
        other => panic!("expected a direct store value, got {:?}", other),
    }
}

#[test]
fn null_maps_to_null() {
    assert_eq!(ok_value(dyn_to_sql(&DynValue::Null)), SqlVal::Null);
}

#[test]
fn bool_maps_to_integer() {
    assert_eq!(ok_value(dyn_to_sql(&DynValue::Bool(true))), SqlVal::Integer(1));
    assert_eq!(ok_value(dyn_to_sql(&DynValue::Bool(false))), SqlVal::Integer(0));
}

#[test]
fn signed_number_maps_to_integer() {
    let v = DynValue::Number(Num::Signed(-42));
    assert_eq!(ok_value(dyn_to_sql(&v)), SqlVal::Integer(-42));
}

#[test]
fn max_signed_succeeds_as_integer() {
    let v = DynValue::Number(Num::Unsigned(9223372036854775807));
    assert_eq!(ok_value(dyn_to_sql(&v)), SqlVal::Integer(9223372036854775807));
}

#[test]
fn unsigned_over_signed_range_is_range_error() {
    let v = DynValue::Number(Num::Unsigned(18446744073709551615));
    let e = dyn_to_sql(&v).unwrap_err();
    assert_eq!(e.kind, ErrorKind::RangeError);
    assert_eq!(e.message, "numeric value exceeds supported range");
}

#[test]
fn real_passes_bits_through() {
    let bits = (2.5f64).to_bits();
    let v = DynValue::Number(Num::Real(bits));
    assert_eq!(ok_value(dyn_to_sql(&v)), SqlVal::Real(bits));
}

#[test]
fn text_maps_to_text() {
    let v = DynValue::Text(String::from("hello"));
    assert_eq!(ok_value(dyn_to_sql(&v)), SqlVal::Text(String::from("hello")));
}

#[test]
fn byte_array_maps_to_blob() {
    let v = DynValue::Array(vec![
        DynValue::Number(Num::Signed(0)),
        DynValue::Number(Num::Signed(127)),
        DynValue::Number(Num::Unsigned(255)),
    ]);
    assert_eq!(ok_value(dyn_to_sql(&v)), SqlVal::Blob(vec![0, 127, 255]));
}

#[test]
fn byte_array_with_256_is_value_error() {
    let v = DynValue::Array(vec![DynValue::Number(Num::Signed(256))]);
    let e = dyn_to_sql(&v).unwrap_err();
    assert_eq!(e.kind, ErrorKind::ValueError);
    assert_eq!(e.message, "array value is not a valid byte");
}

#[test]
fn byte_array_with_negative_is_value_error() {
    let v = DynValue::Array(vec![DynValue::Number(Num::Signed(-1))]);
    assert_eq!(dyn_to_sql(&v).unwrap_err().kind, ErrorKind::ValueError);
}

#[test]
fn integral_real_in_numeric_array_is_byte() {
    let v = DynValue::Array(vec![
        DynValue::Number(Num::Real((2.0f64).to_bits())),
        DynValue::Number(Num::Real((255.0f64).to_bits())),
        DynValue::Number(Num::Real((0.0f64).to_bits())),
        DynValue::Number(Num::Real((-0.0f64).to_bits())),
    ]);
    assert_eq!(ok_value(dyn_to_sql(&v)), SqlVal::Blob(vec![2, 255, 0, 0]));
}

#[test]
fn fractional_real_in_numeric_array_is_value_error() {
    let v = DynValue::Array(vec![DynValue::Number(Num::Real((2.5f64).to_bits()))]);
    assert_eq!(dyn_to_sql(&v).unwrap_err().kind, ErrorKind::ValueError);
}

#[test]
fn out_of_range_real_in_numeric_array_is_value_error() {
    let v = DynValue::Array(vec![DynValue::Number(Num::Real((256.0f64).to_bits()))]);
    assert_eq!(dyn_to_sql(&v).unwrap_err().kind, ErrorKind::ValueError);
    let w = DynValue::Array(vec![DynValue::Number(Num::Real((-1.0f64).to_bits()))]);
    assert_eq!(dyn_to_sql(&w).unwrap_err().kind, ErrorKind::ValueError);
}

#[test]
fn nan_and_infinity_in_numeric_array_are_value_errors() {
    let v = DynValue::Array(vec![DynValue::Number(Num::Real(f64::NAN.to_bits()))]);
    assert_eq!(dyn_to_sql(&v).unwrap_err().kind, ErrorKind::ValueError);
    let w = DynValue::Array(vec![DynValue::Number(Num::Real(f64::INFINITY.to_bits()))]);
    assert_eq!(dyn_to_sql(&w).unwrap_err().kind, ErrorKind::ValueError);
}

#[test]
fn real_to_byte_matches_float_semantics() {
    assert_eq!(real_to_byte((0.0f64).to_bits()), Some(0));
    assert_eq!(real_to_byte((-0.0f64).to_bits()), Some(0));
    assert_eq!(real_to_byte((1.0f64).to_bits()), Some(1));
    assert_eq!(real_to_byte((200.0f64).to_bits()), Some(200));
    assert_eq!(real_to_byte((255.0f64).to_bits()), Some(255));
    assert_eq!(real_to_byte((256.0f64).to_bits()), None);
    assert_eq!(real_to_byte((2.5f64).to_bits()), None);
    assert_eq!(real_to_byte((0.5f64).to_bits()), None);
    assert_eq!(real_to_byte((-3.0f64).to_bits()), None);
    assert_eq!(real_to_byte(f64::NAN.to_bits()), None);
    assert_eq!(real_to_byte(f64::NEG_INFINITY.to_bits()), None);
}

#[test]
fn mixed_array_is_canonical_text() {
    let v = DynValue::Array(vec![
        DynValue::Number(Num::Signed(1)),
        DynValue::Text(String::from("x")),
    ]);
    assert_eq!(dyn_to_sql(&v).unwrap(), Coerced::CanonicalText);
}

#[test]
fn nested_array_is_canonical_text() {
    let v = DynValue::Array(vec![DynValue::Array(vec![DynValue::Number(Num::Signed(1))])]);
    assert_eq!(dyn_to_sql(&v).unwrap(), Coerced::CanonicalText);
}

#[test]
fn object_is_canonical_text() {
    let v = DynValue::Object(vec![(String::from("k"), DynValue::Number(Num::Signed(1)))]);
    assert_eq!(dyn_to_sql(&v).unwrap(), Coerced::CanonicalText);
}

#[test]
fn integer_round_trip() {
    let v = DynValue::Number(Num::Signed(-7));
    let s = ok_value(dyn_to_sql(&v));
    assert_eq!(sql_to_dyn(&s), v);
}

#[test]
fn real_round_trip() {
    let bits = (3.25f64).to_bits();
    let v = DynValue::Number(Num::Real(bits));
    let s = ok_value(dyn_to_sql(&v));
    assert_eq!(sql_to_dyn(&s), v);
}

#[test]
fn text_round_trip() {
    let v = DynValue::Text(String::from("grüß dich"));
    let s = ok_value(dyn_to_sql(&v));
    assert_eq!(sql_to_dyn(&s), v);
}

#[test]
fn blob_round_trip() {
    let bytes: Vec<u8> = vec![0, 1, 2, 254, 255];
    let v = DynValue::Array(bytes.iter().map(|b| DynValue::Number(Num::Signed(*b as i64))).collect());
    let s = ok_value(dyn_to_sql(&v));
    assert_eq!(s, SqlVal::Blob(bytes));
    assert_eq!(sql_to_dyn(&s), v);
}

#[test]
fn blob_reads_back_as_byte_array() {
    let got = sql_to_dyn(&SqlVal::Blob(vec![9, 200]));
    let want = DynValue::Array(vec![
        DynValue::Number(Num::Signed(9)),
        DynValue::Number(Num::Signed(200)),
    ]);
    assert_eq!(got, want);
}

#[test]
fn prepare_params_coerces_in_order() {
    let values = vec![
        DynValue::Null,
        DynValue::Bool(true),
        DynValue::Text(String::from("a")),
    ];
    let out = prepare_params(&values).unwrap();
    assert_eq!(
        out,
        vec![
            Coerced::Value(SqlVal::Null),
            Coerced::Value(SqlVal::Integer(1)),
            Coerced::Value(SqlVal::Text(String::from("a"))),
        ]
    );
}

#[test]
fn prepare_params_stops_at_first_failure() {
    let values = vec![
        DynValue::Null,
        DynValue::Number(Num::Unsigned(18446744073709551615)),
        DynValue::Bool(true),
    ];
    let e = prepare_params(&values).unwrap_err();
    assert_eq!(e.kind, ErrorKind::RangeError);
}
