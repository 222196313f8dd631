//! Tests of the schema-driven parameter binder.

use modal_rust::params::encode_parameter_set;
use modal_rust::params::BindError;
use modal_rust::params::ParamDecl;
use modal_rust::params::ParamKind;
use modal_rust::params::ParamMap;
use modal_rust::params::ParamValue;

fn decl(name: &str, kind: ParamKind, default: Option<ParamValue>) -> ParamDecl {
    ParamDecl { name: name.as_bytes().to_vec(), kind, default }
}

#[test]
fn encode_single_int_exact_bytes() {
    let schema = vec![decl("x", ParamKind::Int, None)];
    let mut params = ParamMap::new();
    params.insert(b"x".to_vec(), ParamValue::Int(5));
    let bytes = match encode_parameter_set(&schema, &params) {
        Ok(b) => b,
        Err(_) => panic!("encoding failed"),
    };
    assert_eq!(bytes, vec![0x0A, 7, 0x0A, 1, b'x', 0x10, 2, 0x20, 5]);
}

#[test]
fn encode_str_and_bool_exact_bytes() {
    // Sorted by name: "b" (bool) comes before "s" (string).
    let schema = vec![
        decl("s", ParamKind::Str, None),
        decl("b", ParamKind::Bool, None),
    ];
    let mut params = ParamMap::new();
    params.insert(b"s".to_vec(), ParamValue::Str(b"hi".to_vec()));
    params.insert(b"b".to_vec(), ParamValue::Bool(true));
    let bytes = encode_parameter_set(&schema, &params).unwrap();
    let expected = vec![
        0x0A, 7, 0x0A, 1, b'b', 0x10, 3, 0x28, 1,
        0x0A, 9, 0x0A, 1, b's', 0x10, 1, 0x1A, 2, b'h', b'i',
    ];
    assert_eq!(bytes, expected);
}

#[test]
fn encode_bytes_value_exact_bytes() {
    let schema = vec![decl("k", ParamKind::Bytes, None)];
    let mut params = ParamMap::new();
    params.insert(b"k".to_vec(), ParamValue::Bytes(vec![0, 255]));
    let bytes = encode_parameter_set(&schema, &params).unwrap();
    assert_eq!(bytes, vec![0x0A, 9, 0x0A, 1, b'k', 0x10, 4, 0x32, 2, 0, 255]);
}

#[test]
fn encode_negative_int_ten_byte_varint() {
    let schema = vec![decl("x", ParamKind::Int, None)];
    let mut params = ParamMap::new();
    params.insert(b"x".to_vec(), ParamValue::Int(-1));
    let bytes = encode_parameter_set(&schema, &params).unwrap();
    let expected = vec![
        0x0A, 16, 0x0A, 1, b'x', 0x10, 2, 0x20,
        0xFF, 0xFF, 0xFF, 0xFF, 0xFF, 0xFF, 0xFF, 0xFF, 0xFF, 0x01,
    ];
    assert_eq!(bytes, expected);
}

#[test]
fn encode_long_name_two_byte_length() {
    let name: Vec<u8> = vec![b'a'; 130];
    let schema = vec![ParamDecl { name: name.clone(), kind: ParamKind::Bool, default: None }];
    let mut params = ParamMap::new();
    params.insert(name.clone(), ParamValue::Bool(true));
    let bytes = encode_parameter_set(&schema, &params).unwrap();
    // Entry: name field (1 + 2 + 130 bytes), kind field (2), value field (2) = 137 bytes.
    assert_eq!(bytes[0], 0x0A);
    assert_eq!(bytes[1], 0x89);
    assert_eq!(bytes[2], 0x01);
    assert_eq!(bytes.len(), 3 + 137);
    assert_eq!(&bytes[3..6], &[0x0A, 0x82, 0x01]);
}

#[test]
fn encoding_ignores_insertion_order() {
    let schema = vec![
        decl("alpha", ParamKind::Int, None),
        decl("beta", ParamKind::Str, None),
        decl("gamma", ParamKind::Bool, None),
    ];
    let mut p1 = ParamMap::new();
    p1.insert(b"alpha".to_vec(), ParamValue::Int(1));
    p1.insert(b"beta".to_vec(), ParamValue::Str(b"v".to_vec()));
    p1.insert(b"gamma".to_vec(), ParamValue::Bool(false));
    let mut p2 = ParamMap::new();
    p2.insert(b"gamma".to_vec(), ParamValue::Bool(false));
    p2.insert(b"beta".to_vec(), ParamValue::Str(b"v".to_vec()));
    p2.insert(b"alpha".to_vec(), ParamValue::Int(1));
    let b1 = encode_parameter_set(&schema, &p1).unwrap();
    let b2 = encode_parameter_set(&schema, &p2).unwrap();
    assert_eq!(b1, b2);
}

#[test]
fn encoding_ignores_schema_declaration_order() {
    let forward = vec![
        decl("a", ParamKind::Int, None),
        decl("b", ParamKind::Int, None),
    ];
    let backward = vec![
        decl("b", ParamKind::Int, None),
        decl("a", ParamKind::Int, None),
    ];
    let mut params = ParamMap::new();
    params.insert(b"a".to_vec(), ParamValue::Int(1));
    params.insert(b"b".to_vec(), ParamValue::Int(2));
    let bf = encode_parameter_set(&forward, &params).unwrap();
    let bb = encode_parameter_set(&backward, &params).unwrap();
    assert_eq!(bf, bb);
    // And the entries really are name-sorted: "a" first.
    assert_eq!(&bf[0..5], &[0x0A, 7, 0x0A, 1, b'a']);
}

#[test]
fn later_insert_of_same_name_wins() {
    let schema = vec![decl("x", ParamKind::Int, None)];
    let mut params = ParamMap::new();
    params.insert(b"x".to_vec(), ParamValue::Int(1));
    params.insert(b"x".to_vec(), ParamValue::Int(9));
    let bytes = encode_parameter_set(&schema, &params).unwrap();
    assert_eq!(bytes, vec![0x0A, 7, 0x0A, 1, b'x', 0x10, 2, 0x20, 9]);
}

#[test]
fn missing_parameter_is_reported_by_name() {
    let schema = vec![
        decl("present", ParamKind::Int, None),
        decl("absent", ParamKind::Str, None),
    ];
    let mut params = ParamMap::new();
    params.insert(b"present".to_vec(), ParamValue::Int(0));
    match encode_parameter_set(&schema, &params) {
        Err(BindError::MissingParameter(name)) => assert_eq!(name, b"absent".to_vec()),
        _ => panic!("expected missing-parameter"),
    }
}

#[test]
fn default_fills_missing_parameter() {
    let schema = vec![decl("x", ParamKind::Int, Some(ParamValue::Int(7)))];
    let params = ParamMap::new();
    let bytes = encode_parameter_set(&schema, &params).unwrap();
    assert_eq!(bytes, vec![0x0A, 7, 0x0A, 1, b'x', 0x10, 2, 0x20, 7]);
}

#[test]
fn supplied_value_beats_default() {
    let schema = vec![decl("x", ParamKind::Int, Some(ParamValue::Int(7)))];
    let mut params = ParamMap::new();
    params.insert(b"x".to_vec(), ParamValue::Int(3));
    let bytes = encode_parameter_set(&schema, &params).unwrap();
    assert_eq!(bytes, vec![0x0A, 7, 0x0A, 1, b'x', 0x10, 2, 0x20, 3]);
}

#[test]
fn unsupported_value_type_is_reported_by_name() {
    let schema = vec![decl("x", ParamKind::Int, None)];
    let mut params = ParamMap::new();
    params.insert(b"x".to_vec(), ParamValue::Other);
    match encode_parameter_set(&schema, &params) {
        Err(BindError::UnsupportedValueType(name)) => assert_eq!(name, b"x".to_vec()),
        _ => panic!("expected unsupported-value-type"),
    }
}

#[test]
fn first_failure_in_schema_order_wins() {
    let schema = vec![
        decl("a", ParamKind::Str, None),
        decl("b", ParamKind::Str, None),
    ];
    let mut params = ParamMap::new();
    params.insert(b"a".to_vec(), ParamValue::Other);
    // "a" fails as unsupported before "b" is found missing.
    match encode_parameter_set(&schema, &params) {
        Err(BindError::UnsupportedValueType(name)) => assert_eq!(name, b"a".to_vec()),
        _ => panic!("expected unsupported-value-type"),
    }
}

#[test]
fn empty_schema_encodes_to_empty_bytes() {
    let schema: Vec<ParamDecl> = Vec::new();
    let params = ParamMap::new();
    let bytes = encode_parameter_set(&schema, &params).unwrap();
    assert_eq!(bytes, Vec::<u8>::new());
}
