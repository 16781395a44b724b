use spider::graph::control::ValueType;
use spider::wasm::locals::{expand_local_types, read_local_types, WasmValueKind};

#[test]
fn groups_repeat_their_type_by_count() {
    let mut local_types = vec![ValueType::F64];
    assert!(read_local_types(&[0x02, 0x02, 0x7F, 0x01, 0x7E, 0x0B], &mut local_types));
    assert_eq!(local_types, vec![ValueType::I32, ValueType::I32, ValueType::I64]);
}

#[test]
fn references_and_floats_are_read() {
    let mut local_types = Vec::new();
    assert!(read_local_types(&[0x03, 0x01, 0x70, 0x01, 0x7D, 0x02, 0x7C, 0x0B], &mut local_types));
    assert_eq!(
        local_types,
        vec![ValueType::Reference, ValueType::F32, ValueType::F64, ValueType::F64]
    );
}

#[test]
fn no_declarations_give_no_locals() {
    let mut local_types = vec![ValueType::I32];
    assert!(read_local_types(&[0x00, 0x0B], &mut local_types));
    assert!(local_types.is_empty());
}

#[test]
fn vector_locals_are_refused() {
    let mut local_types = vec![ValueType::I32];
    assert!(!read_local_types(&[0x01, 0x01, 0x7B, 0x0B], &mut local_types));
    assert!(local_types.is_empty());
}

#[test]
fn truncated_declarations_are_refused() {
    let mut local_types = Vec::new();
    assert!(!read_local_types(&[0x01], &mut local_types));
    assert!(local_types.is_empty());
}

#[test]
fn expanding_groups_follows_their_order() {
    let mut local_types = Vec::new();
    assert!(expand_local_types(&[(1, WasmValueKind::I64), (2, WasmValueKind::Reference)], &mut local_types));
    assert_eq!(local_types, vec![ValueType::I64, ValueType::Reference, ValueType::Reference]);
    assert!(!expand_local_types(&[(1, WasmValueKind::I32), (1, WasmValueKind::V128)], &mut local_types));
    assert!(local_types.is_empty());
}
