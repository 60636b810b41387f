use derive_mmio::access::AnnotationToken;
use derive_mmio::block::{derive_mmio, BlockDecl, DeclShape, WrapperDef};
use derive_mmio::handle::{AccessError, MmioHandle, RegisterMemory};
use derive_mmio::layout::{FieldDecl, FieldType};
use derive_mmio::{is_mmio, OutOfBoundsError, SharedInnerMmio};

fn word(s: &str) -> AnnotationToken {
    AnnotationToken::Word(s.to_string())
}

fn reg(name: &str, toks: Vec<AnnotationToken>) -> FieldDecl {
    FieldDecl {
        name: name.to_string(),
        ty: FieldType::Path { path: "u32".to_string(), size: 4 },
        annotations: toks,
    }
}

fn arr(name: &str, len: usize, toks: Vec<AnnotationToken>) -> FieldDecl {
    FieldDecl {
        name: name.to_string(),
        ty: FieldType::Array { elem: Some("u32".to_string()), elem_size: 4, len },
        annotations: toks,
    }
}

fn block(name: &str, fields: Vec<FieldDecl>, size: u64) -> BlockDecl {
    BlockDecl {
        name: name.to_string(),
        repr_c: true,
        shape: DeclShape::NamedFields,
        options: vec![],
        fields,
        size,
    }
}

// control, array_0[4], array_read_only[4] (PureRead), array_write_only[2] (Write)
fn scenario_def() -> WrapperDef {
    let d = block(
        "Uart",
        vec![
            reg("control", vec![]),
            arr("array_0", 4, vec![]),
            arr("array_read_only", 4, vec![word("PureRead")]),
            arr("array_write_only", 2, vec![word("Write")]),
        ],
        44,
    );
    derive_mmio(&d).unwrap()
}

fn scenario_memory() -> RegisterMemory {
    RegisterMemory::from_words(vec![0xC, 1, 2, 3, 4, 4, 3, 2, 1, 0, 0])
}

#[test]
fn array_scenario() {
    let def = scenario_def();
    let mut mem = scenario_memory();
    let mut h = MmioHandle::new_mmio_at(&def, 0);
    assert_eq!(h.read_element(&mem, 1, 0), Ok(1));
    h.write_element(&mut mem, 1, 0, 4).unwrap();
    assert_eq!(h.read_element(&mem, 1, 0), Ok(4));
    assert_eq!(h.read_element(&mem, 1, 4), Err(AccessError::OutOfBounds(OutOfBoundsError(4))));
}

#[test]
fn array_indices_within_bounds_succeed() {
    let def = scenario_def();
    let mut mem = scenario_memory();
    let mut h = MmioHandle::new_mmio_at(&def, 0);
    for i in 0..4usize {
        assert_eq!(h.read_element(&mem, 1, i), Ok(i as u32 + 1));
        assert_eq!(h.read_element(&mem, 2, i), Ok(4 - i as u32));
    }
    for (idx, val) in (0..4u32).rev().enumerate() {
        h.write_element(&mut mem, 1, idx, val).unwrap();
    }
    for (idx, val) in (0..4u32).rev().enumerate() {
        assert_eq!(h.read_element(&mem, 1, idx), Ok(val));
    }
    h.write_element(&mut mem, 3, 0, 0xFF).unwrap();
    h.write_element(&mut mem, 3, 1, 0xFF).unwrap();
    assert_eq!(mem.load(36), 0xFF);
    assert_eq!(mem.load(40), 0xFF);
}

#[test]
fn array_indices_past_the_end_carry_the_index() {
    let def = scenario_def();
    let mut mem = scenario_memory();
    let mut h = MmioHandle::new_mmio_at(&def, 0);
    for i in [4usize, 5, 100, usize::MAX] {
        assert_eq!(h.read_element(&mem, 1, i), Err(AccessError::OutOfBounds(OutOfBoundsError(i))));
        assert_eq!(h.write_element(&mut mem, 1, i, 7), Err(AccessError::OutOfBounds(OutOfBoundsError(i))));
        assert_eq!(
            h.modify_element(&mut mem, 1, i, |v| v + 1),
            Err(AccessError::OutOfBounds(OutOfBoundsError(i)))
        );
    }
    assert_eq!(h.write_element(&mut mem, 3, 2, 1), Err(AccessError::OutOfBounds(OutOfBoundsError(2))));
    assert_eq!(mem.load(4), 1);
}

#[test]
fn capabilities_are_enforced() {
    let def = scenario_def();
    let mut mem = scenario_memory();
    let mut h = MmioHandle::new_mmio_at(&def, 0);
    assert_eq!(h.write_element(&mut mem, 2, 0, 9), Err(AccessError::NotPermitted));
    assert_eq!(h.modify_element(&mut mem, 2, 0, |v| v), Err(AccessError::NotPermitted));
    assert_eq!(h.read_element(&mem, 3, 0), Err(AccessError::NotPermitted));
    assert_eq!(h.read_element(&mem, 0, 0), Err(AccessError::NoSuchField));
    assert_eq!(h.read(&mem, 1), Err(AccessError::NoSuchField));
    assert_eq!(h.read(&mem, 9), Err(AccessError::NoSuchField));
    assert_eq!(mem.load(20), 4);
}

#[test]
fn modify_element_writes_f_of_the_read() {
    let def = scenario_def();
    let mut mem = scenario_memory();
    let mut h = MmioHandle::new_mmio_at(&def, 0);
    h.modify_element(&mut mem, 1, 2, |v| v * 10 + 1).unwrap();
    assert_eq!(h.read_element(&mem, 1, 2), Ok(31));
    assert_eq!(h.read_element(&mem, 1, 1), Ok(2));
    assert_eq!(h.read_element(&mem, 1, 3), Ok(4));
}

fn basic_uart() -> WrapperDef {
    let d = block(
        "Uart",
        vec![
            reg("data", vec![]),
            reg("control", vec![word("Read"), word("Write"), word("Modify")]),
            reg("status", vec![word("PureRead")]),
            reg("errors", vec![word("Read")]),
            reg("_reserved", vec![]),
        ],
        20,
    );
    derive_mmio(&d).unwrap()
}

#[test]
fn basic_registers() {
    let def = basic_uart();
    let mut mem = RegisterMemory::from_words(vec![0xA, 0xC, 0xF, 0x2, 0]);
    let mut h = MmioHandle::new_mmio_at(&def, 0);
    assert_eq!(h.read(&mem, 0), Ok(0xA));
    h.write(&mut mem, 0, 0x0B).unwrap();
    assert_eq!(h.read(&mem, 0), Ok(0xB));
    assert_eq!(h.pointer_to(0), Ok(0));
    assert_eq!(h.pointer_to(2), Ok(8));
    assert_eq!(h.read_exclusive(&mem, 3), Ok(0x2));
    assert_eq!(h.read(&mem, 3), Err(AccessError::NeedsExclusive));
    h.modify(&mut mem, 1, |f| {
        assert_eq!(f, 0xC);
        32
    })
    .unwrap();
    assert_eq!(h.read_exclusive(&mem, 1), Ok(32));
    assert_eq!(h.read(&mem, 2), Ok(0xF));
    assert_eq!(h.write(&mut mem, 2, 1), Err(AccessError::NotPermitted));
    assert_eq!(h.read(&mem, 4), Err(AccessError::NoSuchField));
    let copy = h.duplicate();
    assert_eq!(copy.read(&mem, 0), Ok(0xB));
}

#[test]
fn write_then_read_round_trip() {
    let def = basic_uart();
    let mut mem = RegisterMemory::zeroed(5);
    let mut h = MmioHandle::new_mmio_at(&def, 0);
    for v in [0u32, 1, 0x1234_5678, 0xFFFF_FFFF] {
        h.write(&mut mem, 0, v).unwrap();
        assert_eq!(h.read(&mem, 0), Ok(v));
        h.write(&mut mem, 1, v).unwrap();
        assert_eq!(h.read_exclusive(&mem, 1), Ok(v));
    }
    let sdef = scenario_def();
    let mut smem = RegisterMemory::zeroed(11);
    let mut s = MmioHandle::new_mmio_at(&sdef, 0);
    for v in [0u32, 0xFFFF_FFFF] {
        s.write_element(&mut smem, 1, 3, v).unwrap();
        assert_eq!(s.read_element(&smem, 1, 3), Ok(v));
    }
}

#[test]
fn unaligned_or_wide_registers_are_not_simulated() {
    let d = block(
        "W",
        vec![
            FieldDecl {
                name: "b".to_string(),
                ty: FieldType::Path { path: "u8".to_string(), size: 1 },
                annotations: vec![],
            },
            FieldDecl {
                name: "_pad".to_string(),
                ty: FieldType::Array { elem: Some("u8".to_string()), elem_size: 1, len: 3 },
                annotations: vec![],
            },
            reg("r", vec![]),
        ],
        8,
    );
    let def = derive_mmio(&d).unwrap();
    let mem = RegisterMemory::zeroed(2);
    let h = MmioHandle::new_mmio_at(&def, 0);
    assert_eq!(h.read(&mem, 0), Err(AccessError::Unsupported));
    assert_eq!(h.read(&mem, 2), Ok(0));
    let h2 = MmioHandle::new_mmio_at(&def, 2);
    assert_eq!(h2.read(&mem, 2), Err(AccessError::Unsupported));
}

fn bank_def() -> WrapperDef {
    derive_mmio(&block("UartBank", vec![reg("data", vec![]), reg("status", vec![])], 8)).unwrap()
}

fn nested_outer() -> WrapperDef {
    let d = block(
        "Uart",
        vec![
            reg("control", vec![]),
            FieldDecl {
                name: "bank_0".to_string(),
                ty: FieldType::Path { path: "UartBank".to_string(), size: 8 },
                annotations: vec![word("Inner")],
            },
            FieldDecl {
                name: "banks".to_string(),
                ty: FieldType::Array { elem: Some("UartBank".to_string()), elem_size: 8, len: 2 },
                annotations: vec![word("inner")],
            },
        ],
        28,
    );
    derive_mmio(&d).unwrap()
}

#[test]
fn nested_blocks() {
    let outer = nested_outer();
    let bank = bank_def();
    let mut mem = RegisterMemory::from_words(vec![0xC, 0x1, 0x2, 0x10, 0x11, 0x20, 0x21]);
    let h = MmioHandle::new_mmio_at(&outer, 0);
    let mut b0 = h.steal(1, &bank).unwrap();
    assert_eq!(b0.base, 4);
    assert_eq!(b0.read(&mem, 0), Ok(0x1));
    assert_eq!(b0.read(&mem, 1), Ok(0x2));
    b0.write(&mut mem, 1, 0x5).unwrap();
    assert_eq!(b0.read(&mem, 1), Ok(0x5));
    assert_eq!(h.block_array_len(2), Ok(2));
    assert_eq!(h.block_array_len(1), Err(AccessError::NoSuchField));
    let e1 = h.steal_element(2, 1, &bank).unwrap();
    assert_eq!(e1.read(&mem, 0), Ok(0x20));
    assert_eq!(e1.read(&mem, 1), Ok(0x21));
    assert!(matches!(
        h.steal_element(2, 2, &bank),
        Err(AccessError::OutOfBounds(OutOfBoundsError(2)))
    ));
    assert!(matches!(h.steal(0, &bank), Err(AccessError::NoSuchField)));
    let small = derive_mmio(&block("Small", vec![reg("x", vec![])], 4)).unwrap();
    assert!(matches!(h.steal(1, &small), Err(AccessError::SizeMismatch)));
}

#[test]
fn two_escaped_handles_see_the_same_registers() {
    let outer = nested_outer();
    let bank = bank_def();
    let mut mem = RegisterMemory::from_words(vec![0xC, 0x1, 0x2, 0x10, 0x11, 0x20, 0x21]);
    let h = MmioHandle::new_mmio_at(&outer, 0);
    let mut p0 = h.steal(1, &bank).unwrap();
    let p1 = h.steal(1, &bank).unwrap();
    assert_eq!(p0.read(&mem, 0), Ok(0x1));
    assert_eq!(p1.read(&mem, 0), Ok(0x1));
    p0.write(&mut mem, 0, 0x99).unwrap();
    assert_eq!(p1.read(&mem, 0), Ok(0x99));
}

#[test]
fn shared_projection_hands_out_a_shared_reference() {
    let outer = nested_outer();
    let bank = bank_def();
    let mem = RegisterMemory::from_words(vec![0xC, 0x1, 0x2, 0x10, 0x11, 0x20, 0x21]);
    let h = MmioHandle::new_mmio_at(&outer, 0);
    let shared = SharedInnerMmio::__new_internal(h.steal_element(2, 0, &bank).unwrap());
    assert_eq!(shared.inner().read(&mem, 1), Ok(0x11));
    assert_eq!(shared.read(&mem, 0), Ok(0x10));
    let s0 = h.nested_shared(1, &bank).unwrap();
    assert_eq!(s0.read(&mem, 0), Ok(0x1));
    let s1 = h.nested_element_shared(2, 1, &bank).unwrap();
    assert_eq!(s1.inner().read(&mem, 1), Ok(0x21));
    assert!(matches!(
        h.nested_element_shared(2, 2, &bank),
        Err(AccessError::OutOfBounds(OutOfBoundsError(2)))
    ));
}

#[test]
fn borrowed_nested_handles() {
    let outer = nested_outer();
    let bank = bank_def();
    let mut mem = RegisterMemory::from_words(vec![0xC, 0x1, 0x2, 0x10, 0x11, 0x20, 0x21]);
    let mut h = MmioHandle::new_mmio_at(&outer, 0);
    {
        let mut b0 = h.nested(1, &bank).unwrap();
        assert_eq!(b0.read(&mem, 0), Ok(0x1));
        assert_eq!(b0.read(&mem, 1), Ok(0x2));
        b0.write(&mut mem, 1, 0x5).unwrap();
        assert_eq!(b0.read(&mem, 1), Ok(0x5));
    }
    let b1 = h.nested_element(2, 1, &bank).unwrap();
    assert_eq!(b1.read(&mem, 0), Ok(0x20));
    assert!(matches!(
        h.nested_element(2, 2, &bank),
        Err(AccessError::OutOfBounds(OutOfBoundsError(2)))
    ));
    assert!(matches!(h.nested(2, &bank), Err(AccessError::NoSuchField)));
    assert_eq!(h.read(&mem, 0), Ok(0xC));
}

#[test]
fn out_of_bounds_error_text() {
    let e = OutOfBoundsError(4);
    assert_eq!(e.index(), 4);
    assert_eq!(e.message(), "out of bounds access at index 4");
    assert_eq!(OutOfBoundsError(123).message(), "out of bounds access at index 123");
}

#[test]
fn handles_carry_the_marker() {
    is_mmio::<MmioHandle<'static>>();
}

#[test]
fn memory_basics() {
    let mut m = RegisterMemory::zeroed(3);
    assert_eq!(m.len(), 3);
    assert_eq!(m.load(8), 0);
    m.store(8, 7);
    assert_eq!(m.load(8), 7);
    assert_eq!(m.load(4), 0);
}
