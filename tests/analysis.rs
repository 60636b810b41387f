use derive_mmio::access::{
    keyword, parse_field_access, AccessModifiers, AnnotationToken, FieldAccess, Keyword, ReadAccess,
};
use derive_mmio::block::{
    derive_mmio, parse_options, wrapper_path, BlockDecl, DeclShape, FieldKind, WrapperDef,
};
use derive_mmio::error::GenError;
use derive_mmio::layout::{field_offsets, is_reserved, FieldDecl, FieldType};
use derive_mmio::synth::{derive_answer_fn, MethodSpec, Operation, Receiver};

fn word(s: &str) -> AnnotationToken {
    AnnotationToken::Word(s.to_string())
}

fn reg(name: &str, toks: Vec<AnnotationToken>) -> FieldDecl {
    FieldDecl {
        name: name.to_string(),
        ty: FieldType::Path { path: "u32".to_string(), size: 4 },
        annotations: toks,
    }
}

fn arr(name: &str, len: usize, toks: Vec<AnnotationToken>) -> FieldDecl {
    FieldDecl {
        name: name.to_string(),
        ty: FieldType::Array { elem: Some("u32".to_string()), elem_size: 4, len },
        annotations: toks,
    }
}

fn block(name: &str, fields: Vec<FieldDecl>, size: u64) -> BlockDecl {
    BlockDecl {
        name: name.to_string(),
        repr_c: true,
        shape: DeclShape::NamedFields,
        options: vec![],
        fields,
        size,
    }
}

fn names(ms: &[MethodSpec]) -> Vec<String> {
    ms.iter().map(|m| m.name.clone()).collect()
}

fn find<'a>(ms: &'a [MethodSpec], name: &str) -> Option<&'a MethodSpec> {
    ms.iter().find(|m| m.name == name)
}

fn field_error(toks: Vec<AnnotationToken>) -> GenError {
    parse_field_access(&toks, 3).unwrap_err()
}

#[test]
fn keywords_are_recognized() {
    assert_eq!(keyword(&"Read".to_string()), Some(Keyword::Read));
    assert_eq!(keyword(&"PureRead".to_string()), Some(Keyword::PureRead));
    assert_eq!(keyword(&"Write".to_string()), Some(Keyword::Write));
    assert_eq!(keyword(&"Modify".to_string()), Some(Keyword::Modify));
    assert_eq!(keyword(&"inner".to_string()), Some(Keyword::Inner));
    assert_eq!(keyword(&"Inner".to_string()), Some(Keyword::Inner));
    assert_eq!(keyword(&"ReadWrite".to_string()), None);
    assert_eq!(keyword(&"read".to_string()), None);
}

#[test]
fn no_tokens_means_read_write_modify() {
    let a = parse_field_access(&vec![], 0).unwrap();
    assert_eq!(
        a,
        FieldAccess::Plain(AccessModifiers {
            read: Some(ReadAccess::Pure),
            write: true,
            modify: true
        })
    );
}

#[test]
fn convert_unmodified_only_changes_empty_sets() {
    let mut a = AccessModifiers::empty();
    assert!(a.convert_unmodified());
    assert_eq!(a.read, Some(ReadAccess::Pure));
    assert!(a.write && a.modify);
    let mut b = AccessModifiers { read: Some(ReadAccess::Normal), write: false, modify: false };
    assert!(!b.convert_unmodified());
    assert_eq!(b, AccessModifiers { read: Some(ReadAccess::Normal), write: false, modify: false });
}

#[test]
fn explicit_tokens_accumulate() {
    let a = parse_field_access(&vec![word("Read"), word("Write"), word("Modify")], 0).unwrap();
    assert_eq!(
        a,
        FieldAccess::Plain(AccessModifiers {
            read: Some(ReadAccess::Normal),
            write: true,
            modify: true
        })
    );
    let p = parse_field_access(&vec![word("PureRead")], 0).unwrap();
    assert_eq!(
        p,
        FieldAccess::Plain(AccessModifiers {
            read: Some(ReadAccess::Pure),
            write: false,
            modify: false
        })
    );
    let w = parse_field_access(&vec![word("Write")], 0).unwrap();
    assert_eq!(w, FieldAccess::Plain(AccessModifiers { read: None, write: true, modify: false }));
    assert_eq!(parse_field_access(&vec![word("inner")], 0).unwrap(), FieldAccess::Inner);
    assert_eq!(parse_field_access(&vec![word("Inner")], 0).unwrap(), FieldAccess::Inner);
}

#[test]
fn annotation_errors_name_the_field() {
    assert_eq!(field_error(vec![AnnotationToken::Malformed]), GenError::MalformedAnnotation { field: 3 });
    assert_eq!(field_error(vec![AnnotationToken::NotAWord]), GenError::UnknownToken { field: 3 });
    assert_eq!(field_error(vec![word("ReadWrite")]), GenError::UnknownToken { field: 3 });
    assert_eq!(field_error(vec![word("Read"), word("PureRead")]), GenError::DuplicateRead { field: 3 });
    assert_eq!(field_error(vec![word("Write"), word("Write")]), GenError::DuplicateWrite { field: 3 });
    assert_eq!(
        field_error(vec![word("Read"), word("Write"), word("Modify"), word("Modify")]),
        GenError::DuplicateModify { field: 3 }
    );
    assert_eq!(field_error(vec![word("inner"), word("Inner")]), GenError::DuplicateInner { field: 3 });
    assert_eq!(field_error(vec![word("Modify")]), GenError::ModifyWithoutReadWrite { field: 3 });
    assert_eq!(field_error(vec![word("Read"), word("Modify")]), GenError::ModifyWithoutReadWrite { field: 3 });
    assert_eq!(field_error(vec![word("Write"), word("Modify")]), GenError::ModifyWithoutReadWrite { field: 3 });
    assert_eq!(field_error(vec![word("inner"), word("Read")]), GenError::InnerWithAccess { field: 3 });
    assert_eq!(field_error(vec![word("Write"), word("inner")]), GenError::InnerWithAccess { field: 3 });
}

#[test]
fn first_refused_token_decides() {
    assert_eq!(
        field_error(vec![word("Read"), word("Read"), word("bogus")]),
        GenError::DuplicateRead { field: 3 }
    );
    assert_eq!(
        field_error(vec![word("bogus"), word("Read"), word("Read")]),
        GenError::UnknownToken { field: 3 }
    );
}

#[test]
fn block_options() {
    let o = parse_options(&vec![word("no_ctors"), word("const_ptr")]).unwrap();
    assert!(o.no_ctors && o.const_ptr && !o.const_inner);
    let o = parse_options(&vec![word("const_inner")]).unwrap();
    assert!(!o.no_ctors && !o.const_ptr && o.const_inner);
    assert_eq!(parse_options(&vec![word("no_ctor")]).unwrap_err(), GenError::UnknownBlockOption);
    assert_eq!(parse_options(&vec![AnnotationToken::NotAWord]).unwrap_err(), GenError::UnknownBlockOption);
}

#[test]
fn wrapper_paths() {
    assert_eq!(wrapper_path(&"UartBank".to_string()), "MmioUartBank");
    assert_eq!(wrapper_path(&"inner::UartBank".to_string()), "inner::MmioUartBank");
    assert_eq!(wrapper_path(&"a::b::Bank".to_string()), "a::b::MmioBank");
}

#[test]
fn reserved_names() {
    assert!(is_reserved(&"_reserved".to_string()));
    assert!(!is_reserved(&"data".to_string()));
    assert!(!is_reserved(&"".to_string()));
}

#[test]
fn offsets_follow_the_sizes() {
    let fields = vec![reg("a", vec![]), arr("b", 4, vec![]), reg("c", vec![])];
    assert_eq!(field_offsets(&fields, 24), Some(vec![0, 4, 20]));
    assert_eq!(field_offsets(&fields, 28), None);
    assert_eq!(field_offsets(&fields, 20), None);
    assert_eq!(field_offsets(&vec![], 0), Some(vec![]));
}

fn basic_uart() -> BlockDecl {
    block(
        "Uart",
        vec![
            reg("data", vec![]),
            reg("control", vec![word("Read"), word("Write"), word("Modify")]),
            reg("status", vec![word("PureRead")]),
            reg("errors", vec![word("Read")]),
            reg("_reserved", vec![]),
        ],
        20,
    )
}

#[test]
fn default_field_has_read_write_modify() {
    let w = derive_mmio(&basic_uart()).unwrap();
    assert_eq!(w.name, "MmioUart");
    let data = &w.fields[0];
    assert_eq!(names(&data.methods), vec!["pointer_to_data", "read_data", "write_data", "modify_data"]);
    assert_eq!(find(&data.methods, "read_data").unwrap().receiver, Receiver::Shared);
    assert_eq!(find(&data.methods, "write_data").unwrap().receiver, Receiver::Exclusive);
    assert_eq!(find(&data.methods, "modify_data").unwrap().receiver, Receiver::Exclusive);
}

#[test]
fn pure_read_field_has_no_write_or_modify() {
    let w = derive_mmio(&basic_uart()).unwrap();
    let status = &w.fields[2];
    assert_eq!(names(&status.methods), vec!["pointer_to_status", "read_status"]);
    assert!(status.methods.iter().all(|m| m.op != Operation::Write && m.op != Operation::Modify));
    assert_eq!(status.methods[1].receiver, Receiver::Shared);
}

#[test]
fn side_effecting_read_is_exclusive() {
    let w = derive_mmio(&basic_uart()).unwrap();
    let errors = &w.fields[3];
    assert_eq!(names(&errors.methods), vec!["pointer_to_errors", "read_errors"]);
    assert_eq!(errors.methods[1].receiver, Receiver::Exclusive);
    let control = &w.fields[1];
    assert_eq!(control.methods[1].receiver, Receiver::Exclusive);
}

#[test]
fn reserved_field_has_no_accessor() {
    let w = derive_mmio(&basic_uart()).unwrap();
    let r = &w.fields[4];
    assert!(matches!(r.kind, FieldKind::Reserved));
    assert!(r.methods.is_empty());
    assert_eq!(r.offset, 16);
}

#[test]
fn reserved_field_annotations_are_not_read() {
    let d = block("R", vec![reg("_pad", vec![word("bogus")])], 4);
    assert!(derive_mmio(&d).is_ok());
}

#[test]
fn array_accessors() {
    let d = block("A", vec![arr("regs", 4, vec![])], 16);
    let w = derive_mmio(&d).unwrap();
    let ms = &w.fields[0].methods;
    assert_eq!(
        names(ms),
        vec![
            "pointer_to_regs_start",
            "read_regs_unchecked",
            "read_regs",
            "write_regs_unchecked",
            "write_regs",
            "modify_regs_unchecked",
            "modify_regs"
        ]
    );
    for m in ms.iter().skip(1) {
        assert!(m.indexed);
        assert_eq!(m.is_unsafe, !m.checked);
    }
}

#[test]
fn write_only_array_accessors() {
    let d = block("A", vec![arr("w", 2, vec![word("Write")])], 8);
    let w = derive_mmio(&d).unwrap();
    assert_eq!(
        names(&w.fields[0].methods),
        vec!["pointer_to_w_start", "write_w_unchecked", "write_w"]
    );
}

fn bank_field(name: &str) -> FieldDecl {
    FieldDecl {
        name: name.to_string(),
        ty: FieldType::Path { path: "inner::UartBank".to_string(), size: 8 },
        annotations: vec![word("inner")],
    }
}

#[test]
fn nested_block_accessors() {
    let d = block("Uart", vec![reg("control", vec![]), bank_field("bank_0")], 12);
    let w = derive_mmio(&d).unwrap();
    let f = &w.fields[1];
    assert!(matches!(&f.kind, FieldKind::Block { wrapper, size: 8 } if wrapper == "inner::MmioUartBank"));
    assert_eq!(names(&f.methods), vec!["bank_0", "bank_0_shared", "steal_bank_0", "steal_bank_0_shared"]);
    let borrowed = find(&f.methods, "bank_0").unwrap();
    assert_eq!(borrowed.receiver, Receiver::Exclusive);
    assert!(!borrowed.is_unsafe);
    let shared = find(&f.methods, "bank_0_shared").unwrap();
    assert_eq!(shared.receiver, Receiver::Shared);
    assert!(find(&f.methods, "steal_bank_0").unwrap().is_unsafe);
    assert_eq!(w.bound_checks, vec!["inner::MmioUartBank".to_string()]);
}

#[test]
fn nested_block_array_accessors() {
    let banks = FieldDecl {
        name: "banks".to_string(),
        ty: FieldType::Array { elem: Some("UartBank".to_string()), elem_size: 8, len: 2 },
        annotations: vec![word("inner")],
    };
    let d = block("Uart", vec![reg("control", vec![]), banks], 20);
    let w = derive_mmio(&d).unwrap();
    let f = &w.fields[1];
    assert_eq!(
        names(&f.methods),
        vec![
            "banks",
            "banks_unchecked",
            "banks_shared",
            "banks_shared_unchecked",
            "steal_banks",
            "steal_banks_unchecked",
            "steal_banks_shared",
            "steal_banks_shared_unchecked",
            "banks_array_len"
        ]
    );
    assert!(f.methods.iter().filter(|m| m.indexed && !m.checked).all(|m| m.is_unsafe));
    assert_eq!(w.bound_checks, vec!["MmioUartBank".to_string()]);
}

#[test]
fn shared_accessors_never_mutate() {
    let banks = FieldDecl {
        name: "banks".to_string(),
        ty: FieldType::Array { elem: Some("UartBank".to_string()), elem_size: 8, len: 2 },
        annotations: vec![word("inner")],
    };
    let d = block("Uart", vec![reg("control", vec![]), bank_field("bank"), banks, arr("a", 2, vec![])], 36);
    let w = derive_mmio(&d).unwrap();
    for f in &w.fields {
        for m in &f.methods {
            if m.receiver == Receiver::Shared {
                assert!(!matches!(m.op, Operation::Write | Operation::Modify | Operation::Nested | Operation::Steal));
            }
        }
    }
}

#[test]
fn const_options_reach_the_accessors() {
    let mut d = block("Uart", vec![reg("control", vec![]), bank_field("bank")], 12);
    d.options = vec![word("const_ptr"), word("const_inner"), word("no_ctors")];
    let w = derive_mmio(&d).unwrap();
    assert!(w.fields[0].methods[0].is_const);
    assert!(!w.fields[0].methods[1].is_const);
    assert!(w.fields[1].methods.iter().all(|m| m.is_const));
    assert!(!w.has_constructors());
    let plain = derive_mmio(&basic_uart()).unwrap();
    assert!(plain.has_constructors());
    assert!(!plain.fields[0].methods[0].is_const);
}

#[test]
fn size_mismatch_is_refused() {
    let mut d = basic_uart();
    d.size = 24;
    assert_eq!(derive_mmio(&d).unwrap_err(), GenError::SizeMismatch);
    let mut d = basic_uart();
    d.fields.push(FieldDecl {
        name: "_reserved2".to_string(),
        ty: FieldType::Path { path: "u8".to_string(), size: 1 },
        annotations: vec![],
    });
    assert_eq!(derive_mmio(&d).unwrap_err(), GenError::SizeMismatch);
}

#[test]
fn layout_and_shape_are_checked() {
    let mut d = basic_uart();
    d.repr_c = false;
    assert_eq!(derive_mmio(&d).unwrap_err(), GenError::NotReprC);
    let mut d = basic_uart();
    d.shape = DeclShape::NotAStruct;
    assert_eq!(derive_mmio(&d).unwrap_err(), GenError::NotAStruct);
    let mut d = basic_uart();
    d.shape = DeclShape::UnnamedFields;
    assert_eq!(derive_mmio(&d).unwrap_err(), GenError::UnnamedFields);
    let mut d = basic_uart();
    d.options = vec![word("bogus")];
    assert_eq!(derive_mmio(&d).unwrap_err(), GenError::UnknownBlockOption);
}

#[test]
fn invalid_inner_types_are_refused() {
    let bad_array = FieldDecl {
        name: "banks".to_string(),
        ty: FieldType::Array { elem: None, elem_size: 8, len: 2 },
        annotations: vec![word("inner")],
    };
    let d = block("Uart", vec![reg("control", vec![]), bad_array], 20);
    assert_eq!(derive_mmio(&d).unwrap_err(), GenError::InvalidInnerType { field: 1 });
    let other = FieldDecl {
        name: "t".to_string(),
        ty: FieldType::Other { size: 8 },
        annotations: vec![word("inner")],
    };
    let d = block("Uart", vec![other], 8);
    assert_eq!(derive_mmio(&d).unwrap_err(), GenError::InvalidInnerType { field: 0 });
}

#[test]
fn field_errors_come_before_the_size_check() {
    let d = block("Uart", vec![reg("a", vec![]), reg("b", vec![word("Modify")])], 99);
    assert_eq!(derive_mmio(&d).unwrap_err(), GenError::ModifyWithoutReadWrite { field: 1 });
}

#[test]
fn opaque_fields_get_no_accessor() {
    let t = FieldDecl { name: "t".to_string(), ty: FieldType::Other { size: 8 }, annotations: vec![] };
    let w: WrapperDef = derive_mmio(&block("T", vec![t], 8)).unwrap();
    assert!(matches!(w.fields[0].kind, FieldKind::Opaque));
    assert!(w.fields[0].methods.is_empty());
}

#[test]
fn minimal_derivation() {
    let d = block("Uart", vec![reg("data", vec![]), reg("status", vec![word("PureRead")])], 8);
    let (name, ms) = derive_answer_fn(&d).unwrap();
    assert_eq!(name, "MmioUart");
    assert_eq!(
        names(&ms),
        vec!["read_data", "write_data", "modify_data", "read_status", "write_status", "modify_status"]
    );
    assert!(ms.iter().all(|m| m.receiver == Receiver::Exclusive && !m.is_unsafe));
    let mut t = d.clone();
    t.shape = DeclShape::UnnamedFields;
    assert_eq!(derive_answer_fn(&t).unwrap_err(), GenError::UnnamedFields);
    t.shape = DeclShape::NotAStruct;
    assert_eq!(derive_answer_fn(&t).unwrap_err(), GenError::NotAStruct);
    let mut u = d.clone();
    u.repr_c = false;
    assert!(derive_answer_fn(&u).is_ok());
}
