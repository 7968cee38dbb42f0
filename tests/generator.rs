use rs_bindings_from_cc::decl::{
    Declaration, FieldDecl, FunctionDecl, FunctionKind, Location, Param, Reason, RecordDecl, Scope,
    TypePosition,
};
use rs_bindings_from_cc::diagnostics::{copy_reason, diagnostics, Diagnostic};
use rs_bindings_from_cc::engine::{generate, Outcome};
use rs_bindings_from_cc::layout::{host_size_align, layout_agrees_with, LayoutFact};
use rs_bindings_from_cc::mirror::bind_record;
use rs_bindings_from_cc::thunk::plan_thunk;
use rs_bindings_from_cc::types::{map_pointee, map_type, ForeignType, HostType, Primitive, RecordState};
use rs_bindings_from_cc::SomeStruct;

fn prim(p: Primitive) -> ForeignType {
    ForeignType::Primitive(p)
}

fn ptr(t: ForeignType, is_const: bool) -> ForeignType {
    ForeignType::Pointer { pointee: Box::new(t), is_const }
}

fn lref(t: ForeignType, is_const: bool) -> ForeignType {
    ForeignType::LValueRef { referent: Box::new(t), is_const }
}

fn rref(t: ForeignType) -> ForeignType {
    ForeignType::RValueRef { referent: Box::new(t), is_const: false }
}

fn field(name: &str, ty: ForeignType) -> FieldDecl {
    FieldDecl { name: name.to_string(), ty }
}

fn param(name: &str, ty: ForeignType) -> Param {
    Param { name: name.to_string(), ty }
}

fn at(line: u64) -> Option<Location> {
    Some(Location { file: "types.h".to_string(), line })
}

fn fact(size: u64, align: u64, offsets: Vec<u64>) -> Option<LayoutFact> {
    Some(LayoutFact { size, align, field_bit_offsets: offsets })
}

fn empty_struct(name: &str) -> RecordDecl {
    RecordDecl {
        name: name.to_string(),
        scope: Scope::Global,
        fields: vec![],
        layout: fact(1, 1, vec![]),
        location: at(7),
    }
}

/// The struct with every supported field type; `some` is the index of the
/// empty struct that it holds by value and points to.
fn field_type_test_struct(some: usize) -> RecordDecl {
    let fields = vec![
        field("bool_field", prim(Primitive::Bool)),
        field("char_field", prim(Primitive::Char)),
        field("unsigned_char_field", prim(Primitive::UnsignedChar)),
        field("signed_char_field", prim(Primitive::SignedChar)),
        field("char16_t_field", prim(Primitive::Char16)),
        field("char32_t_field", prim(Primitive::Char32)),
        field("wchar_t_field", prim(Primitive::WChar)),
        field("short_field", prim(Primitive::Short)),
        field("int_field", prim(Primitive::Int)),
        field("long_field", prim(Primitive::Long)),
        field("long_long_field", prim(Primitive::LongLong)),
        field("unsigned_short_field", prim(Primitive::UnsignedShort)),
        field("unsigned_int_field", prim(Primitive::UnsignedInt)),
        field("unsigned_long_field", prim(Primitive::UnsignedLong)),
        field("unsigned_long_long_field", prim(Primitive::UnsignedLongLong)),
        field("signed_short_field", prim(Primitive::Short)),
        field("signed_int_field", prim(Primitive::Int)),
        field("signed_long_field", prim(Primitive::Long)),
        field("signed_long_long_field", prim(Primitive::LongLong)),
        field("int8_t_field", prim(Primitive::Int8)),
        field("int16_t_field", prim(Primitive::Int16)),
        field("int32_t_field", prim(Primitive::Int32)),
        field("int64_t_field", prim(Primitive::Int64)),
        field("uint8_t_field", prim(Primitive::UInt8)),
        field("uint16_t_field", prim(Primitive::UInt16)),
        field("uint32_t_field", prim(Primitive::UInt32)),
        field("uint64_t_field", prim(Primitive::UInt64)),
        field("ptrdiff_t_field", prim(Primitive::PtrDiff)),
        field("size_t_field", prim(Primitive::Size)),
        field("intptr_t_field", prim(Primitive::IntPtr)),
        field("uintptr_t_field", prim(Primitive::UIntPtr)),
        field("float_field", prim(Primitive::Float)),
        field("double_field", prim(Primitive::Double)),
        field("ptr_field", ptr(prim(Primitive::Int), false)),
        field("struct_field", ForeignType::Record(some)),
        field("struct_ptr_field", ptr(ForeignType::Record(some), false)),
        field("const_struct_ptr_field", ptr(ForeignType::Record(some), true)),
        field("struct_ref_field", lref(ForeignType::Record(some), false)),
        field("const_struct_ref_field", lref(ForeignType::Record(some), true)),
    ];
    RecordDecl {
        name: "FieldTypeTestStruct".to_string(),
        scope: Scope::Global,
        fields,
        layout: fact(216, 8, field_type_test_offsets()),
        location: at(10),
    }
}

fn field_type_test_offsets() -> Vec<u64> {
    vec![
        0, 8, 16, 24, 32, 64, 96, 128, 160, 192, 256, 320, 352, 384, 448, 512, 544, 576, 640, 704,
        720, 736, 768, 832, 848, 864, 896, 960, 1024, 1088, 1152, 1216, 1280, 1344, 1408, 1472, 1536,
        1600, 1664,
    ]
}

fn assignment_with_rvalue_param(record: usize) -> FunctionDecl {
    FunctionDecl {
        name: "SomeStruct::operator=".to_string(),
        kind: FunctionKind::Assignment,
        scope: Scope::Global,
        receiver: Some(record),
        params: vec![param("other", rref(ForeignType::Record(record)))],
        ret: lref(ForeignType::Record(record), false),
        location: at(7),
    }
}

fn void_returning_function() -> FunctionDecl {
    FunctionDecl {
        name: "VoidReturningFunction".to_string(),
        kind: FunctionKind::Free,
        scope: Scope::Global,
        receiver: None,
        params: vec![],
        ret: prim(Primitive::Void),
        location: at(52),
    }
}

fn types_header() -> Vec<Declaration> {
    vec![
        Declaration::Record(empty_struct("SomeStruct")),
        Declaration::Function(assignment_with_rvalue_param(0)),
        Declaration::Record(field_type_test_struct(0)),
        Declaration::Function(void_returning_function()),
    ]
}

fn skipped_reasons(o: &Outcome) -> &Vec<Reason> {
    match o {
        Outcome::Skipped(reasons) => reasons,
        other => panic!("expected a skipped declaration, got {:?}", other),
    }
}

#[test]
fn primitive_types_map_to_fixed_width_host_types() {
    let env: Vec<RecordState> = vec![];
    let cases = [
        (Primitive::Bool, HostType::Bool),
        (Primitive::Char, HostType::U8),
        (Primitive::SignedChar, HostType::I8),
        (Primitive::Char16, HostType::U16),
        (Primitive::Char32, HostType::U32),
        (Primitive::WChar, HostType::I32),
        (Primitive::Short, HostType::I16),
        (Primitive::Long, HostType::I64),
        (Primitive::UnsignedLong, HostType::U64),
        (Primitive::PtrDiff, HostType::Isize),
        (Primitive::Size, HostType::Usize),
        (Primitive::UIntPtr, HostType::Usize),
        (Primitive::Float, HostType::Float32),
        (Primitive::Double, HostType::Float64),
        (Primitive::Void, HostType::Unit),
    ];
    for (p, h) in cases {
        assert_eq!(map_type(&prim(p), &env), Some(h));
    }
}

#[test]
fn pointers_and_references_become_raw_pointers() {
    let env = vec![RecordState::Declared];
    assert_eq!(
        map_type(&ptr(prim(Primitive::Int), false), &env),
        Some(HostType::MutPtr(Box::new(HostType::I32)))
    );
    assert_eq!(
        map_type(&lref(ForeignType::Record(0), true), &env),
        Some(HostType::ConstPtr(Box::new(HostType::Mirror(0))))
    );
    assert_eq!(map_pointee(&ForeignType::Record(0), &env), Some(HostType::Mirror(0)));
}

#[test]
fn unsupported_types_have_no_host_type() {
    let env = vec![RecordState::Declared, RecordState::Undeclared];
    assert_eq!(map_type(&rref(prim(Primitive::Int)), &env), None);
    assert_eq!(map_type(&ptr(ForeignType::MaxAlign, false), &env), None);
    assert_eq!(map_type(&ForeignType::MaxAlign, &env), None);
    assert_eq!(map_type(&ForeignType::Record(0), &env), None);
    assert_eq!(map_type(&ptr(ForeignType::Record(1), false), &env), None);
    assert_eq!(map_type(&ptr(ForeignType::Record(5), false), &env), None);
}

#[test]
fn mirrored_struct_by_value_has_its_recorded_layout() {
    let env = vec![RecordState::Mirrored { size: 24, align: 8 }];
    assert_eq!(map_type(&ForeignType::Record(0), &env), Some(HostType::Mirror(0)));
    assert_eq!(host_size_align(&HostType::Mirror(0), &env), (24, 8));
    assert_eq!(host_size_align(&HostType::MutPtr(Box::new(HostType::Mirror(0))), &env), (8, 8));
    assert_eq!(host_size_align(&HostType::U16, &env), (2, 2));
}

#[test]
fn layout_check_preserves_foreign_padding() {
    let env: Vec<RecordState> = vec![];
    let tys = vec![HostType::I32, HostType::I64, HostType::U8];
    assert!(layout_agrees_with(&tys, 24, 8, &vec![0, 64, 128], &env));
    assert!(!layout_agrees_with(&tys, 24, 8, &vec![0, 32, 96], &env));
    assert!(!layout_agrees_with(&tys, 16, 8, &vec![0, 64, 128], &env));
    assert!(!layout_agrees_with(&tys, 24, 4, &vec![0, 64, 128], &env));
    assert!(!layout_agrees_with(&tys, 24, 8, &vec![0, 64], &env));
}

#[test]
fn layout_check_over_varied_field_orders() {
    let env: Vec<RecordState> = vec![];
    let a = vec![HostType::U8, HostType::U64, HostType::U16];
    assert!(layout_agrees_with(&a, 24, 8, &vec![0, 64, 128], &env));
    let b = vec![HostType::U64, HostType::U16, HostType::U8];
    assert!(layout_agrees_with(&b, 16, 8, &vec![0, 64, 80], &env));
    let c = vec![HostType::U16, HostType::U8, HostType::U8, HostType::U32];
    assert!(layout_agrees_with(&c, 8, 4, &vec![0, 16, 24, 32], &env));
}

#[test]
fn empty_struct_gets_one_placeholder_byte() {
    let env = vec![RecordState::Declared];
    let m = bind_record(0, &empty_struct("SomeStruct"), &env).unwrap();
    assert!(m.placeholder);
    assert_eq!(m.fields, vec![HostType::U8]);
    assert_eq!((m.size, m.align), (1, 1));
    assert_eq!(m.field_bit_offsets, vec![0]);
    assert_eq!(std::mem::size_of::<SomeStruct>(), 1);
    assert_eq!(std::mem::align_of::<SomeStruct>(), 1);
}

#[test]
fn empty_struct_with_wider_layout_is_a_mismatch() {
    let env = vec![RecordState::Declared];
    let mut r = empty_struct("Wide");
    r.layout = fact(4, 4, vec![]);
    assert_eq!(bind_record(0, &r, &env).unwrap_err(), vec![Reason::LayoutMismatch]);
}

#[test]
fn struct_without_layout_is_skipped() {
    let env = vec![RecordState::Undeclared];
    let mut r = empty_struct("Opaque");
    r.layout = None;
    assert_eq!(bind_record(0, &r, &env).unwrap_err(), vec![Reason::LayoutUnavailable]);
}

#[test]
fn struct_in_namespace_is_skipped() {
    let env = vec![RecordState::Undeclared];
    let mut r = empty_struct("__u");
    r.scope = Scope::Namespace;
    assert_eq!(bind_record(0, &r, &env).unwrap_err(), vec![Reason::NamespaceNotSupported]);
}

#[test]
fn every_unsupported_field_gets_a_reason() {
    let env = vec![RecordState::Declared];
    let r = RecordDecl {
        name: "Mixed".to_string(),
        scope: Scope::Global,
        fields: vec![
            field("a", ptr(ForeignType::MaxAlign, false)),
            field("b", prim(Primitive::Int)),
            field("c", rref(prim(Primitive::Int))),
        ],
        layout: fact(24, 8, vec![0, 64, 128]),
        location: None,
    };
    assert_eq!(
        bind_record(0, &r, &env).unwrap_err(),
        vec![
            Reason::UnsupportedType {
                position: TypePosition::Field(0),
                ty: ptr(ForeignType::MaxAlign, false)
            },
            Reason::UnsupportedType { position: TypePosition::Field(2), ty: rref(prim(Primitive::Int)) },
        ]
    );
}

#[test]
fn field_type_test_struct_matches_the_foreign_layout() {
    let env = vec![RecordState::Mirrored { size: 1, align: 1 }, RecordState::Declared];
    let m = bind_record(1, &field_type_test_struct(0), &env).unwrap();
    assert_eq!(m.fields.len(), 39);
    assert_eq!((m.size, m.align), (216, 8));
    assert_eq!(m.field_bit_offsets, field_type_test_offsets());
    assert_eq!(m.field_bit_offsets[9], 192);
    assert_eq!(m.field_bit_offsets[10], 256);
    assert_eq!(m.fields[9], HostType::I64);
    assert_eq!(m.fields[34], HostType::Mirror(0));
    assert_eq!(m.fields[38], HostType::ConstPtr(Box::new(HostType::Mirror(0))));
}

#[test]
fn struct_by_value_needs_an_earlier_mirror() {
    let env = vec![RecordState::Declared, RecordState::Declared];
    let r = field_type_test_struct(0);
    let reasons = bind_record(1, &r, &env).unwrap_err();
    assert_eq!(
        reasons,
        vec![Reason::UnsupportedType { position: TypePosition::Field(34), ty: ForeignType::Record(0) }]
    );
}

#[test]
fn free_function_gets_a_thunk() {
    let env: Vec<RecordState> = vec![];
    let t = plan_thunk(3, &void_returning_function(), &env).unwrap();
    assert_eq!(t.decl, 3);
    assert_eq!(t.symbol, "VoidReturningFunction");
    assert_eq!(t.kind, FunctionKind::Free);
    assert_eq!(t.receiver, None);
    assert!(t.params.is_empty());
    assert_eq!(t.ret, HostType::Unit);
}

#[test]
fn constructor_of_mirrored_struct_gets_a_thunk() {
    let env = vec![RecordState::Mirrored { size: 1, align: 1 }];
    let f = FunctionDecl {
        name: "SomeStruct::SomeStruct".to_string(),
        kind: FunctionKind::Constructor,
        scope: Scope::Global,
        receiver: Some(0),
        params: vec![param("other", lref(ForeignType::Record(0), true))],
        ret: prim(Primitive::Void),
        location: at(7),
    };
    let t = plan_thunk(1, &f, &env).unwrap();
    assert_eq!(t.receiver, Some(0));
    assert_eq!(t.params, vec![HostType::ConstPtr(Box::new(HostType::Mirror(0)))]);
}

#[test]
fn rejections_are_all_recorded_in_order() {
    let env = vec![RecordState::Undeclared];
    let f = FunctionDecl {
        name: "operator=".to_string(),
        kind: FunctionKind::Assignment,
        scope: Scope::Class,
        receiver: Some(0),
        params: vec![param("", lref(ForeignType::Record(0), true))],
        ret: lref(ForeignType::Record(0), false),
        location: None,
    };
    assert_eq!(
        plan_thunk(1, &f, &env).unwrap_err(),
        vec![
            Reason::NestedClassesNotSupported,
            Reason::EmptyParameterName,
            Reason::UnsupportedType { position: TypePosition::Receiver, ty: ptr(ForeignType::Record(0), false) },
            Reason::UnsupportedType {
                position: TypePosition::Parameter(0),
                ty: lref(ForeignType::Record(0), true)
            },
            Reason::UnsupportedType { position: TypePosition::Return, ty: lref(ForeignType::Record(0), false) },
            Reason::RecordNotFound,
        ]
    );
}

#[test]
fn namespace_function_is_skipped() {
    let env: Vec<RecordState> = vec![];
    let mut f = void_returning_function();
    f.scope = Scope::Namespace;
    assert_eq!(plan_thunk(0, &f, &env).unwrap_err(), vec![Reason::NamespaceNotSupported]);
}

#[test]
fn receiver_without_mirror_is_record_not_found() {
    let env = vec![RecordState::Declared];
    let f = FunctionDecl {
        name: "~".to_string(),
        kind: FunctionKind::Destructor,
        scope: Scope::Global,
        receiver: Some(0),
        params: vec![],
        ret: prim(Primitive::Void),
        location: None,
    };
    assert_eq!(plan_thunk(1, &f, &env).unwrap_err(), vec![Reason::RecordNotFound]);
}

#[test]
fn types_header_declarations() {
    let report = generate(&types_header());
    assert_eq!(report.outcomes.len(), 4);
    match &report.outcomes[0] {
        Outcome::Mirror(m) => {
            assert!(m.placeholder);
            assert_eq!((m.size, m.align), (1, 1));
        }
        other => panic!("SomeStruct not mirrored: {:?}", other),
    }
    assert_eq!(
        skipped_reasons(&report.outcomes[1]),
        &vec![Reason::UnsupportedType {
            position: TypePosition::Parameter(0),
            ty: rref(ForeignType::Record(0))
        }]
    );
    match &report.outcomes[2] {
        Outcome::Mirror(m) => {
            assert_eq!((m.size, m.align), (216, 8));
            assert_eq!(m.record, 2);
            assert_eq!(m.field_bit_offsets, field_type_test_offsets());
        }
        other => panic!("FieldTypeTestStruct not mirrored: {:?}", other),
    }
    assert!(matches!(&report.outcomes[3], Outcome::Thunk(t) if t.decl == 3));
}

#[test]
fn every_declaration_is_bound_or_skipped_with_reasons() {
    let mut decls = types_header();
    let mut hidden = empty_struct("__u");
    hidden.scope = Scope::Namespace;
    decls.push(Declaration::Record(hidden));
    let report = generate(&decls);
    assert_eq!(report.outcomes.len(), decls.len());
    for o in &report.outcomes {
        if let Outcome::Skipped(reasons) = o {
            assert!(!reasons.is_empty());
        }
    }
    assert_eq!(skipped_reasons(&report.outcomes[4]), &vec![Reason::NamespaceNotSupported]);
}

#[test]
fn generating_twice_gives_identical_output() {
    let first = format!("{:?}", generate(&types_header()));
    let second = format!("{:?}", generate(&types_header()));
    assert_eq!(first, second);
}

#[test]
fn failing_special_member_does_not_affect_other_declarations() {
    let mut decls = types_header();
    decls[1] = Declaration::Function(FunctionDecl {
        name: "SomeStruct::operator=".to_string(),
        kind: FunctionKind::Assignment,
        scope: Scope::Global,
        receiver: Some(0),
        params: vec![param("other", lref(ForeignType::Record(0), true))],
        ret: lref(ForeignType::Record(0), false),
        location: at(7),
    });
    let with_valid = generate(&decls);
    let with_failing = generate(&types_header());
    assert!(matches!(&with_valid.outcomes[1], Outcome::Thunk(_)));
    assert!(matches!(&with_failing.outcomes[1], Outcome::Skipped(_)));
    for i in [0usize, 2, 3] {
        assert_eq!(
            format!("{:?}", with_valid.outcomes[i]),
            format!("{:?}", with_failing.outcomes[i])
        );
    }
}

#[test]
fn failing_struct_does_not_block_an_unrelated_struct() {
    let mut decls = types_header();
    if let Declaration::Record(r) = &mut decls[0] {
        r.layout = None;
    }
    decls.push(Declaration::Record(RecordDecl {
        name: "Pair".to_string(),
        scope: Scope::Global,
        fields: vec![field("a", prim(Primitive::Int)), field("b", prim(Primitive::Short))],
        layout: fact(8, 4, vec![0, 32]),
        location: None,
    }));
    let report = generate(&decls);
    assert_eq!(skipped_reasons(&report.outcomes[0]), &vec![Reason::LayoutUnavailable]);
    assert!(matches!(&report.outcomes[2], Outcome::Skipped(_)));
    assert!(matches!(&report.outcomes[4], Outcome::Mirror(m) if m.size == 8 && m.align == 4));
}

#[test]
fn diagnostics_follow_declaration_order_with_locations() {
    let mut decls = types_header();
    let mut hidden = empty_struct("__u");
    hidden.scope = Scope::Namespace;
    hidden.location = None;
    decls.insert(0, Declaration::Record(hidden));
    if let Declaration::Function(f) = &mut decls[2] {
        f.receiver = Some(1);
        f.params = vec![param("other", rref(ForeignType::Record(1)))];
        f.ret = lref(ForeignType::Record(1), false);
    }
    if let Declaration::Record(r) = &mut decls[3] {
        for fl in r.fields.iter_mut() {
            if fl.ty == ForeignType::Record(0) {
                fl.ty = ForeignType::Record(1);
            } else if fl.ty == ptr(ForeignType::Record(0), false) {
                fl.ty = ptr(ForeignType::Record(1), false);
            } else if fl.ty == ptr(ForeignType::Record(0), true) {
                fl.ty = ptr(ForeignType::Record(1), true);
            } else if fl.ty == lref(ForeignType::Record(0), false) {
                fl.ty = lref(ForeignType::Record(1), false);
            } else if fl.ty == lref(ForeignType::Record(0), true) {
                fl.ty = lref(ForeignType::Record(1), true);
            }
        }
    }
    let report = generate(&decls);
    let ds = diagnostics(&decls, &report);
    assert_eq!(
        ds,
        vec![
            Diagnostic { decl: 0, location: None, reason: Reason::NamespaceNotSupported },
            Diagnostic {
                decl: 2,
                location: at(7),
                reason: Reason::UnsupportedType {
                    position: TypePosition::Parameter(0),
                    ty: rref(ForeignType::Record(1))
                }
            },
        ]
    );
    assert!(matches!(&report.outcomes[3], Outcome::Mirror(_)));
}

#[test]
fn bound_declarations_have_no_diagnostics() {
    let mut decls = types_header();
    decls.remove(1);
    let report = generate(&decls);
    assert!(diagnostics(&decls, &report).is_empty());
}

#[test]
fn copied_reason_equals_the_original() {
    let r = Reason::UnsupportedType { position: TypePosition::Return, ty: lref(ForeignType::MaxAlign, false) };
    assert_eq!(copy_reason(&r), r);
}

fn pointer_holder(name: &str, target: usize) -> RecordDecl {
    RecordDecl {
        name: name.to_string(),
        scope: Scope::Global,
        fields: vec![field("next", ptr(ForeignType::Record(target), false))],
        layout: fact(8, 8, vec![0]),
        location: None,
    }
}

#[test]
fn cyclic_pointers_between_structs_bind() {
    let decls = vec![
        Declaration::Record(pointer_holder("A", 1)),
        Declaration::Record(pointer_holder("B", 0)),
    ];
    let report = generate(&decls);
    for (i, o) in report.outcomes.iter().enumerate() {
        match o {
            Outcome::Mirror(m) => {
                assert_eq!(m.record, i);
                assert_eq!(m.fields, vec![HostType::MutPtr(Box::new(HostType::Mirror(1 - i)))]);
            }
            other => panic!("struct {} not mirrored: {:?}", i, other),
        }
    }
}

#[test]
fn pointer_to_skipped_struct_that_can_be_named_binds() {
    let broken = RecordDecl {
        name: "Broken".to_string(),
        scope: Scope::Global,
        fields: vec![field("x", rref(prim(Primitive::Int)))],
        layout: fact(8, 8, vec![0]),
        location: None,
    };
    let decls = vec![Declaration::Record(broken), Declaration::Record(pointer_holder("Holder", 0))];
    let report = generate(&decls);
    assert!(matches!(&report.outcomes[0], Outcome::Skipped(_)));
    assert!(matches!(&report.outcomes[1], Outcome::Mirror(_)));
}

#[test]
fn pointer_to_struct_in_namespace_fails() {
    let mut hidden = empty_struct("__u");
    hidden.scope = Scope::Namespace;
    let decls = vec![Declaration::Record(hidden), Declaration::Record(pointer_holder("Holder", 0))];
    let report = generate(&decls);
    assert_eq!(
        skipped_reasons(&report.outcomes[1]),
        &vec![Reason::UnsupportedType {
            position: TypePosition::Field(0),
            ty: ptr(ForeignType::Record(0), false)
        }]
    );
}

#[test]
fn skipped_struct_for_another_reason_leaves_others_alone() {
    let mut by_field = types_header();
    if let Declaration::Record(r) = &mut by_field[2] {
        r.fields[0].ty = ForeignType::MaxAlign;
    }
    let mut by_layout = types_header();
    if let Declaration::Record(r) = &mut by_layout[2] {
        r.layout = fact(208, 8, field_type_test_offsets());
    }
    let a = generate(&by_field);
    let b = generate(&by_layout);
    assert!(matches!(&a.outcomes[2], Outcome::Skipped(_)));
    assert_eq!(skipped_reasons(&b.outcomes[2]), &vec![Reason::LayoutMismatch]);
    for i in [0usize, 1, 3] {
        assert_eq!(format!("{:?}", a.outcomes[i]), format!("{:?}", b.outcomes[i]));
    }
}
