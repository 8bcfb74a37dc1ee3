use jvm_decompiler::classfile::{
    AccessFlags, AttributeInfo, ClassFile, ConstantInfo, ConstantPool, MethodInfo, ACC_ABSTRACT,
    ACC_ENUM, ACC_FINAL, ACC_INTERFACE, ACC_NATIVE, ACC_PRIVATE, ACC_PROTECTED, ACC_PUBLIC,
    ACC_STATIC, ACC_STRICT, ACC_SYNCHRONIZED,
};
use jvm_decompiler::error::{DescriptorError, ResolveError};
use jvm_decompiler::transform::{
    class_flags_to_modifiers, code_attribute, method_flags_to_modifiers, process_constant_pool,
    process_methods, resolve_unit, transform, transform_method,
};
use jvm_decompiler::types::{
    ClassRef, Descriptor, FieldRef, Literal, MethodRef, Modifier, NameRef, Signature, Type,
    UnitType,
};
use jvm_decompiler::unit::{CompilationUnit, Declaration, Metadata};

fn flags(bits: u16) -> AccessFlags {
    AccessFlags { bits }
}

fn utf8(text: &str) -> ConstantInfo {
    ConstantInfo::Utf8(text.to_string())
}

fn pool(constants: Vec<ConstantInfo>) -> ConstantPool {
    ConstantPool { constants }
}

fn shell() -> CompilationUnit<u32> {
    CompilationUnit {
        typ: UnitType::Class,
        modifiers: vec![Modifier::Public],
        declarations: vec![],
        metadata: Metadata::new(),
    }
}

/// 1 "Owner"  2 "count"  3 "I"  4 "add"  5 "(I,I)I"  6 Class(1)  7 NameAndType(2,3)
/// 8 NameAndType(4,5)  9 FieldRef(6,7)  10 MethodRef(6,8)  11 Integer  12 String(2)
/// 13 "Code"  14 "Other"
fn sample_pool() -> ConstantPool {
    pool(vec![
        utf8("Owner"),
        utf8("count"),
        utf8("I"),
        utf8("add"),
        utf8("(I,I)I"),
        ConstantInfo::Class { name_index: 1 },
        ConstantInfo::NameAndType { name_index: 2, descriptor_index: 3 },
        ConstantInfo::NameAndType { name_index: 4, descriptor_index: 5 },
        ConstantInfo::FieldRef { class_index: 6, name_index: 7 },
        ConstantInfo::MethodRef { class_index: 6, name_index: 8 },
        ConstantInfo::Integer(-3),
        ConstantInfo::String { string_index: 2 },
        utf8("Code"),
        utf8("Other"),
    ])
}

fn int_int_to_int() -> Signature {
    Signature { parameters: vec![Type::Int, Type::Int], return_type: Type::Int }
}

fn attribute(name_index: u16) -> AttributeInfo {
    AttributeInfo { name_index, info: vec![1, 2, 3] }
}

fn method_info(bits: u16, attributes: Vec<AttributeInfo>) -> MethodInfo {
    MethodInfo { access_flags: flags(bits), name_index: 4, descriptor_index: 5, attributes }
}

fn resolved_sample() -> CompilationUnit<u32> {
    resolve_unit(&flags(ACC_PUBLIC), &sample_pool()).unwrap()
}

#[test]
fn flag_is_contained_when_all_its_bits_are_set() {
    assert!(flags(0x0009).contains(ACC_PUBLIC));
    assert!(flags(0x0009).contains(ACC_STATIC));
    assert!(!flags(0x0009).contains(ACC_FINAL));
    assert!(flags(0x0009).contains(0x0009));
    assert!(!flags(0x0001).contains(0x0009));
    assert!(flags(0).contains(0));
}

#[test]
fn class_modifiers_come_in_a_fixed_order() {
    assert_eq!(class_flags_to_modifiers(&flags(0)), vec![]);
    assert_eq!(class_flags_to_modifiers(&flags(ACC_FINAL | ACC_PUBLIC)), vec![
        Modifier::Public,
        Modifier::Final
    ]);
    assert_eq!(
        class_flags_to_modifiers(&flags(
            ACC_PUBLIC | ACC_PROTECTED | ACC_PRIVATE | ACC_STATIC | ACC_ABSTRACT | ACC_FINAL
        )),
        vec![
            Modifier::Public,
            Modifier::Protected,
            Modifier::Private,
            Modifier::Static,
            Modifier::Abstract,
            Modifier::Final,
        ]
    );
}

#[test]
fn method_only_flags_are_not_class_modifiers() {
    assert_eq!(
        class_flags_to_modifiers(&flags(ACC_SYNCHRONIZED | ACC_NATIVE | ACC_STRICT | ACC_STATIC)),
        vec![Modifier::Static]
    );
    assert_eq!(class_flags_to_modifiers(&flags(ACC_INTERFACE | ACC_ENUM)), vec![]);
}

#[test]
fn method_modifiers_add_the_method_only_flags() {
    assert_eq!(
        method_flags_to_modifiers(&flags(ACC_STRICT | ACC_NATIVE | ACC_SYNCHRONIZED | ACC_PRIVATE)),
        vec![Modifier::Private, Modifier::Synchronized, Modifier::Native, Modifier::Strictfp]
    );
    assert_eq!(method_flags_to_modifiers(&flags(0xffff)), vec![
        Modifier::Public,
        Modifier::Protected,
        Modifier::Private,
        Modifier::Static,
        Modifier::Abstract,
        Modifier::Final,
        Modifier::Synchronized,
        Modifier::Native,
        Modifier::Strictfp,
    ]);
    assert_eq!(method_flags_to_modifiers(&flags(0)), vec![]);
}

#[test]
fn interface_takes_precedence_over_enum() {
    let empty = pool(vec![]);
    let kind = |bits: u16| resolve_unit::<u32>(&flags(bits), &empty).unwrap().typ;
    assert_eq!(kind(ACC_INTERFACE | ACC_ENUM), UnitType::Interface);
    assert_eq!(kind(ACC_INTERFACE), UnitType::Interface);
    assert_eq!(kind(ACC_ENUM | ACC_PUBLIC), UnitType::Enum);
    assert_eq!(kind(ACC_PUBLIC), UnitType::Class);
    assert_eq!(kind(0), UnitType::Class);
}

#[test]
fn pool_lookup_is_one_based() {
    let p = sample_pool();
    assert_eq!(p.lookup(0), None);
    assert_eq!(p.lookup(1), Some(&utf8("Owner")));
    assert_eq!(p.lookup(14), Some(&utf8("Other")));
    assert_eq!(p.lookup(15), None);
    assert_eq!(p.lookup_string(2), Ok(&"count".to_string()));
    assert_eq!(p.lookup_string(0), Err(ResolveError::DanglingIndex(0)));
    assert_eq!(p.lookup_string(6), Err(ResolveError::NotUtf8(6)));
    assert_eq!(p.lookup_name_and_type(7), Ok((2, 3)));
    assert_eq!(p.lookup_name_and_type(1), Err(ResolveError::NotNameAndType(1)));
    assert_eq!(p.lookup_name_and_type(99), Err(ResolveError::DanglingIndex(99)));
}

#[test]
fn every_kind_of_entry_is_resolved() {
    let mut unit = shell();
    assert_eq!(process_constant_pool(&mut unit, &sample_pool()), Ok(()));
    let md = &unit.metadata;
    assert_eq!(md.string_constants.len(), 7);
    assert_eq!(md.string_constants.get(&1), Some(&"Owner".to_string()));
    assert_eq!(md.string_constants.get(&5), Some(&"(I,I)I".to_string()));
    assert_eq!(md.string_constants.get(&13), Some(&"Code".to_string()));
    assert_eq!(md.class_refs.len(), 1);
    assert_eq!(md.class_refs.get(&6), Some(&ClassRef("Owner".to_string())));
    assert_eq!(md.name_refs.len(), 2);
    assert_eq!(
        md.name_refs.get(&7),
        Some(&NameRef { name: "count".to_string(), typ: Descriptor::Type(Type::Int) })
    );
    assert_eq!(
        md.name_refs.get(&8),
        Some(&NameRef { name: "add".to_string(), typ: Descriptor::Signature(int_int_to_int()) })
    );
    assert_eq!(md.field_refs.len(), 1);
    assert_eq!(
        md.field_refs.get(&9),
        Some(&FieldRef { class_ref: 6, name: "count".to_string(), typ: Type::Int })
    );
    assert_eq!(md.method_refs.len(), 1);
    assert_eq!(
        md.method_refs.get(&10),
        Some(&MethodRef { class_ref: 6, name: "add".to_string(), signature: int_int_to_int() })
    );
    assert_eq!(md.literals.len(), 2);
    assert_eq!(md.literals.get(&11), Some(&Literal::Integer(-3)));
    assert_eq!(md.literals.get(&12), Some(&Literal::String("count".to_string())));
    assert_eq!(unit.typ, UnitType::Class);
    assert_eq!(unit.modifiers, vec![Modifier::Public]);
    assert_eq!(unit.declarations.len(), 0);
}

#[test]
fn entries_may_refer_forward() {
    let mut unit = shell();
    let p = pool(vec![
        ConstantInfo::FieldRef { class_index: 2, name_index: 3 },
        ConstantInfo::Class { name_index: 6 },
        ConstantInfo::NameAndType { name_index: 4, descriptor_index: 5 },
        utf8("f"),
        utf8("[J"),
        utf8("Owner"),
    ]);
    assert_eq!(process_constant_pool(&mut unit, &p), Ok(()));
    assert_eq!(
        unit.metadata.field_refs.get(&1),
        Some(&FieldRef {
            class_ref: 2,
            name: "f".to_string(),
            typ: Type::Array(Box::new(Type::Long))
        })
    );
    assert_eq!(unit.metadata.class_refs.get(&2), Some(&ClassRef("Owner".to_string())));
}

#[test]
fn resolution_stops_at_the_first_bad_entry() {
    let mut unit = shell();
    let p = pool(vec![
        utf8("a"),
        ConstantInfo::Integer(1),
        ConstantInfo::Class { name_index: 9 },
        utf8("never"),
        ConstantInfo::Class { name_index: 2 },
    ]);
    assert_eq!(process_constant_pool(&mut unit, &p), Err(ResolveError::DanglingIndex(9)));
    assert_eq!(unit.metadata.string_constants.len(), 1);
    assert_eq!(unit.metadata.string_constants.get(&1), Some(&"a".to_string()));
    assert_eq!(unit.metadata.literals.get(&2), Some(&Literal::Integer(1)));
    assert_eq!(unit.metadata.class_refs.len(), 0);
    assert_eq!(unit.modifiers, vec![Modifier::Public]);
}

#[test]
fn ill_typed_references_are_named() {
    let run = |constants: Vec<ConstantInfo>| process_constant_pool(&mut shell(), &pool(constants));
    assert_eq!(
        run(vec![ConstantInfo::Class { name_index: 0 }]),
        Err(ResolveError::DanglingIndex(0))
    );
    assert_eq!(
        run(vec![ConstantInfo::Class { name_index: 1 }]),
        Err(ResolveError::NotUtf8(1))
    );
    assert_eq!(
        run(vec![ConstantInfo::Integer(0), ConstantInfo::String { string_index: 1 }]),
        Err(ResolveError::NotUtf8(1))
    );
    assert_eq!(
        run(vec![utf8("x"), ConstantInfo::FieldRef { class_index: 1, name_index: 1 }]),
        Err(ResolveError::NotNameAndType(1))
    );
    assert_eq!(
        run(vec![utf8("x"), ConstantInfo::MethodRef { class_index: 1, name_index: 7 }]),
        Err(ResolveError::DanglingIndex(7))
    );
    assert_eq!(
        run(vec![
            utf8("x"),
            ConstantInfo::Integer(5),
            ConstantInfo::NameAndType { name_index: 1, descriptor_index: 2 }
        ]),
        Err(ResolveError::NotUtf8(2))
    );
    assert_eq!(
        run(vec![
            utf8("f"),
            ConstantInfo::NameAndType { name_index: 3, descriptor_index: 1 },
            ConstantInfo::Integer(5),
            ConstantInfo::FieldRef { class_index: 1, name_index: 2 },
        ]),
        Err(ResolveError::NotUtf8(3))
    );
}

#[test]
fn malformed_descriptors_are_named() {
    let run = |constants: Vec<ConstantInfo>| process_constant_pool(&mut shell(), &pool(constants));
    assert_eq!(
        run(vec![
            utf8("f"),
            utf8("Q"),
            ConstantInfo::NameAndType { name_index: 1, descriptor_index: 2 }
        ]),
        Err(ResolveError::MalformedDescriptor(2, DescriptorError::InvalidTypeStart))
    );
    assert_eq!(
        run(vec![
            utf8("m"),
            utf8("(II)V"),
            ConstantInfo::NameAndType { name_index: 1, descriptor_index: 2 }
        ]),
        Err(ResolveError::MalformedDescriptor(2, DescriptorError::InvalidSeparator))
    );
    assert_eq!(
        run(vec![
            utf8("m"),
            utf8(""),
            ConstantInfo::NameAndType { name_index: 1, descriptor_index: 2 }
        ]),
        Err(ResolveError::MalformedDescriptor(2, DescriptorError::UnexpectedEnd))
    );
    // A method reference reads its descriptor as a signature, whatever it begins with.
    assert_eq!(
        run(vec![
            utf8("m"),
            utf8("I"),
            ConstantInfo::Integer(0),
            ConstantInfo::MethodRef { class_index: 1, name_index: 5 },
            ConstantInfo::NameAndType { name_index: 1, descriptor_index: 2 },
        ]),
        Err(ResolveError::MalformedDescriptor(2, DescriptorError::MissingOpenParen))
    );
    // A field reference reads it as a type.
    assert_eq!(
        run(vec![
            utf8("f"),
            utf8("Lp/Q"),
            ConstantInfo::Integer(0),
            ConstantInfo::FieldRef { class_index: 1, name_index: 5 },
            ConstantInfo::NameAndType { name_index: 1, descriptor_index: 2 },
        ]),
        Err(ResolveError::MalformedDescriptor(2, DescriptorError::UnterminatedClassName))
    );
}

#[test]
fn pool_of_the_largest_size_is_accepted() {
    let mut constants: Vec<ConstantInfo> = (0..65535).map(|i| ConstantInfo::Integer(i)).collect();
    let mut unit = shell();
    assert_eq!(process_constant_pool(&mut unit, &pool(constants.clone())), Ok(()));
    assert_eq!(unit.metadata.literals.len(), 65535);
    assert_eq!(unit.metadata.literals.get(&65535), Some(&Literal::Integer(65534)));
    assert_eq!(unit.metadata.literals.get(&1), Some(&Literal::Integer(0)));

    constants.push(ConstantInfo::Integer(0));
    let mut other = shell();
    assert_eq!(
        process_constant_pool(&mut other, &pool(constants)),
        Err(ResolveError::PoolTooLarge)
    );
    assert_eq!(other.metadata.literals.len(), 0);
}

#[test]
fn code_attribute_is_the_first_named_code() {
    let unit = resolved_sample();
    assert_eq!(code_attribute(&unit, &method_info(0, vec![])), Ok(None));
    assert_eq!(code_attribute(&unit, &method_info(0, vec![attribute(14)])), Ok(None));
    assert_eq!(
        code_attribute(&unit, &method_info(0, vec![attribute(14), attribute(13), attribute(13)])),
        Ok(Some(1))
    );
    assert_eq!(
        code_attribute(&unit, &method_info(0, vec![attribute(13), attribute(6)])),
        Ok(Some(0))
    );
    assert_eq!(
        code_attribute(&unit, &method_info(0, vec![attribute(6), attribute(13)])),
        Err(ResolveError::DanglingIndex(6))
    );
    assert_eq!(
        code_attribute(&unit, &method_info(0, vec![attribute(200)])),
        Err(ResolveError::DanglingIndex(200))
    );
}

#[test]
fn method_with_a_code_attribute_gets_its_body() {
    let unit = resolved_sample();
    let info = method_info(ACC_PUBLIC | ACC_STATIC, vec![attribute(14), attribute(13)]);
    match transform_method(&unit, &info, Some(77)).unwrap() {
        Declaration::Method(m) => {
            assert_eq!(m.modifiers, vec![Modifier::Public, Modifier::Static]);
            assert_eq!(m.name, "add");
            assert_eq!(m.signature, int_int_to_int());
            assert_eq!(m.parameter_names, Vec::<String>::new());
            assert_eq!(m.code, Some(77));
        }
        other => panic!("unexpected declaration {:?}", other),
    }
    match transform_method(&unit, &info, None).unwrap() {
        Declaration::Method(m) => assert_eq!(m.code, None),
        other => panic!("unexpected declaration {:?}", other),
    }
}

#[test]
fn method_without_a_code_attribute_has_no_body() {
    let unit = resolved_sample();
    let info = method_info(ACC_ABSTRACT, vec![attribute(14)]);
    match transform_method(&unit, &info, Some(77)).unwrap() {
        Declaration::Method(m) => {
            assert_eq!(m.modifiers, vec![Modifier::Abstract]);
            assert_eq!(m.code, None);
        }
        other => panic!("unexpected declaration {:?}", other),
    }
}

#[test]
fn method_errors() {
    let unit = resolved_sample();
    let with = |name_index: u16, descriptor_index: u16, attributes: Vec<AttributeInfo>| {
        let info = MethodInfo { access_flags: flags(0), name_index, descriptor_index, attributes };
        transform_method(&unit, &info, Some(1)).map(|_| ())
    };
    assert_eq!(with(4, 5, vec![]), Ok(()));
    assert_eq!(with(6, 5, vec![]), Err(ResolveError::DanglingIndex(6)));
    assert_eq!(with(4, 100, vec![]), Err(ResolveError::DanglingIndex(100)));
    assert_eq!(
        with(4, 3, vec![]),
        Err(ResolveError::MalformedDescriptor(3, DescriptorError::MissingOpenParen))
    );
    // The attributes are looked at before the name and the descriptor.
    assert_eq!(with(6, 100, vec![attribute(9)]), Err(ResolveError::DanglingIndex(9)));
    assert_eq!(with(6, 100, vec![attribute(13)]), Err(ResolveError::DanglingIndex(6)));
}

#[test]
fn methods_are_appended_in_order() {
    let mut unit = resolved_sample();
    let methods = vec![
        method_info(ACC_STATIC, vec![attribute(13)]),
        method_info(ACC_NATIVE, vec![]),
        method_info(ACC_FINAL, vec![attribute(13)]),
        method_info(0, vec![attribute(13)]),
    ];
    assert_eq!(process_methods(&mut unit, &methods, vec![Some(10), Some(20), None]), Ok(()));
    let codes: Vec<Option<u32>> = unit
        .declarations
        .iter()
        .map(|d| match d {
            Declaration::Method(m) => m.code,
            other => panic!("unexpected declaration {:?}", other),
        })
        .collect();
    assert_eq!(codes, vec![Some(10), None, None, None]);
    let modifiers: Vec<Vec<Modifier>> = unit
        .declarations
        .iter()
        .map(|d| match d {
            Declaration::Method(m) => m.modifiers.clone(),
            other => panic!("unexpected declaration {:?}", other),
        })
        .collect();
    assert_eq!(
        modifiers,
        vec![vec![Modifier::Static], vec![Modifier::Native], vec![Modifier::Final], vec![]]
    );
}

#[test]
fn methods_stop_at_the_first_bad_record() {
    let mut unit = resolved_sample();
    let bad = MethodInfo {
        access_flags: flags(0),
        name_index: 4,
        descriptor_index: 2,
        attributes: vec![],
    };
    let methods = vec![method_info(0, vec![]), bad, method_info(0, vec![attribute(77)])];
    assert_eq!(
        process_methods(&mut unit, &methods, vec![]),
        Err(ResolveError::MalformedDescriptor(2, DescriptorError::MissingOpenParen))
    );
    assert_eq!(unit.declarations.len(), 1);
}

#[test]
fn whole_class_file() {
    let class_file = ClassFile {
        access_flags: flags(ACC_PUBLIC | ACC_FINAL | ACC_ENUM),
        constant_pool: sample_pool(),
        methods: vec![
            method_info(ACC_PUBLIC | ACC_STATIC, vec![attribute(13)]),
            method_info(ACC_PROTECTED | ACC_ABSTRACT, vec![]),
        ],
    };
    let unit = transform(class_file, vec![Some("body".to_string()), Some("none".to_string())]).unwrap();
    assert_eq!(unit.typ, UnitType::Enum);
    assert_eq!(unit.modifiers, vec![Modifier::Public, Modifier::Final]);
    assert_eq!(unit.metadata.method_refs.len(), 1);
    assert_eq!(unit.metadata.string_constants.len(), 7);
    assert_eq!(unit.declarations.len(), 2);
    match &unit.declarations[0] {
        Declaration::Method(m) => {
            assert_eq!(m.name, "add");
            assert_eq!(m.modifiers, vec![Modifier::Public, Modifier::Static]);
            assert_eq!(m.signature, int_int_to_int());
            assert_eq!(m.code, Some("body".to_string()));
        }
        other => panic!("unexpected declaration {:?}", other),
    }
    match &unit.declarations[1] {
        Declaration::Method(m) => {
            assert_eq!(m.modifiers, vec![Modifier::Protected, Modifier::Abstract]);
            assert_eq!(m.code, None);
        }
        other => panic!("unexpected declaration {:?}", other),
    }
}

#[test]
fn class_file_errors() {
    let broken_pool = ClassFile {
        access_flags: flags(0),
        constant_pool: pool(vec![ConstantInfo::String { string_index: 3 }]),
        methods: vec![method_info(0, vec![])],
    };
    assert_eq!(
        transform::<u32>(broken_pool, vec![]).map(|unit| unit.declarations.len()),
        Err(ResolveError::DanglingIndex(3))
    );
    let broken_method = ClassFile {
        access_flags: flags(0),
        constant_pool: pool(vec![utf8("only")]),
        methods: vec![method_info(0, vec![])],
    };
    assert_eq!(
        transform::<u32>(broken_method, vec![]).map(|unit| unit.declarations.len()),
        Err(ResolveError::DanglingIndex(4))
    );
}
