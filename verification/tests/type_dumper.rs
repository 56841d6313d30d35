use profiler_toolkit::pdb::flags::{
    DumperFlags, NAME_ONLY, NO_FUNCTION_RETURN, SPACE_AFTER_COMMA, SPACE_BEFORE_POINTER,
};
use profiler_toolkit::pdb::rendering::ThisKind;
use profiler_toolkit::pdb::type_data::{
    ArgumentList, ArrayType, ClassKind, ClassType, EnumerateType, EnumerationType, IdData,
    MemberFunctionType, ModifierType, ParentScope, PointerMode, PointerType, PrimitiveKind,
    PrimitiveType, ProcedureType, TypeData, TypeError, UnionType, Variant,
};
use profiler_toolkit::pdb::type_dumper::TypeDumper;

fn primitive(kind: PrimitiveKind) -> Option<TypeData> {
    Some(TypeData::Primitive(PrimitiveType { kind, indirection: false }))
}

fn primitive_pointer(kind: PrimitiveKind) -> Option<TypeData> {
    Some(TypeData::Primitive(PrimitiveType { kind, indirection: true }))
}

fn pointer(underlying_type: u32, mode: PointerMode, is_const: bool) -> Option<TypeData> {
    Some(TypeData::Pointer(PointerType { underlying_type, mode, is_const, size: 8 }))
}

fn constant(underlying_type: u32) -> Option<TypeData> {
    Some(TypeData::Modifier(ModifierType { underlying_type, constant: true, volatile: false }))
}

fn volatile(underlying_type: u32) -> Option<TypeData> {
    Some(TypeData::Modifier(ModifierType { underlying_type, constant: false, volatile: true }))
}

fn class(name: &str, kind: ClassKind, size: u32, forward_reference: bool) -> Option<TypeData> {
    Some(TypeData::Class(ClassType {
        kind,
        forward_reference,
        size,
        name: name.to_string(),
        unique_name: None,
    }))
}

fn array(element_type: u32, size: u32) -> Option<TypeData> {
    Some(TypeData::Array(ArrayType { element_type, dimensions: vec![size] }))
}

fn arguments(arguments: Vec<u32>) -> Option<TypeData> {
    Some(TypeData::ArgumentList(ArgumentList { arguments }))
}

fn dumper(types: Vec<Option<TypeData>>) -> TypeDumper {
    TypeDumper::new(types, 8, DumperFlags::default())
}

fn flags(bits: u32) -> DumperFlags {
    DumperFlags::from_bits_truncate(bits)
}

#[test]
fn this_kind_from_flags() {
    assert_eq!(ThisKind::new(true, true), ThisKind::ConstThis);
    assert_eq!(ThisKind::new(true, false), ThisKind::This);
    assert_eq!(ThisKind::new(false, true), ThisKind::NotThis);
    assert_eq!(ThisKind::new(false, false), ThisKind::NotThis);
}

#[test]
fn default_flags_are_no_return_comma_space_name_only() {
    let flags = DumperFlags::default();
    assert_eq!(flags.bits(), 0b1011);
    assert!(flags.has(NO_FUNCTION_RETURN));
    assert!(flags.has(SPACE_AFTER_COMMA));
    assert!(!flags.has(SPACE_BEFORE_POINTER));
    assert!(flags.has(NAME_ONLY));
}

#[test]
fn flag_sets_combine() {
    let a = DumperFlags::from_bits_truncate(NO_FUNCTION_RETURN);
    let b = DumperFlags::from_bits_truncate(NAME_ONLY);
    let both = a.union(b);
    assert_eq!(both.bits(), 0b1001);
    assert!(both.contains(a));
    assert!(both.intersects(b));
    assert!(!a.intersects(b));
    assert!(!a.contains(both));
    assert_eq!(DumperFlags::empty().bits(), 0);
    assert_eq!(DumperFlags::all().bits(), 0b1111);
    assert_eq!(DumperFlags::from_bits_truncate(0xffff_fff0).bits(), 0);
}

#[test]
fn pointer_chain_in_source_order() {
    // const int * const *
    let types = vec![
        None,
        primitive(PrimitiveKind::I32),
        constant(1),
        pointer(2, PointerMode::Pointer, true),
        pointer(3, PointerMode::Pointer, false),
    ];
    assert_eq!(dumper(types).dump_index(4), Ok("int const* const*".to_string()));
}

#[test]
fn pointer_chain_with_space_before_pointer() {
    let types = vec![
        None,
        primitive(PrimitiveKind::I32),
        constant(1),
        pointer(2, PointerMode::Pointer, true),
        pointer(3, PointerMode::Pointer, false),
    ];
    let dumper = TypeDumper::new(types, 8, flags(SPACE_BEFORE_POINTER));
    assert_eq!(dumper.dump_index(4), Ok("int const * const *".to_string()));
    assert_eq!(dumper.dump_index(3), Ok("int const * const".to_string()));
}

#[test]
fn references_and_member_pointers() {
    let types = vec![
        None,
        primitive(PrimitiveKind::F64),
        pointer(1, PointerMode::LValueReference, false),
        pointer(1, PointerMode::RValueReference, false),
        pointer(1, PointerMode::Member, false),
        pointer(1, PointerMode::Pointer, false),
        pointer(5, PointerMode::LValueReference, false),
    ];
    let by_default = dumper(types);
    assert_eq!(by_default.dump_index(2), Ok("double&".to_string()));
    assert_eq!(by_default.dump_index(3), Ok("double&&".to_string()));
    assert_eq!(by_default.dump_index(4), Ok("double::*".to_string()));
    assert_eq!(by_default.dump_index(6), Ok("double*&".to_string()));
}

#[test]
fn space_before_pointer_follows_the_pointee() {
    let types = vec![
        None,
        primitive(PrimitiveKind::RChar),
        pointer(1, PointerMode::Pointer, false),
        primitive_pointer(PrimitiveKind::RChar),
        pointer(3, PointerMode::Pointer, false),
    ];
    let spaced = TypeDumper::new(types, 8, flags(SPACE_BEFORE_POINTER));
    assert_eq!(spaced.dump_index(2), Ok("char *".to_string()));
    assert_eq!(spaced.dump_index(3), Ok("char *".to_string()));
    assert_eq!(spaced.dump_index(4), Ok("char **".to_string()));
}

#[test]
fn member_function_signature() {
    // void C::f(int) const
    let types = vec![
        None,
        class("C", ClassKind::Class, 16, false),
        constant(1),
        pointer(2, PointerMode::Pointer, true),
        primitive(PrimitiveKind::I32),
        arguments(vec![4]),
        primitive(PrimitiveKind::Void),
        Some(TypeData::MemberFunction(MemberFunctionType {
            return_type: 6,
            class_type: 1,
            this_pointer_type: Some(3),
            is_constructor: false,
            argument_list: 5,
        })),
    ];
    let by_default = dumper(types);
    assert_eq!(
        by_default.dump_function("f", 7, Some(ParentScope::WithType(1))),
        Ok("C::f(int) const".to_string())
    );
    assert_eq!(by_default.dump_function("f", 7, None), Ok("f(int) const".to_string()));
    assert_eq!(by_default.dump_index(7), Ok("()(int)".to_string()));
}

#[test]
fn member_function_with_return_type() {
    let types = vec![
        None,
        class("C", ClassKind::Struct, 16, false),
        pointer(1, PointerMode::Pointer, true),
        primitive(PrimitiveKind::I32),
        primitive(PrimitiveKind::Bool8),
        arguments(vec![3, 4]),
        primitive(PrimitiveKind::Void),
        Some(TypeData::MemberFunction(MemberFunctionType {
            return_type: 6,
            class_type: 1,
            this_pointer_type: Some(2),
            is_constructor: false,
            argument_list: 5,
        })),
        Some(TypeData::MemberFunction(MemberFunctionType {
            return_type: 6,
            class_type: 1,
            this_pointer_type: None,
            is_constructor: false,
            argument_list: 5,
        })),
        Some(TypeData::MemberFunction(MemberFunctionType {
            return_type: 6,
            class_type: 1,
            this_pointer_type: Some(2),
            is_constructor: true,
            argument_list: 5,
        })),
    ];
    let dumper = TypeDumper::new(types, 8, flags(0));
    assert_eq!(
        dumper.dump_function("f", 7, Some(ParentScope::WithType(1))),
        Ok("void C::f(int,bool)".to_string())
    );
    assert_eq!(
        dumper.dump_function("g", 8, Some(ParentScope::WithType(1))),
        Ok("static void C::g(int,bool)".to_string())
    );
    assert_eq!(
        dumper.dump_function("C", 9, Some(ParentScope::WithType(1))),
        Ok("C::C(int,bool)".to_string())
    );
    assert_eq!(dumper.dump_index(7), Ok("void ()(int,bool)".to_string()));
}

#[test]
fn receiver_of_another_type_is_an_argument() {
    let types = vec![
        None,
        class("C", ClassKind::Class, 16, false),
        class("D", ClassKind::Class, 16, false),
        pointer(2, PointerMode::Pointer, false),
        primitive(PrimitiveKind::I32),
        arguments(vec![4]),
        arguments(vec![]),
        Some(TypeData::MemberFunction(MemberFunctionType {
            return_type: 4,
            class_type: 1,
            this_pointer_type: Some(3),
            is_constructor: false,
            argument_list: 5,
        })),
        Some(TypeData::MemberFunction(MemberFunctionType {
            return_type: 4,
            class_type: 1,
            this_pointer_type: Some(3),
            is_constructor: false,
            argument_list: 6,
        })),
    ];
    let by_default = dumper(types);
    assert_eq!(by_default.dump_function("f", 7, None), Ok("f(D*, int)".to_string()));
    assert_eq!(by_default.dump_function("f", 8, None), Ok("f(D*)".to_string()));
}

#[test]
fn procedure_signature() {
    let types = vec![
        None,
        primitive(PrimitiveKind::I32),
        primitive_pointer(PrimitiveKind::RChar),
        arguments(vec![1, 2]),
        Some(TypeData::Procedure(ProcedureType {
            return_type: Some(1),
            is_constructor: false,
            argument_list: 3,
        })),
    ];
    let with_return = TypeDumper::new(types, 8, flags(SPACE_AFTER_COMMA));
    assert_eq!(
        with_return.dump_function(
            "main",
            4,
            Some(ParentScope::WithId(IdData::String("app".to_string())))
        ),
        Ok("int app::main(int, char*)".to_string())
    );
    assert_eq!(with_return.dump_function("main", 4, None), Ok("int main(int, char*)".to_string()));
    assert_eq!(with_return.dump_index(4), Ok("int ()(int, char*)".to_string()));
}

#[test]
fn function_name_rules() {
    let types = vec![None, primitive(PrimitiveKind::I32)];
    let by_default = dumper(types);
    assert_eq!(by_default.dump_function("", 1, None), Ok("<name omitted>".to_string()));
    assert_eq!(by_default.dump_function("", 77, None), Ok("<name omitted>".to_string()));
    assert_eq!(by_default.dump_function("mangled", 0, None), Ok("mangled".to_string()));
    assert_eq!(by_default.dump_function("value", 1, None), Ok("value".to_string()));
    assert_eq!(by_default.dump_function("f", 2, None), Err(TypeError::TypeNotFound(2)));
    assert_eq!(by_default.dump_function("f", 0, None), Ok("f".to_string()));
}

#[test]
fn unexpected_scopes_degrade() {
    let types = vec![
        None,
        primitive(PrimitiveKind::I32),
        arguments(vec![]),
        Some(TypeData::Procedure(ProcedureType {
            return_type: None,
            is_constructor: false,
            argument_list: 2,
        })),
        Some(TypeData::Other("FieldList".to_string())),
    ];
    let by_default = dumper(types);
    assert_eq!(
        by_default.dump_function("f", 3, Some(ParentScope::WithType(1))),
        Ok("<unhandled scope type Primitive>::f()".to_string())
    );
    assert_eq!(
        by_default.dump_function("f", 3, Some(ParentScope::WithType(4))),
        Ok("<unhandled scope type FieldList>::f()".to_string())
    );
    assert_eq!(
        by_default.dump_function("f", 3, Some(ParentScope::WithType(9))),
        Ok("f()".to_string())
    );
    assert_eq!(
        by_default.dump_function("f", 3, Some(ParentScope::WithType(0))),
        Ok("f()".to_string())
    );
    assert_eq!(
        by_default.dump_function(
            "f",
            3,
            Some(ParentScope::WithId(IdData::Other("BuildInfo".to_string())))
        ),
        Ok("<unhandled id scope BuildInfo>::f()".to_string())
    );
    assert_eq!(by_default.dump_index(4), Ok("unhandled type /* FieldList */".to_string()));
}

#[test]
fn array_dimensions_from_byte_sizes() {
    // the levels have 400, 40 and 4 bytes, the element has 4
    let types = vec![
        None,
        primitive(PrimitiveKind::I32),
        array(1, 4),
        array(2, 40),
        array(3, 400),
    ];
    let by_default = dumper(types);
    assert_eq!(by_default.dump_index(4), Ok("int[10][10][1]".to_string()));
    assert_eq!(by_default.get_type_size(4), 400);
}

#[test]
fn array_of_ten_by_ten_by_four() {
    let types = vec![
        None,
        primitive(PrimitiveKind::I32),
        array(1, 16),
        array(2, 160),
        array(3, 1600),
    ];
    let by_default = dumper(types);
    assert_eq!(by_default.dump_index(4), Ok("int[10][10][4]".to_string()));
    assert_eq!(by_default.dump_index(2), Ok("int[4]".to_string()));
}

#[test]
fn array_of_elements_without_size() {
    let types = vec![
        None,
        class("A", ClassKind::Struct, 0, false),
        array(1, 0),
        array(2, 0),
        Some(TypeData::Array(ArrayType { element_type: 1, dimensions: vec![] })),
        Some(TypeData::Array(ArrayType { element_type: 1, dimensions: vec![24, 48] })),
    ];
    let by_default = dumper(types);
    assert_eq!(by_default.dump_index(2), Ok("A[]".to_string()));
    assert_eq!(by_default.dump_index(3), Ok("A[][]".to_string()));
    assert_eq!(by_default.dump_index(4), Err(TypeError::MissingDimension(4)));
    assert_eq!(by_default.get_type_size(4), 0);
    assert_eq!(by_default.dump_index(5), Ok("A[]".to_string()));
    assert_eq!(by_default.get_type_size(5), 48);
}

#[test]
fn forward_reference_has_the_defined_size() {
    let types = vec![
        None,
        class("S", ClassKind::Struct, 0, true),
        pointer(1, PointerMode::Pointer, false),
        class("S", ClassKind::Struct, 24, false),
        class("T", ClassKind::Struct, 0, true),
    ];
    let by_default = dumper(types);
    assert_eq!(by_default.get_type_size(1), 24);
    assert_eq!(by_default.get_type_size(3), 24);
    assert_eq!(by_default.get_type_size(4), 0);
    assert_eq!(by_default.get_type_size(2), 8);
}

#[test]
fn sizes_go_by_unique_name_and_last_definition() {
    let named = |name: &str, unique: &str, size: u32, forward_reference: bool| {
        Some(TypeData::Class(ClassType {
            kind: ClassKind::Class,
            forward_reference,
            size,
            name: name.to_string(),
            unique_name: Some(unique.to_string()),
        }))
    };
    let types = vec![
        named("S", ".?AUS@a@@", 8, false),
        named("S", ".?AUS@b@@", 12, false),
        named("S", ".?AUS@a@@", 0, true),
        named("S", ".?AUS@b@@", 0, true),
        named("S", ".?AUS@c@@", 5, true),
        Some(TypeData::Union(UnionType {
            forward_reference: false,
            size: 40,
            name: "U".to_string(),
            unique_name: None,
        })),
        Some(TypeData::Union(UnionType {
            forward_reference: true,
            size: 0,
            name: "U".to_string(),
            unique_name: None,
        })),
        named("S", ".?AUS@a@@", 16, false),
    ];
    let by_default = dumper(types);
    assert_eq!(by_default.get_type_size(2), 16);
    assert_eq!(by_default.get_type_size(3), 12);
    assert_eq!(by_default.get_type_size(4), 5);
    assert_eq!(by_default.get_type_size(6), 40);
    assert_eq!(by_default.get_type_size(0), 8);
}

#[test]
fn sizes_of_the_other_kinds() {
    let types = vec![
        primitive(PrimitiveKind::Void),
        primitive(PrimitiveKind::F80),
        primitive_pointer(PrimitiveKind::Void),
        Some(TypeData::Pointer(PointerType {
            underlying_type: 1,
            mode: PointerMode::Pointer,
            is_const: false,
            size: 4,
        })),
        constant(1),
        Some(TypeData::Enumeration(EnumerationType { underlying_type: 1, name: "E".to_string() })),
        Some(TypeData::Enumerate(EnumerateType { value: Variant::I16(-3), name: "e".to_string() })),
        arguments(vec![]),
        Some(TypeData::Procedure(ProcedureType {
            return_type: None,
            is_constructor: false,
            argument_list: 7,
        })),
        None,
        Some(TypeData::Other("Bitfield".to_string())),
        Some(TypeData::Modifier(ModifierType { underlying_type: 11, constant: true, volatile: false })),
    ];
    let dumper = TypeDumper::new(types, 4, DumperFlags::default());
    assert_eq!(dumper.get_type_size(0), 0);
    assert_eq!(dumper.get_type_size(1), 10);
    assert_eq!(dumper.get_type_size(2), 4);
    assert_eq!(dumper.get_type_size(3), 4);
    assert_eq!(dumper.get_type_size(4), 10);
    assert_eq!(dumper.get_type_size(5), 10);
    assert_eq!(dumper.get_type_size(6), 2);
    assert_eq!(dumper.get_type_size(7), 0);
    assert_eq!(dumper.get_type_size(8), 4);
    assert_eq!(dumper.get_type_size(9), 0);
    assert_eq!(dumper.get_type_size(10), 0);
    assert_eq!(dumper.get_type_size(11), 0);
    assert_eq!(dumper.get_type_size(500), 0);
}

#[test]
fn aggregates_with_and_without_keyword() {
    let types = || {
        vec![
            class("C", ClassKind::Class, 1, false),
            class("S", ClassKind::Struct, 1, false),
            class("I", ClassKind::Interface, 1, false),
            Some(TypeData::Union(UnionType {
                forward_reference: false,
                size: 4,
                name: "U".to_string(),
                unique_name: None,
            })),
            Some(TypeData::Enumeration(EnumerationType {
                underlying_type: 0,
                name: "E".to_string(),
            })),
            Some(TypeData::Enumerate(EnumerateType { value: Variant::U8(1), name: "e".to_string() })),
            constant(1),
            volatile(1),
        ]
    };
    let names = dumper(types());
    assert_eq!(names.dump_index(0), Ok("C".to_string()));
    assert_eq!(names.dump_index(3), Ok("U".to_string()));
    assert_eq!(names.dump_index(6), Ok("const S".to_string()));
    assert_eq!(names.dump_index(7), Ok("S".to_string()));
    let keywords = TypeDumper::new(types(), 8, flags(0));
    assert_eq!(keywords.dump_index(0), Ok("class C".to_string()));
    assert_eq!(keywords.dump_index(1), Ok("struct S".to_string()));
    assert_eq!(keywords.dump_index(2), Ok("interface I".to_string()));
    assert_eq!(keywords.dump_index(3), Ok("union U".to_string()));
    assert_eq!(keywords.dump_index(4), Ok("enum E".to_string()));
    assert_eq!(keywords.dump_index(5), Ok("enum class e".to_string()));
    assert_eq!(keywords.dump_index(6), Ok("const struct S".to_string()));
}

#[test]
fn primitives_with_indirection_and_const() {
    let types = vec![
        primitive(PrimitiveKind::UQuad),
        primitive_pointer(PrimitiveKind::WChar),
        constant(0),
        constant(1),
        primitive(PrimitiveKind::Complex32),
        primitive(PrimitiveKind::HRESULT),
        primitive(PrimitiveKind::NoType),
        primitive(PrimitiveKind::Char),
        primitive(PrimitiveKind::F128),
    ];
    let tight = dumper(
        types
            .iter()
            .map(|entry| match entry {
                Some(TypeData::Primitive(p)) => Some(TypeData::Primitive(*p)),
                Some(TypeData::Modifier(m)) => Some(TypeData::Modifier(*m)),
                _ => None,
            })
            .collect(),
    );
    assert_eq!(tight.dump_index(0), Ok("unsigned long long".to_string()));
    assert_eq!(tight.dump_index(1), Ok("wchar_t*".to_string()));
    assert_eq!(tight.dump_index(2), Ok("const unsigned long long".to_string()));
    assert_eq!(tight.dump_index(3), Ok("wchar_t const*".to_string()));
    assert_eq!(tight.dump_index(4), Ok("complex<float>".to_string()));
    assert_eq!(tight.dump_index(5), Ok("HRESULT".to_string()));
    assert_eq!(tight.dump_index(6), Ok("<NoType>".to_string()));
    assert_eq!(tight.dump_index(7), Ok("signed char".to_string()));
    assert_eq!(tight.dump_index(8), Ok("long double".to_string()));
    let spaced = TypeDumper::new(types, 8, flags(SPACE_BEFORE_POINTER));
    assert_eq!(spaced.dump_index(1), Ok("wchar_t *".to_string()));
    assert_eq!(spaced.dump_index(3), Ok("wchar_t const *".to_string()));
}

#[test]
fn pointers_to_functions() {
    let types = vec![
        None,
        primitive(PrimitiveKind::I32),
        arguments(vec![1, 1]),
        Some(TypeData::Procedure(ProcedureType {
            return_type: Some(1),
            is_constructor: false,
            argument_list: 2,
        })),
        pointer(3, PointerMode::Pointer, false),
        class("C", ClassKind::Class, 8, false),
        pointer(5, PointerMode::Pointer, true),
        Some(TypeData::MemberFunction(MemberFunctionType {
            return_type: 1,
            class_type: 5,
            this_pointer_type: Some(6),
            is_constructor: false,
            argument_list: 2,
        })),
        pointer(7, PointerMode::MemberFunction, false),
    ];
    let by_default = dumper(types);
    assert_eq!(by_default.dump_index(4), Ok("int (*)(int, int)".to_string()));
    assert_eq!(by_default.dump_index(8), Ok("int (C::*)(int, int)".to_string()));
}

#[test]
fn failures_of_the_stream_propagate() {
    let types = vec![
        None,
        pointer(0, PointerMode::Pointer, false),
        pointer(7, PointerMode::Pointer, false),
        arguments(vec![1]),
        constant(4),
        Some(TypeData::Procedure(ProcedureType {
            return_type: Some(0),
            is_constructor: false,
            argument_list: 3,
        })),
        Some(TypeData::Procedure(ProcedureType {
            return_type: Some(0),
            is_constructor: false,
            argument_list: 7,
        })),
        arguments(vec![]),
    ];
    let dumper = TypeDumper::new(types, 8, flags(0));
    assert_eq!(dumper.dump_index(0), Err(TypeError::UnparsableType(0)));
    assert_eq!(dumper.dump_index(1), Err(TypeError::UnparsableType(0)));
    assert_eq!(dumper.dump_index(2), Err(TypeError::IndexOrder { record: 2, target: 7 }));
    assert_eq!(dumper.dump_index(3), Err(TypeError::UnparsableType(0)));
    assert_eq!(dumper.dump_index(4), Err(TypeError::IndexOrder { record: 4, target: 4 }));
    assert_eq!(dumper.dump_index(5), Err(TypeError::UnparsableType(0)));
    assert_eq!(dumper.dump_index(6), Err(TypeError::IndexOrder { record: 6, target: 7 }));
    assert_eq!(dumper.dump_index(8), Err(TypeError::TypeNotFound(8)));
    assert!(matches!(dumper.find(0), Err(TypeError::UnparsableType(0))));
    assert!(matches!(dumper.find(8), Err(TypeError::TypeNotFound(8))));
    assert!(matches!(dumper.find(7), Ok(TypeData::ArgumentList(_))));
}

#[test]
fn return_type_that_fails_is_left_out() {
    let types = vec![
        None,
        arguments(vec![]),
        Some(TypeData::Procedure(ProcedureType {
            return_type: Some(0),
            is_constructor: false,
            argument_list: 1,
        })),
    ];
    let dumper = TypeDumper::new(types, 8, flags(0));
    assert_eq!(dumper.dump_function("f", 2, None), Ok("f()".to_string()));
}
