//! What the declarator of each type of a stream is.
//!
//! A declarator is built from the records that a record refers to. A record
//! may only refer to records that come before it in the stream, so every
//! declarator is finite.

use super::flags::DumperFlags;
use super::sizes::Stream;
use super::type_data::{
    ArrayType, ClassKind, ClassType, IdData, MemberFunctionType, ModifierType, ParentScope,
    PointerMode, PointerType, PrimitiveKind, PrimitiveType, ProcedureType, TypeData, TypeError,
    TypeIndex,
};
use crate::text::{decimal_text, trim_spaces, with_trailing_space};
use vstd::prelude::*;

verus! {

/// How the implicit receiver of a member function relates to its class.
#[derive(Clone, Copy, Debug, PartialEq, Eq, Structural)]
pub enum ThisKind {
    /// The receiver points to the class itself.
    This,
    /// The receiver points to the class through a `const` qualifier.
    ConstThis,
    /// The receiver points to something other than the class.
    NotThis,
}

impl ThisKind {
    /// The kind of a receiver, from whether it points to the class and
    /// whether its pointee is `const`.
    pub open spec fn classify(is_this: bool, is_const: bool) -> Self {
        if !is_this {
            Self::NotThis
        } else if is_const {
            Self::ConstThis
        } else {
            Self::This
        }
    }

    /// Classifies a receiver from whether it points to the class and whether
    /// its pointee is `const`.
    pub fn new(is_this: bool, is_const: bool) -> (kind: Self)
        ensures
            kind == Self::classify(is_this, is_const),
    {
        if is_this {
            if is_const {
                Self::ConstThis
            } else {
                Self::This
            }
        } else {
            Self::NotThis
        }
    }
}

/// The qualifiers of one level of a pointer chain.
#[derive(Clone, Copy, Debug, PartialEq, Eq, Structural)]
pub struct PtrAttributes {
    pub is_pointer_const: bool,
    pub is_pointee_const: bool,
    pub mode: PointerMode,
}

/// The parts of the signature of a member function.
pub struct MethodParts {
    pub is_static: bool,
    pub is_const: bool,
    pub return_text: Seq<char>,
    pub arguments: Seq<char>,
}

/// The innermost element of nested arrays, with the first dimension of each
/// array that lies between.
pub struct ArrayBase {
    pub dimensions: Seq<u32>,
    pub base: TypeData,
    pub index: TypeIndex,
}

/// The C/C++ spelling of a simple type.
pub open spec fn primitive_name(kind: PrimitiveKind) -> Seq<char> {
    match kind {
        PrimitiveKind::NoType => "<NoType>"@,
        PrimitiveKind::Void => "void"@,
        PrimitiveKind::Char => "signed char"@,
        PrimitiveKind::UChar => "unsigned char"@,
        PrimitiveKind::RChar => "char"@,
        PrimitiveKind::WChar => "wchar_t"@,
        PrimitiveKind::RChar16 => "char16_t"@,
        PrimitiveKind::RChar32 => "char32_t"@,
        PrimitiveKind::I8 => "int8_t"@,
        PrimitiveKind::U8 => "uint8_t"@,
        PrimitiveKind::Short => "short"@,
        PrimitiveKind::UShort => "unsigned short"@,
        PrimitiveKind::I16 => "int16_t"@,
        PrimitiveKind::U16 => "uint16_t"@,
        PrimitiveKind::Long => "long"@,
        PrimitiveKind::ULong => "unsigned long"@,
        PrimitiveKind::I32 => "int"@,
        PrimitiveKind::U32 => "unsigned int"@,
        PrimitiveKind::Quad => "long long"@,
        PrimitiveKind::UQuad => "unsigned long long"@,
        PrimitiveKind::I64 => "int64_t"@,
        PrimitiveKind::U64 => "uint64_t"@,
        PrimitiveKind::I128 | PrimitiveKind::Octa => "int128_t"@,
        PrimitiveKind::U128 | PrimitiveKind::UOcta => "uint128_t"@,
        PrimitiveKind::F16 => "float16_t"@,
        PrimitiveKind::F32 => "float"@,
        PrimitiveKind::F32PP => "float"@,
        PrimitiveKind::F48 => "float48_t"@,
        PrimitiveKind::F64 => "double"@,
        PrimitiveKind::F80 => "long double"@,
        PrimitiveKind::F128 => "long double"@,
        PrimitiveKind::Complex32 => "complex<float>"@,
        PrimitiveKind::Complex64 => "complex<double>"@,
        PrimitiveKind::Complex80 => "complex<long double>"@,
        PrimitiveKind::Complex128 => "complex<long double>"@,
        PrimitiveKind::Bool8 => "bool"@,
        PrimitiveKind::Bool16 => "bool16_t"@,
        PrimitiveKind::Bool32 => "bool32_t"@,
        PrimitiveKind::Bool64 => "bool64_t"@,
        PrimitiveKind::HRESULT => "HRESULT"@,
    }
}

/// The declarator of a simple type, `const` or not.
pub open spec fn primitive_text(
    flags: DumperFlags,
    primitive: PrimitiveType,
    is_const: bool,
) -> Seq<char> {
    let name = primitive_name(primitive.kind);
    if primitive.indirection {
        if flags.spaces_before_pointer() {
            if is_const {
                name + " const *"@
            } else {
                name + " *"@
            }
        } else if is_const {
            name + " const*"@
        } else {
            name + "*"@
        }
    } else if is_const {
        "const "@ + name
    } else {
        name
    }
}

/// The keyword of an aggregate.
pub open spec fn class_keyword(kind: ClassKind) -> Seq<char> {
    match kind {
        ClassKind::Class => "class"@,
        ClassKind::Interface => "interface"@,
        ClassKind::Struct => "struct"@,
    }
}

/// `name`, after `keyword` unless the style asks for names only.
pub open spec fn named_text(flags: DumperFlags, keyword: Seq<char>, name: Seq<char>) -> Seq<char> {
    if flags.names_only() {
        name
    } else {
        keyword + " "@ + name
    }
}

/// The declarator of a class, struct or interface.
pub open spec fn class_text(flags: DumperFlags, class: ClassType) -> Seq<char> {
    named_text(flags, class_keyword(class.kind), class.name@)
}

/// What separates two arguments.
pub open spec fn comma_text(flags: DumperFlags) -> Seq<char> {
    if flags.spaces_after_comma() {
        ", "@
    } else {
        ","@
    }
}

/// The word `const` as it stands among pointer sigils.
pub open spec fn const_text(flags: DumperFlags) -> Seq<char> {
    if flags.spaces_before_pointer() {
        " const "@
    } else {
        " const"@
    }
}

/// The sigil of a pointer mode.
pub open spec fn sigil_text(mode: PointerMode) -> Seq<char> {
    match mode {
        PointerMode::Pointer => "*"@,
        PointerMode::LValueReference => "&"@,
        PointerMode::Member => "::*"@,
        PointerMode::MemberFunction => "::*"@,
        PointerMode::RValueReference => "&&"@,
    }
}

/// One level of a pointer chain: the qualifier of the pointee, the sigil,
/// the qualifier of the pointer.
pub open spec fn attribute_text(flags: DumperFlags, attribute: PtrAttributes) -> Seq<char> {
    (if attribute.is_pointee_const {
        const_text(flags)
    } else {
        Seq::empty()
    }) + sigil_text(attribute.mode) + (if attribute.is_pointer_const {
        const_text(flags)
    } else {
        Seq::empty()
    })
}

/// The levels of a pointer chain in source order, which is the reverse of
/// the order in which they are met when following the chain.
pub open spec fn attributes_sequence(flags: DumperFlags, attributes: Seq<PtrAttributes>) -> Seq<
    char,
>
    decreases attributes.len(),
{
    if attributes.len() == 0 {
        Seq::empty()
    } else {
        attribute_text(flags, attributes.last()) + attributes_sequence(
            flags,
            attributes.drop_last(),
        )
    }
}

/// The qualifiers and sigils of a pointer chain, without spaces at the ends.
pub open spec fn attributes_text(flags: DumperFlags, attributes: Seq<PtrAttributes>) -> Seq<char> {
    trim_spaces(attributes_sequence(flags, attributes))
}

/// The qualifiers of the level that a pointer record adds to a chain.
pub open spec fn level_of(pointer: PointerType) -> PtrAttributes {
    PtrAttributes {
        is_pointer_const: pointer.is_const,
        is_pointee_const: false,
        mode: pointer.mode,
    }
}

/// `attributes` with the pointee of the innermost level qualified.
pub open spec fn with_pointee_const(attributes: Seq<PtrAttributes>, constant: bool) -> Seq<
    PtrAttributes,
> {
    if attributes.len() == 0 {
        attributes
    } else {
        attributes.update(
            attributes.len() - 1,
            PtrAttributes { is_pointee_const: constant, ..attributes.last() },
        )
    }
}

/// Whether a space stands between the pointee and the sigils.
pub open spec fn needs_space(
    flags: DumperFlags,
    pointee: Seq<char>,
    attributes: Seq<char>,
) -> bool {
    if attributes.len() > 0 && attributes[0] == 'c' {
        true
    } else if flags.spaces_before_pointer() {
        !(pointee.len() > 0 && (pointee.last() == '*' || pointee.last() == '&'))
    } else {
        false
    }
}

/// One dimension of an array: the number of elements, which is the size of
/// the level in bytes over the size of one element of the level, or nothing
/// where the element has no size.
pub open spec fn dimension_text(size: u32, element_size: u32) -> Seq<char> {
    if element_size != 0 {
        "["@ + decimal_text((size / element_size) as nat) + "]"@
    } else {
        "[]"@
    }
}

/// The dimensions of nested arrays, the outermost first. `sizes` holds the
/// size in bytes of each level; the elements of a level are the next level,
/// and those of the last level have the size `base_size`.
pub open spec fn dimensions_text(sizes: Seq<u32>, base_size: u32) -> Seq<char>
    decreases sizes.len(),
{
    if sizes.len() == 0 {
        Seq::empty()
    } else {
        dimension_text(
            sizes[0],
            if sizes.len() > 1 {
                sizes[1]
            } else {
                base_size
            },
        ) + dimensions_text(sizes.drop_first(), base_size)
    }
}

/// The name of the kind of a record.
pub open spec fn kind_text(data: TypeData) -> Seq<char> {
    match data {
        TypeData::Primitive(_) => "Primitive"@,
        TypeData::Class(_) => "Class"@,
        TypeData::Union(_) => "Union"@,
        TypeData::Pointer(_) => "Pointer"@,
        TypeData::Modifier(_) => "Modifier"@,
        TypeData::Array(_) => "Array"@,
        TypeData::Procedure(_) => "Procedure"@,
        TypeData::MemberFunction(_) => "MemberFunction"@,
        TypeData::ArgumentList(_) => "ArgumentList"@,
        TypeData::Enumeration(_) => "Enumeration"@,
        TypeData::Enumerate(_) => "Enumerate"@,
        TypeData::Other(description) => description@,
    }
}

/// The signature of a function from its parts.
pub open spec fn signature_text(
    is_static: bool,
    return_text: Seq<char>,
    scope: Seq<char>,
    name: Seq<char>,
    arguments: Seq<char>,
    is_const: bool,
) -> Seq<char> {
    (if is_static {
        "static "@
    } else {
        Seq::empty()
    }) + with_trailing_space(return_text) + scope + name + "("@ + arguments + ")"@ + (if is_const {
        " const"@
    } else {
        Seq::empty()
    })
}

impl Stream {
    /// How the type at `this` relates to the class at `class`: whether it is
    /// a pointer to the class, directly or through one modifier.
    pub open spec fn check_this(self, this: TypeIndex, class: TypeIndex) -> Result<
        ThisKind,
        TypeError,
    > {
        match self.find(this) {
            Err(error) => Err(error),
            Ok(TypeData::Pointer(pointer)) => if pointer.underlying_type == class {
                Ok(ThisKind::This)
            } else {
                match self.find(pointer.underlying_type) {
                    Err(error) => Err(error),
                    Ok(TypeData::Modifier(modifier)) => Ok(
                        ThisKind::classify(modifier.underlying_type == class, modifier.constant),
                    ),
                    Ok(_) => Ok(ThisKind::NotThis),
                }
            },
            Ok(TypeData::Modifier(modifier)) => match self.find(modifier.underlying_type) {
                Err(error) => Err(error),
                Ok(TypeData::Pointer(pointer)) => Ok(
                    ThisKind::classify(pointer.underlying_type == class, modifier.constant),
                ),
                Ok(_) => Ok(ThisKind::NotThis),
            },
            Ok(_) => Ok(ThisKind::NotThis),
        }
    }

    /// The declarator of the type at `target`, to which the record at `record` refers.
    pub open spec fn render_ref(self, target: TypeIndex, record: TypeIndex) -> Result<
        Seq<char>,
        TypeError,
    >
        decreases record, 0nat, 0nat,
    {
        if target < record {
            self.render_index(target)
        } else {
            Err(TypeError::IndexOrder { record, target })
        }
    }

    /// The return type as a signature shows it: nothing where the style or a
    /// constructor suppresses it, or where it cannot be rendered.
    pub open spec fn return_text(
        self,
        return_type: Option<TypeIndex>,
        is_constructor: bool,
        no_return: bool,
        record: TypeIndex,
    ) -> Seq<char>
        decreases record, 1nat, 0nat,
    {
        match return_type {
            Some(target) => if !no_return && !is_constructor {
                match self.render_ref(target, record) {
                    Ok(text) => text,
                    Err(_) => Seq::empty(),
                }
            } else {
                Seq::empty()
            },
            None => Seq::empty(),
        }
    }

    /// The declarators of `arguments`, separated by commas.
    pub open spec fn arguments_text(self, arguments: Seq<TypeIndex>, record: TypeIndex) -> Result<
        Seq<char>,
        TypeError,
    >
        decreases record, 1nat, arguments.len(),
    {
        if arguments.len() == 0 {
            Ok(Seq::empty())
        } else {
            match self.arguments_text(arguments.drop_last(), record) {
                Err(error) => Err(error),
                Ok(earlier) => match self.render_ref(arguments.last(), record) {
                    Err(error) => Err(error),
                    Ok(text) => Ok(
                        if arguments.len() == 1 {
                            text
                        } else {
                            earlier + comma_text(self.flags) + text
                        },
                    ),
                },
            }
        }
    }

    /// The return type and the arguments of a free function.
    pub open spec fn procedure_parts(
        self,
        procedure: ProcedureType,
        no_return: bool,
        record: TypeIndex,
    ) -> Result<(Seq<char>, Seq<char>), TypeError>
        decreases record, 2nat, 0nat,
    {
        let return_text = self.return_text(
            procedure.return_type,
            procedure.is_constructor,
            no_return,
            record,
        );
        match self.render_ref(procedure.argument_list, record) {
            Err(error) => Err(error),
            Ok(arguments) => Ok((return_text, arguments)),
        }
    }

    /// The parts of the signature of a member function. The receiver is
    /// left out of the arguments where it points to the class of the
    /// function, and leads them where it does not.
    pub open spec fn method_parts(
        self,
        method: MemberFunctionType,
        no_return: bool,
        record: TypeIndex,
    ) -> Result<MethodParts, TypeError>
        decreases record, 2nat, 0nat,
    {
        let return_text = self.return_text(
            Some(method.return_type),
            method.is_constructor,
            no_return,
            record,
        );
        match self.render_ref(method.argument_list, record) {
            Err(error) => Err(error),
            Ok(arguments) => match method.this_pointer_type {
                None => Ok(
                    MethodParts { is_static: true, is_const: false, return_text, arguments },
                ),
                Some(this) => match self.check_this(this, method.class_type) {
                    Err(error) => Err(error),
                    Ok(ThisKind::NotThis) => match self.render_ref(this, record) {
                        Err(error) => Err(error),
                        Ok(this_text) => Ok(
                            MethodParts {
                                is_static: false,
                                is_const: false,
                                return_text,
                                arguments: if arguments.len() == 0 {
                                    this_text
                                } else {
                                    this_text + ", "@ + arguments
                                },
                            },
                        ),
                    },
                    Ok(kind) => Ok(
                        MethodParts {
                            is_static: false,
                            is_const: kind == ThisKind::ConstThis,
                            return_text,
                            arguments,
                        },
                    ),
                },
            },
        }
    }

    /// The declarator of a pointer whose levels so far are `attributes` and
    /// whose pointee is the member function `method`.
    pub open spec fn member_pointer_text(
        self,
        method: MemberFunctionType,
        attributes: Seq<PtrAttributes>,
        record: TypeIndex,
    ) -> Result<Seq<char>, TypeError>
        decreases record, 18nat, 0nat,
    {
        match self.render_ref(method.class_type, record) {
            Err(error) => Err(error),
            Ok(class) => match self.method_parts(method, false, record) {
                Err(error) => Err(error),
                Ok(parts) => Ok(
                    with_trailing_space(parts.return_text) + "("@ + class + attributes_text(
                        self.flags,
                        attributes,
                    ) + ")("@ + parts.arguments + ")"@,
                ),
            },
        }
    }

    /// The declarator of a pointer whose levels so far are `attributes` and
    /// whose pointee is the free function `procedure`.
    pub open spec fn procedure_pointer_text(
        self,
        procedure: ProcedureType,
        attributes: Seq<PtrAttributes>,
        record: TypeIndex,
    ) -> Result<Seq<char>, TypeError>
        decreases record, 18nat, 0nat,
    {
        match self.procedure_parts(procedure, false, record) {
            Err(error) => Err(error),
            Ok((return_text, arguments)) => Ok(
                with_trailing_space(return_text) + "("@ + attributes_text(self.flags, attributes)
                    + ")("@ + arguments + ")"@,
            ),
        }
    }

    /// The declarator of a pointer whose levels so far are `attributes` and
    /// whose pointee `data` is no function.
    pub open spec fn other_pointer_text(
        self,
        data: TypeData,
        attributes: Seq<PtrAttributes>,
        record: TypeIndex,
    ) -> Result<Seq<char>, TypeError>
        decreases record, 18nat, 0nat,
    {
        match self.render_data(data, record) {
            Err(error) => Err(error),
            Ok(pointee) => {
                let sigils = attributes_text(self.flags, attributes);
                Ok(
                    pointee + (if needs_space(self.flags, pointee, sigils) {
                        " "@
                    } else {
                        Seq::empty()
                    }) + sigils,
                )
            },
        }
    }

    /// The declarator of a pointer whose levels are `attributes` and whose
    /// pointee is `data`, the record at `record`.
    pub open spec fn pointee_text(
        self,
        attributes: Seq<PtrAttributes>,
        data: TypeData,
        record: TypeIndex,
    ) -> Result<Seq<char>, TypeError>
        decreases record, 19nat, 0nat,
    {
        match data {
            TypeData::MemberFunction(method) => self.member_pointer_text(
                method,
                attributes,
                record,
            ),
            TypeData::Procedure(procedure) => self.procedure_pointer_text(
                procedure,
                attributes,
                record,
            ),
            _ => self.other_pointer_text(data, attributes, record),
        }
    }

    /// The declarator of a pointer whose levels so far are `attributes` and
    /// which goes on at `target`; the record at `record` refers to `target`.
    /// A pointer adds a level; a modifier qualifies the pointee of the
    /// innermost level and is followed once.
    pub open spec fn pointer_chain(
        self,
        attributes: Seq<PtrAttributes>,
        target: TypeIndex,
        record: TypeIndex,
    ) -> Result<Seq<char>, TypeError>
        decreases record, 10nat, 0nat,
    {
        match self.find_ref(target, record) {
            Err(error) => Err(error),
            Ok(TypeData::Pointer(next)) => self.pointer_chain(
                attributes.push(level_of(next)),
                next.underlying_type,
                target,
            ),
            Ok(TypeData::Modifier(modifier)) => {
                let qualified = with_pointee_const(attributes, modifier.constant);
                match self.find_ref(modifier.underlying_type, target) {
                    Err(error) => Err(error),
                    Ok(TypeData::Pointer(next)) => self.pointer_chain(
                        qualified.push(level_of(next)),
                        next.underlying_type,
                        modifier.underlying_type,
                    ),
                    Ok(data) => self.pointee_text(qualified, data, modifier.underlying_type),
                }
            },
            Ok(data) => self.pointee_text(attributes, data, target),
        }
    }

    /// The declarator of the pointer `pointer`, the record at `record`.
    pub open spec fn pointer_text(
        self,
        pointer: PointerType,
        is_const: bool,
        record: TypeIndex,
    ) -> Result<Seq<char>, TypeError>
        decreases record, 11nat, 0nat,
    {
        self.pointer_chain(
            seq![
                PtrAttributes {
                    is_pointer_const: pointer.is_const || is_const,
                    is_pointee_const: false,
                    mode: pointer.mode,
                },
            ],
            pointer.underlying_type,
            record,
        )
    }

    /// The element that nested arrays end in, starting at `element`, to
    /// which the record at `record` refers.
    pub open spec fn array_base(self, element: TypeIndex, record: TypeIndex) -> Result<
        ArrayBase,
        TypeError,
    >
        decreases record,
    {
        match self.find_ref(element, record) {
            Err(error) => Err(error),
            Ok(TypeData::Array(inner)) => if inner.dimensions@.len() == 0 {
                Err(TypeError::MissingDimension(element))
            } else {
                match self.array_base(inner.element_type, element) {
                    Err(error) => Err(error),
                    Ok(found) => Ok(
                        ArrayBase {
                            dimensions: seq![inner.dimensions@[0]] + found.dimensions,
                            base: found.base,
                            index: found.index,
                        },
                    ),
                }
            },
            Ok(data) => Ok(ArrayBase { dimensions: Seq::empty(), base: data, index: element }),
        }
    }

    /// The declarator of the array `array`, the record at `record`: that of
    /// its innermost element, then the dimensions.
    pub open spec fn array_text(self, array: ArrayType, record: TypeIndex) -> Result<
        Seq<char>,
        TypeError,
    >
        decreases record, 12nat, 0nat,
    {
        if array.dimensions@.len() == 0 {
            Err(TypeError::MissingDimension(record))
        } else {
            match self.array_base(array.element_type, record) {
                Err(error) => Err(error),
                Ok(found) => if found.index < record {
                    match self.render_data(found.base, found.index) {
                        Err(error) => Err(error),
                        Ok(text) => Ok(
                            text + dimensions_text(
                                seq![array.dimensions@[0]] + found.dimensions,
                                self.data_size(found.base, found.index),
                            ),
                        ),
                    }
                } else {
                    Err(TypeError::IndexOrder { record, target: found.index })
                },
            }
        }
    }

    /// The declarator of the qualified type `modifier`, the record at `record`.
    pub open spec fn modifier_text(self, modifier: ModifierType, record: TypeIndex) -> Result<
        Seq<char>,
        TypeError,
    >
        decreases record, 12nat, 0nat,
    {
        match self.find_ref(modifier.underlying_type, record) {
            Err(error) => Err(error),
            Ok(TypeData::Pointer(pointer)) => self.pointer_text(
                pointer,
                modifier.constant,
                modifier.underlying_type,
            ),
            Ok(TypeData::Primitive(primitive)) => Ok(
                primitive_text(self.flags, primitive, modifier.constant),
            ),
            Ok(data) => match self.render_data(data, modifier.underlying_type) {
                Err(error) => Err(error),
                Ok(text) => Ok(
                    if modifier.constant {
                        "const "@ + text
                    } else {
                        text
                    },
                ),
            },
        }
    }

    /// The declarator of the type `data`, the record at `record`.
    pub open spec fn render_data(self, data: TypeData, record: TypeIndex) -> Result<
        Seq<char>,
        TypeError,
    >
        decreases record, 15nat, 0nat,
    {
        match data {
            TypeData::Primitive(primitive) => Ok(primitive_text(self.flags, primitive, false)),
            TypeData::Class(class) => Ok(class_text(self.flags, class)),
            TypeData::MemberFunction(method) => match self.method_parts(
                method,
                self.flags.omits_return(),
                record,
            ) {
                Err(error) => Err(error),
                Ok(parts) => Ok(
                    with_trailing_space(parts.return_text) + "()("@ + parts.arguments + ")"@,
                ),
            },
            TypeData::Procedure(procedure) => match self.procedure_parts(
                procedure,
                self.flags.omits_return(),
                record,
            ) {
                Err(error) => Err(error),
                Ok((return_text, arguments)) => Ok(
                    with_trailing_space(return_text) + "()("@ + arguments + ")"@,
                ),
            },
            TypeData::ArgumentList(list) => self.arguments_text(list.arguments@, record),
            TypeData::Pointer(pointer) => self.pointer_text(pointer, false, record),
            TypeData::Array(array) => self.array_text(array, record),
            TypeData::Union(union) => Ok(named_text(self.flags, "union"@, union.name@)),
            TypeData::Enumeration(enumeration) => Ok(
                named_text(self.flags, "enum"@, enumeration.name@),
            ),
            TypeData::Enumerate(enumerate) => Ok(
                named_text(self.flags, "enum class"@, enumerate.name@),
            ),
            TypeData::Modifier(modifier) => self.modifier_text(modifier, record),
            TypeData::Other(description) => Ok(
                "unhandled type /* "@ + description@ + " */"@,
            ),
        }
    }

    /// The declarator of the type at `index`.
    pub open spec fn render_index(self, index: TypeIndex) -> Result<Seq<char>, TypeError>
        decreases index, 20nat, 0nat,
    {
        match self.find(index) {
            Err(error) => Err(error),
            Ok(data) => self.render_data(data, index),
        }
    }

    /// The name of a scope; nothing where its type does not resolve.
    pub open spec fn parent_scope_text(self, scope: ParentScope) -> Option<Seq<char>> {
        match scope {
            ParentScope::WithType(index) => match self.find(index) {
                Err(_) => None,
                Ok(TypeData::Class(class)) => Some(class.name@),
                Ok(other) => Some("<unhandled scope type "@ + kind_text(other) + ">"@),
            },
            ParentScope::WithId(IdData::String(name)) => Some(name@),
            ParentScope::WithId(IdData::Other(description)) => Some(
                "<unhandled id scope "@ + description@ + ">"@,
            ),
        }
    }

    /// What stands before the name of a function with the given parent.
    pub open spec fn scope_prefix(self, parent: Option<ParentScope>) -> Seq<char> {
        match parent {
            None => Seq::empty(),
            Some(scope) => match self.parent_scope_text(scope) {
                Some(text) => text + "::"@,
                None => Seq::empty(),
            },
        }
    }

    /// The signature of the function `name` of the type at `index`.
    pub open spec fn function_text(
        self,
        name: Seq<char>,
        index: TypeIndex,
        parent: Option<ParentScope>,
    ) -> Result<Seq<char>, TypeError> {
        if name.len() == 0 {
            Ok("<name omitted>"@)
        } else if index == 0 {
            Ok(name)
        } else {
            match self.find(index) {
                Err(error) => Err(error),
                Ok(TypeData::MemberFunction(method)) => match self.method_parts(
                    method,
                    self.flags.omits_return(),
                    index,
                ) {
                    Err(error) => Err(error),
                    Ok(parts) => Ok(
                        signature_text(
                            parts.is_static,
                            parts.return_text,
                            self.scope_prefix(parent),
                            name,
                            parts.arguments,
                            parts.is_const,
                        ),
                    ),
                },
                Ok(TypeData::Procedure(procedure)) => match self.procedure_parts(
                    procedure,
                    self.flags.omits_return(),
                    index,
                ) {
                    Err(error) => Err(error),
                    Ok((return_text, arguments)) => Ok(
                        signature_text(
                            false,
                            return_text,
                            self.scope_prefix(parent),
                            name,
                            arguments,
                            false,
                        ),
                    ),
                },
                Ok(_) => Ok(name),
            }
        }
    }
}

} // verus!
