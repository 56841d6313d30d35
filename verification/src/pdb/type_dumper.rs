//! The dumper: sizes and declarators of the types of a stream.

use super::flags::{
    DumperFlags, NAME_ONLY, NO_FUNCTION_RETURN, SPACE_AFTER_COMMA, SPACE_BEFORE_POINTER,
};
use super::rendering::{
    attribute_text, attributes_sequence, attributes_text, class_text, comma_text, dimension_text,
    dimensions_text, kind_text, named_text, needs_space, primitive_name, primitive_text,
    signature_text, ArrayBase, MethodParts, PtrAttributes, ThisKind,
};
use super::sizes::{aggregate_key, aggregate_size, size_map, Stream};
use super::type_data::{
    ArgumentList, ArrayType, ClassKind, ClassType, IdData, MemberFunctionType, ModifierType,
    ParentScope, PointerMode, PointerType, PrimitiveKind, PrimitiveType, ProcedureType, TypeData,
    TypeError, TypeIndex, Variant,
};
use crate::text::{decimal, fix_return, last_char, starts_with_char, trim};
use vstd::prelude::*;

verus! {

/// The map that a list of keys and sizes stands for; a later pair overrides
/// an earlier one with the same key.
pub open spec fn pairs_map(pairs: Seq<(String, u32)>) -> Map<Seq<char>, u32>
    decreases pairs.len(),
{
    if pairs.len() == 0 {
        Map::empty()
    } else {
        pairs_map(pairs.drop_last()).insert(pairs.last().0@, pairs.last().1)
    }
}

/// Renders the types of one stream and computes their sizes.
pub struct TypeDumper {
    types: Vec<Option<TypeData>>,
    /// The sizes of the defined aggregates, by key, in stream order.
    fwd: Vec<(String, u32)>,
    ptr_size: u32,
    flags: DumperFlags,
}

impl View for TypeDumper {
    type V = Stream;

    closed spec fn view(&self) -> Stream {
        Stream { types: self.types@, ptr_size: self.ptr_size, flags: self.flags }
    }
}

fn clone_key(name: &String, unique_name: &Option<String>) -> (key: String)
    ensures
        key@ == aggregate_key(*name, *unique_name),
{
    match unique_name {
        Some(unique) => unique.clone(),
        None => name.clone(),
    }
}

impl TypeDumper {
    #[verifier::type_invariant]
    spec fn fwd_matches_stream(&self) -> bool {
        pairs_map(self.fwd@) == size_map(self.types@)
    }

    /// Takes the records of a stream, the record with index `i` at position
    /// `i` and `None` for each record that could not be parsed, and collects
    /// the sizes of the aggregates that the stream defines.
    pub fn new(types: Vec<Option<TypeData>>, ptr_size: u32, flags: DumperFlags) -> (dumper: Self)
        ensures
            dumper@ == (Stream { types: types@, ptr_size, flags }),
    {
        let mut fwd: Vec<(String, u32)> = Vec::new();
        let mut i: usize = 0;
        while i < types.len()
            invariant
                i <= types.len(),
                pairs_map(fwd@) == size_map(types@.take(i as int)),
            decreases types.len() - i,
        {
            assert(types@.take(i as int + 1).drop_last() =~= types@.take(i as int));
            assert(types@.take(i as int + 1).last() == types@[i as int]);
            let ghost before = fwd@;
            match &types[i] {
                Some(TypeData::Class(class)) => {
                    if !class.forward_reference {
                        fwd.push((clone_key(&class.name, &class.unique_name), class.size));
                        assert(fwd@.drop_last() =~= before);
                    }
                },
                Some(TypeData::Union(union)) => {
                    if !union.forward_reference {
                        fwd.push((clone_key(&union.name, &union.unique_name), union.size));
                        assert(fwd@.drop_last() =~= before);
                    }
                },
                _ => {},
            }
            i = i + 1;
        }
        assert(types@.take(types.len() as int) =~= types@);
        TypeDumper { types, fwd, ptr_size, flags }
    }

    /// The record at `index`.
    pub fn find(&self, index: TypeIndex) -> (found: Result<&TypeData, TypeError>)
        ensures
            match found {
                Ok(data) => self@.find(index) == Ok::<TypeData, TypeError>(*data),
                Err(error) => self@.find(index) == Err::<TypeData, TypeError>(error),
            },
    {
        if (index as usize) < self.types.len() {
            match &self.types[index as usize] {
                Some(data) => Ok(data),
                None => Err(TypeError::UnparsableType(index)),
            }
        } else {
            Err(TypeError::TypeNotFound(index))
        }
    }

    /// The size that the definitions of the stream give for `key`.
    fn defined_size(&self, key: &String) -> (size: Option<u32>)
        ensures
            size == if self@.sizes().contains_key(key@) {
                Some(self@.sizes()[key@])
            } else {
                None
            },
    {
        proof {
            use_type_invariant(self);
        }
        let mut i: usize = self.fwd.len();
        assert(self.fwd@.take(i as int) =~= self.fwd@);
        while i > 0
            invariant
                i <= self.fwd.len(),
                pairs_map(self.fwd@) == size_map(self.types@),
                pairs_map(self.fwd@).contains_key(key@) == pairs_map(
                    self.fwd@.take(i as int),
                ).contains_key(key@),
                pairs_map(self.fwd@).contains_key(key@) ==> pairs_map(self.fwd@)[key@]
                    == pairs_map(self.fwd@.take(i as int))[key@],
            decreases i,
        {
            assert(self.fwd@.take(i as int).drop_last() =~= self.fwd@.take(i as int - 1));
            assert(self.fwd@.take(i as int).last() == self.fwd@[i as int - 1]);
            i = i - 1;
            if self.fwd[i].0 == *key {
                return Some(self.fwd[i].1);
            }
        }
        assert(self.fwd@.take(0) =~= Seq::empty());
        None
    }

    fn get_aggregate_size(
        &self,
        forward_reference: bool,
        name: &String,
        unique_name: &Option<String>,
        own_size: u32,
    ) -> (size: u32)
        ensures
            size == aggregate_size(
                self@.sizes(),
                forward_reference,
                aggregate_key(*name, *unique_name),
                own_size,
            ),
    {
        if forward_reference {
            let key = clone_key(name, unique_name);
            match self.defined_size(&key) {
                Some(size) => size,
                None => own_size,
            }
        } else {
            own_size
        }
    }

    /// The storage size in bytes of the type at `index`: the size of a
    /// pointer of the target for pointers to simple types and for functions,
    /// the defined size for a forward reference to an aggregate, the last
    /// dimension of an array, the size of the underlying type for a modifier
    /// or an enumeration, and 0 where the index does not resolve.
    pub fn get_type_size(&self, index: TypeIndex) -> (size: u32)
        ensures
            size == self@.type_size(index),
        decreases index, 1nat,
    {
        match self.find(index) {
            Ok(data) => self.get_data_size(data, index),
            Err(_) => 0,
        }
    }

    /// The storage size in bytes of the type `data`, the record at `index`.
    pub fn get_data_size(&self, data: &TypeData, index: TypeIndex) -> (size: u32)
        ensures
            size == self@.data_size(*data, index),
        decreases index, 0nat,
    {
        match data {
            TypeData::Primitive(primitive) => {
                if primitive.indirection {
                    return self.ptr_size;
                }
                match primitive.kind {
                    PrimitiveKind::NoType | PrimitiveKind::Void => 0,
                    PrimitiveKind::Char
                    | PrimitiveKind::UChar
                    | PrimitiveKind::RChar
                    | PrimitiveKind::I8
                    | PrimitiveKind::U8
                    | PrimitiveKind::Bool8 => 1,
                    PrimitiveKind::WChar
                    | PrimitiveKind::RChar16
                    | PrimitiveKind::Short
                    | PrimitiveKind::UShort
                    | PrimitiveKind::I16
                    | PrimitiveKind::U16
                    | PrimitiveKind::F16
                    | PrimitiveKind::Bool16 => 2,
                    PrimitiveKind::RChar32
                    | PrimitiveKind::Long
                    | PrimitiveKind::ULong
                    | PrimitiveKind::I32
                    | PrimitiveKind::U32
                    | PrimitiveKind::F32
                    | PrimitiveKind::F32PP
                    | PrimitiveKind::Bool32
                    | PrimitiveKind::HRESULT => 4,
                    PrimitiveKind::I64
                    | PrimitiveKind::U64
                    | PrimitiveKind::Quad
                    | PrimitiveKind::UQuad
                    | PrimitiveKind::F64
                    | PrimitiveKind::Complex32
                    | PrimitiveKind::Bool64 => 8,
                    PrimitiveKind::I128
                    | PrimitiveKind::U128
                    | PrimitiveKind::Octa
                    | PrimitiveKind::UOcta
                    | PrimitiveKind::F128
                    | PrimitiveKind::Complex64 => 16,
                    PrimitiveKind::F48 => 6,
                    PrimitiveKind::F80 => 10,
                    PrimitiveKind::Complex80 => 20,
                    PrimitiveKind::Complex128 => 32,
                }
            },
            TypeData::Class(class) => self.get_aggregate_size(
                class.forward_reference,
                &class.name,
                &class.unique_name,
                class.size,
            ),
            TypeData::MemberFunction(_) => self.ptr_size,
            TypeData::Procedure(_) => self.ptr_size,
            TypeData::Pointer(pointer) => pointer.size as u32,
            TypeData::Array(array) => {
                let count = array.dimensions.len();
                if count == 0 {
                    0
                } else {
                    array.dimensions[count - 1]
                }
            },
            TypeData::Union(union) => self.get_aggregate_size(
                union.forward_reference,
                &union.name,
                &union.unique_name,
                union.size,
            ),
            TypeData::Enumeration(enumeration) => {
                if enumeration.underlying_type < index {
                    self.get_type_size(enumeration.underlying_type)
                } else {
                    0
                }
            },
            TypeData::Enumerate(enumerate) => match enumerate.value {
                Variant::I8(_) | Variant::U8(_) => 1,
                Variant::I16(_) | Variant::U16(_) => 2,
                Variant::I32(_) | Variant::U32(_) => 4,
                Variant::I64(_) | Variant::U64(_) => 8,
            },
            TypeData::Modifier(modifier) => {
                if modifier.underlying_type < index {
                    self.get_type_size(modifier.underlying_type)
                } else {
                    0
                }
            },
            _ => 0,
        }
    }
}

/// The text of a rendering, or the error it ended in.
pub open spec fn text_of(result: Result<String, TypeError>) -> Result<Seq<char>, TypeError> {
    match result {
        Ok(text) => Ok(text@),
        Err(error) => Err(error),
    }
}

/// The dimensions `prefix` before those of `found`.
pub open spec fn after_dimensions(prefix: Seq<u32>, found: Result<ArrayBase, TypeError>) -> Result<
    ArrayBase,
    TypeError,
> {
    match found {
        Ok(base) => Ok(
            ArrayBase { dimensions: prefix + base.dimensions, base: base.base, index: base.index },
        ),
        Err(error) => Err(error),
    }
}

/// An argument that cannot be rendered fails the whole list, however many
/// arguments follow it.
pub proof fn lemma_arguments_error_stays(
    stream: Stream,
    arguments: Seq<TypeIndex>,
    count: int,
    record: TypeIndex,
)
    requires
        0 <= count <= arguments.len(),
        stream.arguments_text(arguments.take(count), record) is Err,
    ensures
        stream.arguments_text(arguments, record) == stream.arguments_text(
            arguments.take(count),
            record,
        ),
    decreases arguments.len() - count,
{
    if count < arguments.len() {
        assert(arguments.take(count + 1).drop_last() =~= arguments.take(count));
        lemma_arguments_error_stays(stream, arguments, count + 1, record);
    } else {
        assert(arguments.take(count) =~= arguments);
    }
}

/// The dimensions of a level followed by those of the levels inside it.
pub proof fn lemma_dimensions_text_step(sizes: Seq<u32>, base_size: u32, from: int)
    requires
        0 <= from < sizes.len(),
    ensures
        dimensions_text(sizes.skip(from), base_size) == dimension_text(
            sizes[from],
            if from + 1 < sizes.len() {
                sizes[from + 1]
            } else {
                base_size
            },
        ) + dimensions_text(sizes.skip(from + 1), base_size),
{
    assert(sizes.skip(from).drop_first() =~= sizes.skip(from + 1));
}

fn primitive_spelling(kind: PrimitiveKind) -> (name: &'static str)
    ensures
        name@ == primitive_name(kind),
{
    match kind {
        PrimitiveKind::NoType => "<NoType>",
        PrimitiveKind::Void => "void",
        PrimitiveKind::Char => "signed char",
        PrimitiveKind::UChar => "unsigned char",
        PrimitiveKind::RChar => "char",
        PrimitiveKind::WChar => "wchar_t",
        PrimitiveKind::RChar16 => "char16_t",
        PrimitiveKind::RChar32 => "char32_t",
        PrimitiveKind::I8 => "int8_t",
        PrimitiveKind::U8 => "uint8_t",
        PrimitiveKind::Short => "short",
        PrimitiveKind::UShort => "unsigned short",
        PrimitiveKind::I16 => "int16_t",
        PrimitiveKind::U16 => "uint16_t",
        PrimitiveKind::Long => "long",
        PrimitiveKind::ULong => "unsigned long",
        PrimitiveKind::I32 => "int",
        PrimitiveKind::U32 => "unsigned int",
        PrimitiveKind::Quad => "long long",
        PrimitiveKind::UQuad => "unsigned long long",
        PrimitiveKind::I64 => "int64_t",
        PrimitiveKind::U64 => "uint64_t",
        PrimitiveKind::I128 | PrimitiveKind::Octa => "int128_t",
        PrimitiveKind::U128 | PrimitiveKind::UOcta => "uint128_t",
        PrimitiveKind::F16 => "float16_t",
        PrimitiveKind::F32 => "float",
        PrimitiveKind::F32PP => "float",
        PrimitiveKind::F48 => "float48_t",
        PrimitiveKind::F64 => "double",
        PrimitiveKind::F80 => "long double",
        PrimitiveKind::F128 => "long double",
        PrimitiveKind::Complex32 => "complex<float>",
        PrimitiveKind::Complex64 => "complex<double>",
        PrimitiveKind::Complex80 => "complex<long double>",
        PrimitiveKind::Complex128 => "complex<long double>",
        PrimitiveKind::Bool8 => "bool",
        PrimitiveKind::Bool16 => "bool16_t",
        PrimitiveKind::Bool32 => "bool32_t",
        PrimitiveKind::Bool64 => "bool64_t",
        PrimitiveKind::HRESULT => "HRESULT",
    }
}

fn kind_name(data: &TypeData) -> (name: String)
    ensures
        name@ == kind_text(*data),
{
    match data {
        TypeData::Primitive(_) => String::from_str("Primitive"),
        TypeData::Class(_) => String::from_str("Class"),
        TypeData::Union(_) => String::from_str("Union"),
        TypeData::Pointer(_) => String::from_str("Pointer"),
        TypeData::Modifier(_) => String::from_str("Modifier"),
        TypeData::Array(_) => String::from_str("Array"),
        TypeData::Procedure(_) => String::from_str("Procedure"),
        TypeData::MemberFunction(_) => String::from_str("MemberFunction"),
        TypeData::ArgumentList(_) => String::from_str("ArgumentList"),
        TypeData::Enumeration(_) => String::from_str("Enumeration"),
        TypeData::Enumerate(_) => String::from_str("Enumerate"),
        TypeData::Other(description) => description.clone(),
    }
}

impl TypeDumper {
    /// The style that the dumper renders with.
    pub fn flags(&self) -> (flags: DumperFlags)
        ensures
            flags == self@.flags,
    {
        self.flags
    }

    fn dump_primitive(&self, primitive: &PrimitiveType, is_const: bool) -> (text: String)
        ensures
            text@ == primitive_text(self@.flags, *primitive, is_const),
    {
        let name = primitive_spelling(primitive.kind);
        if primitive.indirection {
            let mut text = String::from_str(name);
            if self.flags.has(SPACE_BEFORE_POINTER) {
                if is_const {
                    text.append(" const *");
                } else {
                    text.append(" *");
                }
            } else if is_const {
                text.append(" const*");
            } else {
                text.append("*");
            }
            text
        } else if is_const {
            let mut text = String::from_str("const ");
            text.append(name);
            text
        } else {
            String::from_str(name)
        }
    }

    fn dump_named(&self, keyword: &str, name: &String) -> (text: String)
        ensures
            text@ == named_text(self@.flags, keyword@, name@),
    {
        if self.flags.has(NAME_ONLY) {
            name.clone()
        } else {
            let mut text = String::from_str(keyword);
            text.append(" ");
            text.append(name.as_str());
            text
        }
    }

    fn dump_class(&self, class: &ClassType) -> (text: String)
        ensures
            text@ == class_text(self@.flags, *class),
    {
        let keyword = match class.kind {
            ClassKind::Class => "class",
            ClassKind::Interface => "interface",
            ClassKind::Struct => "struct",
        };
        self.dump_named(keyword, &class.name)
    }

    /// One level of a pointer chain.
    fn dump_attribute(&self, attribute: PtrAttributes) -> (text: String)
        ensures
            text@ == attribute_text(self@.flags, attribute),
    {
        let konst = if self.flags.has(SPACE_BEFORE_POINTER) {
            " const "
        } else {
            " const"
        };
        let mut text = String::new();
        if attribute.is_pointee_const {
            text.append(konst);
        }
        match attribute.mode {
            PointerMode::Pointer => text.append("*"),
            PointerMode::LValueReference => text.append("&"),
            PointerMode::Member => text.append("::*"),
            PointerMode::MemberFunction => text.append("::*"),
            PointerMode::RValueReference => text.append("&&"),
        }
        if attribute.is_pointer_const {
            text.append(konst);
        }
        assert(text@ =~= attribute_text(self@.flags, attribute));
        text
    }

    fn dump_attributes(&self, attributes: &Vec<PtrAttributes>) -> (text: String)
        ensures
            text@ == attributes_text(self@.flags, attributes@),
    {
        let mut buffer = String::new();
        let mut i: usize = attributes.len();
        assert(attributes@.take(i as int) =~= attributes@);
        while i > 0
            invariant
                i <= attributes.len(),
                buffer@ + attributes_sequence(self@.flags, attributes@.take(i as int))
                    == attributes_sequence(self@.flags, attributes@),
            decreases i,
        {
            let ghost before = buffer@;
            let ghost rest = attributes_sequence(self@.flags, attributes@.take(i as int - 1));
            assert(attributes@.take(i as int).drop_last() =~= attributes@.take(i as int - 1));
            assert(attributes@.take(i as int).last() == attributes@[i as int - 1]);
            i = i - 1;
            let piece = self.dump_attribute(attributes[i]);
            buffer.append(piece.as_str());
            assert(buffer@ + rest =~= before + (piece@ + rest));
        }
        assert(attributes@.take(0) =~= Seq::empty());
        assert(buffer@ =~= attributes_sequence(self@.flags, attributes@));
        trim(buffer.as_str())
    }

    fn check_this_type(&self, this: TypeIndex, class: TypeIndex) -> (kind: Result<
        ThisKind,
        TypeError,
    >)
        ensures
            kind == self@.check_this(this, class),
    {
        match self.find(this)? {
            TypeData::Pointer(pointer) => {
                if pointer.underlying_type == class {
                    Ok(ThisKind::This)
                } else {
                    match self.find(pointer.underlying_type)? {
                        TypeData::Modifier(modifier) => Ok(
                            ThisKind::new(modifier.underlying_type == class, modifier.constant),
                        ),
                        _ => Ok(ThisKind::NotThis),
                    }
                }
            },
            TypeData::Modifier(modifier) => {
                match self.find(modifier.underlying_type)? {
                    TypeData::Pointer(pointer) => Ok(
                        ThisKind::new(pointer.underlying_type == class, modifier.constant),
                    ),
                    _ => Ok(ThisKind::NotThis),
                }
            },
            _ => Ok(ThisKind::NotThis),
        }
    }

    fn dump_ref(&self, target: TypeIndex, record: TypeIndex) -> (text: Result<String, TypeError>)
        ensures
            text_of(text) == self@.render_ref(target, record),
        decreases record, 0nat, 0nat,
    {
        if target < record {
            self.dump_index(target)
        } else {
            Err(TypeError::IndexOrder { record, target })
        }
    }

    fn get_return_type(
        &self,
        return_type: Option<TypeIndex>,
        is_constructor: bool,
        no_return: bool,
        record: TypeIndex,
    ) -> (text: String)
        ensures
            text@ == self@.return_text(return_type, is_constructor, no_return, record),
        decreases record, 1nat, 0nat,
    {
        match return_type {
            Some(target) => {
                if !no_return && !is_constructor {
                    match self.dump_ref(target, record) {
                        Ok(text) => text,
                        Err(_) => String::new(),
                    }
                } else {
                    String::new()
                }
            },
            None => String::new(),
        }
    }

    fn dump_arg_list(&self, list: &ArgumentList, record: TypeIndex) -> (text: Result<
        String,
        TypeError,
    >)
        ensures
            text_of(text) == self@.arguments_text(list.arguments@, record),
        decreases record, 1nat, 0nat,
    {
        let comma = if self.flags.has(SPACE_AFTER_COMMA) {
            ", "
        } else {
            ","
        };
        let mut buffer = String::new();
        let mut i: usize = 0;
        assert(list.arguments@.take(0) =~= Seq::empty());
        while i < list.arguments.len()
            invariant
                i <= list.arguments.len(),
                comma@ == comma_text(self@.flags),
                self@.arguments_text(list.arguments@.take(i as int), record) == Ok::<
                    Seq<char>,
                    TypeError,
                >(buffer@),
            decreases list.arguments.len() - i,
        {
            assert(list.arguments@.take(i as int + 1).drop_last() =~= list.arguments@.take(
                i as int,
            ));
            assert(list.arguments@.take(i as int + 1).last() == list.arguments@[i as int]);
            match self.dump_ref(list.arguments[i], record) {
                Err(error) => {
                    proof {
                        lemma_arguments_error_stays(self@, list.arguments@, i as int + 1, record);
                    }
                    return Err(error);
                },
                Ok(text) => {
                    if i == 0 {
                        buffer = text;
                    } else {
                        buffer.append(comma);
                        buffer.append(text.as_str());
                    }
                },
            }
            i = i + 1;
        }
        assert(list.arguments@.take(i as int) =~= list.arguments@);
        Ok(buffer)
    }

    fn dump_procedure_parts(
        &self,
        procedure: &ProcedureType,
        no_return: bool,
        record: TypeIndex,
    ) -> (parts: Result<(String, String), TypeError>)
        ensures
            match parts {
                Ok((return_text, arguments)) => self@.procedure_parts(*procedure, no_return, record)
                    == Ok::<(Seq<char>, Seq<char>), TypeError>((return_text@, arguments@)),
                Err(error) => self@.procedure_parts(*procedure, no_return, record) == Err::<
                    (Seq<char>, Seq<char>),
                    TypeError,
                >(error),
            },
        decreases record, 2nat, 0nat,
    {
        let return_text = self.get_return_type(
            procedure.return_type,
            procedure.is_constructor,
            no_return,
            record,
        );
        match self.dump_ref(procedure.argument_list, record) {
            Err(error) => Err(error),
            Ok(arguments) => Ok((return_text, arguments)),
        }
    }

    fn dump_method_parts(
        &self,
        method: &MemberFunctionType,
        no_return: bool,
        record: TypeIndex,
    ) -> (parts: Result<(bool, bool, String, String), TypeError>)
        ensures
            match parts {
                Ok((is_static, is_const, return_text, arguments)) => self@.method_parts(
                    *method,
                    no_return,
                    record,
                ) == Ok::<MethodParts, TypeError>(
                    MethodParts {
                        is_static,
                        is_const,
                        return_text: return_text@,
                        arguments: arguments@,
                    },
                ),
                Err(error) => self@.method_parts(*method, no_return, record) == Err::<
                    MethodParts,
                    TypeError,
                >(error),
            },
        decreases record, 2nat, 0nat,
    {
        let return_text = self.get_return_type(
            Some(method.return_type),
            method.is_constructor,
            no_return,
            record,
        );
        let arguments = match self.dump_ref(method.argument_list, record) {
            Err(error) => {
                return Err(error);
            },
            Ok(arguments) => arguments,
        };
        match method.this_pointer_type {
            None => Ok((true, false, return_text, arguments)),
            Some(this) => {
                let kind = match self.check_this_type(this, method.class_type) {
                    Err(error) => {
                        return Err(error);
                    },
                    Ok(kind) => kind,
                };
                match kind {
                    ThisKind::NotThis => {
                        let this_text = match self.dump_ref(this, record) {
                            Err(error) => {
                                return Err(error);
                            },
                            Ok(this_text) => this_text,
                        };
                        if arguments.as_str().unicode_len() == 0 {
                            Ok((false, false, return_text, this_text))
                        } else {
                            let mut all = this_text;
                            all.append(", ");
                            all.append(arguments.as_str());
                            Ok((false, false, return_text, all))
                        }
                    },
                    ThisKind::This => Ok((false, false, return_text, arguments)),
                    ThisKind::ConstThis => Ok((false, true, return_text, arguments)),
                }
            },
        }
    }

    fn dump_member_ptr(
        &self,
        method: &MemberFunctionType,
        attributes: &Vec<PtrAttributes>,
        record: TypeIndex,
    ) -> (text: Result<String, TypeError>)
        ensures
            text_of(text) == self@.member_pointer_text(*method, attributes@, record),
        decreases record, 18nat, 0nat,
    {
        let class = match self.dump_ref(method.class_type, record) {
            Err(error) => {
                return Err(error);
            },
            Ok(class) => class,
        };
        let (_, _, return_text, arguments) = match self.dump_method_parts(method, false, record) {
            Err(error) => {
                return Err(error);
            },
            Ok(parts) => parts,
        };
        let sigils = self.dump_attributes(attributes);
        let mut text = fix_return(return_text);
        text.append("(");
        text.append(class.as_str());
        text.append(sigils.as_str());
        text.append(")(");
        text.append(arguments.as_str());
        text.append(")");
        Ok(text)
    }

    fn dump_proc_ptr(
        &self,
        procedure: &ProcedureType,
        attributes: &Vec<PtrAttributes>,
        record: TypeIndex,
    ) -> (text: Result<String, TypeError>)
        ensures
            text_of(text) == self@.procedure_pointer_text(*procedure, attributes@, record),
        decreases record, 18nat, 0nat,
    {
        let (return_text, arguments) = match self.dump_procedure_parts(procedure, false, record) {
            Err(error) => {
                return Err(error);
            },
            Ok(parts) => parts,
        };
        let sigils = self.dump_attributes(attributes);
        let mut text = fix_return(return_text);
        text.append("(");
        text.append(sigils.as_str());
        text.append(")(");
        text.append(arguments.as_str());
        text.append(")");
        Ok(text)
    }

    fn dump_other_ptr(
        &self,
        data: &TypeData,
        attributes: &Vec<PtrAttributes>,
        record: TypeIndex,
    ) -> (text: Result<String, TypeError>)
        ensures
            text_of(text) == self@.other_pointer_text(*data, attributes@, record),
        decreases record, 18nat, 0nat,
    {
        let pointee = match self.dump_data(data, record) {
            Err(error) => {
                return Err(error);
            },
            Ok(pointee) => pointee,
        };
        let sigils = self.dump_attributes(attributes);
        let space = if starts_with_char(sigils.as_str(), 'c') {
            true
        } else if self.flags.has(SPACE_BEFORE_POINTER) {
            match last_char(pointee.as_str()) {
                Some(last) => !(last == '*' || last == '&'),
                None => true,
            }
        } else {
            false
        };
        assert(space == needs_space(self@.flags, pointee@, sigils@));
        let mut text = pointee;
        if space {
            text.append(" ");
        }
        text.append(sigils.as_str());
        Ok(text)
    }

    fn dump_ptr_helper(
        &self,
        attributes: &Vec<PtrAttributes>,
        data: &TypeData,
        record: TypeIndex,
    ) -> (text: Result<String, TypeError>)
        ensures
            text_of(text) == self@.pointee_text(attributes@, *data, record),
        decreases record, 19nat, 0nat,
    {
        match data {
            TypeData::MemberFunction(method) => self.dump_member_ptr(method, attributes, record),
            TypeData::Procedure(procedure) => self.dump_proc_ptr(procedure, attributes, record),
            _ => self.dump_other_ptr(data, attributes, record),
        }
    }

    fn dump_ptr(&self, pointer: &PointerType, is_const: bool, record: TypeIndex) -> (text: Result<
        String,
        TypeError,
    >)
        ensures
            text_of(text) == self@.pointer_text(*pointer, is_const, record),
        decreases record, 11nat, 0nat,
    {
        let mut attributes: Vec<PtrAttributes> = Vec::new();
        attributes.push(
            PtrAttributes {
                is_pointer_const: pointer.is_const || is_const,
                is_pointee_const: false,
                mode: pointer.mode,
            },
        );
        assert(attributes@ =~= seq![
            PtrAttributes {
                is_pointer_const: pointer.is_const || is_const,
                is_pointee_const: false,
                mode: pointer.mode,
            },
        ]);
        let mut target = pointer.underlying_type;
        let mut bound = record;
        loop
            invariant
                bound <= record,
                attributes@.len() > 0,
                self@.pointer_chain(attributes@, target, bound) == self@.pointer_text(
                    *pointer,
                    is_const,
                    record,
                ),
            decreases bound,
        {
            if target >= bound {
                return Err(TypeError::IndexOrder { record: bound, target });
            }
            match self.find(target) {
                Err(error) => {
                    return Err(error);
                },
                Ok(TypeData::Pointer(next)) => {
                    attributes.push(
                        PtrAttributes {
                            is_pointer_const: next.is_const,
                            is_pointee_const: false,
                            mode: next.mode,
                        },
                    );
                    bound = target;
                    target = next.underlying_type;
                },
                Ok(TypeData::Modifier(modifier)) => {
                    let last = attributes.len() - 1;
                    let innermost = attributes[last];
                    attributes.set(
                        last,
                        PtrAttributes {
                            is_pointer_const: innermost.is_pointer_const,
                            is_pointee_const: modifier.constant,
                            mode: innermost.mode,
                        },
                    );
                    if modifier.underlying_type >= target {
                        return Err(
                            TypeError::IndexOrder {
                                record: target,
                                target: modifier.underlying_type,
                            },
                        );
                    }
                    match self.find(modifier.underlying_type) {
                        Err(error) => {
                            return Err(error);
                        },
                        Ok(TypeData::Pointer(next)) => {
                            attributes.push(
                                PtrAttributes {
                                    is_pointer_const: next.is_const,
                                    is_pointee_const: false,
                                    mode: next.mode,
                                },
                            );
                            bound = modifier.underlying_type;
                            target = next.underlying_type;
                        },
                        Ok(data) => {
                            return self.dump_ptr_helper(
                                &attributes,
                                data,
                                modifier.underlying_type,
                            );
                        },
                    }
                },
                Ok(data) => {
                    return self.dump_ptr_helper(&attributes, data, target);
                },
            }
        }
    }

    /// The first dimension of `array` and of each array nested in it, and
    /// the element that the nesting ends in with its index.
    fn get_array_info(&self, array: &ArrayType, record: TypeIndex) -> (info: Result<
        (Vec<u32>, &TypeData, TypeIndex),
        TypeError,
    >)
        requires
            array.dimensions@.len() > 0,
        ensures
            match info {
                Ok((dimensions, base, index)) => self@.array_base(array.element_type, record)
                    == Ok::<ArrayBase, TypeError>(
                    ArrayBase { dimensions: dimensions@.skip(1), base: *base, index },
                ) && dimensions@.len() > 0 && dimensions@[0] == array.dimensions@[0],
                Err(error) => self@.array_base(array.element_type, record) == Err::<
                    ArrayBase,
                    TypeError,
                >(error),
            },
    {
        let mut dimensions: Vec<u32> = Vec::new();
        dimensions.push(array.dimensions[0]);
        let mut element = array.element_type;
        let mut bound = record;
        assert(dimensions@.skip(1) =~= Seq::empty());
        loop
            invariant
                dimensions@.len() > 0,
                dimensions@[0] == array.dimensions@[0],
                after_dimensions(dimensions@.skip(1), self@.array_base(element, bound))
                    == self@.array_base(array.element_type, record),
            decreases bound,
        {
            if element >= bound {
                return Err(TypeError::IndexOrder { record: bound, target: element });
            }
            match self.find(element) {
                Err(error) => {
                    return Err(error);
                },
                Ok(TypeData::Array(inner)) => {
                    if inner.dimensions.len() == 0 {
                        return Err(TypeError::MissingDimension(element));
                    }
                    let ghost before = dimensions@;
                    dimensions.push(inner.dimensions[0]);
                    proof {
                        let rest = self@.array_base(inner.element_type, element);
                        assert(dimensions@.skip(1) =~= before.skip(1) + seq![
                            inner.dimensions@[0],
                        ]);
                        match rest {
                            Ok(found) => {
                                assert(before.skip(1) + (seq![inner.dimensions@[0]]
                                    + found.dimensions) =~= dimensions@.skip(1)
                                    + found.dimensions);
                            },
                            Err(_) => {},
                        }
                    }
                    bound = element;
                    element = inner.element_type;
                },
                Ok(data) => {
                    assert(dimensions@.skip(1) + Seq::<u32>::empty() =~= dimensions@.skip(1));
                    return Ok((dimensions, data, element));
                },
            }
        }
    }

    fn dump_dimensions(&self, dimensions: &Vec<u32>, base_size: u32) -> (text: String)
        ensures
            text@ == dimensions_text(dimensions@, base_size),
    {
        let mut buffer = String::new();
        let mut i: usize = 0;
        assert(dimensions@.skip(0) =~= dimensions@);
        while i < dimensions.len()
            invariant
                i <= dimensions.len(),
                buffer@ + dimensions_text(dimensions@.skip(i as int), base_size) == dimensions_text(
                    dimensions@,
                    base_size,
                ),
            decreases dimensions.len() - i,
        {
            let element_size = if i + 1 < dimensions.len() {
                dimensions[i + 1]
            } else {
                base_size
            };
            let ghost before = buffer@;
            if element_size != 0 {
                buffer.append("[");
                buffer.append(decimal(dimensions[i] / element_size).as_str());
                buffer.append("]");
            } else {
                buffer.append("[]");
            }
            proof {
                lemma_dimensions_text_step(dimensions@, base_size, i as int);
                let piece = dimension_text(dimensions@[i as int], element_size);
                assert(buffer@ =~= before + piece);
                assert(buffer@ + dimensions_text(dimensions@.skip(i as int + 1), base_size)
                    =~= before + (piece + dimensions_text(
                    dimensions@.skip(i as int + 1),
                    base_size,
                )));
            }
            i = i + 1;
        }
        assert(dimensions@.skip(i as int) =~= Seq::empty());
        assert(buffer@ =~= dimensions_text(dimensions@, base_size));
        buffer
    }

    fn dump_array(&self, array: &ArrayType, record: TypeIndex) -> (text: Result<String, TypeError>)
        ensures
            text_of(text) == self@.array_text(*array, record),
        decreases record, 12nat, 0nat,
    {
        if array.dimensions.len() == 0 {
            return Err(TypeError::MissingDimension(record));
        }
        let (dimensions, base, index) = match self.get_array_info(array, record) {
            Err(error) => {
                return Err(error);
            },
            Ok(info) => info,
        };
        if index >= record {
            return Err(TypeError::IndexOrder { record, target: index });
        }
        let base_size = self.get_data_size(base, index);
        let sizes = self.dump_dimensions(&dimensions, base_size);
        let mut text = match self.dump_data(base, index) {
            Err(error) => {
                return Err(error);
            },
            Ok(text) => text,
        };
        text.append(sizes.as_str());
        assert(dimensions@ =~= seq![array.dimensions@[0]] + dimensions@.skip(1));
        Ok(text)
    }

    fn dump_modifier(&self, modifier: &ModifierType, record: TypeIndex) -> (text: Result<
        String,
        TypeError,
    >)
        ensures
            text_of(text) == self@.modifier_text(*modifier, record),
        decreases record, 12nat, 0nat,
    {
        if modifier.underlying_type >= record {
            return Err(TypeError::IndexOrder { record, target: modifier.underlying_type });
        }
        match self.find(modifier.underlying_type) {
            Err(error) => Err(error),
            Ok(TypeData::Pointer(pointer)) => self.dump_ptr(
                pointer,
                modifier.constant,
                modifier.underlying_type,
            ),
            Ok(TypeData::Primitive(primitive)) => Ok(
                self.dump_primitive(primitive, modifier.constant),
            ),
            Ok(data) => {
                let underlying = match self.dump_data(data, modifier.underlying_type) {
                    Err(error) => {
                        return Err(error);
                    },
                    Ok(underlying) => underlying,
                };
                if modifier.constant {
                    let mut text = String::from_str("const ");
                    text.append(underlying.as_str());
                    Ok(text)
                } else {
                    Ok(underlying)
                }
            },
        }
    }

    /// Renders the type `data`, which is the record at `record`, as a C/C++
    /// declarator. The records that `data` refers to are rendered in turn;
    /// each of them has to come before `record` in the stream.
    pub fn dump_data(&self, data: &TypeData, record: TypeIndex) -> (text: Result<String, TypeError>)
        ensures
            text_of(text) == self@.render_data(*data, record),
        decreases record, 15nat, 0nat,
    {
        match data {
            TypeData::Primitive(primitive) => Ok(self.dump_primitive(primitive, false)),
            TypeData::Class(class) => Ok(self.dump_class(class)),
            TypeData::MemberFunction(method) => {
                let (_, _, return_text, arguments) = match self.dump_method_parts(
                    method,
                    self.flags.has(NO_FUNCTION_RETURN),
                    record,
                ) {
                    Err(error) => {
                        return Err(error);
                    },
                    Ok(parts) => parts,
                };
                let mut text = fix_return(return_text);
                text.append("()(");
                text.append(arguments.as_str());
                text.append(")");
                Ok(text)
            },
            TypeData::Procedure(procedure) => {
                let (return_text, arguments) = match self.dump_procedure_parts(
                    procedure,
                    self.flags.has(NO_FUNCTION_RETURN),
                    record,
                ) {
                    Err(error) => {
                        return Err(error);
                    },
                    Ok(parts) => parts,
                };
                let mut text = fix_return(return_text);
                text.append("()(");
                text.append(arguments.as_str());
                text.append(")");
                Ok(text)
            },
            TypeData::ArgumentList(list) => self.dump_arg_list(list, record),
            TypeData::Pointer(pointer) => self.dump_ptr(pointer, false, record),
            TypeData::Array(array) => self.dump_array(array, record),
            TypeData::Union(union) => Ok(self.dump_named("union", &union.name)),
            TypeData::Enumeration(enumeration) => Ok(self.dump_named("enum", &enumeration.name)),
            TypeData::Enumerate(enumerate) => Ok(self.dump_named("enum class", &enumerate.name)),
            TypeData::Modifier(modifier) => self.dump_modifier(modifier, record),
            TypeData::Other(description) => {
                let mut text = String::from_str("unhandled type /* ");
                text.append(description.as_str());
                text.append(" */");
                Ok(text)
            },
        }
    }

    /// Renders the type at `index` as a C/C++ declarator. Fails where the
    /// index, or one that the declarator needs, does not resolve to a parsed
    /// record, where a record refers to one that does not come before it,
    /// and where an array has no dimension.
    pub fn dump_index(&self, index: TypeIndex) -> (text: Result<String, TypeError>)
        ensures
            text_of(text) == self@.render_index(index),
        decreases index, 20nat, 0nat,
    {
        match self.find(index) {
            Err(error) => Err(error),
            Ok(data) => self.dump_data(data, index),
        }
    }

    fn dump_parent_scope(&self, scope: &ParentScope) -> (text: Option<String>)
        ensures
            match text {
                Some(text) => self@.parent_scope_text(*scope) == Some(text@),
                None => self@.parent_scope_text(*scope) is None,
            },
    {
        match scope {
            ParentScope::WithType(index) => match self.find(*index) {
                Err(_) => None,
                Ok(TypeData::Class(class)) => Some(class.name.clone()),
                Ok(other) => {
                    let mut text = String::from_str("<unhandled scope type ");
                    text.append(kind_name(other).as_str());
                    text.append(">");
                    Some(text)
                },
            },
            ParentScope::WithId(IdData::String(name)) => Some(name.clone()),
            ParentScope::WithId(IdData::Other(description)) => {
                let mut text = String::from_str("<unhandled id scope ");
                text.append(description.as_str());
                text.append(">");
                Some(text)
            },
        }
    }

    fn dump_scope_prefix(&self, parent: &Option<ParentScope>) -> (text: String)
        ensures
            text@ == self@.scope_prefix(*parent),
    {
        match parent {
            None => String::new(),
            Some(scope) => match self.dump_parent_scope(scope) {
                Some(text) => {
                    let mut text = text;
                    text.append("::");
                    text
                },
                None => String::new(),
            },
        }
    }

    /// Renders the signature of the function `name` whose type is at
    /// `index`, qualified by `parent`. An empty name gives `<name omitted>`;
    /// the index 0, and a type that is no function, give the name alone. A
    /// member function is `static` where it has no receiver and `const`
    /// where its receiver points to its class as `const`.
    pub fn dump_function(&self, name: &str, index: TypeIndex, parent: Option<ParentScope>) -> (text:
        Result<String, TypeError>)
        ensures
            text_of(text) == self@.function_text(name@, index, parent),
    {
        if name.is_empty() {
            Ok(String::from_str("<name omitted>"))
        } else if index == 0 {
            Ok(String::from_str(name))
        } else {
            match self.find(index) {
                Err(error) => Err(error),
                Ok(TypeData::MemberFunction(method)) => {
                    let (is_static, is_const, return_text, arguments) =
                        match self.dump_method_parts(
                        method,
                        self.flags.has(NO_FUNCTION_RETURN),
                        index,
                    ) {
                        Err(error) => {
                            return Err(error);
                        },
                        Ok(parts) => parts,
                    };
                    let scope = self.dump_scope_prefix(&parent);
                    Ok(signature(is_static, return_text, &scope, name, &arguments, is_const))
                },
                Ok(TypeData::Procedure(procedure)) => {
                    let (return_text, arguments) = match self.dump_procedure_parts(
                        procedure,
                        self.flags.has(NO_FUNCTION_RETURN),
                        index,
                    ) {
                        Err(error) => {
                            return Err(error);
                        },
                        Ok(parts) => parts,
                    };
                    let scope = self.dump_scope_prefix(&parent);
                    Ok(signature(false, return_text, &scope, name, &arguments, false))
                },
                Ok(_) => Ok(String::from_str(name)),
            }
        }
    }
}

fn signature(
    is_static: bool,
    return_text: String,
    scope: &String,
    name: &str,
    arguments: &String,
    is_const: bool,
) -> (text: String)
    ensures
        text@ == signature_text(is_static, return_text@, scope@, name@, arguments@, is_const),
{
    let mut text = if is_static {
        String::from_str("static ")
    } else {
        String::new()
    };
    text.append(fix_return(return_text).as_str());
    text.append(scope.as_str());
    text.append(name);
    text.append("(");
    text.append(arguments.as_str());
    text.append(")");
    if is_const {
        text.append(" const");
    }
    assert(text@ =~= signature_text(is_static, return_text@, scope@, name@, arguments@, is_const));
    text
}

} // verus!
