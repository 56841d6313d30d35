//! The storage size of each type of a stream.

use super::flags::DumperFlags;
use super::type_data::{PrimitiveKind, TypeData, TypeError, TypeIndex, Variant};
use vstd::prelude::*;

verus! {

/// A type stream as a mathematical value: its records by index, the size of a
/// pointer of the target, and the style to render with.
pub struct Stream {
    /// The records of the stream; the record at position `i` has the index
    /// `i`, and `None` stands for a record that could not be parsed.
    pub types: Seq<Option<TypeData>>,
    pub ptr_size: u32,
    pub flags: DumperFlags,
}

/// The name under which the size of an aggregate is kept: its unique name
/// where it has one, else its source name.
pub open spec fn aggregate_key(name: String, unique_name: Option<String>) -> Seq<char> {
    match unique_name {
        Some(unique) => unique@,
        None => name@,
    }
}

/// The key and size that a record defines: those of a class or union that is
/// no forward reference.
pub open spec fn definition_of(entry: Option<TypeData>) -> Option<(Seq<char>, u32)> {
    match entry {
        Some(TypeData::Class(class)) => if class.forward_reference {
            None
        } else {
            Some((aggregate_key(class.name, class.unique_name), class.size))
        },
        Some(TypeData::Union(union)) => if union.forward_reference {
            None
        } else {
            Some((aggregate_key(union.name, union.unique_name), union.size))
        },
        _ => None,
    }
}

/// The sizes that the definitions among `types` give, by key. Where two
/// definitions share a key, the later one counts.
pub open spec fn size_map(types: Seq<Option<TypeData>>) -> Map<Seq<char>, u32>
    decreases types.len(),
{
    if types.len() == 0 {
        Map::empty()
    } else {
        let earlier = size_map(types.drop_last());
        match definition_of(types.last()) {
            Some((key, size)) => earlier.insert(key, size),
            None => earlier,
        }
    }
}

/// The size of an aggregate: for a forward reference the size that the
/// definition under its key gives, if there is one; else its own.
pub open spec fn aggregate_size(
    sizes: Map<Seq<char>, u32>,
    forward_reference: bool,
    key: Seq<char>,
    own_size: u32,
) -> u32 {
    if forward_reference && sizes.contains_key(key) {
        sizes[key]
    } else {
        own_size
    }
}

/// The size in bytes of a value of a simple type.
pub open spec fn primitive_size(kind: PrimitiveKind) -> u32 {
    match kind {
        PrimitiveKind::NoType | PrimitiveKind::Void => 0,
        PrimitiveKind::Char
        | PrimitiveKind::UChar
        | PrimitiveKind::RChar
        | PrimitiveKind::I8
        | PrimitiveKind::U8
        | PrimitiveKind::Bool8 => 1,
        PrimitiveKind::WChar
        | PrimitiveKind::RChar16
        | PrimitiveKind::Short
        | PrimitiveKind::UShort
        | PrimitiveKind::I16
        | PrimitiveKind::U16
        | PrimitiveKind::F16
        | PrimitiveKind::Bool16 => 2,
        PrimitiveKind::RChar32
        | PrimitiveKind::Long
        | PrimitiveKind::ULong
        | PrimitiveKind::I32
        | PrimitiveKind::U32
        | PrimitiveKind::F32
        | PrimitiveKind::F32PP
        | PrimitiveKind::Bool32
        | PrimitiveKind::HRESULT => 4,
        PrimitiveKind::I64
        | PrimitiveKind::U64
        | PrimitiveKind::Quad
        | PrimitiveKind::UQuad
        | PrimitiveKind::F64
        | PrimitiveKind::Complex32
        | PrimitiveKind::Bool64 => 8,
        PrimitiveKind::I128
        | PrimitiveKind::U128
        | PrimitiveKind::Octa
        | PrimitiveKind::UOcta
        | PrimitiveKind::F128
        | PrimitiveKind::Complex64 => 16,
        PrimitiveKind::F48 => 6,
        PrimitiveKind::F80 => 10,
        PrimitiveKind::Complex80 => 20,
        PrimitiveKind::Complex128 => 32,
    }
}

/// The width in bytes of an integer.
pub open spec fn variant_size(value: Variant) -> u32 {
    match value {
        Variant::I8(_) | Variant::U8(_) => 1,
        Variant::I16(_) | Variant::U16(_) => 2,
        Variant::I32(_) | Variant::U32(_) => 4,
        Variant::I64(_) | Variant::U64(_) => 8,
    }
}

impl Stream {
    /// The record at `index`, or why there is none.
    pub open spec fn find(self, index: TypeIndex) -> Result<TypeData, TypeError> {
        if index < self.types.len() {
            match self.types[index as int] {
                Some(data) => Ok(data),
                None => Err(TypeError::UnparsableType(index)),
            }
        } else {
            Err(TypeError::TypeNotFound(index))
        }
    }

    /// The record at `target`, which the record at `record` refers to. A
    /// record may only refer to records that come before it.
    pub open spec fn find_ref(self, target: TypeIndex, record: TypeIndex) -> Result<
        TypeData,
        TypeError,
    > {
        if target < record {
            self.find(target)
        } else {
            Err(TypeError::IndexOrder { record, target })
        }
    }

    /// The sizes of the aggregates that the stream defines, by key.
    pub open spec fn sizes(self) -> Map<Seq<char>, u32> {
        size_map(self.types)
    }

    /// The size in bytes of a value of the type `data`, which is the record at `index`.
    pub open spec fn data_size(self, data: TypeData, index: TypeIndex) -> u32
        decreases index, 0nat,
    {
        match data {
            TypeData::Primitive(primitive) => if primitive.indirection {
                self.ptr_size
            } else {
                primitive_size(primitive.kind)
            },
            TypeData::Class(class) => aggregate_size(
                self.sizes(),
                class.forward_reference,
                aggregate_key(class.name, class.unique_name),
                class.size,
            ),
            TypeData::Union(union) => aggregate_size(
                self.sizes(),
                union.forward_reference,
                aggregate_key(union.name, union.unique_name),
                union.size,
            ),
            TypeData::MemberFunction(_) => self.ptr_size,
            TypeData::Procedure(_) => self.ptr_size,
            TypeData::Pointer(pointer) => pointer.size as u32,
            TypeData::Array(array) => if array.dimensions@.len() == 0 {
                0
            } else {
                array.dimensions@.last()
            },
            TypeData::Enumeration(enumeration) => if enumeration.underlying_type < index {
                self.type_size(enumeration.underlying_type)
            } else {
                0
            },
            TypeData::Enumerate(enumerate) => variant_size(enumerate.value),
            TypeData::Modifier(modifier) => if modifier.underlying_type < index {
                self.type_size(modifier.underlying_type)
            } else {
                0
            },
            TypeData::ArgumentList(_) => 0,
            TypeData::Other(_) => 0,
        }
    }

    /// The size in bytes of a value of the type at `index`; 0 where the index
    /// does not resolve.
    pub open spec fn type_size(self, index: TypeIndex) -> u32
        decreases index, 1nat,
    {
        match self.find(index) {
            Ok(data) => self.data_size(data, index),
            Err(_) => 0,
        }
    }
}

} // verus!
