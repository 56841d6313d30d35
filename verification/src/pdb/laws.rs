//! What holds of the sizes and declarators of every stream.

use super::rendering::{
    dimension_text, dimensions_text, level_of, with_pointee_const, PtrAttributes,
};
use super::sizes::{aggregate_key, definition_of, size_map, Stream};
use super::type_data::{
    ArrayType, MemberFunctionType, ModifierType, PointerType, ProcedureType, TypeData, TypeIndex,
};
use crate::text::decimal_text;
use vstd::prelude::*;

verus! {

/// The key of a forward reference to a class or union.
pub open spec fn forward_key(entry: Option<TypeData>) -> Option<Seq<char>> {
    match entry {
        Some(TypeData::Class(class)) => if class.forward_reference {
            Some(aggregate_key(class.name, class.unique_name))
        } else {
            None
        },
        Some(TypeData::Union(union)) => if union.forward_reference {
            Some(aggregate_key(union.name, union.unique_name))
        } else {
            None
        },
        _ => None,
    }
}

/// Whether every definition under `key` that follows the record at
/// `definition` gives the size `size`.
pub open spec fn later_definitions_agree(
    types: Seq<Option<TypeData>>,
    definition: int,
    key: Seq<char>,
    size: u32,
) -> bool {
    forall|later: int|
        definition < later < types.len() ==> (#[trigger] definition_of(types[later]) matches Some(
            found,
        ) ==> found.0 == key ==> found.1 == size)
}

/// The size kept under a key is that of the last definition under it.
pub proof fn lemma_size_map_holds_definition(
    types: Seq<Option<TypeData>>,
    definition: int,
    key: Seq<char>,
    size: u32,
)
    requires
        0 <= definition < types.len(),
        definition_of(types[definition]) == Some((key, size)),
        later_definitions_agree(types, definition, key, size),
    ensures
        size_map(types).contains_key(key),
        size_map(types)[key] == size,
    decreases types.len(),
{
    if definition < types.len() - 1 {
        let earlier = types.drop_last();
        assert forall|later: int| definition < later < earlier.len() implies (
        #[trigger] definition_of(earlier[later]) matches Some(found) ==> found.0 == key ==> found.1
            == size) by {
            assert(earlier[later] == types[later]);
        }
        lemma_size_map_holds_definition(earlier, definition, key, size);
        assert(definition_of(types[types.len() - 1]) matches Some(found) ==> found.0 == key
            ==> found.1 == size);
    }
}

/// A forward reference to an aggregate has the size of the definition of
/// the aggregate: where the record at `definition` defines a class or union
/// and the record at `forward` is a forward reference under the same key,
/// the two have one size, the size `size` that the definition gives. Where
/// the stream defines the key once more after `definition`, the later
/// definition has to give the same size, for it is the last definition
/// that counts.
pub proof fn lemma_forward_reference_has_defined_size(
    stream: Stream,
    forward: TypeIndex,
    definition: TypeIndex,
    key: Seq<char>,
    size: u32,
)
    requires
        forward < stream.types.len(),
        definition < stream.types.len(),
        definition_of(stream.types[definition as int]) == Some((key, size)),
        forward_key(stream.types[forward as int]) == Some(key),
        later_definitions_agree(stream.types, definition as int, key, size),
    ensures
        stream.type_size(forward) == stream.type_size(definition),
        stream.type_size(definition) == size,
{
    lemma_size_map_holds_definition(stream.types, definition as int, key, size);
}

/// The numbers of elements of nested arrays, each in brackets.
pub open spec fn counts_text(counts: Seq<u32>) -> Seq<char>
    decreases counts.len(),
{
    if counts.len() == 0 {
        Seq::empty()
    } else {
        "["@ + decimal_text(counts[0] as nat) + "]"@ + counts_text(counts.drop_first())
    }
}

/// The size of one element of the level `level` of nested arrays.
pub open spec fn element_size_at(sizes: Seq<u32>, base_size: u32, level: int) -> u32 {
    if level + 1 < sizes.len() {
        sizes[level + 1]
    } else {
        base_size
    }
}

/// Dimensions survive the encoding as sizes in bytes: where each level of
/// nested arrays has the size of its number of elements times the size of
/// one element, and no element has the size 0, the dimensions are rendered
/// as the numbers of elements. An array `T[A][B][C]` over an element of the
/// size `E`, encoded as `A*B*C*E`, `B*C*E`, `C*E`, is rendered `[A][B][C]`.
pub proof fn lemma_dimensions_round_trip(counts: Seq<u32>, sizes: Seq<u32>, base_size: u32)
    requires
        counts.len() == sizes.len(),
        base_size > 0,
        forall|level: int| 0 <= level < sizes.len() ==> sizes[level] > 0,
        forall|level: int|
            0 <= level < sizes.len() ==> #[trigger] sizes[level] == counts[level]
                * element_size_at(sizes, base_size, level),
    ensures
        dimensions_text(sizes, base_size) == counts_text(counts),
    decreases sizes.len(),
{
    if sizes.len() > 0 {
        let inner = sizes.drop_first();
        let element = element_size_at(sizes, base_size, 0);
        assert(element > 0);
        assert(sizes[0] == counts[0] * element);
        assert(sizes[0] / element == counts[0]) by (nonlinear_arith)
            requires
                sizes[0] == counts[0] * element,
                element > 0,
        ;
        assert forall|level: int| 0 <= level < inner.len() implies #[trigger] inner[level]
            == counts.drop_first()[level] * element_size_at(inner, base_size, level) by {
            assert(inner[level] == sizes[level + 1]);
            assert(element_size_at(inner, base_size, level) == element_size_at(
                sizes,
                base_size,
                level + 1,
            ));
        }
        lemma_dimensions_round_trip(counts.drop_first(), inner, base_size);
        assert(dimension_text(sizes[0], element) == "["@ + decimal_text(counts[0] as nat) + "]"@);
    }
}

/// Whether `target` is the index of a parsed record that comes before `record`.
pub open spec fn refers_back(stream: Stream, target: TypeIndex, record: TypeIndex) -> bool {
    target < record && target < stream.types.len() && stream.types[target as int] is Some
}

/// Whether the record `data` at `record` has what a declarator needs: the
/// records that it refers to are parsed and come before it, and an array
/// has a dimension.
pub open spec fn is_complete(stream: Stream, data: TypeData, record: TypeIndex) -> bool {
    match data {
        TypeData::Pointer(pointer) => refers_back(stream, pointer.underlying_type, record),
        TypeData::Modifier(modifier) => refers_back(stream, modifier.underlying_type, record),
        TypeData::Array(array) => array.dimensions@.len() > 0 && refers_back(
            stream,
            array.element_type,
            record,
        ),
        TypeData::Procedure(procedure) => refers_back(stream, procedure.argument_list, record),
        TypeData::MemberFunction(method) => {
            &&& refers_back(stream, method.argument_list, record)
            &&& refers_back(stream, method.class_type, record)
            &&& method.this_pointer_type matches Some(this) ==> refers_back(stream, this, record)
        },
        TypeData::ArgumentList(list) => forall|k: int|
            0 <= k < list.arguments@.len() ==> refers_back(
                stream,
                #[trigger] list.arguments@[k],
                record,
            ),
        _ => true,
    }
}

/// Whether every parsed record of the stream is complete.
pub open spec fn is_in_order(stream: Stream) -> bool {
    forall|record: TypeIndex|
        record < stream.types.len() ==> (#[trigger] stream.types[record as int] matches Some(
            data,
        ) ==> is_complete(stream, data, record))
}

/// In a stream in which every parsed record is complete, every parsed
/// record has a declarator.
pub proof fn lemma_parsed_record_has_declarator(stream: Stream, index: TypeIndex)
    requires
        is_in_order(stream),
        index < stream.types.len(),
        stream.types[index as int] is Some,
    ensures
        stream.render_index(index) is Ok,
    decreases index, 20nat, 0nat,
{
    lemma_data_has_declarator(stream, stream.types[index as int]->0, index);
}

proof fn lemma_ref_has_declarator(stream: Stream, target: TypeIndex, record: TypeIndex)
    requires
        is_in_order(stream),
        refers_back(stream, target, record),
    ensures
        stream.render_ref(target, record) is Ok,
    decreases record, 0nat, 0nat,
{
    lemma_parsed_record_has_declarator(stream, target);
}

proof fn lemma_arguments_have_declarators(
    stream: Stream,
    arguments: Seq<TypeIndex>,
    record: TypeIndex,
)
    requires
        is_in_order(stream),
        forall|k: int|
            0 <= k < arguments.len() ==> refers_back(stream, #[trigger] arguments[k], record),
    ensures
        stream.arguments_text(arguments, record) is Ok,
    decreases record, 1nat, arguments.len(),
{
    if arguments.len() > 0 {
        let earlier = arguments.drop_last();
        assert forall|k: int| 0 <= k < earlier.len() implies refers_back(
            stream,
            #[trigger] earlier[k],
            record,
        ) by {
            assert(earlier[k] == arguments[k]);
        }
        lemma_arguments_have_declarators(stream, earlier, record);
        lemma_ref_has_declarator(stream, arguments.last(), record);
    }
}

proof fn lemma_procedure_has_parts(
    stream: Stream,
    procedure: ProcedureType,
    no_return: bool,
    record: TypeIndex,
)
    requires
        is_in_order(stream),
        is_complete(stream, TypeData::Procedure(procedure), record),
    ensures
        stream.procedure_parts(procedure, no_return, record) is Ok,
    decreases record, 2nat, 0nat,
{
    lemma_ref_has_declarator(stream, procedure.argument_list, record);
}

/// The receiver of a member function can be classified where it is a
/// parsed record of a stream in order.
proof fn lemma_receiver_is_classified(stream: Stream, this: TypeIndex, class: TypeIndex)
    requires
        is_in_order(stream),
        this < stream.types.len(),
        stream.types[this as int] is Some,
    ensures
        stream.check_this(this, class) is Ok,
{
    let data = stream.types[this as int]->0;
    assert(is_complete(stream, data, this));
}

proof fn lemma_method_has_parts(
    stream: Stream,
    method: MemberFunctionType,
    no_return: bool,
    record: TypeIndex,
)
    requires
        is_in_order(stream),
        is_complete(stream, TypeData::MemberFunction(method), record),
    ensures
        stream.method_parts(method, no_return, record) is Ok,
    decreases record, 2nat, 0nat,
{
    lemma_ref_has_declarator(stream, method.argument_list, record);
    match method.this_pointer_type {
        Some(this) => {
            lemma_receiver_is_classified(stream, this, method.class_type);
            lemma_ref_has_declarator(stream, this, record);
        },
        None => {},
    }
}

proof fn lemma_pointee_has_declarator(
    stream: Stream,
    attributes: Seq<PtrAttributes>,
    data: TypeData,
    record: TypeIndex,
)
    requires
        is_in_order(stream),
        record < stream.types.len(),
        stream.types[record as int] == Some(data),
    ensures
        stream.pointee_text(attributes, data, record) is Ok,
    decreases record, 19nat, 0nat,
{
    assert(is_complete(stream, data, record));
    match data {
        TypeData::MemberFunction(method) => {
            lemma_ref_has_declarator(stream, method.class_type, record);
            lemma_method_has_parts(stream, method, false, record);
        },
        TypeData::Procedure(procedure) => {
            lemma_procedure_has_parts(stream, procedure, false, record);
        },
        _ => {
            lemma_data_has_declarator(stream, data, record);
        },
    }
}

proof fn lemma_chain_has_declarator(
    stream: Stream,
    attributes: Seq<PtrAttributes>,
    target: TypeIndex,
    record: TypeIndex,
)
    requires
        is_in_order(stream),
        refers_back(stream, target, record),
    ensures
        stream.pointer_chain(attributes, target, record) is Ok,
    decreases record, 10nat, 0nat,
{
    let data = stream.types[target as int]->0;
    assert(is_complete(stream, data, target));
    match data {
        TypeData::Pointer(next) => {
            lemma_chain_has_declarator(
                stream,
                attributes.push(level_of(next)),
                next.underlying_type,
                target,
            );
        },
        TypeData::Modifier(modifier) => {
            let qualified = with_pointee_const(attributes, modifier.constant);
            let inner = stream.types[modifier.underlying_type as int]->0;
            assert(is_complete(stream, inner, modifier.underlying_type));
            match inner {
                TypeData::Pointer(next) => {
                    lemma_chain_has_declarator(
                        stream,
                        qualified.push(level_of(next)),
                        next.underlying_type,
                        modifier.underlying_type,
                    );
                },
                _ => {
                    lemma_pointee_has_declarator(
                        stream,
                        qualified,
                        inner,
                        modifier.underlying_type,
                    );
                },
            }
        },
        _ => {
            lemma_pointee_has_declarator(stream, attributes, data, target);
        },
    }
}

proof fn lemma_pointer_has_declarator(
    stream: Stream,
    pointer: PointerType,
    is_const: bool,
    record: TypeIndex,
)
    requires
        is_in_order(stream),
        is_complete(stream, TypeData::Pointer(pointer), record),
    ensures
        stream.pointer_text(pointer, is_const, record) is Ok,
    decreases record, 11nat, 0nat,
{
    lemma_chain_has_declarator(
        stream,
        seq![
            PtrAttributes {
                is_pointer_const: pointer.is_const || is_const,
                is_pointee_const: false,
                mode: pointer.mode,
            },
        ],
        pointer.underlying_type,
        record,
    );
}

/// Nested arrays end in a parsed record that comes before them.
proof fn lemma_array_has_base(stream: Stream, element: TypeIndex, record: TypeIndex)
    requires
        is_in_order(stream),
        refers_back(stream, element, record),
    ensures
        stream.array_base(element, record) is Ok,
        stream.array_base(element, record)->Ok_0.index < record,
        stream.array_base(element, record)->Ok_0.index < stream.types.len(),
        stream.types[stream.array_base(element, record)->Ok_0.index as int] == Some(
            stream.array_base(element, record)->Ok_0.base,
        ),
    decreases record,
{
    let data = stream.types[element as int]->0;
    assert(is_complete(stream, data, element));
    match data {
        TypeData::Array(inner) => {
            lemma_array_has_base(stream, inner.element_type, element);
        },
        _ => {},
    }
}

proof fn lemma_array_has_declarator(stream: Stream, array: ArrayType, record: TypeIndex)
    requires
        is_in_order(stream),
        is_complete(stream, TypeData::Array(array), record),
    ensures
        stream.array_text(array, record) is Ok,
    decreases record, 12nat, 0nat,
{
    lemma_array_has_base(stream, array.element_type, record);
    let found = stream.array_base(array.element_type, record)->Ok_0;
    lemma_data_has_declarator(stream, found.base, found.index);
}

proof fn lemma_modifier_has_declarator(stream: Stream, modifier: ModifierType, record: TypeIndex)
    requires
        is_in_order(stream),
        is_complete(stream, TypeData::Modifier(modifier), record),
    ensures
        stream.modifier_text(modifier, record) is Ok,
    decreases record, 12nat, 0nat,
{
    let data = stream.types[modifier.underlying_type as int]->0;
    assert(is_complete(stream, data, modifier.underlying_type));
    match data {
        TypeData::Pointer(pointer) => {
            lemma_pointer_has_declarator(
                stream,
                pointer,
                modifier.constant,
                modifier.underlying_type,
            );
        },
        TypeData::Primitive(_) => {},
        _ => {
            lemma_data_has_declarator(stream, data, modifier.underlying_type);
        },
    }
}

proof fn lemma_data_has_declarator(stream: Stream, data: TypeData, record: TypeIndex)
    requires
        is_in_order(stream),
        record < stream.types.len(),
        stream.types[record as int] == Some(data),
    ensures
        stream.render_data(data, record) is Ok,
    decreases record, 15nat, 0nat,
{
    assert(is_complete(stream, data, record));
    match data {
        TypeData::MemberFunction(method) => {
            lemma_method_has_parts(stream, method, stream.flags.omits_return(), record);
        },
        TypeData::Procedure(procedure) => {
            lemma_procedure_has_parts(stream, procedure, stream.flags.omits_return(), record);
        },
        TypeData::ArgumentList(list) => {
            lemma_arguments_have_declarators(stream, list.arguments@, record);
        },
        TypeData::Pointer(pointer) => {
            lemma_pointer_has_declarator(stream, pointer, false, record);
        },
        TypeData::Array(array) => {
            lemma_array_has_declarator(stream, array, record);
        },
        TypeData::Modifier(modifier) => {
            lemma_modifier_has_declarator(stream, modifier, record);
        },
        _ => {},
    }
}

} // verus!
