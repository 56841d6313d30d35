use vstd::prelude::*;

verus! {

/// The index of a record in a type stream.
pub type TypeIndex = u32;

/// The simple types that need no record of their own.
#[derive(Clone, Copy, Debug, PartialEq, Eq, Structural)]
pub enum PrimitiveKind {
    NoType,
    Void,
    Char,
    UChar,
    RChar,
    WChar,
    RChar16,
    RChar32,
    I8,
    U8,
    Short,
    UShort,
    I16,
    U16,
    Long,
    ULong,
    I32,
    U32,
    Quad,
    UQuad,
    I64,
    U64,
    Octa,
    UOcta,
    I128,
    U128,
    F16,
    F32,
    F32PP,
    F48,
    F64,
    F80,
    F128,
    Complex32,
    Complex64,
    Complex80,
    Complex128,
    Bool8,
    Bool16,
    Bool32,
    Bool64,
    HRESULT,
}

/// A simple type, possibly behind one pointer.
#[derive(Clone, Copy, Debug, PartialEq, Eq, Structural)]
pub struct PrimitiveType {
    pub kind: PrimitiveKind,
    /// Whether the type is a pointer to `kind` rather than `kind` itself.
    pub indirection: bool,
}

/// The keyword an aggregate was declared with.
#[derive(Clone, Copy, Debug, PartialEq, Eq, Structural)]
pub enum ClassKind {
    Class,
    Struct,
    Interface,
}

/// A class, struct or interface: either its definition or a forward reference to it.
#[derive(Clone, Debug, PartialEq, Eq)]
pub struct ClassType {
    pub kind: ClassKind,
    /// Set on a record that only announces the aggregate; its size is then not meaningful.
    pub forward_reference: bool,
    pub size: u32,
    pub name: String,
    /// The mangled name, which tells apart aggregates that share a source name.
    pub unique_name: Option<String>,
}

/// A union: either its definition or a forward reference to it.
#[derive(Clone, Debug, PartialEq, Eq)]
pub struct UnionType {
    pub forward_reference: bool,
    pub size: u32,
    pub name: String,
    pub unique_name: Option<String>,
}

/// What kind of indirection a pointer record stands for.
#[derive(Clone, Copy, Debug, PartialEq, Eq, Structural)]
pub enum PointerMode {
    Pointer,
    LValueReference,
    Member,
    MemberFunction,
    RValueReference,
}

/// A pointer or reference to `underlying_type`.
#[derive(Clone, Copy, Debug, PartialEq, Eq, Structural)]
pub struct PointerType {
    pub underlying_type: TypeIndex,
    pub mode: PointerMode,
    /// Whether the pointer itself is `const`.
    pub is_const: bool,
    /// The size of the pointer in bytes.
    pub size: u8,
}

/// `underlying_type` with qualifiers.
#[derive(Clone, Copy, Debug, PartialEq, Eq, Structural)]
pub struct ModifierType {
    pub underlying_type: TypeIndex,
    pub constant: bool,
    pub volatile: bool,
}

/// An array of `element_type`.
#[derive(Clone, Debug, PartialEq, Eq)]
pub struct ArrayType {
    pub element_type: TypeIndex,
    /// The size in bytes of each level of the array, the innermost level
    /// first: a `float[4][4]` has the dimensions 16 and 64.
    pub dimensions: Vec<u32>,
}

/// A free function.
#[derive(Clone, Copy, Debug, PartialEq, Eq, Structural)]
pub struct ProcedureType {
    pub return_type: Option<TypeIndex>,
    pub is_constructor: bool,
    pub argument_list: TypeIndex,
}

/// A member function of `class_type`.
#[derive(Clone, Copy, Debug, PartialEq, Eq, Structural)]
pub struct MemberFunctionType {
    pub return_type: TypeIndex,
    pub class_type: TypeIndex,
    /// The type of `this`; absent on a static member function.
    pub this_pointer_type: Option<TypeIndex>,
    pub is_constructor: bool,
    pub argument_list: TypeIndex,
}

/// The types of the arguments of a function, in order.
#[derive(Clone, Debug, PartialEq, Eq)]
pub struct ArgumentList {
    pub arguments: Vec<TypeIndex>,
}

/// An enumeration over `underlying_type`.
#[derive(Clone, Debug, PartialEq, Eq)]
pub struct EnumerationType {
    pub underlying_type: TypeIndex,
    pub name: String,
}

/// An integer of an explicit width.
#[derive(Clone, Copy, Debug, PartialEq, Eq, Structural)]
pub enum Variant {
    U8(u8),
    U16(u16),
    U32(u32),
    U64(u64),
    I8(i8),
    I16(i16),
    I32(i32),
    I64(i64),
}

/// One enumerator of an enumeration.
#[derive(Clone, Debug, PartialEq, Eq)]
pub struct EnumerateType {
    pub value: Variant,
    pub name: String,
}

/// One parsed record of a type stream.
#[derive(Clone, Debug, PartialEq, Eq)]
pub enum TypeData {
    Primitive(PrimitiveType),
    Class(ClassType),
    Union(UnionType),
    Pointer(PointerType),
    Modifier(ModifierType),
    Array(ArrayType),
    Procedure(ProcedureType),
    MemberFunction(MemberFunctionType),
    ArgumentList(ArgumentList),
    Enumeration(EnumerationType),
    Enumerate(EnumerateType),
    /// A record of a kind that has no declarator, with a description of it.
    Other(String),
}

/// Why a type could not be resolved.
#[derive(Clone, Copy, Debug, PartialEq, Eq, Structural)]
pub enum TypeError {
    /// The stream has no record at this index.
    TypeNotFound(TypeIndex),
    /// The record at this index could not be parsed.
    UnparsableType(TypeIndex),
    /// The record at `record` refers to `target`, which does not come before it.
    IndexOrder { record: TypeIndex, target: TypeIndex },
    /// The array record at this index has no dimension.
    MissingDimension(TypeIndex),
}

/// The entity a function is a member of.
#[derive(Clone, Debug, PartialEq, Eq)]
pub enum ParentScope {
    /// A type of the stream, by its index.
    WithType(TypeIndex),
    /// An entry of the id stream.
    WithId(IdData),
}

/// One parsed record of an id stream, as far as scopes read it.
#[derive(Clone, Debug, PartialEq, Eq)]
pub enum IdData {
    /// A string, which names a namespace or a class.
    String(String),
    /// A record of another kind, with a description of it.
    Other(String),
}

} // verus!
