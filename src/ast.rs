//! The front-end's view of a translation unit, as plain values: the entity
//! tree and the type descriptors that the extraction reads.
use vstd::prelude::*;

verus! {

/// The kinds of foreign type that extraction tells apart; every other kind
/// is `Other`.
#[derive(Clone, Copy, PartialEq, Eq, Debug, Structural)]
pub enum CTypeKind {
    Pointer,
    IncompleteArray,
    LValueReference,
    ConstantArray,
    Auto,
    Unexposed,
    BlockPointer,
    MemberPointer,
    /// A function type with a prototype, as under a function pointer.
    FunctionProto,
    /// A function type without a prototype.
    FunctionNoProto,
    Void,
    Bool,
    CharS,
    SChar,
    CharU,
    UChar,
    WChar,
    Short,
    UShort,
    Int,
    UInt,
    Long,
    ULong,
    LongLong,
    ULongLong,
    Float,
    Double,
    Typedef,
    Enum,
    Record,
    Other,
}

/// The kind of a scope on the way from a declaration to the translation unit.
#[derive(Clone, Copy, PartialEq, Eq, Debug, Structural)]
pub enum ScopeKind {
    TranslationUnit,
    Namespace,
    Record,
    Other,
}

/// One entity on the chain of semantic parents of a declaration.
#[derive(Clone, PartialEq, Eq, Debug)]
pub struct Scope {
    pub kind: ScopeKind,
    pub name: Option<String>,
}

/// A foreign type descriptor.
#[derive(Debug)]
pub struct CType {
    pub kind: CTypeKind,
    /// How the front-end spells the type, for diagnostics.
    pub spelling: String,
    pub is_const: bool,
    /// The named type behind elaborated sugar (`struct Foo`, `ns::Foo`).
    pub elaborated: Option<Box<CType>>,
    pub pointee: Option<Box<CType>>,
    pub element: Option<Box<CType>>,
    /// Element count of a constant array.
    pub size: Option<usize>,
    /// The declaring entity followed by its semantic parents, innermost first,
    /// up to and including the translation unit.
    pub declaration: Option<Vec<Scope>>,
    /// Template arguments of a record type; `None` for an argument that is
    /// not a type.
    pub template_args: Option<Vec<Option<CType>>>,
}

#[derive(Clone, Copy, PartialEq, Eq, Debug, Structural)]
pub enum EntityKind {
    TranslationUnit,
    Namespace,
    VarDecl,
    FieldDecl,
    EnumDecl,
    EnumConstantDecl,
    TypedefDecl,
    TypeAliasDecl,
    ClassDecl,
    StructDecl,
    UnionDecl,
    FunctionDecl,
    Method,
    Constructor,
    Destructor,
    BaseSpecifier,
    ParmDecl,
    Other,
}

#[derive(Clone, Copy, PartialEq, Eq, Debug, Structural)]
pub enum Accessibility {
    Public,
    Protected,
    Private,
}

#[derive(Clone, Copy, PartialEq, Eq, Debug, Structural)]
pub enum StorageClass {
    Extern,
    Static,
    Other,
}

/// The outcome of evaluating a constant expression. A floating result
/// carries its binary64 bits and the binary32 bits of its narrowing.
#[derive(Clone, PartialEq, Eq, Debug)]
pub enum Evaluation {
    Signed(i64),
    Unsigned(u64),
    Float { double_bits: u64, single_bits: u32 },
    Str(String),
    Other,
}

/// One node of the entity tree.
#[derive(Debug)]
pub struct Entity {
    pub kind: EntityKind,
    pub name: Option<String>,
    /// Path of the file the entity is expanded in.
    pub file: Option<String>,
    pub in_system_header: bool,
    pub accessibility: Option<Accessibility>,
    pub storage: Option<StorageClass>,
    pub ty: Option<CType>,
    /// Whether the entity's type is plain old data.
    pub is_pod: bool,
    pub is_definition: bool,
    /// Whether the entity is a template or an instantiation of one.
    pub is_template: bool,
    pub is_virtual_method: bool,
    pub is_static_method: bool,
    pub is_const_method: bool,
    /// Result type of a function's type.
    pub result_type: Option<CType>,
    /// Underlying type of a typedef or alias.
    pub typedef_underlying: Option<CType>,
    /// Declaration of the underlying type of a typedef or alias.
    pub typedef_target: Option<Box<Entity>>,
    pub enum_underlying: Option<CType>,
    /// Whether the underlying type of an enum is an unsigned integer type.
    pub enum_unsigned: bool,
    /// Value of an enum constant, read as signed and as unsigned.
    pub enum_value: Option<(i64, u64)>,
    pub evaluation: Option<Evaluation>,
    /// Parameters of a function.
    pub arguments: Option<Vec<Entity>>,
    pub children: Vec<Entity>,
}

impl CType {
    /// A type of the given kind with nothing under it.
    pub fn new(kind: CTypeKind, spelling: String) -> (r: CType)
        ensures
            r.kind == kind,
            r.spelling == spelling,
            !r.is_const,
            r.elaborated is None,
            r.pointee is None,
            r.element is None,
            r.size is None,
            r.declaration is None,
            r.template_args is None,
    {
        CType {
            kind,
            spelling,
            is_const: false,
            elaborated: None,
            pointee: None,
            element: None,
            size: None,
            declaration: None,
            template_args: None,
        }
    }
}

impl Entity {
    /// An entity of the given kind with no name, no type and no children,
    /// and every flag unset.
    pub fn new(kind: EntityKind) -> (r: Entity)
        ensures
            r.kind == kind,
            r.name is None,
            r.file is None,
            !r.in_system_header,
            r.accessibility is None,
            r.storage is None,
            r.ty is None,
            !r.is_pod,
            !r.is_definition,
            !r.is_template,
            !r.is_virtual_method,
            !r.is_static_method,
            !r.is_const_method,
            r.result_type is None,
            r.typedef_underlying is None,
            r.typedef_target is None,
            r.enum_underlying is None,
            !r.enum_unsigned,
            r.enum_value is None,
            r.evaluation is None,
            r.arguments is None,
            r.children@.len() == 0,
    {
        Entity {
            kind,
            name: None,
            file: None,
            in_system_header: false,
            accessibility: None,
            storage: None,
            ty: None,
            is_pod: false,
            is_definition: false,
            is_template: false,
            is_virtual_method: false,
            is_static_method: false,
            is_const_method: false,
            result_type: None,
            typedef_underlying: None,
            typedef_target: None,
            enum_underlying: None,
            enum_unsigned: false,
            enum_value: None,
            evaluation: None,
            arguments: None,
            children: Vec::new(),
        }
    }
}

} // verus!
