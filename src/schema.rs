//! The extracted API description: plain value trees, each with a
//! mathematical view in which strings are character sequences and vectors
//! are sequences.
use vstd::prelude::*;

verus! {

/// Visibility of a member that survived extraction (private members never do).
#[derive(Clone, Copy, PartialEq, Eq, Debug, Structural)]
pub enum Access {
    Public,
    Protected,
}

/// How a function is bound.
#[derive(Clone, Copy, PartialEq, Eq, Debug, Structural)]
pub enum FunctionSemantic {
    Free,
    Static,
    Method,
    Virtual,
}

/// The indirection shape of a type reference.
#[derive(Clone, Copy, PartialEq, Eq, Debug, Structural)]
pub enum TypeSemantic {
    Value,
    Pointer,
    PointerToPointer,
    Reference,
    ReferenceToPointer,
    Array(usize),
    ArrayOfArray(usize, usize),
    ArrayOfPointer(usize),
}

/// A literal value. Floating-point values are kept as their IEEE-754 bit
/// patterns (`Float` holds binary32 bits, `Double` binary64 bits).
#[derive(Clone, PartialEq, Eq, Debug)]
pub enum Value {
    Int(i64),
    UInt(u64),
    Float(u32),
    Double(u64),
    String(String),
}

/// The residual type of a type reference: a primitive bucket, or a scoped
/// name path (root to leaf), with template arguments for class types.
#[derive(Debug)]
pub enum TypeName {
    Void,
    Bool,
    Char,
    UChar,
    WChar,
    Short,
    UShort,
    Int,
    UInt,
    Long,
    ULong,
    LongLong,
    ULongLong,
    Float,
    Double,
    TypeName(Vec<String>),
    Class(Vec<String>, Vec<TypeRef>),
}

#[derive(Debug)]
pub struct TypeRef {
    pub name: TypeName,
    pub semantic: TypeSemantic,
    /// Const-qualification of the residual type, not of the indirection.
    pub is_const: bool,
}

#[derive(Debug)]
pub struct Const {
    pub name: String,
    pub ty: TypeRef,
    pub value: Value,
}

#[derive(Debug)]
pub struct Global {
    pub name: String,
    pub ty: TypeRef,
}

#[derive(Clone, PartialEq, Eq, Debug)]
pub struct Variant {
    pub name: String,
    pub value: Value,
}

#[derive(Debug)]
pub struct Enum {
    pub name: String,
    pub underlying: TypeRef,
    pub variants: Vec<Variant>,
}

#[derive(Debug)]
pub struct TypeAlias {
    pub name: String,
    pub ty: TypeRef,
}

#[derive(Debug)]
pub struct Field {
    pub name: String,
    pub ty: TypeRef,
    pub access: Access,
    pub is_static: bool,
}

#[derive(Debug)]
pub struct Param {
    pub name: String,
    pub ty: TypeRef,
    pub default: Option<Value>,
}

#[derive(Debug)]
pub struct Function {
    pub name: String,
    pub params: Vec<Param>,
    /// Absent exactly when the function returns `void`.
    pub return_ty: Option<TypeRef>,
    pub semantic: FunctionSemantic,
    pub access: Access,
    pub is_const: bool,
}

#[derive(Debug)]
pub struct Class {
    /// Path of the header the class was found in.
    pub header: String,
    pub name: String,
    /// The first public base, if any.
    pub inherits: Option<TypeName>,
    pub is_pod: bool,
    pub is_union: bool,
    pub consts: Vec<Const>,
    pub enums: Vec<Enum>,
    pub aliases: Vec<TypeAlias>,
    pub fields: Vec<Field>,
    pub anon_unions: Vec<Class>,
    pub ctors: Vec<Function>,
    pub methods: Vec<Function>,
    pub virtual_dtor: bool,
    pub classes: Vec<Class>,
}

#[derive(Debug)]
pub struct Namespace {
    pub name: String,
    pub consts: Vec<Const>,
    pub globals: Vec<Global>,
    pub enums: Vec<Enum>,
    pub aliases: Vec<TypeAlias>,
    pub functions: Vec<Function>,
    pub classes: Vec<Class>,
    pub namespaces: Vec<Namespace>,
}

// ---------------------------------------------------------------------------
// Views

pub enum TypeNameV {
    Void,
    Bool,
    Char,
    UChar,
    WChar,
    Short,
    UShort,
    Int,
    UInt,
    Long,
    ULong,
    LongLong,
    ULongLong,
    Float,
    Double,
    TypeName(Seq<Seq<char>>),
    Class(Seq<Seq<char>>, Seq<TypeRefV>),
}

pub struct TypeRefV {
    pub name: TypeNameV,
    pub semantic: TypeSemantic,
    pub is_const: bool,
}

pub struct ConstV {
    pub name: Seq<char>,
    pub ty: TypeRefV,
    pub value: Value,
}

pub struct GlobalV {
    pub name: Seq<char>,
    pub ty: TypeRefV,
}

pub struct EnumV {
    pub name: Seq<char>,
    pub underlying: TypeRefV,
    pub variants: Seq<Variant>,
}

pub struct TypeAliasV {
    pub name: Seq<char>,
    pub ty: TypeRefV,
}

pub struct FieldV {
    pub name: Seq<char>,
    pub ty: TypeRefV,
    pub access: Access,
    pub is_static: bool,
}

pub struct ParamV {
    pub name: Seq<char>,
    pub ty: TypeRefV,
    pub default: Option<Value>,
}

pub struct FunctionV {
    pub name: Seq<char>,
    pub params: Seq<ParamV>,
    pub return_ty: Option<TypeRefV>,
    pub semantic: FunctionSemantic,
    pub access: Access,
    pub is_const: bool,
}

pub struct ClassV {
    pub header: Seq<char>,
    pub name: Seq<char>,
    pub inherits: Option<TypeNameV>,
    pub is_pod: bool,
    pub is_union: bool,
    pub consts: Seq<ConstV>,
    pub enums: Seq<EnumV>,
    pub aliases: Seq<TypeAliasV>,
    pub fields: Seq<FieldV>,
    pub anon_unions: Seq<ClassV>,
    pub ctors: Seq<FunctionV>,
    pub methods: Seq<FunctionV>,
    pub virtual_dtor: bool,
    pub classes: Seq<ClassV>,
}

pub struct NamespaceV {
    pub name: Seq<char>,
    pub consts: Seq<ConstV>,
    pub globals: Seq<GlobalV>,
    pub enums: Seq<EnumV>,
    pub aliases: Seq<TypeAliasV>,
    pub functions: Seq<FunctionV>,
    pub classes: Seq<ClassV>,
    pub namespaces: Seq<NamespaceV>,
}

pub open spec fn strings_view(s: Seq<String>) -> Seq<Seq<char>> {
    s.map_values(|x: String| x@)
}

pub open spec fn type_name_view(n: TypeName) -> TypeNameV
    decreases n,
{
    match n {
        TypeName::Void => TypeNameV::Void,
        TypeName::Bool => TypeNameV::Bool,
        TypeName::Char => TypeNameV::Char,
        TypeName::UChar => TypeNameV::UChar,
        TypeName::WChar => TypeNameV::WChar,
        TypeName::Short => TypeNameV::Short,
        TypeName::UShort => TypeNameV::UShort,
        TypeName::Int => TypeNameV::Int,
        TypeName::UInt => TypeNameV::UInt,
        TypeName::Long => TypeNameV::Long,
        TypeName::ULong => TypeNameV::ULong,
        TypeName::LongLong => TypeNameV::LongLong,
        TypeName::ULongLong => TypeNameV::ULongLong,
        TypeName::Float => TypeNameV::Float,
        TypeName::Double => TypeNameV::Double,
        TypeName::TypeName(p) => TypeNameV::TypeName(strings_view(p@)),
        TypeName::Class(p, a) => TypeNameV::Class(
            strings_view(p@),
            Seq::new(
                a@.len(),
                |i: int|
                    if 0 <= i < a@.len() {
                        TypeRefV {
                            name: type_name_view(a@[i].name),
                            semantic: a@[i].semantic,
                            is_const: a@[i].is_const,
                        }
                    } else {
                        TypeRefV { name: TypeNameV::Void, semantic: TypeSemantic::Value, is_const: false }
                    },
            ),
        ),
    }
}

impl View for TypeName {
    type V = TypeNameV;

    open spec fn view(&self) -> TypeNameV {
        type_name_view(*self)
    }
}

impl View for TypeRef {
    type V = TypeRefV;

    open spec fn view(&self) -> TypeRefV {
        TypeRefV { name: self.name@, semantic: self.semantic, is_const: self.is_const }
    }
}

impl View for Const {
    type V = ConstV;

    open spec fn view(&self) -> ConstV {
        ConstV { name: self.name@, ty: self.ty@, value: self.value }
    }
}

impl View for Global {
    type V = GlobalV;

    open spec fn view(&self) -> GlobalV {
        GlobalV { name: self.name@, ty: self.ty@ }
    }
}

impl View for Enum {
    type V = EnumV;

    open spec fn view(&self) -> EnumV {
        EnumV { name: self.name@, underlying: self.underlying@, variants: self.variants@ }
    }
}

impl View for TypeAlias {
    type V = TypeAliasV;

    open spec fn view(&self) -> TypeAliasV {
        TypeAliasV { name: self.name@, ty: self.ty@ }
    }
}

impl View for Field {
    type V = FieldV;

    open spec fn view(&self) -> FieldV {
        FieldV { name: self.name@, ty: self.ty@, access: self.access, is_static: self.is_static }
    }
}

pub open spec fn opt_type_ref_view(t: Option<TypeRef>) -> Option<TypeRefV> {
    match t {
        Some(t) => Some(t@),
        None => None,
    }
}

impl View for Param {
    type V = ParamV;

    open spec fn view(&self) -> ParamV {
        ParamV { name: self.name@, ty: self.ty@, default: self.default }
    }
}

impl View for Function {
    type V = FunctionV;

    open spec fn view(&self) -> FunctionV {
        FunctionV {
            name: self.name@,
            params: views(self.params@),
            return_ty: opt_type_ref_view(self.return_ty),
            semantic: self.semantic,
            access: self.access,
            is_const: self.is_const,
        }
    }
}

pub open spec fn opt_type_name_view(t: Option<TypeName>) -> Option<TypeNameV> {
    match t {
        Some(t) => Some(t@),
        None => None,
    }
}

pub open spec fn class_view(c: Class) -> ClassV
    decreases c,
{
    ClassV {
        header: c.header@,
        name: c.name@,
        inherits: opt_type_name_view(c.inherits),
        is_pod: c.is_pod,
        is_union: c.is_union,
        consts: views(c.consts@),
        enums: views(c.enums@),
        aliases: views(c.aliases@),
        fields: views(c.fields@),
        anon_unions: Seq::new(
            c.anon_unions@.len(),
            |i: int|
                if 0 <= i < c.anon_unions@.len() {
                    class_view(c.anon_unions@[i])
                } else {
                    arbitrary()
                },
        ),
        ctors: views(c.ctors@),
        methods: views(c.methods@),
        virtual_dtor: c.virtual_dtor,
        classes: Seq::new(
            c.classes@.len(),
            |i: int|
                if 0 <= i < c.classes@.len() {
                    class_view(c.classes@[i])
                } else {
                    arbitrary()
                },
        ),
    }
}

impl View for Class {
    type V = ClassV;

    open spec fn view(&self) -> ClassV {
        class_view(*self)
    }
}

pub open spec fn namespace_view(n: Namespace) -> NamespaceV
    decreases n,
{
    NamespaceV {
        name: n.name@,
        consts: views(n.consts@),
        globals: views(n.globals@),
        enums: views(n.enums@),
        aliases: views(n.aliases@),
        functions: views(n.functions@),
        classes: views(n.classes@),
        namespaces: Seq::new(
            n.namespaces@.len(),
            |i: int|
                if 0 <= i < n.namespaces@.len() {
                    namespace_view(n.namespaces@[i])
                } else {
                    arbitrary()
                },
        ),
    }
}

impl View for Namespace {
    type V = NamespaceV;

    open spec fn view(&self) -> NamespaceV {
        namespace_view(*self)
    }
}

/// The views of a sequence of values.
pub open spec fn views<T: View>(s: Seq<T>) -> Seq<T::V> {
    s.map_values(|x: T| x@)
}

pub proof fn lemma_views_push<T: View>(s: Seq<T>, x: T)
    ensures
        views(s.push(x)) == views(s).push(x@),
{
    assert(views(s.push(x)) =~= views(s).push(x@));
}

pub proof fn lemma_namespace_children(n: Namespace)
    ensures
        n@.namespaces == views(n.namespaces@),
{
    assert(n@.namespaces =~= views(n.namespaces@));
}

pub proof fn lemma_class_children(c: Class)
    ensures
        c@.classes == views(c.classes@),
        c@.anon_unions == views(c.anon_unions@),
{
    assert(c@.classes =~= views(c.classes@));
    assert(c@.anon_unions =~= views(c.anon_unions@));
}

pub proof fn lemma_class_args(p: Vec<String>, a: Vec<TypeRef>)
    ensures
        TypeName::Class(p, a)@ == TypeNameV::Class(strings_view(p@), views(a@)),
{
    assert(TypeName::Class(p, a)@->1 =~= views(a@));
}

pub open spec fn opt_view<T: View>(o: Option<T>) -> Option<T::V> {
    match o {
        Some(x) => Some(x@),
        None => None,
    }
}

/// The view of a class, field by field.
pub proof fn lemma_class_view(c: Class)
    ensures
        c@ == (ClassV {
            header: c.header@,
            name: c.name@,
            inherits: opt_type_name_view(c.inherits),
            is_pod: c.is_pod,
            is_union: c.is_union,
            consts: views(c.consts@),
            enums: views(c.enums@),
            aliases: views(c.aliases@),
            fields: views(c.fields@),
            anon_unions: views(c.anon_unions@),
            ctors: views(c.ctors@),
            methods: views(c.methods@),
            virtual_dtor: c.virtual_dtor,
            classes: views(c.classes@),
        }),
{
    lemma_class_children(c);
}

/// The view of a namespace, field by field.
pub proof fn lemma_namespace_view(n: Namespace)
    ensures
        n@ == (NamespaceV {
            name: n.name@,
            consts: views(n.consts@),
            globals: views(n.globals@),
            enums: views(n.enums@),
            aliases: views(n.aliases@),
            functions: views(n.functions@),
            classes: views(n.classes@),
            namespaces: views(n.namespaces@),
        }),
{
    lemma_namespace_children(n);
}

impl TypeName {
    /// A copy of this name, with the same view.
    pub fn duplicate(&self) -> (r: TypeName)
        ensures
            r@ == self@,
        decreases self,
    {
        match self {
            TypeName::Void => TypeName::Void,
            TypeName::Bool => TypeName::Bool,
            TypeName::Char => TypeName::Char,
            TypeName::UChar => TypeName::UChar,
            TypeName::WChar => TypeName::WChar,
            TypeName::Short => TypeName::Short,
            TypeName::UShort => TypeName::UShort,
            TypeName::Int => TypeName::Int,
            TypeName::UInt => TypeName::UInt,
            TypeName::Long => TypeName::Long,
            TypeName::ULong => TypeName::ULong,
            TypeName::LongLong => TypeName::LongLong,
            TypeName::ULongLong => TypeName::ULongLong,
            TypeName::Float => TypeName::Float,
            TypeName::Double => TypeName::Double,
            TypeName::TypeName(p) => {
                let q = copy_strings(p);
                TypeName::TypeName(q)
            },
            TypeName::Class(p, a) => {
                let q = copy_strings(p);
                let mut b: Vec<TypeRef> = Vec::new();
                let mut i: usize = 0;
                while i < a.len()
                    invariant
                        i <= a@.len(),
                        views(b@) == views(a@).take(i as int),
                        decreases_to!(*self => *a),
                    decreases a@.len() - i,
                {
                    proof {
                        assert(decreases_to!(*a => a@[i as int]));
                    }
                    let t = a[i].duplicate();
                    proof {
                        lemma_views_push(b@, t);
                    }
                    b.push(t);
                    i = i + 1;
                    proof {
                        assert(views(b@) =~= views(a@).take(i as int));
                    }
                }
                proof {
                    assert(views(a@).take(i as int) =~= views(a@));
                    lemma_class_args(q, b);
                    lemma_class_args(*p, *a);
                }
                TypeName::Class(q, b)
            },
        }
    }
}

impl TypeRef {
    /// A copy of this type reference, with the same view.
    pub fn duplicate(&self) -> (r: TypeRef)
        ensures
            r@ == self@,
        decreases self,
    {
        TypeRef { name: self.name.duplicate(), semantic: self.semantic, is_const: self.is_const }
    }
}

fn copy_strings(p: &Vec<String>) -> (r: Vec<String>)
    ensures
        strings_view(r@) == strings_view(p@),
{
    let mut q: Vec<String> = Vec::new();
    let mut i: usize = 0;
    while i < p.len()
        invariant
            i <= p@.len(),
            q@ == p@.take(i as int),
        decreases p@.len() - i,
    {
        q.push(p[i].clone());
        i = i + 1;
        proof {
            assert(q@ =~= p@.take(i as int));
        }
    }
    proof {
        assert(p@.take(i as int) =~= p@);
    }
    q
}

} // verus!
