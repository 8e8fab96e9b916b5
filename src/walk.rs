//! The entity walkers: each turns one entity of the front-end's tree into a
//! node of the API description, or skips it, reporting what it had to leave
//! out.
use vstd::prelude::*;
use crate::ast::{Accessibility, CType, CTypeKind, Entity, EntityKind, StorageClass};
use crate::diag::{Diagnostic, ParseError, Reason};
use crate::covering::{distinct_children, distinct_siblings, lemma_absorbed_distinct, lemma_merge_idempotent};
use crate::merge::{absorbed, absorb_child, merge_view};
use crate::paths::{is_vendored, vendored};
use crate::schema::{
    Access, Class, ClassV, Const, ConstV, Enum, EnumV, Field, FieldV, Function, FunctionSemantic,
    FunctionV, Global, GlobalV, Namespace, NamespaceV, Param, ParamV, TypeAlias, TypeAliasV, TypeRef,
    TypeRefV, Value, Variant, views, opt_view, lemma_views_push, lemma_class_view, lemma_namespace_view,
};
use crate::types::{all_diags, first_failure, ok_refs, parse_type, result_view, type_outcome};
use crate::value::{clone_name, parse_value, value_outcome};

verus! {

pub open spec fn diag(reason: Reason, subject: Option<String>, context: Option<String>) -> Diagnostic {
    Diagnostic { reason, subject, context }
}

pub open spec fn opt_type_outcome(t: Option<CType>) -> (Result<TypeRefV, ParseError>, Seq<Diagnostic>) {
    match t {
        Some(t) => type_outcome(t),
        None => (Err(ParseError::Unsupported), seq![]),
    }
}

pub open spec fn name_or_empty(n: Option<String>) -> Seq<char> {
    match n {
        Some(s) => s@,
        None => seq![],
    }
}

/// The value of an entity's initializer, its first child.
pub open spec fn init_outcome(e: Entity) -> (Option<Value>, Seq<Diagnostic>) {
    if e.children@.len() > 0 {
        value_outcome(e.children@[0])
    } else {
        (None, seq![])
    }
}

/// Whether a variable or field is declared const.
pub open spec fn const_decl(c: Entity) -> bool {
    c.ty is Some && c.ty->Some_0.is_const
}

/// A const declaration with an initializer that evaluates becomes a
/// constant; its type is the declared one, or else the initializer's.
pub open spec fn const_outcome(c: Entity) -> (Option<ConstV>, Seq<Diagnostic>) {
    let (v, d1) = init_outcome(c);
    match v {
        None => (None, d1),
        Some(val) => {
            let (t1, d2) = opt_type_outcome(c.ty);
            let (t, d3) = if t1 is Ok {
                (t1, Seq::<Diagnostic>::empty())
            } else {
                opt_type_outcome(c.children@[0].ty)
            };
            match (t, c.name) {
                (Ok(ty), Some(n)) => (Some(ConstV { name: n@, ty, value: val }), d1 + d2 + d3),
                _ => (None, d1 + d2 + d3),
            }
        },
    }
}

pub open spec fn variant_of(c: Entity, unsigned: bool) -> Option<Variant> {
    if c.kind is EnumConstantDecl && c.name is Some && c.enum_value is Some {
        Some(
            Variant {
                name: c.name->Some_0,
                value: if unsigned {
                    Value::UInt(c.enum_value->Some_0.1)
                } else {
                    Value::Int(c.enum_value->Some_0.0)
                },
            },
        )
    } else {
        None
    }
}

/// The enum constants among `cs`, read as unsigned or signed by the
/// signedness of the underlying type.
pub open spec fn variants(cs: Seq<Entity>, unsigned: bool) -> Seq<Variant>
    decreases cs.len(),
{
    if cs.len() == 0 {
        seq![]
    } else {
        let r = variants(cs.drop_last(), unsigned);
        match variant_of(cs.last(), unsigned) {
            Some(v) => r.push(v),
            None => r,
        }
    }
}

/// The underlying type and the variants of an enum.
pub open spec fn enum_outcome(e: Entity) -> (Option<(TypeRefV, Seq<Variant>)>, Seq<Diagnostic>) {
    let (u, d) = opt_type_outcome(e.enum_underlying);
    match u {
        Ok(t) => (Some((t, variants(e.children@, e.enum_unsigned))), d),
        Err(_) => (None, d),
    }
}

/// The variants of an anonymous enum, as constants of its underlying type.
pub open spec fn hoisted(t: TypeRefV, vs: Seq<Variant>) -> Seq<ConstV> {
    vs.map_values(|v: Variant| ConstV { name: v.name@, ty: t, value: v.value })
}

pub open spec fn alias_outcome(c: Entity) -> (Option<TypeAliasV>, Seq<Diagnostic>) {
    match opt_type_outcome(c.typedef_underlying) {
        (Ok(t), d) => match c.name {
            Some(n) => (Some(TypeAliasV { name: n@, ty: t }), d),
            None => (None, d),
        },
        (Err(e), d) => (
            None,
            if e is Unsupported {
                d.push(diag(Reason::UnsupportedAliasType, c.name, None))
            } else {
                d
            },
        ),
    }
}

/// What a typedef or alias declaration contributes.
pub enum NestedV {
    Enum(EnumV),
    Class(ClassV),
    Alias(TypeAliasV),
    Nothing,
}

pub open spec fn record_kind(k: EntityKind) -> bool {
    k is ClassDecl || k is StructDecl || k is UnionDecl
}

/// A typedef of an anonymous enum or record promotes that type, under the
/// typedef's name; any other typedef is an alias.
pub open spec fn typedef_outcome(c: Entity, loc: Seq<char>) -> (NestedV, Seq<Diagnostic>)
    decreases c, 1int,
{
    match c.typedef_target {
        Some(u) if u.name is None => if u.kind is EnumDecl {
            match enum_outcome(*u) {
                (Some((t, vs)), d) => match c.name {
                    Some(n) => (NestedV::Enum(EnumV { name: n@, underlying: t, variants: vs }), d),
                    None => (NestedV::Nothing, d),
                },
                (None, d) => (NestedV::Nothing, d),
            }
        } else if record_kind(u.kind) {
            match class_outcome(*u, loc) {
                (Some(k), d) => match c.name {
                    Some(n) => (NestedV::Class(ClassV { name: n@, ..k }), d),
                    None => (NestedV::Nothing, d),
                },
                (None, d) => (NestedV::Nothing, d),
            }
        } else {
            (NestedV::Nothing, seq![])
        },
        _ => match alias_outcome(c) {
            (Some(a), d) => (NestedV::Alias(a), d),
            (None, d) => (NestedV::Nothing, d),
        },
    }
}

pub open spec fn params_of(e: Entity) -> Seq<Entity> {
    match e.arguments {
        Some(a) => a@,
        None => seq![],
    }
}

pub open spec fn param_outcomes(ps: Seq<Entity>) -> Seq<(Result<TypeRefV, ParseError>, Seq<Diagnostic>)> {
    ps.map_values(|p: Entity| opt_type_outcome(p.ty))
}

/// Diagnostics of evaluating the default arguments of `ps`, in order.
pub open spec fn init_diags(ps: Seq<Entity>) -> Seq<Diagnostic>
    decreases ps.len(),
{
    if ps.len() == 0 {
        seq![]
    } else {
        init_diags(ps.drop_last()) + init_outcome(ps.last()).1
    }
}

pub open spec fn param_views(
    ps: Seq<Entity>,
    os: Seq<(Result<TypeRefV, ParseError>, Seq<Diagnostic>)>,
) -> Seq<ParamV> {
    Seq::new(
        ps.len(),
        |i: int| ParamV { name: name_or_empty(ps[i].name), ty: os[i].0->Ok_0, default: init_outcome(ps[i]).0 },
    )
}

/// Virtual before static before method before free.
pub open spec fn semantic_of(e: Entity) -> FunctionSemantic {
    if e.is_virtual_method {
        FunctionSemantic::Virtual
    } else if e.is_static_method {
        FunctionSemantic::Static
    } else if e.kind is Method {
        FunctionSemantic::Method
    } else {
        FunctionSemantic::Free
    }
}

pub open spec fn access_of(a: Option<Accessibility>) -> Access {
    if a == Some(Accessibility::Protected) {
        Access::Protected
    } else {
        Access::Public
    }
}

pub open spec fn function_outcome(e: Entity) -> (Option<FunctionV>, Seq<Diagnostic>) {
    match (e.name, e.result_type) {
        (Some(n), Some(res)) => {
            let ps = params_of(e);
            let os = param_outcomes(ps);
            let f = first_failure(os);
            let d1 = all_diags(os);
            if f >= 0 {
                (
                    None,
                    if os[f].0 == Err::<TypeRefV, ParseError>(ParseError::Unsupported) {
                        d1.push(diag(Reason::UnsupportedParamType, ps[f].name, e.name))
                    } else {
                        d1
                    },
                )
            } else {
                let d2 = d1 + init_diags(ps);
                let func = FunctionV {
                    name: n@,
                    params: param_views(ps, os),
                    return_ty: None,
                    semantic: semantic_of(e),
                    access: access_of(e.accessibility),
                    is_const: e.is_const_method,
                };
                if res.kind is Void {
                    (Some(func), d2)
                } else {
                    match type_outcome(res) {
                        (Ok(r), d3) => (Some(FunctionV { return_ty: Some(r), ..func }), d2 + d3),
                        (Err(ParseError::Unsupported), d3) => (
                            None,
                            (d2 + d3).push(diag(Reason::UnsupportedReturnType, Some(res.spelling), e.name)),
                        ),
                        (Err(ParseError::Ignored), d3) => (None, d2 + d3),
                    }
                }
            }
        },
        _ => (None, seq![]),
    }
}

pub open spec fn class_init(e: Entity, loc: Seq<char>) -> ClassV {
    ClassV {
        header: loc,
        name: name_or_empty(e.name),
        inherits: None,
        is_pod: e.is_pod,
        is_union: e.kind is UnionDecl,
        consts: seq![],
        enums: seq![],
        aliases: seq![],
        fields: seq![],
        anon_unions: seq![],
        ctors: seq![],
        methods: seq![],
        virtual_dtor: false,
        classes: seq![],
    }
}

/// A class, struct or union definition found in the header at `loc`;
/// declarations and templates are skipped.
pub open spec fn class_outcome(e: Entity, loc: Seq<char>) -> (Option<ClassV>, Seq<Diagnostic>)
    decreases e, 0int,
{
    if !e.is_definition || e.is_template {
        (None, seq![])
    } else {
        let (k, d) = class_fold(class_init(e, loc), e.children@, e.name, loc);
        (Some(k), d)
    }
}

/// The members `cs` of the class named `ctx` taken in order into `k`.
pub open spec fn class_fold(k: ClassV, cs: Seq<Entity>, ctx: Option<String>, loc: Seq<char>) -> (ClassV, Seq<Diagnostic>)
    decreases cs, 3int,
{
    if cs.len() == 0 {
        (k, seq![])
    } else {
        let (k1, d1) = class_fold(k, cs.drop_last(), ctx, loc);
        let (k2, d2) = class_step(k1, cs.last(), ctx, loc);
        (k2, d1 + d2)
    }
}

/// What member `c` adds to class `k`.
pub open spec fn class_step(k: ClassV, c: Entity, ctx: Option<String>, loc: Seq<char>) -> (ClassV, Seq<Diagnostic>)
    decreases c, 2int,
{
    match c.accessibility {
        None => (k, seq![]),
        Some(Accessibility::Private) => if k.is_pod && c.kind is FieldDecl {
            (ClassV { is_pod: false, ..k }, seq![diag(Reason::PrivatePodField, c.name, ctx)])
        } else if c.kind is BaseSpecifier {
            (k, seq![diag(Reason::NonPublicInheritance, c.name, ctx)])
        } else {
            (k, seq![])
        },
        Some(acc) => match c.kind {
            EntityKind::BaseSpecifier => if acc is Public {
                if k.inherits is Some {
                    (k, seq![diag(Reason::MultipleInheritance, c.name, ctx)])
                } else {
                    match opt_type_outcome(c.ty) {
                        (Ok(t), d) => (ClassV { inherits: Some(t.name), ..k }, d),
                        (Err(ParseError::Unsupported), d) => (k, d.push(diag(Reason::UnsupportedBaseType, c.name, ctx))),
                        (Err(ParseError::Ignored), d) => (k, d),
                    }
                }
            } else {
                (k, seq![diag(Reason::NonPublicInheritance, c.name, ctx)])
            },
            EntityKind::EnumDecl => match enum_outcome(c) {
                (Some((t, vs)), d) => match c.name {
                    Some(n) => (ClassV { enums: k.enums.push(EnumV { name: n@, underlying: t, variants: vs }), ..k }, d),
                    None => (ClassV { consts: k.consts + hoisted(t, vs), ..k }, d),
                },
                (None, d) => (k, d),
            },
            EntityKind::TypedefDecl | EntityKind::TypeAliasDecl => match typedef_outcome(c, loc) {
                (NestedV::Enum(x), d) => (ClassV { enums: k.enums.push(x), ..k }, d),
                (NestedV::Class(x), d) => (ClassV { classes: k.classes.push(x), ..k }, d),
                (NestedV::Alias(x), d) => (ClassV { aliases: k.aliases.push(x), ..k }, d),
                (NestedV::Nothing, d) => (k, d),
            },
            EntityKind::FieldDecl | EntityKind::VarDecl => if const_decl(c) {
                match const_outcome(c) {
                    (Some(x), d) => (ClassV { consts: k.consts.push(x), ..k }, d),
                    (None, d) => (k, d),
                }
            } else {
                match opt_type_outcome(c.ty) {
                    (Ok(t), d) => match c.name {
                        Some(n) => (
                            ClassV {
                                fields: k.fields.push(
                                    FieldV {
                                        name: n@,
                                        ty: t,
                                        access: access_of(Some(acc)),
                                        is_static: c.storage == Some(StorageClass::Static),
                                    },
                                ),
                                ..k
                            },
                            d,
                        ),
                        None => (k, d),
                    },
                    (Err(ParseError::Unsupported), d) => (k, d.push(diag(Reason::UnsupportedFieldType, c.name, ctx))),
                    (Err(ParseError::Ignored), d) => (k, d),
                }
            },
            EntityKind::Constructor => match function_outcome(c) {
                (Some(f), d) => (ClassV { ctors: k.ctors.push(f), ..k }, d),
                (None, d) => (k, d),
            },
            EntityKind::Method => match function_outcome(c) {
                (Some(f), d) => (ClassV { methods: k.methods.push(f), ..k }, d),
                (None, d) => (k, d),
            },
            EntityKind::Destructor => if c.is_virtual_method {
                (ClassV { virtual_dtor: true, ..k }, seq![])
            } else {
                (k, seq![])
            },
            EntityKind::ClassDecl | EntityKind::StructDecl => match class_outcome(c, loc) {
                (Some(x), d) => if c.name is Some {
                    (ClassV { classes: k.classes.push(x), ..k }, d)
                } else {
                    (k, d)
                },
                (None, d) => (k, d),
            },
            EntityKind::UnionDecl => match class_outcome(c, loc) {
                (Some(x), d) => if c.name is Some {
                    (ClassV { classes: k.classes.push(x), ..k }, d)
                } else {
                    (ClassV { anon_unions: k.anon_unions.push(x), ..k }, d)
                },
                (None, d) => (k, d),
            },
            _ => (k, seq![]),
        },
    }
}

pub open spec fn ns_init(name: Seq<char>) -> NamespaceV {
    NamespaceV {
        name,
        consts: seq![],
        globals: seq![],
        enums: seq![],
        aliases: seq![],
        functions: seq![],
        classes: seq![],
        namespaces: seq![],
    }
}

/// Whether an entity is declared in a first-party header.
pub open spec fn first_party(c: Entity) -> bool {
    !c.in_system_header && c.file is Some && !vendored(c.file->Some_0@)
}

/// A named namespace (or translation unit) and everything extracted from
/// its children.
pub open spec fn namespace_outcome(e: Entity) -> (Option<NamespaceV>, Seq<Diagnostic>)
    decreases e, 0int,
{
    match e.name {
        None => (None, seq![]),
        Some(n) => {
            let (x, d) = ns_fold(ns_init(n@), e.children@, e.name);
            (Some(x), d)
        },
    }
}

pub open spec fn ns_fold(x: NamespaceV, cs: Seq<Entity>, ctx: Option<String>) -> (NamespaceV, Seq<Diagnostic>)
    decreases cs, 3int,
{
    if cs.len() == 0 {
        (x, seq![])
    } else {
        let (x1, d1) = ns_fold(x, cs.drop_last(), ctx);
        let (x2, d2) = ns_step(x1, cs.last(), ctx);
        (x2, d1 + d2)
    }
}

/// What child `c` adds to namespace `x`.
pub open spec fn ns_step(x: NamespaceV, c: Entity, ctx: Option<String>) -> (NamespaceV, Seq<Diagnostic>)
    decreases c, 2int,
{
    if !first_party(c) {
        (x, seq![])
    } else {
        let loc = c.file->Some_0@;
        match c.kind {
            EntityKind::VarDecl => if const_decl(c) {
                match const_outcome(c) {
                    (Some(k), d) => (NamespaceV { consts: x.consts.push(k), ..x }, d),
                    (None, d) => (x, d),
                }
            } else if c.storage == Some(StorageClass::Extern) {
                match opt_type_outcome(c.ty) {
                    (Ok(t), d) => match c.name {
                        Some(n) => (NamespaceV { globals: x.globals.push(GlobalV { name: n@, ty: t }), ..x }, d),
                        None => (x, d),
                    },
                    (Err(ParseError::Unsupported), d) => (x, d.push(diag(Reason::UnsupportedGlobalType, c.name, ctx))),
                    (Err(ParseError::Ignored), d) => (x, d),
                }
            } else {
                (x, seq![diag(Reason::NonExternGlobal, c.name, ctx)])
            },
            EntityKind::EnumDecl => match enum_outcome(c) {
                (Some((t, vs)), d) => match c.name {
                    Some(n) => (NamespaceV { enums: x.enums.push(EnumV { name: n@, underlying: t, variants: vs }), ..x }, d),
                    None => (NamespaceV { consts: x.consts + hoisted(t, vs), ..x }, d),
                },
                (None, d) => (x, d),
            },
            EntityKind::TypedefDecl | EntityKind::TypeAliasDecl => match typedef_outcome(c, loc) {
                (NestedV::Enum(k), d) => (NamespaceV { enums: x.enums.push(k), ..x }, d),
                (NestedV::Class(k), d) => (NamespaceV { classes: x.classes.push(k), ..x }, d),
                (NestedV::Alias(k), d) => (NamespaceV { aliases: x.aliases.push(k), ..x }, d),
                (NestedV::Nothing, d) => (x, d),
            },
            EntityKind::ClassDecl | EntityKind::StructDecl | EntityKind::UnionDecl => match class_outcome(c, loc) {
                (Some(k), d) => if c.name is Some {
                    (NamespaceV { classes: x.classes.push(k), ..x }, d)
                } else {
                    (x, d)
                },
                (None, d) => (x, d),
            },
            EntityKind::FunctionDecl => match function_outcome(c) {
                (Some(f), d) => (NamespaceV { functions: x.functions.push(f), ..x }, d),
                (None, d) => (x, d),
            },
            EntityKind::Namespace => match namespace_outcome(c) {
                (Some(n), d) => (NamespaceV { namespaces: absorbed(x.namespaces, n), ..x }, d),
                (None, d) => (x, d),
            },
            _ => (x, seq![]),
        }
    }
}

fn parse_opt_type(t: &Option<CType>, diags: &mut Vec<Diagnostic>) -> (r: Result<TypeRef, ParseError>)
    ensures
        result_view(r) == opt_type_outcome(*t).0,
        final(diags)@ == old(diags)@ + opt_type_outcome(*t).1,
{
    match t {
        Some(t) => parse_type(t, diags),
        None => {
            proof { assert(old(diags)@ + seq![] =~= old(diags)@); }
            Err(ParseError::Unsupported)
        },
    }
}

fn parse_init(e: &Entity, diags: &mut Vec<Diagnostic>) -> (r: Option<Value>)
    ensures
        r == init_outcome(*e).0,
        final(diags)@ == old(diags)@ + init_outcome(*e).1,
{
    if e.children.len() > 0 {
        parse_value(&e.children[0], diags)
    } else {
        proof { assert(old(diags)@ + seq![] =~= old(diags)@); }
        None
    }
}

fn make_diag(reason: Reason, subject: &Option<String>, context: &Option<String>) -> (d: Diagnostic)
    ensures
        d == diag(reason, *subject, *context),
{
    Diagnostic { reason, subject: clone_name(subject), context: clone_name(context) }
}

/// A constant from a const declaration whose initializer evaluates.
pub fn parse_const(c: &Entity, diags: &mut Vec<Diagnostic>) -> (r: Option<Const>)
    ensures
        opt_view(r) == const_outcome(*c).0,
        final(diags)@ == old(diags)@ + const_outcome(*c).1,
{
    let ghost d0 = diags@;
    let val = match parse_init(c, diags) {
        None => return None,
        Some(v) => v,
    };
    let ghost d1 = diags@;
    let t1 = parse_opt_type(&c.ty, diags);
    let ghost d2 = diags@;
    let t = match t1 {
        Ok(t) => Ok(t),
        Err(_) => parse_opt_type(&c.children[0].ty, diags),
    };
    proof {
        let (tt1, dd2) = opt_type_outcome(c.ty);
        let (tt, dd3) = if tt1 is Ok {
            (tt1, Seq::<Diagnostic>::empty())
        } else {
            opt_type_outcome(c.children@[0].ty)
        };
        assert(result_view(t) == tt);
        assert(diags@ =~= d0 + init_outcome(*c).1 + dd2 + dd3);
    }
    match (t, &c.name) {
        (Ok(ty), Some(n)) => Some(Const { name: n.clone(), ty, value: val }),
        _ => None,
    }
}

fn variant_from(c: &Entity, unsigned: bool) -> (r: Option<Variant>)
    ensures
        r == variant_of(*c, unsigned),
{
    match (&c.name, c.enum_value) {
        (Some(n), Some((signed_value, unsigned_value))) => {
            if c.kind == EntityKind::EnumConstantDecl {
                let value = if unsigned {
                    Value::UInt(unsigned_value)
                } else {
                    Value::Int(signed_value)
                };
                Some(Variant { name: n.clone(), value })
            } else {
                None
            }
        },
        _ => None,
    }
}

pub open spec fn enum_view_of(e: Entity) -> Option<EnumV> {
    match enum_outcome(e).0 {
        Some((t, vs)) => Some(EnumV { name: name_or_empty(e.name), underlying: t, variants: vs }),
        None => None,
    }
}

/// An enum: its underlying type and its constants. An anonymous enum gets
/// an empty name.
pub fn parse_enum(e: &Entity, diags: &mut Vec<Diagnostic>) -> (r: Option<Enum>)
    ensures
        opt_view(r) == enum_view_of(*e),
        final(diags)@ == old(diags)@ + enum_outcome(*e).1,
{
    let underlying = match parse_opt_type(&e.enum_underlying, diags) {
        Ok(t) => t,
        Err(_) => return None,
    };
    let mut vs: Vec<Variant> = Vec::new();
    let mut i: usize = 0;
    while i < e.children.len()
        invariant
            i <= e.children@.len(),
            vs@ == variants(e.children@.take(i as int), e.enum_unsigned),
        decreases e.children@.len() - i,
    {
        proof {
            assert(e.children@.take(i + 1).drop_last() =~= e.children@.take(i as int));
        }
        match variant_from(&e.children[i], e.enum_unsigned) {
            Some(v) => vs.push(v),
            None => {},
        }
        i = i + 1;
    }
    proof {
        assert(e.children@.take(i as int) =~= e.children@);
    }
    let name = match &e.name {
        Some(n) => n.clone(),
        None => String::new(),
    };
    Some(Enum { name, underlying, variants: vs })
}

/// Appends the variants of `en` to `consts`, as constants of its underlying type.
fn hoist(en: Enum, consts: &mut Vec<Const>)
    ensures
        views(final(consts)@) == views(old(consts)@) + hoisted(en.underlying@, en.variants@),
{
    let ghost c0 = views(consts@);
    let ghost t = en.underlying@;
    let Enum { name: _, underlying, variants: vs } = en;
    let ghost vs0 = vs@;
    for v in it: vs
        invariant
            it.seq() == vs0,
            underlying@ == t,
            views(consts@) == c0 + hoisted(t, vs0.take(it.index() as int)),
    {
        let k = Const { name: v.name, ty: underlying.duplicate(), value: v.value };
        proof {
            lemma_views_push(consts@, k);
            assert(hoisted(t, vs0.take(it.index() + 1)) =~= hoisted(t, vs0.take(it.index() as int)).push(k@));
        }
        consts.push(k);
    }
    proof {
        assert(vs0.take(vs0.len() as int) =~= vs0);
    }
}

/// An alias from a typedef or alias declaration.
pub fn parse_alias(c: &Entity, diags: &mut Vec<Diagnostic>) -> (r: Option<TypeAlias>)
    ensures
        opt_view(r) == alias_outcome(*c).0,
        final(diags)@ == old(diags)@ + alias_outcome(*c).1,
{
    match parse_opt_type(&c.typedef_underlying, diags) {
        Ok(t) => match &c.name {
            Some(n) => Some(TypeAlias { name: n.clone(), ty: t }),
            None => None,
        },
        Err(e) => {
            if e == ParseError::Unsupported {
                diags.push(make_diag(Reason::UnsupportedAliasType, &c.name, &None));
                proof { assert(final(diags)@ =~= old(diags)@ + alias_outcome(*c).1); }
            }
            None
        },
    }
}

fn semantic(e: &Entity) -> (r: FunctionSemantic)
    ensures
        r == semantic_of(*e),
{
    if e.is_virtual_method {
        FunctionSemantic::Virtual
    } else if e.is_static_method {
        FunctionSemantic::Static
    } else if e.kind == EntityKind::Method {
        FunctionSemantic::Method
    } else {
        FunctionSemantic::Free
    }
}

fn access(a: Option<Accessibility>) -> (r: Access)
    ensures
        r == access_of(a),
{
    match a {
        Some(Accessibility::Protected) => Access::Protected,
        _ => Access::Public,
    }
}

/// A function, constructor or method. A parameter whose type cannot be
/// normalized drops the whole function; a default argument that does not
/// evaluate is left out.
pub fn parse_function(e: &Entity, diags: &mut Vec<Diagnostic>) -> (r: Option<Function>)
    ensures
        opt_view(r) == function_outcome(*e).0,
        final(diags)@ == old(diags)@ + function_outcome(*e).1,
{
    let (n, res) = match (&e.name, &e.result_type) {
        (Some(n), Some(res)) => (n, res),
        _ => {
            proof { assert(old(diags)@ + seq![] =~= old(diags)@); }
            return None;
        },
    };
    let empty: Vec<Entity> = Vec::new();
    let ps = match &e.arguments {
        Some(a) => a,
        None => &empty,
    };
    proof { assert(ps@ == params_of(*e)); }
    let ghost os = param_outcomes(ps@);
    let ghost d0 = diags@;
    let mut tys: Vec<TypeRef> = Vec::new();
    let mut fail: Option<(usize, ParseError)> = None;
    let np = ps.len();
    for i in 0..np
        invariant
            np == ps@.len(),
            os == param_outcomes(ps@),
            diags@ == d0 + all_diags(os.take(i as int)),
            match fail {
                None => first_failure(os.take(i as int)) == -1 && views(tys@) == ok_refs(os.take(i as int)),
                Some((f, er)) => first_failure(os.take(i as int)) == f && f < i
                    && os[f as int].0 == Err::<TypeRefV, ParseError>(er),
            },
    {
        proof {
            assert(os.take(i + 1).drop_last() =~= os.take(i as int));
            assert(os.take(i + 1).last() == os[i as int]);
        }
        let ghost dm = diags@;
        let r = parse_opt_type(&ps[i].ty, diags);
        proof {
            assert(d0 + all_diags(os.take(i + 1)) =~= dm + os[i as int].1);
        }
        match r {
            Ok(t) => {
                if fail.is_none() {
                    proof {
                        lemma_views_push(tys@, t);
                        assert(ok_refs(os.take(i + 1)) =~= ok_refs(os.take(i as int)).push(t@));
                    }
                    tys.push(t);
                }
            },
            Err(er) => {
                if fail.is_none() {
                    fail = Some((i, er));
                }
            },
        }
    }
    proof {
        assert(os.take(np as int) =~= os);
    }
    if let Some((f, er)) = fail {
        if er == ParseError::Unsupported {
            diags.push(make_diag(Reason::UnsupportedParamType, &ps[f].name, &e.name));
        }
        return None;
    }
    let ghost d1 = diags@;
    let mut params: Vec<Param> = Vec::new();
    let ghost pv = param_views(ps@, os);
    for t in it: tys
        invariant
            np == ps@.len(),
            os == param_outcomes(ps@),
            pv == param_views(ps@, os),
            it.seq().len() == np,
            views(it.seq()) == ok_refs(os),
            views(params@) == pv.take(it.index() as int),
            params@.len() == it.index(),
            diags@ == d1 + init_diags(ps@.take(it.index() as int)),
    {
        let i = params.len();
        proof {
            assert(i == it.index());
            assert(ps@.take(i + 1).drop_last() =~= ps@.take(i as int));
            assert(views(it.seq())[i as int] == t@);
        }
        let default = parse_init(&ps[i], diags);
        let name = match &ps[i].name {
            Some(s) => s.clone(),
            None => String::new(),
        };
        let p = Param { name, ty: t, default };
        proof {
            lemma_views_push(params@, p);
            assert(pv.take(i + 1) =~= pv.take(i as int).push(p@));
        }
        params.push(p);
    }
    proof {
        assert(pv.take(np as int) =~= pv);
        assert(ps@.take(np as int) =~= ps@);
    }
    let ghost d2 = diags@;
    let mut func = Function {
        name: n.clone(),
        params,
        return_ty: None,
        semantic: semantic(e),
        access: access(e.accessibility),
        is_const: e.is_const_method,
    };
    if res.kind == CTypeKind::Void {
        return Some(func);
    }
    match parse_type(res, diags) {
        Ok(r) => {
            func.return_ty = Some(r);
            Some(func)
        },
        Err(er) => {
            if er == ParseError::Unsupported {
                diags.push(
                    Diagnostic { reason: Reason::UnsupportedReturnType, subject: Some(res.spelling.clone()), context: clone_name(&e.name) },
                );
            }
            None
        },
    }
}

/// What a typedef or alias declaration contributes.
#[derive(Debug)]
pub enum Nested {
    Enum(Enum),
    Class(Class),
    Alias(TypeAlias),
    Nothing,
}

impl View for Nested {
    type V = NestedV;

    open spec fn view(&self) -> NestedV {
        match self {
            Nested::Enum(x) => NestedV::Enum(x@),
            Nested::Class(x) => NestedV::Class(x@),
            Nested::Alias(x) => NestedV::Alias(x@),
            Nested::Nothing => NestedV::Nothing,
        }
    }
}

fn is_record_kind(k: EntityKind) -> (r: bool)
    ensures
        r == record_kind(k),
{
    k == EntityKind::ClassDecl || k == EntityKind::StructDecl || k == EntityKind::UnionDecl
}

/// A typedef or alias declaration found in the header at `loc`: a typedef
/// of an anonymous enum or record promotes that type under the typedef's
/// name, any other becomes an alias.
pub fn parse_typedef(c: &Entity, loc: &String, diags: &mut Vec<Diagnostic>) -> (r: Nested)
    ensures
        r@ == typedef_outcome(*c, loc@).0,
        final(diags)@ == old(diags)@ + typedef_outcome(*c, loc@).1,
    decreases c, 1int,
{
    if let Some(u) = &c.typedef_target {
        if u.name.is_none() {
            if u.kind == EntityKind::EnumDecl {
                return match parse_enum(u, diags) {
                    Some(mut en) => match &c.name {
                        Some(n) => {
                            en.name = n.clone();
                            Nested::Enum(en)
                        },
                        None => Nested::Nothing,
                    },
                    None => Nested::Nothing,
                };
            } else if is_record_kind(u.kind) {
                proof {
                    assert(decreases_to!(c.typedef_target => c.typedef_target->Some_0));
                }
                return match parse_class(u, loc, diags) {
                    Some(mut k) => match &c.name {
                        Some(n) => {
                            let ghost k0 = k;
                            k.name = n.clone();
                            proof {
                                lemma_class_view(k0);
                                lemma_class_view(k);
                            }
                            Nested::Class(k)
                        },
                        None => Nested::Nothing,
                    },
                    None => Nested::Nothing,
                };
            } else {
                proof { assert(old(diags)@ + seq![] =~= old(diags)@); }
                return Nested::Nothing;
            }
        }
    }
    match parse_alias(c, diags) {
        Some(a) => Nested::Alias(a),
        None => Nested::Nothing,
    }
}

/// A class, struct or union definition found in the header at `loc`.
/// Forward declarations and templates give `None`.
pub fn parse_class(e: &Entity, loc: &String, diags: &mut Vec<Diagnostic>) -> (r: Option<Class>)
    ensures
        opt_view(r) == class_outcome(*e, loc@).0,
        final(diags)@ == old(diags)@ + class_outcome(*e, loc@).1,
    decreases e, 0int,
{
    if !e.is_definition || e.is_template {
        proof { assert(old(diags)@ + seq![] =~= old(diags)@); }
        return None;
    }
    let name = match &e.name {
        Some(n) => n.clone(),
        None => String::new(),
    };
    let mut k = Class {
        header: loc.clone(),
        name,
        inherits: None,
        is_pod: e.is_pod,
        is_union: e.kind == EntityKind::UnionDecl,
        consts: Vec::new(),
        enums: Vec::new(),
        aliases: Vec::new(),
        fields: Vec::new(),
        anon_unions: Vec::new(),
        ctors: Vec::new(),
        methods: Vec::new(),
        virtual_dtor: false,
        classes: Vec::new(),
    };
    proof {
        lemma_class_view(k);
        let ci = class_init(*e, loc@);
        assert(k@.name == ci.name);
        assert(k@.header == ci.header);
        assert(k@.is_union == ci.is_union);
        assert(k@.inherits == ci.inherits);
        assert(k@.consts =~= ci.consts);
        assert(k@.enums =~= ci.enums);
        assert(k@.aliases =~= ci.aliases);
        assert(k@.fields =~= ci.fields);
        assert(k@.anon_unions =~= ci.anon_unions);
        assert(k@.ctors =~= ci.ctors);
        assert(k@.methods =~= ci.methods);
        assert(k@.classes =~= ci.classes);
    }
    let ghost d0 = diags@;
    let ghost init = class_init(*e, loc@);
    let mut i: usize = 0;
    while i < e.children.len()
        invariant
            i <= e.children@.len(),
            init == class_init(*e, loc@),
            k@ == class_fold(init, e.children@.take(i as int), e.name, loc@).0,
            diags@ == d0 + class_fold(init, e.children@.take(i as int), e.name, loc@).1,
        decreases e.children@.len() - i,
    {
        proof {
            assert(e.children@.take(i + 1).drop_last() =~= e.children@.take(i as int));
            assert(decreases_to!(*e => e.children));
            assert(decreases_to!(e.children => e.children[i as int]));
        }
        let ghost dm = diags@;
        class_member(&mut k, &e.children[i], &e.name, loc, diags);
        i = i + 1;
        proof {
            let (_, d1) = class_fold(init, e.children@.take(i - 1), e.name, loc@);
            let (_, d2) = class_step(
                class_fold(init, e.children@.take(i - 1), e.name, loc@).0,
                e.children@[i - 1],
                e.name,
                loc@,
            );
            assert(d0 + (d1 + d2) =~= dm + d2);
        }
    }
    proof {
        assert(e.children@.take(i as int) =~= e.children@);
    }
    Some(k)
}

/// Takes member `c` of the class named `ctx` into `k`.
fn class_member(k: &mut Class, c: &Entity, ctx: &Option<String>, loc: &String, diags: &mut Vec<Diagnostic>)
    ensures
        final(k)@ == class_step(old(k)@, *c, *ctx, loc@).0,
        final(diags)@ == old(diags)@ + class_step(old(k)@, *c, *ctx, loc@).1,
    decreases c, 2int,
{
    proof {
        lemma_class_view(*k);
        assert(old(diags)@ + seq![] =~= old(diags)@);
    }
    let acc = match c.accessibility {
        None => return,
        Some(Accessibility::Private) => {
            if k.is_pod && c.kind == EntityKind::FieldDecl {
                diags.push(make_diag(Reason::PrivatePodField, &c.name, ctx));
                k.is_pod = false;
                proof { lemma_class_view(*k); }
            } else if c.kind == EntityKind::BaseSpecifier {
                diags.push(make_diag(Reason::NonPublicInheritance, &c.name, ctx));
            }
            return;
        },
        Some(a) => a,
    };
    match c.kind {
        EntityKind::BaseSpecifier => {
            if acc == Accessibility::Public {
                if k.inherits.is_some() {
                    diags.push(make_diag(Reason::MultipleInheritance, &c.name, ctx));
                } else {
                    match parse_opt_type(&c.ty, diags) {
                        Ok(t) => {
                            k.inherits = Some(t.name);
                        },
                        Err(er) => {
                            if er == ParseError::Unsupported {
                                diags.push(make_diag(Reason::UnsupportedBaseType, &c.name, ctx));
                            }
                        },
                    }
                }
            } else {
                diags.push(make_diag(Reason::NonPublicInheritance, &c.name, ctx));
            }
        },
        EntityKind::EnumDecl => {
            if let Some(en) = parse_enum(c, diags) {
                if c.name.is_some() {
                    proof { lemma_views_push(k.enums@, en); }
                    k.enums.push(en);
                } else {
                    hoist(en, &mut k.consts);
                }
            }
        },
        EntityKind::TypedefDecl | EntityKind::TypeAliasDecl => {
            match parse_typedef(c, loc, diags) {
                Nested::Enum(x) => {
                    proof { lemma_views_push(k.enums@, x); }
                    k.enums.push(x);
                },
                Nested::Class(x) => {
                    proof { lemma_views_push(k.classes@, x); }
                    k.classes.push(x);
                },
                Nested::Alias(x) => {
                    proof { lemma_views_push(k.aliases@, x); }
                    k.aliases.push(x);
                },
                Nested::Nothing => {},
            }
        },
        EntityKind::FieldDecl | EntityKind::VarDecl => {
            let is_const = match &c.ty {
                Some(t) => t.is_const,
                None => false,
            };
            if is_const {
                if let Some(x) = parse_const(c, diags) {
                    proof { lemma_views_push(k.consts@, x); }
                    k.consts.push(x);
                }
            } else {
                match parse_opt_type(&c.ty, diags) {
                    Ok(t) => {
                        if let Some(n) = &c.name {
                            let f = Field {
                                name: n.clone(),
                                ty: t,
                                access: access(Some(acc)),
                                is_static: c.storage == Some(StorageClass::Static),
                            };
                            proof { lemma_views_push(k.fields@, f); }
                            k.fields.push(f);
                        }
                    },
                    Err(er) => {
                        if er == ParseError::Unsupported {
                            diags.push(make_diag(Reason::UnsupportedFieldType, &c.name, ctx));
                        }
                    },
                }
            }
        },
        EntityKind::Constructor => {
            if let Some(f) = parse_function(c, diags) {
                proof { lemma_views_push(k.ctors@, f); }
                k.ctors.push(f);
            }
        },
        EntityKind::Method => {
            if let Some(f) = parse_function(c, diags) {
                proof { lemma_views_push(k.methods@, f); }
                k.methods.push(f);
            }
        },
        EntityKind::Destructor => {
            if c.is_virtual_method {
                k.virtual_dtor = true;
            }
        },
        EntityKind::ClassDecl | EntityKind::StructDecl => {
            if let Some(x) = parse_class(c, loc, diags) {
                if c.name.is_some() {
                    proof { lemma_views_push(k.classes@, x); }
                    k.classes.push(x);
                }
            }
        },
        EntityKind::UnionDecl => {
            if let Some(x) = parse_class(c, loc, diags) {
                if c.name.is_some() {
                    proof { lemma_views_push(k.classes@, x); }
                    k.classes.push(x);
                } else {
                    proof { lemma_views_push(k.anon_unions@, x); }
                    k.anon_unions.push(x);
                }
            }
        },
        _ => {},
    }
    proof {
        lemma_class_view(*k);
        assert(final(k)@ =~= class_step(old(k)@, *c, *ctx, loc@).0);
        assert(final(diags)@ =~= old(diags)@ + class_step(old(k)@, *c, *ctx, loc@).1);
    }
}

fn is_first_party(c: &Entity) -> (r: bool)
    ensures
        r == first_party(*c),
{
    if c.in_system_header {
        return false;
    }
    match &c.file {
        Some(f) => !is_vendored(f),
        None => false,
    }
}

fn empty_namespace(name: String) -> (r: Namespace)
    ensures
        r@ == ns_init(name@),
{
    let x = Namespace {
        name,
        consts: Vec::new(),
        globals: Vec::new(),
        enums: Vec::new(),
        aliases: Vec::new(),
        functions: Vec::new(),
        classes: Vec::new(),
        namespaces: Vec::new(),
    };
    proof {
        lemma_namespace_view(x);
        let z = ns_init(name@);
        assert(x@.consts =~= z.consts);
        assert(x@.globals =~= z.globals);
        assert(x@.enums =~= z.enums);
        assert(x@.aliases =~= z.aliases);
        assert(x@.functions =~= z.functions);
        assert(x@.classes =~= z.classes);
        assert(x@.namespaces =~= z.namespaces);
    }
    x
}

/// A named namespace (or translation unit) with everything extracted from
/// its first-party children; same-named child namespaces are merged.
pub fn parse_namespace(e: &Entity, diags: &mut Vec<Diagnostic>) -> (r: Option<Namespace>)
    ensures
        opt_view(r) == namespace_outcome(*e).0,
        final(diags)@ == old(diags)@ + namespace_outcome(*e).1,
    decreases e, 0int,
{
    let name = match &e.name {
        Some(n) => n.clone(),
        None => {
            proof { assert(old(diags)@ + seq![] =~= old(diags)@); }
            return None;
        },
    };
    let mut x = empty_namespace(name);
    let ghost d0 = diags@;
    let ghost init = x@;
    let mut i: usize = 0;
    while i < e.children.len()
        invariant
            i <= e.children@.len(),
            init == ns_init(e.name->Some_0@),
            e.name is Some,
            x@ == ns_fold(init, e.children@.take(i as int), e.name).0,
            diags@ == d0 + ns_fold(init, e.children@.take(i as int), e.name).1,
        decreases e.children@.len() - i,
    {
        proof {
            assert(e.children@.take(i + 1).drop_last() =~= e.children@.take(i as int));
            assert(decreases_to!(*e => e.children));
            assert(decreases_to!(e.children => e.children[i as int]));
        }
        let ghost dm = diags@;
        ns_member(&mut x, &e.children[i], &e.name, diags);
        i = i + 1;
        proof {
            let (x1, d1) = ns_fold(init, e.children@.take(i - 1), e.name);
            let (_, d2) = ns_step(x1, e.children@[i - 1], e.name);
            assert(d0 + (d1 + d2) =~= dm + d2);
        }
    }
    proof {
        assert(e.children@.take(i as int) =~= e.children@);
    }
    Some(x)
}

/// Takes child `c` of the namespace named `ctx` into `x`.
fn ns_member(x: &mut Namespace, c: &Entity, ctx: &Option<String>, diags: &mut Vec<Diagnostic>)
    ensures
        final(x)@ == ns_step(old(x)@, *c, *ctx).0,
        final(diags)@ == old(diags)@ + ns_step(old(x)@, *c, *ctx).1,
    decreases c, 2int,
{
    proof {
        lemma_namespace_view(*x);
        assert(old(diags)@ + seq![] =~= old(diags)@);
    }
    if !is_first_party(c) {
        return;
    }
    let loc = match &c.file {
        Some(f) => f,
        None => return,
    };
    match c.kind {
        EntityKind::VarDecl => {
            let is_const = match &c.ty {
                Some(t) => t.is_const,
                None => false,
            };
            if is_const {
                if let Some(k) = parse_const(c, diags) {
                    proof { lemma_views_push(x.consts@, k); }
                    x.consts.push(k);
                }
            } else if c.storage == Some(StorageClass::Extern) {
                match parse_opt_type(&c.ty, diags) {
                    Ok(t) => {
                        if let Some(n) = &c.name {
                            let g = Global { name: n.clone(), ty: t };
                            proof { lemma_views_push(x.globals@, g); }
                            x.globals.push(g);
                        }
                    },
                    Err(er) => {
                        if er == ParseError::Unsupported {
                            diags.push(make_diag(Reason::UnsupportedGlobalType, &c.name, ctx));
                        }
                    },
                }
            } else {
                diags.push(make_diag(Reason::NonExternGlobal, &c.name, ctx));
            }
        },
        EntityKind::EnumDecl => {
            if let Some(en) = parse_enum(c, diags) {
                if c.name.is_some() {
                    proof { lemma_views_push(x.enums@, en); }
                    x.enums.push(en);
                } else {
                    hoist(en, &mut x.consts);
                }
            }
        },
        EntityKind::TypedefDecl | EntityKind::TypeAliasDecl => {
            match parse_typedef(c, loc, diags) {
                Nested::Enum(k) => {
                    proof { lemma_views_push(x.enums@, k); }
                    x.enums.push(k);
                },
                Nested::Class(k) => {
                    proof { lemma_views_push(x.classes@, k); }
                    x.classes.push(k);
                },
                Nested::Alias(k) => {
                    proof { lemma_views_push(x.aliases@, k); }
                    x.aliases.push(k);
                },
                Nested::Nothing => {},
            }
        },
        EntityKind::ClassDecl | EntityKind::StructDecl | EntityKind::UnionDecl => {
            if let Some(k) = parse_class(c, loc, diags) {
                if c.name.is_some() {
                    proof { lemma_views_push(x.classes@, k); }
                    x.classes.push(k);
                }
            }
        },
        EntityKind::FunctionDecl => {
            if let Some(f) = parse_function(c, diags) {
                proof { lemma_views_push(x.functions@, f); }
                x.functions.push(f);
            }
        },
        EntityKind::Namespace => {
            if let Some(n) = parse_namespace(c, diags) {
                absorb_child(&mut x.namespaces, n);
            }
        },
        _ => {},
    }
    proof {
        lemma_namespace_view(*x);
        assert(final(x)@ =~= ns_step(old(x)@, *c, *ctx).0);
        assert(final(diags)@ =~= old(diags)@ + ns_step(old(x)@, *c, *ctx).1);
    }
}

/// The API extracted from one translation unit: its root namespace, which
/// carries an empty name.
pub open spec fn api_outcome(tu: Entity) -> (Option<NamespaceV>, Seq<Diagnostic>) {
    match namespace_outcome(tu) {
        (Some(n), d) => (Some(NamespaceV { name: seq![], ..n }), d),
        (None, d) => (None, d),
    }
}

/// Extracts the API of a translation unit, reporting what it skips.
pub fn extract(tu: &Entity, diags: &mut Vec<Diagnostic>) -> (r: Option<Namespace>)
    ensures
        opt_view(r) == api_outcome(*tu).0,
        final(diags)@ == old(diags)@ + api_outcome(*tu).1,
{
    match parse_namespace(tu, diags) {
        Some(mut n) => {
            let ghost n0 = n;
            n.name = String::new();
            proof {
                lemma_namespace_view(n0);
                lemma_namespace_view(n);
                assert(n@ =~= NamespaceV { name: seq![], ..n0@ });
            }
            Some(n)
        },
        None => None,
    }
}

proof fn lemma_step_distinct(x: NamespaceV, c: Entity, ctx: Option<String>)
    requires
        distinct_siblings(x.namespaces),
    ensures
        distinct_siblings(ns_step(x, c, ctx).0.namespaces),
    decreases c, 2int,
{
    if first_party(c) && c.kind is Namespace {
        if let (Some(n), _) = namespace_outcome(c) {
            lemma_extracted_distinct(c);
            lemma_absorbed_distinct(x.namespaces, n);
        }
    }
}

proof fn lemma_fold_distinct(x: NamespaceV, cs: Seq<Entity>, ctx: Option<String>)
    requires
        distinct_siblings(x.namespaces),
    ensures
        distinct_siblings(ns_fold(x, cs, ctx).0.namespaces),
    decreases cs, 3int,
{
    if cs.len() > 0 {
        lemma_fold_distinct(x, cs.drop_last(), ctx);
        lemma_step_distinct(ns_fold(x, cs.drop_last(), ctx).0, cs.last(), ctx);
    }
}

/// Extraction never gives two sibling namespaces the same name: reopened
/// namespaces are combined into one.
pub proof fn lemma_extracted_distinct(e: Entity)
    ensures
        namespace_outcome(e).0 matches Some(n) ==> distinct_children(n),
    decreases e, 0int,
{
    if let Some(name) = e.name {
        lemma_fold_distinct(ns_init(name@), e.children@, e.name);
    }
}

/// A namespace tree that extraction produced merges the same whether it is
/// merged once or twice.
pub proof fn lemma_extracted_merge_idempotent(d: NamespaceV, e: Entity)
    requires
        namespace_outcome(e).0 is Some,
    ensures
        ({
            let n = namespace_outcome(e).0->Some_0;
            merge_view(merge_view(d, n), n) == merge_view(d, n)
        }),
{
    lemma_extracted_distinct(e);
    lemma_merge_idempotent(d, namespace_outcome(e).0->Some_0);
}

} // verus!
