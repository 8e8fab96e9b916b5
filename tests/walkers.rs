use gdrs_parse::ast::{Accessibility, CType, CTypeKind, Entity, EntityKind, Evaluation, Scope, ScopeKind, StorageClass};
use gdrs_parse::diag::Reason;
use gdrs_parse::schema::{Access, FunctionSemantic, TypeName, TypeSemantic, Value};
use gdrs_parse::walk::{extract, parse_alias, parse_class, parse_enum, parse_function, parse_namespace, parse_typedef, Nested};

const HEADER: &str = "/src/core/object.h";

fn prim(kind: CTypeKind, spelling: &str) -> CType {
    CType::new(kind, spelling.to_string())
}

fn record(name: &str) -> CType {
    let mut t = CType::new(CTypeKind::Record, name.to_string());
    t.declaration = Some(vec![
        Scope { kind: ScopeKind::Record, name: Some(name.to_string()) },
        Scope { kind: ScopeKind::TranslationUnit, name: Some("unity.cpp".to_string()) },
    ]);
    t
}

fn named(kind: EntityKind, name: &str) -> Entity {
    let mut e = Entity::new(kind);
    e.name = Some(name.to_string());
    e.file = Some(HEADER.to_string());
    e
}

fn member(kind: EntityKind, name: &str, access: Accessibility) -> Entity {
    let mut e = named(kind, name);
    e.accessibility = Some(access);
    e
}

fn constant(name: &str, value: i64) -> Entity {
    let mut c = named(EntityKind::EnumConstantDecl, name);
    c.enum_value = Some((value, value as u64));
    c
}

fn anon_enum() -> Entity {
    let mut e = Entity::new(EntityKind::EnumDecl);
    e.file = Some(HEADER.to_string());
    e.enum_underlying = Some(prim(CTypeKind::UInt, "unsigned int"));
    e.enum_unsigned = true;
    e.children = vec![constant("A", 1), constant("B", 2)];
    e
}

fn class_def(kind: EntityKind, name: &str) -> Entity {
    let mut c = named(kind, name);
    c.is_definition = true;
    c
}

fn literal(kind: CTypeKind, ev: Evaluation) -> Entity {
    let mut e = Entity::new(EntityKind::Other);
    e.ty = Some(prim(kind, "lit"));
    e.evaluation = Some(ev);
    e
}

fn root(children: Vec<Entity>) -> Entity {
    let mut tu = Entity::new(EntityKind::TranslationUnit);
    tu.name = Some("unity.cpp".to_string());
    tu.children = children;
    tu
}

#[test]
fn anonymous_enum_becomes_constants() {
    let mut diags = Vec::new();
    let ns = parse_namespace(&root(vec![anon_enum()]), &mut diags).unwrap();
    assert_eq!(ns.enums.len(), 0);
    assert_eq!(ns.consts.len(), 2);
    assert_eq!(ns.consts[0].name, "A");
    assert_eq!(ns.consts[0].value, Value::UInt(1));
    assert_eq!(ns.consts[1].name, "B");
    assert_eq!(ns.consts[1].value, Value::UInt(2));
    for c in &ns.consts {
        assert!(matches!(c.ty.name, TypeName::UInt));
        assert_eq!(c.ty.semantic, TypeSemantic::Value);
    }
    assert!(diags.is_empty());
}

#[test]
fn named_enum_reads_values_by_signedness() {
    let mut e = named(EntityKind::EnumDecl, "Error");
    e.enum_underlying = Some(prim(CTypeKind::Int, "int"));
    e.children = vec![constant("OK", 0), constant("FAILED", -1)];
    let mut diags = Vec::new();
    let en = parse_enum(&e, &mut diags).unwrap();
    assert_eq!(en.name, "Error");
    assert_eq!(en.variants.len(), 2);
    assert_eq!(en.variants[1].value, Value::Int(-1));
    let ns = parse_namespace(&root(vec![e]), &mut diags).unwrap();
    assert_eq!(ns.enums.len(), 1);
    assert_eq!(ns.consts.len(), 0);
}

#[test]
fn private_field_revokes_pod() {
    let mut c = class_def(EntityKind::ClassDecl, "Vec2");
    c.is_pod = true;
    let mut x = member(EntityKind::FieldDecl, "x", Accessibility::Private);
    x.ty = Some(prim(CTypeKind::Int, "int"));
    let mut get = member(EntityKind::Method, "get", Accessibility::Public);
    get.result_type = Some(prim(CTypeKind::Int, "int"));
    get.arguments = Some(vec![]);
    c.children = vec![x, get];
    let mut diags = Vec::new();
    let k = parse_class(&c, &HEADER.to_string(), &mut diags).unwrap();
    assert!(!k.is_pod);
    assert_eq!(k.fields.len(), 0);
    assert_eq!(k.methods.len(), 1);
    assert_eq!(diags.len(), 1);
    assert_eq!(diags[0].reason, Reason::PrivatePodField);
    assert_eq!(diags[0].subject.as_deref(), Some("x"));
}

#[test]
fn only_the_first_public_base_is_kept() {
    let mut c = class_def(EntityKind::ClassDecl, "C");
    let mut a = member(EntityKind::BaseSpecifier, "A", Accessibility::Public);
    a.ty = Some(record("A"));
    let mut b = member(EntityKind::BaseSpecifier, "B", Accessibility::Public);
    b.ty = Some(record("B"));
    c.children = vec![a, b];
    let mut diags = Vec::new();
    let k = parse_class(&c, &HEADER.to_string(), &mut diags).unwrap();
    match k.inherits {
        Some(TypeName::Class(p, a)) => {
            assert_eq!(p, vec!["A"]);
            assert!(a.is_empty());
        },
        _ => panic!("expected base A"),
    }
    assert_eq!(diags.len(), 1);
    assert_eq!(diags[0].reason, Reason::MultipleInheritance);
    assert_eq!(diags[0].subject.as_deref(), Some("B"));
    assert_eq!(diags[0].context.as_deref(), Some("C"));
}

#[test]
fn protected_base_is_reported() {
    let mut c = class_def(EntityKind::StructDecl, "S");
    let mut a = member(EntityKind::BaseSpecifier, "A", Accessibility::Protected);
    a.ty = Some(record("A"));
    c.children = vec![a];
    let mut diags = Vec::new();
    let k = parse_class(&c, &HEADER.to_string(), &mut diags).unwrap();
    assert!(k.inherits.is_none());
    assert_eq!(diags[0].reason, Reason::NonPublicInheritance);
}

#[test]
fn forward_declarations_and_templates_are_skipped() {
    let mut diags = Vec::new();
    let fwd = named(EntityKind::ClassDecl, "Fwd");
    assert!(parse_class(&fwd, &HEADER.to_string(), &mut diags).is_none());
    let mut tmpl = class_def(EntityKind::ClassDecl, "Tmpl");
    tmpl.is_template = true;
    assert!(parse_class(&tmpl, &HEADER.to_string(), &mut diags).is_none());
}

#[test]
fn class_members_sort_into_their_lists() {
    let mut c = class_def(EntityKind::ClassDecl, "Node");
    let mut field = member(EntityKind::FieldDecl, "count", Accessibility::Protected);
    field.ty = Some(prim(CTypeKind::Int, "int"));
    field.storage = Some(StorageClass::Static);
    let mut ctor = member(EntityKind::Constructor, "Node", Accessibility::Public);
    ctor.result_type = Some(prim(CTypeKind::Void, "void"));
    let mut dtor = member(EntityKind::Destructor, "~Node", Accessibility::Public);
    dtor.is_virtual_method = true;
    let mut union = class_def(EntityKind::UnionDecl, "");
    union.name = None;
    union.accessibility = Some(Accessibility::Public);
    let mut nested = class_def(EntityKind::StructDecl, "Inner");
    nested.accessibility = Some(Accessibility::Public);
    let mut max = member(EntityKind::VarDecl, "MAX", Accessibility::Public);
    let mut ct = prim(CTypeKind::Int, "const int");
    ct.is_const = true;
    max.ty = Some(ct);
    max.children = vec![literal(CTypeKind::Int, Evaluation::Signed(16))];
    c.children = vec![field, ctor, dtor, union, nested, max];
    let mut diags = Vec::new();
    let k = parse_class(&c, &HEADER.to_string(), &mut diags).unwrap();
    assert_eq!(k.header, HEADER);
    assert_eq!(k.fields.len(), 1);
    assert_eq!(k.fields[0].access, Access::Protected);
    assert!(k.fields[0].is_static);
    assert_eq!(k.ctors.len(), 1);
    assert!(k.ctors[0].return_ty.is_none());
    assert!(k.virtual_dtor);
    assert_eq!(k.anon_unions.len(), 1);
    assert!(k.anon_unions[0].is_union);
    assert_eq!(k.classes.len(), 1);
    assert_eq!(k.classes[0].name, "Inner");
    assert_eq!(k.consts.len(), 1);
    assert_eq!(k.consts[0].value, Value::Int(16));
    assert!(diags.is_empty());
}

#[test]
fn typedef_of_anonymous_struct_is_promoted() {
    let mut anon = class_def(EntityKind::StructDecl, "");
    anon.name = None;
    let mut td = named(EntityKind::TypedefDecl, "Point");
    td.typedef_target = Some(Box::new(anon));
    let mut diags = Vec::new();
    match parse_typedef(&td, &HEADER.to_string(), &mut diags) {
        Nested::Class(k) => assert_eq!(k.name, "Point"),
        _ => panic!("expected a promoted class"),
    }
    let ns = parse_namespace(&root(vec![td]), &mut diags).unwrap();
    assert_eq!(ns.classes.len(), 1);
    assert_eq!(ns.aliases.len(), 0);
}

#[test]
fn typedef_of_a_primitive_is_an_alias() {
    let mut td = named(EntityKind::TypedefDecl, "real_t");
    td.typedef_underlying = Some(prim(CTypeKind::Float, "float"));
    let mut diags = Vec::new();
    let a = parse_alias(&td, &mut diags).unwrap();
    assert_eq!(a.name, "real_t");
    assert!(matches!(a.ty.name, TypeName::Float));
    let ns = parse_namespace(&root(vec![td]), &mut diags).unwrap();
    assert_eq!(ns.aliases.len(), 1);
}

#[test]
fn unsupported_alias_is_reported() {
    let mut td = named(EntityKind::TypeAliasDecl, "odd_t");
    td.typedef_underlying = Some(prim(CTypeKind::Other, "__int128"));
    let mut diags = Vec::new();
    assert!(parse_alias(&td, &mut diags).is_none());
    assert_eq!(diags.len(), 2);
    assert_eq!(diags[1].reason, Reason::UnsupportedAliasType);
}

#[test]
fn function_parameters_and_defaults() {
    let mut f = named(EntityKind::Method, "resize");
    f.accessibility = Some(Accessibility::Protected);
    f.is_const_method = true;
    f.result_type = Some(prim(CTypeKind::Bool, "bool"));
    let mut size = named(EntityKind::ParmDecl, "size");
    size.ty = Some(prim(CTypeKind::Int, "int"));
    size.children = vec![literal(CTypeKind::Int, Evaluation::Signed(8))];
    let mut unnamed = Entity::new(EntityKind::ParmDecl);
    unnamed.ty = Some(prim(CTypeKind::Double, "double"));
    unnamed.children = vec![literal(CTypeKind::Double, Evaluation::Other)];
    f.arguments = Some(vec![size, unnamed]);
    let mut diags = Vec::new();
    let func = parse_function(&f, &mut diags).unwrap();
    assert_eq!(func.semantic, FunctionSemantic::Method);
    assert_eq!(func.access, Access::Protected);
    assert!(func.is_const);
    assert_eq!(func.params.len(), 2);
    assert_eq!(func.params[0].default, Some(Value::Int(8)));
    assert_eq!(func.params[1].name, "");
    assert_eq!(func.params[1].default, None);
    assert!(matches!(func.return_ty.as_ref().unwrap().name, TypeName::Bool));
    assert_eq!(diags.len(), 1);
    assert_eq!(diags[0].reason, Reason::UnsupportedEvaluation);
}

#[test]
fn virtual_wins_over_static() {
    let mut f = named(EntityKind::Method, "run");
    f.result_type = Some(prim(CTypeKind::Void, "void"));
    f.is_virtual_method = true;
    f.is_static_method = true;
    let mut diags = Vec::new();
    assert_eq!(parse_function(&f, &mut diags).unwrap().semantic, FunctionSemantic::Virtual);
    let mut g = named(EntityKind::FunctionDecl, "free_fn");
    g.result_type = Some(prim(CTypeKind::Void, "void"));
    assert_eq!(parse_function(&g, &mut diags).unwrap().semantic, FunctionSemantic::Free);
}

#[test]
fn unsupported_parameter_drops_the_function() {
    let mut f = named(EntityKind::FunctionDecl, "call");
    f.result_type = Some(prim(CTypeKind::Void, "void"));
    let mut p = named(EntityKind::ParmDecl, "cb");
    p.ty = Some(prim(CTypeKind::Other, "__int128"));
    f.arguments = Some(vec![p]);
    let mut diags = Vec::new();
    assert!(parse_function(&f, &mut diags).is_none());
    assert_eq!(diags.len(), 2);
    assert_eq!(diags[1].reason, Reason::UnsupportedParamType);
    assert_eq!(diags[1].subject.as_deref(), Some("cb"));
    assert_eq!(diags[1].context.as_deref(), Some("call"));
}

#[test]
fn ignored_parameter_drops_the_function_silently() {
    let mut f = named(EntityKind::FunctionDecl, "call");
    f.result_type = Some(prim(CTypeKind::Void, "void"));
    let mut p = named(EntityKind::ParmDecl, "any");
    p.ty = Some(prim(CTypeKind::Auto, "auto"));
    f.arguments = Some(vec![p]);
    let mut diags = Vec::new();
    assert!(parse_function(&f, &mut diags).is_none());
    assert!(diags.is_empty());
}

#[test]
fn globals_need_external_linkage() {
    let mut ext = named(EntityKind::VarDecl, "counter");
    ext.ty = Some(prim(CTypeKind::Int, "int"));
    ext.storage = Some(StorageClass::Extern);
    let mut local = named(EntityKind::VarDecl, "hidden");
    local.ty = Some(prim(CTypeKind::Int, "int"));
    local.storage = Some(StorageClass::Static);
    let mut diags = Vec::new();
    let ns = parse_namespace(&root(vec![ext, local]), &mut diags).unwrap();
    assert_eq!(ns.globals.len(), 1);
    assert_eq!(ns.globals[0].name, "counter");
    assert_eq!(diags.len(), 1);
    assert_eq!(diags[0].reason, Reason::NonExternGlobal);
}

#[test]
fn vendored_and_system_entities_are_skipped() {
    let mut sys = anon_enum();
    sys.in_system_header = true;
    let mut third = anon_enum();
    third.file = Some("/src/thirdparty/zlib/zlib.h".to_string());
    let mut unity = anon_enum();
    unity.file = Some("/tmp/unity.cpp".to_string());
    let mut nowhere = anon_enum();
    nowhere.file = None;
    let mut diags = Vec::new();
    let ns = parse_namespace(&root(vec![sys, third, unity, nowhere]), &mut diags).unwrap();
    assert_eq!(ns.consts.len(), 0);
    let mut near = anon_enum();
    near.file = Some("/src/thirdparty_like/x.hpp".to_string());
    let ns = parse_namespace(&root(vec![near]), &mut diags).unwrap();
    assert_eq!(ns.consts.len(), 2);
}

#[test]
fn reopened_namespaces_are_combined() {
    let mut a = named(EntityKind::Namespace, "core");
    a.children = vec![anon_enum()];
    let mut f = named(EntityKind::FunctionDecl, "init");
    f.result_type = Some(prim(CTypeKind::Void, "void"));
    let mut b = named(EntityKind::Namespace, "core");
    b.children = vec![f];
    let mut anon = Entity::new(EntityKind::Namespace);
    anon.file = Some(HEADER.to_string());
    let mut diags = Vec::new();
    let ns = parse_namespace(&root(vec![a, b, anon]), &mut diags).unwrap();
    assert_eq!(ns.namespaces.len(), 1);
    assert_eq!(ns.namespaces[0].consts.len(), 2);
    assert_eq!(ns.namespaces[0].functions.len(), 1);
}

#[test]
fn extract_gives_the_root_an_empty_name() {
    let mut diags = Vec::new();
    let api = extract(&root(vec![anon_enum()]), &mut diags).unwrap();
    assert_eq!(api.name, "");
    assert_eq!(api.consts.len(), 2);
    assert!(extract(&Entity::new(EntityKind::TranslationUnit), &mut diags).is_none());
}

#[test]
fn typedef_of_anonymous_enum_is_promoted() {
    let mut td = named(EntityKind::TypedefDecl, "Mode");
    td.typedef_target = Some(Box::new(anon_enum()));
    let mut c = class_def(EntityKind::ClassDecl, "Player");
    td.accessibility = Some(Accessibility::Public);
    c.children = vec![td];
    let mut diags = Vec::new();
    let k = parse_class(&c, &HEADER.to_string(), &mut diags).unwrap();
    assert_eq!(k.enums.len(), 1);
    assert_eq!(k.enums[0].name, "Mode");
    assert_eq!(k.enums[0].variants.len(), 2);
    assert_eq!(k.consts.len(), 0);
}

#[test]
fn anonymous_enum_in_a_class_becomes_class_constants() {
    let mut e = anon_enum();
    e.accessibility = Some(Accessibility::Public);
    let mut c = class_def(EntityKind::ClassDecl, "Limits");
    c.children = vec![e];
    let mut diags = Vec::new();
    let k = parse_class(&c, &HEADER.to_string(), &mut diags).unwrap();
    assert_eq!(k.enums.len(), 0);
    assert_eq!(k.consts.len(), 2);
    assert_eq!(k.consts[1].name, "B");
}

#[test]
fn unsupported_member_types_are_reported_and_skipped() {
    let mut c = class_def(EntityKind::ClassDecl, "Odd");
    let mut base = member(EntityKind::BaseSpecifier, "Weird", Accessibility::Public);
    base.ty = Some(prim(CTypeKind::Other, "__weird"));
    let mut field = member(EntityKind::FieldDecl, "wide", Accessibility::Public);
    field.ty = Some(prim(CTypeKind::Other, "__int128"));
    let mut method = member(EntityKind::Method, "get", Accessibility::Public);
    method.result_type = Some(prim(CTypeKind::Other, "__int128"));
    c.children = vec![base, field, method];
    let mut diags = Vec::new();
    let k = parse_class(&c, &HEADER.to_string(), &mut diags).unwrap();
    assert!(k.inherits.is_none());
    assert!(k.fields.is_empty());
    assert!(k.methods.is_empty());
    let reasons: Vec<Reason> = diags.iter().map(|d| d.reason).collect();
    assert_eq!(
        reasons,
        vec![
            Reason::UnsupportedTypeKind,
            Reason::UnsupportedBaseType,
            Reason::UnsupportedTypeKind,
            Reason::UnsupportedFieldType,
            Reason::UnsupportedTypeKind,
            Reason::UnsupportedReturnType,
        ]
    );
}

#[test]
fn const_without_evaluable_initializer_is_dropped() {
    let mut v = named(EntityKind::VarDecl, "NAME");
    let mut ct = prim(CTypeKind::Int, "const int");
    ct.is_const = true;
    v.ty = Some(ct);
    let mut diags = Vec::new();
    let ns = parse_namespace(&root(vec![v]), &mut diags).unwrap();
    assert!(ns.consts.is_empty());
    assert!(ns.globals.is_empty());
    assert!(diags.is_empty());
}

#[test]
fn private_base_is_dropped_and_reported() {
    let mut c = class_def(EntityKind::ClassDecl, "C");
    let mut a = member(EntityKind::BaseSpecifier, "A", Accessibility::Private);
    a.ty = Some(record("A"));
    c.children = vec![a];
    let mut diags = Vec::new();
    let k = parse_class(&c, &HEADER.to_string(), &mut diags).unwrap();
    assert!(k.inherits.is_none());
    assert_eq!(diags.len(), 1);
    assert_eq!(diags[0].reason, Reason::NonPublicInheritance);
    assert_eq!(diags[0].subject.as_deref(), Some("A"));
}

#[test]
fn alias_of_a_function_pointer_is_skipped_silently() {
    let mut p = prim(CTypeKind::Pointer, "void (*)(int)");
    p.pointee = Some(Box::new(prim(CTypeKind::FunctionProto, "void (int)")));
    let mut td = named(EntityKind::TypeAliasDecl, "Callback");
    td.typedef_underlying = Some(p);
    let mut diags = Vec::new();
    assert!(parse_alias(&td, &mut diags).is_none());
    assert!(diags.is_empty());
}
