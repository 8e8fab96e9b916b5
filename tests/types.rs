use gdrs_parse::ast::{CType, CTypeKind, Scope, ScopeKind};
use gdrs_parse::diag::{ParseError, Reason};
use gdrs_parse::schema::{TypeName, TypeRef, TypeSemantic};
use gdrs_parse::types::{parse_type, scope_names};

fn prim(kind: CTypeKind, spelling: &str) -> CType {
    CType::new(kind, spelling.to_string())
}

fn scope(kind: ScopeKind, name: Option<&str>) -> Scope {
    Scope { kind, name: name.map(|n| n.to_string()) }
}

fn record(name: &str, args: Option<Vec<Option<CType>>>) -> CType {
    let mut t = CType::new(CTypeKind::Record, name.to_string());
    t.declaration = Some(vec![
        scope(ScopeKind::Record, Some(name)),
        scope(ScopeKind::TranslationUnit, Some("unity.cpp")),
    ]);
    t.template_args = args;
    t
}

fn class_path(t: &TypeRef) -> (Vec<String>, usize) {
    match &t.name {
        TypeName::Class(p, a) => (p.clone(), a.len()),
        _ => panic!("not a class type"),
    }
}

#[test]
fn int_is_a_plain_value() {
    let mut diags = Vec::new();
    let r = parse_type(&prim(CTypeKind::Int, "int"), &mut diags).unwrap();
    assert!(matches!(r.name, TypeName::Int));
    assert_eq!(r.semantic, TypeSemantic::Value);
    assert!(!r.is_const);
    assert!(diags.is_empty());
}

#[test]
fn const_binds_to_the_pointee() {
    let mut pointee = prim(CTypeKind::Int, "const int");
    pointee.is_const = true;
    let mut ptr = prim(CTypeKind::Pointer, "const int *");
    ptr.pointee = Some(Box::new(pointee));
    let mut diags = Vec::new();
    let r = parse_type(&ptr, &mut diags).unwrap();
    assert!(matches!(r.name, TypeName::Int));
    assert_eq!(r.semantic, TypeSemantic::Pointer);
    assert!(r.is_const);
}

#[test]
fn const_pointer_to_mutable_int_is_not_const() {
    let mut ptr = prim(CTypeKind::Pointer, "int *const");
    ptr.is_const = true;
    ptr.pointee = Some(Box::new(prim(CTypeKind::Int, "int")));
    let mut diags = Vec::new();
    let r = parse_type(&ptr, &mut diags).unwrap();
    assert_eq!(r.semantic, TypeSemantic::Pointer);
    assert!(!r.is_const);
}

#[test]
fn fixed_arrays() {
    let mut arr = prim(CTypeKind::ConstantArray, "int[4]");
    arr.size = Some(4);
    arr.element = Some(Box::new(prim(CTypeKind::Int, "int")));
    let mut diags = Vec::new();
    assert_eq!(parse_type(&arr, &mut diags).unwrap().semantic, TypeSemantic::Array(4));

    let mut inner = prim(CTypeKind::ConstantArray, "int[8]");
    inner.size = Some(8);
    inner.element = Some(Box::new(prim(CTypeKind::Int, "int")));
    let mut outer = prim(CTypeKind::ConstantArray, "int[4][8]");
    outer.size = Some(4);
    outer.element = Some(Box::new(inner));
    let r = parse_type(&outer, &mut diags).unwrap();
    assert_eq!(r.semantic, TypeSemantic::ArrayOfArray(4, 8));
    assert!(matches!(r.name, TypeName::Int));

    let mut p = prim(CTypeKind::Pointer, "char *");
    p.pointee = Some(Box::new(prim(CTypeKind::CharS, "char")));
    let mut aop = prim(CTypeKind::ConstantArray, "char *[3]");
    aop.size = Some(3);
    aop.element = Some(Box::new(p));
    let r = parse_type(&aop, &mut diags).unwrap();
    assert_eq!(r.semantic, TypeSemantic::ArrayOfPointer(3));
    assert!(matches!(r.name, TypeName::Char));
    assert!(diags.is_empty());
}

#[test]
fn pointer_to_pointer_and_references() {
    let mut inner = prim(CTypeKind::Pointer, "char *");
    inner.pointee = Some(Box::new(prim(CTypeKind::CharS, "char")));
    let mut pp = prim(CTypeKind::Pointer, "char **");
    pp.pointee = Some(Box::new(inner));
    let mut diags = Vec::new();
    assert_eq!(parse_type(&pp, &mut diags).unwrap().semantic, TypeSemantic::PointerToPointer);

    let mut r = prim(CTypeKind::LValueReference, "int &");
    r.pointee = Some(Box::new(prim(CTypeKind::Int, "int")));
    assert_eq!(parse_type(&r, &mut diags).unwrap().semantic, TypeSemantic::Reference);

    let mut p = prim(CTypeKind::Pointer, "int *");
    p.pointee = Some(Box::new(prim(CTypeKind::Int, "int")));
    let mut rp = prim(CTypeKind::LValueReference, "int *&");
    rp.pointee = Some(Box::new(p));
    assert_eq!(parse_type(&rp, &mut diags).unwrap().semantic, TypeSemantic::ReferenceToPointer);
}

#[test]
fn template_arguments_are_normalized() {
    let foo = record("Foo", Some(vec![Some(record("Bar", None))]));
    let mut diags = Vec::new();
    let r = parse_type(&foo, &mut diags).unwrap();
    match &r.name {
        TypeName::Class(p, a) => {
            assert_eq!(p, &vec!["Foo".to_string()]);
            assert_eq!(a.len(), 1);
            assert_eq!(class_path(&a[0]), (vec!["Bar".to_string()], 0));
        },
        _ => panic!("expected a class type"),
    }
    assert!(diags.is_empty());
}

#[test]
fn elaborated_sugar_is_stripped() {
    let mut e = prim(CTypeKind::Other, "struct Foo");
    e.elaborated = Some(Box::new(record("Foo", None)));
    let mut diags = Vec::new();
    let r = parse_type(&e, &mut diags).unwrap();
    assert_eq!(class_path(&r), (vec!["Foo".to_string()], 0));
}

#[test]
fn void_only_behind_indirection() {
    let mut diags = Vec::new();
    assert_eq!(parse_type(&prim(CTypeKind::Void, "void"), &mut diags).unwrap_err(), ParseError::Ignored);
    let mut p = prim(CTypeKind::Pointer, "void *");
    p.pointee = Some(Box::new(prim(CTypeKind::Void, "void")));
    assert!(matches!(parse_type(&p, &mut diags).unwrap().name, TypeName::Void));
    assert!(diags.is_empty());
}

#[test]
fn ignored_kinds_report_nothing() {
    let mut diags = Vec::new();
    for k in [CTypeKind::Auto, CTypeKind::Unexposed, CTypeKind::MemberPointer, CTypeKind::BlockPointer] {
        assert_eq!(parse_type(&prim(k, "x"), &mut diags).unwrap_err(), ParseError::Ignored);
    }
    assert!(diags.is_empty());
}

#[test]
fn unknown_kind_is_unsupported_and_reported() {
    let mut diags = Vec::new();
    let r = parse_type(&prim(CTypeKind::Other, "__int128"), &mut diags);
    assert_eq!(r.unwrap_err(), ParseError::Unsupported);
    assert_eq!(diags.len(), 1);
    assert_eq!(diags[0].reason, Reason::UnsupportedTypeKind);
    assert_eq!(diags[0].subject.as_deref(), Some("__int128"));
}

#[test]
fn unsupported_template_argument_propagates() {
    let foo = record("Foo", Some(vec![Some(prim(CTypeKind::Other, "__int128")), Some(prim(CTypeKind::Int, "int"))]));
    let mut diags = Vec::new();
    assert_eq!(parse_type(&foo, &mut diags).unwrap_err(), ParseError::Unsupported);
    assert_eq!(diags.len(), 2);
    assert_eq!(diags[0].reason, Reason::UnsupportedTypeKind);
    assert_eq!(diags[1].reason, Reason::UnsupportedTemplateArgument);
}

#[test]
fn ignored_template_argument_propagates_silently() {
    let foo = record("Foo", Some(vec![Some(prim(CTypeKind::Auto, "auto"))]));
    let mut diags = Vec::new();
    assert_eq!(parse_type(&foo, &mut diags).unwrap_err(), ParseError::Ignored);
    assert!(diags.is_empty());
}

#[test]
fn scoped_names_run_root_to_leaf() {
    let mut t = CType::new(CTypeKind::Enum, "ns::Outer::Kind".to_string());
    t.declaration = Some(vec![
        scope(ScopeKind::Other, Some("Kind")),
        scope(ScopeKind::Record, Some("Outer")),
        scope(ScopeKind::Other, None),
        scope(ScopeKind::Namespace, Some("ns")),
        scope(ScopeKind::TranslationUnit, Some("unity.cpp")),
    ]);
    let mut diags = Vec::new();
    match parse_type(&t, &mut diags).unwrap().name {
        TypeName::TypeName(p) => assert_eq!(p, vec!["ns", "Outer", "Kind"]),
        _ => panic!("expected a scoped name"),
    }
}

#[test]
fn anonymous_namespace_is_ignored() {
    let chain = vec![
        scope(ScopeKind::Record, Some("Hidden")),
        scope(ScopeKind::Namespace, None),
        scope(ScopeKind::TranslationUnit, Some("unity.cpp")),
    ];
    assert!(scope_names(&chain).is_none());
    let mut t = CType::new(CTypeKind::Record, "Hidden".to_string());
    t.declaration = Some(chain);
    let mut diags = Vec::new();
    assert_eq!(parse_type(&t, &mut diags).unwrap_err(), ParseError::Ignored);
}

#[test]
fn unnamed_declaration_is_auto() {
    let chain = vec![scope(ScopeKind::Record, None), scope(ScopeKind::TranslationUnit, Some("u.cpp"))];
    assert_eq!(scope_names(&chain).unwrap(), vec!["auto"]);
}

#[test]
fn duplicate_keeps_the_type() {
    let foo = record("Foo", Some(vec![Some(record("Bar", None))]));
    let mut diags = Vec::new();
    let r = parse_type(&foo, &mut diags).unwrap();
    let d = r.duplicate();
    assert_eq!(class_path(&d), (vec!["Foo".to_string()], 1));
    assert_eq!(d.semantic, r.semantic);
}

#[test]
fn function_pointers_are_ignored_silently() {
    let mut diags = Vec::new();
    for k in [CTypeKind::FunctionProto, CTypeKind::FunctionNoProto] {
        let mut p = prim(CTypeKind::Pointer, "void (*)(int)");
        p.pointee = Some(Box::new(prim(k, "void (int)")));
        assert_eq!(parse_type(&p, &mut diags).unwrap_err(), ParseError::Ignored);
    }
    assert!(diags.is_empty());
}
