use gdrs_parse::merge::merge_all;
use gdrs_parse::schema::{Class, Const, Namespace, TypeName, TypeRef, TypeSemantic, Value};

fn int_ref() -> TypeRef {
    TypeRef { name: TypeName::Int, semantic: TypeSemantic::Value, is_const: false }
}

fn class(name: &str, header: &str, is_pod: bool) -> Class {
    Class {
        header: header.to_string(),
        name: name.to_string(),
        inherits: None,
        is_pod,
        is_union: false,
        consts: vec![],
        enums: vec![],
        aliases: vec![],
        fields: vec![],
        anon_unions: vec![],
        ctors: vec![],
        methods: vec![],
        virtual_dtor: false,
        classes: vec![],
    }
}

fn ns(name: &str) -> Namespace {
    Namespace {
        name: name.to_string(),
        consts: vec![],
        globals: vec![],
        enums: vec![],
        aliases: vec![],
        functions: vec![],
        classes: vec![],
        namespaces: vec![],
    }
}

fn konst(name: &str, v: i64) -> Const {
    Const { name: name.to_string(), ty: int_ref(), value: Value::Int(v) }
}

fn tree(header: &str, pod: bool) -> Namespace {
    let mut n = ns("");
    n.classes.push(class("Foo", header, pod));
    n.consts.push(konst("LIMIT", if pod { 1 } else { 2 }));
    let mut inner = ns("math");
    inner.classes.push(class("Vec2", header, pod));
    n.namespaces.push(inner);
    n
}

fn summary(n: &Namespace) -> Vec<String> {
    let mut out = vec![format!("ns {}", n.name)];
    for c in &n.consts {
        out.push(format!("const {} {:?}", c.name, c.value));
    }
    for c in &n.classes {
        out.push(format!("class {} {} {}", c.name, c.header, c.is_pod));
    }
    for child in &n.namespaces {
        out.extend(summary(child));
    }
    out
}

#[test]
fn first_declaration_of_a_class_wins() {
    let mut dst = tree("a.h", true);
    dst.merge(tree("b.h", false));
    assert_eq!(dst.classes.iter().filter(|c| c.name == "Foo").count(), 1);
    assert_eq!(dst.classes[0].header, "a.h");
    assert!(dst.classes[0].is_pod);
    assert_eq!(dst.consts[0].value, Value::Int(1));
    assert_eq!(dst.namespaces.len(), 1);
    assert_eq!(dst.namespaces[0].classes[0].header, "a.h");
}

#[test]
fn merging_twice_is_merging_once() {
    let mut once = tree("a.h", true);
    once.merge(tree("b.h", false));
    let mut extra = tree("c.h", false);
    extra.classes.push(class("Bar", "c.h", false));
    extra.namespaces[0].consts.push(konst("EPS", 3));
    once.merge(tree("c.h", false));
    let mut twice = tree("a.h", true);
    twice.merge(tree("b.h", false));
    twice.merge(tree("c.h", false));
    twice.merge(tree("c.h", false));
    assert_eq!(summary(&once), summary(&twice));

    let mut m1 = ns("");
    m1.merge(extra);
    let snapshot = summary(&m1);
    let mut again = tree("c.h", false);
    again.classes.push(class("Bar", "c.h", false));
    again.namespaces[0].consts.push(konst("EPS", 3));
    m1.merge(again);
    assert_eq!(summary(&m1), snapshot);
}

#[test]
fn merge_order_matters() {
    let ab = merge_all(vec![tree("a.h", true), tree("b.h", false)]);
    let ba = merge_all(vec![tree("b.h", false), tree("a.h", true)]);
    assert_eq!(ab.name, "");
    assert_eq!(ab.classes[0].header, "a.h");
    assert_eq!(ba.classes[0].header, "b.h");
    assert_ne!(summary(&ab), summary(&ba));
}

#[test]
fn unmatched_children_are_inserted_whole() {
    let mut dst = ns("");
    let mut src = ns("");
    let mut child = ns("io");
    child.classes.push(class("File", "f.h", false));
    src.namespaces.push(child);
    src.namespaces.push(ns("io"));
    dst.merge(src);
    assert_eq!(dst.namespaces.len(), 1);
    assert_eq!(dst.namespaces[0].classes.len(), 1);
    assert_eq!(dst.namespaces[0].classes[0].name, "File");
}
