use gdrs_parse::ast::{CType, CTypeKind, Entity, EntityKind, Evaluation};
use gdrs_parse::diag::Reason;
use gdrs_parse::paths::is_vendored;
use gdrs_parse::schema::Value;
use gdrs_parse::value::parse_value;

fn expr(kind: CTypeKind, ev: Evaluation) -> Entity {
    let mut e = Entity::new(EntityKind::Other);
    e.ty = Some(CType::new(kind, "t".to_string()));
    e.evaluation = Some(ev);
    e
}

#[test]
fn integers_follow_the_declared_signedness() {
    let mut diags = Vec::new();
    assert_eq!(parse_value(&expr(CTypeKind::UInt, Evaluation::Signed(-1)), &mut diags), Some(Value::UInt(u64::MAX)));
    assert_eq!(parse_value(&expr(CTypeKind::Bool, Evaluation::Signed(1)), &mut diags), Some(Value::UInt(1)));
    assert_eq!(parse_value(&expr(CTypeKind::Long, Evaluation::Unsigned(u64::MAX)), &mut diags), Some(Value::Int(-1)));
    assert_eq!(parse_value(&expr(CTypeKind::WChar, Evaluation::Signed(65)), &mut diags), Some(Value::Int(65)));
    assert!(diags.is_empty());
}

#[test]
fn floats_follow_the_declared_width() {
    let mut diags = Vec::new();
    let ev = Evaluation::Float { double_bits: 1.5f64.to_bits(), single_bits: 1.5f32.to_bits() };
    assert_eq!(parse_value(&expr(CTypeKind::Float, ev.clone()), &mut diags), Some(Value::Float(1.5f32.to_bits())));
    assert_eq!(parse_value(&expr(CTypeKind::Double, ev), &mut diags), Some(Value::Double(1.5f64.to_bits())));
}

#[test]
fn strings_are_kept() {
    let mut diags = Vec::new();
    let v = parse_value(&expr(CTypeKind::Other, Evaluation::Str("hi".to_string())), &mut diags);
    assert_eq!(v, Some(Value::String("hi".to_string())));
}

#[test]
fn other_results_give_no_value() {
    let mut diags = Vec::new();
    assert_eq!(parse_value(&expr(CTypeKind::Int, Evaluation::Other), &mut diags), None);
    assert_eq!(parse_value(&expr(CTypeKind::Typedef, Evaluation::Signed(3)), &mut diags), None);
    assert_eq!(diags.len(), 2);
    assert_eq!(diags[0].reason, Reason::UnsupportedEvaluation);
    let mut bare = Entity::new(EntityKind::Other);
    bare.evaluation = Some(Evaluation::Signed(1));
    assert_eq!(parse_value(&bare, &mut diags), None);
    assert_eq!(diags.len(), 2);
}

#[test]
fn vendored_paths() {
    assert!(is_vendored(&"/tmp/x/unity.cpp".to_string()));
    assert!(!is_vendored(&"/tmp/x/.cpp".to_string()));
    assert!(is_vendored(&"thirdparty/a.h".to_string()));
    assert!(is_vendored(&"/src/thirdparty".to_string()));
    assert!(is_vendored(&"/src/thirdparty/b/c.h".to_string()));
    assert!(!is_vendored(&"/src/mythirdparty/c.h".to_string()));
    assert!(!is_vendored(&"/src/core/object.h".to_string()));
    assert!(!is_vendored(&"/src/core/object.cpp.h".to_string()));
}

#[test]
fn reasons_have_words() {
    assert_eq!(Reason::MultipleInheritance.describe(), "Multiple inheritance");
    assert_eq!(Reason::PrivatePodField.describe(), "Private POD field");
    assert_eq!(Reason::NonPublicInheritance.describe(), "Non-public inheritance");
    assert_eq!(Reason::UnsupportedAliasType.describe(), "Unsupported alias type");
}
