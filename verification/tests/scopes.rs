use crab::bindings::Bindings;
use crab::environment::Environment;
use crab::types::Object;
use crab::types::Type;

#[test]
fn set_declares_in_the_innermost_frame() {
    let mut bindings = Bindings::new();
    bindings.set("x".to_string(), Type::Number);
    assert_eq!(bindings.get("x"), Some(Type::Number));
    bindings.extend();
    bindings.set("x".to_string(), Type::Boolean);
    assert_eq!(bindings.get("x"), Some(Type::Boolean));
    bindings.retract();
    assert_eq!(bindings.get("x"), Some(Type::Number));
}

#[test]
fn get_walks_outward() {
    let mut bindings = Bindings::new();
    bindings.set("outer".to_string(), Type::String);
    bindings.extend();
    assert_eq!(bindings.get("outer"), Some(Type::String));
    assert_eq!(bindings.get("missing"), None);
}

#[test]
fn reset_overwrites_the_nearest_declaring_frame() {
    let mut bindings = Bindings::new();
    bindings.set("x".to_string(), Type::Number);
    bindings.extend();
    bindings.reset("x".to_string(), Type::Boolean);
    bindings.retract();
    assert_eq!(bindings.get("x"), Some(Type::Boolean));
}

#[test]
fn reset_of_an_undeclared_name_is_dropped() {
    let mut bindings = Bindings::new();
    bindings.reset("ghostly".to_string(), Type::Number);
    assert_eq!(bindings.get("ghostly"), None);
}

#[test]
fn environment_holds_values() {
    let mut environment = Environment::new();
    environment.set("v".to_string(), Object::Number(3));
    match environment.get("v") {
        Some(Object::Number(n)) => assert_eq!(n, 3),
        other => panic!("unexpected {:?}", other),
    }
    environment.extend();
    environment.set("v".to_string(), Object::Boolean(true));
    assert!(matches!(environment.get("v"), Some(Object::Boolean(true))));
    environment.retract();
    assert!(matches!(environment.get("v"), Some(Object::Number(3))));
}

#[test]
fn values_render_as_printed() {
    assert_eq!(Object::Unit.render(), "()");
    assert_eq!(Object::Number(-42).render(), "-42");
    assert_eq!(Object::Number(0).render(), "0");
    assert_eq!(Object::Boolean(true).render(), "true");
    assert_eq!(Object::String("hi".to_string()).render(), "hi");
}

#[test]
fn types_have_zero_values() {
    assert!(matches!(Type::Unit.default(), Object::Unit));
    assert!(matches!(Type::Number.default(), Object::Number(0)));
    assert!(matches!(Type::Boolean.default(), Object::Boolean(false)));
    let Object::String(s) = Type::String.default() else {
        panic!("expected a string");
    };
    assert_eq!(s, "");
}

#[test]
fn object_equality_is_by_tag_and_payload() {
    assert!(Object::Number(2).equals(&Object::Number(2)));
    assert!(!Object::Number(2).equals(&Object::Number(3)));
    assert!(!Object::Number(0).equals(&Object::Unit));
    assert!(Object::String("a".to_string()).equals(&Object::String("a".to_string())));
    assert!(!Object::String("a".to_string()).equals(&Object::String("b".to_string())));
}
