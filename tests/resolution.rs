use virtual_machine::functions::FunctionBuilder;
use virtual_machine::resolution::{FullIdentifier, Identifier, IllegalCharacterInIdentifier, Resolvable};

fn id(s: &str) -> Identifier {
    Identifier::new(s.to_string()).unwrap()
}

fn path(names: &[&str]) -> FullIdentifier {
    FullIdentifier::from_names(names.iter().map(|n| id(n)).collect())
}

#[test]
fn detect_valid_identifiers() {
    id("x1");
    id("_x");
    id("_1");
    id("lights_on");
}

#[test]
fn numeral_first_is_rejected() {
    assert_eq!(Identifier::new("1x".to_string()).err(), Some(IllegalCharacterInIdentifier('1')));
}

#[test]
fn spaces_are_rejected() {
    assert_eq!(Identifier::new("1 x".to_string()).err(), Some(IllegalCharacterInIdentifier('1')));
    assert_eq!(Identifier::new("x y".to_string()).err(), Some(IllegalCharacterInIdentifier(' ')));
}

#[test]
fn illegal_chars_are_rejected() {
    assert_eq!(Identifier::new("x#".to_string()).err(), Some(IllegalCharacterInIdentifier('#')));
}

#[test]
fn full_identifiers() {
    let namespaced = path(&["std", "Object"]);
    let namespaced_str = namespaced.to_path_string();
    assert_eq!(&*namespaced_str, "std::Object");

    let triple_namespaced = FullIdentifier::Namespaced(id("modular"), Box::new(namespaced));
    let namespaced_str = triple_namespaced.to_path_string();
    assert_eq!(&*namespaced_str, "modular::std::Object");
}

#[test]
fn identifier_equality() {
    let vec1 = path(&["std", "Object"]);
    let vec2 = path(&["std", "Object"]);
    assert_eq!(vec1, vec2);
    assert_ne!(vec1, path(&["std", "Other"]));
}

#[test]
fn is_sub_identifier() {
    let long = path(&["std", "Object", "hash_code"]);
    let short = path(&["std", "Object"]);
    assert!(short.is_sub_identifier_of(&long));
    assert!(long.other_is_sub_identifier(&short));
    assert!(!long.is_sub_identifier_of(&short));
}

#[test]
fn get_pos_sub_identifier() {
    let long = path(&["std", "Object", "hash_code"]);
    let short = path(&["std", "Object"]);

    assert_eq!(long.clone().remove(&short), Ok(Some(path(&["hash_code"]))));
    assert_eq!(long.clone().remove(&long), Ok(None));
    assert_eq!(short.remove(&long), Err(()));
}

#[test]
fn remove_keeps_longer_suffix() {
    let long = path(&["a", "b", "c", "d"]);
    assert_eq!(long.remove(&path(&["a"])), Ok(Some(path(&["b", "c", "d"]))));
    assert_eq!(path(&["a", "b"]).remove(&path(&["b"])), Err(()));
}

#[test]
fn get_name_is_innermost() {
    let long = path(&["std", "Object", "hash_code"]);
    assert_eq!(long.get_name(), &id("hash_code"));
}

#[test]
fn empty_name_is_rejected() {
    assert_eq!(Identifier::new(String::new()).err(), Some(IllegalCharacterInIdentifier('\0')));
}

#[test]
fn can_build() {
    let function = FunctionBuilder::with_name(FullIdentifier::Name(id("get")))
        .no_parameters()
        .with_instructions(vec![])
        .build();

    assert_eq!(function.get_identifier().to_path_string(), "get");
    assert!(function.get_parameters().is_empty());
    assert!(function.get_ret_type().is_none());
}
