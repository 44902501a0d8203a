use authz_core::key::Key;
use authz_core::text::{chars_of, contains_char, same_text, split, starts_with};
use authz_core::value::{clone_strings, has_text, FieldMap, Value};

#[test]
fn field_map_binds_and_rebinds() {
    let mut fields = FieldMap::new();
    assert_eq!(fields.get("a"), None);
    assert_eq!(fields.names(), Vec::<String>::new());
    fields.insert("a", Value::Number(1));
    fields.insert("b", Value::Bool(true));
    fields.insert("a", Value::String("x".to_string()));
    assert_eq!(fields.get("a"), Some(&Value::String("x".to_string())));
    assert_eq!(fields.get("b"), Some(&Value::Bool(true)));
    assert_eq!(fields.get("c"), None);
    assert_eq!(fields.names(), vec!["a".to_string(), "b".to_string()]);
    let copy = fields.clone();
    fields.remove("a");
    assert_eq!(fields.get("a"), None);
    assert_eq!(fields.get("b"), Some(&Value::Bool(true)));
    assert_eq!(fields.names(), vec!["b".to_string()]);
    fields.remove("zzz");
    assert_eq!(fields.names(), vec!["b".to_string()]);
    assert_eq!(copy.get("a"), Some(&Value::String("x".to_string())));
}

#[test]
fn names_keep_the_order_of_first_binding() {
    let mut fields = FieldMap::new();
    for name in ["c", "a", "b", "a", "c", "d"] {
        fields.insert(name, Value::Null);
    }
    assert_eq!(fields.names(), vec!["c", "a", "b", "d"]);
    assert_eq!(fields.clone().names(), vec!["c", "a", "b", "d"]);
    fields.remove("a");
    assert_eq!(fields.names(), vec!["c", "b", "d"]);
    fields.insert("a", Value::Null);
    assert_eq!(fields.names(), vec!["c", "b", "d", "a"]);
}

#[test]
fn values_are_copied_whole() {
    for value in [
        Value::Null,
        Value::Bool(false),
        Value::Number(-5),
        Value::String("é".to_string()),
        Value::List(vec!["a".to_string(), "".to_string()]),
    ] {
        assert_eq!(value.clone(), value);
    }
    let list = vec!["a".to_string(), "b".to_string()];
    assert_eq!(clone_strings(&list), list);
    assert!(has_text(&list, "b"));
    assert!(!has_text(&list, "c"));
}

#[test]
fn text_helpers() {
    assert_eq!(chars_of("aé:"), vec!['a', 'é', ':']);
    assert!(contains_char(&vec!['a', '@'], '@'));
    assert!(!contains_char(&vec![], '@'));
    assert!(same_text("ab", "ab"));
    assert!(!same_text("ab", "abc"));
    assert!(starts_with("abc", "ab"));
    assert!(starts_with("abc", ""));
    assert!(starts_with("abc", "abc"));
    assert!(!starts_with("abc", "abcd"));
    assert!(!starts_with("abc", "b"));
}

#[test]
fn split_keeps_empty_fields() {
    let parts = |s: &str| split(&chars_of(s), ':');
    assert_eq!(parts(""), vec![""]);
    assert_eq!(parts("a"), vec!["a"]);
    assert_eq!(parts("a:b"), vec!["a", "b"]);
    assert_eq!(parts(":"), vec!["", ""]);
    assert_eq!(parts("a::b:"), vec!["a", "", "b", ""]);
    assert_eq!(parts("é:ü"), vec!["é", "ü"]);
    for s in ["", ":", "a:b:c", "::a", "no colon"] {
        assert_eq!(parts(s), s.split(':').collect::<Vec<_>>());
    }
}

#[test]
fn keys_name_what_they_hold() {
    let pk: Key<u8, char> = Key::Pk(1);
    let sk: Key<u8, char> = Key::Sk('x');
    let both: Key<u8, char> = Key::Both(2, 'y');
    assert_ne!(pk, both);
    assert_eq!(sk, Key::Sk('x'));
}
