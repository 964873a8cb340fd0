use form_cache::form::{has_field_name, invalid_keys, Field, FieldType, FormData};

fn fields_xy() -> Vec<Field> {
    vec![
        Field { name: "x".to_string(), field_type: FieldType::String },
        Field { name: "y".to_string(), field_type: FieldType::Boolean },
    ]
}

#[test]
fn invalid_keys_keeps_offenders_in_order() {
    let keys = vec![
        "x".to_string(),
        "extra".to_string(),
        "y".to_string(),
        "other".to_string(),
    ];
    let bad = invalid_keys(&keys, &fields_xy());
    assert_eq!(bad, vec!["extra".to_string(), "other".to_string()]);
}

#[test]
fn invalid_keys_is_empty_for_a_declared_subset() {
    let keys = vec!["y".to_string()];
    assert!(invalid_keys(&keys, &fields_xy()).is_empty());
    let none: Vec<String> = Vec::new();
    assert!(invalid_keys(&none, &fields_xy()).is_empty());
}

#[test]
fn invalid_keys_without_declared_fields_rejects_everything() {
    let keys = vec!["x".to_string(), "y".to_string()];
    let empty: Vec<Field> = Vec::new();
    let bad = invalid_keys(&keys, &empty);
    assert_eq!(bad, keys);
}

#[test]
fn has_field_name_matches_exactly() {
    let fs = fields_xy();
    assert!(has_field_name(&fs, "x"));
    assert!(has_field_name(&fs, "y"));
    assert!(!has_field_name(&fs, "z"));
    assert!(!has_field_name(&fs, "xx"));
    assert!(!has_field_name(&fs, ""));
}

#[test]
fn expiry_check_is_inclusive_and_optional() {
    let with_expiry = FormData { id: None, fields: Vec::new(), expires_at: Some(100) };
    assert!(!with_expiry.expired_at(99));
    assert!(with_expiry.expired_at(100));
    assert!(with_expiry.expired_at(101));
    let without = FormData { id: None, fields: Vec::new(), expires_at: None };
    assert!(!without.expired_at(i64::MAX));
}
