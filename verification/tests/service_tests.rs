use form_cache::cache::LRUCache;
use form_cache::digits::u64_to_decimal;
use form_cache::form::{Field, FieldType, FormData};
use form_cache::service::{
    create_form_at, create_form_now, read_form, read_form_now, submit_item_at,
    submit_item_now, SubmitOutcome, HOUR_MILLIS,
};

fn name_age_fields() -> Vec<Field> {
    vec![
        Field { name: "name".to_string(), field_type: FieldType::String },
        Field { name: "age".to_string(), field_type: FieldType::Number },
    ]
}

#[test]
fn decimal_rendering_is_exact() {
    assert_eq!(u64_to_decimal(0), "0");
    assert_eq!(u64_to_decimal(7), "7");
    assert_eq!(u64_to_decimal(1234), "1234");
    assert_eq!(u64_to_decimal(9876543210), "9876543210");
    assert_eq!(u64_to_decimal(1000000), "1000000");
}

#[test]
fn create_form_generates_time_based_id_and_defaults() {
    let mut forms: LRUCache<FormData> = LRUCache::new(5);
    let payload = FormData { id: None, fields: name_age_fields(), expires_at: None };
    let now: i64 = 12345;
    let id = create_form_at(&mut forms, payload, now);
    assert_eq!(id, "12345");
    let stored = read_form(&mut forms, &id, now).expect("freshly created form is readable");
    assert_eq!(stored.id.as_deref(), Some("12345"));
    assert_eq!(stored.expires_at, Some(now + HOUR_MILLIS));
    assert_eq!(stored.fields.len(), 2);
    assert_eq!(stored.fields[0].name, "name");
}

#[test]
fn create_form_keeps_given_id_and_expiry() {
    let mut forms: LRUCache<FormData> = LRUCache::new(5);
    let payload = FormData {
        id: Some("chosen".to_string()),
        fields: name_age_fields(),
        expires_at: Some(999),
    };
    let now: i64 = 50;
    let id = create_form_at(&mut forms, payload, now);
    assert_eq!(id, "50");
    let stored = read_form(&mut forms, "50", now).expect("form is stored under the generated id");
    assert_eq!(stored.id.as_deref(), Some("chosen"));
    assert_eq!(stored.expires_at, Some(999));
}

#[test]
fn expired_entry_is_purged_on_read() {
    let mut forms: LRUCache<FormData> = LRUCache::new(5);
    let now: i64 = 10_000_000;
    let payload = FormData {
        id: None,
        fields: name_age_fields(),
        expires_at: Some(now - HOUR_MILLIS),
    };
    let id = create_form_at(&mut forms, payload, now);
    assert_eq!(forms.len(), 1);
    assert!(read_form(&mut forms, &id, now).is_none());
    assert_eq!(forms.len(), 0);
    assert!(read_form(&mut forms, &id, now).is_none());
    assert!(read_form(&mut forms, &id, now - 2 * HOUR_MILLIS).is_none());
}

#[test]
fn expiry_boundary_is_inclusive() {
    let mut forms: LRUCache<FormData> = LRUCache::new(5);
    let now: i64 = 1000;
    let payload = FormData { id: None, fields: name_age_fields(), expires_at: None };
    let id = create_form_at(&mut forms, payload, now);
    assert!(read_form(&mut forms, &id, now + HOUR_MILLIS - 1).is_some());
    assert!(read_form(&mut forms, &id, now + HOUR_MILLIS).is_none());
    assert_eq!(forms.len(), 0);
}

#[test]
fn submit_against_absent_form_is_not_found() {
    let mut forms: LRUCache<FormData> = LRUCache::new(5);
    let mut payloads: LRUCache<i64> = LRUCache::new(5);
    let keys = vec!["name".to_string()];
    let r = submit_item_at(&mut forms, &mut payloads, "nope", &keys, 1, 77);
    assert!(matches!(r, SubmitOutcome::NotFound));
    assert_eq!(payloads.len(), 0);
}

#[test]
fn submit_against_expired_form_is_not_found_and_purges() {
    let mut forms: LRUCache<FormData> = LRUCache::new(5);
    let mut payloads: LRUCache<i64> = LRUCache::new(5);
    let now: i64 = 5_000_000;
    let payload = FormData { id: None, fields: name_age_fields(), expires_at: Some(now - 1) };
    let id = create_form_at(&mut forms, payload, now);
    let keys = vec!["name".to_string()];
    let r = submit_item_at(&mut forms, &mut payloads, &id, &keys, 1, now);
    assert!(matches!(r, SubmitOutcome::NotFound));
    assert_eq!(forms.len(), 0);
    assert_eq!(payloads.len(), 0);
}

#[test]
fn submit_with_undeclared_keys_is_rejected() {
    let mut forms: LRUCache<FormData> = LRUCache::new(5);
    let mut payloads: LRUCache<i64> = LRUCache::new(5);
    let now: i64 = 42;
    let payload = FormData { id: None, fields: name_age_fields(), expires_at: None };
    let id = create_form_at(&mut forms, payload, now);
    let keys = vec!["name".to_string(), "age".to_string(), "extra".to_string()];
    let r = submit_item_at(&mut forms, &mut payloads, &id, &keys, 1, now + 1);
    match r {
        SubmitOutcome::Invalid(bad) => assert_eq!(bad, vec!["extra".to_string()]),
        other => panic!("expected a validation rejection, got {:?}", other),
    }
    assert_eq!(payloads.len(), 0);
}

#[test]
fn submit_with_declared_subset_is_accepted() {
    let mut forms: LRUCache<FormData> = LRUCache::new(5);
    let mut payloads: LRUCache<i64> = LRUCache::new(5);
    let now: i64 = 42;
    let payload = FormData { id: None, fields: name_age_fields(), expires_at: None };
    let id = create_form_at(&mut forms, payload, now);
    let keys = vec!["name".to_string()];
    let submit_now: i64 = now + 5;
    let r = submit_item_at(&mut forms, &mut payloads, &id, &keys, 314, submit_now);
    match r {
        SubmitOutcome::Created(data_id) => {
            assert_eq!(data_id, "47");
            assert_eq!(payloads.get(&data_id), Some(&314));
        }
        other => panic!("expected a created outcome, got {:?}", other),
    }
}

#[test]
fn reading_a_form_protects_it_from_eviction() {
    let mut forms: LRUCache<FormData> = LRUCache::new(2);
    let fields = name_age_fields();
    for now in 1..=2i64 {
        let payload = FormData {
            id: None,
            fields: fields.iter().map(|f| f.duplicate()).collect(),
            expires_at: None,
        };
        create_form_at(&mut forms, payload, now);
    }
    assert!(read_form(&mut forms, "1", 3).is_some());
    let payload = FormData { id: None, fields, expires_at: None };
    create_form_at(&mut forms, payload, 3);
    assert!(read_form(&mut forms, "2", 4).is_none());
    assert!(read_form(&mut forms, "1", 4).is_some());
    assert!(read_form(&mut forms, "3", 4).is_some());
}

#[test]
fn wall_clock_round_trip() {
    let mut forms: LRUCache<FormData> = LRUCache::new(5);
    let mut payloads: LRUCache<i64> = LRUCache::new(5);
    let payload = FormData { id: None, fields: name_age_fields(), expires_at: None };
    let id = create_form_now(&mut forms, payload).expect("the clock reading fits");
    let parsed: u64 = id.parse().expect("the generated id is decimal");
    assert!(parsed > 0);
    let stored = read_form_now(&mut forms, &id).expect("a fresh form has an hour to live");
    assert_eq!(stored.id.as_deref(), Some(id.as_str()));
    let keys = vec!["age".to_string()];
    let r = submit_item_now(&mut forms, &mut payloads, &id, &keys, 9);
    match r {
        SubmitOutcome::Created(data_id) => {
            assert_eq!(payloads.get(&data_id), Some(&9));
        }
        other => panic!("expected a created outcome, got {:?}", other),
    }
}

#[test]
fn duplicate_copies_every_field() {
    let f = FormData {
        id: Some("i".to_string()),
        fields: name_age_fields(),
        expires_at: Some(7),
    };
    let g = f.duplicate();
    assert_eq!(g.id, f.id);
    assert_eq!(g.expires_at, f.expires_at);
    assert_eq!(g.fields.len(), f.fields.len());
    assert_eq!(g.fields[1].name, "age");
    assert!(matches!(g.fields[1].field_type, FieldType::Number));
}
