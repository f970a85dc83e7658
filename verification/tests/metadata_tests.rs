use eventstore::metadata::{CustomProperties, StreamAcl, StreamMetadata, StreamMetadataBuilder};
use serde_json::Value;
use std::time::Duration;

#[test]
fn builder_sets_fields() {
    let acl = StreamAcl { read_roles: Some(vec!["$all".to_string()]), ..StreamAcl::default() };
    let m = StreamMetadata::builder()
        .max_count(10)
        .max_age(Duration::from_secs(60))
        .truncate_before(3)
        .cache_control(Duration::from_secs(5))
        .acl(acl)
        .insert_custom_property("owner".to_string(), Value::String("me".to_string()))
        .build();
    assert_eq!(m.max_count, Some(10));
    assert_eq!(m.max_age, Some(Duration::from_secs(60)));
    assert_eq!(m.truncate_before, Some(3));
    assert_eq!(m.cache_control, Some(Duration::from_secs(5)));
    assert_eq!(m.acl.read_roles, Some(vec!["$all".to_string()]));
    assert!(m.acl.write_roles.is_none());
    assert_eq!(m.custom_properties.len(), 1);
    assert_eq!(m.custom_properties.get(&"owner".to_string()), Some(&Value::String("me".to_string())));
}

#[test]
fn empty_builder_builds_unset_metadata() {
    let m = StreamMetadataBuilder::new().build();
    assert!(m.max_count.is_none() && m.max_age.is_none());
    assert!(m.truncate_before.is_none() && m.cache_control.is_none());
    assert!(m.acl.read_roles.is_none() && m.acl.meta_write_roles.is_none());
    assert_eq!(m.custom_properties.len(), 0);
    let d = StreamMetadata::default();
    assert!(d.max_count.is_none());
    assert_eq!(d.custom_properties.len(), 0);
}

#[test]
fn custom_property_replaces_same_key() {
    let mut p = CustomProperties::new();
    assert_eq!(p.insert("a".to_string(), Value::Bool(true)), None);
    assert_eq!(p.insert("b".to_string(), Value::Bool(false)), None);
    assert_eq!(p.insert("a".to_string(), Value::Null), Some(Value::Bool(true)));
    assert_eq!(p.len(), 2);
    assert_eq!(p.get(&"a".to_string()), Some(&Value::Null));
    assert_eq!(p.get(&"c".to_string()), None);
}

#[test]
fn chained_custom_properties_keep_last_value_per_key() {
    let m = StreamMetadataBuilder::new()
        .max_count(4)
        .max_age(Duration::from_secs(9))
        .truncate_before(2)
        .cache_control(Duration::from_secs(1))
        .insert_custom_property("a".to_string(), Value::from(1))
        .insert_custom_property("b".to_string(), Value::from(2))
        .insert_custom_property("a".to_string(), Value::from(3))
        .build();
    assert_eq!(m.max_count, Some(4));
    assert_eq!(m.max_age, Some(Duration::from_secs(9)));
    assert_eq!(m.truncate_before, Some(2));
    assert_eq!(m.cache_control, Some(Duration::from_secs(1)));
    assert!(m.acl.read_roles.is_none() && m.acl.write_roles.is_none() && m.acl.delete_roles.is_none());
    assert!(m.acl.meta_read_roles.is_none() && m.acl.meta_write_roles.is_none());
    assert_eq!(m.custom_properties.len(), 2);
    assert_eq!(m.custom_properties.get(&"a".to_string()), Some(&Value::from(3)));
    assert_eq!(m.custom_properties.get(&"b".to_string()), Some(&Value::from(2)));
    assert_eq!(m.custom_properties.get(&"c".to_string()), None);
}
