use biscuit::cache::{Cache, MessageField};

fn field(name: &str, ty: &str, id: u16) -> MessageField {
    MessageField { field_name: name.to_string(), field_type: ty.to_string(), field_id: id }
}

#[test]
fn fresh_cache_knows_nothing() {
    let cache = Cache::new();
    assert!(!cache.id_known(0));
    assert!(!cache.id_known(7));
    assert!(!cache.name_known("Foo"));
    assert!(cache.known_ids().is_empty());
    assert!(cache.known_names().is_empty());
}

#[test]
fn id_becomes_known_after_one_update_and_stays_known() {
    let mut cache = Cache::new();
    assert!(!cache.id_known(7));
    cache.update("Foo".to_string(), 7, field("a", "uint32", 1));
    assert!(cache.id_known(7));
    cache.update("Bar".to_string(), 9, field("b", "string", 2));
    assert!(cache.id_known(7));
    assert!(cache.id_known(9));
    assert!(!cache.id_known(8));
}

#[test]
fn update_same_name_twice_keeps_single_entry_and_accumulates_fields() {
    let mut cache = Cache::new();
    let f1 = field("first", "uint32", 1);
    let f2 = field("second", "string", 2);
    cache.update("Foo".to_string(), 5, f1);
    cache.update("Foo".to_string(), 5, f2);

    assert_eq!(cache.known_ids().as_slice(), &[5]);
    assert_eq!(cache.known_names().as_slice(), &["Foo".to_string()]);
    assert_eq!(cache.id_map_get(5).unwrap().as_str(), "Foo");

    let fields = cache.message_fields("Foo").unwrap();
    assert_eq!(fields.len(), 2);
    assert_eq!(fields[0].field_name, "first");
    assert_eq!(fields[0].field_type, "uint32");
    assert_eq!(fields[0].field_id, 1);
    assert_eq!(fields[1].field_name, "second");
    assert_eq!(fields[1].field_type, "string");
    assert_eq!(fields[1].field_id, 2);
}

#[test]
fn first_write_wins_for_the_id_mapping() {
    let mut cache = Cache::new();
    let f1 = field("first", "uint32", 1);
    let f2 = field("second", "string", 2);
    cache.update("Foo".to_string(), 5, f1);
    cache.update("Bar".to_string(), 5, f2);

    // The binding stays with the first writer.
    assert_eq!(cache.id_map_get(5).unwrap().as_str(), "Foo");
    assert_eq!(cache.known_ids().as_slice(), &[5]);
    assert_eq!(cache.known_names().as_slice(), &["Foo".to_string()]);
    assert!(!cache.name_known("Bar"));

    // The literal behavior: the field list under the new name still grows.
    let bar_fields = cache.message_fields("Bar").unwrap();
    assert_eq!(bar_fields.len(), 1);
    assert_eq!(bar_fields[0].field_name, "second");
    let foo_fields = cache.message_fields("Foo").unwrap();
    assert_eq!(foo_fields.len(), 1);
    assert_eq!(foo_fields[0].field_name, "first");
}

#[test]
fn name_known_follows_sightings() {
    let mut cache = Cache::new();
    assert!(!cache.name_known("Login"));
    cache.update("Login".to_string(), 42, field("token", "bytes", 1));
    assert!(cache.name_known("Login"));
    assert!(!cache.name_known("login"));
}

#[test]
fn name_map_keeps_the_last_binding() {
    let mut cache = Cache::new();
    cache.update("Foo".to_string(), 5, field("a", "uint32", 1));
    cache.update("Foo".to_string(), 6, field("b", "uint32", 2));
    // The same name was sighted beside two fresh ids: both sightings are
    // recorded, and the name-to-id direction keeps the one written last.
    assert_eq!(cache.known_ids().as_slice(), &[5, 6]);
    assert_eq!(cache.name_map_get("Foo"), Some(6));
    assert_eq!(cache.id_map_get(5).unwrap().as_str(), "Foo");
    assert_eq!(cache.id_map_get(6).unwrap().as_str(), "Foo");
    assert_eq!(cache.name_map_get("Missing"), None);
    assert_eq!(cache.id_map_get(7), None);
}

#[test]
fn snapshot_is_immutable() {
    let mut cache = Cache::new();
    cache.update("Foo".to_string(), 5, field("a", "uint32", 1));
    let snapshot = cache.clone();
    cache.update("Bar".to_string(), 6, field("b", "string", 2));

    assert!(cache.id_known(6));
    assert!(!snapshot.id_known(6));
    assert_eq!(snapshot.known_ids().as_slice(), &[5]);
    assert!(snapshot.message_fields("Bar").is_none());
}

#[test]
fn default_cache_is_empty() {
    let cache = Cache::default();
    assert!(cache.known_ids().is_empty());
    assert!(cache.known_names().is_empty());
    assert!(!cache.id_known(1));
}
