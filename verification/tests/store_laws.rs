use kvmigrate::MemStore;
use kvmigrate::PlanOutcome;
use kvmigrate::Scalar;
use kvmigrate::SourceValue;
use kvmigrate::plan_migration;

fn text(s: &str) -> Scalar {
    Scalar::Text(s.to_string())
}

fn migrate_once(dest: &mut MemStore, key: &String, v: &SourceValue) {
    match plan_migration(key, v) {
        PlanOutcome::Writes(ops) => dest.apply_plan(&ops),
        PlanOutcome::Unsupported => panic!("value must be plannable"),
    }
}

#[test]
fn string_migration_is_idempotent() {
    let key = "s".to_string();
    let v = SourceValue::StrVal("payload".to_string());
    let mut dest = MemStore::new();
    migrate_once(&mut dest, &key, &v);
    migrate_once(&mut dest, &key, &v);
    let stored = dest.get_scalar(&key).expect("key must hold a scalar");
    assert!(stored.content_eq(&text("payload")));
}

#[test]
fn set_migration_is_idempotent() {
    let key = "colours".to_string();
    let v = SourceValue::SetVal(vec!["red".to_string(), "blue".to_string()]);
    let mut dest = MemStore::new();
    migrate_once(&mut dest, &key, &v);
    migrate_once(&mut dest, &key, &v);
    assert!(dest.set_contains(&key, &text("red")));
    assert!(dest.set_contains(&key, &text("blue")));
    assert!(!dest.set_contains(&key, &text("green")));
}

#[test]
fn hash_migration_is_idempotent() {
    let key = "user".to_string();
    let v = SourceValue::HashVal(vec![
        ("name".to_string(), "ada".to_string()),
        ("age".to_string(), "36".to_string()),
    ]);
    let mut dest = MemStore::new();
    migrate_once(&mut dest, &key, &v);
    migrate_once(&mut dest, &key, &v);
    let name = dest.get_field(&key, &"name".to_string()).expect("field must exist");
    assert!(name.content_eq(&text("ada")));
    let age = dest.get_field(&key, &"age".to_string()).expect("field must exist");
    assert!(age.content_eq(&text("36")));
    assert!(dest.get_field(&key, &"missing".to_string()).is_none());
}

#[test]
fn list_migration_twice_doubles_the_destination() {
    let key = "queue".to_string();
    let v = SourceValue::ListVal(vec!["x".to_string(), "y".to_string(), "z".to_string()]);
    let mut dest = MemStore::new();
    migrate_once(&mut dest, &key, &v);
    let once = dest.get_list(&key).expect("key must hold a list");
    assert_eq!(once.len(), 3);
    migrate_once(&mut dest, &key, &v);
    let twice = dest.get_list(&key).expect("key must hold a list");
    assert_eq!(twice.len(), 6);
    for (i, want) in ["x", "y", "z", "x", "y", "z"].iter().enumerate() {
        assert!(twice[i].content_eq(&text(want)));
    }
}

#[test]
fn list_order_is_preserved() {
    let key = "ordered".to_string();
    let v = SourceValue::ListVal(vec!["a".to_string(), "b".to_string(), "c".to_string()]);
    let mut dest = MemStore::new();
    migrate_once(&mut dest, &key, &v);
    let items = dest.get_list(&key).expect("key must hold a list");
    assert_eq!(items.len(), 3);
    assert!(items[0].content_eq(&text("a")));
    assert!(items[1].content_eq(&text("b")));
    assert!(items[2].content_eq(&text("c")));
}

#[test]
fn hash_fields_migrate_faithfully_in_either_order() {
    let v1 = SourceValue::HashVal(vec![
        ("a".to_string(), "1".to_string()),
        ("b".to_string(), "2".to_string()),
    ]);
    let v2 = SourceValue::HashVal(vec![
        ("b".to_string(), "2".to_string()),
        ("a".to_string(), "1".to_string()),
    ]);
    let key = "h".to_string();
    for v in [v1, v2] {
        let mut dest = MemStore::new();
        migrate_once(&mut dest, &key, &v);
        let a = dest.get_field(&key, &"a".to_string()).expect("field a must exist");
        assert!(a.content_eq(&text("1")));
        let b = dest.get_field(&key, &"b".to_string()).expect("field b must exist");
        assert!(b.content_eq(&text("2")));
        assert!(dest.get_field(&key, &"c".to_string()).is_none());
    }
}

#[test]
fn string_overwrites_whatever_was_there() {
    let key = "k".to_string();
    let mut dest = MemStore::new();
    migrate_once(&mut dest, &key, &SourceValue::StrVal("old".to_string()));
    migrate_once(&mut dest, &key, &SourceValue::StrVal("new".to_string()));
    let stored = dest.get_scalar(&key).expect("key must hold a scalar");
    assert!(stored.content_eq(&text("new")));
    assert!(!stored.content_eq(&text("old")));
}

#[test]
fn distinct_keys_do_not_interfere() {
    let mut dest = MemStore::new();
    migrate_once(&mut dest, &"one".to_string(), &SourceValue::StrVal("1".to_string()));
    migrate_once(
        &mut dest,
        &"two".to_string(),
        &SourceValue::ListVal(vec!["a".to_string()]),
    );
    let one = dest.get_scalar(&"one".to_string()).expect("scalar");
    assert!(one.content_eq(&text("1")));
    let two = dest.get_list(&"two".to_string()).expect("list");
    assert_eq!(two.len(), 1);
}
