use kvmigrate::KeyRead;
use kvmigrate::MemStore;
use kvmigrate::MigrationError;
use kvmigrate::RawValue;
use kvmigrate::Scalar;
use kvmigrate::SourceValue;
use kvmigrate::migrate_batch_into;
use kvmigrate::summarize;

fn ok_string(key: &str, value: &str) -> KeyRead {
    (key.to_string(), Ok(SourceValue::StrVal(value.to_string())))
}

#[test]
fn one_bad_key_is_isolated_from_the_rest() {
    let reads: Vec<KeyRead> = vec![
        ok_string("alpha", "1"),
        ok_string("beta", "2"),
        ("broken".to_string(), Err(MigrationError::SourceRead)),
        ok_string("gamma", "3"),
        ok_string("delta", "4"),
    ];
    let mut dest = MemStore::new();
    let outcomes = migrate_batch_into(&mut dest, &reads);
    assert_eq!(outcomes.len(), 5);

    let summary = summarize(&outcomes);
    assert_eq!(summary.migrated, 4);
    assert_eq!(summary.failures.len(), 1);
    assert_eq!(summary.failures[0].key, "broken");
    assert_eq!(summary.failures[0].result, Err(MigrationError::SourceRead));

    // The four healthy keys were all written; the failed one was not.
    for key in ["alpha", "beta", "gamma", "delta"] {
        assert!(dest.has_key(&key.to_string()));
    }
    assert!(!dest.has_key(&"broken".to_string()));
}

#[test]
fn a_clean_batch_counts_every_key_and_reports_none() {
    let reads: Vec<KeyRead> = vec![ok_string("a", "1"), ok_string("b", "2")];
    let mut dest = MemStore::new();
    let outcomes = migrate_batch_into(&mut dest, &reads);
    let summary = summarize(&outcomes);
    assert_eq!(summary.migrated, 2);
    assert!(summary.failures.is_empty());
}

#[test]
fn a_nil_fallback_is_reported_unsupported_and_writes_nothing() {
    let reads: Vec<KeyRead> = vec![
        ("ghost".to_string(), Ok(SourceValue::RawVal(RawValue::NilRaw))),
        ok_string("real", "here"),
    ];
    let mut dest = MemStore::new();
    let outcomes = migrate_batch_into(&mut dest, &reads);
    let summary = summarize(&outcomes);
    assert_eq!(summary.migrated, 1);
    assert_eq!(summary.failures.len(), 1);
    assert_eq!(summary.failures[0].key, "ghost");
    assert_eq!(summary.failures[0].result, Err(MigrationError::Unsupported));
    assert!(!dest.has_key(&"ghost".to_string()));
    assert!(dest.has_key(&"real".to_string()));
}

#[test]
fn every_kind_of_value_lands_with_its_type() {
    let reads: Vec<KeyRead> = vec![
        ok_string("s", "v"),
        ("l".to_string(), Ok(SourceValue::ListVal(vec!["a".to_string(), "b".to_string()]))),
        ("m".to_string(), Ok(SourceValue::SetVal(vec!["x".to_string()]))),
        (
            "h".to_string(),
            Ok(SourceValue::HashVal(vec![("f".to_string(), "w".to_string())])),
        ),
    ];
    let mut dest = MemStore::new();
    let outcomes = migrate_batch_into(&mut dest, &reads);
    assert_eq!(summarize(&outcomes).migrated, 4);

    assert!(dest.get_scalar(&"s".to_string()).is_some());
    let l = dest.get_list(&"l".to_string()).expect("list");
    assert_eq!(l.len(), 2);
    assert!(dest.set_contains(&"m".to_string(), &Scalar::Text("x".to_string())));
    assert!(dest.get_field(&"h".to_string(), &"f".to_string()).is_some());
}

#[test]
fn every_error_kind_is_counted_as_a_failure() {
    let outcomes = vec![
        kvmigrate::KeyOutcome { key: "a".to_string(), result: Err(MigrationError::Connection) },
        kvmigrate::KeyOutcome { key: "b".to_string(), result: Err(MigrationError::SourceRead) },
        kvmigrate::KeyOutcome {
            key: "c".to_string(),
            result: Err(MigrationError::DestinationWrite),
        },
        kvmigrate::KeyOutcome { key: "d".to_string(), result: Err(MigrationError::Unsupported) },
        kvmigrate::KeyOutcome { key: "e".to_string(), result: Ok(()) },
    ];
    let summary = summarize(&outcomes);
    assert_eq!(summary.migrated, 1);
    assert_eq!(summary.failures.len(), 4);
    assert_eq!(summary.failures[0].key, "a");
    assert_eq!(summary.failures[1].key, "b");
    assert_eq!(summary.failures[2].key, "c");
    assert_eq!(summary.failures[3].key, "d");
    assert_eq!(summary.failures[0].result, Err(MigrationError::Connection));
    assert_eq!(summary.failures[2].result, Err(MigrationError::DestinationWrite));
}

#[test]
fn an_empty_batch_has_an_empty_summary() {
    let reads: Vec<KeyRead> = Vec::new();
    let mut dest = MemStore::new();
    let outcomes = migrate_batch_into(&mut dest, &reads);
    let summary = summarize(&outcomes);
    assert_eq!(summary.migrated, 0);
    assert!(summary.failures.is_empty());
}

#[test]
fn a_whole_run_over_batches_attempts_every_key_once() {
    // Enumerate keys, form batches, drain each batch fully before the
    // next, and aggregate the outcomes of the whole run.
    let keys: Vec<String> = (0..7).map(|i| format!("key{}", i)).collect();
    let batches = kvmigrate::make_batches(&keys, 3).expect("batch size 3 is valid");
    let mut dest = MemStore::new();
    let mut all_outcomes = Vec::new();
    for batch in &batches {
        let reads: Vec<KeyRead> = batch
            .iter()
            .map(|k| {
                if k == "key4" {
                    (k.clone(), Err(MigrationError::SourceRead))
                } else {
                    (k.clone(), Ok(SourceValue::StrVal(format!("value of {}", k))))
                }
            })
            .collect();
        let outcomes = migrate_batch_into(&mut dest, &reads);
        all_outcomes.extend(outcomes);
    }
    assert_eq!(all_outcomes.len(), 7);
    let summary = summarize(&all_outcomes);
    assert_eq!(summary.migrated, 6);
    assert_eq!(summary.failures.len(), 1);
    assert_eq!(summary.failures[0].key, "key4");
    for k in &keys {
        if k == "key4" {
            assert!(!dest.has_key(k));
        } else {
            assert!(dest.has_key(k));
        }
    }
}
