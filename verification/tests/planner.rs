use kvmigrate::KeyType;
use kvmigrate::MemStore;
use kvmigrate::PlanOutcome;
use kvmigrate::RawItem;
use kvmigrate::RawValue;
use kvmigrate::ReadOp;
use kvmigrate::Scalar;
use kvmigrate::SourceValue;
use kvmigrate::parse_key_type;
use kvmigrate::plan_migration;
use kvmigrate::read_op_for;

fn text(s: &str) -> Scalar {
    Scalar::Text(s.to_string())
}

#[test]
fn type_reports_map_to_kinds() {
    assert_eq!(parse_key_type("string"), KeyType::StringKind);
    assert_eq!(parse_key_type("list"), KeyType::ListKind);
    assert_eq!(parse_key_type("set"), KeyType::SetKind);
    assert_eq!(parse_key_type("hash"), KeyType::HashKind);
    assert_eq!(parse_key_type("stream"), KeyType::OtherKind);
    assert_eq!(parse_key_type("none"), KeyType::OtherKind);
    assert_eq!(parse_key_type(""), KeyType::OtherKind);
}

#[test]
fn each_kind_uses_its_read_primitive() {
    assert_eq!(read_op_for(KeyType::StringKind), ReadOp::FetchScalar);
    assert_eq!(read_op_for(KeyType::ListKind), ReadOp::FetchRange);
    assert_eq!(read_op_for(KeyType::SetKind), ReadOp::FetchMembers);
    assert_eq!(read_op_for(KeyType::HashKind), ReadOp::FetchFields);
    assert_eq!(read_op_for(KeyType::OtherKind), ReadOp::FetchRaw);
}

#[test]
fn string_value_is_set_verbatim() {
    let key = "greeting".to_string();
    let v = SourceValue::StrVal("hello".to_string());
    let mut dest = MemStore::new();
    match plan_migration(&key, &v) {
        PlanOutcome::Writes(ops) => {
            assert_eq!(ops.len(), 1);
            dest.apply_plan(&ops);
        }
        PlanOutcome::Unsupported => panic!("a string value must be plannable"),
    }
    let stored = dest.get_scalar(&key).expect("key must hold a scalar");
    assert!(stored.content_eq(&text("hello")));
}

#[test]
fn fallback_data_written_as_string() {
    let key = "blob".to_string();
    let v = SourceValue::RawVal(RawValue::DataRaw(vec![1u8, 2, 3]));
    let mut dest = MemStore::new();
    match plan_migration(&key, &v) {
        PlanOutcome::Writes(ops) => dest.apply_plan(&ops),
        PlanOutcome::Unsupported => panic!("a bulk scalar must be plannable"),
    }
    let stored = dest.get_scalar(&key).expect("key must hold a scalar");
    assert!(stored.content_eq(&Scalar::Bytes(vec![1u8, 2, 3])));
}

#[test]
fn fallback_integer_written_as_string() {
    let key = "counter".to_string();
    let v = SourceValue::RawVal(RawValue::IntRaw(42));
    let mut dest = MemStore::new();
    match plan_migration(&key, &v) {
        PlanOutcome::Writes(ops) => dest.apply_plan(&ops),
        PlanOutcome::Unsupported => panic!("an integer scalar must be plannable"),
    }
    let stored = dest.get_scalar(&key).expect("key must hold a scalar");
    assert!(stored.content_eq(&Scalar::Int(42)));
}

#[test]
fn fallback_scalar_collection_appended_as_list() {
    let key = "mixedbag".to_string();
    let v = SourceValue::RawVal(RawValue::BulkRaw(vec![
        RawItem::DataItem(vec![7u8]),
        RawItem::IntItem(9),
    ]));
    let mut dest = MemStore::new();
    match plan_migration(&key, &v) {
        PlanOutcome::Writes(ops) => {
            assert_eq!(ops.len(), 2);
            dest.apply_plan(&ops);
        }
        PlanOutcome::Unsupported => panic!("a collection of scalars must be plannable"),
    }
    let items = dest.get_list(&key).expect("key must hold a list");
    assert_eq!(items.len(), 2);
    assert!(items[0].content_eq(&Scalar::Bytes(vec![7u8])));
    assert!(items[1].content_eq(&Scalar::Int(9)));
}

#[test]
fn fallback_collection_with_nested_shape_is_unsupported() {
    let key = "nested".to_string();
    let v = SourceValue::RawVal(RawValue::BulkRaw(vec![
        RawItem::DataItem(vec![7u8]),
        RawItem::OtherItem,
    ]));
    assert!(matches!(plan_migration(&key, &v), PlanOutcome::Unsupported));
}

#[test]
fn fallback_nil_is_reported_and_writes_nothing() {
    let key = "ghost".to_string();
    let v = SourceValue::RawVal(RawValue::NilRaw);
    assert!(matches!(plan_migration(&key, &v), PlanOutcome::Unsupported));
}

#[test]
fn fallback_opaque_value_is_unsupported() {
    let key = "weird".to_string();
    let v = SourceValue::RawVal(RawValue::OtherRaw);
    assert!(matches!(plan_migration(&key, &v), PlanOutcome::Unsupported));
}
