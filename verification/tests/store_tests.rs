//! The blob store, the document collection and the filter engine.

use bevyhub_api::doc_id::DocId;
use bevyhub_api::filter::{is_handled_filter, matches_value, ComparisonOperator};
use bevyhub_api::memory_collection::MemoryCollection;
use bevyhub_api::storage::MemStorage;
use bevyhub_api::value::Value;

fn obj(entries: Vec<(&str, Value)>) -> Value {
    Value::Obj(
        entries
            .into_iter()
            .map(|(k, v)| (k.to_string(), v))
            .collect(),
    )
}

fn text(t: &str) -> Value {
    Value::Text(t.to_string())
}

/// The in-memory blob store stores, lists and forgets objects by path.
#[test]
fn mem_storage_works() {
    let mut storage = MemStorage::new();
    let key = "foo.txt";
    let value = b"bar".to_vec();
    assert!(!storage.contains_key(key));

    storage.put(key.to_string(), value.clone());

    let list = storage.list("fo");
    assert!(list.iter().any(|o| o.name == key));
    let list = storage.list("bar");
    assert!(!list.iter().any(|o| o.name == key));

    assert_eq!(storage.get(key).unwrap(), &value);
    assert!(storage.contains_key(key));
    storage.delete(key);
    assert!(!storage.contains_key(key));
}

/// A batched put applies every pair, later pairs winning on an equal key.
#[test]
fn mem_storage_put_many() {
    let mut storage = MemStorage::new();
    storage.put_many(vec![
        ("a".to_string(), b"1".to_vec()),
        ("b".to_string(), b"2".to_vec()),
        ("a".to_string(), b"3".to_vec()),
    ]);
    assert_eq!(storage.get("a").unwrap(), &b"3".to_vec());
    assert_eq!(storage.get("b").unwrap(), &b"2".to_vec());
}

/// The collection stores documents under their derived keys, upserting.
#[test]
fn memory_collection_works() {
    let mut collection: MemoryCollection<Value> = MemoryCollection::temp();
    collection.insert(obj(vec![("_id", text("foo"))]));
    assert!(collection.get(&DocId::new("foo".to_string())).is_some());
    assert!(collection.get(&DocId::new("bar".to_string())).is_none());
}

/// The filter language subset: literals walk dotted paths, nested object
/// literals match recursively, the three supported operators work, and an
/// unsupported operator never excludes a document.
#[test]
fn filters() {
    let mut collection: MemoryCollection<Value> = MemoryCollection::temp();
    collection.insert(obj(vec![
        ("_id", text("foo")),
        ("name", text("bob")),
        ("age", Value::Null),
        (
            "address",
            obj(vec![("number", Value::Int(1234)), ("street", text("Main st"))]),
        ),
    ]));

    assert_eq!(collection.count(&obj(vec![("name", text("bill"))])), 0);
    assert_eq!(collection.count(&obj(vec![("name", text("bob"))])), 1);
    assert_eq!(
        collection.count(&obj(vec![("address.number", Value::Int(1234))])),
        1
    );
    assert_eq!(
        collection.count(&obj(vec![(
            "address",
            obj(vec![("number", Value::Int(1234))])
        )])),
        1
    );
    assert_eq!(
        collection.count(&obj(vec![(
            "address",
            obj(vec![(
                "$eq",
                obj(vec![("number", Value::Int(1234)), ("street", text("Main st"))])
            )])
        )])),
        1
    );
    assert_eq!(
        collection.count(&obj(vec![("address", obj(vec![("$ne", Value::Null)]))])),
        1
    );
    assert_eq!(
        collection.count(&obj(vec![("age", obj(vec![("$eq", Value::Null)]))])),
        1
    );
}

/// The documented filter scenarios: a dotted literal matches, `$ne` against
/// null matches a present object, and an unsupported operator key matches
/// everything rather than erroring.
#[test]
fn filter_engine_scenarios() {
    let doc = obj(vec![(
        "address",
        obj(vec![("number", Value::Int(1234))]),
    )]);
    assert!(matches_value(&doc, &obj(vec![("address.number", Value::Int(1234))])));
    assert!(matches_value(
        &doc,
        &obj(vec![("address", obj(vec![("$ne", Value::Null)]))])
    ));
    assert!(
        matches_value(&doc, &obj(vec![("address", obj(vec![("$gt", Value::Int(5))]))])),
        "an unsupported operator key never excludes"
    );
    assert!(!matches_value(
        &doc,
        &obj(vec![("address.number", Value::Int(9))])
    ));
    assert!(matches_value(
        &doc,
        &obj(vec![("address.number", obj(vec![("$exists", Value::Bool(true))]))])
    ));
    assert!(matches_value(
        &doc,
        &obj(vec![("address.street", obj(vec![("$exists", Value::Bool(false))]))])
    ));
}

/// Finding applies the skip and limit window over matching documents in
/// store order.
#[test]
fn find_window_applies() {
    let mut collection: MemoryCollection<Value> = MemoryCollection::temp();
    for i in 0..5u32 {
        collection.insert(obj(vec![
            ("_id", text(&format!("doc{}", i))),
            ("kind", text("k")),
        ]));
    }
    let filter = obj(vec![("kind", text("k"))]);
    let found = collection.find(&filter, Some(1), Some(2));
    assert_eq!(found.len(), 2);
    let all = collection.find(&filter, None, None);
    assert_eq!(all.len(), 5);
    let none = collection.find(&filter, Some(9), None);
    assert_eq!(none.len(), 0);
}

/// The operator keys render as written in queries, and value comparisons
/// follow the operator.
#[test]
fn comparison_operators() {
    assert_eq!(ComparisonOperator::EqualTo.to_mongo_operator(), "$eq");
    assert_eq!(ComparisonOperator::NotEqual.to_mongo_operator(), "$ne");
    assert_eq!(ComparisonOperator::Exists.to_mongo_operator(), "$exists");
    assert_eq!(ComparisonOperator::GreaterThan.to_mongo_operator(), "$gt");
    assert!(ComparisonOperator::LessThan.compare(&1u64, &2u64));
    assert!(ComparisonOperator::GreaterThanOrEqualTo.compare(&2u64, &2u64));
    assert!(ComparisonOperator::NotEqual.compare(&1u64, &2u64));
    assert!(!ComparisonOperator::EqualTo.compare(&1u64, &2u64));
    assert!(is_handled_filter("name"));
    assert!(is_handled_filter("$eq"));
    assert!(is_handled_filter("$ne"));
    assert!(is_handled_filter("$exists"));
    assert!(!is_handled_filter("$gt"));
}

/// Document keys: the placeholder sentinel, equality, and defaults.
#[test]
fn doc_id_sentinel() {
    let id = DocId::placeholder();
    assert!(id.is_placeholder());
    assert_eq!(id.as_str(), "DOC_ID_PLACEHOLDER");
    let other: DocId = Default::default();
    assert!(other.is_placeholder());
    assert!(id.key_eq(&other));
    let named = DocId::new("registry/a/1.0.0".to_string());
    assert!(!named.is_placeholder());
    assert!(!named.key_eq(&id));
}
