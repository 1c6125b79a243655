use jottty::address::addr_for_entity_id;
use jottty::date::page_id_for;
use jottty::entity::DatomOp;
use jottty::store::{apply_datoms, MemoryStore};
use jottty::transact::{datom_from_value, normalize_op, parse_batch, ParseError};
use serde_json::Value;

fn tuple(items: Vec<Value>) -> Value {
    Value::Array(items)
}

fn s(x: &str) -> Value {
    Value::String(x.to_string())
}

#[test]
fn normalize_op_accepts_known_ops() {
    assert_eq!(normalize_op("db/add"), Some(DatomOp::Add));
    assert_eq!(normalize_op(":db/add"), Some(DatomOp::Add));
    assert_eq!(normalize_op("db/retract"), Some(DatomOp::Retract));
    assert_eq!(normalize_op("::db/retract"), Some(DatomOp::Retract));
    assert_eq!(normalize_op("db/update"), None);
    assert_eq!(normalize_op("db/add "), None);
    assert_eq!(normalize_op(""), None);
}

#[test]
fn datom_from_value_decodes_a_tuple() {
    let d = datom_from_value(tuple(vec![s(":db/add"), s("e"), s("a"), Value::from(7)])).unwrap();
    assert_eq!(d.op, DatomOp::Add);
    assert_eq!(d.e, "e");
    assert_eq!(d.a, "a");
    assert_eq!(d.v, Value::from(7));
}

#[test]
fn datom_from_value_reports_each_failure() {
    let err = datom_from_value(s("x")).err().unwrap();
    assert!(matches!(err, ParseError::NotAList));
    assert_eq!(err.message(), "Datom must be an array");
    let err = datom_from_value(tuple(vec![s("db/add"), s("e"), s("a")])).err().unwrap();
    assert!(matches!(err, ParseError::WrongArity));
    assert_eq!(err.message(), "Datom list must have 4 items");
    let err = datom_from_value(tuple(vec![Value::from(1), s("e"), s("a"), Value::Null])).err().unwrap();
    assert!(matches!(err, ParseError::OpNotString));
    let err = datom_from_value(tuple(vec![s("db/update"), s("e"), s("a"), Value::Null])).err().unwrap();
    assert_eq!(err.message(), "Unsupported op: db/update");
    let err = datom_from_value(tuple(vec![s("db/add"), Value::Null, s("a"), Value::Null])).err().unwrap();
    assert!(matches!(err, ParseError::EntityNotString));
    assert_eq!(err.message(), "Datom e must be a string");
    let err = datom_from_value(tuple(vec![s("db/add"), s("e"), Value::Bool(true), Value::Null])).err().unwrap();
    assert!(matches!(err, ParseError::AttributeNotString));
    assert_eq!(err.message(), "Datom a must be a string");
}

#[test]
fn unsupported_op_fails_batch_without_writes() {
    let batch = vec![
        tuple(vec![s("db/add"), s("block:x"), s("block/title"), s("T")]),
        tuple(vec![s("db/update"), s("block:x"), s("block/title"), s("U")]),
    ];
    let mut store = MemoryStore::new();
    match parse_batch(batch) {
        Ok(datoms) => {
            apply_datoms(&mut store, &datoms).unwrap();
            panic!("db/update must be refused");
        }
        Err(err) => assert!(matches!(err, ParseError::UnsupportedOp(ref op) if op == "db/update")),
    }
    assert!(store.row(addr_for_entity_id("block:x")).is_none());
}

#[test]
fn end_to_end_apply_then_load() {
    let batch = vec![
        tuple(vec![s("db/add"), s("block:x"), s("block/title"), s("T")]),
        tuple(vec![s("db/add"), s("block:x"), s("block/content"), s("hello")]),
    ];
    let datoms = parse_batch(batch).unwrap();
    let mut store = MemoryStore::new();
    let result = apply_datoms(&mut store, &datoms).unwrap();
    assert_eq!(result.len(), 1);
    assert_eq!(result[0].id, "block:x");
    assert_eq!(result[0].attrs.len(), 2);
    assert_eq!(result[0].attrs.get("block/title"), Some(&s("T")));
    assert_eq!(result[0].attrs.get("block/content"), Some(&s("hello")));
    let loaded = store.load("block:x");
    assert_eq!(loaded.id, "block:x");
    assert_eq!(loaded.attrs, result[0].attrs);
}

#[test]
fn parse_batch_of_nothing_is_empty() {
    assert!(parse_batch(vec![]).unwrap().is_empty());
}

#[test]
fn page_ids_prefix_the_date() {
    assert_eq!(page_id_for("2024-05-01"), "page:2024-05-01");
}
