use jottty::address::{addr_for_entity_id, fnv1a_hash64};
use jottty::codec::{decode_entity, encode_entity, entity_to_value, value_to_entity, CodecError};
use jottty::entity::{apply_datom, replay_group, Datom, DatomOp, Entity};
use jottty::store::{
    apply_datoms, decode_rows, group_ids, load_from_row, row_for_entity, MemoryStore,
};
use serde_json::Value;

fn add(e: &str, a: &str, v: Value) -> Datom {
    Datom { op: DatomOp::Add, e: e.to_string(), a: a.to_string(), v }
}

fn retract(e: &str, a: &str) -> Datom {
    Datom { op: DatomOp::Retract, e: e.to_string(), a: a.to_string(), v: Value::Null }
}

#[test]
fn test_fnv1a_hash64() {
    let input = "block:0000000000000000000a7b3c4d5e6f7g8h9i0jklmnopqrstuvwx";
    let hash = fnv1a_hash64(input);
    assert_eq!(hash, 16887854668524219895);
}

#[test]
fn test_addr_for_entity_id() {
    let entity_id = "block:0000000000000000000a7b3c4d5e6f7g8h9i0jklmnopqrstuvwx";
    let addr = addr_for_entity_id(entity_id);
    assert_eq!(addr, -1558889405185331721);
}

#[test]
fn test_entity_to_value() {
    let mut attrs = serde_json::Map::new();
    attrs.insert("block/title".to_string(), Value::String("Journal".to_string()));
    attrs.insert(
        "block/content".to_string(),
        Value::String("This is a bullet in the journal".into()),
    );

    let entity = Entity { id: "block:page-id".to_string(), attrs };

    let value = entity_to_value(&entity);

    assert!(value.is_object());
    let obj = value.as_object().unwrap();
    assert_eq!(obj.get("id").unwrap(), &Value::String("block:page-id".to_string()));
    let attrs_value = obj.get("attrs").unwrap();
    assert!(attrs_value.is_object());
    let attrs_obj = attrs_value.as_object().unwrap();
    assert_eq!(attrs_obj.get("block/title").unwrap(), &Value::String("Journal".to_string()));
    assert_eq!(
        attrs_obj.get("block/content").unwrap(),
        &Value::String("This is a bullet in the journal".into())
    );
}

#[test]
fn test_apply_datoms() {
    let mut store = MemoryStore::new();
    let datoms = vec![
        add("block:page-id", "block/title", Value::String("Journal".to_string())),
        add(
            "block:page-id",
            "block/content",
            Value::String("This is a bullet in the journal".into()),
        ),
    ];
    let result = apply_datoms(&mut store, &datoms);

    for r in result.as_ref().unwrap() {
        if r.id == "block:page-id" {
            assert_eq!(r.attrs.get("block/title").unwrap(), &Value::String("Journal".to_string()));
            assert_eq!(
                r.attrs.get("block/content").unwrap(),
                &Value::String("This is a bullet in the journal".into())
            );
        }
    }
    assert!(result.is_ok());
}

#[test]
fn fnv_of_empty_is_offset_basis() {
    assert_eq!(fnv1a_hash64(""), 0xcbf29ce484222325);
    assert_eq!(fnv1a_hash64("a"), 0xaf63dc4c8601ec8c);
}

#[test]
fn address_is_deterministic() {
    let id = "block:2024-01-01-123";
    assert_eq!(addr_for_entity_id(id), addr_for_entity_id(id));
    assert_eq!(addr_for_entity_id(id), fnv1a_hash64(id) as i64);
    assert_ne!(addr_for_entity_id("page:2024-01-01"), addr_for_entity_id("page:2024-01-02"));
}

#[test]
fn codec_round_trip_string_attrs() {
    let mut attrs = serde_json::Map::new();
    attrs.insert("block/title".to_string(), Value::String("T".to_string()));
    attrs.insert("block/content".to_string(), Value::String("hello \"world\"\n".to_string()));
    let entity = Entity { id: "block:x".to_string(), attrs };
    let text = encode_entity(&entity).unwrap();
    let back = decode_entity(&text).unwrap();
    assert_eq!(back.id, "block:x");
    assert_eq!(back.attrs, entity.attrs);
}

#[test]
fn codec_round_trip_mixed_values() {
    let mut attrs = serde_json::Map::new();
    attrs.insert("n".to_string(), Value::from(42));
    attrs.insert("b".to_string(), Value::Bool(true));
    attrs.insert("z".to_string(), Value::Null);
    attrs.insert("l".to_string(), Value::Array(vec![Value::from(1), Value::from("x")]));
    let entity = Entity { id: "page:p".to_string(), attrs };
    let back = decode_entity(&encode_entity(&entity).unwrap()).unwrap();
    assert_eq!(back.id, "page:p");
    assert_eq!(back.attrs, entity.attrs);
}

#[test]
fn decode_rejects_malformed_text() {
    assert!(matches!(decode_entity("{not json"), Err(CodecError::Malformed)));
    assert!(matches!(decode_entity(""), Err(CodecError::Malformed)));
}

#[test]
fn decode_rejects_non_envelopes() {
    assert!(matches!(decode_entity("[1,2]"), Err(CodecError::NotAnEntity)));
    assert!(matches!(decode_entity("{\"attrs\":{}}"), Err(CodecError::NotAnEntity)));
    assert!(matches!(decode_entity("{\"id\":3,\"attrs\":{}}"), Err(CodecError::NotAnEntity)));
    assert!(matches!(decode_entity("{\"id\":\"x\",\"attrs\":[]}"), Err(CodecError::NotAnEntity)));
    assert!(matches!(decode_entity("{\"id\":\"x\"}"), Err(CodecError::NotAnEntity)));
}

#[test]
fn value_to_entity_reads_envelope() {
    let v: Value = serde_json::from_str("{\"id\":\"e\",\"attrs\":{\"k\":1},\"extra\":0}").unwrap();
    let e = value_to_entity(v).unwrap();
    assert_eq!(e.id, "e");
    assert_eq!(e.attrs.get("k"), Some(&Value::from(1)));
    assert!(value_to_entity(Value::Null).is_none());
}

#[test]
fn adds_on_fresh_id_give_exactly_those_pairs() {
    let mut store = MemoryStore::new();
    let datoms = vec![
        add("block:f", "a", Value::from("1")),
        add("block:f", "b", Value::from("2")),
    ];
    let result = apply_datoms(&mut store, &datoms).unwrap();
    assert_eq!(result.len(), 1);
    assert_eq!(result[0].id, "block:f");
    assert_eq!(result[0].attrs.len(), 2);
    assert_eq!(result[0].attrs.get("a"), Some(&Value::from("1")));
    assert_eq!(result[0].attrs.get("b"), Some(&Value::from("2")));
}

#[test]
fn retract_of_absent_attribute_is_noop() {
    let mut store = MemoryStore::new();
    apply_datoms(&mut store, &vec![add("e", "a", Value::from(1))]).unwrap();
    let result = apply_datoms(&mut store, &vec![retract("e", "missing")]).unwrap();
    assert_eq!(result.len(), 1);
    assert_eq!(result[0].attrs.len(), 1);
    assert_eq!(result[0].attrs.get("a"), Some(&Value::from(1)));
}

#[test]
fn last_add_wins_within_a_group() {
    let mut store = MemoryStore::new();
    let datoms = vec![add("e", "a", Value::from(1)), add("e", "a", Value::from(2))];
    let result = apply_datoms(&mut store, &datoms).unwrap();
    assert_eq!(result[0].attrs.get("a"), Some(&Value::from(2)));
}

#[test]
fn add_then_retract_nets_to_absent() {
    let mut store = MemoryStore::new();
    let datoms = vec![add("e", "a", Value::from(1)), retract("e", "a")];
    let result = apply_datoms(&mut store, &datoms).unwrap();
    assert!(result[0].attrs.get("a").is_none());
    let datoms = vec![retract("e", "a"), add("e", "a", Value::from(3))];
    let result = apply_datoms(&mut store, &datoms).unwrap();
    assert_eq!(result[0].attrs.get("a"), Some(&Value::from(3)));
}

#[test]
fn retracting_everything_keeps_the_row() {
    let mut store = MemoryStore::new();
    apply_datoms(&mut store, &vec![add("e", "a", Value::from(1))]).unwrap();
    apply_datoms(&mut store, &vec![retract("e", "a")]).unwrap();
    assert!(store.row(addr_for_entity_id("e")).is_some());
    let loaded = store.load("e");
    assert_eq!(loaded.id, "e");
    assert!(loaded.attrs.is_empty());
}

#[test]
fn empty_batch_touches_nothing() {
    let mut store = MemoryStore::new();
    let result = apply_datoms(&mut store, &vec![]).unwrap();
    assert!(result.is_empty());
    assert!(store.row(addr_for_entity_id("")).is_none());
}

#[test]
fn load_of_unwritten_id_is_empty() {
    let store = MemoryStore::new();
    let e = store.load("block:never");
    assert_eq!(e.id, "block:never");
    assert!(e.attrs.is_empty());
}

#[test]
fn load_treats_unreadable_rows_as_absent() {
    let e = load_from_row("block:y", Some("not json"));
    assert_eq!(e.id, "block:y");
    assert!(e.attrs.is_empty());
    let e = load_from_row("block:y", Some("{\"id\":\"block:y\",\"attrs\":{\"k\":\"v\"}}"));
    assert_eq!(e.attrs.get("k"), Some(&Value::from("v")));
    let e = load_from_row("block:y", None);
    assert!(e.attrs.is_empty());
}

#[test]
fn groups_follow_first_appearance() {
    let datoms = vec![
        add("b", "x", Value::Null),
        add("a", "x", Value::Null),
        add("b", "y", Value::Null),
    ];
    assert_eq!(group_ids(&datoms), vec!["b".to_string(), "a".to_string()]);
    let mut store = MemoryStore::new();
    let result = apply_datoms(&mut store, &datoms).unwrap();
    assert_eq!(result.len(), 2);
    assert_eq!(result[0].id, "b");
    assert_eq!(result[0].attrs.len(), 2);
    assert_eq!(result[1].id, "a");
    assert_eq!(result[1].attrs.len(), 1);
}

#[test]
fn replay_skips_other_entities() {
    let mut e = Entity::empty("a".to_string());
    let datoms = vec![add("a", "k", Value::from(1)), add("b", "k", Value::from(2))];
    replay_group(&mut e, "a", &datoms);
    assert_eq!(e.attrs.get("k"), Some(&Value::from(1)));
    apply_datom(&mut e, &retract("a", "k"));
    assert!(e.attrs.is_empty());
}

#[test]
fn row_carries_address_content_and_empty_list() {
    let mut attrs = serde_json::Map::new();
    attrs.insert("k".to_string(), Value::from("v"));
    let e = Entity { id: "block:r".to_string(), attrs };
    let row = row_for_entity(&e).unwrap();
    assert_eq!(row.addr, addr_for_entity_id("block:r"));
    assert_eq!(row.addresses, "[]");
    let back: Value = serde_json::from_str(&row.content).unwrap();
    assert_eq!(back["id"], Value::from("block:r"));
    assert_eq!(back["attrs"]["k"], Value::from("v"));
}

#[test]
fn scan_leaves_out_unreadable_rows() {
    let rows = vec![
        "{\"id\":\"a\",\"attrs\":{}}".to_string(),
        "garbage".to_string(),
        "{\"id\":1}".to_string(),
        "{\"id\":\"b\",\"attrs\":{\"k\":true}}".to_string(),
    ];
    let es = decode_rows(&rows);
    assert_eq!(es.len(), 2);
    assert_eq!(es[0].id, "a");
    assert_eq!(es[1].id, "b");
    assert_eq!(es[1].attrs.get("k"), Some(&Value::Bool(true)));
}

#[test]
fn write_keeps_empty_address_list_and_other_rows() {
    let mut store = MemoryStore::new();
    let a = Entity::empty("block:a".to_string());
    let b = Entity::empty("block:b".to_string());
    assert!(store.write(&a).is_ok());
    assert!(store.write(&b).is_ok());
    assert_eq!(store.addresses(addr_for_entity_id("block:a")), Some("[]"));
    let before = store.row(addr_for_entity_id("block:b")).map(|s| s.to_string());
    let mut attrs = serde_json::Map::new();
    attrs.insert("k".to_string(), Value::from("v"));
    assert!(store.write(&Entity { id: "block:a".to_string(), attrs }).is_ok());
    assert_eq!(store.row(addr_for_entity_id("block:b")).map(|s| s.to_string()), before);
    assert_eq!(store.load("block:a").attrs.get("k"), Some(&Value::from("v")));
    assert!(store.addresses(addr_for_entity_id("block:c")).is_none());
}
