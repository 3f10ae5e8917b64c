use reddb::fields::{get_field, satisfies, Fields};
use reddb::{Document, JsonDb, Query, RedDbErrorKind, Status};

fn open() -> JsonDb {
    JsonDb::new(".query.db", &Vec::new()).unwrap()
}

fn drain(db: &mut JsonDb) -> Vec<Document> {
    let batch = db.pending().clone();
    db.acknowledge();
    batch
}

fn fields(pairs: &[(&str, &str)]) -> Fields {
    pairs.iter().map(|(k, v)| (k.as_bytes().to_vec(), v.as_bytes().to_vec())).collect()
}

fn json(text: &str) -> Vec<u8> {
    text.as_bytes().to_vec()
}

fn sorted(mut ids: Vec<u128>) -> Vec<u128> {
    ids.sort();
    ids
}

#[test]
fn parse_reads_the_fields_of_an_object() {
    let q = Query::new();
    let text = b"{ \"name\": \"record1\", \"leches\": 11, \"nested\": { \"b\": [1, 2], \"a\": null } }";
    let parsed = q.parse(text).unwrap();
    assert_eq!(
        parsed,
        fields(&[
            ("leches", "11"),
            ("name", "\"record1\""),
            ("nested", "{\"a\":null,\"b\":[1,2]}"),
        ])
    );
    assert_eq!(q.parse(b"{}").unwrap(), fields(&[]));
}

#[test]
fn parse_rejects_what_is_not_an_object() {
    let q = Query::new();
    assert_eq!(q.parse(b"[1, 2]").unwrap_err().kind(), RedDbErrorKind::Deserialization);
    assert_eq!(q.parse(b"\"text\"").unwrap_err().kind(), RedDbErrorKind::Deserialization);
    assert_eq!(q.parse(b"{\"a\": ").unwrap_err().kind(), RedDbErrorKind::Deserialization);
    assert_eq!(q.parse(b"").unwrap_err().kind(), RedDbErrorKind::Deserialization);
    assert_eq!(q.parse(b"(foo:\"one\")").unwrap_err().kind(), RedDbErrorKind::Deserialization);
}

#[test]
fn get_field_finds_the_first_field_of_that_name() {
    let doc = fields(&[("a", "1"), ("b", "2"), ("a", "3")]);
    assert_eq!(get_field(&doc, b"a"), Some(&b"1".to_vec()));
    assert_eq!(get_field(&doc, b"b"), Some(&b"2".to_vec()));
    assert_eq!(get_field(&doc, b"c"), None);
    assert_eq!(get_field(&fields(&[]), b"a"), None);
}

#[test]
fn satisfies_is_a_partial_match() {
    let doc = fields(&[("leches", "true"), ("boo", "12")]);
    assert!(satisfies(&doc, &fields(&[("leches", "true")])));
    assert!(satisfies(&doc, &fields(&[("boo", "12"), ("leches", "true")])));
    assert!(satisfies(&doc, &fields(&[])));
    assert!(!satisfies(&doc, &fields(&[("leches", "false")])));
    assert!(!satisfies(&doc, &fields(&[("leches", "true"), ("foo", "11")])));
    assert!(!satisfies(&fields(&[]), &fields(&[("leches", "true")])));
}

#[test]
fn selects_reads_the_payload_as_json() {
    let q = Query::new();
    let query = q.parse(b"{\"foo\":\"one\"}").unwrap();
    assert!(q.selects(&query, b"{\"foo\": \"one\", \"bar\": 2}"));
    assert!(!q.selects(&query, b"{\"foo\": \"two\"}"));
    assert!(!q.selects(&query, b"{\"bar\": \"one\"}"));
    assert!(!q.selects(&query, b"not json"));
    assert!(!q.selects(&query, b"[{\"foo\":\"one\"}]"));
    assert!(q.selects(&fields(&[]), b"{}"));
    assert!(!q.selects(&fields(&[]), b"7"));
}

#[test]
fn find_many_update_many_scenario() {
    let q = Query::new();
    let mut db = open();
    db.insert(vec![
        json("{\"foo\":\"one\"}"),
        json("{\"foo\":\"one\"}"),
        json("{\"foo\":\"two\"}"),
    ]);
    let one = q.parse(b"{\"foo\":\"one\"}").unwrap();
    let two = q.parse(b"{\"foo\":\"two\"}").unwrap();
    assert_eq!(q.find(&db, &one).len(), 2);
    assert_eq!(q.update(&mut db, &one, b"{\"foo\":\"two\"}"), 2);
    assert_eq!(q.find(&db, &two).len(), 3);
    assert_eq!(q.find(&db, &one).len(), 0);
}

#[test]
fn a_query_constrains_only_the_fields_it_names() {
    let q = Query::new();
    let mut db = open();
    let a = db.insert_one(json("{\"leches\":true}"));
    let b = db.insert_one(json("{\"leches\":true,\"boo\":12}"));
    let c = db.insert_one(json("{\"leches\":false}"));
    let d = db.insert_one(json("plain text"));

    let leches = q.parse(b"{\"leches\": true}").unwrap();
    assert_eq!(sorted(q.find_uuids(&db, &leches)), sorted(vec![a.uuid, b.uuid]));
    let both = q.parse(b"{\"leches\": true, \"boo\": 12}").unwrap();
    assert_eq!(q.find_uuids(&db, &both), vec![b.uuid]);
    let all = q.parse(b"{}").unwrap();
    assert_eq!(sorted(q.find_uuids(&db, &all)), sorted(vec![a.uuid, b.uuid, c.uuid]));
    let none = q.parse(b"{\"record\": 1}").unwrap();
    assert!(q.find_uuids(&db, &none).is_empty());

    let found = q.find(&db, &both);
    assert_eq!(
        found,
        vec![Document::new(b.uuid, json("{\"leches\":true,\"boo\":12}"), Status::In)]
    );
    assert_eq!(db.find_one(d.uuid).unwrap().data, json("plain text"));
}

#[test]
fn update_by_query_replaces_and_logs() {
    let q = Query::new();
    let mut db = open();
    let a = db.insert_one(json("{\"record\":true,\"foo\":11}"));
    let b = db.insert_one(json("{\"record\":false}"));
    drain(&mut db);
    let query = q.parse(b"{\"record\":true}").unwrap();
    assert_eq!(q.update(&mut db, &query, b"{\"record\":\"updated!\"}"), 1);
    assert_eq!(db.find_one(a.uuid).unwrap().data, json("{\"record\":\"updated!\"}"));
    assert_eq!(db.find_one(b.uuid).unwrap().data, json("{\"record\":false}"));
    assert_eq!(
        drain(&mut db),
        vec![Document::new(a.uuid, json("{\"record\":\"updated!\"}"), Status::Up)]
    );
    assert_eq!(q.update(&mut db, &query, b"{}"), 0);
    assert!(drain(&mut db).is_empty());
}

#[test]
fn delete_by_query_removes_and_logs() {
    let q = Query::new();
    let mut db = open();
    let a = db.insert_one(json("{\"leches\":true}"));
    let b = db.insert_one(json("{\"leches\":false}"));
    let c = db.insert_one(json("{\"leches\":true,\"boo\":12}"));
    drain(&mut db);
    let query = q.parse(b"{\"leches\":true}").unwrap();
    assert_eq!(q.delete(&mut db, &query), 2);
    assert_eq!(q.delete(&mut db, &query), 0);
    assert_eq!(db.find_all(), vec![b]);
    let mut batch = drain(&mut db);
    batch.sort_by_key(|d| d.uuid);
    let mut expected = vec![
        Document::new(a.uuid, Vec::new(), Status::De),
        Document::new(c.uuid, Vec::new(), Status::De),
    ];
    expected.sort_by_key(|d| d.uuid);
    assert_eq!(batch, expected);
}

#[test]
fn get_id_reads_the_string_of_the_id_field() {
    let q = Query::new();
    let query = q.parse(b"{\"_id\": \"e7cdef61-d09d-420a-9a3d-e485c056c6aa\", \"x\": 1}").unwrap();
    assert_eq!(q.get_id(&query), Some("e7cdef61-d09d-420a-9a3d-e485c056c6aa".to_string()));
    assert_eq!(q.get_uuid(&query), Ok(0xe7cdef61_d09d_420a_9a3d_e485c056c6aa));
    let escaped = q.parse(b"{\"_id\": \"a\\u0062\\n\"}").unwrap();
    assert_eq!(q.get_id(&escaped), Some("ab\n".to_string()));
    assert_eq!(q.get_id(&q.parse(b"{\"_id\": 12}").unwrap()), None);
    assert_eq!(q.get_id(&q.parse(b"{\"id\": \"x\"}").unwrap()), None);
}

#[test]
fn get_uuid_rejects_what_is_not_an_identifier() {
    let q = Query::new();
    for text in ["{\"_id\": \"\"}", "{\"_id\": \"not-an-id\"}", "{\"_id\": 7}", "{}"] {
        let query = q.parse(text.as_bytes()).unwrap();
        assert_eq!(q.get_uuid(&query).unwrap_err().kind(), RedDbErrorKind::Deserialization);
    }
}

#[test]
fn find_id_looks_the_record_up() {
    let q = Query::new();
    let mut db = open();
    let id = 0xe7cdef61_d09d_420a_9a3d_e485c056c6aa;
    db.insert_document(id, json("{\"name\":\"Peter\"}"));
    let query = q.parse(b"{\"_id\": \"e7cdef61-d09d-420a-9a3d-e485c056c6aa\"}").unwrap();
    assert_eq!(
        q.find_id(&db, &query),
        Ok(Document::new(id, json("{\"name\":\"Peter\"}"), Status::In))
    );
    let other = q.parse(b"{\"_id\": \"00000000-0000-0000-0000-000000000001\"}").unwrap();
    assert_eq!(q.find_id(&db, &other).unwrap_err().kind(), RedDbErrorKind::NotFound { uuid: 1 });
    let bad = q.parse(b"{\"_id\": true}").unwrap();
    assert_eq!(q.find_id(&db, &bad).unwrap_err().kind(), RedDbErrorKind::Deserialization);
}

#[test]
fn update_status_retags_the_document() {
    let q = Query::new();
    let mut doc = Document::new(1, vec![1, 2], Status::In);
    q.update_status(&mut doc, Status::De);
    assert_eq!(doc, Document::new(1, vec![1, 2], Status::De));
}
