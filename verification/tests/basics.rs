use reddb::identifier::parse;
use reddb::operation::Operation;
use reddb::serializer::{Bin, Json, Ron, Serializer, Serializers, Yaml};
use reddb::{Document, RedDbError, RedDbErrorKind, Status};

#[test]
fn status_defaults_to_inserted() {
    assert_eq!(Status::default(), Status::In);
    assert_eq!(Operation::default(), Operation::Insert);
}

#[test]
fn document_new_keeps_its_parts() {
    let doc = Document::new(7, vec![1, 2], Status::Up);
    assert_eq!(doc.uuid, 7);
    assert_eq!(doc.data, vec![1, 2]);
    assert_eq!(doc._st, Status::Up);
}

#[test]
fn every_format_knows_its_extension() {
    assert!(matches!(Json::default().format(), Serializers::Json(ext) if ext == ".json"));
    assert!(matches!(Ron::default().format(), Serializers::Ron(ext) if ext == ".ron"));
    assert!(matches!(Yaml::default().format(), Serializers::Yaml(ext) if ext == ".yaml"));
    assert!(matches!(Bin::default().format(), Serializers::Bin(ext) if ext == ".bin"));
    assert_eq!(Json::create().format().extension(), ".json");
    assert_eq!(Ron::create().format().extension(), ".ron");
    assert_eq!(Yaml::create().format().extension(), ".yaml");
    assert_eq!(Bin::create().format().extension(), ".bin");
    assert_eq!(Serializers::Ron("x".to_string()).extension(), "x");
}

#[test]
fn parse_reads_every_notation_of_an_identifier() {
    let id = 0xa1a2a3a4_b1b2_c1c2_d1d2_d3d4d5d6d7d8u128;
    assert_eq!(parse("a1a2a3a4-b1b2-c1c2-d1d2-d3d4d5d6d7d8"), Some(id));
    assert_eq!(parse("A1A2A3A4-B1B2-C1C2-D1D2-D3D4D5D6D7D8"), Some(id));
    assert_eq!(parse("a1a2a3a4b1b2c1c2d1d2d3d4d5d6d7d8"), Some(id));
    assert_eq!(parse("urn:uuid:a1a2a3a4-b1b2-c1c2-d1d2-d3d4d5d6d7d8"), Some(id));
    assert_eq!(parse("{a1a2a3a4-b1b2-c1c2-d1d2-d3d4d5d6d7d8}"), Some(id));
    assert_eq!(parse("00000000-0000-0000-0000-000000000000"), Some(0));
    assert_eq!(parse(""), None);
    assert_eq!(parse("a1a2a3a4-b1b2-c1c2-d1d2-d3d4d5d6d7d"), None);
    assert_eq!(parse("g1a2a3a4-b1b2-c1c2-d1d2-d3d4d5d6d7d8"), None);
}

#[test]
fn error_wraps_its_kind() {
    let e = RedDbError::from(RedDbErrorKind::Compact);
    assert_eq!(e.kind(), RedDbErrorKind::Compact);
    assert_eq!(e, RedDbError { err: RedDbErrorKind::Compact });
    assert_eq!(e.message(), "Data compacted corrupted!");
}

#[test]
fn every_error_has_its_message() {
    let id = 0xa1a2a3a4_b1b2_c1c2_d1d2_d3d4d5d6d7d8u128;
    let cases = [
        (RedDbErrorKind::DataCorruption, "Data corrupted!"),
        (RedDbErrorKind::Compact, "Data compacted corrupted!"),
        (RedDbErrorKind::Storagepersist, "Could not compact storage"),
        (RedDbErrorKind::FlushData, "Could not flush data into storage"),
        (RedDbErrorKind::AppendData, "Could not flush data"),
        (RedDbErrorKind::StorageInit, "Could not append data "),
        (RedDbErrorKind::StorageOpen, "Could not open storage"),
        (RedDbErrorKind::StorageData, "Could not init storage"),
        (RedDbErrorKind::ReadContent, "Could not read storage data"),
        (RedDbErrorKind::ContentLoad, "Could not load storage content"),
        (RedDbErrorKind::Datapersist, "Could not persist data into storage"),
        (
            RedDbErrorKind::NotFound { uuid: id },
            "Could not find _id a1a2a3a4-b1b2-c1c2-d1d2-d3d4d5d6d7d8",
        ),
        (
            RedDbErrorKind::NotFound { uuid: 0 },
            "Could not find _id 00000000-0000-0000-0000-000000000000",
        ),
        (RedDbErrorKind::Deletekey, "Could not delete _id"),
        (RedDbErrorKind::Mutex, "Could not unlock mutex"),
        (RedDbErrorKind::Poisoned, "Database poisoned!"),
        (RedDbErrorKind::PoisonedValue, "data poisoned!"),
        (RedDbErrorKind::Deserialization, "Could not deserialize data"),
        (RedDbErrorKind::Serialization, "Could not serialize data"),
    ];
    for (kind, text) in cases {
        assert_eq!(kind.message(), text);
    }
}
