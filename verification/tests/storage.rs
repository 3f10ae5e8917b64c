use reddb::serializer::{Bin, Json, Ron, Yaml};
use reddb::storage::lines::{frame, split_lines};
use reddb::store::Store;
use reddb::{Document, FileStorage, RedDbErrorKind, Status};

fn lines(parts: &[&str]) -> Vec<Vec<u8>> {
    parts.iter().map(|p| p.as_bytes().to_vec()).collect()
}

#[test]
fn split_lines_cuts_after_every_newline() {
    assert_eq!(split_lines(b"a\nbc\n"), lines(&["a", "bc"]));
    assert_eq!(split_lines(b"a\nbc"), lines(&["a", "bc"]));
    assert_eq!(split_lines(b""), Vec::<Vec<u8>>::new());
    assert_eq!(split_lines(b"\n"), lines(&[""]));
    assert_eq!(split_lines(b"\n\nx"), lines(&["", "", "x"]));
    assert_eq!(split_lines(b"no newline"), lines(&["no newline"]));
}

#[test]
fn split_lines_drops_one_carriage_return_before_the_newline() {
    assert_eq!(split_lines(b"a\r\nb\r\n"), lines(&["a", "b"]));
    assert_eq!(split_lines(b"a\r\r\n"), lines(&["a\r"]));
    assert_eq!(split_lines(b"a\rb\n"), lines(&["a\rb"]));
    assert_eq!(split_lines(b"tail\r"), lines(&["tail"]));
    assert_eq!(split_lines(b"\r\n"), lines(&[""]));
}

#[test]
fn frame_ends_every_record_with_a_newline() {
    assert_eq!(frame(&lines(&["a", "bc"])), b"a\nbc\n".to_vec());
    assert_eq!(frame(&lines(&[])), Vec::<u8>::new());
    assert_eq!(frame(&lines(&[""])), b"\n".to_vec());
}

#[test]
fn framed_records_read_back() {
    let records = lines(&["{\"a\":1}", "", "(foo:\"one\")", "x y z"]);
    assert_eq!(split_lines(&frame(&records)), records);
    let mut file = frame(&records[..2].to_vec());
    file.extend(frame(&records[2..].to_vec()));
    assert_eq!(file, frame(&records));
}

#[test]
fn the_file_is_named_after_the_format() {
    assert_eq!(FileStorage::<Json>::new("db").file_path(), "db.json");
    assert_eq!(FileStorage::<Ron>::new(".test.db").file_path(), ".test.db.ron");
    assert_eq!(FileStorage::<Yaml>::new("").file_path(), ".yaml");
    assert_eq!(FileStorage::<Bin>::new("a/b").file_path(), "a/b.bin");
}

#[test]
fn load_replays_in_order() {
    let storage = FileStorage::<Json>::new("db");
    let records = vec![
        Some(Document::new(1, vec![1], Status::In)),
        Some(Document::new(2, vec![2], Status::In)),
        Some(Document::new(1, vec![3], Status::Up)),
        Some(Document::new(2, vec![], Status::De)),
        Some(Document::new(2, vec![4], Status::In)),
        Some(Document::new(1, vec![5], Status::In)),
    ];
    let (store, mut compacted) = storage.load(&records).unwrap();
    assert_eq!(store.find(1), Some(vec![5]));
    assert_eq!(store.find(2), Some(vec![4]));
    assert_eq!(store.len(), 2);
    compacted.sort_by_key(|d| d.uuid);
    assert_eq!(
        compacted,
        vec![Document::new(1, vec![5], Status::In), Document::new(2, vec![4], Status::In)]
    );
}

#[test]
fn load_of_an_empty_log_is_empty() {
    let storage = FileStorage::<Json>::new("db");
    let (store, compacted) = storage.load(&Vec::new()).unwrap();
    assert_eq!(store.len(), 0);
    assert!(compacted.is_empty());
}

#[test]
fn load_rejects_a_corrupt_log() {
    let storage = FileStorage::<Json>::new("db");
    let records = vec![None, Some(Document::new(1, vec![1], Status::In))];
    assert_eq!(storage.load(&records).err().unwrap().kind(), RedDbErrorKind::DataCorruption);
}

#[test]
fn compact_data_writes_one_insert_per_live_record() {
    let storage = FileStorage::<Ron>::new("db");
    let mut store = Store::empty();
    store.insert_key_value(3, vec![30]);
    store.insert_key_value(1, vec![10]);
    store.insert_key_value(3, vec![31]);
    store.insert_key_value(2, vec![20]);
    store.delete(2);
    let mut compacted = storage.compact_data(&store);
    compacted.sort_by_key(|d| d.uuid);
    assert_eq!(
        compacted,
        vec![Document::new(1, vec![10], Status::In), Document::new(3, vec![31], Status::In)]
    );
    assert_eq!(store.len(), 2);
    assert!(storage.compact_data(&Store::empty()).is_empty());
}
