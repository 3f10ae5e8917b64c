use super::{is_snapshot, lemma_replay_push, replay};
use crate::bytes::copy_bytes;
use crate::document::{views, Document, DocumentView};
use crate::error::{RedDbError, RedDbErrorKind};
use crate::serializer::Serializer;
use crate::status::Status;
use crate::store::Store;
use vstd::prelude::*;
use vstd::string::StringExecFns;

verus! {

/// Whether every line of a log that was read back parsed as an envelope.
pub open spec fn all_parsed(records: Seq<Option<Document>>) -> bool {
    forall|i: int| 0 <= i < records.len() ==> (#[trigger] records[i]) is Some
}

/// The envelopes of a log that was read back, in order.
pub open spec fn parsed(records: Seq<Option<Document>>) -> Seq<DocumentView> {
    records.map_values(|r: Option<Document>| r->0@)
}

/// The log file of one store: where it lives and in which format it is
/// written. It plans what is read from and written to the file; opening,
/// reading and writing the file are left to the caller.
pub struct FileStorage<SE: Serializer> {
    file_path: String,
    serializer: SE,
}

impl<SE: Serializer> FileStorage<SE> {
    /// The path of the log file.
    pub closed spec fn spec_file_path(&self) -> Seq<char> {
        self.file_path@
    }

    /// The storage of the store named `db_name`. Its file is `db_name`
    /// followed by the extension of the format, so that a log is never
    /// reopened in another format by accident.
    pub fn new(db_name: &str) -> (s: Self)
        ensures
            s.spec_file_path() == db_name@ + SE::standard_extension(),
    {
        let serializer = SE::create();
        let mut file_path = String::from_str(db_name);
        file_path.append(serializer.format().extension());
        Self { file_path, serializer }
    }

    /// The path of the log file.
    pub fn file_path(&self) -> (path: &str)
        ensures
            path@ == self.spec_file_path(),
    {
        self.file_path.as_str()
    }

    /// The format of the log file.
    pub closed spec fn spec_serializer(&self) -> SE {
        self.serializer
    }

    /// The format of the log file.
    pub fn serializer(&self) -> (serializer: &SE)
        ensures
            *serializer == self.spec_serializer(),
    {
        &self.serializer
    }

    /// Rebuilds the index from a log that was read back, one entry per line
    /// and `None` for a line that did not parse, and plans the compacted log
    /// that is to replace the file.
    ///
    /// A single unreadable line aborts the load with `DataCorruption`:
    /// nothing is skipped. Otherwise the envelopes are applied in order to an
    /// empty index, so the last write of each identifier wins and removals
    /// win over earlier writes.
    pub fn load(&self, records: &Vec<Option<Document>>) -> (r: Result<
        (Store, Vec<Document>),
        RedDbError,
    >)
        ensures
            match r {
                Ok((store, compacted)) => {
                    &&& all_parsed(records@)
                    &&& store@ == replay(parsed(records@))
                    &&& is_snapshot(views(compacted@), store@)
                    &&& compacted@.len() == store@.len()
                },
                Err(e) => !all_parsed(records@) && e.err == RedDbErrorKind::DataCorruption,
            },
    {
        let mut store = Store::empty();
        let mut i: usize = 0;
        while i < records.len()
            invariant
                i <= records@.len(),
                forall|j: int| 0 <= j < i ==> (#[trigger] records@[j]) is Some,
                store@ == replay(parsed(records@).take(i as int)),
            decreases records@.len() - i,
        {
            match &records[i] {
                Some(doc) => {
                    proof {
                        let log = parsed(records@);
                        assert(log.take(i + 1) =~= log.take(i as int).push(log[i as int]));
                        lemma_replay_push(Map::empty(), log.take(i as int), log[i as int]);
                        assert(log[i as int] == doc@);
                    }
                    match doc._st {
                        Status::De => {
                            store.delete_key(doc.uuid);
                        },
                        _ => {
                            store.insert_key_value(doc.uuid, copy_bytes(doc.data.as_slice()));
                        },
                    }
                },
                None => {
                    return Err(RedDbError { err: RedDbErrorKind::DataCorruption });
                },
            }
            i += 1;
        }
        proof {
            assert(parsed(records@).take(records@.len() as int) =~= parsed(records@));
        }
        let compacted = self.compact_data(&store);
        Ok((store, compacted))
    }

    /// The compacted log of an index: one fresh-insert envelope per live
    /// identifier, holding its current payload, and nothing else. The index
    /// itself is not touched.
    pub fn compact_data(&self, data: &Store) -> (compacted: Vec<Document>)
        ensures
            is_snapshot(views(compacted@), data@),
            compacted@.len() == data@.len(),
    {
        let ids = data.keys();
        let mut compacted: Vec<Document> = Vec::new();
        let mut i: usize = 0;
        while i < ids.len()
            invariant
                i <= ids@.len(),
                compacted@.len() == i,
                forall|k: u128| ids@.contains(k) <==> data@.contains_key(k),
                forall|j: int|
                    0 <= j < i ==> {
                        &&& (#[trigger] compacted@[j]).uuid == ids@[j]
                        &&& compacted@[j]._st == Status::In
                        &&& data@[ids@[j]] == compacted@[j].data@
                    },
            decreases ids@.len() - i,
        {
            let id = ids[i];
            assert(ids@.contains(id));
            match data.find(id) {
                Some(payload) => {
                    compacted.push(Document::new(id, payload, Status::In));
                },
                None => {
                    assert(false);
                },
            }
            i += 1;
        }
        proof {
            let log = views(compacted@);
            assert forall|k: u128| data@.contains_key(k) implies exists|i: int|
                0 <= i < log.len() && (#[trigger] log[i]).uuid == k by {
                assert(ids@.contains(k));
                let p = choose|p: int| 0 <= p < ids@.len() && ids@[p] == k;
                assert(log[p].uuid == k);
            }
            assert forall|i: int| 0 <= i < log.len() implies {
                &&& (#[trigger] log[i]).st == Status::In
                &&& data@.contains_key(log[i].uuid)
                &&& data@[log[i].uuid] == log[i].data
            } by {
                assert(ids@.contains(ids@[i]));
                assert(compacted@[i].uuid == ids@[i]);
            }
            ids@.unique_seq_to_set();
            assert(ids@.to_set() =~= data@.dom());
        }
        compacted
    }
}

} // verus!
