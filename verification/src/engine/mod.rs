use crate::bytes::copy_bytes;
use crate::document::{views, Document, DocumentView};
use crate::error::{RedDbError, RedDbErrorKind};
use crate::identifier::{is_v4, new_v4};
use crate::serializer::Serializer;
use crate::status::Status;
use crate::storage::file::{all_parsed, parsed};
use crate::storage::{is_snapshot, lemma_replay_push, lemma_snapshot_replays, replay, FileStorage};
use crate::store::{matching, op_ids, replace_all, Store, WriteOperation};
use vstd::prelude::*;

pub mod laws;
pub mod state;

use laws::{
    lemma_replay_delete_batch, lemma_replay_update_batch, lemma_write_all_consistent,
    lemma_write_consistent,
};
pub use state::{envelope_ids, is_batch, Command, EngineState};

verus! {

/// An engine whose log is written in the binary format.
pub type BinDb = RedDb<crate::serializer::Bin>;

/// An engine whose log is written as JSON.
pub type JsonDb = RedDb<crate::serializer::Json>;

/// An engine whose log is written as YAML.
pub type YamlDb = RedDb<crate::serializer::Yaml>;

/// An engine whose log is written as RON.
pub type RonDb = RedDb<crate::serializer::Ron>;

/// The storage engine: an index in memory and the journal of envelopes that
/// make it durable.
///
/// Every write is applied to the index first and its envelope is queued. The
/// caller writes the queue, which [`RedDb::pending`] shows, to the log file,
/// appending it or, where [`RedDb::must_rewrite`] says so, replacing the
/// file with it, and then calls [`RedDb::acknowledge`]. A write whose
/// envelope has not been acknowledged is committed in memory only: it stays
/// queued, in order, until a later write of the queue succeeds. Reads never
/// touch the queue.
pub struct RedDb<SE: Serializer> {
    storage: FileStorage<SE>,
    data: Store,
    pending: Vec<Document>,
    rewrite: bool,
    log: Ghost<Seq<DocumentView>>,
}

impl<SE: Serializer> View for RedDb<SE> {
    type V = EngineState;

    closed spec fn view(&self) -> EngineState {
        EngineState {
            index: self.data@,
            journal: self.log@,
            flushed: (self.log@.len() - self.pending@.len()) as nat,
            rewrite: self.rewrite,
        }
    }
}

impl<SE: Serializer> RedDb<SE> {
    /// The queue holds exactly the tail of the journal that was not handed
    /// out yet.
    closed spec fn linked(&self) -> bool {
        &&& self.pending@.len() <= self.log@.len()
        &&& views(self.pending@) == self.log@.skip(self.log@.len() - self.pending@.len())
    }

    /// The engine is in order: its index is what its journal replays to.
    pub closed spec fn wf(&self) -> bool {
        &&& self.linked()
        &&& self@.consistent()
    }

    /// The path of the log file.
    pub closed spec fn spec_file_path(&self) -> Seq<char> {
        self.storage.spec_file_path()
    }

    /// In an engine that is in order, memory and log agree: replaying the
    /// journal gives the index.
    pub proof fn lemma_wf_consistent(&self)
        requires
            self.wf(),
        ensures
            self@.consistent(),
            replay(self@.journal) == self@.index,
    {
    }

    /// Starts the engine named `db_name` from the envelopes read back from
    /// its log file, one entry per line and `None` for a line that did not
    /// parse.
    ///
    /// An unreadable line aborts the start with `DataCorruption`. Otherwise
    /// the log is replayed and its compaction is planned: the compacted log
    /// is pending as a rewrite of the file. An empty log gives a fresh engine
    /// with nothing to write.
    pub fn new(db_name: &str, records: &Vec<Option<Document>>) -> (r: Result<Self, RedDbError>)
        ensures
            match r {
                Ok(db) => {
                    &&& all_parsed(records@)
                    &&& db.wf()
                    &&& db.spec_file_path() == db_name@ + SE::standard_extension()
                    &&& db@.index == replay(parsed(records@))
                    &&& is_snapshot(db@.journal, db@.index)
                    &&& db@.journal.len() == db@.index.len()
                    &&& db@.flushed == 0
                    &&& db@.rewrite == (records@.len() > 0)
                },
                Err(e) => !all_parsed(records@) && e.err == RedDbErrorKind::DataCorruption,
            },
    {
        let storage = FileStorage::<SE>::new(db_name);
        match storage.load(records) {
            Ok((data, compacted)) => {
                let rewrite = records.len() > 0;
                let ghost log = views(compacted@);
                proof {
                    lemma_snapshot_replays(log, data@);
                    assert(log.skip(0) =~= log);
                }
                Ok(Self { storage, data, pending: compacted, rewrite, log: Ghost(log) })
            },
            Err(e) => Err(e),
        }
    }

    /// The path of the log file: the name of the store followed by the
    /// extension of its format.
    pub fn file_path(&self) -> (path: &str)
        ensures
            path@ == self.spec_file_path(),
    {
        self.storage.file_path()
    }

    /// Queues one envelope for the log.
    fn queue(&mut self, doc: Document)
        requires
            old(self).linked(),
        ensures
            final(self).linked(),
            final(self)@.index == old(self)@.index,
            final(self)@.journal == old(self)@.journal.push(doc@),
            final(self)@.flushed == old(self)@.flushed,
            final(self)@.rewrite == old(self)@.rewrite,
    {
        let ghost e = doc@;
        proof {
            let n = self.log@.len() - self.pending@.len();
            assert(views(self.pending@.push(doc)) =~= views(self.pending@).push(e));
            assert(self.log@.push(e).skip(n) =~= self.log@.skip(n).push(e));
        }
        self.pending.push(doc);
        self.log = Ghost(self.log@.push(e));
    }

    /// The envelopes that are not in the log file yet, in the order in which
    /// they were written: what the caller has to write next, in one go.
    pub fn pending(&self) -> (batch: &Vec<Document>)
        requires
            self.wf(),
        ensures
            views(batch@) == self@.pending(),
    {
        proof {
            assert(self.log@.len() - self.pending@.len() == self@.flushed);
        }
        &self.pending
    }

    /// Whether the pending envelopes are to replace the content of the log
    /// file instead of being appended to it.
    pub fn must_rewrite(&self) -> (rewrite: bool)
        ensures
            rewrite == self@.rewrite,
    {
        self.rewrite
    }

    /// Records that the caller has written the pending envelopes to the log
    /// file. Nothing is pending afterwards and no rewrite is due; the index
    /// and the journal are as they were.
    pub fn acknowledge(&mut self)
        requires
            old(self).wf(),
        ensures
            final(self).wf(),
            final(self)@ == old(self)@.acknowledge(),
    {
        self.pending = Vec::new();
        self.rewrite = false;
        proof {
            assert(views(self.pending@) =~= self.log@.skip(self.log@.len() as int));
        }
    }

    /// Plans a compaction: the journal becomes the compacted log, one
    /// fresh-insert envelope per live identifier, and all of it is pending as
    /// a rewrite of the file. The index is not touched. Envelopes that were
    /// still pending are dropped from the queue, since the compacted log
    /// holds their effect.
    pub fn compact(&mut self)
        requires
            old(self).wf(),
        ensures
            final(self).wf(),
            is_snapshot(final(self)@.journal, old(self)@.index),
            final(self)@.journal.len() == old(self)@.index.len(),
            final(self)@ == old(self)@.compact(final(self)@.journal),
    {
        let compacted = self.storage.compact_data(&self.data);
        let ghost log = views(compacted@);
        self.pending = compacted;
        self.rewrite = true;
        self.log = Ghost(log);
        proof {
            lemma_snapshot_replays(log, self.data@);
            assert(log.skip(0) =~= log);
        }
    }

    /// Stores `value` under `id` and queues the insert envelope, which is
    /// returned. A payload already stored under `id` is replaced.
    pub fn insert_document(&mut self, id: u128, value: Vec<u8>) -> (doc: Document)
        requires
            old(self).wf(),
        ensures
            final(self).wf(),
            doc@ == (DocumentView { uuid: id, data: value@, st: Status::In }),
            final(self)@ == old(self)@.insert(id, value@),
    {
        let ghost e = DocumentView { uuid: id, data: value@, st: Status::In };
        let stored = copy_bytes(value.as_slice());
        let queued = copy_bytes(value.as_slice());
        self.data.insert_key_value(id, stored);
        self.queue(Document::new(id, queued, Status::In));
        proof {
            lemma_write_consistent(old(self)@, e);
        }
        Document::new(id, value, Status::In)
    }

    /// Stores `value` under a newly minted identifier and queues the insert
    /// envelope, which is returned with the identifier in it.
    pub fn insert_one(&mut self, value: Vec<u8>) -> (doc: Document)
        requires
            old(self).wf(),
        ensures
            final(self).wf(),
            is_v4(doc.uuid),
            doc@ == (DocumentView { uuid: doc.uuid, data: value@, st: Status::In }),
            final(self)@ == old(self)@.insert(doc.uuid, value@),
    {
        let id = new_v4();
        self.insert_document(id, value)
    }

    /// The record stored under `id`. An absent identifier is an error here,
    /// not an empty result.
    pub fn find_one(&self, id: u128) -> (r: Result<Document, RedDbError>)
        ensures
            match r {
                Ok(doc) => self@.find(id) == Some(doc.data@) && doc.uuid == id && doc._st
                    == Status::In,
                Err(e) => self@.find(id) is None && e.err == (RedDbErrorKind::NotFound {
                    uuid: id,
                }),
            },
    {
        match self.data.find(id) {
            Some(data) => Ok(Document::new(id, data, Status::In)),
            None => Err(RedDbError { err: RedDbErrorKind::NotFound { uuid: id } }),
        }
    }

    /// Replaces the value of `id` if the identifier is live, queues the
    /// update envelope, and says whether it was live. For an absent
    /// identifier nothing is stored and nothing is queued.
    pub fn update_one(&mut self, id: u128, new_value: Vec<u8>) -> (present: bool)
        requires
            old(self).wf(),
        ensures
            final(self).wf(),
            present == (old(self)@.find(id) is Some),
            final(self)@ == old(self)@.update(id, new_value@),
    {
        if self.data.contains(id) {
            let ghost e = DocumentView { uuid: id, data: new_value@, st: Status::Up };
            let stored = copy_bytes(new_value.as_slice());
            self.data.insert_key_value(id, stored);
            self.queue(Document::new(id, new_value, Status::Up));
            proof {
                lemma_write_consistent(old(self)@, e);
            }
            true
        } else {
            false
        }
    }

    /// Removes the record of `id` and queues a removal envelope with an empty
    /// payload. The record removed is returned, tagged as removed; an absent
    /// identifier is reported as not found and changes nothing.
    pub fn remove_document(&mut self, id: u128) -> (r: Result<Document, RedDbError>)
        requires
            old(self).wf(),
        ensures
            final(self).wf(),
            final(self)@ == old(self)@.delete(id),
            match r {
                Ok(doc) => old(self)@.find(id) == Some(doc.data@) && doc.uuid == id && doc._st
                    == Status::De,
                Err(e) => old(self)@.find(id) is None && e.err == (RedDbErrorKind::NotFound {
                    uuid: id,
                }),
            },
    {
        match self.data.delete_key(id) {
            Some(data) => {
                let ghost e = DocumentView { uuid: id, data: Seq::empty(), st: Status::De };
                self.queue(Document::new(id, Vec::new(), Status::De));
                proof {
                    lemma_write_consistent(old(self)@, e);
                }
                Ok(Document::new(id, data, Status::De))
            },
            None => {
                proof {
                    assert(self.data@ =~= old(self).data@);
                }
                Err(RedDbError { err: RedDbErrorKind::NotFound { uuid: id } })
            },
        }
    }

    /// Removes the record of `id`; see [`RedDb::remove_document`].
    pub fn delete_one(&mut self, id: u128) -> (r: Result<Document, RedDbError>)
        requires
            old(self).wf(),
        ensures
            final(self).wf(),
            final(self)@ == old(self)@.delete(id),
            match r {
                Ok(doc) => old(self)@.find(id) == Some(doc.data@) && doc.uuid == id && doc._st
                    == Status::De,
                Err(e) => old(self)@.find(id) is None && e.err == (RedDbErrorKind::NotFound {
                    uuid: id,
                }),
            },
    {
        self.remove_document(id)
    }

    /// Queues one envelope per entry of `ops`, in order, each with the
    /// payload `payload` and the tag `st`.
    fn queue_batch(&mut self, ops: &Vec<WriteOperation>, payload: &[u8], st: Status)
        requires
            old(self).linked(),
        ensures
            final(self).linked(),
            final(self)@.index == old(self)@.index,
            final(self)@.flushed == old(self)@.flushed,
            final(self)@.rewrite == old(self)@.rewrite,
            final(self)@.journal == old(self)@.journal + old(self)@.written(final(self)@),
            envelope_ids(old(self)@.written(final(self)@)) == op_ids(ops@),
            forall|i: int|
                0 <= i < ops@.len() ==> (#[trigger] old(self)@.written(final(self)@)[i]).data
                    == payload@ && old(self)@.written(final(self)@)[i].st == st,
    {
        let ghost mut batch: Seq<DocumentView> = Seq::empty();
        let mut i: usize = 0;
        proof {
            assert(self@.journal + batch =~= self@.journal);
        }
        while i < ops.len()
            invariant
                i <= ops@.len(),
                self.linked(),
                self@.index == old(self)@.index,
                self@.flushed == old(self)@.flushed,
                self@.rewrite == old(self)@.rewrite,
                self@.journal == old(self)@.journal + batch,
                batch.len() == i,
                envelope_ids(batch) == op_ids(ops@).take(i as int),
                forall|j: int|
                    0 <= j < i ==> (#[trigger] batch[j]).data == payload@ && batch[j].st == st,
            decreases ops@.len() - i,
        {
            let doc = Document::new(ops[i].0, copy_bytes(payload), st);
            proof {
                assert(envelope_ids(batch.push(doc@)) =~= op_ids(ops@).take(i + 1));
                assert(old(self)@.journal + batch.push(doc@) =~= (old(self)@.journal + batch).push(
                    doc@,
                ));
                batch = batch.push(doc@);
            }
            self.queue(doc);
            i += 1;
        }
        proof {
            assert(op_ids(ops@).take(ops@.len() as int) =~= op_ids(ops@));
            assert(old(self)@.written(self@) =~= batch);
        }
    }

    /// The identifiers of the records whose value is exactly `search`, once
    /// each, in no particular order.
    pub fn find_uuids(&self, search: &[u8]) -> (ids: Vec<u128>)
        ensures
            ids@.no_duplicates(),
            ids@.to_set() == matching(self@.index, search@),
            ids@.len() == matching(self@.index, search@).len(),
    {
        self.data.find_keys(search)
    }

    /// Every live record, once, in no particular order.
    pub fn find_all(&self) -> (docs: Vec<Document>)
        ensures
            is_snapshot(views(docs@), self@.index),
            docs@.len() == self@.index.len(),
    {
        self.storage.compact_data(&self.data)
    }

    /// The records whose value is exactly `search`: one per matching
    /// identifier, in no particular order.
    pub fn find(&self, search: &[u8]) -> (docs: Vec<Document>)
        ensures
            is_batch(views(docs@), matching(self@.index, search@), search@, Status::In),
    {
        let ids = self.data.find_keys(search);
        let mut docs: Vec<Document> = Vec::new();
        let mut i: usize = 0;
        while i < ids.len()
            invariant
                i <= ids@.len(),
                docs@.len() == i,
                envelope_ids(views(docs@)) == ids@.take(i as int),
                forall|j: int|
                    0 <= j < i ==> (#[trigger] views(docs@)[j]).data == search@ && views(
                        docs@,
                    )[j].st == Status::In,
            decreases ids@.len() - i,
        {
            let doc = Document::new(ids[i], copy_bytes(search), Status::In);
            proof {
                assert(views(docs@.push(doc)) =~= views(docs@).push(doc@));
                assert(envelope_ids(views(docs@).push(doc@)) =~= ids@.take(i + 1));
            }
            docs.push(doc);
            i += 1;
        }
        proof {
            assert(ids@.take(ids@.len() as int) =~= ids@);
        }
        docs
    }

    /// Stores each value under a newly minted identifier, in the order given,
    /// and queues one insert envelope per value. The envelopes are returned
    /// in the same order.
    pub fn insert(&mut self, values: Vec<Vec<u8>>) -> (docs: Vec<Document>)
        requires
            old(self).wf(),
        ensures
            final(self).wf(),
            docs@.len() == values@.len(),
            forall|j: int|
                0 <= j < docs@.len() ==> {
                    &&& is_v4((#[trigger] docs@[j]).uuid)
                    &&& docs@[j].data@ == values@[j]@
                    &&& docs@[j]._st == Status::In
                },
            final(self)@ == old(self)@.write_all(views(docs@)),
    {
        let mut docs: Vec<Document> = Vec::new();
        let mut i: usize = 0;
        proof {
            assert(old(self)@.journal + views(docs@) =~= old(self)@.journal);
        }
        while i < values.len()
            invariant
                i <= values@.len(),
                self.wf(),
                docs@.len() == i,
                forall|j: int|
                    0 <= j < i ==> {
                        &&& is_v4((#[trigger] docs@[j]).uuid)
                        &&& docs@[j].data@ == values@[j]@
                        &&& docs@[j]._st == Status::In
                    },
                self@ == old(self)@.write_all(views(docs@)),
            decreases values@.len() - i,
        {
            let ghost before = views(docs@);
            let doc = self.insert_one(copy_bytes(values[i].as_slice()));
            proof {
                assert(views(docs@.push(doc)) =~= before.push(doc@));
                lemma_replay_push(old(self)@.index, before, doc@);
                assert(old(self)@.journal + before.push(doc@) =~= (old(self)@.journal
                    + before).push(doc@));
            }
            docs.push(doc);
            i += 1;
        }
        docs
    }

    /// Replaces the value of every record whose value is exactly `search` by
    /// `new_value`, queues one update envelope per record changed, and
    /// returns how many were changed.
    pub fn update(&mut self, search: &[u8], new_value: &[u8]) -> (changed: usize)
        requires
            old(self).wf(),
        ensures
            final(self).wf(),
            changed == matching(old(self)@.index, search@).len(),
            final(self)@.index == replace_all(
                old(self)@.index,
                matching(old(self)@.index, search@),
                new_value@,
            ),
            is_batch(
                old(self)@.written(final(self)@),
                matching(old(self)@.index, search@),
                new_value@,
                Status::Up,
            ),
            final(self)@ == old(self)@.write_all(old(self)@.written(final(self)@)),
    {
        let ops = self.data.update_many(search, new_value);
        self.queue_batch(&ops, new_value, Status::Up);
        proof {
            let batch = old(self)@.written(self@);
            let ids = matching(old(self)@.index, search@);
            assert(batch.len() == envelope_ids(batch).len());
            lemma_replay_update_batch(old(self)@.index, batch, ids, new_value@, Status::Up);
            lemma_write_all_consistent(old(self)@, batch);
        }
        ops.len()
    }

    /// Removes every record whose value is exactly `search`, queues one
    /// removal envelope with an empty payload per record removed, and returns
    /// how many were removed.
    pub fn delete(&mut self, search: &[u8]) -> (removed: usize)
        requires
            old(self).wf(),
        ensures
            final(self).wf(),
            removed == matching(old(self)@.index, search@).len(),
            final(self)@.index == old(self)@.index.remove_keys(
                matching(old(self)@.index, search@),
            ),
            is_batch(
                old(self)@.written(final(self)@),
                matching(old(self)@.index, search@),
                Seq::<u8>::empty(),
                Status::De,
            ),
            final(self)@ == old(self)@.write_all(old(self)@.written(final(self)@)),
    {
        let ops = self.data.delete_many(search);
        let empty: Vec<u8> = Vec::new();
        self.queue_batch(&ops, empty.as_slice(), Status::De);
        proof {
            let batch = old(self)@.written(self@);
            let ids = matching(old(self)@.index, search@);
            assert(batch.len() == envelope_ids(batch).len());
            lemma_replay_delete_batch(old(self)@.index, batch, ids, Seq::<u8>::empty());
            lemma_write_all_consistent(old(self)@, batch);
        }
        ops.len()
    }
}

} // verus!
