use crate::document::DocumentView;
use crate::status::Status;
use crate::storage::{apply, replay, replay_from};
use vstd::prelude::*;

verus! {

/// The engine as a mathematical object.
pub struct EngineState {
    /// The index: the current payload of every live identifier.
    pub index: Map<u128, Seq<u8>>,
    /// The log: every envelope that the log file holds once the pending
    /// envelopes have been written to it.
    pub journal: Seq<DocumentView>,
    /// How many envelopes at the head of the journal the log file is known
    /// to hold already.
    pub flushed: nat,
    /// Whether the pending envelopes are to replace the content of the log
    /// file, as after a compaction, instead of being appended to it.
    pub rewrite: bool,
}

/// One write to a single record.
pub enum Command {
    Insert { id: u128, data: Seq<u8> },
    Update { id: u128, data: Seq<u8> },
    Delete { id: u128 },
}

/// The identifiers of a batch of envelopes, in its order.
pub open spec fn envelope_ids(batch: Seq<DocumentView>) -> Seq<u128> {
    batch.map_values(|e: DocumentView| e.uuid)
}

/// Whether `batch` holds exactly one envelope for each identifier of `ids`,
/// each with the payload `data` and the tag `st`, in any order.
pub open spec fn is_batch(
    batch: Seq<DocumentView>,
    ids: Set<u128>,
    data: Seq<u8>,
    st: Status,
) -> bool {
    &&& envelope_ids(batch).no_duplicates()
    &&& envelope_ids(batch).to_set() == ids
    &&& batch.len() == ids.len()
    &&& forall|i: int|
        0 <= i < batch.len() ==> (#[trigger] batch[i]).data == data && batch[i].st == st
}

impl EngineState {
    /// An engine that has never been written to.
    pub open spec fn fresh() -> EngineState {
        EngineState { index: Map::empty(), journal: Seq::empty(), flushed: 0, rewrite: false }
    }

    /// The envelopes that are not in the log file yet.
    pub open spec fn pending(self) -> Seq<DocumentView> {
        self.journal.skip(self.flushed as int)
    }

    /// Memory and log agree: the index is what the log replays to. While a
    /// rewrite of the file is due, nothing of the journal counts as written.
    pub open spec fn consistent(self) -> bool {
        &&& self.index == replay(self.journal)
        &&& self.flushed <= self.journal.len()
        &&& self.rewrite ==> self.flushed == 0
    }

    /// What the log file holds after the pending envelopes were written to a
    /// file that held `file`: they replace its content where a rewrite is
    /// due, and follow it otherwise.
    pub open spec fn file_after(self, file: Seq<DocumentView>) -> Seq<DocumentView> {
        if self.rewrite {
            self.pending()
        } else {
            file + self.pending()
        }
    }

    /// The state after the caller has written the pending envelopes to the
    /// log file: nothing is pending and no rewrite is due.
    pub open spec fn acknowledge(self) -> EngineState {
        EngineState {
            index: self.index,
            journal: self.journal,
            flushed: self.journal.len(),
            rewrite: false,
        }
    }

    /// The state after a compaction was planned: the index is as it was, the
    /// journal is the compacted log, and all of it is pending as a rewrite of
    /// the file.
    pub open spec fn compact(self, compacted: Seq<DocumentView>) -> EngineState {
        EngineState { index: self.index, journal: compacted, flushed: 0, rewrite: true }
    }

    /// The payload of `id`, if the identifier is live.
    pub open spec fn find(self, id: u128) -> Option<Seq<u8>> {
        if self.index.contains_key(id) {
            Some(self.index[id])
        } else {
            None
        }
    }

    /// The state after one envelope was applied to memory and queued for the
    /// log.
    pub open spec fn write(self, e: DocumentView) -> EngineState {
        EngineState {
            index: apply(self.index, e),
            journal: self.journal.push(e),
            flushed: self.flushed,
            rewrite: self.rewrite,
        }
    }

    /// The state after a batch of envelopes was applied to memory, in order,
    /// and queued for the log.
    pub open spec fn write_all(self, batch: Seq<DocumentView>) -> EngineState {
        EngineState {
            index: replay_from(self.index, batch),
            journal: self.journal + batch,
            flushed: self.flushed,
            rewrite: self.rewrite,
        }
    }

    /// The state after `data` was stored under `id`.
    pub open spec fn insert(self, id: u128, data: Seq<u8>) -> EngineState {
        self.write(DocumentView { uuid: id, data, st: Status::In })
    }

    /// The state after an update of `id`: a live identifier gets the new
    /// payload and an update envelope; for an absent one nothing happens.
    pub open spec fn update(self, id: u128, data: Seq<u8>) -> EngineState {
        if self.index.contains_key(id) {
            self.write(DocumentView { uuid: id, data, st: Status::Up })
        } else {
            self
        }
    }

    /// The state after a removal of `id`: a live identifier becomes absent
    /// and the log gets a removal envelope with an empty payload; for an
    /// absent one nothing happens.
    pub open spec fn delete(self, id: u128) -> EngineState {
        if self.index.contains_key(id) {
            self.write(DocumentView { uuid: id, data: Seq::empty(), st: Status::De })
        } else {
            self
        }
    }

    /// The state after one command.
    pub open spec fn step(self, c: Command) -> EngineState {
        match c {
            Command::Insert { id, data } => self.insert(id, data),
            Command::Update { id, data } => self.update(id, data),
            Command::Delete { id } => self.delete(id),
        }
    }

    /// The state after a sequence of commands, applied in order.
    pub open spec fn run(self, cmds: Seq<Command>) -> EngineState
        decreases cmds.len(),
    {
        if cmds.len() == 0 {
            self
        } else {
            self.run(cmds.drop_last()).step(cmds.last())
        }
    }

    /// The envelopes that took the journal from `self` to `after`.
    pub open spec fn written(self, after: EngineState) -> Seq<DocumentView> {
        after.journal.skip(self.journal.len() as int)
    }
}

} // verus!
