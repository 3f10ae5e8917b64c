use super::state::{envelope_ids, is_batch, Command, EngineState};
use crate::document::DocumentView;
use crate::status::Status;
use crate::storage::{
    is_snapshot, lemma_last_write_in_log, lemma_last_write_wins, lemma_replay_concat,
    lemma_replay_push, lemma_snapshot_replays, replay, replay_from,
};
use crate::store::replace_all;
use vstd::prelude::*;

verus! {

/// Queuing an envelope keeps memory and log in agreement.
pub proof fn lemma_write_consistent(s: EngineState, e: DocumentView)
    requires
        s.consistent(),
    ensures
        s.write(e).consistent(),
{
    lemma_replay_push(Map::empty(), s.journal, e);
}

/// Queuing a batch of envelopes keeps memory and log in agreement.
pub proof fn lemma_write_all_consistent(s: EngineState, batch: Seq<DocumentView>)
    requires
        s.consistent(),
    ensures
        s.write_all(batch).consistent(),
{
    lemma_replay_concat(Map::empty(), s.journal, batch);
}

/// Every command keeps memory and log in agreement.
pub proof fn lemma_step_consistent(s: EngineState, c: Command)
    requires
        s.consistent(),
    ensures
        s.step(c).consistent(),
{
    match c {
        Command::Insert { id, data } => {
            lemma_write_consistent(s, DocumentView { uuid: id, data, st: Status::In });
        },
        Command::Update { id, data } => {
            lemma_write_consistent(s, DocumentView { uuid: id, data, st: Status::Up });
        },
        Command::Delete { id } => {
            let e = DocumentView { uuid: id, data: Seq::empty(), st: Status::De };
            lemma_write_consistent(s, e);
        },
    }
}

/// Any sequence of commands keeps memory and log in agreement.
pub proof fn lemma_run_consistent(s: EngineState, cmds: Seq<Command>)
    requires
        s.consistent(),
    ensures
        s.run(cmds).consistent(),
    decreases cmds.len(),
{
    if cmds.len() > 0 {
        lemma_run_consistent(s, cmds.drop_last());
        lemma_step_consistent(s.run(cmds.drop_last()), cmds.last());
    }
}

/// Recovery: whatever inserts, updates and removals were applied to a fresh
/// engine, replaying the log they left rebuilds exactly the index they left.
/// For each identifier the last write wins, and a removal removes.
pub proof fn lemma_recovery(cmds: Seq<Command>)
    ensures
        replay(EngineState::fresh().run(cmds).journal) == EngineState::fresh().run(cmds).index,
{
    lemma_run_consistent(EngineState::fresh(), cmds);
}

/// A record that was inserted is found under its identifier, with the value
/// that was inserted.
pub proof fn lemma_insert_then_find(s: EngineState, id: u128, data: Seq<u8>)
    ensures
        s.insert(id, data).find(id) == Some(data),
{
}

/// Updating an absent identifier changes neither the index nor the log;
/// updating a live one makes the new value the one that is found.
pub proof fn lemma_update(s: EngineState, id: u128, data: Seq<u8>)
    ensures
        s.find(id) is None ==> s.update(id, data) == s,
        s.find(id) is Some ==> s.update(id, data).find(id) == Some(data),
{
}

/// After a removal the identifier is not found, and a second removal finds
/// nothing to remove: it changes neither the index nor the log.
pub proof fn lemma_delete(s: EngineState, id: u128)
    ensures
        s.delete(id).find(id) is None,
        s.delete(id).delete(id) == s.delete(id),
{
}

/// A sequence of commands only ever adds to the journal: the log it found is
/// a prefix of the log it leaves, so a log file cut off between two appends
/// still replays to a state that the engine was in.
pub proof fn lemma_run_extends_journal(s: EngineState, cmds: Seq<Command>)
    ensures
        s.journal.is_prefix_of(s.run(cmds).journal),
        s.run(cmds).flushed == s.flushed,
        s.run(cmds).rewrite == s.rewrite,
    decreases cmds.len(),
{
    if cmds.len() > 0 {
        lemma_run_extends_journal(s, cmds.drop_last());
    }
}

/// Writing what is pending brings the log file up to the journal: if the
/// file holds the part of the journal that counts as written, then after the
/// pending envelopes were appended, or have replaced the file where a rewrite
/// is due, the file holds the journal, and replaying it gives the index.
pub proof fn lemma_written_file_is_journal(s: EngineState, file: Seq<DocumentView>)
    requires
        s.consistent(),
        !s.rewrite ==> file == s.journal.take(s.flushed as int),
    ensures
        s.file_after(file) == s.journal,
        replay(s.file_after(file)) == s.index,
        s.acknowledge().consistent(),
        s.acknowledge().pending() == Seq::<DocumentView>::empty(),
{
    assert(s.journal.take(s.flushed as int) + s.journal.skip(s.flushed as int) =~= s.journal);
    assert(s.journal.skip(0) =~= s.journal);
    assert(s.acknowledge().pending() =~= Seq::<DocumentView>::empty());
}

/// Compaction is invisible: an engine whose journal is replaced by a
/// compacted image of its index finds the same value under every identifier,
/// and its memory and log still agree.
pub proof fn lemma_compaction(s: EngineState, compacted: Seq<DocumentView>)
    requires
        is_snapshot(compacted, s.index),
    ensures
        s.compact(compacted).consistent(),
        s.compact(compacted).index == s.index,
        forall|id: u128| s.compact(compacted).find(id) == #[trigger] s.find(id),
{
    lemma_snapshot_replays(compacted, s.index);
}

/// Applying a batch of inserts or updates, in any order, gives every
/// identifier of the batch the batch's payload and leaves the others alone.
pub proof fn lemma_replay_update_batch(
    m: Map<u128, Seq<u8>>,
    batch: Seq<DocumentView>,
    ids: Set<u128>,
    data: Seq<u8>,
    st: Status,
)
    requires
        is_batch(batch, ids, data, st),
        st != Status::De,
        ids.subset_of(m.dom()),
    ensures
        replay_from(m, batch) == replace_all(m, ids, data),
{
    let r = replay_from(m, batch);
    assert forall|k: u128|
        (#[trigger] r.contains_key(k)) == m.contains_key(k) && (m.contains_key(k) ==> r[k] == (
        if ids.contains(k) {
            data
        } else {
            m[k]
        })) by {
        lemma_last_write_wins(m, batch, k);
        lemma_last_write_in_log(batch, k);
        lemma_batch_ids(batch, k);
    }
    assert(r =~= replace_all(m, ids, data));
}

/// Applying a batch of removals, in any order, removes exactly the
/// identifiers of the batch.
pub proof fn lemma_replay_delete_batch(
    m: Map<u128, Seq<u8>>,
    batch: Seq<DocumentView>,
    ids: Set<u128>,
    data: Seq<u8>,
)
    requires
        is_batch(batch, ids, data, Status::De),
    ensures
        replay_from(m, batch) == m.remove_keys(ids),
{
    let r = replay_from(m, batch);
    assert forall|k: u128|
        (#[trigger] r.contains_key(k)) == (m.contains_key(k) && !ids.contains(k))
            && (r.contains_key(k) ==> r[k] == m[k]) by {
        lemma_last_write_wins(m, batch, k);
        lemma_last_write_in_log(batch, k);
        lemma_batch_ids(batch, k);
    }
    assert(r =~= m.remove_keys(ids));
}

/// An identifier is among the identifiers of a batch exactly when the batch
/// holds an envelope for it.
pub proof fn lemma_batch_ids(batch: Seq<DocumentView>, k: u128)
    ensures
        envelope_ids(batch).to_set().contains(k) <==> exists|i: int|
            0 <= i < batch.len() && (#[trigger] batch[i]).uuid == k,
{
    let ids = envelope_ids(batch);
    if ids.to_set().contains(k) {
        assert(ids.contains(k));
        let i = choose|i: int| 0 <= i < ids.len() && ids[i] == k;
        assert(batch[i].uuid == k);
    }
    if exists|i: int| 0 <= i < batch.len() && (#[trigger] batch[i]).uuid == k {
        let i = choose|i: int| 0 <= i < batch.len() && (#[trigger] batch[i]).uuid == k;
        assert(ids[i] == k);
        assert(ids.contains(k));
    }
}

} // verus!
