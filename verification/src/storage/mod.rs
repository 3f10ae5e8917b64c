use crate::document::DocumentView;
use crate::status::Status;
use vstd::prelude::*;

pub mod file;
pub mod lines;

pub use file::FileStorage;

verus! {

/// The effect of one envelope on the index: an insert or an update stores
/// the payload under the identifier, over whatever was there; a removal
/// makes the identifier absent.
pub open spec fn apply(m: Map<u128, Seq<u8>>, e: DocumentView) -> Map<u128, Seq<u8>> {
    match e.st {
        Status::De => m.remove(e.uuid),
        _ => m.insert(e.uuid, e.data),
    }
}

/// The index reached from `m` by applying the envelopes of `log` in order.
pub open spec fn replay_from(m: Map<u128, Seq<u8>>, log: Seq<DocumentView>) -> Map<u128, Seq<u8>>
    decreases log.len(),
{
    if log.len() == 0 {
        m
    } else {
        apply(replay_from(m, log.drop_last()), log.last())
    }
}

/// The index that a log stands for: the result of applying its envelopes, in
/// order, to an empty index.
pub open spec fn replay(log: Seq<DocumentView>) -> Map<u128, Seq<u8>> {
    replay_from(Map::empty(), log)
}

/// The last envelope of `log` written for `id`, if there is one.
pub open spec fn last_write(log: Seq<DocumentView>, id: u128) -> Option<DocumentView>
    decreases log.len(),
{
    if log.len() == 0 {
        None
    } else if log.last().uuid == id {
        Some(log.last())
    } else {
        last_write(log.drop_last(), id)
    }
}

/// Whether `log` is a compacted image of the index `m`: every envelope is a
/// fresh insert of a live identifier with its current payload, and every live
/// identifier has exactly one envelope.
pub open spec fn is_snapshot(log: Seq<DocumentView>, m: Map<u128, Seq<u8>>) -> bool {
    &&& forall|i: int|
        0 <= i < log.len() ==> {
            &&& (#[trigger] log[i]).st == Status::In
            &&& m.contains_key(log[i].uuid)
            &&& m[log[i].uuid] == log[i].data
        }
    &&& forall|i: int, j: int|
        0 <= i < j < log.len() ==> (#[trigger] log[i]).uuid != (#[trigger] log[j]).uuid
    &&& forall|k: u128|
        m.contains_key(k) ==> exists|i: int| 0 <= i < log.len() && (#[trigger] log[i]).uuid == k
}

/// Replaying a log extended by one envelope applies that envelope to the
/// replay of the log.
pub proof fn lemma_replay_push(m: Map<u128, Seq<u8>>, log: Seq<DocumentView>, e: DocumentView)
    ensures
        replay_from(m, log.push(e)) == apply(replay_from(m, log), e),
{
    assert(log.push(e).drop_last() =~= log);
}

/// Replaying two logs one after the other is replaying their concatenation.
pub proof fn lemma_replay_concat(
    m: Map<u128, Seq<u8>>,
    first: Seq<DocumentView>,
    second: Seq<DocumentView>,
)
    ensures
        replay_from(m, first + second) == replay_from(replay_from(m, first), second),
    decreases second.len(),
{
    if second.len() == 0 {
        assert(first + second =~= first);
    } else {
        lemma_replay_concat(m, first, second.drop_last());
        assert((first + second).drop_last() =~= first + second.drop_last());
        assert((first + second).last() == second.last());
    }
}

/// Last writer wins: after replay an identifier is live exactly when the last
/// envelope written for it is not a removal, and it then holds that
/// envelope's payload. Earlier envelopes for the identifier, and the index
/// replay started from, have no say once the log mentions the identifier.
pub proof fn lemma_last_write_wins(m: Map<u128, Seq<u8>>, log: Seq<DocumentView>, id: u128)
    ensures
        match last_write(log, id) {
            Some(e) => if e.st == Status::De {
                !replay_from(m, log).contains_key(id)
            } else {
                replay_from(m, log).contains_key(id) && replay_from(m, log)[id] == e.data
            },
            None => replay_from(m, log).contains_key(id) == m.contains_key(id) && (m.contains_key(
                id,
            ) ==> replay_from(m, log)[id] == m[id]),
        },
    decreases log.len(),
{
    if log.len() > 0 {
        lemma_last_write_wins(m, log.drop_last(), id);
    }
}

/// Compaction loses nothing: a compacted image of an index replays to exactly
/// that index.
pub proof fn lemma_snapshot_replays(log: Seq<DocumentView>, m: Map<u128, Seq<u8>>)
    requires
        is_snapshot(log, m),
    ensures
        replay(log) == m,
{
    assert forall|k: u128|
        (#[trigger] replay(log).contains_key(k)) == m.contains_key(k) && (m.contains_key(k)
            ==> replay(log)[k] == m[k]) by {
        lemma_last_write_wins(Map::empty(), log, k);
        lemma_last_write_in_log(log, k);
        if m.contains_key(k) {
            let i = choose|i: int| 0 <= i < log.len() && (#[trigger] log[i]).uuid == k;
            assert(last_write(log, k) is Some);
        }
    }
    assert(replay(log) =~= m);
}

/// A compacted image lists the index: its envelopes, as pairs of identifier
/// and payload, are exactly the entries of the index.
pub proof fn lemma_snapshot_pairs(log: Seq<DocumentView>, m: Map<u128, Seq<u8>>)
    requires
        is_snapshot(log, m),
    ensures
        log.map_values(|e: DocumentView| (e.uuid, e.data)).to_set() == m.kv_pairs(),
{
    let pairs = log.map_values(|e: DocumentView| (e.uuid, e.data));
    assert forall|p: (u128, Seq<u8>)| pairs.to_set().contains(p) <==> m.kv_pairs().contains(p) by {
        if pairs.to_set().contains(p) {
            assert(pairs.contains(p));
            let i = choose|i: int| 0 <= i < pairs.len() && pairs[i] == p;
            assert(log[i].uuid == p.0 && log[i].data == p.1);
        }
        if m.kv_pairs().contains(p) {
            assert(m.contains_key(p.0));
            let i = choose|i: int| 0 <= i < log.len() && (#[trigger] log[i]).uuid == p.0;
            assert(pairs[i] == p);
            assert(pairs.contains(p));
        }
    }
    assert(pairs.to_set() =~= m.kv_pairs());
}

/// The last write for an identifier is an envelope of the log for that
/// identifier, and there is one whenever the log mentions the identifier.
pub proof fn lemma_last_write_in_log(log: Seq<DocumentView>, id: u128)
    ensures
        match last_write(log, id) {
            Some(e) => exists|i: int| 0 <= i < log.len() && #[trigger] log[i] == e && e.uuid == id,
            None => forall|i: int| 0 <= i < log.len() ==> (#[trigger] log[i]).uuid != id,
        },
    decreases log.len(),
{
    if log.len() > 0 {
        lemma_last_write_in_log(log.drop_last(), id);
        if log.last().uuid == id {
            assert(log[log.len() - 1] == log.last());
        } else {
            match last_write(log.drop_last(), id) {
                Some(e) => {
                    let i = choose|i: int|
                        0 <= i < log.drop_last().len() && #[trigger] log.drop_last()[i] == e;
                    assert(log[i] == e);
                },
                None => {
                    assert forall|i: int| 0 <= i < log.len() implies (#[trigger] log[i]).uuid
                        != id by {
                        if i < log.len() - 1 {
                            assert(log.drop_last()[i] == log[i]);
                        }
                    }
                },
            }
        }
    }
}

} // verus!
