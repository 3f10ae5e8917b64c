use crate::bytes::copy_bytes;
use crate::document::{views, Document, DocumentView};
use crate::engine::laws::lemma_replay_update_batch;
use crate::engine::{envelope_ids, is_batch, RedDb};
use crate::error::{RedDbError, RedDbErrorKind};
use crate::fields::{
    field, field_views, get_field, json_fields, json_string, parse_object, parse_string,
    partial_match, satisfies, Fields, FieldsView,
};
use crate::identifier::{parse, uuid_parse};
use crate::serializer::Serializer;
use crate::status::Status;
use crate::storage::{is_snapshot, lemma_replay_push};
use crate::store::{replace_all, select};
use vstd::prelude::*;

verus! {

/// The name of the field that carries the identifier of a document: `_id`.
pub open spec fn id_field() -> Seq<u8> {
    seq![95u8, 105u8, 100u8]
}

/// Whether a stored payload is a JSON object that matches `query` partially.
/// A payload that is not a JSON object matches no query.
pub open spec fn selects(query: FieldsView, payload: Seq<u8>) -> bool {
    json_fields(payload) matches Some(doc) && partial_match(doc, query)
}

/// The identifiers whose stored payload matches `query` partially.
pub open spec fn selected(m: Map<u128, Seq<u8>>, query: FieldsView) -> Set<u128> {
    Set::new(|k: u128| m.contains_key(k) && selects(query, m[k]))
}

/// The text that a query holds in its `_id` field, where it has the field
/// and the field holds a JSON string.
pub open spec fn query_id(query: FieldsView) -> Option<Seq<char>> {
    match field(query, id_field()) {
        Some(text) => json_string(text),
        None => None,
    }
}

/// The identifier that a query names in its `_id` field: the field must hold
/// a JSON string, and the string must read as an identifier.
pub open spec fn query_uuid(query: FieldsView) -> Option<u128> {
    match query_id(query) {
        Some(s) => uuid_parse(s),
        None => None,
    }
}

/// Queries by partial match over stores whose payloads are JSON objects: a
/// query is a sparse object, and a record matches when every field of the
/// query is a field of the record with the same value.
#[derive(Debug)]
pub struct Query {}

impl Query {
    /// A query engine; it holds no state of its own.
    pub fn new() -> Self {
        Self {}
    }

    /// The fields of the JSON object written in `text`; a text that is not a
    /// JSON object is rejected with `Deserialization`.
    pub fn parse(&self, text: &[u8]) -> (r: Result<Fields, RedDbError>)
        ensures
            match r {
                Ok(fields) => json_fields(text@) == Some(field_views(fields@)),
                Err(e) => json_fields(text@) is None && e.err == RedDbErrorKind::Deserialization,
            },
    {
        match parse_object(text) {
            Ok(fields) => Ok(fields),
            Err(_) => Err(RedDbError { err: RedDbErrorKind::Deserialization }),
        }
    }

    /// Whether the stored payload `payload` matches `query`.
    pub fn selects(&self, query: &Fields, payload: &[u8]) -> (hit: bool)
        ensures
            hit == selects(field_views(query@), payload@),
    {
        match parse_object(payload) {
            Ok(doc) => satisfies(&doc, query),
            Err(_) => false,
        }
    }

    /// The text of the `_id` field of `query`, if the query has one and it
    /// holds a JSON string.
    pub fn get_id(&self, query: &Fields) -> (id: Option<String>)
        ensures
            match id {
                Some(s) => query_id(field_views(query@)) == Some(s@),
                None => query_id(field_views(query@)) is None,
            },
    {
        let name: Vec<u8> = vec![95u8, 105u8, 100u8];
        assert(name@ =~= id_field());
        match get_field(query, name.as_slice()) {
            Some(text) => match parse_string(text.as_slice()) {
                Ok(s) => Some(s),
                Err(_) => None,
            },
            None => None,
        }
    }

    /// The identifier that `query` names in its `_id` field. A query without
    /// the field, or whose field does not hold the text of an identifier, is
    /// rejected with `Deserialization`.
    pub fn get_uuid(&self, query: &Fields) -> (r: Result<u128, RedDbError>)
        ensures
            match r {
                Ok(id) => query_uuid(field_views(query@)) == Some(id),
                Err(e) => query_uuid(field_views(query@)) is None && e.err
                    == RedDbErrorKind::Deserialization,
            },
    {
        match self.get_id(query) {
            Some(text) => match parse(text.as_str()) {
                Some(id) => Ok(id),
                None => Err(RedDbError { err: RedDbErrorKind::Deserialization }),
            },
            None => Err(RedDbError { err: RedDbErrorKind::Deserialization }),
        }
    }

    /// Tags `doc` with `status`; identifier and payload stay as they are.
    pub fn update_status(&self, doc: &mut Document, status: Status)
        ensures
            final(doc)@.uuid == old(doc)@.uuid,
            final(doc)@.data == old(doc)@.data,
            final(doc)@.st == status,
    {
        doc._st = status;
    }

    /// The record that `query` names in its `_id` field.
    pub fn find_id<SE: Serializer>(&self, db: &RedDb<SE>, query: &Fields) -> (r: Result<
        Document,
        RedDbError,
    >)
        ensures
            match r {
                Ok(doc) => query_uuid(field_views(query@)) == Some(doc.uuid) && db@.find(doc.uuid)
                    == Some(doc.data@) && doc._st == Status::In,
                Err(e) => match query_uuid(field_views(query@)) {
                    Some(id) => db@.find(id) is None && e.err == (RedDbErrorKind::NotFound {
                        uuid: id,
                    }),
                    None => e.err == RedDbErrorKind::Deserialization,
                },
            },
    {
        match self.get_uuid(query) {
            Ok(id) => db.find_one(id),
            Err(e) => Err(e),
        }
    }

    /// The identifiers of the records that match `query`, once each, in no
    /// particular order.
    pub fn find_uuids<SE: Serializer>(&self, db: &RedDb<SE>, query: &Fields) -> (ids: Vec<u128>)
        ensures
            ids@.no_duplicates(),
            ids@.to_set() == selected(db@.index, field_views(query@)),
            ids@.len() == selected(db@.index, field_views(query@)).len(),
    {
        let docs = db.find_all();
        let ghost log = views(docs@);
        let ghost hit = selected(db@.index, field_views(query@));
        let mut all: Vec<u128> = Vec::new();
        let mut flags: Vec<bool> = Vec::new();
        let mut i: usize = 0;
        while i < docs.len()
            invariant
                i <= docs@.len(),
                log == views(docs@),
                hit == selected(db@.index, field_views(query@)),
                is_snapshot(log, db@.index),
                all@.len() == i,
                flags@.len() == i,
                forall|p: int| 0 <= p < i ==> (#[trigger] all@[p]) == log[p].uuid,
                forall|p: int| 0 <= p < i ==> (#[trigger] flags@[p]) == hit.contains(log[p].uuid),
            decreases docs@.len() - i,
        {
            assert(log[i as int] == docs@[i as int]@);
            let flag = self.selects(query, docs[i].data.as_slice());
            all.push(docs[i].uuid);
            flags.push(flag);
            i += 1;
        }
        let ids = select(&all, &flags);
        proof {
            assert forall|k: u128| ids@.contains(k) <==> hit.contains(k) by {
                if hit.contains(k) {
                    let p = choose|p: int| 0 <= p < log.len() && (#[trigger] log[p]).uuid == k;
                    assert(all@[p] == k && flags@[p]);
                }
            }
            assert(ids@.to_set() =~= hit);
            ids@.unique_seq_to_set();
        }
        ids
    }

    /// The records that match `query`: one per matching identifier, in no
    /// particular order.
    pub fn find<SE: Serializer>(&self, db: &RedDb<SE>, query: &Fields) -> (docs: Vec<Document>)
        ensures
            envelope_ids(views(docs@)).no_duplicates(),
            envelope_ids(views(docs@)).to_set() == selected(db@.index, field_views(query@)),
            docs@.len() == selected(db@.index, field_views(query@)).len(),
            forall|j: int|
                0 <= j < docs@.len() ==> {
                    &&& db@.find((#[trigger] docs@[j]).uuid) == Some(docs@[j].data@)
                    &&& docs@[j]._st == Status::In
                },
    {
        let ids = self.find_uuids(db, query);
        let mut docs: Vec<Document> = Vec::new();
        let mut i: usize = 0;
        while i < ids.len()
            invariant
                i <= ids@.len(),
                ids@.to_set() == selected(db@.index, field_views(query@)),
                docs@.len() == i,
                envelope_ids(views(docs@)) == ids@.take(i as int),
                forall|j: int|
                    0 <= j < i ==> db@.find((#[trigger] docs@[j]).uuid) == Some(docs@[j].data@)
                        && docs@[j]._st == Status::In,
            decreases ids@.len() - i,
        {
            assert(ids@.to_set().contains(ids@[i as int]));
            match db.find_one(ids[i]) {
                Ok(doc) => {
                    proof {
                        assert(views(docs@.push(doc)) =~= views(docs@).push(doc@));
                        assert(envelope_ids(views(docs@).push(doc@)) =~= ids@.take(i + 1));
                    }
                    docs.push(doc);
                },
                Err(_) => {
                    assert(false);
                },
            }
            i += 1;
        }
        proof {
            assert(ids@.take(ids@.len() as int) =~= ids@);
        }
        docs
    }

    /// Replaces the value of every record that matches `query` by
    /// `new_value`, queues one update envelope per record changed, and
    /// returns how many were changed.
    pub fn update<SE: Serializer>(
        &self,
        db: &mut RedDb<SE>,
        query: &Fields,
        new_value: &[u8],
    ) -> (changed: usize)
        requires
            old(db).wf(),
        ensures
            final(db).wf(),
            changed == selected(old(db)@.index, field_views(query@)).len(),
            final(db)@.index == replace_all(
                old(db)@.index,
                selected(old(db)@.index, field_views(query@)),
                new_value@,
            ),
            is_batch(
                old(db)@.written(final(db)@),
                selected(old(db)@.index, field_views(query@)),
                new_value@,
                Status::Up,
            ),
            final(db)@ == old(db)@.write_all(old(db)@.written(final(db)@)),
    {
        let ids = self.find_uuids(db, query);
        let ghost hit = selected(old(db)@.index, field_views(query@));
        let ghost mut batch: Seq<DocumentView> = Seq::empty();
        let mut i: usize = 0;
        proof {
            assert(db@.journal + batch =~= db@.journal);
        }
        while i < ids.len()
            invariant
                i <= ids@.len(),
                db.wf(),
                ids@.to_set() == hit,
                hit.subset_of(old(db)@.index.dom()),
                old(db)@.index.dom().subset_of(db@.index.dom()),
                db@ == old(db)@.write_all(batch),
                batch.len() == i,
                envelope_ids(batch) == ids@.take(i as int),
                forall|j: int|
                    0 <= j < batch.len() ==> (#[trigger] batch[j]).data == new_value@ && batch[j].st
                        == Status::Up,
            decreases ids@.len() - i,
        {
            let id = ids[i];
            let ghost e = DocumentView { uuid: id, data: new_value@, st: Status::Up };
            proof {
                assert(ids@.to_set().contains(id));
                assert(old(db)@.index.dom().contains(id));
                lemma_replay_push(old(db)@.index, batch, e);
                assert(old(db)@.journal + batch.push(e) =~= (old(db)@.journal + batch).push(e));
                assert(envelope_ids(batch.push(e)) =~= ids@.take(i + 1));
            }
            db.update_one(id, copy_bytes(new_value));
            proof {
                batch = batch.push(e);
            }
            i += 1;
        }
        proof {
            assert(ids@.take(ids@.len() as int) =~= ids@);
            assert(old(db)@.written(db@) =~= batch);
            lemma_replay_update_batch(old(db)@.index, batch, hit, new_value@, Status::Up);
        }
        ids.len()
    }

    /// Removes every record that matches `query`, queues one removal envelope
    /// with an empty payload per record removed, and returns how many were
    /// removed.
    pub fn delete<SE: Serializer>(&self, db: &mut RedDb<SE>, query: &Fields) -> (removed: usize)
        requires
            old(db).wf(),
        ensures
            final(db).wf(),
            removed == selected(old(db)@.index, field_views(query@)).len(),
            final(db)@.index == old(db)@.index.remove_keys(
                selected(old(db)@.index, field_views(query@)),
            ),
            is_batch(
                old(db)@.written(final(db)@),
                selected(old(db)@.index, field_views(query@)),
                Seq::<u8>::empty(),
                Status::De,
            ),
            final(db)@ == old(db)@.write_all(old(db)@.written(final(db)@)),
    {
        let ids = self.find_uuids(db, query);
        let ghost hit = selected(old(db)@.index, field_views(query@));
        let ghost mut batch: Seq<DocumentView> = Seq::empty();
        let mut i: usize = 0;
        proof {
            assert(db@.journal + batch =~= db@.journal);
            assert(db@.index =~= old(db)@.index.remove_keys(ids@.take(0).to_set()));
        }
        while i < ids.len()
            invariant
                i <= ids@.len(),
                db.wf(),
                ids@.no_duplicates(),
                ids@.to_set() == hit,
                hit.subset_of(old(db)@.index.dom()),
                db@ == old(db)@.write_all(batch),
                db@.index == old(db)@.index.remove_keys(ids@.take(i as int).to_set()),
                batch.len() == i,
                envelope_ids(batch) == ids@.take(i as int),
                forall|j: int|
                    0 <= j < batch.len() ==> (#[trigger] batch[j]).data == Seq::<u8>::empty()
                        && batch[j].st == Status::De,
            decreases ids@.len() - i,
        {
            let id = ids[i];
            let ghost e = DocumentView { uuid: id, data: Seq::empty(), st: Status::De };
            proof {
                assert(ids@.to_set().contains(id));
                assert(old(db)@.index.dom().contains(id));
                assert(!ids@.take(i as int).to_set().contains(id)) by {
                    if ids@.take(i as int).contains(id) {
                        let p = choose|p: int| 0 <= p < i && ids@.take(i as int)[p] == id;
                        assert(ids@[p] == ids@[i as int]);
                    }
                }
                lemma_replay_push(old(db)@.index, batch, e);
                assert(old(db)@.journal + batch.push(e) =~= (old(db)@.journal + batch).push(e));
                assert(envelope_ids(batch.push(e)) =~= ids@.take(i + 1));
                assert(ids@.take(i + 1) =~= ids@.take(i as int).push(id));
                ids@.take(i as int).lemma_push_to_set_commute(id);
                assert(old(db)@.index.remove_keys(ids@.take(i as int).to_set()).remove(id)
                    =~= old(db)@.index.remove_keys(ids@.take(i + 1).to_set()));
            }
            let _ = db.delete_one(id);
            proof {
                batch = batch.push(e);
            }
            i += 1;
        }
        proof {
            assert(ids@.take(ids@.len() as int) =~= ids@);
            assert(old(db)@.written(db@) =~= batch);
        }
        ids.len()
    }
}

} // verus!
