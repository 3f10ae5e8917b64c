use crate::bytes::{copy_bytes, same_bytes};
use crate::identifier::{is_v4, new_v4};
use crate::operation::Operation;
use std::collections::HashMap;
use vstd::prelude::*;

verus! {

broadcast use vstd::std_specs::hash::group_hash_axioms;

/// The in-memory index: for every live identifier, the serialized payload
/// most recently committed for it. Identifiers of deleted records are simply
/// absent.
pub struct Store {
    store: HashMap<u128, Vec<u8>>,
}

impl View for Store {
    type V = Map<u128, Seq<u8>>;

    closed spec fn view(&self) -> Map<u128, Seq<u8>> {
        self.store@.map_values(|v: Vec<u8>| v@)
    }
}

/// One entry of a batch result: the identifier written, the payload written
/// (for a removal, the payload removed), and the kind of write.
pub type WriteOperation = (u128, Vec<u8>, Operation);

/// The identifiers whose stored payload is exactly `search`.
pub open spec fn matching(m: Map<u128, Seq<u8>>, search: Seq<u8>) -> Set<u128> {
    Set::new(|k: u128| m.contains_key(k) && m[k] == search)
}

/// The index `m` with the payload of every identifier in `ids` replaced by
/// `value`; no identifier is added or removed.
pub open spec fn replace_all(m: Map<u128, Seq<u8>>, ids: Set<u128>, value: Seq<u8>) -> Map<
    u128,
    Seq<u8>,
> {
    Map::new(
        |k: u128| m.contains_key(k),
        |k: u128|
            if ids.contains(k) {
                value
            } else {
                m[k]
            },
    )
}

/// The identifiers of a batch result, in its order.
pub open spec fn op_ids(ops: Seq<WriteOperation>) -> Seq<u128> {
    ops.map_values(|op: WriteOperation| op.0)
}

/// Whether a batch result names every identifier of `ids` exactly once and
/// no other.
pub open spec fn covers(ops: Seq<WriteOperation>, ids: Set<u128>) -> bool {
    &&& op_ids(ops).no_duplicates()
    &&& op_ids(ops).to_set() == ids
    &&& ops.len() == ids.len()
}

/// The index `m` after storing, in order, each payload of `ops` under its
/// identifier.
pub open spec fn insert_each(m: Map<u128, Seq<u8>>, ops: Seq<WriteOperation>) -> Map<
    u128,
    Seq<u8>,
>
    decreases ops.len(),
{
    if ops.len() == 0 {
        m
    } else {
        insert_each(m, ops.drop_last()).insert(ops.last().0, ops.last().1@)
    }
}

impl Store {
    /// An index over the given entries.
    pub fn new(data: HashMap<u128, Vec<u8>>) -> (s: Self)
        ensures
            s@ == data@.map_values(|v: Vec<u8>| v@),
    {
        Self { store: data }
    }

    /// An index without entries.
    pub fn empty() -> (s: Self)
        ensures
            s@ == Map::<u128, Seq<u8>>::empty(),
    {
        let s = Self { store: HashMap::new() };
        assert(s@ =~= Map::<u128, Seq<u8>>::empty());
        s
    }

    /// Stores `data` under `id`, replacing and returning what was there.
    pub fn insert_key_value(&mut self, id: u128, data: Vec<u8>) -> (previous: Option<Vec<u8>>)
        ensures
            final(self)@ == old(self)@.insert(id, data@),
            match previous {
                Some(p) => old(self)@.contains_key(id) && old(self)@[id] == p@,
                None => !old(self)@.contains_key(id),
            },
    {
        let previous = self.store.insert(id, data);
        assert(self@ =~= old(self)@.insert(id, data@));
        previous
    }

    /// Removes the entry of `id`, returning what was there.
    pub fn delete_key(&mut self, id: u128) -> (previous: Option<Vec<u8>>)
        ensures
            final(self)@ == old(self)@.remove(id),
            match previous {
                Some(p) => old(self)@.contains_key(id) && old(self)@[id] == p@,
                None => !old(self)@.contains_key(id),
            },
    {
        let previous = self.store.remove(&id);
        assert(self@ =~= old(self)@.remove(id));
        previous
    }

    /// Every live identifier, once each, in no particular order.
    pub fn keys(&self) -> (ids: Vec<u128>)
        ensures
            ids@.no_duplicates(),
            forall|k: u128| ids@.contains(k) <==> self@.contains_key(k),
    {
        let mut ids: Vec<u128> = Vec::new();
        for k in it: self.store.keys()
            invariant
                ids@.len() == it.index(),
                forall|j: int| 0 <= j < ids@.len() ==> ids@[j] == *it.seq()[j],
                it.seq().unref().to_set() == self.store@.dom(),
                it.seq().no_duplicates(),
                it.index() == it.seq().len() ==> ids@ == it.seq().unref(),
        {
            ids.push(*k);
            assert(it.index() + 1 == it.seq().len() ==> ids@ =~= it.seq().unref());
        }
        assert forall|k: u128| ids@.contains(k) <==> self@.contains_key(k) by {
            assert(ids@.to_set().contains(k) <==> ids@.contains(k));
        }
        ids
    }

    /// The payload currently stored under `id`, if the identifier is live.
    pub fn find(&self, id: u128) -> (found: Option<Vec<u8>>)
        ensures
            match found {
                Some(v) => self@.contains_key(id) && self@[id] == v@,
                None => !self@.contains_key(id),
            },
    {
        match self.store.get(&id) {
            Some(v) => Some(copy_bytes(v.as_slice())),
            None => None,
        }
    }

    /// Whether `id` is live.
    pub fn contains(&self, id: u128) -> (live: bool)
        ensures
            live == self@.contains_key(id),
    {
        self.store.contains_key(&id)
    }

    /// The number of live identifiers.
    pub fn len(&self) -> (n: usize)
        ensures
            n == self@.len(),
            self@.dom().finite(),
    {
        proof {
            assert(self@.dom() =~= self.store@.dom());
        }
        self.store.len()
    }

    /// Stores `value` under a newly minted identifier and returns the
    /// identifier.
    pub fn insert(&mut self, value: Vec<u8>) -> (id: u128)
        ensures
            is_v4(id),
            final(self)@ == old(self)@.insert(id, value@),
    {
        let id = new_v4();
        self.insert_key_value(id, value);
        id
    }

    /// Replaces the payload of `id` if and only if the identifier is live,
    /// and says whether it was. An absent identifier is never inserted.
    pub fn update(&mut self, id: u128, new_value: Vec<u8>) -> (present: bool)
        ensures
            present == old(self)@.contains_key(id),
            present ==> final(self)@ == old(self)@.insert(id, new_value@),
            !present ==> final(self)@ == old(self)@,
    {
        if self.store.contains_key(&id) {
            self.insert_key_value(id, new_value);
            true
        } else {
            false
        }
    }

    /// Removes `id` if it is live, and says whether it was.
    pub fn delete(&mut self, id: u128) -> (present: bool)
        ensures
            present == old(self)@.contains_key(id),
            final(self)@ == old(self)@.remove(id),
    {
        self.delete_key(id).is_some()
    }

    /// The identifiers whose stored payload is exactly `search`, once each,
    /// in no particular order.
    pub fn find_keys(&self, search: &[u8]) -> (ids: Vec<u128>)
        ensures
            ids@.no_duplicates(),
            ids@.to_set() == matching(self@, search@),
            ids@.len() == matching(self@, search@).len(),
    {
        let all = self.keys();
        let mut hits: Vec<bool> = Vec::new();
        let mut i: usize = 0;
        while i < all.len()
            invariant
                i <= all@.len(),
                hits@.len() == i,
                forall|k: u128| all@.contains(k) <==> self@.contains_key(k),
                forall|p: int|
                    0 <= p < i ==> #[trigger] hits@[p] == matching(self@, search@).contains(
                        all@[p],
                    ),
            decreases all@.len() - i,
        {
            let k = all[i];
            assert(all@.contains(k));
            let hit = match self.store.get(&k) {
                Some(v) => same_bytes(v.as_slice(), search),
                None => false,
            };
            hits.push(hit);
            i += 1;
        }
        let ids = select(&all, &hits);
        proof {
            assert forall|k: u128| ids@.contains(k) <==> matching(self@, search@).contains(k) by {
                if matching(self@, search@).contains(k) {
                    assert(all@.contains(k));
                    let p = choose|p: int| 0 <= p < all@.len() && all@[p] == k;
                    assert(hits@[p]);
                }
            }
            assert(ids@.to_set() =~= matching(self@, search@));
            ids@.unique_seq_to_set();
        }
        ids
    }

    /// Stores each payload under a newly minted identifier, in the order
    /// given, and reports one insert per payload.
    pub fn insert_many(&mut self, values: Vec<Vec<u8>>) -> (ops: Vec<WriteOperation>)
        ensures
            ops@.len() == values@.len(),
            forall|j: int|
                0 <= j < ops@.len() ==> {
                    &&& is_v4((#[trigger] ops@[j]).0)
                    &&& ops@[j].1@ == values@[j]@
                    &&& ops@[j].2 == Operation::Insert
                },
            final(self)@ == insert_each(old(self)@, ops@),
    {
        let mut ops: Vec<WriteOperation> = Vec::new();
        let mut i: usize = 0;
        while i < values.len()
            invariant
                i <= values@.len(),
                ops@.len() == i,
                forall|j: int|
                    0 <= j < i ==> {
                        &&& is_v4((#[trigger] ops@[j]).0)
                        &&& ops@[j].1@ == values@[j]@
                        &&& ops@[j].2 == Operation::Insert
                    },
                self@ == insert_each(old(self)@, ops@),
            decreases values@.len() - i,
        {
            let ghost done = ops@;
            let id = new_v4();
            self.insert_key_value(id, copy_bytes(values[i].as_slice()));
            ops.push((id, copy_bytes(values[i].as_slice()), Operation::Insert));
            assert(ops@.drop_last() =~= done);
            i += 1;
        }
        ops
    }

    /// A copy of every stored payload that is exactly `search`: one per
    /// matching identifier.
    pub fn find_many(&self, search: &[u8]) -> (found: Vec<Vec<u8>>)
        ensures
            found@.len() == matching(self@, search@).len(),
            forall|j: int| 0 <= j < found@.len() ==> (#[trigger] found@[j])@ == search@,
    {
        let ids = self.find_keys(search);
        let mut found: Vec<Vec<u8>> = Vec::new();
        let mut i: usize = 0;
        while i < ids.len()
            invariant
                i <= ids@.len(),
                found@.len() == i,
                forall|j: int| 0 <= j < found@.len() ==> (#[trigger] found@[j])@ == search@,
            decreases ids@.len() - i,
        {
            found.push(copy_bytes(search));
            i += 1;
        }
        found
    }

    /// Replaces every stored payload that is exactly `search` by `new_value`
    /// and reports one update per identifier changed.
    pub fn update_many(&mut self, search: &[u8], new_value: &[u8]) -> (ops: Vec<WriteOperation>)
        ensures
            covers(ops@, matching(old(self)@, search@)),
            forall|j: int|
                0 <= j < ops@.len() ==> (#[trigger] ops@[j]).1@ == new_value@ && ops@[j].2
                    == Operation::Update,
            final(self)@ == replace_all(old(self)@, matching(old(self)@, search@), new_value@),
    {
        let ids = self.find_keys(search);
        let ghost hit = matching(old(self)@, search@);
        let mut ops: Vec<WriteOperation> = Vec::new();
        let mut i: usize = 0;
        while i < ids.len()
            invariant
                i <= ids@.len(),
                ids@.to_set() == hit,
                hit.subset_of(old(self)@.dom()),
                op_ids(ops@) == ids@.take(i as int),
                forall|j: int|
                    0 <= j < ops@.len() ==> (#[trigger] ops@[j]).1@ == new_value@ && ops@[j].2
                        == Operation::Update,
                self@ == replace_all(old(self)@, ids@.take(i as int).to_set(), new_value@),
            decreases ids@.len() - i,
        {
            let id = ids[i];
            let ghost before = self@;
            assert(ids@.to_set().contains(id));
            self.insert_key_value(id, copy_bytes(new_value));
            ops.push((id, copy_bytes(new_value), Operation::Update));
            proof {
                assert(ids@.take(i + 1) =~= ids@.take(i as int).push(id));
                assert(op_ids(ops@) =~= ids@.take(i + 1));
                ids@.take(i as int).lemma_push_to_set_commute(id);
                assert(self@ =~= replace_all(
                    old(self)@,
                    ids@.take(i + 1).to_set(),
                    new_value@,
                ));
            }
            i += 1;
        }
        proof {
            assert(ids@.take(ids@.len() as int) =~= ids@);
        }
        ops
    }

    /// Removes every identifier whose stored payload is exactly `search` and
    /// reports one removal, with the payload removed, per identifier.
    pub fn delete_many(&mut self, search: &[u8]) -> (ops: Vec<WriteOperation>)
        ensures
            covers(ops@, matching(old(self)@, search@)),
            forall|j: int|
                0 <= j < ops@.len() ==> (#[trigger] ops@[j]).1@ == search@ && ops@[j].2
                    == Operation::Delete,
            final(self)@ == old(self)@.remove_keys(matching(old(self)@, search@)),
    {
        let ids = self.find_keys(search);
        let ghost hit = matching(old(self)@, search@);
        let mut ops: Vec<WriteOperation> = Vec::new();
        let mut i: usize = 0;
        while i < ids.len()
            invariant
                i <= ids@.len(),
                ids@.to_set() == hit,
                op_ids(ops@) == ids@.take(i as int),
                forall|j: int|
                    0 <= j < ops@.len() ==> (#[trigger] ops@[j]).1@ == search@ && ops@[j].2
                        == Operation::Delete,
                self@ == old(self)@.remove_keys(ids@.take(i as int).to_set()),
            decreases ids@.len() - i,
        {
            let id = ids[i];
            self.delete_key(id);
            ops.push((id, copy_bytes(search), Operation::Delete));
            proof {
                assert(ids@.take(i + 1) =~= ids@.take(i as int).push(id));
                assert(op_ids(ops@) =~= ids@.take(i + 1));
                ids@.take(i as int).lemma_push_to_set_commute(id);
                assert(self@ =~= old(self)@.remove_keys(ids@.take(i + 1).to_set()));
            }
            i += 1;
        }
        proof {
            assert(ids@.take(ids@.len() as int) =~= ids@);
        }
        ops
    }
}

/// The entries of `all` whose flag in `hits` is set, in the order of `all`.
pub(crate) fn select(all: &Vec<u128>, hits: &Vec<bool>) -> (chosen: Vec<u128>)
    requires
        all@.len() == hits@.len(),
        all@.no_duplicates(),
    ensures
        chosen@.no_duplicates(),
        forall|k: u128|
            chosen@.contains(k) <==> exists|p: int| 0 <= p < all@.len() && all@[p] == k && hits@[p],
{
    let mut chosen: Vec<u128> = Vec::new();
    let mut i: usize = 0;
    while i < all.len()
        invariant
            i <= all@.len(),
            all@.len() == hits@.len(),
            all@.no_duplicates(),
            chosen@.no_duplicates(),
            forall|k: u128|
                chosen@.contains(k) <==> exists|p: int| 0 <= p < i && all@[p] == k && hits@[p],
        decreases all@.len() - i,
    {
        let ghost before = chosen@;
        if hits[i] {
            assert(!before.contains(all@[i as int])) by {
                if before.contains(all@[i as int]) {
                    let p = choose|p: int| 0 <= p < i && all@[p] == all@[i as int] && hits@[p];
                    assert(all@[p] == all@[i as int] && p != i);
                }
            }
            chosen.push(all[i]);
            assert(chosen@[before.len() as int] == all@[i as int]);
            assert forall|k: u128| chosen@.contains(k) implies exists|p: int|
                0 <= p < i + 1 && all@[p] == k && hits@[p] by {
                let j = choose|j: int| 0 <= j < chosen@.len() && chosen@[j] == k;
                if j < before.len() {
                    assert(before.contains(k));
                }
            }
            assert forall|k: u128|
                (exists|p: int|
                    0 <= p < i + 1 && all@[p] == k && hits@[p]) implies chosen@.contains(k) by {
                let p = choose|p: int| 0 <= p < i + 1 && all@[p] == k && hits@[p];
                if p < i {
                    assert(before.contains(k));
                    let j = choose|j: int| 0 <= j < before.len() && before[j] == k;
                    assert(chosen@[j] == k);
                }
            }
        }
        i += 1;
    }
    chosen
}

} // verus!
