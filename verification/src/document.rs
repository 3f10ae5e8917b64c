use crate::status::Status;
use vstd::prelude::*;

verus! {

/// The mathematical content of an envelope: identifier, serialized payload
/// and lifecycle tag.
pub struct DocumentView {
    pub uuid: u128,
    pub data: Seq<u8>,
    pub st: Status,
}

/// The unit that is written to the log: a serialized payload together with
/// the identifier it belongs to and the kind of write that produced it.
#[derive(Debug, Clone, PartialEq, Eq)]
pub struct Document {
    pub uuid: u128,
    pub data: Vec<u8>,
    pub _st: Status,
}

impl View for Document {
    type V = DocumentView;

    open spec fn view(&self) -> DocumentView {
        DocumentView { uuid: self.uuid, data: self.data@, st: self._st }
    }
}

impl Document {
    /// The envelope of `data` for the identifier `id`, tagged `st`.
    pub fn new(id: u128, data: Vec<u8>, st: Status) -> (doc: Self)
        ensures
            doc.uuid == id,
            doc.data == data,
            doc._st == st,
    {
        Self { uuid: id, data, _st: st }
    }
}

/// The views of a sequence of envelopes, in the same order.
pub open spec fn views(docs: Seq<Document>) -> Seq<DocumentView> {
    docs.map_values(|d: Document| d@)
}

} // verus!
