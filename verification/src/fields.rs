use crate::bytes::same_bytes;
use vstd::prelude::*;

verus! {

/// The fields of a document: for each field its name, as UTF-8, and its
/// value, as compact JSON text.
pub type Fields = Vec<(Vec<u8>, Vec<u8>)>;

/// The fields of a document as a mathematical object.
pub type FieldsView = Seq<(Seq<u8>, Seq<u8>)>;

/// The names and values of `fields` as sequences of bytes.
pub open spec fn field_views(fields: Seq<(Vec<u8>, Vec<u8>)>) -> FieldsView {
    fields.map_values(|f: (Vec<u8>, Vec<u8>)| (f.0@, f.1@))
}

/// The value of the first field called `name`, if there is one.
pub open spec fn field(fields: FieldsView, name: Seq<u8>) -> Option<Seq<u8>>
    decreases fields.len(),
{
    if fields.len() == 0 {
        None
    } else if fields.first().0 == name {
        Some(fields.first().1)
    } else {
        field(fields.drop_first(), name)
    }
}

/// Partial match: every field of `query` is a field of `doc` with the same
/// value. Fields that `query` does not mention are not constrained, so the
/// empty query matches every document.
pub open spec fn partial_match(doc: FieldsView, query: FieldsView) -> bool {
    forall|i: int| 0 <= i < query.len() ==> field(doc, (#[trigger] query[i]).0) == Some(query[i].1)
}

/// A query without fields constrains nothing: it matches every document.
pub proof fn lemma_empty_query_matches(doc: FieldsView)
    ensures
        partial_match(doc, Seq::empty()),
{
}

/// Fields of a query constrain a document independently of one another: a
/// document matches two queries put together exactly when it matches each
/// of them, so a field added to a query can only narrow what it matches.
pub proof fn lemma_query_concat(doc: FieldsView, first: FieldsView, second: FieldsView)
    ensures
        partial_match(doc, first + second) <==> partial_match(doc, first) && partial_match(
            doc,
            second,
        ),
{
    let both = first + second;
    if partial_match(doc, both) {
        assert forall|i: int| 0 <= i < first.len() implies field(doc, (#[trigger] first[i]).0)
            == Some(first[i].1) by {
            assert(both[i] == first[i]);
        }
        assert forall|i: int| 0 <= i < second.len() implies field(doc, (#[trigger] second[i]).0)
            == Some(second[i].1) by {
            assert(both[first.len() + i] == second[i]);
        }
    }
    if partial_match(doc, first) && partial_match(doc, second) {
        assert forall|i: int| 0 <= i < both.len() implies field(doc, (#[trigger] both[i]).0)
            == Some(both[i].1) by {
            if i < first.len() {
                assert(both[i] == first[i]);
            } else {
                assert(both[i] == second[i - first.len()]);
            }
        }
    }
}

/// The error of `serde_json`; nothing is read from it.
#[verifier::external_type_specification]
#[verifier::external_body]
pub struct ExJsonError(serde_json::Error);

/// What `serde_json` makes of a text that should be a JSON object: its
/// fields, each value written back as compact JSON, or `None` where the text
/// is not a JSON object.
pub uninterp spec fn json_fields(text: Seq<u8>) -> Option<FieldsView>;

/// What `serde_json` makes of a text that should be a JSON string: the string
/// it denotes, or `None` where the text is not a JSON string.
pub uninterp spec fn json_string(text: Seq<u8>) -> Option<Seq<char>>;

/// Parses a JSON object with `serde_json::from_slice` into a
/// `serde_json::Map` and prints each of its values with `to_string`.
///
/// Trusted: the outcome depends on the text alone, so it is given the name
/// [`json_fields`]; what counts as a JSON object, and how a value is printed,
/// is left to `serde_json`.
#[verifier::external_body]
pub(crate) fn parse_object(text: &[u8]) -> (r: Result<Fields, serde_json::Error>)
    ensures
        match r {
            Ok(fields) => json_fields(text@) == Some(field_views(fields@)),
            Err(_) => json_fields(text@) is None,
        },
{
    match serde_json::from_slice::<serde_json::Map<String, serde_json::Value>>(text) {
        Ok(object) => Ok(
            object.into_iter().map(|(k, v)| (k.into_bytes(), v.to_string().into_bytes())).collect(),
        ),
        Err(e) => Err(e),
    }
}

/// Parses a JSON string with `serde_json::from_slice`.
///
/// Trusted: the outcome depends on the text alone, so it is given the name
/// [`json_string`].
#[verifier::external_body]
pub(crate) fn parse_string(text: &[u8]) -> (r: Result<String, serde_json::Error>)
    ensures
        match r {
            Ok(s) => json_string(text@) == Some(s@),
            Err(_) => json_string(text@) is None,
        },
{
    serde_json::from_slice::<String>(text)
}

/// The value of the first field of `fields` called `name`, if there is one.
pub fn get_field<'a>(fields: &'a Fields, name: &[u8]) -> (value: Option<&'a Vec<u8>>)
    ensures
        match value {
            Some(v) => field(field_views(fields@), name@) == Some(v@),
            None => field(field_views(fields@), name@) is None,
        },
{
    let mut i: usize = 0;
    let ghost all = field_views(fields@);
    proof {
        assert(all.skip(0) =~= all);
    }
    while i < fields.len()
        invariant
            i <= fields@.len(),
            all == field_views(fields@),
            field(all, name@) == field(all.skip(i as int), name@),
        decreases fields@.len() - i,
    {
        proof {
            assert(all.skip(i as int).first() == all[i as int]);
            assert(all.skip(i as int).drop_first() =~= all.skip(i + 1));
        }
        if same_bytes(fields[i].0.as_slice(), name) {
            return Some(&fields[i].1);
        }
        i += 1;
    }
    None
}

/// Whether `doc` matches `query` partially: whether every field of `query`
/// is a field of `doc` with the same value.
pub fn satisfies(doc: &Fields, query: &Fields) -> (hit: bool)
    ensures
        hit == partial_match(field_views(doc@), field_views(query@)),
{
    let mut i: usize = 0;
    while i < query.len()
        invariant
            i <= query@.len(),
            forall|j: int|
                0 <= j < i ==> field(field_views(doc@), (#[trigger] field_views(query@)[j]).0)
                    == Some(field_views(query@)[j].1),
        decreases query@.len() - i,
    {
        let same = match get_field(doc, query[i].0.as_slice()) {
            Some(v) => same_bytes(v.as_slice(), query[i].1.as_slice()),
            None => false,
        };
        if !same {
            assert(field(field_views(doc@), field_views(query@)[i as int].0) != Some(
                field_views(query@)[i as int].1,
            ));
            return false;
        }
        i += 1;
    }
    true
}

} // verus!
