//! Status records, and the decoding of one source's payload into them.

use crate::json::{Json, Number};
use vstd::prelude::*;

verus! {

/// One status entry of a source. Only the identifier is required of the
/// payload; every other attribute may be absent.
#[derive(Clone, Debug, PartialEq, Eq)]
pub struct Record {
    /// The source that the record came from. The payload does not carry it.
    pub source_id: u64,
    pub id: u64,
    pub created_at: Option<String>,
    pub started_at: Option<String>,
    pub finished_at: Option<String>,
    pub duration: Option<Number>,
    pub name: Option<String>,
    pub stage: Option<String>,
    pub status: Option<String>,
    pub web_url: Option<String>,
    /// The identifier of the group of entries that this one belongs to.
    pub pipeline_id: Option<u64>,
    /// The identifier of whoever started the entry.
    pub user_id: Option<u64>,
}

/// A record with its texts as sequences of characters.
pub struct RecordView {
    pub source_id: u64,
    pub id: u64,
    pub created_at: Option<Seq<char>>,
    pub started_at: Option<Seq<char>>,
    pub finished_at: Option<Seq<char>>,
    pub duration: Option<Number>,
    pub name: Option<Seq<char>>,
    pub stage: Option<Seq<char>>,
    pub status: Option<Seq<char>>,
    pub web_url: Option<Seq<char>>,
    pub pipeline_id: Option<u64>,
    pub user_id: Option<u64>,
}

/// The characters of a text that may be absent.
pub open spec fn text_view(text: Option<String>) -> Option<Seq<char>> {
    match text {
        Some(s) => Some(s@),
        None => None,
    }
}

impl View for Record {
    type V = RecordView;

    open spec fn view(&self) -> RecordView {
        RecordView {
            source_id: self.source_id,
            id: self.id,
            created_at: text_view(self.created_at),
            started_at: text_view(self.started_at),
            finished_at: text_view(self.finished_at),
            duration: self.duration,
            name: text_view(self.name),
            stage: text_view(self.stage),
            status: text_view(self.status),
            web_url: text_view(self.web_url),
            pipeline_id: self.pipeline_id,
            user_id: self.user_id,
        }
    }
}

/// The views of `records`, in order.
pub open spec fn views(records: Seq<Record>) -> Seq<RecordView> {
    records.map_values(|r: Record| r@)
}

/// The string under `key` in `elem`; `None` where `elem` has no such member
/// or the member is no string.
pub open spec fn text_at(elem: Json, key: Seq<char>) -> Option<Seq<char>> {
    match elem.member(key) {
        Some(value) => value.text(),
        None => None,
    }
}

/// The whole number under `key` in `elem`; `None` where `elem` has no such
/// member or the member is no whole number from 0 to `u64::MAX`.
pub open spec fn whole_at(elem: Json, key: Seq<char>) -> Option<u64> {
    match elem.member(key) {
        Some(value) => value.whole(),
        None => None,
    }
}

/// The number under `key` in `elem`; `None` where `elem` has no such member
/// or the member is no number.
pub open spec fn number_at(elem: Json, key: Seq<char>) -> Option<Number> {
    match elem.member(key) {
        Some(value) => value.number(),
        None => None,
    }
}

/// The whole number under `inner` in the object under `outer` in `elem`.
pub open spec fn nested_whole_at(elem: Json, outer: Seq<char>, inner: Seq<char>) -> Option<u64> {
    match elem.member(outer) {
        Some(value) => whole_at(value, inner),
        None => None,
    }
}

/// Whether `elem` can be a record: an object with a whole number under `id`.
pub open spec fn has_identifier(elem: Json) -> bool {
    whole_at(elem, "id"@) is Some
}

/// The record that `elem` describes, as one of `source`. It is meant for an
/// `elem` that has an identifier.
pub open spec fn record_of(source: u64, elem: Json) -> RecordView {
    RecordView {
        source_id: source,
        id: whole_at(elem, "id"@).unwrap(),
        created_at: text_at(elem, "created_at"@),
        started_at: text_at(elem, "started_at"@),
        finished_at: text_at(elem, "finished_at"@),
        duration: number_at(elem, "duration"@),
        name: text_at(elem, "name"@),
        stage: text_at(elem, "stage"@),
        status: text_at(elem, "status"@),
        web_url: text_at(elem, "web_url"@),
        pipeline_id: nested_whole_at(elem, "pipeline"@, "id"@),
        user_id: nested_whole_at(elem, "user"@, "id"@),
    }
}

/// Why a payload is no sequence of records.
#[derive(Clone, Copy, Debug, PartialEq, Eq)]
pub enum DecodeError {
    /// The body is not a JSON document.
    NotJson,
    /// The document is not an array.
    NotAnArray,
    /// The item at `index` has no identifier; the items before it have one.
    MissingIdentifier { index: usize },
}

/// Whether `items[i]` is the first item without an identifier.
pub open spec fn first_without_identifier(items: Seq<Json>, i: int) -> bool {
    &&& 0 <= i < items.len()
    &&& !has_identifier(items[i])
    &&& forall|j: int| 0 <= j < i ==> has_identifier(#[trigger] items[j])
}

/// The records that the document `doc` of `source` holds, or why it holds
/// none.
pub open spec fn decoded(source: u64, doc: Json) -> Result<Seq<RecordView>, DecodeError> {
    match doc.items() {
        None => Err(DecodeError::NotAnArray),
        Some(items) => {
            if exists|i: int| first_without_identifier(items, i) {
                Err(
                    DecodeError::MissingIdentifier {
                        index: (choose|i: int| first_without_identifier(items, i)) as usize,
                    },
                )
            } else {
                Ok(Seq::new(items.len(), |i: int| record_of(source, items[i])))
            }
        },
    }
}

fn text_field(elem: &Json, key: &str) -> (text: Option<String>)
    ensures
        text_view(text) == text_at(*elem, key@),
{
    match elem.get(key) {
        Some(value) => match value.as_text() {
            Some(s) => Some(s.clone()),
            None => None,
        },
        None => None,
    }
}

fn whole_field(elem: &Json, key: &str) -> (n: Option<u64>)
    ensures
        n == whole_at(*elem, key@),
{
    match elem.get(key) {
        Some(value) => value.as_whole(),
        None => None,
    }
}

fn number_field(elem: &Json, key: &str) -> (n: Option<Number>)
    ensures
        n == number_at(*elem, key@),
{
    match elem.get(key) {
        Some(value) => match value.as_number() {
            Some(n) => Some(Number { whole: n.whole, text: n.text.clone() }),
            None => None,
        },
        None => None,
    }
}

fn nested_whole_field(elem: &Json, outer: &str, inner: &str) -> (n: Option<u64>)
    ensures
        n == nested_whole_at(*elem, outer@, inner@),
{
    match elem.get(outer) {
        Some(value) => whole_field(value, inner),
        None => None,
    }
}

/// Decodes one item of a payload of `source`. It is a record exactly where
/// it has an identifier; whatever else is missing or has another shape is
/// absent in the record.
pub fn decode_record(source: u64, elem: &Json) -> (record: Option<Record>)
    ensures
        record is Some <==> has_identifier(*elem),
        record matches Some(r) ==> r@ == record_of(source, *elem) && r.source_id == source,
{
    match whole_field(elem, "id") {
        None => None,
        Some(id) => Some(
            Record {
                source_id: source,
                id,
                created_at: text_field(elem, "created_at"),
                started_at: text_field(elem, "started_at"),
                finished_at: text_field(elem, "finished_at"),
                duration: number_field(elem, "duration"),
                name: text_field(elem, "name"),
                stage: text_field(elem, "stage"),
                status: text_field(elem, "status"),
                web_url: text_field(elem, "web_url"),
                pipeline_id: nested_whole_field(elem, "pipeline", "id"),
                user_id: nested_whole_field(elem, "user", "id"),
            },
        ),
    }
}

/// Decodes the payload `doc` of `source`: an array, of which every item
/// becomes one record tagged with `source`, in order. One item without an
/// identifier fails the payload.
pub fn decode_records(source: u64, doc: &Json) -> (records: Result<Vec<Record>, DecodeError>)
    ensures
        match records {
            Ok(v) => decoded(source, *doc) == Ok::<Seq<RecordView>, DecodeError>(views(v@)),
            Err(e) => decoded(source, *doc) == Err::<Seq<RecordView>, DecodeError>(e),
        },
        records matches Ok(v) ==> forall|i: int| 0 <= i < v@.len() ==> (#[trigger] v@[i]).source_id == source,
{
    let items = match doc.as_array() {
        Some(items) => items,
        None => {
            return Err(DecodeError::NotAnArray);
        },
    };
    let mut out: Vec<Record> = Vec::new();
    let mut i: usize = 0;
    while i < items.len()
        invariant
            i <= items.len(),
            out@.len() == i,
            doc.items() == Some(items@),
            forall|j: int| 0 <= j < i ==> has_identifier(#[trigger] items@[j]),
            forall|j: int| 0 <= j < i ==> (#[trigger] out@[j])@ == record_of(source, items@[j]),
            forall|j: int| 0 <= j < i ==> (#[trigger] out@[j]).source_id == source,
        decreases items.len() - i,
    {
        match decode_record(source, &items[i]) {
            Some(record) => {
                out.push(record);
            },
            None => {
                proof {
                    assert(first_without_identifier(items@, i as int));
                    let first = choose|k: int| first_without_identifier(items@, k);
                    assert(first == i);
                }
                return Err(DecodeError::MissingIdentifier { index: i });
            },
        }
        i += 1;
    }
    proof {
        assert(!exists|k: int| first_without_identifier(items@, k));
        assert(views(out@) =~= Seq::new(items@.len(), |k: int| record_of(source, items@[k])));
    }
    Ok(out)
}

/// Every record of a decoded payload carries the source that the payload
/// was decoded for, whatever the payload holds.
pub proof fn lemma_records_carry_their_source(source: u64, doc: Json)
    requires
        decoded(source, doc) is Ok,
    ensures
        forall|i: int|
            0 <= i < decoded(source, doc).unwrap().len() ==> (#[trigger] decoded(
                source,
                doc,
            ).unwrap()[i]).source_id == source,
{
}

/// An array whose items all have an identifier decodes to as many records,
/// whatever else the items lack.
pub proof fn lemma_identifiers_suffice(source: u64, doc: Json)
    requires
        doc.items() is Some,
        forall|i: int|
            0 <= i < doc.items().unwrap().len() ==> has_identifier(#[trigger] doc.items().unwrap()[i]),
    ensures
        decoded(source, doc) is Ok,
        decoded(source, doc).unwrap().len() == doc.items().unwrap().len(),
{
}

/// A member that an item lacks is absent in its record: no text, number or
/// nested identifier is made up for it.
pub proof fn lemma_missing_members_are_absent(source: u64, elem: Json)
    requires
        has_identifier(elem),
    ensures
        elem.member("created_at"@) is None ==> record_of(source, elem).created_at is None,
        elem.member("started_at"@) is None ==> record_of(source, elem).started_at is None,
        elem.member("finished_at"@) is None ==> record_of(source, elem).finished_at is None,
        elem.member("duration"@) is None ==> record_of(source, elem).duration is None,
        elem.member("name"@) is None ==> record_of(source, elem).name is None,
        elem.member("stage"@) is None ==> record_of(source, elem).stage is None,
        elem.member("status"@) is None ==> record_of(source, elem).status is None,
        elem.member("web_url"@) is None ==> record_of(source, elem).web_url is None,
        elem.member("pipeline"@) is None ==> record_of(source, elem).pipeline_id is None,
        elem.member("user"@) is None ==> record_of(source, elem).user_id is None,
{
}

} // verus!
