//! Records: an identifier and an open set of named JSON values.

use vstd::prelude::*;
use crate::error::{DecodeError, Error, SyntaxError};
use crate::field_map::{entries_map, FieldMap};
use crate::json::{json_parse, parse_json, JsonValue};
use crate::provider::identifier::{identifier_of, Identifier};

verus! {

/// What has an identifier of its own kind.
pub trait RaRecord {
    type IdentifierType;

    fn id(&self) -> &Self::IdentifierType;
}

/// One entity of the backend: its identifier and its fields. Where the
/// backend writes the identifier among the fields, it stays among them.
#[derive(Debug)]
pub struct Record {
    pub id: Identifier,
    pub fields: FieldMap<JsonValue>,
}

/// A record as a mathematical value.
pub ghost struct RecordModel {
    pub id: Identifier,
    pub fields: Map<Seq<char>, JsonValue>,
}

impl View for Record {
    type V = RecordModel;

    open spec fn view(&self) -> RecordModel {
        RecordModel { id: self.id, fields: self.fields@ }
    }
}

impl RaRecord for Record {
    type IdentifierType = Identifier;

    fn id(&self) -> (id: &Identifier)
        ensures
            *id == self.id,
    {
        &self.id
    }
}

/// The records of a list, as mathematical values.
pub open spec fn models(records: Seq<Record>) -> Seq<RecordModel> {
    records.map_values(|r: Record| r@)
}

/// The name of the member that holds a record's identifier.
pub open spec fn id_name() -> Seq<char> {
    seq!['i', 'd']
}

/// The record that a JSON value holds. The value has to be an object with a
/// member `id` that is an identifier; every member of the object, `id` too,
/// is a field of the record.
pub open spec fn decoded_record(value: JsonValue) -> Result<RecordModel, DecodeError> {
    match value {
        JsonValue::Object(members) => {
            let fields = entries_map(members@);
            if !fields.contains_key(id_name()) {
                Err(DecodeError::MissingId)
            } else {
                match identifier_of(fields[id_name()]) {
                    Some(id) => Ok(RecordModel { id, fields }),
                    None => Err(DecodeError::InvalidId),
                }
            }
        },
        _ => Err(DecodeError::NotAnObject),
    }
}

/// The records that a sequence of JSON values holds, in its order; where
/// some value holds none, the error of the first such value.
pub open spec fn decoded_all(items: Seq<JsonValue>) -> Result<Seq<RecordModel>, DecodeError>
    decreases items.len(),
{
    if items.len() == 0 {
        Ok(Seq::empty())
    } else {
        match decoded_all(items.drop_last()) {
            Err(e) => Err(e),
            Ok(front) => match decoded_record(items.last()) {
                Err(e) => Err(e),
                Ok(record) => Ok(front.push(record)),
            },
        }
    }
}

/// The list of records that a JSON value holds: the value has to be an array
/// of which every element holds a record.
pub open spec fn decoded_records(value: JsonValue) -> Result<Seq<RecordModel>, DecodeError> {
    match value {
        JsonValue::Array(items) => decoded_all(items@),
        _ => Err(DecodeError::NotAnArray),
    }
}

/// Whether `res` is what decoding one record from the text `body` gives: a
/// syntax error where the text is not JSON, else the record that the JSON
/// value holds, or the reason why it holds none.
pub open spec fn record_in(body: Seq<char>, res: Result<Record, Error>) -> bool {
    match json_parse(body) {
        None => res matches Err(Error::Parse(DecodeError::Syntax(_))),
        Some(value) => match decoded_record(value) {
            Ok(model) => res matches Ok(record) && record@ == model,
            Err(e) => res == Err::<Record, Error>(Error::Parse(e)),
        },
    }
}

/// Whether `res` is what decoding a list of records from the text `body`
/// gives.
pub open spec fn records_in(body: Seq<char>, res: Result<Vec<Record>, Error>) -> bool {
    match json_parse(body) {
        None => res matches Err(Error::Parse(DecodeError::Syntax(_))),
        Some(value) => match decoded_records(value) {
            Ok(list) => res matches Ok(records) && models(records@) == list,
            Err(e) => res == Err::<Vec<Record>, Error>(Error::Parse(e)),
        },
    }
}

/// A decoded record holds its identifier among its fields too, under the
/// name `id`, as the JSON value had it.
pub proof fn lemma_decoded_record_holds_id(value: JsonValue)
    requires
        decoded_record(value) is Ok,
    ensures
        decoded_record(value)->Ok_0.fields.contains_key(id_name()),
        identifier_of(decoded_record(value)->Ok_0.fields[id_name()]) == Some(
            decoded_record(value)->Ok_0.id,
        ),
{
}

/// A list decodes to as many records as it has elements.
pub proof fn lemma_decoded_all_len(items: Seq<JsonValue>)
    ensures
        decoded_all(items) matches Ok(records) ==> records.len() == items.len(),
    decreases items.len(),
{
    if items.len() > 0 {
        lemma_decoded_all_len(items.drop_last());
    }
}

/// An element that holds no record fails every list that it is in, unless an
/// earlier element fails it first: the error of a prefix is the error of the
/// whole.
pub proof fn lemma_decoded_all_prefix_error(items: Seq<JsonValue>, n: int)
    requires
        0 <= n <= items.len(),
        decoded_all(items.take(n)) is Err,
    ensures
        decoded_all(items) == decoded_all(items.take(n)),
    decreases items.len() - n,
{
    if n < items.len() {
        assert(items.take(n + 1).drop_last() =~= items.take(n));
        lemma_decoded_all_prefix_error(items, n + 1);
    } else {
        assert(items.take(n) =~= items);
    }
}

impl Record {
    /// Decodes one record from a JSON value.
    pub fn from_json(value: JsonValue) -> (res: Result<Record, DecodeError>)
        ensures
            match decoded_record(value) {
                Ok(model) => res matches Ok(record) && record@ == model,
                Err(e) => res == Err::<Record, DecodeError>(e),
            },
    {
        match value {
            JsonValue::Object(members) => {
                let fields = FieldMap::from_entries(members);
                proof {
                    reveal_strlit("id");
                    assert("id"@ =~= id_name());
                }
                let found = match fields.get("id") {
                    None => Err(DecodeError::MissingId),
                    Some(v) => match Identifier::from_json(v) {
                        Some(id) => Ok(id),
                        None => Err(DecodeError::InvalidId),
                    },
                };
                match found {
                    Ok(id) => Ok(Record { id, fields }),
                    Err(e) => Err(e),
                }
            },
            _ => Err(DecodeError::NotAnObject),
        }
    }

    /// The record that a body holds, given what the JSON parser made of the
    /// body.
    pub fn from_parsed(parsed: Result<JsonValue, SyntaxError>) -> (res: Result<Record, Error>)
        ensures
            match parsed {
                Err(fault) => res == Err::<Record, Error>(
                    Error::Parse(DecodeError::Syntax(fault)),
                ),
                Ok(value) => match decoded_record(value) {
                    Ok(model) => res matches Ok(record) && record@ == model,
                    Err(e) => res == Err::<Record, Error>(Error::Parse(e)),
                },
            },
    {
        match parsed {
            Err(fault) => Err(Error::Parse(DecodeError::Syntax(fault))),
            Ok(value) => match Record::from_json(value) {
                Ok(record) => Ok(record),
                Err(e) => Err(Error::Parse(e)),
            },
        }
    }

    /// The list of records that a body holds, given what the JSON parser made
    /// of the body.
    pub fn list_from_parsed(parsed: Result<JsonValue, SyntaxError>) -> (res: Result<
        Vec<Record>,
        Error,
    >)
        ensures
            match parsed {
                Err(fault) => res == Err::<Vec<Record>, Error>(
                    Error::Parse(DecodeError::Syntax(fault)),
                ),
                Ok(value) => match decoded_records(value) {
                    Ok(list) => res matches Ok(records) && models(records@) == list,
                    Err(e) => res == Err::<Vec<Record>, Error>(Error::Parse(e)),
                },
            },
    {
        match parsed {
            Err(fault) => Err(Error::Parse(DecodeError::Syntax(fault))),
            Ok(value) => match Record::list_from_json(value) {
                Ok(records) => Ok(records),
                Err(e) => Err(Error::Parse(e)),
            },
        }
    }

    /// Decodes one record from the text of a body.
    pub fn from_text(body: &str) -> (res: Result<Record, Error>)
        ensures
            record_in(body@, res),
    {
        Record::from_parsed(parse_json(body))
    }

    /// Decodes a list of records from the text of a body.
    pub fn list_from_text(body: &str) -> (res: Result<Vec<Record>, Error>)
        ensures
            records_in(body@, res),
    {
        Record::list_from_parsed(parse_json(body))
    }

    /// Decodes a list of records from a JSON value.
    pub fn list_from_json(value: JsonValue) -> (res: Result<Vec<Record>, DecodeError>)
        ensures
            match decoded_records(value) {
                Ok(list) => res matches Ok(records) && models(records@) == list,
                Err(e) => res == Err::<Vec<Record>, DecodeError>(e),
            },
    {
        match value {
            JsonValue::Array(items) => {
                let ghost all = items@;
                let ghost mut done: int = 0;
                let mut rest = items;
                let mut records: Vec<Record> = Vec::new();
                proof {
                    assert(all.skip(0) =~= all);
                    assert(all.take(0) =~= Seq::<JsonValue>::empty());
                    assert(models(records@) =~= Seq::<RecordModel>::empty());
                }
                while rest.len() > 0
                    invariant
                        0 <= done <= all.len(),
                        rest@ == all.skip(done),
                        decoded_records(value) == decoded_all(all),
                        decoded_all(all.take(done)) == Ok::<Seq<RecordModel>, DecodeError>(
                            models(records@),
                        ),
                    decreases rest@.len(),
                {
                    let item = rest.remove(0);
                    proof {
                        done = done + 1;
                        assert(all.take(done).drop_last() =~= all.take(done - 1));
                        assert(all.take(done).last() == item);
                        assert(rest@ =~= all.skip(done));
                    }
                    match Record::from_json(item) {
                        Ok(record) => {
                            let ghost before = records@;
                            records.push(record);
                            proof {
                                assert(models(records@) =~= models(before).push(record@));
                            }
                        },
                        Err(e) => {
                            proof {
                                assert(decoded_all(all.take(done)) == Err::<
                                    Seq<RecordModel>,
                                    DecodeError,
                                >(e));
                                lemma_decoded_all_prefix_error(all, done);
                            }
                            return Err(e);
                        },
                    }
                }
                proof {
                    assert(all.take(done) =~= all);
                }
                Ok(records)
            },
            _ => Err(DecodeError::NotAnArray),
        }
    }
}

} // verus!
