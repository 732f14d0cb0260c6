//! The text formats, as the `csv` and `serde_json` crates read and write
//! them. Nothing in this file is proved: each function hands plain values
//! to one of the two crates, and its contract gives the result a name.

use crate::protocol::{Field, Request, RequestView};
use crate::store::Record;
use vstd::prelude::*;

verus! {

/// The line that `csv` writes for a record of the two fields `key` and
/// `hash`, with its default delimiter, quoting and terminator; `None` where
/// the writer reports an error.
pub uninterp spec fn csv_line(key: Seq<char>, hash: Seq<char>) -> Option<Seq<u8>>;

/// The rows, each a list of fields, that `csv` reads from `bytes` without a
/// header row; `None` where the reader reports an error on any row.
pub uninterp spec fn csv_rows(bytes: Seq<u8>) -> Option<Seq<Seq<Seq<char>>>>;

/// What `serde_json` reads from `bytes`: the string members `request_type`,
/// `key` and `hash` of the JSON value, each absent where the value has no
/// such member or the member is no string; or the parser's error message.
pub uninterp spec fn json_request(bytes: Seq<u8>) -> Result<RequestView, Seq<char>>;

/// The pretty-printed JSON object that `serde_json` writes for the members
/// `fields`, each a name with a string value; `None` where the serializer
/// reports an error.
pub uninterp spec fn json_object_text(fields: Seq<Record>) -> Option<Seq<u8>>;

/// The bytes of an optional buffer.
pub open spec fn option_bytes(o: Option<Vec<u8>>) -> Option<Seq<u8>> {
    match o {
        Some(v) => Some(v@),
        None => None,
    }
}

/// Calls `csv::Writer::write_record` on a fresh writer over an empty
/// vector, made by `csv::WriterBuilder` without headers, and takes the
/// vector back with `into_inner`. The contract only names the bytes: they
/// are a function of the two fields.
#[verifier::external_body]
pub(crate) fn encode_line(key: &str, hash: &str) -> (line: Option<Vec<u8>>)
    ensures
        option_bytes(line) == csv_line(key@, hash@),
{
    let mut writer = csv::WriterBuilder::new().has_headers(false).from_writer(Vec::new());
    writer.write_record(&[key, hash]).ok()?;
    writer.into_inner().ok()
}

/// Calls `csv::Reader::records` on a reader over `bytes`, made by
/// `csv::ReaderBuilder` without headers, and copies each field out. The
/// contract only names the rows: they are a function of the bytes.
#[verifier::external_body]
pub(crate) fn decode_rows(bytes: &[u8]) -> (rows: Option<Vec<Vec<String>>>)
    ensures
        rows.deep_view() == csv_rows(bytes@),
{
    let mut reader = csv::ReaderBuilder::new().has_headers(false).from_reader(bytes);
    reader
        .records()
        .map(|row| row.map(|fields| fields.iter().map(str::to_owned).collect()))
        .collect::<Result<Vec<Vec<String>>, csv::Error>>()
        .ok()
}

/// Calls `serde_json::from_slice` for a `serde_json::Value`, then indexes
/// the value by each of the three member names and takes `as_str` of what
/// is there. The contract only names the outcome: it is a function of the
/// bytes.
#[verifier::external_body]
pub(crate) fn decode_request(bytes: &[u8]) -> (parsed: Result<Request, String>)
    ensures
        match parsed {
            Ok(request) => json_request(bytes@) == Ok::<RequestView, Seq<char>>(request@),
            Err(message) => json_request(bytes@) == Err::<RequestView, Seq<char>>(message@),
        },
{
    match serde_json::from_slice::<serde_json::Value>(bytes) {
        Ok(value) => Ok(
            Request {
                request_type: value["request_type"].as_str().map(str::to_owned),
                key: value["key"].as_str().map(str::to_owned),
                hash: value["hash"].as_str().map(str::to_owned),
            },
        ),
        Err(error) => Err(error.to_string()),
    }
}

/// Collects the fields into a `serde_json::Map` of string values and calls
/// `serde_json::to_vec_pretty` on the object. The contract only names the
/// text: it is a function of the fields.
#[verifier::external_body]
pub(crate) fn encode_object(fields: &Vec<Field>) -> (text: Option<Vec<u8>>)
    ensures
        option_bytes(text) == json_object_text(fields.deep_view()),
{
    let object: serde_json::Map<String, serde_json::Value> = fields
        .iter()
        .map(|f| (f.name.clone(), serde_json::Value::String(f.value.clone())))
        .collect();
    serde_json::to_vec_pretty(&serde_json::Value::Object(object)).ok()
}

} // verus!
