//! Reading delimited text with the `csv` crate: the reader is the crate's,
//! the loop that drains it is verified here.

use crate::file_handling::LoadError;
use vstd::prelude::*;

verus! {

/// The `csv` crate's reader, `csv::Reader`. Nothing is known of what is
/// inside one but what `unread` says.
#[verifier::external_type_specification]
#[verifier::external_body]
#[verifier::reject_recursive_types(R)]
pub struct ExReader<R>(csv::Reader<R>);

/// The `csv` crate's error, `csv::Error`. It is passed on unread.
#[verifier::external_type_specification]
#[verifier::external_body]
pub struct ExError(csv::Error);

/// What a `csv` reader over `data` hands out, record by record, until the
/// data ends. A record is a sequence of cells; `None` stands for a record
/// that the reader answers with an error. With `has_headers` the first record
/// of the data is held back; with `flexible` records may differ in length.
pub uninterp spec fn csv_records(data: Seq<u8>, has_headers: bool, flexible: bool) -> Seq<
    Option<Seq<Seq<char>>>,
>;

/// The part of `csv_records` that `reader` has not handed out yet.
pub uninterp spec fn unread(reader: csv::Reader<&[u8]>) -> Seq<Option<Seq<Seq<char>>>>;

/// `csv::ReaderBuilder::from_reader` on a byte slice, after `has_headers` and
/// `flexible` have been set on a new builder. Nothing has been read yet, so
/// all of `csv_records` is still to come.
#[verifier::external_body]
fn open_reader(data: &[u8], has_headers: bool, flexible: bool) -> (reader: csv::Reader<&[u8]>)
    ensures
        unread(reader) == csv_records(data@, has_headers, flexible),
{
    csv::ReaderBuilder::new().has_headers(has_headers).flexible(flexible).from_reader(data)
}

/// `csv::Reader::read_record`. At the end of the data it returns `Ok(None)`
/// and stays there. Before the end it moves past one record, and returns it
/// cell by cell, or returns the crate's error for it.
#[verifier::external_body]
fn next_record(reader: &mut csv::Reader<&[u8]>) -> (r: Result<Option<Vec<String>>, csv::Error>)
    ensures
        match r {
            Ok(Some(row)) => {
                &&& unread(*old(reader)).len() > 0
                &&& unread(*old(reader))[0] == Some(row.deep_view())
                &&& unread(*final(reader)) == unread(*old(reader)).skip(1)
            },
            Ok(None) => {
                &&& unread(*old(reader)).len() == 0
                &&& unread(*final(reader)) == unread(*old(reader))
            },
            Err(_) => {
                &&& unread(*old(reader)).len() > 0
                &&& unread(*old(reader))[0] is None
                &&& unread(*final(reader)) == unread(*old(reader)).skip(1)
            },
        },
{
    let mut record = csv::StringRecord::new();
    match reader.read_record(&mut record) {
        Ok(true) => Ok(Some(record.iter().map(String::from).collect())),
        Ok(false) => Ok(None),
        Err(e) => Err(e),
    }
}

/// The records of a file as this library reads it: the header is a record
/// like the others, and no record is refused for its length.
pub open spec fn records_in(data: Seq<u8>) -> Seq<Option<Seq<Seq<char>>>> {
    csv_records(data, false, true)
}

/// Every record of the stream is readable text.
pub open spec fn all_readable(stream: Seq<Option<Seq<Seq<char>>>>) -> bool {
    forall|i: int| 0 <= i < stream.len() ==> (#[trigger] stream[i]) is Some
}

/// The records of a stream in which every record is readable.
pub open spec fn rows_of(stream: Seq<Option<Seq<Seq<char>>>>) -> Seq<Seq<Seq<char>>> {
    Seq::new(stream.len(), |i: int| stream[i].unwrap())
}

/// The record at `at` is the first one of the stream that is not readable.
pub open spec fn first_unreadable(stream: Seq<Option<Seq<Seq<char>>>>, at: int) -> bool {
    &&& 0 <= at < stream.len()
    &&& stream[at] is None
    &&& forall|i: int| 0 <= i < at ==> (#[trigger] stream[i]) is Some
}

/// A stream has at most one first unreadable record.
pub proof fn lemma_first_unreadable_unique(stream: Seq<Option<Seq<Seq<char>>>>, a: int, b: int)
    requires
        first_unreadable(stream, a),
        first_unreadable(stream, b),
    ensures
        a == b,
{
    if a < b {
        assert(stream[a] is Some);
    } else if b < a {
        assert(stream[b] is Some);
    }
}

/// The records of `data`, in order, each as its cells. Fails with
/// `ParseError` at the first record that is not readable, which for data in
/// memory means that it is not valid UTF-8.
pub fn parse_records(data: &[u8]) -> (r: Result<Vec<Vec<String>>, LoadError>)
    ensures
        match r {
            Ok(rows) => all_readable(records_in(data@)) && rows.deep_view() == rows_of(
                records_in(data@),
            ),
            Err(e) => e matches LoadError::ParseError(at) && first_unreadable(
                records_in(data@),
                at as int,
            ),
        },
{
    let ghost stream = records_in(data@);
    let mut reader = open_reader(data, false, true);
    let mut rows: Vec<Vec<String>> = Vec::new();
    loop
        invariant
            stream == records_in(data@),
            rows.len() <= stream.len(),
            unread(reader) == stream.skip(rows.len() as int),
            forall|i: int| 0 <= i < rows.len() ==> #[trigger] stream[i] == Some(rows[i].deep_view()),
        decreases unread(reader).len(),
    {
        let ghost before = unread(reader);
        match next_record(&mut reader) {
            Ok(Some(row)) => {
                proof {
                    assert(before[0] == stream[rows.len() as int]);
                    assert(before.skip(1) =~= stream.skip(rows.len() + 1));
                }
                rows.push(row);
            },
            Ok(None) => {
                proof {
                    assert(rows.len() == stream.len());
                    assert(rows.deep_view() =~= rows_of(stream));
                }
                return Ok(rows);
            },
            Err(_) => {
                proof {
                    assert(before[0] == stream[rows.len() as int]);
                }
                return Err(LoadError::ParseError(rows.len()));
            },
        }
    }
}

} // verus!
