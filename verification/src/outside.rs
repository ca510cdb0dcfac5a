//! The two outside libraries that the table of samples is read with, and
//! what is taken on trust of them.

use std::io::Read;
use vstd::prelude::*;

verus! {

/// The error of `std::io`, which the gzip decoder reports. It is carried
/// through unopened.
#[verifier::external_type_specification]
#[verifier::external_body]
pub struct ExIoError(std::io::Error);

/// What the first member of a gzip stream holds once inflated, or nothing
/// where the bytes are no such stream.
pub uninterp spec fn gunzip(bytes: Seq<u8>) -> Option<Seq<u8>>;

/// The records of comma-separated text after the first, each as its
/// fields, or nothing where the text cannot be read as such records.
pub uninterp spec fn csv_records(bytes: Seq<u8>) -> Option<Seq<Seq<Seq<char>>>>;

/// The first record of comma-separated text as its fields, or nothing
/// where it cannot be read as text.
pub uninterp spec fn csv_header(bytes: Seq<u8>) -> Option<Seq<Seq<char>>>;

/// The fields of a record as sequences of characters.
pub open spec fn fields_of(record: Seq<String>) -> Seq<Seq<char>> {
    record.map_values(|field: String| field@)
}

/// The records of a table as sequences of fields.
pub open spec fn records_of(records: Seq<Vec<String>>) -> Seq<Seq<Seq<char>>> {
    records.map_values(|record: Vec<String>| fields_of(record@))
}

/// Inflates the first member of a gzip stream with
/// `flate2::read::GzDecoder`, read to its end.
///
/// Taken on trust: the bytes that come out depend on the bytes that go in
/// and on nothing else, and an error is returned exactly where the decoder
/// reports one.
#[verifier::external_body]
pub(crate) fn inflate(bytes: &[u8]) -> (r: Result<Vec<u8>, std::io::Error>)
    ensures
        match r {
            Ok(data) => gunzip(bytes@) == Some(data@),
            Err(_) => gunzip(bytes@) is None,
        },
{
    let mut data = Vec::new();
    match flate2::read::GzDecoder::new(bytes).read_to_end(&mut data) {
        Ok(_) => Ok(data),
        Err(e) => Err(e),
    }
}

/// Reads every record after the first with `csv::Reader::records`, on a
/// reader with the stock settings.
///
/// Taken on trust: the records depend on the bytes alone, and nothing is
/// returned exactly where the reader reports an error for some record.
#[verifier::external_body]
pub(crate) fn read_records(bytes: &[u8]) -> (r: Option<Vec<Vec<String>>>)
    ensures
        match r {
            Some(records) => csv_records(bytes@) == Some(records_of(records@)),
            None => csv_records(bytes@) is None,
        },
{
    csv::Reader::from_reader(bytes)
        .records()
        .map(|record| record.ok().map(|fields| fields.iter().map(String::from).collect()))
        .collect()
}

/// Reads the first record with `csv::Reader::headers`, on a reader with
/// the stock settings.
///
/// Taken on trust: the fields depend on the bytes alone, and nothing is
/// returned exactly where the reader reports an error.
#[verifier::external_body]
pub(crate) fn read_header(bytes: &[u8]) -> (r: Option<Vec<String>>)
    ensures
        match r {
            Some(header) => csv_header(bytes@) == Some(fields_of(header@)),
            None => csv_header(bytes@) is None,
        },
{
    match csv::Reader::from_reader(bytes).headers() {
        Ok(header) => Some(header.iter().map(String::from).collect()),
        Err(_) => None,
    }
}

} // verus!
