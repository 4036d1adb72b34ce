//! A record source that decodes CSV rows, through the csv crate, into records
//! of text fields.

use vstd::prelude::*;
use crate::record::Record;
use crate::value::{SpecValue, Value};

verus! {

#[verifier::external_type_specification]
#[verifier::external_body]
#[verifier::reject_recursive_types(R)]
pub struct ExCsvReader<R>(csv::Reader<R>);

#[verifier::external_type_specification]
#[verifier::external_body]
pub struct ExCsvError(csv::Error);

/// A failure of the record source.
#[derive(Debug, Clone, Copy, PartialEq, Eq, Structural)]
pub enum SourceError {
    /// The underlying CSV reader failed to read or decode a row.
    Csv,
}

/// Relies on csv's `Reader::has_headers`: whether the reader was configured
/// to treat the first row as a header row.
#[verifier::external_body]
fn csv_has_headers<R: std::io::Read>(r: &csv::Reader<R>) -> bool {
    r.has_headers()
}

/// Relies on csv's `Reader::headers`: the header row, one text per column.
#[verifier::external_body]
fn csv_headers<R: std::io::Read>(r: &mut csv::Reader<R>) -> Result<Vec<String>, csv::Error> {
    match r.headers() {
        Ok(rec) => Ok(rec.iter().map(|f| f.to_string()).collect()),
        Err(e) => Err(e),
    }
}

/// Relies on csv's `Reader::read_record`: the next row, one text per column,
/// or `None` at end of input.
#[verifier::external_body]
fn csv_next_row<R: std::io::Read>(r: &mut csv::Reader<R>) -> Option<
    Result<Vec<String>, csv::Error>,
> {
    let mut rec = csv::StringRecord::new();
    match r.read_record(&mut rec) {
        Ok(true) => Some(Ok(rec.iter().map(|f| f.to_string()).collect())),
        Ok(false) => None,
        Err(e) => Some(Err(e)),
    }
}

/// Walks a CSV reader row by row, handing each row out as a record of text
/// fields.
#[verifier::reject_recursive_types(R)]
pub struct CsvIonIterator<R> {
    pub reader: csv::Reader<R>,
    pub headers: Option<Vec<String>>,
}

impl<R: std::io::Read> CsvIonIterator<R> {
    /// Wraps a CSV reader, reading the header row first when the reader was
    /// configured with one.
    pub fn new(reader: csv::Reader<R>) -> Result<CsvIonIterator<R>, SourceError> {
        let mut reader = reader;
        let headers: Option<Vec<String>> = if csv_has_headers(&reader) {
            match csv_headers(&mut reader) {
                Ok(h) => Some(h),
                Err(_) => {
                    return Err(SourceError::Csv);
                },
            }
        } else {
            None
        };
        Ok(CsvIonIterator { reader, headers })
    }

    /// The header name at a 0-based column index, when a header row exists
    /// and the index is in range.
    pub fn get_header(&self, index: usize) -> (r: Option<&str>)
        ensures
            match r {
                Some(h) => self.headers matches Some(hs) && index < hs@.len() && h@ == hs@[
                    index as int
                ]@,
                None => !(self.headers matches Some(hs) && index < hs@.len()),
            },
    {
        match &self.headers {
            Some(hs) => {
                if index < hs.len() {
                    Some(hs[index].as_str())
                } else {
                    None
                }
            },
            None => None,
        }
    }

    /// Decodes the next row into a record whose fields are all text values;
    /// `None` at end of input. The header row is not consumed here.
    pub fn next_record(&mut self) -> (r: Option<Result<Record, SourceError>>)
        ensures
            final(self).headers == old(self).headers,
            match r {
                Some(Ok(rec)) => forall|i: int| 0 <= i < rec@.len() ==> rec@[i] is String,
                _ => true,
            },
    {
        match csv_next_row(&mut self.reader) {
            None => None,
            Some(Err(_)) => Some(Err(SourceError::Csv)),
            Some(Ok(fields)) => Some(Ok(Record::from_texts(fields))),
        }
    }
}

} // verus!
