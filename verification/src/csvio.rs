use vstd::prelude::*;
use crate::errors::ProcessorError;

verus! {

/// The table that the tabular text parses to, header row first, if it parses
/// at all: a function of the text alone.
pub uninterp spec fn csv_table(text: Seq<char>) -> Option<(Seq<Seq<char>>, Seq<Seq<Seq<char>>>)>;

/// Whether the header row of the text can be read at all: a function of the
/// text alone.
pub uninterp spec fn csv_header_readable(text: Seq<char>) -> bool;

/// Relies on csv::ReaderBuilder, csv::Reader::headers and
/// csv::Reader::records: reading is deterministic in the text; the header row
/// is read first, and a failure on it is told apart from a failure on a
/// record.
#[verifier::external_body]
pub(crate) fn parse_csv(text: &str) -> (r: Result<(Vec<String>, Vec<Vec<String>>), ProcessorError>)
    ensures
        r matches Ok(t) ==> csv_table(text@) == Some((t.0.deep_view(), t.1.deep_view())),
        r is Err ==> csv_table(text@) is None,
        r matches Err(e) ==> e is TableHeader || e is TableRecord,
        (r matches Err(e) && e is TableHeader) <==> !csv_header_readable(text@),
        (r matches Err(e) && e is TableRecord) <==> (csv_header_readable(text@) && csv_table(
            text@,
        ) is None),
{
    let mut rdr = csv::ReaderBuilder::new().has_headers(true).from_reader(text.as_bytes());
    let headers = match rdr.headers() {
        Ok(h) => h.iter().map(|f| f.to_string()).collect(),
        Err(e) => return Err(ProcessorError::TableHeader(format!("{}", e))),
    };
    let mut rows = Vec::new();
    for rec in rdr.records() {
        match rec {
            Ok(rcd) => rows.push(rcd.iter().map(|f| f.to_string()).collect()),
            Err(e) => return Err(ProcessorError::TableRecord(format!("{}", e))),
        }
    }
    Ok((headers, rows))
}

/// A CSV writer over an in-memory buffer. The writer type itself cannot be
/// declared to the verifier, so it sits opaquely behind this struct.
#[verifier::external_body]
pub struct CsvSink {
    inner: csv::Writer<Vec<u8>>,
}

/// The records written into a CSV sink so far, header row included.
pub uninterp spec fn written_rows(w: CsvSink) -> Seq<Seq<Seq<char>>>;

/// The field count that the first written record fixed, if one was written.
pub uninterp spec fn writer_width(w: CsvSink) -> Option<nat>;

/// The text that the CSV format gives a record list, each field escaped as
/// needed: a function of the records alone.
pub uninterp spec fn csv_render(rows: Seq<Seq<Seq<char>>>) -> Seq<char>;

/// Relies on csv::Writer::from_writer: a fresh writer over an in-memory
/// buffer holds nothing.
#[verifier::external_body]
pub(crate) fn csv_writer_new() -> (w: CsvSink)
    ensures
        written_rows(w) == Seq::<Seq<Seq<char>>>::empty(),
        writer_width(w) is None,
{
    CsvSink { inner: csv::Writer::from_writer(Vec::new()) }
}

/// Relies on csv::Writer::write_record: writing appends one record, and the
/// first record fixes the field count. With the default configuration a
/// record of another length is refused after its fields already reached the
/// buffer, so such a write is left out by `requires`; within it, an
/// in-memory buffer never fails a write.
#[verifier::external_body]
pub(crate) fn csv_write_row(w: &mut CsvSink, row: &Vec<String>)
    requires
        writer_width(*old(w)) is None || writer_width(*old(w)) == Some(row@.len() as nat),
    ensures
        written_rows(*final(w)) == written_rows(*old(w)).push(row.deep_view()),
        writer_width(*final(w)) == Some(row@.len() as nat),
{
    let _ = w.inner.write_record(row);
}

/// Relies on csv::Writer::into_inner and String::from_utf8: flushing into an
/// in-memory buffer cannot fail, and the written bytes are UTF-8 because the
/// fields were.
#[verifier::external_body]
pub(crate) fn csv_into_text(w: CsvSink) -> (r: String)
    ensures
        r@ == csv_render(written_rows(w)),
{
    let bytes = w.inner.into_inner().unwrap_or_default();
    String::from_utf8(bytes).unwrap_or_default()
}

} // verus!
