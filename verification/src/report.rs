//! The delimited text of result files and of trace files.
//!
//! Records are encoded by the `csv` crate, one record at a time and in
//! memory; writing the bytes to a file is left to the caller.

use crate::decimal::{
    decimal, decimal_string, digit_char, is_digit, lemma_decimal_digits, signed_decimal,
    signed_decimal_string,
};
use crate::points::BenchmarkResult;
use vstd::prelude::*;
use vstd::string::*;

verus! {

/// The bytes that `csv::Writer`, in its default configuration, writes for
/// one record with the given fields: the fields, quoted where they need it,
/// separated by commas and ended by a line feed.
pub uninterp spec fn csv_line(fields: Seq<Seq<char>>) -> Seq<u8>;

/// The texts of a sequence of strings, in the same order.
pub open spec fn texts(fields: Seq<String>) -> Seq<Seq<char>> {
    Seq::new(fields.len(), |i: int| fields[i]@)
}

/// True of an ASCII character that needs no quoting in a record: any but
/// the comma, the double quote, the carriage return and the line feed.
pub open spec fn is_plain_char(c: char) -> bool {
    &&& (c as u32) < 128
    &&& c != ','
    &&& c != '"'
    &&& c != '\r'
    &&& c != '\n'
}

/// True of a field made of plain characters only.
pub open spec fn is_plain_field(field: Seq<char>) -> bool {
    forall|i: int| 0 <= i < field.len() ==> is_plain_char(#[trigger] field[i])
}

/// True of a record made of plain fields only.
pub open spec fn is_plain_record(fields: Seq<Seq<char>>) -> bool {
    forall|k: int| 0 <= k < fields.len() ==> is_plain_field(#[trigger] fields[k])
}

/// The bytes of an ASCII text.
pub open spec fn ascii_bytes(text: Seq<char>) -> Seq<u8> {
    Seq::new(text.len(), |i: int| text[i] as u8)
}

/// The fields as ASCII bytes, with a comma between each two.
pub open spec fn joined(fields: Seq<Seq<char>>) -> Seq<u8>
    decreases fields.len(),
{
    if fields.len() == 0 {
        Seq::empty()
    } else if fields.len() == 1 {
        ascii_bytes(fields[0])
    } else {
        joined(fields.drop_last()) + seq![44u8] + ascii_bytes(fields.last())
    }
}

/// The line of a record that needs no quoting: the joined fields and a line
/// feed.
pub open spec fn plain_line(fields: Seq<Seq<char>>) -> Seq<u8> {
    joined(fields).push(10u8)
}

/// True of bytes that end with a line feed.
pub open spec fn is_whole_line(bytes: Seq<u8>) -> bool {
    bytes.len() > 0 && bytes.last() == 10u8
}

/// Encodes one record with a fresh `csv::Writer` over a `Vec<u8>`
/// (`Writer::from_writer`, `write_record`, `into_inner`) and returns what
/// was written.
///
/// The claims: the writer writes to memory, where no write fails, and holds
/// a single record, so no field count can disagree: the call succeeds. The
/// bytes are those the writer produces for the record, named `csv_line`.
/// The writer ends every record with its terminator, a line feed. Where
/// every field is plain and the joined fields are not empty, the writer
/// quotes nothing, and the line is the joined fields and a line feed.
#[verifier::external_body]
fn write_record(fields: &Vec<String>) -> (line: Option<Vec<u8>>)
    ensures
        line is Some,
        line->0@ == csv_line(texts(fields@)),
        is_whole_line(line->0@),
        is_plain_record(texts(fields@)) && joined(texts(fields@)).len() > 0 ==> line->0@
            == plain_line(texts(fields@)),
{
    let mut writer = csv::Writer::from_writer(Vec::new());
    match writer.write_record(fields) {
        Ok(()) => writer.into_inner().ok(),
        Err(_) => None,
    }
}

/// Encodes one record as a line of delimited text.
pub fn record_line(fields: &Vec<String>) -> (line: Vec<u8>)
    ensures
        line@ == csv_line(texts(fields@)),
        is_whole_line(line@),
        is_plain_record(texts(fields@)) && joined(texts(fields@)).len() > 0 ==> line@
            == plain_line(texts(fields@)),
{
    let line = write_record(fields);
    line.unwrap()
}

/// The column names of a result file.
pub open spec fn header_fields() -> Seq<Seq<char>> {
    seq!["duration"@, "write_percentage"@, "transaction_size"@, "transaction_count"@]
}

/// The fields of the row for one result: the duration in milliseconds, the
/// write percentage, the transaction size and the transaction count, each
/// in decimal.
pub open spec fn result_fields(result: BenchmarkResult) -> Seq<Seq<char>> {
    seq![
        decimal(result.duration_ms as nat),
        signed_decimal(result.write_percentage as int),
        decimal(result.transaction_size as nat),
        decimal(result.transaction_count as nat),
    ]
}

/// The rows of the results, one line each, in order.
pub open spec fn result_rows(results: Seq<BenchmarkResult>) -> Seq<u8>
    decreases results.len(),
{
    if results.len() == 0 {
        Seq::empty()
    } else {
        result_rows(results.drop_last()) + plain_line(result_fields(results.last()))
    }
}

/// The whole text of a result file: the header line, then one row per
/// result.
pub open spec fn results_document(results: Seq<BenchmarkResult>) -> Seq<u8> {
    plain_line(header_fields()) + result_rows(results)
}

/// Digits are plain, so a decimal notation is a plain field.
pub proof fn lemma_decimal_is_plain(n: nat)
    ensures
        is_plain_field(decimal(n)),
        decimal(n).len() >= 1,
{
    lemma_decimal_digits(n);
    assert forall|i: int| 0 <= i < decimal(n).len() implies is_plain_char(
        #[trigger] decimal(n)[i],
    ) by {
        let c = decimal(n)[i];
        assert(is_digit(c));
        let d = choose|d: nat| d < 10 && c == #[trigger] digit_char(d);
        assert(c == digit_char(d));
    }
}

/// The minus sign is plain, so a signed decimal notation is a plain field.
pub proof fn lemma_signed_decimal_is_plain(n: int)
    ensures
        is_plain_field(signed_decimal(n)),
        signed_decimal(n).len() >= 1,
{
    if n < 0 {
        lemma_decimal_is_plain((-n) as nat);
        let text = signed_decimal(n);
        assert forall|i: int| 0 <= i < text.len() implies is_plain_char(#[trigger] text[i]) by {
            if i > 0 {
                assert(text[i] == decimal((-n) as nat)[i - 1]);
            }
        }
    } else {
        lemma_decimal_is_plain(n as nat);
    }
}

/// The row of a result needs no quoting.
pub proof fn lemma_result_fields_are_plain(result: BenchmarkResult)
    ensures
        is_plain_record(result_fields(result)),
        joined(result_fields(result)).len() > 0,
{
    lemma_decimal_is_plain(result.duration_ms as nat);
    lemma_signed_decimal_is_plain(result.write_percentage as int);
    lemma_decimal_is_plain(result.transaction_size as nat);
    lemma_decimal_is_plain(result.transaction_count as nat);
}

/// The header of a result file needs no quoting.
pub proof fn lemma_header_fields_are_plain()
    ensures
        is_plain_record(header_fields()),
        joined(header_fields()).len() > 0,
{
    reveal_strlit("duration");
    reveal_strlit("write_percentage");
    reveal_strlit("transaction_size");
    reveal_strlit("transaction_count");
    assert(is_plain_field("duration"@));
    assert(is_plain_field("write_percentage"@));
    assert(is_plain_field("transaction_size"@));
    assert(is_plain_field("transaction_count"@));
}

/// The column names of a result file.
pub fn result_header() -> (fields: Vec<String>)
    ensures
        texts(fields@) == header_fields(),
{
    let mut fields: Vec<String> = Vec::new();
    fields.push(String::from_str("duration"));
    fields.push(String::from_str("write_percentage"));
    fields.push(String::from_str("transaction_size"));
    fields.push(String::from_str("transaction_count"));
    assert(texts(fields@) =~= header_fields());
    fields
}

/// The fields of the row for one result.
pub fn result_record(result: &BenchmarkResult) -> (fields: Vec<String>)
    ensures
        texts(fields@) == result_fields(*result),
{
    let mut fields: Vec<String> = Vec::new();
    fields.push(decimal_string(result.duration_ms));
    fields.push(signed_decimal_string(result.write_percentage));
    fields.push(decimal_string(result.transaction_size as u128));
    fields.push(decimal_string(result.transaction_count as u128));
    assert(texts(fields@) =~= result_fields(*result));
    fields
}

/// The text of a result file: a header line with the four column names,
/// then one row per result, in the order of the results.
pub fn results_csv(results: &Vec<BenchmarkResult>) -> (document: Vec<u8>)
    ensures
        document@ == results_document(results@),
{
    proof {
        lemma_header_fields_are_plain();
    }
    let header = result_header();
    let mut document = record_line(&header);
    let mut index: usize = 0;
    assert(result_rows(results@.take(0)) =~= Seq::<u8>::empty());
    while index < results.len()
        invariant
            index <= results@.len(),
            document@ == plain_line(header_fields()) + result_rows(results@.take(index as int)),
        decreases results@.len() - index,
    {
        let fields = result_record(&results[index]);
        proof {
            lemma_result_fields_are_plain(results@[index as int]);
        }
        let mut row = record_line(&fields);
        document.append(&mut row);
        proof {
            let longer = results@.take(index + 1);
            assert(longer.drop_last() =~= results@.take(index as int));
            assert(longer.last() == results@[index as int]);
        }
        index = index + 1;
    }
    assert(results@.take(results@.len() as int) =~= results@);
    document
}

} // verus!
