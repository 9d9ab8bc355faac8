//! Turning fetched raw CSV datasets into the JSON the datastore loads.
//!
//! The CSV text is parsed by the `csv` crate; what the parse yields is then
//! rendered, by verified code, as a JSON array of arrays of strings.

use vstd::prelude::*;
use vstd::string::StringSliceAdditionalSpecFns;
use vstd::utf8::{encode_utf8, valid_utf8};

verus! {

/// Errors of dataset preparation.
#[derive(Debug, PartialEq, Eq)]
pub enum FetchError {
    Unique(String),
}

/// The records that the CSV reader (without headers) yields for a text,
/// when it parses: rows of string fields, determined by the text alone.
pub uninterp spec fn csv_rows(s: Seq<char>) -> Option<Seq<Seq<Seq<char>>>>;

/// Relies on `csv::ReaderBuilder` / `Reader::records` with `has_headers`
/// off: the reader yields each record's fields in order, or a parse error.
#[verifier::external_body]
fn csv_parse_records(contents: &str) -> (r: Result<Vec<Vec<String>>, String>)
    ensures
        r is Ok <==> csv_rows(contents@) is Some,
        r matches Ok(v) ==> csv_rows(contents@) == Some(v.deep_view()),
{
    let mut reader = csv::ReaderBuilder::new().has_headers(false).from_reader(
        contents.as_bytes(),
    );
    let mut out: Vec<Vec<String>> = Vec::new();
    for record in reader.records() {
        match record {
            Ok(rec) => out.push(rec.iter().map(|f| f.to_string()).collect()),
            Err(e) => {
                return Err(e.to_string());
            },
        }
    }
    Ok(out)
}

/// Relies on `String::from_utf8`: valid UTF-8 bytes decode to the string
/// carrying exactly those bytes.
#[verifier::external_body]
fn utf8_string(bytes: Vec<u8>) -> (r: String)
    requires
        valid_utf8(bytes@),
    ensures
        encode_utf8(r@) == bytes@,
{
    match String::from_utf8(bytes) {
        Ok(s) => s,
        Err(_) => String::new(),
    }
}

/// One field as a JSON string literal: the field's UTF-8 bytes between
/// double quotes.
pub open spec fn quoted_field(f: Seq<char>) -> Seq<u8> {
    seq![34u8] + encode_utf8(f) + seq![34u8]
}

pub open spec fn joined_fields(row: Seq<Seq<char>>) -> Seq<u8>
    decreases row,
{
    if row.len() == 0 {
        Seq::empty()
    } else if row.len() == 1 {
        quoted_field(row[0])
    } else {
        joined_fields(row.drop_last()) + seq![44u8] + quoted_field(row.last())
    }
}

/// One record as a JSON array of string literals.
pub open spec fn row_json(row: Seq<Seq<char>>) -> Seq<u8> {
    seq![91u8] + joined_fields(row) + seq![93u8]
}

pub open spec fn joined_rows(rows: Seq<Seq<Seq<char>>>) -> Seq<u8>
    decreases rows,
{
    if rows.len() == 0 {
        Seq::empty()
    } else if rows.len() == 1 {
        row_json(rows[0])
    } else {
        joined_rows(rows.drop_last()) + seq![44u8] + row_json(rows.last())
    }
}

/// All records as one JSON array of arrays of string literals.
pub open spec fn rows_json(rows: Seq<Seq<Seq<char>>>) -> Seq<u8> {
    seq![91u8] + joined_rows(rows) + seq![93u8]
}

/// A single ASCII byte is valid UTF-8.
proof fn lemma_ascii_singleton_valid(c: char)
    requires
        (c as u32) < 128,
    ensures
        valid_utf8(seq![(c as u8)]),
        encode_utf8(seq![c]) =~= seq![(c as u8)],
{
    let cs = seq![c];
    assert(vstd::utf8::is_ascii_chars(cs)) by {
        assert(forall|i: int| 0 <= i < cs.len() ==> (cs[i] as u32) < 128);
    }
    vstd::utf8::is_ascii_chars_encode_utf8(cs);
    assert(encode_utf8(cs) =~= seq![(c as u8)]);
    vstd::utf8::encode_utf8_valid_utf8(cs);
}

/// A rendered field is valid UTF-8.
proof fn lemma_quoted_field_valid(f: Seq<char>)
    ensures
        valid_utf8(quoted_field(f)),
{
    broadcast use vstd::utf8::valid_utf8_concat;

    lemma_ascii_singleton_valid('"');
    vstd::utf8::encode_utf8_valid_utf8(f);
    assert(valid_utf8(seq![34u8] + encode_utf8(f)));
    assert(valid_utf8((seq![34u8] + encode_utf8(f)) + seq![34u8]));
    assert(quoted_field(f) == (seq![34u8] + encode_utf8(f)) + seq![34u8]);
}

/// The rendered JSON is valid UTF-8.
proof fn lemma_rows_json_valid(rows: Seq<Seq<Seq<char>>>)
    ensures
        valid_utf8(rows_json(rows)),
        valid_utf8(joined_rows(rows)),
    decreases rows,
{
    broadcast use vstd::utf8::valid_utf8_concat;

    lemma_ascii_singleton_valid('[');
    lemma_ascii_singleton_valid(']');
    lemma_ascii_singleton_valid(',');
    if rows.len() == 0 {
        assert(valid_utf8(joined_rows(rows)));
    } else if rows.len() == 1 {
        lemma_row_json_valid(rows[0]);
        assert(valid_utf8(joined_rows(rows)));
    } else {
        lemma_rows_json_valid(rows.drop_last());
        lemma_row_json_valid(rows.last());
        assert(valid_utf8(joined_rows(rows.drop_last()) + seq![44u8]));
        assert(valid_utf8((joined_rows(rows.drop_last()) + seq![44u8]) + row_json(rows.last())));
        assert(joined_rows(rows) == (joined_rows(rows.drop_last()) + seq![44u8]) + row_json(
            rows.last(),
        ));
    }
    assert(valid_utf8(seq![91u8] + joined_rows(rows)));
    assert(valid_utf8((seq![91u8] + joined_rows(rows)) + seq![93u8]));
    assert(rows_json(rows) == (seq![91u8] + joined_rows(rows)) + seq![93u8]);
}

/// One rendered record is valid UTF-8.
proof fn lemma_row_json_valid(row: Seq<Seq<char>>)
    ensures
        valid_utf8(row_json(row)),
        valid_utf8(joined_fields(row)),
    decreases row,
{
    broadcast use vstd::utf8::valid_utf8_concat;

    lemma_ascii_singleton_valid('[');
    lemma_ascii_singleton_valid(']');
    lemma_ascii_singleton_valid(',');
    if row.len() == 0 {
        assert(valid_utf8(joined_fields(row)));
    } else if row.len() == 1 {
        lemma_quoted_field_valid(row[0]);
        assert(valid_utf8(joined_fields(row)));
    } else {
        lemma_row_json_valid(row.drop_last());
        lemma_quoted_field_valid(row.last());
        assert(valid_utf8(joined_fields(row.drop_last()) + seq![44u8]));
        assert(valid_utf8((joined_fields(row.drop_last()) + seq![44u8]) + quoted_field(
            row.last(),
        )));
        assert(joined_fields(row) == (joined_fields(row.drop_last()) + seq![44u8]) + quoted_field(
            row.last(),
        ));
    }
    assert(valid_utf8(seq![91u8] + joined_fields(row)));
    assert(valid_utf8((seq![91u8] + joined_fields(row)) + seq![93u8]));
    assert(row_json(row) == (seq![91u8] + joined_fields(row)) + seq![93u8]);
}

/// Render parsed records as the bytes of a JSON array of arrays of string
/// literals.
#[verifier::loop_isolation(false)]
#[verifier::rlimit(60)]
pub fn records_to_json_bytes(records: &Vec<Vec<String>>) -> (r: Vec<u8>)
    ensures
        r@ == rows_json(records.deep_view()),
{
    let ghost rows = records.deep_view();
    let mut buf: Vec<u8> = Vec::new();
    buf.push(91);
    let mut i: usize = 0;
    proof {
        assert(rows.take(0) =~= Seq::<Seq<Seq<char>>>::empty());
        assert(buf@ =~= seq![91u8] + joined_rows(rows.take(0)));
    }
    while i < records.len()
        invariant
            0 <= i <= rows.len(),
            rows == records.deep_view(),
            buf@ =~= seq![91u8] + joined_rows(rows.take(i as int)),
        decreases rows.len() - i,
    {
        if i > 0 {
            buf.push(44);
        }
        let ghost row_start = buf@;
        buf.push(91);
        let row = &records[i];
        let ghost row_view = rows[i as int];
        let mut j: usize = 0;
        proof {
            assert(row.deep_view() =~= row_view);
            assert(row_view.take(0) =~= Seq::<Seq<char>>::empty());
            assert(buf@ =~= row_start + seq![91u8] + joined_fields(row_view.take(0)));
        }
        while j < row.len()
            invariant
                0 <= j <= row_view.len(),
                row_view == rows[i as int],
                row_view.len() == row@.len(),
                forall|k: int| 0 <= k < row@.len() ==> (#[trigger] row@[k])@ == row_view[k],
                buf@ =~= row_start + seq![91u8] + joined_fields(row_view.take(j as int)),
            decreases row_view.len() - j,
        {
            if j > 0 {
                buf.push(44);
            }
            buf.push(34);
            buf.extend_from_slice(row[j].as_str().as_bytes());
            buf.push(34);
            j = j + 1;
            proof {
                assert(row_view.take(j as int).drop_last() =~= row_view.take(j - 1));
                assert(row_view.take(j as int).last() == row_view[j - 1]);
                assert(buf@ =~= row_start + seq![91u8] + joined_fields(row_view.take(j as int)));
            }
        }
        buf.push(93);
        i = i + 1;
        proof {
            assert(row_view.take(row_view.len() as int) =~= row_view);
            assert(rows.take(i as int).drop_last() =~= rows.take(i - 1));
            assert(rows.take(i as int).last() == rows[i - 1]);
            assert(buf@ =~= seq![91u8] + joined_rows(rows.take(i as int)));
        }
    }
    buf.push(93);
    proof {
        assert(rows.take(rows.len() as int) =~= rows);
        assert(buf@ =~= rows_json(rows));
    }
    buf
}

/// Turn a raw CSV dataset into the JSON array of arrays of string fields
/// the datastore loads. Fails exactly when the CSV reader refuses the text.
pub fn parse_raw_csv_into_json(contents: String) -> (r: Result<String, FetchError>)
    ensures
        r is Ok <==> csv_rows(contents@) is Some,
        r matches Ok(s) ==> csv_rows(contents@) matches Some(rows) && encode_utf8(s@) == rows_json(
            rows,
        ),
        r matches Err(e) ==> e is Unique,
{
    let records = match csv_parse_records(contents.as_str()) {
        Ok(v) => v,
        Err(e) => {
            return Err(FetchError::Unique(e));
        },
    };
    let bytes = records_to_json_bytes(&records);
    proof {
        lemma_rows_json_valid(records.deep_view());
    }
    let s = utf8_string(bytes);
    Ok(s)
}

} // verus!
