//! The CSV handler: delimiter detection and the first rows as a table.
use vstd::prelude::*;
use crate::textfmt::{lower_extension, lower_extension_of, str_eq};
use crate::error::PreviewError;
use crate::preview::{FileMeta, PreviewResult};

verus! {

/// Previews delimited tables.
pub struct CsvHandler;

/// 85 for `.csv` and `.tsv`, 80 for `.psv`, 2 otherwise.
pub open spec fn csv_priority(path: Seq<char>) -> u8 {
    let ext = lower_extension(path);
    if ext == "csv"@ || ext == "tsv"@ { 85 } else if ext == "psv"@ { 80 } else { 2 }
}

/// CSV and TSV files (lower-cased extension csv or tsv) are claimed with
/// 85, pipe-separated files (psv) with 80, others with 2.
pub proof fn lemma_csv_claims(path: Seq<char>)
    ensures
        (lower_extension(path) == "csv"@ || lower_extension(path) == "tsv"@) ==> csv_priority(path) == 85,
        lower_extension(path) == "psv"@ ==> csv_priority(path) == 80,
        !(lower_extension(path) == "csv"@ || lower_extension(path) == "tsv"@ || lower_extension(path) == "psv"@)
            ==> csv_priority(path) == 2,
{
    reveal_strlit("csv");
    reveal_strlit("tsv");
    reveal_strlit("psv");
    assert("psv"@ != "csv"@ && "psv"@ != "tsv"@) by {
        assert("psv"@[0] == 'p');
    }
}

impl CsvHandler {
    pub fn name(&self) -> (res: &'static str)
        ensures
            res@ == "csv"@,
    {
        "csv"
    }

    pub fn priority(&self, path: &str, _mime: &str, _magic: &[u8]) -> (res: u8)
        ensures
            res == csv_priority(path@),
    {
        let ext = lower_extension_of(path);
        if str_eq(ext.as_str(), "csv") || str_eq(ext.as_str(), "tsv") {
            85
        } else if str_eq(ext.as_str(), "psv") {
            80
        } else {
            2
        }
    }

    /// 10 MB.
    pub fn file_size_limit(&self) -> (res: u64)
        ensures
            res == 10 * 1024 * 1024,
    {
        10 * 1024 * 1024
    }
}


// ---------------------------------------------------------------------------
// Delimiter detection
// ---------------------------------------------------------------------------

/// How often `b` occurs in `s`.
pub open spec fn count_byte(s: Seq<u8>, b: u8) -> nat
    decreases s.len(),
{
    if s.len() == 0 {
        0
    } else {
        count_byte(s.drop_last(), b) + if s.last() == b { 1nat } else { 0nat }
    }
}

/// The candidate delimiters, in order of preference on ties: comma,
/// semicolon, tab, pipe.
pub open spec fn candidate_delimiters() -> Seq<u8> {
    seq![44u8, 59u8, 9u8, 124u8]
}

/// The delimiter of a snippet: the candidate that occurs most often, the
/// earlier candidate on ties; a comma when none occurs.
pub open spec fn sniffed_delimiter(snippet: Seq<u8>) -> u8 {
    let c = candidate_delimiters();
    let n0 = count_byte(snippet, c[0]);
    let n1 = count_byte(snippet, c[1]);
    let n2 = count_byte(snippet, c[2]);
    let n3 = count_byte(snippet, c[3]);
    if n0 >= n1 && n0 >= n2 && n0 >= n3 {
        c[0]
    } else if n1 >= n2 && n1 >= n3 {
        c[1]
    } else if n2 >= n3 {
        c[2]
    } else {
        c[3]
    }
}

/// The sniffed delimiter is a comma, semicolon, tab or pipe that occurs at
/// least as often as each of the others, the earlier of them on a tie
/// (comma first, then semicolon, tab, pipe).
pub proof fn lemma_delimiter_most_frequent(snippet: Seq<u8>)
    ensures
        ({
            let d = sniffed_delimiter(snippet);
            &&& (d == 44u8 || d == 59u8 || d == 9u8 || d == 124u8)
            &&& count_byte(snippet, d) >= count_byte(snippet, 44u8)
            &&& count_byte(snippet, d) >= count_byte(snippet, 59u8)
            &&& count_byte(snippet, d) >= count_byte(snippet, 9u8)
            &&& count_byte(snippet, d) >= count_byte(snippet, 124u8)
            &&& (d == 59u8 ==> count_byte(snippet, 44u8) < count_byte(snippet, 59u8))
            &&& (d == 9u8 ==> count_byte(snippet, 44u8) < count_byte(snippet, 9u8) && count_byte(snippet, 59u8) < count_byte(snippet, 9u8))
            &&& (d == 124u8 ==> count_byte(snippet, 44u8) < count_byte(snippet, 124u8)
                && count_byte(snippet, 59u8) < count_byte(snippet, 124u8) && count_byte(snippet, 9u8) < count_byte(snippet, 124u8))
        }),
{
}

/// The delimiter of a CSV file from its first bytes (up to 1024).
pub fn sniff_delimiter(snippet: &[u8]) -> (res: u8)
    ensures
        res == sniffed_delimiter(snippet@),
{
    let mut n0: usize = 0;
    let mut n1: usize = 0;
    let mut n2: usize = 0;
    let mut n3: usize = 0;
    let mut i: usize = 0;
    while i < snippet.len()
        invariant
            0 <= i <= snippet@.len(),
            n0 == count_byte(snippet@.take(i as int), 44u8),
            n1 == count_byte(snippet@.take(i as int), 59u8),
            n2 == count_byte(snippet@.take(i as int), 9u8),
            n3 == count_byte(snippet@.take(i as int), 124u8),
            n0 <= i && n1 <= i && n2 <= i && n3 <= i,
        decreases snippet.len() - i,
    {
        let b = snippet[i];
        assert(snippet@.take(i + 1).drop_last() =~= snippet@.take(i as int));
        if b == 44u8 { n0 = n0 + 1; }
        if b == 59u8 { n1 = n1 + 1; }
        if b == 9u8 { n2 = n2 + 1; }
        if b == 124u8 { n3 = n3 + 1; }
        i = i + 1;
    }
    assert(snippet@.take(snippet@.len() as int) =~= snippet@);
    if n0 >= n1 && n0 >= n2 && n0 >= n3 {
        44u8
    } else if n1 >= n2 && n1 >= n3 {
        59u8
    } else if n2 >= n3 {
        9u8
    } else {
        124u8
    }
}

// ---------------------------------------------------------------------------
// Table
// ---------------------------------------------------------------------------

/// The text of a record.
pub open spec fn record_view(r: Vec<String>) -> Seq<Seq<char>> {
    r@.map_values(|s: String| s@)
}

/// The text of a read result.
pub open spec fn read_view(r: Result<Vec<String>, String>) -> Result<Seq<Seq<char>>, Seq<char>> {
    match r {
        Ok(v) => Ok(record_view(v)),
        Err(e) => Err(e@),
    }
}

/// What the `csv` reader (flexible records, fields trimmed, first record
/// as header) yields as header for the data: the header fields, or none
/// when the first record cannot be read.
pub uninterp spec fn csv_header_of(data: Seq<u8>, delimiter: u8) -> Seq<Seq<char>>;

/// The records that the `csv` reader yields after the header, in order,
/// each read or failed with the error's message.
pub uninterp spec fn csv_records_of(data: Seq<u8>, delimiter: u8) -> Seq<Result<Seq<Seq<char>>, Seq<char>>>;

/// A cursor over bytes held in memory.
#[verifier::external_type_specification]
#[verifier::external_body]
#[verifier::reject_recursive_types(T)]
pub struct ExCursor<T>(std::io::Cursor<T>);

/// A CSV reader.
#[verifier::external_type_specification]
#[verifier::external_body]
#[verifier::reject_recursive_types(R)]
pub struct ExCsvReader<R>(csv::Reader<R>);

/// The records a CSV reader has yet to yield through `records()`, in order,
/// each read or failed with the error's message.
pub uninterp spec fn csv_pending(r: csv::Reader<std::io::Cursor<Vec<u8>>>) -> Seq<Result<Seq<Seq<char>>, Seq<char>>>;

/// Opens CSV data with `csv::ReaderBuilder` (the given delimiter, flexible
/// record lengths, all fields trimmed, a header record) and reads its
/// header (`headers()`, empty on error); the records after it are pending.
#[verifier::external_body]
fn csv_open(data: &[u8], delimiter: u8) -> (res: (csv::Reader<std::io::Cursor<Vec<u8>>>, Vec<String>))
    ensures
        record_view(res.1) == csv_header_of(data@, delimiter),
        csv_pending(res.0) == csv_records_of(data@, delimiter),
{
    let mut rdr = csv::ReaderBuilder::new().delimiter(delimiter).flexible(true).trim(csv::Trim::All).has_headers(true)
        .from_reader(std::io::Cursor::new(data.to_vec()));
    let headers = rdr.headers().map(|h| h.iter().map(|s| s.to_string()).collect()).unwrap_or_default();
    (rdr, headers)
}

/// The next record of a CSV reader (`records().next()`): the first pending
/// one, which is then no longer pending; none when none is pending.
#[verifier::external_body]
fn csv_next(r: &mut csv::Reader<std::io::Cursor<Vec<u8>>>) -> (res: Option<Result<Vec<String>, String>>)
    ensures
        csv_pending(*old(r)).len() == 0 ==> res is None && csv_pending(*final(r)) == csv_pending(*old(r)),
        csv_pending(*old(r)).len() > 0 ==> (res matches Some(x) && read_view(x) == csv_pending(*old(r))[0]
            && csv_pending(*final(r)) == csv_pending(*old(r)).drop_first()),
{
    r.records().next().map(|x| x.map(|rec| rec.iter().map(|s| s.to_string()).collect()).map_err(|e| e.to_string()))
}

/// Reads the header and the first `limit` records of CSV data read with
/// the given delimiter (see `csv_open`).
fn read_csv(data: &[u8], delimiter: u8, limit: usize) -> (res: (Vec<String>, Vec<Result<Vec<String>, String>>))
    ensures
        record_view(res.0) == csv_header_of(data@, delimiter),
        res.1@.map_values(|r: Result<Vec<String>, String>| read_view(r))
            == csv_records_of(data@, delimiter).take(
                if csv_records_of(data@, delimiter).len() < limit { csv_records_of(data@, delimiter).len() as int } else { limit as int }),
{
    let (mut rdr, headers) = csv_open(data, delimiter);
    let ghost all = csv_records_of(data@, delimiter);
    let mut records: Vec<Result<Vec<String>, String>> = Vec::new();
    while records.len() < limit
        invariant
            records@.len() <= limit,
            records@.len() <= all.len(),
            csv_pending(rdr) == all.skip(records@.len() as int),
            records@.map_values(|r: Result<Vec<String>, String>| read_view(r)) == all.take(records@.len() as int),
        ensures
            records@.len() <= all.len(),
            records@.len() <= limit,
            records@.len() == limit || records@.len() == all.len(),
            records@.map_values(|r: Result<Vec<String>, String>| read_view(r)) == all.take(records@.len() as int),
        decreases limit - records@.len(),
    {
        let ghost k = records@.len() as int;
        let ghost before = records@.map_values(|r: Result<Vec<String>, String>| read_view(r));
        match csv_next(&mut rdr) {
            None => {
                assert(all.skip(k).len() == 0);
                break;
            }
            Some(x) => {
                assert(all.skip(k)[0] == all[k]);
                assert(all.skip(k).drop_first() =~= all.skip(k + 1));
                records.push(x);
                assert(records@.map_values(|r: Result<Vec<String>, String>| read_view(r)) =~= before.push(all[k]));
                assert(all.take(k + 1) =~= all.take(k).push(all[k]));
            }
        }
    }
    assert(records@.len() == (if all.len() < limit { all.len() as int } else { limit as int }));
    (headers, records)
}

/// How many rows a table preview shows.
pub const MAX_ROWS: usize = 100;

/// The first failed record among `recs`, if any.
pub open spec fn first_failure(recs: Seq<Result<Seq<Seq<char>>, Seq<char>>>) -> Option<int> {
    if exists|i: int| 0 <= i < recs.len() && recs[i] is Err {
        Some(choose|i: int| 0 <= i < recs.len() && recs[i] is Err && forall|j: int| 0 <= j < i ==> recs[j] is Ok)
    } else {
        None
    }
}

/// The table preview of CSV data read with the sniffed delimiter: the header
/// and the first 100 records. A failing record among them fails the preview
/// ("csv parse: …"), and so does data with neither header nor record
/// ("empty csv").
pub fn csv_table(data: &[u8], delimiter: u8, meta: FileMeta) -> (res: Result<PreviewResult, PreviewError>)
    ensures
        ({
            let all = csv_records_of(data@, delimiter);
            let recs = all.take(if all.len() < 100 { all.len() as int } else { 100 });
            let header = csv_header_of(data@, delimiter);
            match first_failure(recs) {
                Some(i) => res matches Err(PreviewError::Decode(m)) && m@ == "csv parse: "@ + recs[i]->Err_0,
                None => if header.len() == 0 && recs.len() == 0 {
                    res matches Err(PreviewError::Decode(m)) && m@ == "empty csv"@
                } else {
                    res matches Ok(PreviewResult::Table { headers, rows, meta: m2 })
                        && record_view(headers) == header
                        && rows@.map_values(|r: Vec<String>| record_view(r)) == recs.map_values(|r: Result<Seq<Seq<char>>, Seq<char>>| r->Ok_0)
                        && m2 == meta
                },
            }
        }),
{
    let (headers, records) = read_csv(data, delimiter, MAX_ROWS);
    let ghost recs = records@.map_values(|r: Result<Vec<String>, String>| read_view(r));
    let ghost all = csv_records_of(data@, delimiter);
    assert(recs == all.take(if all.len() < 100 { all.len() as int } else { 100 }));
    let mut rest = records;
    let mut rows: Vec<Vec<String>> = Vec::new();
    let ghost mut k: int = 0;
    while rest.len() > 0
        invariant
            all == csv_records_of(data@, delimiter),
            recs == all.take(if all.len() < 100 { all.len() as int } else { 100 }),
            0 <= k <= recs.len(),
            rest@.map_values(|r: Result<Vec<String>, String>| read_view(r)) == recs.skip(k),
            rows@.len() == k,
            forall|j: int| 0 <= j < k ==> recs[j] is Ok,
            forall|j: int| 0 <= j < k ==> record_view(#[trigger] rows@[j]) == recs[j]->Ok_0,
        decreases rest.len(),
    {
        let ghost before = rest@;
        proof {
            assert(before.map_values(|r: Result<Vec<String>, String>| read_view(r)).len() == before.len());
            assert(recs.skip(k).len() > 0);
            assert(k < recs.len());
        }
        let r = rest.remove(0);
        proof {
            assert(read_view(r) == recs[k]) by {
                assert(r == before[0]);
                assert(before.map_values(|r: Result<Vec<String>, String>| read_view(r))[0] == recs.skip(k)[0]);
            }
            assert(rest@.map_values(|r: Result<Vec<String>, String>| read_view(r)) =~= recs.skip(k + 1)) by {
                assert forall|j: int| 0 <= j < rest@.len() implies rest@[j] == before[j + 1] by {}
                assert(before.map_values(|r: Result<Vec<String>, String>| read_view(r)).skip(1) =~= recs.skip(k + 1));
            }
        }
        match r {
            Ok(fields) => {
                rows.push(fields);
                proof { k = k + 1; }
            }
            Err(e) => {
                let mut m = String::from_str("csv parse: ");
                m.append(e.as_str());
                proof {
                    assert(recs[k] is Err);
                    assert(exists|i: int| 0 <= i < recs.len() && recs[i] is Err);
                    let c = choose|i: int| 0 <= i < recs.len() && recs[i] is Err && forall|j: int| 0 <= j < i ==> recs[j] is Ok;
                    assert(c == k) by {
                        if c < k { assert(recs[c] is Ok); }
                        if c > k { assert(recs[k] is Ok); }
                    }
                }
                return Err(PreviewError::Decode(m));
            }
        }
    }
    proof {
        assert(k == recs.len());
        assert(!(exists|i: int| 0 <= i < recs.len() && recs[i] is Err));
        assert(rows@.map_values(|r: Vec<String>| record_view(r)) =~= recs.map_values(|r: Result<Seq<Seq<char>>, Seq<char>>| r->Ok_0));
    }
    if headers.len() == 0 && rows.len() == 0 {
        return Err(PreviewError::Decode(String::from_str("empty csv")));
    }
    Ok(PreviewResult::Table { headers, rows, meta })
}


/// The first bytes that delimiter detection reads.
pub open spec fn sniff_snippet(data: Seq<u8>) -> Seq<u8> {
    data.take(if data.len() < 1024 { data.len() as int } else { 1024 })
}

/// What the CSV preview gives: the table read with the detected delimiter,
/// or the first failed record's error, or "empty csv".
pub open spec fn csv_outcome(data: Seq<u8>, meta: FileMeta, res: Result<PreviewResult, PreviewError>) -> bool {
    let delimiter = sniffed_delimiter(sniff_snippet(data));
    let all = csv_records_of(data, delimiter);
    let recs = all.take(if all.len() < 100 { all.len() as int } else { 100 });
    let header = csv_header_of(data, delimiter);
    match first_failure(recs) {
        Some(i) => res matches Err(PreviewError::Decode(m)) && m@ == "csv parse: "@ + recs[i]->Err_0,
        None => if header.len() == 0 && recs.len() == 0 {
            res matches Err(PreviewError::Decode(m)) && m@ == "empty csv"@
        } else {
            res matches Ok(PreviewResult::Table { headers, rows, meta: m2 })
                && record_view(headers) == header
                && rows@.map_values(|r: Vec<String>| record_view(r)) == recs.map_values(|r: Result<Seq<Seq<char>>, Seq<char>>| r->Ok_0)
                && m2 == meta
        },
    }
}

impl CsvHandler {
    /// The table preview of CSV data, read with the delimiter detected in
    /// its first 1024 bytes.
    pub fn preview(&self, data: &[u8], meta: FileMeta) -> (res: Result<PreviewResult, PreviewError>)
        ensures
            csv_outcome(data@, meta, res),
    {
        let n: usize = if data.len() < 1024 { data.len() } else { 1024 };
        let mut head: Vec<u8> = Vec::new();
        let mut i: usize = 0;
        while i < n
            invariant
                n <= data@.len(),
                0 <= i <= n,
                head@ == data@.take(i as int),
            decreases n - i,
        {
            head.push(data[i]);
            i = i + 1;
            assert(head@ =~= data@.take(i as int));
        }
        let delimiter = sniff_delimiter(head.as_slice());
        csv_table(data, delimiter, meta)
    }
}

} // verus!
