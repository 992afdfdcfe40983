//! The lookup table of the jump-cpg0016 dataset: reading it, selecting
//! records from it, and keeping count while the selected files are fetched.

use crate::args::jump_cpg0016::ConfigError;
use crate::card::jump_cpg0016::{Criteria, ImageRecord, JumpCpg0016Image, Selection};
use crate::table::batch::{Batch, Schedule};
use crate::utils::{
    download_gdrive_file, join_path, joined_path, text_of, GdriveDownload, Transfer,
};
use flate2::bufread::GzDecoder;
use vstd::prelude::*;
use vstd::string::StringExecFns;

verus! {

/// The file name of the cached lookup table.
pub const LOOKUP_TABLE: &'static str = "jump-cpg0016.csv.gz";

/// The identifier under which the file-sharing host keeps the table.
pub const LOOKUP_ID: &'static str = "1X-7Im3DYdgw1ITmIy_H4y1nclWDW8Uxh";

/// Why a query could not be answered.
#[derive(Clone, Copy, Debug, PartialEq, Eq, Structural)]
pub enum QueryError {
    /// The table is no gzip member, or the member is damaged.
    Compressed,
    /// The text inside is no well-formed delimited table.
    Malformed,
    /// A column that a record needs occurs twice in the header row.
    DuplicateColumn,
    /// A column that a record needs does not occur in the header row.
    MissingColumn,
    /// A row has another number of fields than the header row. A table
    /// that is read from its compressed form shows such a row as
    /// [`QueryError::Malformed`], because the parser reports it first;
    /// this is for rows that are handed over as they are.
    RaggedRow,
}

impl QueryError {
    /// What the user is told.
    pub open spec fn text(self) -> Seq<char> {
        match self {
            QueryError::Compressed => "Could not decompress the data table."@,
            QueryError::Malformed => "Could not parse the data table."@,
            QueryError::DuplicateColumn => "A column of the data table occurs twice."@,
            QueryError::MissingColumn => "A column of the data table is missing."@,
            QueryError::RaggedRow => "A row of the data table has the wrong number of fields."@,
        }
    }

    /// What the user is told.
    pub fn message(&self) -> (text: &'static str)
        ensures
            text@ == self.text(),
    {
        match self {
            QueryError::Compressed => "Could not decompress the data table.",
            QueryError::Malformed => "Could not parse the data table.",
            QueryError::DuplicateColumn => "A column of the data table occurs twice.",
            QueryError::MissingColumn => "A column of the data table is missing.",
            QueryError::RaggedRow => "A row of the data table has the wrong number of fields.",
        }
    }
}

/// The reader that `csv` offers, declared so that it can be handed
/// around; nothing inside it is visible.
#[verifier::external_type_specification]
#[verifier::external_body]
#[verifier::reject_recursive_types(R)]
pub struct ExReader<R>(csv::Reader<R>);

/// The decoder that `flate2` offers for one gzip member, declared so that
/// it can be handed around; nothing inside it is visible.
#[verifier::external_type_specification]
#[verifier::external_body]
#[verifier::reject_recursive_types(R)]
pub struct ExGzDecoder<R>(GzDecoder<R>);

/// What reading the compressed table `data` row by row yields, from the
/// header row to the end: for each call of `csv::Reader::read_record` that
/// does not report the end, the fields of the row, or the kind of the
/// error that the call reported.
pub uninterp spec fn table_reads(data: Seq<u8>) -> Seq<Result<Seq<Seq<char>>, QueryError>>;

/// What is still to come from a reader: the part of [`table_reads`] that
/// has not been read yet.
pub uninterp spec fn reads_ahead(reader: csv::Reader<GzDecoder<&[u8]>>) -> Seq<
    Result<Seq<Seq<char>>, QueryError>,
>;

/// The mathematical value of what one read yields.
pub open spec fn read_view(read: Result<Vec<String>, QueryError>) -> Result<
    Seq<Seq<char>>,
    QueryError,
> {
    match read {
        Ok(fields) => Ok(fields.deep_view()),
        Err(e) => Err(e),
    }
}

/// Opens a compressed table for reading row by row.
///
/// Calls `flate2::bufread::GzDecoder::new` on `data` and hands the
/// decoder to `csv::ReaderBuilder::from_reader`, with the header row
/// handed out like any other row. No row is read yet. The contract only
/// names what the reader will yield.
#[verifier::external_body]
fn open_table<'a>(data: &'a [u8]) -> (reader: csv::Reader<GzDecoder<&'a [u8]>>)
    ensures
        reads_ahead(reader) == table_reads(data@),
{
    csv::ReaderBuilder::new().has_headers(false).from_reader(GzDecoder::new(data))
}

/// Reads the next row.
///
/// Calls `csv::Reader::read_record`. `None` is the end of the table. An
/// error of the kind `csv::ErrorKind::Io` comes from the decoder and is
/// handed on as [`QueryError::Compressed`], any other as
/// [`QueryError::Malformed`]. Nothing is proved of the decoding or the
/// parsing: the contract says that the call yields the first of what was
/// still to come and leaves the rest.
#[verifier::external_body]
fn next_row<'a>(reader: &mut csv::Reader<GzDecoder<&'a [u8]>>) -> (read: Option<
    Result<Vec<String>, QueryError>,
>)
    ensures
        match read {
            Some(r) => {
                &&& reads_ahead(*old(reader)).len() > 0
                &&& reads_ahead(*old(reader))[0] == read_view(r)
                &&& reads_ahead(*final(reader)) == reads_ahead(*old(reader)).skip(1)
            },
            None => reads_ahead(*old(reader)).len() == 0 && reads_ahead(*final(reader)).len()
                == 0,
        },
{
    let mut record = csv::StringRecord::new();
    match reader.read_record(&mut record) {
        Ok(true) => Some(Ok(record.iter().map(String::from).collect())),
        Ok(false) => None,
        Err(err) => match err.kind() {
            csv::ErrorKind::Io(_) => Some(Err(QueryError::Compressed)),
            _ => Some(Err(QueryError::Malformed)),
        },
    }
}

/// The names of the columns that make up a record, in the order of the
/// record's fields.
pub open spec fn field_names() -> Seq<Seq<char>> {
    seq![
        "source"@,
        "batch"@,
        "plate"@,
        "site"@,
        "well"@,
        "illum"@,
        "filename"@,
        "path"@,
        "compound"@,
    ]
}

/// Whether the header row names its `i`-th column `name`.
pub open spec fn occurs_at(header: Seq<Seq<char>>, name: Seq<char>, i: int) -> bool {
    0 <= i < header.len() && header[i] == name
}

/// The position of the one column called `name`; an error when there is
/// none or more than one.
pub open spec fn column(header: Seq<Seq<char>>, name: Seq<char>) -> Result<int, QueryError> {
    if forall|i: int| !occurs_at(header, name, i) {
        Err(QueryError::MissingColumn)
    } else if exists|i: int, j: int|
        i != j && occurs_at(header, name, i) && occurs_at(header, name, j) {
        Err(QueryError::DuplicateColumn)
    } else {
        Ok(choose|i: int| occurs_at(header, name, i))
    }
}

/// The positions of the nine columns of a record, in the order of
/// [`field_names`]. A column that occurs twice is reported before one that
/// is missing.
pub open spec fn layout(header: Seq<Seq<char>>) -> Result<Seq<int>, QueryError> {
    if exists|k: int|
        0 <= k < 9 && column(header, #[trigger] field_names()[k]) == Err::<int, QueryError>(
            QueryError::DuplicateColumn,
        ) {
        Err(QueryError::DuplicateColumn)
    } else if exists|k: int|
        0 <= k < 9 && column(header, #[trigger] field_names()[k]) == Err::<int, QueryError>(
            QueryError::MissingColumn,
        ) {
        Err(QueryError::MissingColumn)
    } else {
        Ok(Seq::new(9, |k: int| column(header, field_names()[k])->Ok_0))
    }
}

/// The record that a row holds, its fields taken from the columns at
/// `at`.
pub open spec fn record_of(row: Seq<Seq<char>>, at: Seq<int>) -> ImageRecord {
    ImageRecord {
        source: row[at[0]],
        batch: row[at[1]],
        plate: row[at[2]],
        site: row[at[3]],
        well: row[at[4]],
        illum: row[at[5]],
        filename: row[at[6]],
        path: row[at[7]],
        compound: row[at[8]],
    }
}

/// The records of all rows below the header row, in the order of the rows.
pub open spec fn records(rows: Seq<Seq<Seq<char>>>, at: Seq<int>) -> Seq<ImageRecord> {
    Seq::new((rows.len() - 1) as nat, |i: int| record_of(rows[i + 1], at))
}

/// The test that a record meets the constraints `c`.
pub open spec fn wanted(c: Criteria) -> spec_fn(ImageRecord) -> bool {
    |r: ImageRecord| r.matches(c)
}

/// Whether some row below the header row has another number of fields
/// than the header row.
pub open spec fn ragged(rows: Seq<Seq<Seq<char>>>) -> bool {
    exists|i: int| 1 <= i < rows.len() && #[trigger] rows[i].len() != rows[0].len()
}

/// The answer to a query on a table given as rows, the header row first.
///
/// A table without rows below the header has no records, whatever the
/// header holds. Otherwise the header must name each column of a record
/// once and every row must be as long as the header; the answer is then
/// the records that meet `c`, in the order of their rows.
pub open spec fn selected(rows: Seq<Seq<Seq<char>>>, c: Criteria) -> Result<
    Seq<ImageRecord>,
    QueryError,
> {
    if rows.len() <= 1 {
        Ok(Seq::empty())
    } else {
        match layout(rows[0]) {
            Err(e) => Err(e),
            Ok(at) => if ragged(rows) {
                Err(QueryError::RaggedRow)
            } else {
                Ok(records(rows, at).filter(wanted(c)))
            },
        }
    }
}

/// The position of the first read that reports an error, or the number
/// of reads when none does.
pub open spec fn first_fault(reads: Seq<Result<Seq<Seq<char>>, QueryError>>) -> int {
    if exists|i: int| 0 <= i < reads.len() && reads[i] is Err {
        choose|i: int|
            0 <= i < reads.len() && reads[i] is Err && forall|j: int|
                0 <= j < i ==> reads[j] is Ok
    } else {
        reads.len() as int
    }
}

/// The rows that the first `n` reads yield.
pub open spec fn rows_of(reads: Seq<Result<Seq<Seq<char>>, QueryError>>, n: int) -> Seq<
    Seq<Seq<char>>,
> {
    Seq::new(n as nat, |i: int| reads[i]->Ok_0)
}

/// The answer to a query on a table that is read row by row.
///
/// The rows before the first read that fails are looked at in their order,
/// as [`selected`] says. A fault in them is the answer. Otherwise the
/// error of the failed read is the answer, if there is one, and else the
/// records that were found.
pub open spec fn answer(reads: Seq<Result<Seq<Seq<char>>, QueryError>>, c: Criteria) -> Result<
    Seq<ImageRecord>,
    QueryError,
> {
    let n = first_fault(reads);
    match selected(rows_of(reads, n), c) {
        Err(e) => Err(e),
        Ok(found) => if n < reads.len() {
            Err(reads[n]->Err_0)
        } else {
            Ok(found)
        },
    }
}

/// The mathematical values of a run of records.
pub open spec fn views(images: Seq<JumpCpg0016Image>) -> Seq<ImageRecord> {
    images.map_values(|image: JumpCpg0016Image| image@)
}

/// The number of processors that the system offers.
///
/// Calls `num_cpus::get`, which is documented to return at least 1. The
/// number depends on the machine and the moment, so nothing else is said
/// of it.
#[verifier::external_body]
fn available_cpus() -> (cpus: usize)
    ensures
        cpus >= 1,
{
    num_cpus::get()
}

/// How many files are fetched at the same time: the number that was asked
/// for, which must not be zero, or else the number of processors.
pub fn concurrency(threads: Option<usize>, cpus: usize) -> (limit: Result<usize, ConfigError>)
    ensures
        limit == (match threads {
            Some(n) => if n == 0 {
                Err(ConfigError::NoThreads)
            } else {
                Ok(n)
            },
            None => if cpus == 0 {
                Err(ConfigError::NoThreads)
            } else {
                Ok(cpus)
            },
        }),
{
    let n: usize = match threads {
        Some(n) => n,
        None => cpus,
    };
    if n == 0 {
        Err(ConfigError::NoThreads)
    } else {
        Ok(n)
    }
}

/// The names of the columns that make up a record.
fn column_names() -> (names: Vec<String>)
    ensures
        names.deep_view() == field_names(),
        names.len() == 9,
{
    let mut names: Vec<String> = Vec::new();
    names.push(String::from_str("source"));
    names.push(String::from_str("batch"));
    names.push(String::from_str("plate"));
    names.push(String::from_str("site"));
    names.push(String::from_str("well"));
    names.push(String::from_str("illum"));
    names.push(String::from_str("filename"));
    names.push(String::from_str("path"));
    names.push(String::from_str("compound"));
    names
}

/// Finds the one column of the header row that is called `name`.
fn find_column(header: &Vec<String>, name: &String) -> (found: Result<usize, QueryError>)
    ensures
        match found {
            Ok(i) => column(header.deep_view(), name@) == Ok::<int, QueryError>(i as int),
            Err(e) => column(header.deep_view(), name@) == Err::<int, QueryError>(e),
        },
{
    let ghost h = header.deep_view();
    let mut first: Option<usize> = None;
    let mut twice = false;
    let mut k: usize = 0;
    while k < header.len()
        invariant
            k <= header.len(),
            h == header.deep_view(),
            h.len() == header.len(),
            first is None ==> forall|i: int| 0 <= i < k ==> !occurs_at(h, name@, i),
            first matches Some(f) ==> f < k && occurs_at(h, name@, f as int),
            twice ==> exists|i: int, j: int|
                i != j && occurs_at(h, name@, i) && occurs_at(h, name@, j),
            !twice ==> (first matches Some(f) ==> forall|i: int|
                0 <= i < k && i != f ==> !occurs_at(h, name@, i)),
        decreases header.len() - k,
    {
        if header[k] == *name {
            match first {
                Some(f) => {
                    assert(occurs_at(h, name@, f as int) && occurs_at(h, name@, k as int));
                    twice = true;
                },
                None => {
                    first = Some(k);
                },
            }
        }
        k += 1;
    }
    match first {
        None => Err(QueryError::MissingColumn),
        Some(f) => {
            if twice {
                Err(QueryError::DuplicateColumn)
            } else {
                Ok(f)
            }
        },
    }
}

/// Whether `found` is what [`layout`] says of the header row: the same
/// error, or the same positions, each inside the row.
pub open spec fn laid_out(found: Result<Vec<usize>, QueryError>, header: Seq<Seq<char>>) -> bool {
    match found {
        Ok(at) => {
            &&& layout(header) == Ok::<Seq<int>, QueryError>(at@.map_values(|i: usize| i as int))
            &&& at.len() == 9
            &&& forall|k: int| 0 <= k < 9 ==> 0 <= #[trigger] at[k] < header.len()
        },
        Err(e) => layout(header) == Err::<Seq<int>, QueryError>(e),
    }
}

/// Finds the columns of the nine fields of a record.
fn find_layout(header: &Vec<String>) -> (found: Result<Vec<usize>, QueryError>)
    ensures
        laid_out(found, header.deep_view()),
{
    let ghost h = header.deep_view();
    let names = column_names();
    let mut at: Vec<usize> = Vec::new();
    let mut missing = false;
    let mut k: usize = 0;
    while k < 9
        invariant
            k <= 9,
            names.len() == 9,
            names.deep_view() == field_names(),
            h == header.deep_view(),
            h.len() == header.len(),
            at.len() == k,
            forall|i: int|
                0 <= i < k ==> column(h, #[trigger] field_names()[i]) != Err::<int, QueryError>(
                    QueryError::DuplicateColumn,
                ),
            missing <==> exists|i: int|
                0 <= i < k && column(h, #[trigger] field_names()[i]) == Err::<int, QueryError>(
                    QueryError::MissingColumn,
                ),
            forall|i: int|
                0 <= i < k && column(h, #[trigger] field_names()[i]) is Ok ==> column(
                    h,
                    field_names()[i],
                ) == Ok::<int, QueryError>(at[i] as int) && at[i] < header.len(),
        decreases 9 - k,
    {
        match find_column(header, &names[k]) {
            Ok(i) => {
                assert(occurs_at(h, field_names()[k as int], i as int));
                at.push(i);
            },
            Err(QueryError::MissingColumn) => {
                missing = true;
                at.push(0);
            },
            Err(e) => {
                return Err(e);
            },
        }
        k += 1;
    }
    if missing {
        Err(QueryError::MissingColumn)
    } else {
        assert(layout(h)->Ok_0 =~= at@.map_values(|i: usize| i as int));
        Ok(at)
    }
}

/// The string at `row[i]`, copied.
fn field(row: &Vec<String>, i: usize) -> (text: String)
    requires
        i < row.len(),
    ensures
        text@ == row.deep_view()[i as int],
{
    row[i].clone()
}

/// One more row changes the answer in one way only: below a header row
/// that is in order, a row of the right length adds its record if the
/// record meets the criteria. The first row is the header and adds
/// nothing.
pub proof fn lemma_selected_step(seen: Seq<Seq<Seq<char>>>, row: Seq<Seq<char>>, c: Criteria)
    requires
        selected(seen, c) is Ok,
    ensures
        selected(seen.push(row), c) == (if seen.len() == 0 {
            Ok(Seq::empty())
        } else {
            match layout(seen[0]) {
                Err(e) => Err(e),
                Ok(at) => if row.len() != seen[0].len() {
                    Err(QueryError::RaggedRow)
                } else if record_of(row, at).matches(c) {
                    Ok(selected(seen, c)->Ok_0.push(record_of(row, at)))
                } else {
                    Ok(selected(seen, c)->Ok_0)
                },
            }
        }),
{
    let more = seen.push(row);
    if seen.len() > 0 {
        assert(more[seen.len() as int] == row);
        match layout(seen[0]) {
            Err(e) => {},
            Ok(at) => {
                if row.len() == seen[0].len() {
                    assert(!ragged(seen));
                    assert(!ragged(more)) by {
                        if ragged(more) {
                            let i = choose|i: int|
                                1 <= i < more.len() && #[trigger] more[i].len() != more[0].len();
                            assert(more[i] == seen[i]);
                        }
                    }
                    let old_records = records(seen, at);
                    let new_records = records(more, at);
                    assert(new_records.drop_last() =~= old_records);
                    assert(new_records.filter(wanted(c)) == if wanted(c)(new_records.last()) {
                        old_records.filter(wanted(c)).push(new_records.last())
                    } else {
                        old_records.filter(wanted(c))
                    }) by {
                        reveal(Seq::filter);
                    }
                    assert(selected(seen, c)->Ok_0 == old_records.filter(wanted(c))) by {
                        if seen.len() == 1 {
                            reveal(Seq::filter);
                        }
                    }
                }
            },
        }
    }
}

/// A fault that shows in the first `n` rows is the answer for the whole
/// table, whatever follows.
pub proof fn lemma_fault_stays(rows: Seq<Seq<Seq<char>>>, n: int, c: Criteria)
    requires
        0 <= n <= rows.len(),
        selected(rows.take(n), c) is Err,
    ensures
        selected(rows, c) == selected(rows.take(n), c),
{
    let part = rows.take(n);
    if layout(rows[0]) is Ok {
        let i = choose|i: int| 1 <= i < part.len() && #[trigger] part[i].len() != part[0].len();
        assert(rows[i] == part[i]);
    }
}

/// The first failed read is where a read fails and none before it does.
proof fn lemma_first_fault_at(reads: Seq<Result<Seq<Seq<char>>, QueryError>>, k: int)
    requires
        0 <= k < reads.len(),
        reads[k] is Err,
        forall|j: int| 0 <= j < k ==> (#[trigger] reads[j]) is Ok,
    ensures
        first_fault(reads) == k,
{
    let n = first_fault(reads);
    assert(0 <= n < reads.len() && reads[n] is Err && forall|j: int|
        0 <= j < n ==> reads[j] is Ok);
    assert(n >= k) by {
        if n < k {
            assert(reads[n] is Ok);
        }
    }
}

/// While the first `k` reads yield rows, the first failed read is not
/// among them.
proof fn lemma_first_fault_after(reads: Seq<Result<Seq<Seq<char>>, QueryError>>, k: int)
    requires
        0 <= k <= reads.len(),
        forall|j: int| 0 <= j < k ==> (#[trigger] reads[j]) is Ok,
    ensures
        k <= first_fault(reads) <= reads.len(),
{
    let n = first_fault(reads);
    if exists|i: int| 0 <= i < reads.len() && reads[i] is Err {
        let w = choose|i: int| 0 <= i < reads.len() && reads[i] is Err;
        lemma_least_fault(reads, w);
        if n < k {
            assert(reads[n] is Ok);
        }
    }
}

/// Where a read fails, there is a first read that fails.
proof fn lemma_least_fault(reads: Seq<Result<Seq<Seq<char>>, QueryError>>, w: int)
    requires
        0 <= w < reads.len(),
        reads[w] is Err,
    ensures
        exists|i: int|
            0 <= i <= w && reads[i] is Err && forall|j: int| 0 <= j < i ==> reads[j] is Ok,
    decreases w,
{
    if exists|j: int| 0 <= j < w && reads[j] is Err {
        let j = choose|j: int| 0 <= j < w && reads[j] is Err;
        lemma_least_fault(reads, j);
    }
}

/// When the read after the rows `seen` fails and the rows are in order,
/// the error of that read is the answer.
pub proof fn lemma_answer_on_failed_read(
    reads: Seq<Result<Seq<Seq<char>>, QueryError>>,
    seen: Seq<Seq<Seq<char>>>,
    c: Criteria,
)
    requires
        seen.len() < reads.len(),
        forall|j: int| 0 <= j < seen.len() ==> #[trigger] reads[j] == Ok::<
            Seq<Seq<char>>,
            QueryError,
        >(seen[j]),
        reads[seen.len() as int] is Err,
        selected(seen, c) is Ok,
    ensures
        answer(reads, c) == Err::<Seq<ImageRecord>, QueryError>(reads[seen.len() as int]->Err_0),
{
    lemma_first_fault_at(reads, seen.len() as int);
    assert(rows_of(reads, seen.len() as int) =~= seen);
}

/// When every read has yielded a row, the answer is what the rows hold.
pub proof fn lemma_answer_at_end(
    reads: Seq<Result<Seq<Seq<char>>, QueryError>>,
    seen: Seq<Seq<Seq<char>>>,
    c: Criteria,
)
    requires
        seen.len() == reads.len(),
        forall|j: int| 0 <= j < seen.len() ==> #[trigger] reads[j] == Ok::<
            Seq<Seq<char>>,
            QueryError,
        >(seen[j]),
        selected(seen, c) is Ok,
    ensures
        answer(reads, c) == selected(seen, c),
{
    lemma_first_fault_after(reads, reads.len() as int);
    assert(rows_of(reads, reads.len() as int) =~= seen);
}

/// When the rows read so far show a fault, that fault is the answer,
/// whatever the reads after them yield.
pub proof fn lemma_answer_on_faulty_row(
    reads: Seq<Result<Seq<Seq<char>>, QueryError>>,
    seen: Seq<Seq<Seq<char>>>,
    c: Criteria,
)
    requires
        seen.len() <= reads.len(),
        forall|j: int| 0 <= j < seen.len() ==> #[trigger] reads[j] == Ok::<
            Seq<Seq<char>>,
            QueryError,
        >(seen[j]),
        selected(seen, c) is Err,
    ensures
        answer(reads, c) == selected(seen, c),
{
    lemma_first_fault_after(reads, seen.len() as int);
    let n = first_fault(reads);
    assert(rows_of(reads, n).take(seen.len() as int) =~= seen);
    lemma_fault_stays(rows_of(reads, n), seen.len() as int, c);
}

/// Looks at one row below the header row: a row of the right length
/// becomes a record, which is kept if it meets `selection`.
fn take_row(
    row: &Vec<String>,
    width: usize,
    at: &Result<Vec<usize>, QueryError>,
    selection: &Selection,
    images: &mut Vec<JumpCpg0016Image>,
    Ghost(seen): Ghost<Seq<Seq<Seq<char>>>>,
) -> (taken: Result<(), QueryError>)
    requires
        seen.len() >= 1,
        width == seen[0].len(),
        laid_out(*at, seen[0]),
        selected(seen, selection@) == Ok::<Seq<ImageRecord>, QueryError>(views(old(images)@)),
    ensures
        match taken {
            Ok(()) => selected(seen.push(row.deep_view()), selection@) == Ok::<
                Seq<ImageRecord>,
                QueryError,
            >(views(final(images)@)),
            Err(e) => selected(seen.push(row.deep_view()), selection@) == Err::<
                Seq<ImageRecord>,
                QueryError,
            >(e) && final(images)@ == old(images)@,
        },
{
    proof {
        lemma_selected_step(seen, row.deep_view(), selection@);
    }
    let at = match at {
        Ok(at) => at,
        Err(e) => {
            return Err(*e);
        },
    };
    if row.len() != width {
        return Err(QueryError::RaggedRow);
    }
    let image = JumpCpg0016Image::new(
        field(row, at[0]),
        field(row, at[1]),
        field(row, at[2]),
        field(row, at[3]),
        field(row, at[4]),
        field(row, at[5]),
        field(row, at[6]),
        field(row, at[7]),
        field(row, at[8]),
    );
    let ghost before = images@;
    if image.matches(selection) {
        images.push(image);
        assert(views(images@) =~= views(before).push(image@));
    }
    Ok(())
}

/// Answers a query on a table that is given as rows of fields, the header
/// row first.
///
/// The header row says where each field of a record stands; every row
/// below it becomes a record, and those that meet `selection` are handed
/// back in the order of their rows. See [`selected`] for the errors.
pub fn select_rows(rows: &Vec<Vec<String>>, selection: &Selection) -> (found: Result<
    Vec<JumpCpg0016Image>,
    QueryError,
>)
    ensures
        match found {
            Ok(images) => selected(rows.deep_view(), selection@) == Ok::<
                Seq<ImageRecord>,
                QueryError,
            >(views(images@)),
            Err(e) => selected(rows.deep_view(), selection@) == Err::<
                Seq<ImageRecord>,
                QueryError,
            >(e),
        },
{
    let ghost table = rows.deep_view();
    let mut images: Vec<JumpCpg0016Image> = Vec::new();
    assert(views(images@) =~= Seq::<ImageRecord>::empty());
    if rows.len() == 0 {
        return Ok(images);
    }
    let at = find_layout(&rows[0]);
    let width: usize = rows[0].len();
    let mut i: usize = 1;
    while i < rows.len()
        invariant
            1 <= i <= rows.len(),
            table == rows.deep_view(),
            width == table[0].len(),
            laid_out(at, table[0]),
            selected(table.take(i as int), selection@) == Ok::<Seq<ImageRecord>, QueryError>(
                views(images@),
            ),
        decreases rows.len() - i,
    {
        proof {
            assert(table.take(i as int).push(table[i as int]) =~= table.take(i + 1));
        }
        match take_row(&rows[i], width, &at, selection, &mut images, Ghost(table.take(i as int))) {
            Ok(()) => {},
            Err(e) => {
                proof {
                    lemma_fault_stays(table, i + 1, selection@);
                }
                return Err(e);
            },
        }
        i += 1;
    }
    assert(table.take(rows.len() as int) =~= table);
    Ok(images)
}

/// The positions of the records that meet `c`, in rising order.
pub open spec fn hits(all: Seq<ImageRecord>, c: Criteria) -> Seq<int>
    decreases all.len(),
{
    if all.len() == 0 {
        Seq::empty()
    } else if all.last().matches(c) {
        hits(all.drop_last(), c).push(all.len() - 1)
    } else {
        hits(all.drop_last(), c)
    }
}

/// A selection holds one record for each record of the table that meets
/// the criteria, no other, and in the order of the table: its `k`-th
/// record is the table's record at the `k`-th position that meets them.
pub proof fn lemma_selection_in_row_order(all: Seq<ImageRecord>, c: Criteria)
    ensures
        all.filter(wanted(c)).len() == hits(all, c).len(),
        forall|k: int|
            0 <= k < hits(all, c).len() ==> {
                &&& 0 <= (#[trigger] hits(all, c)[k]) < all.len()
                &&& all[hits(all, c)[k]].matches(c)
                &&& all.filter(wanted(c))[k] == all[hits(all, c)[k]]
            },
        forall|j: int, k: int|
            0 <= j < k < hits(all, c).len() ==> hits(all, c)[j] < hits(all, c)[k],
        forall|i: int|
            0 <= i < all.len() && (#[trigger] all[i]).matches(c) ==> hits(all, c).contains(i),
    decreases all.len(),
{
    reveal(Seq::filter);
    if all.len() > 0 {
        let rest = all.drop_last();
        lemma_selection_in_row_order(rest, c);
        let at = hits(all, c);
        assert forall|i: int| 0 <= i < all.len() && (#[trigger] all[i]).matches(c) implies at.contains(
            i,
        ) by {
            if i < all.len() - 1 {
                assert(rest[i] == all[i]);
                let k = choose|k: int| 0 <= k < hits(rest, c).len() && hits(rest, c)[k] == i;
                assert(at[k] == i);
            } else {
                assert(at[at.len() - 1] == i);
            }
        }
        assert forall|k: int| 0 <= k < at.len() implies {
            &&& 0 <= (#[trigger] at[k]) < all.len()
            &&& all[at[k]].matches(c)
            &&& all.filter(wanted(c))[k] == all[at[k]]
        } by {
            if k < hits(rest, c).len() {
                assert(rest[at[k]] == all[at[k]]);
            }
        }
    }
}

/// The lookup table of the dataset and the records that were selected
/// from it.
pub struct JumpCpg0016Table {
    /// The path of the cached table.
    pub table: String,
    /// The selected records, in the order in which the queries found them.
    pub queries: Vec<JumpCpg0016Image>,
}

impl JumpCpg0016Table {
    /// The selected records as mathematical values.
    pub open spec fn records(self) -> Seq<ImageRecord> {
        views(self.queries@)
    }

    /// Sets up the table in the cache directory `cache`, with no record
    /// selected yet.
    ///
    /// `cached` says whether the table's file is there already. If it is,
    /// nothing is to be fetched. If it is not, the download from the
    /// file-sharing host is begun and handed back for the caller to carry
    /// out. The table's path is the same in both cases.
    pub fn init(cache: &str, cached: bool) -> (made: (JumpCpg0016Table, Option<GdriveDownload>))
        ensures
            made.0.table@ == joined_path(cache@, LOOKUP_TABLE@),
            made.0.queries@.len() == 0,
            cached ==> made.1 is None,
            !cached ==> (made.1 matches Some(fetch) && fetch@ == Transfer::begin(
                LOOKUP_ID@,
                cache@,
                LOOKUP_TABLE@,
                false,
            )),
    {
        let table = JumpCpg0016Table { table: join_path(cache, LOOKUP_TABLE), queries: Vec::new() };
        if cached {
            (table, None)
        } else {
            (table, Some(download_gdrive_file(LOOKUP_ID, cache, LOOKUP_TABLE, false)))
        }
    }

    /// Selects records from the compressed table `data` and adds them to
    /// those selected before.
    ///
    /// The table is decompressed and read row by row, so that only the
    /// compressed table and the selected records are held at a time. Each
    /// row below the header row is a record. The records that meet every
    /// constraint that is present are added in the order of their rows. A
    /// table that cannot be read to its end, or in which one row is at
    /// fault, adds nothing and is reported as an error.
    pub fn query(
        &mut self,
        data: &[u8],
        source: Option<String>,
        batch: Option<String>,
        plate: Option<String>,
        site: Option<String>,
        well: Option<String>,
        compound: Option<String>,
    ) -> (done: Result<(), QueryError>)
        ensures
            final(self).table == old(self).table,
            match answer(
                table_reads(data@),
                Criteria {
                    source: text_of(source),
                    batch: text_of(batch),
                    plate: text_of(plate),
                    site: text_of(site),
                    well: text_of(well),
                    compound: text_of(compound),
                },
            ) {
                Ok(found) => done is Ok && final(self).records() == old(self).records() + found,
                Err(e) => done == Err::<(), QueryError>(e) && final(self).queries == old(
                    self,
                ).queries,
            },
    {
        let selection = Selection { source, batch, plate, site, well, compound };
        let ghost reads = table_reads(data@);
        let ghost mut seen: Seq<Seq<Seq<char>>> = Seq::empty();
        let mut reader = open_table(data);
        let mut found: Vec<JumpCpg0016Image> = Vec::new();
        let mut header: Option<(usize, Result<Vec<usize>, QueryError>)> = None;
        assert(views(found@) =~= Seq::<ImageRecord>::empty());
        loop
            invariant
                reads == table_reads(data@),
                seen.len() <= reads.len(),
                reads.skip(seen.len() as int) == reads_ahead(reader),
                forall|j: int|
                    0 <= j < seen.len() ==> #[trigger] reads[j] == Ok::<
                        Seq<Seq<char>>,
                        QueryError,
                    >(seen[j]),
                header is None <==> seen.len() == 0,
                header matches Some(h) ==> h.0 == seen[0].len() && laid_out(h.1, seen[0]),
                selected(seen, selection@) == Ok::<Seq<ImageRecord>, QueryError>(views(found@)),
            ensures
                answer(reads, selection@) == Ok::<Seq<ImageRecord>, QueryError>(views(found@)),
            decreases reads_ahead(reader).len(),
        {
            let ghost at = seen.len() as int;
            match next_row(&mut reader) {
                None => {
                    proof {
                        lemma_answer_at_end(reads, seen, selection@);
                    }
                    break ;
                },
                Some(Err(e)) => {
                    proof {
                        lemma_answer_on_failed_read(reads, seen, selection@);
                    }
                    return Err(e);
                },
                Some(Ok(row)) => {
                    match &header {
                        None => {
                            proof {
                                lemma_selected_step(seen, row.deep_view(), selection@);
                            }
                            header = Some((row.len(), find_layout(&row)));
                        },
                        Some(h) => {
                            match take_row(&row, h.0, &h.1, &selection, &mut found, Ghost(seen)) {
                                Ok(()) => {},
                                Err(e) => {
                                    proof {
                                        lemma_answer_on_faulty_row(
                                            reads,
                                            seen.push(row.deep_view()),
                                            selection@,
                                        );
                                    }
                                    return Err(e);
                                },
                            }
                        },
                    }
                    proof {
                        seen = seen.push(row.deep_view());
                    }
                },
            }
        }
        self.queries.append(&mut found);
        Ok(())
    }

    /// Begins the fetch of all selected records into the directory
    /// `output`, with at most `threads` fetches under way at any time.
    ///
    /// Without `threads` the bound is the number of processors of the
    /// system, whatever it is at the time; it is at least one. A bound of
    /// zero is turned down, and so is a missing directory. Nothing has
    /// begun in the batch that is handed back: the caller carries out what
    /// [`Batch::next_turn`] says and reports each end to [`Batch::finish`].
    pub fn download(&self, output: Option<String>, threads: Option<usize>) -> (begun: Result<
        Batch,
        ConfigError,
    >)
        ensures
            match begun {
                Ok(batch) => {
                    &&& output matches Some(dir) && batch.spec_output() == dir@
                    &&& threads != Some(0usize)
                    &&& batch.wf()
                    &&& batch@.limit >= 1
                    &&& threads matches Some(n) ==> batch@.limit == n
                    &&& batch@ == Schedule::fresh(self.queries@.len(), batch@.limit)
                },
                Err(e) => e == (if output is None {
                    ConfigError::MissingOutput
                } else {
                    ConfigError::NoThreads
                }) && (output is None || threads == Some(0usize)),
            },
    {
        let dir = match output {
            Some(dir) => dir,
            None => {
                return Err(ConfigError::MissingOutput);
            },
        };
        let cpus: usize = match threads {
            Some(_) => 0,
            None => available_cpus(),
        };
        let limit = match concurrency(threads, cpus) {
            Ok(limit) => limit,
            Err(e) => {
                return Err(e);
            },
        };
        Batch::new(dir, self.queries.len(), limit)
    }
}

} // verus!
