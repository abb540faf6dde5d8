//! Forcing tables in CSV. Expected columns (case-insensitive, flexible names):
//! date, precipitation, PET and optionally observed discharge. Gaps are only
//! allowed in the observed discharge.
use vstd::prelude::*;
use vstd::string::*;
use crate::number::Readable;
use crate::text::{decimal, lowercase, same_but_case, same_text, strip};

verus! {

use crate::number::Arith;
use crate::text::{
    all_ascii, codes, decimal_text, folded, lemma_codes, lowercase_text, stripped,
};

/// Names of a date column.
pub open spec fn date_words() -> Seq<Seq<char>> {
    seq!["date"@, "fecha"@, "time"@, "dates"@]
}

/// Names of a precipitation column.
pub open spec fn precip_words() -> Seq<Seq<char>> {
    seq![
        "p"@,
        "precip"@,
        "precipitation"@,
        "pr"@,
        "pcp"@,
        "prcp"@,
        "precip_mm"@,
    ]
}

/// Names of a PET column.
pub open spec fn pet_words() -> Seq<Seq<char>> {
    seq!["pet"@, "etp"@, "e"@, "evap"@, "pet_mm"@, "pe"@]
}

/// Names of a column of observed discharge.
pub open spec fn qobs_words() -> Seq<Seq<char>> {
    seq![
        "q"@,
        "qobs"@,
        "q_mm"@,
        "qmm"@,
        "discharge"@,
        "caudal"@,
        "streamflow"@,
    ]
}

/// The texts of a list of names.
pub open spec fn texts(names: Seq<&str>) -> Seq<Seq<char>> {
    Seq::new(names.len(), |i: int| names[i]@)
}

/// The texts of a row of cells.
pub open spec fn cells(row: Seq<String>) -> Seq<Seq<char>> {
    Seq::new(row.len(), |i: int| row[i]@)
}

/// Names of a date column.
pub fn date_names() -> (r: [&'static str; 4])
    ensures
        texts(r@) == date_words(),
{
    let r = ["date", "fecha", "time", "dates"];
    assert(texts(r@) =~= date_words());
    r
}

/// Names of a precipitation column.
pub fn precip_names() -> (r: [&'static str; 7])
    ensures
        texts(r@) == precip_words(),
{
    let r = ["p", "precip", "precipitation", "pr", "pcp", "prcp", "precip_mm"];
    assert(texts(r@) =~= precip_words());
    r
}

/// Names of a PET column.
pub fn pet_names() -> (r: [&'static str; 6])
    ensures
        texts(r@) == pet_words(),
{
    let r = ["pet", "etp", "e", "evap", "pet_mm", "pe"];
    assert(texts(r@) =~= pet_words());
    r
}

/// Names of a column of observed discharge.
pub fn qobs_names() -> (r: [&'static str; 7])
    ensures
        texts(r@) == qobs_words(),
{
    let r = ["q", "qobs", "q_mm", "qmm", "discharge", "caudal", "streamflow"];
    assert(texts(r@) =~= qobs_words());
    r
}

/// Whether a header is one of `words`, whatever its case and the white space
/// around it.
pub open spec fn header_matches(header: Seq<char>, words: Seq<Seq<char>>) -> bool {
    words.contains(lowercase_text(stripped(header)))
}

/// The first header at or after `i` that is one of `words`.
pub open spec fn column_from(
    headers: Seq<Seq<char>>,
    words: Seq<Seq<char>>,
    i: nat,
) -> Option<usize>
    decreases headers.len() - i,
{
    if i >= headers.len() {
        None
    } else if header_matches(headers[i as int], words) {
        Some(i as usize)
    } else {
        column_from(headers, words, i + 1)
    }
}

/// Whether a text is one of `words` but for the case of ASCII letters.
pub open spec fn folds_to(text: Seq<char>, words: Seq<Seq<char>>) -> bool {
    exists|i: int| 0 <= i < words.len() && codes(#[trigger] words[i]) == folded(text)
}

/// Whether `key` is one of `names`.
pub fn listed(names: &[&str], key: &str) -> (r: bool)
    ensures
        r == texts(names@).contains(key@),
{
    let mut i: usize = 0;
    while i < names.len()
        invariant
            i <= names@.len(),
            forall|j: int| 0 <= j < i ==> #[trigger] texts(names@)[j] != key@,
        decreases names@.len() - i,
    {
        if same_text(names[i], key) {
            assert(texts(names@)[i as int] == key@);
            return true;
        }
        i = i + 1;
    }
    false
}

/// A text that folds to `key` is one of `words` but for case exactly where `key`
/// is one of them.
proof fn lemma_folding(text: Seq<char>, key: Seq<char>, words: Seq<Seq<char>>)
    ensures
        codes(key) == folded(text) ==> (folds_to(text, words) <==> words.contains(key)),
{
    if codes(key) == folded(text) {
        if folds_to(text, words) {
            let i = choose|i: int|
                0 <= i < words.len() && codes(#[trigger] words[i]) == folded(text);
            lemma_codes(words[i], key);
        }
        if words.contains(key) {
            let i = choose|i: int| 0 <= i < words.len() && words[i] == key;
            assert(codes(words[i]) == folded(text));
        }
    }
}

/// The first header that is one of `names`, whatever its case and the white
/// space around it. Among headers in ASCII this is the first that is one of
/// `names` but for the case of its letters.
pub fn find_column(headers: &[String], names: &[&str]) -> (r: Option<usize>)
    ensures
        r == column_from(cells(headers@), texts(names@), 0),
        forall|i: int|
            0 <= i < headers@.len() && (r is Some ==> i < r->0) && all_ascii(
                stripped(#[trigger] headers@[i]@),
            ) ==> !folds_to(stripped(headers@[i]@), texts(names@)),
        r is Some && all_ascii(stripped(headers@[r->0 as int]@)) ==> folds_to(
            stripped(headers@[r->0 as int]@),
            texts(names@),
        ),
{
    let mut i: usize = 0;
    while i < headers.len()
        invariant
            i <= headers@.len(),
            column_from(cells(headers@), texts(names@), 0) == column_from(
                cells(headers@),
                texts(names@),
                i as nat,
            ),
            forall|j: int|
                0 <= j < i && all_ascii(stripped(#[trigger] headers@[j]@)) ==> !folds_to(
                    stripped(headers@[j]@),
                    texts(names@),
                ),
        decreases headers@.len() - i,
    {
        let key = lowercase(strip(headers[i].as_str()));
        proof {
            lemma_folding(stripped(headers@[i as int]@), key@, texts(names@));
        }
        if listed(names, key.as_str()) {
            return Some(i);
        }
        i = i + 1;
    }
    None
}

/// Whether a cell stands for a missing value.
pub open spec fn gap(cell: Seq<char>) -> bool {
    let v = stripped(cell);
    v.len() == 0 || folded(v) == folded("na"@) || folded(v) == folded("nan"@)
}

/// The number in a cell: undefined for a gap, none where the text is no number.
pub open spec fn cell_value<F: Arith>(cell: Seq<char>) -> Option<F> {
    if gap(cell) {
        Some(F::nothing())
    } else {
        F::parsed(stripped(cell))
    }
}

/// Reads the number in a cell: undefined for a gap, `None` where the text is no
/// number.
pub fn parse_value<F: Readable>(raw: &str) -> (r: Option<F>)
    ensures
        r == cell_value::<F>(raw@),
{
    let v = strip(raw);
    if v.unicode_len() == 0 || same_but_case(v, "na") || same_but_case(v, "nan") {
        return Some(F::nan());
    }
    F::parse(v)
}

/// Why a forcing table is rejected. Rows are counted from one, the header row
/// included.
#[derive(Debug)]
pub enum ForcingError {
    /// There is no readable header row.
    NoHeader {
        /// What the CSV parser says of it.
        reason: String,
    },
    /// No header names a precipitation column.
    NoPrecipitation {
        /// The headers.
        headers: Vec<String>,
    },
    /// No header names a PET column.
    NoPet {
        /// The headers.
        headers: Vec<String>,
    },
    /// No header names a date column.
    NoDate {
        /// The headers.
        headers: Vec<String>,
    },
    /// This row is no readable record.
    Unreadable {
        /// The row.
        row: u128,
        /// What the CSV parser says of it.
        reason: String,
    },
    /// A cell of this row is no number.
    InvalidNumber {
        /// The row.
        row: u128,
        /// The text of the cell, without white space at either end.
        text: String,
    },
    /// Precipitation or PET of this row is missing or not finite.
    MissingInput {
        /// The row.
        row: u128,
    },
    /// There are no data rows.
    NoRows,
}

/// What is wrong with a forcing table.
pub enum TableFault {
    /// No readable header row.
    NoHeader {
        /// What the CSV parser says of it.
        reason: Seq<char>,
    },
    /// No precipitation column.
    NoPrecipitation {
        /// The headers.
        headers: Seq<Seq<char>>,
    },
    /// No PET column.
    NoPet {
        /// The headers.
        headers: Seq<Seq<char>>,
    },
    /// No date column.
    NoDate {
        /// The headers.
        headers: Seq<Seq<char>>,
    },
    /// This row is no readable record.
    Unreadable {
        /// The row.
        row: nat,
        /// What the CSV parser says of it.
        reason: Seq<char>,
    },
    /// A cell of this row is no number.
    InvalidNumber {
        /// The row.
        row: nat,
        /// The text of the cell.
        text: Seq<char>,
    },
    /// Precipitation or PET of this row is missing.
    MissingInput {
        /// The row.
        row: nat,
    },
    /// No data rows.
    NoRows,
}

impl View for ForcingError {
    type V = TableFault;

    open spec fn view(&self) -> TableFault {
        match *self {
            ForcingError::NoHeader { reason } => TableFault::NoHeader { reason: reason@ },
            ForcingError::NoPrecipitation { headers } => {
                TableFault::NoPrecipitation { headers: cells(headers@) }
            },
            ForcingError::NoPet { headers } => {
                TableFault::NoPet { headers: cells(headers@) }
            },
            ForcingError::NoDate { headers } => {
                TableFault::NoDate { headers: cells(headers@) }
            },
            ForcingError::Unreadable { row, reason } => {
                TableFault::Unreadable { row: row as nat, reason: reason@ }
            },
            ForcingError::InvalidNumber { row, text } => {
                TableFault::InvalidNumber { row: row as nat, text: text@ }
            },
            ForcingError::MissingInput { row } => TableFault::MissingInput { row: row as nat },
            ForcingError::NoRows => TableFault::NoRows,
        }
    }
}

/// Where the series stand in a table.
#[derive(Debug, Clone, Copy, PartialEq, Eq)]
pub struct Columns {
    /// Dates.
    pub date: usize,
    /// Precipitation.
    pub precip: usize,
    /// Potential evapotranspiration.
    pub pet: usize,
    /// Observed discharge, where there is any.
    pub qobs: Option<usize>,
}

/// Why a header row is rejected, if it is.
pub open spec fn header_fault(headers: Seq<Seq<char>>) -> Option<TableFault> {
    if column_from(headers, precip_words(), 0) is None {
        Some(TableFault::NoPrecipitation { headers })
    } else if column_from(headers, pet_words(), 0) is None {
        Some(TableFault::NoPet { headers })
    } else if column_from(headers, date_words(), 0) is None {
        Some(TableFault::NoDate { headers })
    } else {
        None
    }
}

impl Columns {
    /// Finds the columns in a header row.
    fn locate(headers: Vec<String>) -> (r: Result<Columns, ForcingError>)
        ensures
            match header_fault(cells(headers@)) {
                Some(fault) => r is Err && r->Err_0@ == fault,
                None => r is Ok && r->Ok_0 == columns_of(cells(headers@)),
            },
    {
        let precip = match find_column(headers.as_slice(), precip_names().as_slice()) {
            Some(c) => c,
            None => {
                return Err(ForcingError::NoPrecipitation { headers });
            },
        };
        let pet = match find_column(headers.as_slice(), pet_names().as_slice()) {
            Some(c) => c,
            None => {
                return Err(ForcingError::NoPet { headers });
            },
        };
        let date = match find_column(headers.as_slice(), date_names().as_slice()) {
            Some(c) => c,
            None => {
                return Err(ForcingError::NoDate { headers });
            },
        };
        let qobs = find_column(headers.as_slice(), qobs_names().as_slice());
        Ok(Columns { date, precip, pet, qobs })
    }
}

/// Forcing series of equal length.
#[derive(Debug)]
pub struct Forcing<F> {
    /// Date of each step, or its number.
    pub dates: Vec<String>,
    /// Precipitation.
    pub precip: Vec<F>,
    /// Potential evapotranspiration.
    pub pet: Vec<F>,
    /// Observed discharge, where there is any; gaps are undefined numbers.
    pub qobs: Option<Vec<F>>,
}

/// Contents of [`Forcing`].
#[verifier::ext_equal]
pub struct Series<F> {
    /// Date of each step, or its number.
    pub dates: Seq<Seq<char>>,
    /// Precipitation.
    pub precip: Seq<F>,
    /// Potential evapotranspiration.
    pub pet: Seq<F>,
    /// Observed discharge, where there is any.
    pub qobs: Option<Seq<F>>,
}

impl<F> View for Forcing<F> {
    type V = Series<F>;

    open spec fn view(&self) -> Series<F> {
        Series {
            dates: cells(self.dates@),
            precip: self.precip@,
            pet: self.pet@,
            qobs: match self.qobs {
                Some(q) => Some(q@),
                None => None,
            },
        }
    }
}

impl<F: Arith> Series<F> {
    /// The series have one length, and precipitation and PET have no gaps.
    pub open spec fn wf(self) -> bool {
        &&& self.precip.len() == self.dates.len()
        &&& self.pet.len() == self.dates.len()
        &&& self.qobs is Some ==> self.qobs->0.len() == self.dates.len()
        &&& forall|i: int| 0 <= i < self.precip.len() ==> (#[trigger] self.precip[i]).finite()
        &&& forall|i: int| 0 <= i < self.pet.len() ==> (#[trigger] self.pet[i]).finite()
    }
}

/// No steps yet, for a table with these columns.
pub open spec fn no_steps<F>(columns: Columns) -> Series<F> {
    Series {
        dates: Seq::empty(),
        precip: Seq::empty(),
        pet: Seq::empty(),
        qobs: if columns.qobs is Some {
            Some(Seq::empty())
        } else {
            None
        },
    }
}

/// The text in column `c` of a record; empty where the record ends before it.
pub open spec fn cell_at(record: Seq<Seq<char>>, c: usize) -> Seq<char> {
    if c < record.len() {
        record[c as int]
    } else {
        Seq::empty()
    }
}

/// Date of a record, or the number of its step where the record ends before it.
pub open spec fn record_date(columns: Columns, record: Seq<Seq<char>>, step: nat) -> Seq<char> {
    if columns.date < record.len() {
        record[columns.date as int]
    } else {
        decimal_text(step)
    }
}

/// Why the record of `row` is rejected, if it is.
pub open spec fn record_fault<F: Arith>(
    columns: Columns,
    record: Seq<Seq<char>>,
    row: nat,
) -> Option<TableFault> {
    let p = cell_at(record, columns.precip);
    let pet = cell_at(record, columns.pet);
    if cell_value::<F>(p) is None {
        Some(TableFault::InvalidNumber { row, text: stripped(p) })
    } else if cell_value::<F>(pet) is None {
        Some(TableFault::InvalidNumber { row, text: stripped(pet) })
    } else if !cell_value::<F>(p)->0.finite() || !cell_value::<F>(pet)->0.finite() {
        Some(TableFault::MissingInput { row })
    } else if columns.qobs is Some && cell_value::<F>(
        cell_at(record, columns.qobs->0),
    ) is None {
        Some(
            TableFault::InvalidNumber { row, text: stripped(cell_at(record, columns.qobs->0)) },
        )
    } else {
        None
    }
}

/// The series with the step of one more record.
pub open spec fn with_record<F: Arith>(
    series: Series<F>,
    columns: Columns,
    record: Seq<Seq<char>>,
) -> Series<F> {
    Series {
        dates: series.dates.push(record_date(columns, record, series.dates.len() + 1)),
        precip: series.precip.push(cell_value::<F>(cell_at(record, columns.precip))->0),
        pet: series.pet.push(cell_value::<F>(cell_at(record, columns.pet))->0),
        qobs: match (columns.qobs, series.qobs) {
            (Some(c), Some(q)) => Some(q.push(cell_value::<F>(cell_at(record, c))->0)),
            _ => series.qobs,
        },
    }
}

/// The text in column `c` of a record; empty where the record ends before it.
fn cell(record: &[String], c: usize) -> (r: &str)
    ensures
        r@ == cell_at(cells(record@), c),
{
    if c < record.len() {
        record[c].as_str()
    } else {
        proof {
            reveal_strlit("");
        }
        assert(""@ =~= Seq::<char>::empty());
        ""
    }
}

/// The error for a cell that is no number.
fn invalid_number(row: u128, raw: &str) -> (e: ForcingError)
    ensures
        e@ == (TableFault::InvalidNumber { row: row as nat, text: stripped(raw@) }),
{
    ForcingError::InvalidNumber { row, text: strip(raw).to_owned() }
}

impl<F: Readable> Forcing<F> {
    /// No steps yet, for a table with these columns.
    fn empty(columns: &Columns) -> (r: Self)
        ensures
            r@ == no_steps::<F>(*columns),
            r@.wf(),
    {
        let qobs: Option<Vec<F>> = match columns.qobs {
            Some(_) => Some(Vec::new()),
            None => None,
        };
        let r = Forcing { dates: Vec::new(), precip: Vec::new(), pet: Vec::new(), qobs };
        assert(r@ =~= no_steps::<F>(*columns));
        r
    }

    /// Adds the step of one more record. A rejected record leaves the series
    /// as they were.
    fn push_record(&mut self, columns: &Columns, record: &[String]) -> (r: Result<
        (),
        ForcingError,
    >)
        requires
            old(self)@.dates.len() < usize::MAX,
            old(self)@.wf(),
            columns.qobs is Some <==> old(self)@.qobs is Some,
        ensures
            match record_fault::<F>(*columns, cells(record@), old(self)@.dates.len() + 2) {
                Some(fault) => r is Err && r->Err_0@ == fault && final(self)@ == old(self)@,
                None => r is Ok && final(self)@ == with_record(
                    old(self)@,
                    *columns,
                    cells(record@),
                ),
            },
            final(self)@.wf(),
    {
        let ghost before = self@;
        let ghost texts = cells(record@);
        let i: usize = self.dates.len();
        let row: u128 = i as u128 + 2;
        let raw_p = cell(record, columns.precip);
        let p = match parse_value::<F>(raw_p) {
            Some(v) => v,
            None => {
                return Err(invalid_number(row, raw_p));
            },
        };
        let raw_pet = cell(record, columns.pet);
        let pet = match parse_value::<F>(raw_pet) {
            Some(v) => v,
            None => {
                return Err(invalid_number(row, raw_pet));
            },
        };
        if !p.is_finite() || !pet.is_finite() {
            return Err(ForcingError::MissingInput { row });
        }
        if let Some(c) = columns.qobs {
            let raw_q = cell(record, c);
            let q = match parse_value::<F>(raw_q) {
                Some(v) => v,
                None => {
                    return Err(invalid_number(row, raw_q));
                },
            };
            match &mut self.qobs {
                Some(qs) => qs.push(q),
                None => {},
            }
        }
        let date = if columns.date < record.len() {
            record[columns.date].as_str().to_owned()
        } else {
            decimal(i + 1)
        };
        self.dates.push(date);
        self.precip.push(p);
        self.pet.push(pet);
        assert(self@ =~= with_record(before, *columns, texts));
        Ok(())
    }
}

/// The columns that a header row names.
pub open spec fn columns_of(headers: Seq<Seq<char>>) -> Columns {
    Columns {
        date: column_from(headers, date_words(), 0)->0,
        precip: column_from(headers, precip_words(), 0)->0,
        pet: column_from(headers, pet_words(), 0)->0,
        qobs: column_from(headers, qobs_words(), 0),
    }
}

/// A row as the CSV parser gives it: the texts of its cells, or what is wrong
/// with it.
pub open spec fn row_of(row: Result<Vec<String>, String>) -> Result<Seq<Seq<char>>, Seq<char>> {
    match row {
        Ok(row) => Ok(cells(row@)),
        Err(reason) => Err(reason@),
    }
}

/// The rows of a list.
pub open spec fn rows_of(rows: Seq<Result<Vec<String>, String>>) -> Seq<
    Result<Seq<Seq<char>>, Seq<char>>,
> {
    Seq::new(rows.len(), |i: int| row_of(rows[i]))
}

/// The series of the first `n` records, which are all readable.
pub open spec fn series_of<F: Arith>(
    columns: Columns,
    records: Seq<Result<Seq<Seq<char>>, Seq<char>>>,
    n: nat,
) -> Series<F>
    decreases n,
{
    if n == 0 {
        no_steps(columns)
    } else {
        with_record(
            series_of(columns, records, (n - 1) as nat),
            columns,
            records[n - 1]->Ok_0,
        )
    }
}

/// Why record `i` is rejected, if it is. The header row is row one.
pub open spec fn row_fault<F: Arith>(
    columns: Columns,
    records: Seq<Result<Seq<Seq<char>>, Seq<char>>>,
    i: nat,
) -> Option<TableFault> {
    match records[i as int] {
        Ok(record) => record_fault::<F>(columns, record, i + 2),
        Err(reason) => Some(TableFault::Unreadable { row: i + 2, reason }),
    }
}

/// The first fault of the records at or after `i`, if any.
pub open spec fn records_fault<F: Arith>(
    columns: Columns,
    records: Seq<Result<Seq<Seq<char>>, Seq<char>>>,
    i: nat,
) -> Option<TableFault>
    decreases records.len() - i,
{
    if i >= records.len() {
        None
    } else if row_fault::<F>(columns, records, i) is Some {
        row_fault::<F>(columns, records, i)
    } else {
        records_fault::<F>(columns, records, i + 1)
    }
}

/// Why a table is rejected, if it is: for want of a header row or a column, for
/// its first record that is unreadable or faulty, or for want of records.
pub open spec fn rows_fault<F: Arith>(
    headers: Result<Seq<Seq<char>>, Seq<char>>,
    records: Seq<Result<Seq<Seq<char>>, Seq<char>>>,
) -> Option<TableFault> {
    match headers {
        Err(reason) => Some(TableFault::NoHeader { reason }),
        Ok(headers) => if header_fault(headers) is Some {
            header_fault(headers)
        } else if records.len() == 0 {
            Some(TableFault::NoRows)
        } else {
            records_fault::<F>(columns_of(headers), records, 0)
        },
    }
}

/// Reads the forcing series from the records of a parsed table.
fn read_records<F: Readable>(columns: &Columns, records: &[Result<Vec<String>, String>]) -> (r:
    Result<Forcing<F>, ForcingError>)
    ensures
        match records_fault::<F>(*columns, rows_of(records@), 0) {
            Some(fault) => r is Err && r->Err_0@ == fault,
            None => {
                &&& r is Ok
                &&& r->Ok_0@ == series_of::<F>(*columns, rows_of(records@), records@.len())
                &&& r->Ok_0@.wf()
                &&& r->Ok_0@.dates.len() == records@.len()
            },
        },
{
    let ghost rows = rows_of(records@);
    let mut forcing = Forcing::<F>::empty(columns);
    let mut i: usize = 0;
    while i < records.len()
        invariant
            i <= records@.len(),
            rows == rows_of(records@),
            forcing@.wf(),
            forcing@.dates.len() == i,
            columns.qobs is Some <==> forcing@.qobs is Some,
            forcing@ == series_of::<F>(*columns, rows, i as nat),
            records_fault::<F>(*columns, rows, 0) == records_fault::<F>(*columns, rows, i as nat),
        decreases records@.len() - i,
    {
        assert(rows[i as int] == row_of(records@[i as int]));
        match &records[i] {
            Ok(record) => {
                if let Err(e) = forcing.push_record(columns, record.as_slice()) {
                    return Err(e);
                }
            },
            Err(reason) => {
                let reason = reason.as_str().to_owned();
                return Err(ForcingError::Unreadable { row: i as u128 + 2, reason });
            },
        }
        i = i + 1;
    }
    Ok(forcing)
}

/// Reads the forcing series from the rows of a parsed table.
pub fn read_rows<F: Readable>(
    headers: Result<Vec<String>, String>,
    records: &[Result<Vec<String>, String>],
) -> (r: Result<Forcing<F>, ForcingError>)
    ensures
        match rows_fault::<F>(row_of(headers), rows_of(records@)) {
            Some(fault) => r is Err && r->Err_0@ == fault,
            None => {
                &&& r is Ok
                &&& r->Ok_0@ == series_of::<F>(
                    columns_of(row_of(headers)->Ok_0),
                    rows_of(records@),
                    records@.len(),
                )
                &&& r->Ok_0@.wf()
                &&& r->Ok_0@.dates.len() == records@.len()
            },
        },
{
    let header = match headers {
        Ok(header) => header,
        Err(reason) => {
            return Err(ForcingError::NoHeader { reason });
        },
    };
    let columns = match Columns::locate(header) {
        Ok(columns) => columns,
        Err(e) => {
            return Err(e);
        },
    };
    if records.len() == 0 {
        return Err(ForcingError::NoRows);
    }
    read_records(&columns, records)
}

/// The header row that the CSV parser reads from a text.
pub uninterp spec fn csv_header(text: Seq<u8>) -> Result<Seq<Seq<char>>, Seq<char>>;

/// The records below the header row that the CSV parser reads from a text.
pub uninterp spec fn csv_records(text: Seq<u8>) -> Seq<Result<Seq<Seq<char>>, Seq<char>>>;

/// The header row of a CSV text.
///
/// Calls `csv::Reader::headers` on a reader over the text with the default
/// settings. The result depends on the text alone and is named [`csv_header`]:
/// the cells of the first row, or the text of the parser's error.
#[verifier::external_body]
fn header_row(text: &[u8]) -> (r: Result<Vec<String>, String>)
    ensures
        row_of(r) == csv_header(text@),
{
    let mut reader = csv::Reader::from_reader(text);
    let header = reader.headers().map_err(|e| e.to_string())?;
    Ok(header.iter().map(str::to_owned).collect())
}

/// The records of a CSV text, the unreadable ones included.
///
/// Calls `csv::Reader::records` on a reader over the text with the default
/// settings, and takes what it yields one for one. The reader has its header row
/// read by `headers` first, so that errors name the rows below it by their
/// place. The result depends on the text alone and is named [`csv_records`]: of
/// each row below the first its cells, or the text of the parser's error.
#[verifier::external_body]
fn record_rows(text: &[u8]) -> (r: Vec<Result<Vec<String>, String>>)
    ensures
        rows_of(r@) == csv_records(text@),
{
    let mut reader = csv::Reader::from_reader(text);
    let _ = reader.headers();
    reader
        .records()
        .map(|r| match r {
            Ok(record) => Ok(record.iter().map(str::to_owned).collect()),
            Err(e) => Err(e.to_string()),
        })
        .collect()
}

/// Reads the forcing series from a CSV text.
pub fn read_text<F: Readable>(text: &[u8]) -> (r: Result<Forcing<F>, ForcingError>)
    ensures
        match rows_fault::<F>(csv_header(text@), csv_records(text@)) {
            Some(fault) => r is Err && r->Err_0@ == fault,
            None => {
                &&& r is Ok
                &&& r->Ok_0@ == series_of::<F>(
                    columns_of(csv_header(text@)->Ok_0),
                    csv_records(text@),
                    csv_records(text@).len(),
                )
                &&& r->Ok_0@.wf()
                &&& r->Ok_0@.dates.len() == csv_records(text@).len()
            },
        },
{
    let headers = header_row(text);
    let records = record_rows(text);
    read_rows(headers, records.as_slice())
}

} // verus!
