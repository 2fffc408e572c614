//! Reading an uploaded CSV file into a grid of trimmed cells, one row per
//! record and one cell per wanted column. The `csv` crate splits the text
//! into a header row and records; which column holds which field is found by
//! aliases of the normalised header names, and a missing required column is
//! a parse error naming it.

use vstd::prelude::*;
use vstd::string::*;
use crate::error::AppError;
use crate::csv_import::{aliases_view, find_col, find_col_spec, names_view, normalize_header, normalize_header_spec, opt_index};
use crate::text::{push_char, trim, trim_spec};

verus! {

// ── The document as the `csv` crate reads it ───────────────────────────

/// A CSV document read with a header row: the header names, or the reader's
/// error message, and the records, or the message of the first record that
/// could not be read.
pub struct CsvTable {
    pub headers: Result<Vec<String>, String>,
    pub records: Result<Vec<Vec<String>>, String>,
}

/// Plain-value view of a list of texts.
pub open spec fn texts_view(v: Seq<String>) -> Seq<Seq<char>> {
    v.map_values(|s: String| s@)
}

/// Plain-value view of the header row.
pub open spec fn headers_view(h: Result<Vec<String>, String>) -> Result<Seq<Seq<char>>, Seq<char>> {
    match h {
        Ok(v) => Ok(texts_view(v@)),
        Err(e) => Err(e@),
    }
}

/// Plain-value view of the records.
pub open spec fn records_view(r: Result<Vec<Vec<String>>, String>) -> Result<Seq<Seq<Seq<char>>>, Seq<char>> {
    match r {
        Ok(v) => Ok(v@.map_values(|rec: Vec<String>| texts_view(rec@))),
        Err(e) => Err(e@),
    }
}

impl View for CsvTable {
    type V = (Result<Seq<Seq<char>>, Seq<char>>, Result<Seq<Seq<Seq<char>>>, Seq<char>>);

    open spec fn view(&self) -> Self::V {
        (headers_view(self.headers), records_view(self.records))
    }
}

/// What the `csv` crate reads from a text with a header row, records of
/// any length and every field trimmed.
pub uninterp spec fn csv_table_spec(content: Seq<char>) -> (
    Result<Seq<Seq<char>>, Seq<char>>,
    Result<Seq<Seq<Seq<char>>>, Seq<char>>,
);

/// Calls `csv::ReaderBuilder` (flexible, `Trim::All`) on the text, then
/// `Reader::headers` and `Reader::records`, turning each record into its
/// fields and each error into its message; the records stop at the first
/// error. The result is named by `csv_table_spec`, a function of the text.
#[verifier::external_body]
pub(crate) fn read_csv(content: &str) -> (t: CsvTable)
    ensures
        t@ == csv_table_spec(content@),
{
    let mut rdr = csv::ReaderBuilder::new().flexible(true).trim(csv::Trim::All).from_reader(content.as_bytes());
    let headers = rdr.headers().map(|h| h.iter().map(String::from).collect()).map_err(|e| e.to_string());
    let records = rdr.records().map(|r| r.map(|rec| rec.iter().map(String::from).collect()).map_err(|e| e.to_string()))
        .collect();
    CsvTable { headers, records }
}

// ── Cells ──────────────────────────────────────────────────────────────

/// The trimmed field at `i`, or the empty text past the end of the record.
pub open spec fn cell_spec(rec: Seq<Seq<char>>, i: int) -> Seq<char> {
    if 0 <= i < rec.len() {
        trim_spec(rec[i])
    } else {
        Seq::empty()
    }
}

/// The cell of an optional column: none when the column is absent.
pub open spec fn pick_spec(rec: Seq<Seq<char>>, col: Option<int>) -> Option<Seq<char>> {
    match col {
        Some(i) => Some(cell_spec(rec, i)),
        None => None,
    }
}

/// Plain-value view of an optional text.
pub open spec fn opt_text(o: Option<String>) -> Option<Seq<char>> {
    match o {
        Some(s) => Some(s@),
        None => None,
    }
}

/// Plain-value view of one row of the grid.
pub open spec fn row_view(r: Seq<Option<String>>) -> Seq<Option<Seq<char>>> {
    r.map_values(|o: Option<String>| opt_text(o))
}

/// Plain-value view of the grid.
pub open spec fn grid_view(g: Seq<Vec<Option<String>>>) -> Seq<Seq<Option<Seq<char>>>> {
    g.map_values(|r: Vec<Option<String>>| row_view(r@))
}

/// The trimmed field at `idx`, or the empty text when the record is shorter.
pub fn cell(record: &Vec<String>, idx: usize) -> (r: String)
    ensures
        r@ == cell_spec(texts_view(record@), idx as int),
{
    if idx < record.len() {
        String::from_str(trim(record[idx].as_str()))
    } else {
        String::new()
    }
}

/// The text without its `,` characters (thousands separators).
pub open spec fn strip_commas_spec(s: Seq<char>) -> Seq<char> {
    s.filter(|c: char| c != ',')
}

/// Removes the `,` characters of a number written with thousands
/// separators (`"1,250.50"` becomes `"1250.50"`).
pub fn strip_commas(s: &str) -> (r: String)
    ensures
        r@ == strip_commas_spec(s@),
{
    let n = s.unicode_len();
    let mut out = String::new();
    let mut i: usize = 0;
    while i < n
        invariant
            n == s@.len(),
            i <= n,
            out@ == strip_commas_spec(s@.take(i as int)),
        decreases n - i,
    {
        let c = s.get_char(i);
        proof {
            assert(s@.take(i + 1).drop_last() =~= s@.take(i as int));
            reveal(Seq::filter);
        }
        if c != ',' {
            push_char(&mut out, c);
        }
        i = i + 1;
    }
    assert(s@.take(n as int) =~= s@);
    out
}

// ── Columns ────────────────────────────────────────────────────────────

/// A wanted column: the aliases of its header, tried in order, and, for a
/// required column, the message of the error when none of them is there.
pub struct ColumnSpec {
    pub aliases: Vec<&'static str>,
    pub missing: Option<&'static str>,
}

/// Plain-value view of a column list.
pub open spec fn specs_view(s: Seq<ColumnSpec>) -> Seq<(Seq<Seq<char>>, Option<Seq<char>>)> {
    s.map_values(
        |c: ColumnSpec|
            (
                aliases_view(c.aliases@),
                match c.missing {
                    Some(m) => Some(m@),
                    None => None,
                },
            ),
    )
}

/// The column of each wanted field among the headers, or the message of
/// the first required one (in the order given) that is missing.
pub open spec fn columns_spec(hs: Seq<Seq<char>>, specs: Seq<(Seq<Seq<char>>, Option<Seq<char>>)>) -> Result<
    Seq<Option<int>>,
    Seq<char>,
>
    decreases specs.len(),
{
    if specs.len() == 0 {
        Ok(Seq::empty())
    } else {
        match columns_spec(hs, specs.drop_last()) {
            Err(m) => Err(m),
            Ok(cols) => {
                let c = find_col_spec(hs, specs.last().0);
                match specs.last().1 {
                    Some(m) => if c is None {
                        Err(m)
                    } else {
                        Ok(cols.push(c))
                    },
                    None => Ok(cols.push(c)),
                }
            },
        }
    }
}

proof fn lemma_columns_err_sticks(
    hs: Seq<Seq<char>>,
    s: Seq<(Seq<Seq<char>>, Option<Seq<char>>)>,
    k: int,
)
    requires
        0 <= k <= s.len(),
        columns_spec(hs, s.take(k)) is Err,
    ensures
        columns_spec(hs, s) == columns_spec(hs, s.take(k)),
    decreases s.len(),
{
    if k < s.len() {
        assert(s.drop_last().take(k) =~= s.take(k));
        lemma_columns_err_sticks(hs, s.drop_last(), k);
    } else {
        assert(s.take(k) =~= s);
    }
}

/// Plain-value view of the located columns.
pub open spec fn cols_view(c: Seq<Option<usize>>) -> Seq<Option<int>> {
    c.map_values(|o: Option<usize>| opt_index(o))
}

/// Finds each wanted column among the normalised headers; a missing
/// required column is a parse error with its message, the first such in the
/// order given.
pub fn locate_columns(headers: &[String], specs: &[ColumnSpec]) -> (r: Result<Vec<Option<usize>>, AppError>)
    ensures
        match columns_spec(names_view(headers@), specs_view(specs@)) {
            Ok(cols) => r matches Ok(v) && cols_view(v@) == cols,
            Err(m) => r matches Err(AppError::Parse(x)) && x@ == m,
        },
{
    let ghost hs = names_view(headers@);
    let ghost sv = specs_view(specs@);
    let n = specs.len();
    let mut cols: Vec<Option<usize>> = Vec::new();
    let mut i: usize = 0;
    assert(sv.take(0) =~= Seq::<(Seq<Seq<char>>, Option<Seq<char>>)>::empty());
    assert(cols_view(cols@) =~= Seq::<Option<int>>::empty());
    while i < n
        invariant
            n == specs@.len(),
            hs == names_view(headers@),
            sv == specs_view(specs@),
            i <= n,
            columns_spec(hs, sv.take(i as int)) == Ok::<Seq<Option<int>>, Seq<char>>(cols_view(cols@)),
        decreases n - i,
    {
        let ghost pre = sv.take(i as int);
        assert(sv.take(i + 1).drop_last() =~= pre);
        assert(sv.take(i + 1).last() == sv[i as int]);
        let c = find_col(headers, specs[i].aliases.as_slice());
        match specs[i].missing {
            Some(m) => {
                if c.is_none() {
                    proof {
                        lemma_columns_err_sticks(hs, sv, i + 1);
                    }
                    return Err(AppError::Parse(String::from_str(m)));
                }
            },
            None => {},
        }
        let ghost before = cols@;
        cols.push(c);
        assert(cols_view(cols@) =~= cols_view(before).push(opt_index(c)));
        i = i + 1;
    }
    assert(sv.take(n as int) =~= sv);
    Ok(cols)
}

// ── The grid ───────────────────────────────────────────────────────────

/// The cells of one record in the wanted columns.
pub open spec fn row_cells_spec(rec: Seq<Seq<char>>, cols: Seq<Option<int>>) -> Seq<Option<Seq<char>>> {
    cols.map_values(|c: Option<int>| pick_spec(rec, c))
}

/// The grid of a read document: the header row's error, else the first
/// missing required column, else the records' error, else the cells of
/// every record in the wanted columns. An error is its message.
pub open spec fn grid_spec(
    t: (Result<Seq<Seq<char>>, Seq<char>>, Result<Seq<Seq<Seq<char>>>, Seq<char>>),
    specs: Seq<(Seq<Seq<char>>, Option<Seq<char>>)>,
) -> Result<Seq<Seq<Option<Seq<char>>>>, Seq<char>> {
    match t.0 {
        Err(e) => Err(e),
        Ok(raw) => match columns_spec(raw.map_values(|h: Seq<char>| normalize_header_spec(h)), specs) {
            Err(m) => Err(m),
            Ok(cols) => match t.1 {
                Err(e) => Err(e),
                Ok(recs) => Ok(recs.map_values(|rec: Seq<Seq<char>>| row_cells_spec(rec, cols))),
            },
        },
    }
}

/// Every header name in normal form.
fn normalize_all(raw: &Vec<String>) -> (r: Vec<String>)
    ensures
        names_view(r@) == texts_view(raw@).map_values(|h: Seq<char>| normalize_header_spec(h)),
{
    let n = raw.len();
    let mut out: Vec<String> = Vec::new();
    let mut i: usize = 0;
    while i < n
        invariant
            n == raw@.len(),
            i <= n,
            out@.len() == i,
            forall|k: int| 0 <= k < i ==> #[trigger] out@[k]@ == normalize_header_spec(raw@[k]@),
        decreases n - i,
    {
        let h = normalize_header(raw[i].as_str());
        out.push(h);
        i = i + 1;
    }
    assert(names_view(out@) =~= texts_view(raw@).map_values(|h: Seq<char>| normalize_header_spec(h)));
    out
}

/// The cells of one record in the located columns.
fn row_cells(record: &Vec<String>, cols: &Vec<Option<usize>>) -> (r: Vec<Option<String>>)
    ensures
        row_view(r@) == row_cells_spec(texts_view(record@), cols_view(cols@)),
{
    let n = cols.len();
    let mut out: Vec<Option<String>> = Vec::new();
    let mut j: usize = 0;
    while j < n
        invariant
            n == cols@.len(),
            j <= n,
            out@.len() == j,
            forall|k: int|
                0 <= k < j ==> opt_text(#[trigger] out@[k]) == pick_spec(
                    texts_view(record@),
                    opt_index(cols@[k]),
                ),
        decreases n - j,
    {
        let c = match cols[j] {
            Some(k) => Some(cell(record, k)),
            None => None,
        };
        out.push(c);
        j = j + 1;
    }
    assert(row_view(out@) =~= row_cells_spec(texts_view(record@), cols_view(cols@)));
    out
}

/// The grid of a read document (see `grid_spec`); an error is a parse
/// error with the message.
pub fn table_grid(table: &CsvTable, specs: &[ColumnSpec]) -> (r: Result<Vec<Vec<Option<String>>>, AppError>)
    ensures
        match grid_spec(table@, specs_view(specs@)) {
            Ok(g) => r matches Ok(v) && grid_view(v@) == g,
            Err(m) => r matches Err(AppError::Parse(x)) && x@ == m,
        },
{
    let raw = match &table.headers {
        Ok(h) => h,
        Err(e) => {
            return Err(AppError::Parse(e.clone()));
        },
    };
    let headers = normalize_all(raw);
    let cols = match locate_columns(headers.as_slice(), specs) {
        Ok(c) => c,
        Err(e) => {
            return Err(e);
        },
    };
    let recs = match &table.records {
        Ok(v) => v,
        Err(e) => {
            return Err(AppError::Parse(e.clone()));
        },
    };
    let ghost cv = cols_view(cols@);
    let n = recs.len();
    let mut grid: Vec<Vec<Option<String>>> = Vec::new();
    let mut i: usize = 0;
    while i < n
        invariant
            n == recs@.len(),
            cv == cols_view(cols@),
            i <= n,
            grid@.len() == i,
            forall|k: int|
                0 <= k < i ==> row_view(#[trigger] grid@[k]@) == row_cells_spec(texts_view(recs@[k]@), cv),
        decreases n - i,
    {
        let row = row_cells(&recs[i], &cols);
        grid.push(row);
        i = i + 1;
    }
    proof {
        let g = recs@.map_values(|rec: Vec<String>| texts_view(rec@)).map_values(
            |rec: Seq<Seq<char>>| row_cells_spec(rec, cv),
        );
        assert(grid_view(grid@) =~= g);
    }
    Ok(grid)
}

/// Reads an uploaded CSV text into the grid of the wanted columns (see
/// `table_grid`).
pub fn read_grid(content: &str, specs: &[ColumnSpec]) -> (r: Result<Vec<Vec<Option<String>>>, AppError>)
    ensures
        match grid_spec(csv_table_spec(content@), specs_view(specs@)) {
            Ok(g) => r matches Ok(v) && grid_view(v@) == g,
            Err(m) => r matches Err(AppError::Parse(x)) && x@ == m,
        },
{
    let t = read_csv(content);
    table_grid(&t, specs)
}

} // verus!
