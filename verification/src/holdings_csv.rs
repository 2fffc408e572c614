//! The holdings exports the app imports from CSV: broker equity holdings,
//! mutual funds, fixed deposits, gold, crypto, bonds and PPF/EPF accounts.
//! Each has its wanted columns (with the aliases their headers go by) and a
//! rule for which records are kept. Numbers stay text here, with thousands
//! separators removed: what reads them as decimal numbers, and the checks on
//! their values, belong to the caller.

use vstd::prelude::*;
use vstd::string::*;
use crate::error::AppError;
use crate::csv_import::{
    equity_aliases, equity_aliases_spec, lemma_recognizes_own_aliases, parse_bool, parse_bool_int, parse_bool_spec,
    recognizes_exactly,
};
use crate::csv_table::{
    csv_table_spec, grid_spec, grid_view, opt_text, read_grid, row_view, specs_view, strip_commas,
    strip_commas_spec, ColumnSpec,
};
use crate::text::{lowercase_spec, str_eq, to_lowercase, to_uppercase, uppercase_spec};

verus! {

// ── Reading a grid row ─────────────────────────────────────────────────

/// The text of a required column (empty if the row has no such cell).
pub open spec fn text_at(r: Seq<Option<Seq<char>>>, k: int) -> Seq<char> {
    if 0 <= k < r.len() {
        match r[k] {
            Some(t) => t,
            None => Seq::empty(),
        }
    } else {
        Seq::empty()
    }
}

/// The cell of an optional column: none when the column is absent.
pub open spec fn opt_at(r: Seq<Option<Seq<char>>>, k: int) -> Option<Seq<char>> {
    if 0 <= k < r.len() {
        r[k]
    } else {
        None
    }
}

/// A non-empty cell of an optional column.
pub open spec fn filled_at(r: Seq<Option<Seq<char>>>, k: int) -> Option<Seq<char>> {
    match opt_at(r, k) {
        Some(t) => if t.len() == 0 {
            None
        } else {
            Some(t)
        },
        None => None,
    }
}

/// The number text of an optional column, without thousands separators.
pub open spec fn number_at(r: Seq<Option<Seq<char>>>, k: int) -> Option<Seq<char>> {
    match opt_at(r, k) {
        Some(t) => Some(strip_commas_spec(t)),
        None => None,
    }
}

fn text_of(row: &Vec<Option<String>>, k: usize) -> (t: String)
    ensures
        t@ == text_at(row_view(row@), k as int),
{
    if k < row.len() {
        match &row[k] {
            Some(s) => s.clone(),
            None => String::new(),
        }
    } else {
        String::new()
    }
}

fn opt_of(row: &Vec<Option<String>>, k: usize) -> (o: Option<String>)
    ensures
        opt_text(o) == opt_at(row_view(row@), k as int),
{
    if k < row.len() {
        match &row[k] {
            Some(s) => Some(s.clone()),
            None => None,
        }
    } else {
        None
    }
}

fn filled_of(row: &Vec<Option<String>>, k: usize) -> (o: Option<String>)
    ensures
        opt_text(o) == filled_at(row_view(row@), k as int),
{
    match opt_of(row, k) {
        Some(s) => if s.as_str().unicode_len() == 0 {
            None
        } else {
            Some(s)
        },
        None => None,
    }
}

fn number_of(row: &Vec<Option<String>>, k: usize) -> (o: Option<String>)
    ensures
        opt_text(o) == number_at(row_view(row@), k as int),
{
    match opt_of(row, k) {
        Some(s) => Some(strip_commas(s.as_str())),
        None => None,
    }
}

fn required(aliases: Vec<&'static str>, missing: &'static str) -> (c: ColumnSpec)
    ensures
        c.aliases@ == aliases@,
        c.missing == Some(missing),
{
    ColumnSpec { aliases, missing: Some(missing) }
}

fn optional(aliases: Vec<&'static str>) -> (c: ColumnSpec)
    ensures
        c.aliases@ == aliases@,
        c.missing is None,
{
    ColumnSpec { aliases, missing: None }
}

// ── Equity holdings ────────────────────────────────────────────────────

/// The columns of a broker's equity export: symbol, quantity, average
/// price (required, in that order), last price, exchange, ISIN.
pub open spec fn equity_specs_spec(broker: Seq<char>) -> Seq<(Seq<Seq<char>>, Option<Seq<char>>)> {
    let al = equity_aliases_spec(broker);
    seq![
        (al.symbol, Some("Symbol column not found in CSV"@)),
        (al.quantity, Some("Quantity column not found in CSV"@)),
        (al.avg_price, Some("Average price column not found in CSV"@)),
        (al.ltp, None),
        (al.exchange, None),
        (al.isin, None),
    ]
}

/// The columns of a broker's equity export (see `equity_specs_spec`).
pub fn equity_specs(broker: &str) -> (s: Vec<ColumnSpec>)
    ensures
        specs_view(s@) == equity_specs_spec(broker@),
{
    let al = equity_aliases(broker);
    let s = vec![
        required(al.symbol, "Symbol column not found in CSV"),
        required(al.quantity, "Quantity column not found in CSV"),
        required(al.avg_price, "Average price column not found in CSV"),
        optional(al.ltp),
        optional(al.exchange),
        optional(al.isin),
    ];
    assert(specs_view(s@) =~= equity_specs_spec(broker@));
    s
}

/// One equity holding as text: the quantity, average price and last price
/// are number texts without thousands separators.
#[derive(Debug)]
pub struct EquityCsvCells {
    pub symbol: String,
    pub isin: Option<String>,
    pub quantity: String,
    pub avg_price: String,
    pub ltp: Option<String>,
    pub exchange: Option<String>,
}

/// Whether a record of the equity export is kept: its symbol is not empty.
pub open spec fn equity_kept(r: Seq<Option<Seq<char>>>) -> bool {
    text_at(r, 0).len() > 0
}

/// The holding read from a record of the equity export.
pub open spec fn equity_cells_of(r: Seq<Option<Seq<char>>>, c: EquityCsvCells) -> bool {
    &&& c.symbol@ == text_at(r, 0)
    &&& c.quantity@ == strip_commas_spec(text_at(r, 1))
    &&& c.avg_price@ == strip_commas_spec(text_at(r, 2))
    &&& opt_text(c.ltp) == number_at(r, 3)
    &&& opt_text(c.exchange) == filled_at(r, 4)
    &&& opt_text(c.isin) == filled_at(r, 5)
}

/// The holding of one record of the equity export, none when its symbol is
/// empty.
pub fn equity_row(row: &Vec<Option<String>>) -> (r: Option<EquityCsvCells>)
    ensures
        r is Some <==> equity_kept(row_view(row@)),
        r matches Some(c) ==> equity_cells_of(row_view(row@), c),
{
    let symbol = text_of(row, 0);
    if symbol.as_str().unicode_len() == 0 {
        return None;
    }
    let quantity = strip_commas(text_of(row, 1).as_str());
    let avg_price = strip_commas(text_of(row, 2).as_str());
    let ltp = number_of(row, 3);
    let exchange = filled_of(row, 4);
    let isin = filled_of(row, 5);
    Some(EquityCsvCells { symbol, isin, quantity, avg_price, ltp, exchange })
}

/// The holdings of every record of the equity export, in order; none for a
/// record that is not kept.
pub fn equity_rows(grid: &Vec<Vec<Option<String>>>) -> (r: Vec<Option<EquityCsvCells>>)
    ensures
        r@.len() == grid@.len(),
        forall|i: int|
            0 <= i < grid@.len() ==> (#[trigger] r@[i] is Some <==> equity_kept(row_view(grid@[i]@))),
        forall|i: int|
            0 <= i < grid@.len() ==> (#[trigger] r@[i] matches Some(c) ==> equity_cells_of(
                row_view(grid@[i]@),
                c,
            )),
{
    let n = grid.len();
    let mut out: Vec<Option<EquityCsvCells>> = Vec::new();
    let mut i: usize = 0;
    while i < n
        invariant
            n == grid@.len(),
            i <= n,
            out@.len() == i,
            forall|k: int| 0 <= k < i ==> (#[trigger] out@[k] is Some <==> equity_kept(row_view(grid@[k]@))),
            forall|k: int|
                0 <= k < i ==> (#[trigger] out@[k] matches Some(c) ==> equity_cells_of(row_view(grid@[k]@), c)),
        decreases n - i,
    {
        out.push(equity_row(&grid[i]));
        i = i + 1;
    }
    out
}

/// Reads a broker's equity holdings export: the grid of its columns (a
/// parse error when the document or a required column fails), then the
/// holding of each record whose symbol is not empty.
pub fn parse_equity_cells(broker: &str, content: &str) -> (r: Result<Vec<Option<EquityCsvCells>>, AppError>)
    ensures
        match grid_spec(csv_table_spec(content@), equity_specs_spec(broker@)) {
            Err(m) => r matches Err(AppError::Parse(x)) && x@ == m,
            Ok(g) => r matches Ok(v) && v@.len() == g.len() && (forall|i: int|
                0 <= i < g.len() ==> (#[trigger] v@[i] is Some <==> equity_kept(g[i]))) && (forall|i: int|
                0 <= i < g.len() ==> (#[trigger] v@[i] matches Some(c) ==> equity_cells_of(g[i], c))),
        },
{
    let specs = equity_specs(broker);
    match read_grid(content, specs.as_slice()) {
        Ok(grid) => {
            let rows = equity_rows(&grid);
            assert forall|i: int| 0 <= i < grid@.len() implies row_view(grid@[i]@) == grid_view(grid@)[i] by {}
            Ok(rows)
        },
        Err(e) => Err(e),
    }
}

// ── Mutual funds ───────────────────────────────────────────────────────

/// The columns of the mutual fund export: scheme, ISIN, folio, units and
/// average NAV (required, in that order), current NAV, direct plan, growth
/// option, AMC.
pub open spec fn mf_specs_spec() -> Seq<(Seq<Seq<char>>, Option<Seq<char>>)> {
    seq![
        (seq!["scheme_name"@, "fund_name"@, "scheme"@], Some("scheme_name column not found"@)),
        (seq!["isin"@], Some("isin column not found"@)),
        (seq!["folio_number"@, "folio"@], Some("folio_number column not found"@)),
        (seq!["units"@, "nav_units"@], Some("units column not found"@)),
        (seq!["avg_nav"@, "average_nav"@, "purchase_nav"@, "cost_nav"@], Some("avg_nav column not found"@)),
        (seq!["current_nav"@, "nav"@, "lnav"@], None),
        (seq!["is_direct"@, "direct"@], None),
        (seq!["is_growth"@, "growth"@], None),
        (seq!["amc_name"@, "amc"@, "fund_house"@], None),
    ]
}

/// The columns of the mutual fund export (see `mf_specs_spec`).
pub fn mf_specs() -> (s: Vec<ColumnSpec>)
    ensures
        specs_view(s@) == mf_specs_spec(),
{
    let s = vec![
        required(vec!["scheme_name", "fund_name", "scheme"], "scheme_name column not found"),
        required(vec!["isin"], "isin column not found"),
        required(vec!["folio_number", "folio"], "folio_number column not found"),
        required(vec!["units", "nav_units"], "units column not found"),
        required(vec!["avg_nav", "average_nav", "purchase_nav", "cost_nav"], "avg_nav column not found"),
        optional(vec!["current_nav", "nav", "lnav"]),
        optional(vec!["is_direct", "direct"]),
        optional(vec!["is_growth", "growth"]),
        optional(vec!["amc_name", "amc", "fund_house"]),
    ];
    assert(specs_view(s@) =~~= mf_specs_spec());
    s
}

/// The mutual fund export is read by the header names it uses: for every
/// header row, each column is found whenever a header has one of the names
/// below, and only at such a header; the columns marked required make the
/// import fail when absent.
pub proof fn law_mf_export_headers()
    ensures
        mf_specs_spec().len() == 9,
        recognizes_exactly(mf_specs_spec()[0].0, seq!["scheme_name"@, "fund_name"@, "scheme"@]),
        mf_specs_spec()[0].1 is Some,
        recognizes_exactly(mf_specs_spec()[1].0, seq!["isin"@]),
        mf_specs_spec()[1].1 is Some,
        recognizes_exactly(mf_specs_spec()[2].0, seq!["folio_number"@, "folio"@]),
        mf_specs_spec()[2].1 is Some,
        recognizes_exactly(mf_specs_spec()[3].0, seq!["units"@, "nav_units"@]),
        mf_specs_spec()[3].1 is Some,
        recognizes_exactly(mf_specs_spec()[4].0, seq!["avg_nav"@, "average_nav"@, "purchase_nav"@, "cost_nav"@]),
        mf_specs_spec()[4].1 is Some,
        recognizes_exactly(mf_specs_spec()[5].0, seq!["current_nav"@, "nav"@, "lnav"@]),
        mf_specs_spec()[5].1 is None,
        recognizes_exactly(mf_specs_spec()[6].0, seq!["is_direct"@, "direct"@]),
        mf_specs_spec()[6].1 is None,
        recognizes_exactly(mf_specs_spec()[7].0, seq!["is_growth"@, "growth"@]),
        mf_specs_spec()[7].1 is None,
        recognizes_exactly(mf_specs_spec()[8].0, seq!["amc_name"@, "amc"@, "fund_house"@]),
        mf_specs_spec()[8].1 is None,
{
    let sp = mf_specs_spec();
    assert forall|k: int| 0 <= k < sp.len() implies recognizes_exactly(#[trigger] sp[k].0, sp[k].0) by {
        lemma_recognizes_own_aliases(sp[k].0);
    }
    assert(recognizes_exactly(sp[0].0, sp[0].0));
    assert(recognizes_exactly(sp[1].0, sp[1].0));
    assert(recognizes_exactly(sp[2].0, sp[2].0));
    assert(recognizes_exactly(sp[3].0, sp[3].0));
    assert(recognizes_exactly(sp[4].0, sp[4].0));
    assert(recognizes_exactly(sp[5].0, sp[5].0));
    assert(recognizes_exactly(sp[6].0, sp[6].0));
    assert(recognizes_exactly(sp[7].0, sp[7].0));
    assert(recognizes_exactly(sp[8].0, sp[8].0));
}

/// One mutual fund holding as text; units and NAVs are number texts.
#[derive(Debug)]
pub struct MfCsvCells {
    pub scheme_name: String,
    pub isin: String,
    pub folio_number: String,
    pub units: String,
    pub avg_nav: String,
    pub current_nav: Option<String>,
    pub is_direct: bool,
    pub is_growth: bool,
    pub amc_name: String,
}

/// Whether a record of the mutual fund export is kept: scheme, ISIN and
/// folio are not empty.
pub open spec fn mf_kept(r: Seq<Option<Seq<char>>>) -> bool {
    text_at(r, 0).len() > 0 && text_at(r, 1).len() > 0 && text_at(r, 2).len() > 0
}

/// A yes/no cell of an optional column, `default` when the column is absent.
pub open spec fn flag_at(r: Seq<Option<Seq<char>>>, k: int, default: bool) -> bool {
    match opt_at(r, k) {
        Some(t) => parse_bool_spec(t),
        None => default,
    }
}

/// The holding read from a record of the mutual fund export: not a direct
/// plan and a growth option unless the columns say otherwise, the AMC
/// `Unknown` when not given.
pub open spec fn mf_cells_of(r: Seq<Option<Seq<char>>>, c: MfCsvCells) -> bool {
    &&& c.scheme_name@ == text_at(r, 0)
    &&& c.isin@ == text_at(r, 1)
    &&& c.folio_number@ == text_at(r, 2)
    &&& c.units@ == strip_commas_spec(text_at(r, 3))
    &&& c.avg_nav@ == strip_commas_spec(text_at(r, 4))
    &&& opt_text(c.current_nav) == number_at(r, 5)
    &&& c.is_direct == flag_at(r, 6, false)
    &&& c.is_growth == flag_at(r, 7, true)
    &&& c.amc_name@ == match filled_at(r, 8) {
        Some(t) => t,
        None => "Unknown"@,
    }
}

fn flag_of(row: &Vec<Option<String>>, k: usize, default: bool) -> (b: bool)
    ensures
        b == flag_at(row_view(row@), k as int, default),
{
    match opt_of(row, k) {
        Some(t) => parse_bool(t.as_str()),
        None => default,
    }
}

/// The holding of one record of the mutual fund export, none when scheme,
/// ISIN or folio is empty.
pub fn mf_row(row: &Vec<Option<String>>) -> (r: Option<MfCsvCells>)
    ensures
        r is Some <==> mf_kept(row_view(row@)),
        r matches Some(c) ==> mf_cells_of(row_view(row@), c),
{
    let scheme_name = text_of(row, 0);
    let isin = text_of(row, 1);
    let folio_number = text_of(row, 2);
    if scheme_name.as_str().unicode_len() == 0 || isin.as_str().unicode_len() == 0
        || folio_number.as_str().unicode_len() == 0 {
        return None;
    }
    let units = strip_commas(text_of(row, 3).as_str());
    let avg_nav = strip_commas(text_of(row, 4).as_str());
    let current_nav = number_of(row, 5);
    let is_direct = flag_of(row, 6, false);
    let is_growth = flag_of(row, 7, true);
    let amc_name = match filled_of(row, 8) {
        Some(t) => t,
        None => String::from_str("Unknown"),
    };
    Some(MfCsvCells { scheme_name, isin, folio_number, units, avg_nav, current_nav, is_direct, is_growth, amc_name })
}

/// The holdings of every record of the mutual fund export, in order; none
/// for a record that is not kept.
pub fn mf_rows(grid: &Vec<Vec<Option<String>>>) -> (r: Vec<Option<MfCsvCells>>)
    ensures
        r@.len() == grid@.len(),
        forall|i: int| 0 <= i < grid@.len() ==> (#[trigger] r@[i] is Some <==> mf_kept(row_view(grid@[i]@))),
        forall|i: int|
            0 <= i < grid@.len() ==> (#[trigger] r@[i] matches Some(c) ==> mf_cells_of(row_view(grid@[i]@), c)),
{
    let n = grid.len();
    let mut out: Vec<Option<MfCsvCells>> = Vec::new();
    let mut i: usize = 0;
    while i < n
        invariant
            n == grid@.len(),
            i <= n,
            out@.len() == i,
            forall|k: int| 0 <= k < i ==> (#[trigger] out@[k] is Some <==> mf_kept(row_view(grid@[k]@))),
            forall|k: int| 0 <= k < i ==> (#[trigger] out@[k] matches Some(c) ==> mf_cells_of(row_view(grid@[k]@), c)),
        decreases n - i,
    {
        out.push(mf_row(&grid[i]));
        i = i + 1;
    }
    out
}

/// Reads the mutual fund export: the grid of its columns (a parse error
/// when the document or a required column fails), then the holding of each
/// record that is kept.
pub fn parse_mf_cells(content: &str) -> (r: Result<Vec<Option<MfCsvCells>>, AppError>)
    ensures
        match grid_spec(csv_table_spec(content@), mf_specs_spec()) {
            Err(m) => r matches Err(AppError::Parse(x)) && x@ == m,
            Ok(g) => r matches Ok(v) && v@.len() == g.len() && (forall|i: int|
                0 <= i < g.len() ==> (#[trigger] v@[i] is Some <==> mf_kept(g[i]))) && (forall|i: int|
                0 <= i < g.len() ==> (#[trigger] v@[i] matches Some(c) ==> mf_cells_of(g[i], c))),
        },
{
    let specs = mf_specs();
    match read_grid(content, specs.as_slice()) {
        Ok(grid) => {
            let rows = mf_rows(&grid);
            assert forall|i: int| 0 <= i < grid@.len() implies row_view(grid@[i]@) == grid_view(grid@)[i] by {}
            Ok(rows)
        },
        Err(e) => Err(e),
    }
}

// ── Fixed deposits ─────────────────────────────────────────────────────

/// The columns of the fixed deposit export: bank (required), account
/// number, principal and rate (required), compounding, tenure, start and
/// maturity date (required), maturity amount, cumulative.
pub open spec fn fd_specs_spec() -> Seq<(Seq<Seq<char>>, Option<Seq<char>>)> {
    seq![
        (seq!["bank_name"@, "bank"@], Some("bank_name column not found"@)),
        (seq!["account_number"@, "account_no"@, "acct_number"@], None),
        (seq!["principal"@, "deposit_amount"@, "amount"@], Some("principal column not found"@)),
        (seq!["interest_rate"@, "rate"@, "roi"@], Some("interest_rate column not found"@)),
        (seq!["compounding"@, "compound_frequency"@], None),
        (seq!["tenure_months"@, "tenure"@, "months"@], Some("tenure_months column not found"@)),
        (seq!["start_date"@, "open_date"@, "issue_date"@], Some("start_date column not found"@)),
        (seq!["maturity_date"@, "maturity"@], Some("maturity_date column not found"@)),
        (seq!["maturity_amount"@, "maturity_value"@], None),
        (seq!["is_cumulative"@, "cumulative"@], None),
    ]
}

/// The columns of the fixed deposit export (see `fd_specs_spec`).
pub fn fd_specs() -> (s: Vec<ColumnSpec>)
    ensures
        specs_view(s@) == fd_specs_spec(),
{
    let s = vec![
        required(vec!["bank_name", "bank"], "bank_name column not found"),
        optional(vec!["account_number", "account_no", "acct_number"]),
        required(vec!["principal", "deposit_amount", "amount"], "principal column not found"),
        required(vec!["interest_rate", "rate", "roi"], "interest_rate column not found"),
        optional(vec!["compounding", "compound_frequency"]),
        required(vec!["tenure_months", "tenure", "months"], "tenure_months column not found"),
        required(vec!["start_date", "open_date", "issue_date"], "start_date column not found"),
        required(vec!["maturity_date", "maturity"], "maturity_date column not found"),
        optional(vec!["maturity_amount", "maturity_value"]),
        optional(vec!["is_cumulative", "cumulative"]),
    ];
    assert(specs_view(s@) =~~= fd_specs_spec());
    s
}

/// The fixed deposit export is read by the header names it uses: for every
/// header row, each column is found whenever a header has one of the names
/// below, and only at such a header; the columns marked required make the
/// import fail when absent.
pub proof fn law_fd_export_headers()
    ensures
        fd_specs_spec().len() == 10,
        recognizes_exactly(fd_specs_spec()[0].0, seq!["bank_name"@, "bank"@]),
        fd_specs_spec()[0].1 is Some,
        recognizes_exactly(fd_specs_spec()[1].0, seq!["account_number"@, "account_no"@, "acct_number"@]),
        fd_specs_spec()[1].1 is None,
        recognizes_exactly(fd_specs_spec()[2].0, seq!["principal"@, "deposit_amount"@, "amount"@]),
        fd_specs_spec()[2].1 is Some,
        recognizes_exactly(fd_specs_spec()[3].0, seq!["interest_rate"@, "rate"@, "roi"@]),
        fd_specs_spec()[3].1 is Some,
        recognizes_exactly(fd_specs_spec()[4].0, seq!["compounding"@, "compound_frequency"@]),
        fd_specs_spec()[4].1 is None,
        recognizes_exactly(fd_specs_spec()[5].0, seq!["tenure_months"@, "tenure"@, "months"@]),
        fd_specs_spec()[5].1 is Some,
        recognizes_exactly(fd_specs_spec()[6].0, seq!["start_date"@, "open_date"@, "issue_date"@]),
        fd_specs_spec()[6].1 is Some,
        recognizes_exactly(fd_specs_spec()[7].0, seq!["maturity_date"@, "maturity"@]),
        fd_specs_spec()[7].1 is Some,
        recognizes_exactly(fd_specs_spec()[8].0, seq!["maturity_amount"@, "maturity_value"@]),
        fd_specs_spec()[8].1 is None,
        recognizes_exactly(fd_specs_spec()[9].0, seq!["is_cumulative"@, "cumulative"@]),
        fd_specs_spec()[9].1 is None,
{
    let sp = fd_specs_spec();
    assert forall|k: int| 0 <= k < sp.len() implies recognizes_exactly(#[trigger] sp[k].0, sp[k].0) by {
        lemma_recognizes_own_aliases(sp[k].0);
    }
    assert(recognizes_exactly(sp[0].0, sp[0].0));
    assert(recognizes_exactly(sp[1].0, sp[1].0));
    assert(recognizes_exactly(sp[2].0, sp[2].0));
    assert(recognizes_exactly(sp[3].0, sp[3].0));
    assert(recognizes_exactly(sp[4].0, sp[4].0));
    assert(recognizes_exactly(sp[5].0, sp[5].0));
    assert(recognizes_exactly(sp[6].0, sp[6].0));
    assert(recognizes_exactly(sp[7].0, sp[7].0));
    assert(recognizes_exactly(sp[8].0, sp[8].0));
    assert(recognizes_exactly(sp[9].0, sp[9].0));
}

/// One fixed deposit as text; principal, rate, tenure and maturity amount
/// are number texts.
#[derive(Debug)]
pub struct FdCsvCells {
    pub bank_name: String,
    pub account_number: Option<String>,
    pub principal: String,
    pub interest_rate: String,
    pub compounding: String,
    pub tenure_months: String,
    pub start_date: String,
    pub maturity_date: String,
    pub maturity_amount: Option<String>,
    pub is_cumulative: i64,
}

/// Whether a record of the fixed deposit export is kept: bank, start date
/// and maturity date are not empty.
pub open spec fn fd_kept(r: Seq<Option<Seq<char>>>) -> bool {
    text_at(r, 0).len() > 0 && text_at(r, 6).len() > 0 && text_at(r, 7).len() > 0
}

/// The deposit read from a record of the fixed deposit export: compounded
/// quarterly and cumulative unless the columns say otherwise.
pub open spec fn fd_cells_of(r: Seq<Option<Seq<char>>>, c: FdCsvCells) -> bool {
    &&& c.bank_name@ == text_at(r, 0)
    &&& opt_text(c.account_number) == filled_at(r, 1)
    &&& c.principal@ == strip_commas_spec(text_at(r, 2))
    &&& c.interest_rate@ == strip_commas_spec(text_at(r, 3))
    &&& c.compounding@ == match filled_at(r, 4) {
        Some(t) => t,
        None => "quarterly"@,
    }
    &&& c.tenure_months@ == strip_commas_spec(text_at(r, 5))
    &&& c.start_date@ == text_at(r, 6)
    &&& c.maturity_date@ == text_at(r, 7)
    &&& opt_text(c.maturity_amount) == number_at(r, 8)
    &&& c.is_cumulative == (if flag_at(r, 9, true) {
        1i64
    } else {
        0i64
    })
}

/// The deposit of one record of the fixed deposit export, none when bank,
/// start date or maturity date is empty.
pub fn fd_row(row: &Vec<Option<String>>) -> (r: Option<FdCsvCells>)
    ensures
        r is Some <==> fd_kept(row_view(row@)),
        r matches Some(c) ==> fd_cells_of(row_view(row@), c),
{
    let bank_name = text_of(row, 0);
    let start_date = text_of(row, 6);
    let maturity_date = text_of(row, 7);
    if bank_name.as_str().unicode_len() == 0 || start_date.as_str().unicode_len() == 0
        || maturity_date.as_str().unicode_len() == 0 {
        return None;
    }
    let account_number = filled_of(row, 1);
    let principal = strip_commas(text_of(row, 2).as_str());
    let interest_rate = strip_commas(text_of(row, 3).as_str());
    let compounding = match filled_of(row, 4) {
        Some(t) => t,
        None => String::from_str("quarterly"),
    };
    let tenure_months = strip_commas(text_of(row, 5).as_str());
    let maturity_amount = number_of(row, 8);
    let is_cumulative = match opt_of(row, 9) {
        Some(t) => parse_bool_int(t.as_str()),
        None => 1,
    };
    Some(
        FdCsvCells {
            bank_name,
            account_number,
            principal,
            interest_rate,
            compounding,
            tenure_months,
            start_date,
            maturity_date,
            maturity_amount,
            is_cumulative,
        },
    )
}

/// The deposits of every record of the fixed deposit export, in order;
/// none for a record that is not kept.
pub fn fd_rows(grid: &Vec<Vec<Option<String>>>) -> (r: Vec<Option<FdCsvCells>>)
    ensures
        r@.len() == grid@.len(),
        forall|i: int| 0 <= i < grid@.len() ==> (#[trigger] r@[i] is Some <==> fd_kept(row_view(grid@[i]@))),
        forall|i: int|
            0 <= i < grid@.len() ==> (#[trigger] r@[i] matches Some(c) ==> fd_cells_of(row_view(grid@[i]@), c)),
{
    let n = grid.len();
    let mut out: Vec<Option<FdCsvCells>> = Vec::new();
    let mut i: usize = 0;
    while i < n
        invariant
            n == grid@.len(),
            i <= n,
            out@.len() == i,
            forall|k: int| 0 <= k < i ==> (#[trigger] out@[k] is Some <==> fd_kept(row_view(grid@[k]@))),
            forall|k: int| 0 <= k < i ==> (#[trigger] out@[k] matches Some(c) ==> fd_cells_of(row_view(grid@[k]@), c)),
        decreases n - i,
    {
        out.push(fd_row(&grid[i]));
        i = i + 1;
    }
    out
}

/// Reads the fixed deposit export: the grid of its columns (a parse error
/// when the document or a required column fails), then the deposit of each
/// record that is kept.
pub fn parse_fd_cells(content: &str) -> (r: Result<Vec<Option<FdCsvCells>>, AppError>)
    ensures
        match grid_spec(csv_table_spec(content@), fd_specs_spec()) {
            Err(m) => r matches Err(AppError::Parse(x)) && x@ == m,
            Ok(g) => r matches Ok(v) && v@.len() == g.len() && (forall|i: int|
                0 <= i < g.len() ==> (#[trigger] v@[i] is Some <==> fd_kept(g[i]))) && (forall|i: int|
                0 <= i < g.len() ==> (#[trigger] v@[i] matches Some(c) ==> fd_cells_of(g[i], c))),
        },
{
    let specs = fd_specs();
    match read_grid(content, specs.as_slice()) {
        Ok(grid) => {
            let rows = fd_rows(&grid);
            assert forall|i: int| 0 <= i < grid@.len() implies row_view(grid@[i]@) == grid_view(grid@)[i] by {}
            Ok(rows)
        },
        Err(e) => Err(e),
    }
}

// ── Gold ───────────────────────────────────────────────────────────────

/// The gold holding kinds the app knows.
pub open spec fn gold_type_word(t: Seq<char>) -> bool {
    t == "physical"@ || t == "digital"@ || t == "etf"@ || t == "sgb"@
}

fn is_gold_type(t: &str) -> (b: bool)
    ensures
        b == gold_type_word(t@),
{
    str_eq(t, "physical") || str_eq(t, "digital") || str_eq(t, "etf") || str_eq(t, "sgb")
}

/// The columns of the gold export: kind (required), name, weight, purity,
/// units, average buying price (required).
pub open spec fn gold_specs_spec() -> Seq<(Seq<Seq<char>>, Option<Seq<char>>)> {
    seq![
        (seq!["gold_type"@, "type"@], Some("gold_type column not found"@)),
        (seq!["name"@, "fund_name"@, "scheme_name"@], None),
        (seq!["weight_grams"@, "weight"@, "grams"@], None),
        (seq!["purity"@], None),
        (seq!["units"@, "quantity"@, "qty"@], None),
        (
            seq!["avg_buy_price"@, "avg_price"@, "purchase_price"@, "buy_price"@],
            Some("avg_buy_price column not found"@),
        ),
    ]
}

/// The columns of the gold export (see `gold_specs_spec`).
pub fn gold_specs() -> (s: Vec<ColumnSpec>)
    ensures
        specs_view(s@) == gold_specs_spec(),
{
    let s = vec![
        required(vec!["gold_type", "type"], "gold_type column not found"),
        optional(vec!["name", "fund_name", "scheme_name"]),
        optional(vec!["weight_grams", "weight", "grams"]),
        optional(vec!["purity"]),
        optional(vec!["units", "quantity", "qty"]),
        required(vec!["avg_buy_price", "avg_price", "purchase_price", "buy_price"], "avg_buy_price column not found"),
    ];
    assert(specs_view(s@) =~~= gold_specs_spec());
    s
}

/// The gold export is read by the header names it uses: for every
/// header row, each column is found whenever a header has one of the names
/// below, and only at such a header; the columns marked required make the
/// import fail when absent.
pub proof fn law_gold_export_headers()
    ensures
        gold_specs_spec().len() == 6,
        recognizes_exactly(gold_specs_spec()[0].0, seq!["gold_type"@, "type"@]),
        gold_specs_spec()[0].1 is Some,
        recognizes_exactly(gold_specs_spec()[1].0, seq!["name"@, "fund_name"@, "scheme_name"@]),
        gold_specs_spec()[1].1 is None,
        recognizes_exactly(gold_specs_spec()[2].0, seq!["weight_grams"@, "weight"@, "grams"@]),
        gold_specs_spec()[2].1 is None,
        recognizes_exactly(gold_specs_spec()[3].0, seq!["purity"@]),
        gold_specs_spec()[3].1 is None,
        recognizes_exactly(gold_specs_spec()[4].0, seq!["units"@, "quantity"@, "qty"@]),
        gold_specs_spec()[4].1 is None,
        recognizes_exactly(gold_specs_spec()[5].0, seq!["avg_buy_price"@, "avg_price"@, "purchase_price"@, "buy_price"@]),
        gold_specs_spec()[5].1 is Some,
{
    let sp = gold_specs_spec();
    assert forall|k: int| 0 <= k < sp.len() implies recognizes_exactly(#[trigger] sp[k].0, sp[k].0) by {
        lemma_recognizes_own_aliases(sp[k].0);
    }
    assert(recognizes_exactly(sp[0].0, sp[0].0));
    assert(recognizes_exactly(sp[1].0, sp[1].0));
    assert(recognizes_exactly(sp[2].0, sp[2].0));
    assert(recognizes_exactly(sp[3].0, sp[3].0));
    assert(recognizes_exactly(sp[4].0, sp[4].0));
    assert(recognizes_exactly(sp[5].0, sp[5].0));
}

/// One gold holding as text; weight, units and price are number texts.
#[derive(Debug)]
pub struct GoldCsvCells {
    pub gold_type: String,
    pub name: Option<String>,
    pub weight_grams: Option<String>,
    pub purity: Option<String>,
    pub units: Option<String>,
    pub avg_buy_price: String,
}

/// Whether a record of the gold export is kept: its kind, lowercased, is
/// one the app knows.
pub open spec fn gold_kept(r: Seq<Option<Seq<char>>>) -> bool {
    gold_type_word(lowercase_spec(text_at(r, 0)))
}

/// The holding read from a record of the gold export; the kind lowercased.
pub open spec fn gold_cells_of(r: Seq<Option<Seq<char>>>, c: GoldCsvCells) -> bool {
    &&& c.gold_type@ == lowercase_spec(text_at(r, 0))
    &&& opt_text(c.name) == filled_at(r, 1)
    &&& opt_text(c.weight_grams) == number_at(r, 2)
    &&& opt_text(c.purity) == filled_at(r, 3)
    &&& opt_text(c.units) == number_at(r, 4)
    &&& c.avg_buy_price@ == strip_commas_spec(text_at(r, 5))
}

/// The holding of one record of the gold export, none when its kind is not
/// one the app knows.
pub fn gold_row(row: &Vec<Option<String>>) -> (r: Option<GoldCsvCells>)
    ensures
        r is Some <==> gold_kept(row_view(row@)),
        r matches Some(c) ==> gold_cells_of(row_view(row@), c),
{
    let gold_type = to_lowercase(text_of(row, 0).as_str());
    if !is_gold_type(gold_type.as_str()) {
        return None;
    }
    let name = filled_of(row, 1);
    let weight_grams = number_of(row, 2);
    let purity = filled_of(row, 3);
    let units = number_of(row, 4);
    let avg_buy_price = strip_commas(text_of(row, 5).as_str());
    Some(GoldCsvCells { gold_type, name, weight_grams, purity, units, avg_buy_price })
}

/// The holdings of every record of the gold export, in order; none for a
/// record that is not kept.
pub fn gold_rows(grid: &Vec<Vec<Option<String>>>) -> (r: Vec<Option<GoldCsvCells>>)
    ensures
        r@.len() == grid@.len(),
        forall|i: int| 0 <= i < grid@.len() ==> (#[trigger] r@[i] is Some <==> gold_kept(row_view(grid@[i]@))),
        forall|i: int|
            0 <= i < grid@.len() ==> (#[trigger] r@[i] matches Some(c) ==> gold_cells_of(row_view(grid@[i]@), c)),
{
    let n = grid.len();
    let mut out: Vec<Option<GoldCsvCells>> = Vec::new();
    let mut i: usize = 0;
    while i < n
        invariant
            n == grid@.len(),
            i <= n,
            out@.len() == i,
            forall|k: int| 0 <= k < i ==> (#[trigger] out@[k] is Some <==> gold_kept(row_view(grid@[k]@))),
            forall|k: int|
                0 <= k < i ==> (#[trigger] out@[k] matches Some(c) ==> gold_cells_of(row_view(grid@[k]@), c)),
        decreases n - i,
    {
        out.push(gold_row(&grid[i]));
        i = i + 1;
    }
    out
}

/// Reads the gold export: the grid of its columns (a parse error when the
/// document or a required column fails), then the holding of each record
/// that is kept.
pub fn parse_gold_cells(content: &str) -> (r: Result<Vec<Option<GoldCsvCells>>, AppError>)
    ensures
        match grid_spec(csv_table_spec(content@), gold_specs_spec()) {
            Err(m) => r matches Err(AppError::Parse(x)) && x@ == m,
            Ok(g) => r matches Ok(v) && v@.len() == g.len() && (forall|i: int|
                0 <= i < g.len() ==> (#[trigger] v@[i] is Some <==> gold_kept(g[i]))) && (forall|i: int|
                0 <= i < g.len() ==> (#[trigger] v@[i] matches Some(c) ==> gold_cells_of(g[i], c))),
        },
{
    let specs = gold_specs();
    match read_grid(content, specs.as_slice()) {
        Ok(grid) => {
            let rows = gold_rows(&grid);
            assert forall|i: int| 0 <= i < grid@.len() implies row_view(grid@[i]@) == grid_view(grid@)[i] by {}
            Ok(rows)
        },
        Err(e) => Err(e),
    }
}

// ── Crypto ─────────────────────────────────────────────────────────────

/// The columns of the crypto export, all required: exchange, coin,
/// quantity, average buying price.
pub open spec fn crypto_specs_spec() -> Seq<(Seq<Seq<char>>, Option<Seq<char>>)> {
    seq![
        (seq!["exchange"@, "exchange_name"@, "platform"@], Some("exchange column not found"@)),
        (seq!["coin_symbol"@, "symbol"@, "coin"@, "ticker"@], Some("coin_symbol column not found"@)),
        (seq!["quantity"@, "qty"@, "amount"@], Some("quantity column not found"@)),
        (
            seq!["avg_buy_price"@, "avg_price"@, "purchase_price"@, "buy_price"@],
            Some("avg_buy_price column not found"@),
        ),
    ]
}

/// The columns of the crypto export (see `crypto_specs_spec`).
pub fn crypto_specs() -> (s: Vec<ColumnSpec>)
    ensures
        specs_view(s@) == crypto_specs_spec(),
{
    let s = vec![
        required(vec!["exchange", "exchange_name", "platform"], "exchange column not found"),
        required(vec!["coin_symbol", "symbol", "coin", "ticker"], "coin_symbol column not found"),
        required(vec!["quantity", "qty", "amount"], "quantity column not found"),
        required(vec!["avg_buy_price", "avg_price", "purchase_price", "buy_price"], "avg_buy_price column not found"),
    ];
    assert(specs_view(s@) =~~= crypto_specs_spec());
    s
}

/// The crypto export is read by the header names it uses: for every
/// header row, each column is found whenever a header has one of the names
/// below, and only at such a header; the columns marked required make the
/// import fail when absent.
pub proof fn law_crypto_export_headers()
    ensures
        crypto_specs_spec().len() == 4,
        recognizes_exactly(crypto_specs_spec()[0].0, seq!["exchange"@, "exchange_name"@, "platform"@]),
        crypto_specs_spec()[0].1 is Some,
        recognizes_exactly(crypto_specs_spec()[1].0, seq!["coin_symbol"@, "symbol"@, "coin"@, "ticker"@]),
        crypto_specs_spec()[1].1 is Some,
        recognizes_exactly(crypto_specs_spec()[2].0, seq!["quantity"@, "qty"@, "amount"@]),
        crypto_specs_spec()[2].1 is Some,
        recognizes_exactly(crypto_specs_spec()[3].0, seq!["avg_buy_price"@, "avg_price"@, "purchase_price"@, "buy_price"@]),
        crypto_specs_spec()[3].1 is Some,
{
    let sp = crypto_specs_spec();
    assert forall|k: int| 0 <= k < sp.len() implies recognizes_exactly(#[trigger] sp[k].0, sp[k].0) by {
        lemma_recognizes_own_aliases(sp[k].0);
    }
    assert(recognizes_exactly(sp[0].0, sp[0].0));
    assert(recognizes_exactly(sp[1].0, sp[1].0));
    assert(recognizes_exactly(sp[2].0, sp[2].0));
    assert(recognizes_exactly(sp[3].0, sp[3].0));
}

/// One crypto holding as text; quantity and price are number texts.
#[derive(Debug)]
pub struct CryptoCsvCells {
    pub exchange_name: String,
    pub coin_symbol: String,
    pub quantity: String,
    pub avg_buy_price: String,
}

/// Whether a record of the crypto export is kept: exchange and coin are
/// not empty.
pub open spec fn crypto_kept(r: Seq<Option<Seq<char>>>) -> bool {
    text_at(r, 0).len() > 0 && uppercase_spec(text_at(r, 1)).len() > 0
}

/// The holding read from a record of the crypto export; the coin
/// uppercased.
pub open spec fn crypto_cells_of(r: Seq<Option<Seq<char>>>, c: CryptoCsvCells) -> bool {
    &&& c.exchange_name@ == text_at(r, 0)
    &&& c.coin_symbol@ == uppercase_spec(text_at(r, 1))
    &&& c.quantity@ == strip_commas_spec(text_at(r, 2))
    &&& c.avg_buy_price@ == strip_commas_spec(text_at(r, 3))
}

/// The holding of one record of the crypto export, none when exchange or
/// coin is empty.
pub fn crypto_row(row: &Vec<Option<String>>) -> (r: Option<CryptoCsvCells>)
    ensures
        r is Some <==> crypto_kept(row_view(row@)),
        r matches Some(c) ==> crypto_cells_of(row_view(row@), c),
{
    let exchange_name = text_of(row, 0);
    let coin_symbol = to_uppercase(text_of(row, 1).as_str());
    if exchange_name.as_str().unicode_len() == 0 || coin_symbol.as_str().unicode_len() == 0 {
        return None;
    }
    let quantity = strip_commas(text_of(row, 2).as_str());
    let avg_buy_price = strip_commas(text_of(row, 3).as_str());
    Some(CryptoCsvCells { exchange_name, coin_symbol, quantity, avg_buy_price })
}

/// The holdings of every record of the crypto export, in order; none for a
/// record that is not kept.
pub fn crypto_rows(grid: &Vec<Vec<Option<String>>>) -> (r: Vec<Option<CryptoCsvCells>>)
    ensures
        r@.len() == grid@.len(),
        forall|i: int| 0 <= i < grid@.len() ==> (#[trigger] r@[i] is Some <==> crypto_kept(row_view(grid@[i]@))),
        forall|i: int|
            0 <= i < grid@.len() ==> (#[trigger] r@[i] matches Some(c) ==> crypto_cells_of(row_view(grid@[i]@), c)),
{
    let n = grid.len();
    let mut out: Vec<Option<CryptoCsvCells>> = Vec::new();
    let mut i: usize = 0;
    while i < n
        invariant
            n == grid@.len(),
            i <= n,
            out@.len() == i,
            forall|k: int| 0 <= k < i ==> (#[trigger] out@[k] is Some <==> crypto_kept(row_view(grid@[k]@))),
            forall|k: int|
                0 <= k < i ==> (#[trigger] out@[k] matches Some(c) ==> crypto_cells_of(row_view(grid@[k]@), c)),
        decreases n - i,
    {
        out.push(crypto_row(&grid[i]));
        i = i + 1;
    }
    out
}

/// Reads the crypto export: the grid of its columns (a parse error when the
/// document or a required column fails), then the holding of each record
/// that is kept.
pub fn parse_crypto_cells(content: &str) -> (r: Result<Vec<Option<CryptoCsvCells>>, AppError>)
    ensures
        match grid_spec(csv_table_spec(content@), crypto_specs_spec()) {
            Err(m) => r matches Err(AppError::Parse(x)) && x@ == m,
            Ok(g) => r matches Ok(v) && v@.len() == g.len() && (forall|i: int|
                0 <= i < g.len() ==> (#[trigger] v@[i] is Some <==> crypto_kept(g[i]))) && (forall|i: int|
                0 <= i < g.len() ==> (#[trigger] v@[i] matches Some(c) ==> crypto_cells_of(g[i], c))),
        },
{
    let specs = crypto_specs();
    match read_grid(content, specs.as_slice()) {
        Ok(grid) => {
            let rows = crypto_rows(&grid);
            assert forall|i: int| 0 <= i < grid@.len() implies row_view(grid@[i]@) == grid_view(grid@)[i] by {}
            Ok(rows)
        },
        Err(e) => Err(e),
    }
}

// ── Bonds ──────────────────────────────────────────────────────────────

/// The bond kinds the app knows.
pub open spec fn bond_type_word(t: Seq<char>) -> bool {
    t == "government"@ || t == "corporate"@ || t == "tax_free"@ || t == "sgb"@ || t == "ncd"@ || t
        == "treasury_bill"@
}

/// The coupon frequencies the app knows.
pub open spec fn coupon_freq_word(t: Seq<char>) -> bool {
    t == "annual"@ || t == "semi_annual"@ || t == "quarterly"@ || t == "monthly"@ || t == "zero_coupon"@
}

fn is_bond_type(t: &str) -> (b: bool)
    ensures
        b == bond_type_word(t@),
{
    str_eq(t, "government") || str_eq(t, "corporate") || str_eq(t, "tax_free") || str_eq(t, "sgb") || str_eq(
        t,
        "ncd",
    ) || str_eq(t, "treasury_bill")
}

fn is_coupon_freq(t: &str) -> (b: bool)
    ensures
        b == coupon_freq_word(t@),
{
    str_eq(t, "annual") || str_eq(t, "semi_annual") || str_eq(t, "quarterly") || str_eq(t, "monthly")
        || str_eq(t, "zero_coupon")
}

/// The bond kind of an optional column: the cell lowercased when it is a
/// kind the app knows, else `corporate`.
pub open spec fn bond_type_at(r: Seq<Option<Seq<char>>>, k: int) -> Seq<char> {
    match opt_at(r, k) {
        Some(t) => if bond_type_word(lowercase_spec(t)) {
            lowercase_spec(t)
        } else {
            "corporate"@
        },
        None => "corporate"@,
    }
}

/// The coupon frequency of an optional column: the cell lowercased when it
/// is a frequency the app knows, else `semi_annual`.
pub open spec fn coupon_freq_at(r: Seq<Option<Seq<char>>>, k: int) -> Seq<char> {
    match opt_at(r, k) {
        Some(t) => if coupon_freq_word(lowercase_spec(t)) {
            lowercase_spec(t)
        } else {
            "semi_annual"@
        },
        None => "semi_annual"@,
    }
}

/// The columns of the bond export: ISIN, issuer (required), kind, face
/// value, quantity and purchase price (required), coupon rate, coupon
/// frequency, purchase date (required), maturity date, credit rating.
pub open spec fn bond_specs_spec() -> Seq<(Seq<Seq<char>>, Option<Seq<char>>)> {
    seq![
        (seq!["isin"@], None),
        (seq!["issuer_name"@, "issuer"@, "company"@], Some("issuer_name column not found"@)),
        (seq!["bond_type"@, "type"@], None),
        (seq!["face_value"@, "face"@], None),
        (seq!["quantity"@, "qty"@, "units"@], Some("quantity column not found"@)),
        (seq!["purchase_price"@, "buy_price"@, "avg_price"@], Some("purchase_price column not found"@)),
        (seq!["coupon_rate"@, "coupon"@, "rate"@], None),
        (seq!["coupon_frequency"@, "coupon_freq"@, "frequency"@], None),
        (seq!["purchase_date"@, "buy_date"@, "issue_date"@], Some("purchase_date column not found"@)),
        (seq!["maturity_date"@, "maturity"@], None),
        (seq!["credit_rating"@, "rating"@], None),
    ]
}

/// The columns of the bond export (see `bond_specs_spec`).
pub fn bond_specs() -> (s: Vec<ColumnSpec>)
    ensures
        specs_view(s@) == bond_specs_spec(),
{
    let s = vec![
        optional(vec!["isin"]),
        required(vec!["issuer_name", "issuer", "company"], "issuer_name column not found"),
        optional(vec!["bond_type", "type"]),
        optional(vec!["face_value", "face"]),
        required(vec!["quantity", "qty", "units"], "quantity column not found"),
        required(vec!["purchase_price", "buy_price", "avg_price"], "purchase_price column not found"),
        optional(vec!["coupon_rate", "coupon", "rate"]),
        optional(vec!["coupon_frequency", "coupon_freq", "frequency"]),
        required(vec!["purchase_date", "buy_date", "issue_date"], "purchase_date column not found"),
        optional(vec!["maturity_date", "maturity"]),
        optional(vec!["credit_rating", "rating"]),
    ];
    assert(specs_view(s@) =~~= bond_specs_spec());
    s
}

/// The bond export is read by the header names it uses: for every
/// header row, each column is found whenever a header has one of the names
/// below, and only at such a header; the columns marked required make the
/// import fail when absent.
pub proof fn law_bond_export_headers()
    ensures
        bond_specs_spec().len() == 11,
        recognizes_exactly(bond_specs_spec()[0].0, seq!["isin"@]),
        bond_specs_spec()[0].1 is None,
        recognizes_exactly(bond_specs_spec()[1].0, seq!["issuer_name"@, "issuer"@, "company"@]),
        bond_specs_spec()[1].1 is Some,
        recognizes_exactly(bond_specs_spec()[2].0, seq!["bond_type"@, "type"@]),
        bond_specs_spec()[2].1 is None,
        recognizes_exactly(bond_specs_spec()[3].0, seq!["face_value"@, "face"@]),
        bond_specs_spec()[3].1 is None,
        recognizes_exactly(bond_specs_spec()[4].0, seq!["quantity"@, "qty"@, "units"@]),
        bond_specs_spec()[4].1 is Some,
        recognizes_exactly(bond_specs_spec()[5].0, seq!["purchase_price"@, "buy_price"@, "avg_price"@]),
        bond_specs_spec()[5].1 is Some,
        recognizes_exactly(bond_specs_spec()[6].0, seq!["coupon_rate"@, "coupon"@, "rate"@]),
        bond_specs_spec()[6].1 is None,
        recognizes_exactly(bond_specs_spec()[7].0, seq!["coupon_frequency"@, "coupon_freq"@, "frequency"@]),
        bond_specs_spec()[7].1 is None,
        recognizes_exactly(bond_specs_spec()[8].0, seq!["purchase_date"@, "buy_date"@, "issue_date"@]),
        bond_specs_spec()[8].1 is Some,
        recognizes_exactly(bond_specs_spec()[9].0, seq!["maturity_date"@, "maturity"@]),
        bond_specs_spec()[9].1 is None,
        recognizes_exactly(bond_specs_spec()[10].0, seq!["credit_rating"@, "rating"@]),
        bond_specs_spec()[10].1 is None,
{
    let sp = bond_specs_spec();
    assert forall|k: int| 0 <= k < sp.len() implies recognizes_exactly(#[trigger] sp[k].0, sp[k].0) by {
        lemma_recognizes_own_aliases(sp[k].0);
    }
    assert(recognizes_exactly(sp[0].0, sp[0].0));
    assert(recognizes_exactly(sp[1].0, sp[1].0));
    assert(recognizes_exactly(sp[2].0, sp[2].0));
    assert(recognizes_exactly(sp[3].0, sp[3].0));
    assert(recognizes_exactly(sp[4].0, sp[4].0));
    assert(recognizes_exactly(sp[5].0, sp[5].0));
    assert(recognizes_exactly(sp[6].0, sp[6].0));
    assert(recognizes_exactly(sp[7].0, sp[7].0));
    assert(recognizes_exactly(sp[8].0, sp[8].0));
    assert(recognizes_exactly(sp[9].0, sp[9].0));
    assert(recognizes_exactly(sp[10].0, sp[10].0));
}

/// One bond holding as text; face value, quantity, price and coupon rate
/// are number texts.
#[derive(Debug)]
pub struct BondCsvCells {
    pub isin: Option<String>,
    pub issuer_name: String,
    pub bond_type: String,
    pub face_value: Option<String>,
    pub quantity: String,
    pub purchase_price: String,
    pub coupon_rate: Option<String>,
    pub coupon_frequency: String,
    pub purchase_date: String,
    pub maturity_date: Option<String>,
    pub credit_rating: Option<String>,
}

/// Whether a record of the bond export is kept: issuer and purchase date
/// are not empty.
pub open spec fn bond_kept(r: Seq<Option<Seq<char>>>) -> bool {
    text_at(r, 1).len() > 0 && text_at(r, 8).len() > 0
}

/// The holding read from a record of the bond export.
pub open spec fn bond_cells_of(r: Seq<Option<Seq<char>>>, c: BondCsvCells) -> bool {
    &&& opt_text(c.isin) == filled_at(r, 0)
    &&& c.issuer_name@ == text_at(r, 1)
    &&& c.bond_type@ == bond_type_at(r, 2)
    &&& opt_text(c.face_value) == number_at(r, 3)
    &&& c.quantity@ == strip_commas_spec(text_at(r, 4))
    &&& c.purchase_price@ == strip_commas_spec(text_at(r, 5))
    &&& opt_text(c.coupon_rate) == number_at(r, 6)
    &&& c.coupon_frequency@ == coupon_freq_at(r, 7)
    &&& c.purchase_date@ == text_at(r, 8)
    &&& opt_text(c.maturity_date) == filled_at(r, 9)
    &&& opt_text(c.credit_rating) == filled_at(r, 10)
}

/// The holding of one record of the bond export, none when issuer or
/// purchase date is empty.
pub fn bond_row(row: &Vec<Option<String>>) -> (r: Option<BondCsvCells>)
    ensures
        r is Some <==> bond_kept(row_view(row@)),
        r matches Some(c) ==> bond_cells_of(row_view(row@), c),
{
    let issuer_name = text_of(row, 1);
    let purchase_date = text_of(row, 8);
    if issuer_name.as_str().unicode_len() == 0 || purchase_date.as_str().unicode_len() == 0 {
        return None;
    }
    let isin = filled_of(row, 0);
    let bond_type = match opt_of(row, 2) {
        Some(t) => {
            let v = to_lowercase(t.as_str());
            if is_bond_type(v.as_str()) {
                v
            } else {
                String::from_str("corporate")
            }
        },
        None => String::from_str("corporate"),
    };
    let face_value = number_of(row, 3);
    let quantity = strip_commas(text_of(row, 4).as_str());
    let purchase_price = strip_commas(text_of(row, 5).as_str());
    let coupon_rate = number_of(row, 6);
    let coupon_frequency = match opt_of(row, 7) {
        Some(t) => {
            let v = to_lowercase(t.as_str());
            if is_coupon_freq(v.as_str()) {
                v
            } else {
                String::from_str("semi_annual")
            }
        },
        None => String::from_str("semi_annual"),
    };
    let maturity_date = filled_of(row, 9);
    let credit_rating = filled_of(row, 10);
    Some(
        BondCsvCells {
            isin,
            issuer_name,
            bond_type,
            face_value,
            quantity,
            purchase_price,
            coupon_rate,
            coupon_frequency,
            purchase_date,
            maturity_date,
            credit_rating,
        },
    )
}

/// The holdings of every record of the bond export, in order; none for a
/// record that is not kept.
pub fn bond_rows(grid: &Vec<Vec<Option<String>>>) -> (r: Vec<Option<BondCsvCells>>)
    ensures
        r@.len() == grid@.len(),
        forall|i: int| 0 <= i < grid@.len() ==> (#[trigger] r@[i] is Some <==> bond_kept(row_view(grid@[i]@))),
        forall|i: int|
            0 <= i < grid@.len() ==> (#[trigger] r@[i] matches Some(c) ==> bond_cells_of(row_view(grid@[i]@), c)),
{
    let n = grid.len();
    let mut out: Vec<Option<BondCsvCells>> = Vec::new();
    let mut i: usize = 0;
    while i < n
        invariant
            n == grid@.len(),
            i <= n,
            out@.len() == i,
            forall|k: int| 0 <= k < i ==> (#[trigger] out@[k] is Some <==> bond_kept(row_view(grid@[k]@))),
            forall|k: int|
                0 <= k < i ==> (#[trigger] out@[k] matches Some(c) ==> bond_cells_of(row_view(grid@[k]@), c)),
        decreases n - i,
    {
        out.push(bond_row(&grid[i]));
        i = i + 1;
    }
    out
}

/// Reads the bond export: the grid of its columns (a parse error when the
/// document or a required column fails), then the holding of each record
/// that is kept.
pub fn parse_bond_cells(content: &str) -> (r: Result<Vec<Option<BondCsvCells>>, AppError>)
    ensures
        match grid_spec(csv_table_spec(content@), bond_specs_spec()) {
            Err(m) => r matches Err(AppError::Parse(x)) && x@ == m,
            Ok(g) => r matches Ok(v) && v@.len() == g.len() && (forall|i: int|
                0 <= i < g.len() ==> (#[trigger] v@[i] is Some <==> bond_kept(g[i]))) && (forall|i: int|
                0 <= i < g.len() ==> (#[trigger] v@[i] matches Some(c) ==> bond_cells_of(g[i], c))),
        },
{
    let specs = bond_specs();
    match read_grid(content, specs.as_slice()) {
        Ok(grid) => {
            let rows = bond_rows(&grid);
            assert forall|i: int| 0 <= i < grid@.len() implies row_view(grid@[i]@) == grid_view(grid@)[i] by {}
            Ok(rows)
        },
        Err(e) => Err(e),
    }
}

// ── PPF / EPF ──────────────────────────────────────────────────────────

/// The retirement account kinds the app knows.
pub open spec fn ppf_epf_word(t: Seq<char>) -> bool {
    t == "PPF"@ || t == "EPF"@ || t == "NPS"@ || t == "VPF"@
}

fn is_ppf_epf(t: &str) -> (b: bool)
    ensures
        b == ppf_epf_word(t@),
{
    str_eq(t, "PPF") || str_eq(t, "EPF") || str_eq(t, "NPS") || str_eq(t, "VPF")
}

/// The columns of the PPF/EPF export: kind (required), account number,
/// balance and rate (required), financial year, employer and employee
/// contribution.
pub open spec fn ppf_epf_specs_spec() -> Seq<(Seq<Seq<char>>, Option<Seq<char>>)> {
    seq![
        (seq!["account_type"@, "type"@], Some("account_type column not found"@)),
        (seq!["account_number"@, "account_no"@, "member_id"@], None),
        (seq!["balance"@, "corpus"@, "current_balance"@], Some("balance column not found"@)),
        (seq!["interest_rate"@, "rate"@, "roi"@], Some("interest_rate column not found"@)),
        (seq!["financial_year"@, "fy"@, "fiscal_year"@], None),
        (seq!["employer_contrib"@, "employer_contribution"@], None),
        (seq!["employee_contrib"@, "employee_contribution"@], None),
    ]
}

/// The columns of the PPF/EPF export (see `ppf_epf_specs_spec`).
pub fn ppf_epf_specs() -> (s: Vec<ColumnSpec>)
    ensures
        specs_view(s@) == ppf_epf_specs_spec(),
{
    let s = vec![
        required(vec!["account_type", "type"], "account_type column not found"),
        optional(vec!["account_number", "account_no", "member_id"]),
        required(vec!["balance", "corpus", "current_balance"], "balance column not found"),
        required(vec!["interest_rate", "rate", "roi"], "interest_rate column not found"),
        optional(vec!["financial_year", "fy", "fiscal_year"]),
        optional(vec!["employer_contrib", "employer_contribution"]),
        optional(vec!["employee_contrib", "employee_contribution"]),
    ];
    assert(specs_view(s@) =~~= ppf_epf_specs_spec());
    s
}

/// The PPF/EPF export is read by the header names it uses: for every
/// header row, each column is found whenever a header has one of the names
/// below, and only at such a header; the columns marked required make the
/// import fail when absent.
pub proof fn law_ppf_epf_export_headers()
    ensures
        ppf_epf_specs_spec().len() == 7,
        recognizes_exactly(ppf_epf_specs_spec()[0].0, seq!["account_type"@, "type"@]),
        ppf_epf_specs_spec()[0].1 is Some,
        recognizes_exactly(ppf_epf_specs_spec()[1].0, seq!["account_number"@, "account_no"@, "member_id"@]),
        ppf_epf_specs_spec()[1].1 is None,
        recognizes_exactly(ppf_epf_specs_spec()[2].0, seq!["balance"@, "corpus"@, "current_balance"@]),
        ppf_epf_specs_spec()[2].1 is Some,
        recognizes_exactly(ppf_epf_specs_spec()[3].0, seq!["interest_rate"@, "rate"@, "roi"@]),
        ppf_epf_specs_spec()[3].1 is Some,
        recognizes_exactly(ppf_epf_specs_spec()[4].0, seq!["financial_year"@, "fy"@, "fiscal_year"@]),
        ppf_epf_specs_spec()[4].1 is None,
        recognizes_exactly(ppf_epf_specs_spec()[5].0, seq!["employer_contrib"@, "employer_contribution"@]),
        ppf_epf_specs_spec()[5].1 is None,
        recognizes_exactly(ppf_epf_specs_spec()[6].0, seq!["employee_contrib"@, "employee_contribution"@]),
        ppf_epf_specs_spec()[6].1 is None,
{
    let sp = ppf_epf_specs_spec();
    assert forall|k: int| 0 <= k < sp.len() implies recognizes_exactly(#[trigger] sp[k].0, sp[k].0) by {
        lemma_recognizes_own_aliases(sp[k].0);
    }
    assert(recognizes_exactly(sp[0].0, sp[0].0));
    assert(recognizes_exactly(sp[1].0, sp[1].0));
    assert(recognizes_exactly(sp[2].0, sp[2].0));
    assert(recognizes_exactly(sp[3].0, sp[3].0));
    assert(recognizes_exactly(sp[4].0, sp[4].0));
    assert(recognizes_exactly(sp[5].0, sp[5].0));
    assert(recognizes_exactly(sp[6].0, sp[6].0));
}

/// One PPF/EPF account as text; balance, rate and contributions are number
/// texts.
#[derive(Debug)]
pub struct PpfEpfCsvCells {
    pub account_type: String,
    pub account_number: Option<String>,
    pub balance: String,
    pub interest_rate: String,
    pub financial_year: Option<String>,
    pub employer_contrib: Option<String>,
    pub employee_contrib: Option<String>,
}

/// Whether a record of the PPF/EPF export is kept: its kind, uppercased, is
/// one the app knows.
pub open spec fn ppf_epf_kept(r: Seq<Option<Seq<char>>>) -> bool {
    ppf_epf_word(uppercase_spec(text_at(r, 0)))
}

/// The account read from a record of the PPF/EPF export; the kind
/// uppercased.
pub open spec fn ppf_epf_cells_of(r: Seq<Option<Seq<char>>>, c: PpfEpfCsvCells) -> bool {
    &&& c.account_type@ == uppercase_spec(text_at(r, 0))
    &&& opt_text(c.account_number) == filled_at(r, 1)
    &&& c.balance@ == strip_commas_spec(text_at(r, 2))
    &&& c.interest_rate@ == strip_commas_spec(text_at(r, 3))
    &&& opt_text(c.financial_year) == filled_at(r, 4)
    &&& opt_text(c.employer_contrib) == number_at(r, 5)
    &&& opt_text(c.employee_contrib) == number_at(r, 6)
}

/// The account of one record of the PPF/EPF export, none when its kind is
/// not one the app knows.
pub fn ppf_epf_row(row: &Vec<Option<String>>) -> (r: Option<PpfEpfCsvCells>)
    ensures
        r is Some <==> ppf_epf_kept(row_view(row@)),
        r matches Some(c) ==> ppf_epf_cells_of(row_view(row@), c),
{
    let account_type = to_uppercase(text_of(row, 0).as_str());
    if !is_ppf_epf(account_type.as_str()) {
        return None;
    }
    let account_number = filled_of(row, 1);
    let balance = strip_commas(text_of(row, 2).as_str());
    let interest_rate = strip_commas(text_of(row, 3).as_str());
    let financial_year = filled_of(row, 4);
    let employer_contrib = number_of(row, 5);
    let employee_contrib = number_of(row, 6);
    Some(
        PpfEpfCsvCells {
            account_type,
            account_number,
            balance,
            interest_rate,
            financial_year,
            employer_contrib,
            employee_contrib,
        },
    )
}

/// The accounts of every record of the PPF/EPF export, in order; none for
/// a record that is not kept.
pub fn ppf_epf_rows(grid: &Vec<Vec<Option<String>>>) -> (r: Vec<Option<PpfEpfCsvCells>>)
    ensures
        r@.len() == grid@.len(),
        forall|i: int| 0 <= i < grid@.len() ==> (#[trigger] r@[i] is Some <==> ppf_epf_kept(row_view(grid@[i]@))),
        forall|i: int|
            0 <= i < grid@.len() ==> (#[trigger] r@[i] matches Some(c) ==> ppf_epf_cells_of(
                row_view(grid@[i]@),
                c,
            )),
{
    let n = grid.len();
    let mut out: Vec<Option<PpfEpfCsvCells>> = Vec::new();
    let mut i: usize = 0;
    while i < n
        invariant
            n == grid@.len(),
            i <= n,
            out@.len() == i,
            forall|k: int| 0 <= k < i ==> (#[trigger] out@[k] is Some <==> ppf_epf_kept(row_view(grid@[k]@))),
            forall|k: int|
                0 <= k < i ==> (#[trigger] out@[k] matches Some(c) ==> ppf_epf_cells_of(row_view(grid@[k]@), c)),
        decreases n - i,
    {
        out.push(ppf_epf_row(&grid[i]));
        i = i + 1;
    }
    out
}

/// Reads the PPF/EPF export: the grid of its columns (a parse error when
/// the document or a required column fails), then the account of each
/// record that is kept.
pub fn parse_ppf_epf_cells(content: &str) -> (r: Result<Vec<Option<PpfEpfCsvCells>>, AppError>)
    ensures
        match grid_spec(csv_table_spec(content@), ppf_epf_specs_spec()) {
            Err(m) => r matches Err(AppError::Parse(x)) && x@ == m,
            Ok(g) => r matches Ok(v) && v@.len() == g.len() && (forall|i: int|
                0 <= i < g.len() ==> (#[trigger] v@[i] is Some <==> ppf_epf_kept(g[i]))) && (forall|i: int|
                0 <= i < g.len() ==> (#[trigger] v@[i] matches Some(c) ==> ppf_epf_cells_of(g[i], c))),
        },
{
    let specs = ppf_epf_specs();
    match read_grid(content, specs.as_slice()) {
        Ok(grid) => {
            let rows = ppf_epf_rows(&grid);
            assert forall|i: int| 0 <= i < grid@.len() implies row_view(grid@[i]@) == grid_view(grid@)[i] by {}
            Ok(rows)
        },
        Err(e) => Err(e),
    }
}

// ── Dispatch and broker holdings ───────────────────────────────────────

/// The asset exports the generic importer takes.
#[derive(Clone, Copy, Debug, PartialEq, Eq, Structural)]
pub enum AssetKind {
    Fd,
    Gold,
    Crypto,
    Bond,
    PpfEpf,
}

/// The export an asset type names: `fd`, `gold`, `crypto`, `bond` or
/// `ppf_epf`.
pub open spec fn asset_kind_spec(t: Seq<char>) -> Option<AssetKind> {
    if t == "fd"@ {
        Some(AssetKind::Fd)
    } else if t == "gold"@ {
        Some(AssetKind::Gold)
    } else if t == "crypto"@ {
        Some(AssetKind::Crypto)
    } else if t == "bond"@ {
        Some(AssetKind::Bond)
    } else if t == "ppf_epf"@ {
        Some(AssetKind::PpfEpf)
    } else {
        None
    }
}

/// The export an asset type names; another type is a validation error,
/// `Unknown asset type: ` and the type.
pub fn asset_kind(asset_type: &str) -> (r: Result<AssetKind, AppError>)
    ensures
        match asset_kind_spec(asset_type@) {
            Some(k) => r == Ok::<AssetKind, AppError>(k),
            None => r matches Err(AppError::Validation(m)) && m@ == "Unknown asset type: "@ + asset_type@,
        },
{
    if str_eq(asset_type, "fd") {
        Ok(AssetKind::Fd)
    } else if str_eq(asset_type, "gold") {
        Ok(AssetKind::Gold)
    } else if str_eq(asset_type, "crypto") {
        Ok(AssetKind::Crypto)
    } else if str_eq(asset_type, "bond") {
        Ok(AssetKind::Bond)
    } else if str_eq(asset_type, "ppf_epf") {
        Ok(AssetKind::PpfEpf)
    } else {
        let mut m = String::from_str("Unknown asset type: ");
        m.append(asset_type);
        Err(AppError::Validation(m))
    }
}

/// The ISIN a broker holding is stored under: its own when given and not
/// empty, else its symbol.
pub open spec fn holding_isin_spec(symbol: Seq<char>, isin: Option<Seq<char>>) -> Seq<char> {
    match isin {
        Some(i) => if i.len() == 0 {
            symbol
        } else {
            i
        },
        None => symbol,
    }
}

/// The ISIN a broker holding is stored under (see `holding_isin_spec`).
pub fn holding_isin(symbol: &str, isin: Option<&str>) -> (r: String)
    ensures
        r@ == holding_isin_spec(
            symbol@,
            match isin {
                Some(i) => Some(i@),
                None => None,
            },
        ),
{
    match isin {
        Some(i) => if i.unicode_len() == 0 {
            String::from_str(symbol)
        } else {
            String::from_str(i)
        },
        None => String::from_str(symbol),
    }
}

/// The exchange a broker holding is stored under: its own, or `-`.
pub fn holding_exchange(exchange: Option<&str>) -> (r: String)
    ensures
        r@ == match exchange {
            Some(e) => e@,
            None => "-"@,
        },
{
    match exchange {
        Some(e) => String::from_str(e),
        None => String::from_str("-"),
    }
}

} // verus!
