//! Price and NAV refreshes: the quote symbol and addresses asked for, the
//! NAV date turned from `DD-MM-YYYY` into the `YYYY-MM-DD` the database
//! stores, and the tally of a refresh. The HTTP requests are the
//! application's.

use vstd::prelude::*;
use vstd::string::*;
use crate::models::RefreshResult;
use crate::text::{find_char_from, index_of, str_eq};

verus! {

/// The Yahoo Finance symbol of a listed stock: `.NS` on the NSE, `.BO`
/// otherwise.
pub open spec fn yahoo_ticker_spec(symbol: Seq<char>, exchange: Seq<char>) -> Seq<char> {
    symbol + (if exchange == "NSE"@ {
        ".NS"@
    } else {
        ".BO"@
    })
}

/// The Yahoo Finance symbol of a listed stock (see `yahoo_ticker_spec`).
pub fn yahoo_ticker(symbol: &str, exchange: &str) -> (r: String)
    ensures
        r@ == yahoo_ticker_spec(symbol@, exchange@),
{
    let mut t = String::from_str(symbol);
    if str_eq(exchange, "NSE") {
        t.append(".NS");
    } else {
        t.append(".BO");
    }
    t
}

/// The daily chart address of a Yahoo Finance symbol.
pub fn chart_url(yahoo_symbol: &str) -> (r: String)
    ensures
        r@ == "https://query1.finance.yahoo.com/v8/finance/chart/"@ + yahoo_symbol@ + "?interval=1d&range=1d"@,
{
    let mut u = String::from_str("https://query1.finance.yahoo.com/v8/finance/chart/");
    u.append(yahoo_symbol);
    u.append("?interval=1d&range=1d");
    u
}

/// The NAV history address of a mutual fund scheme.
pub fn nav_url(scheme_code: &str) -> (r: String)
    ensures
        r@ == "https://api.mfapi.in/mf/"@ + scheme_code@,
{
    let mut u = String::from_str("https://api.mfapi.in/mf/");
    u.append(scheme_code);
    u
}

/// A NAV date as stored: a text of exactly three `-`-separated parts
/// `D-M-Y` becomes `Y-M-D`; any other text is kept as it is.
pub open spec fn nav_date_iso_spec(d: Seq<char>) -> Seq<char> {
    let i = index_of(d, '-');
    let rest = d.subrange(i + 1, d.len() as int);
    let j = index_of(rest, '-');
    let tail = rest.subrange(j + 1, rest.len() as int);
    if i < d.len() && j < rest.len() && index_of(tail, '-') == tail.len() {
        tail + "-"@ + rest.subrange(0, j) + "-"@ + d.subrange(0, i)
    } else {
        d
    }
}

/// A NAV date as stored (see `nav_date_iso_spec`).
pub fn nav_date_iso(d: &str) -> (r: String)
    ensures
        r@ == nav_date_iso_spec(d@),
{
    let n = d.unicode_len();
    let i = find_char_from(d, '-', 0);
    assert(d@.subrange(0, n as int) =~= d@);
    if i == n {
        return String::from_str(d);
    }
    let j = find_char_from(d, '-', i + 1);
    let ghost rest = d@.subrange(i + 1, n as int);
    if j == n {
        return String::from_str(d);
    }
    let k = find_char_from(d, '-', j + 1);
    let ghost tail = rest.subrange((j - i - 1) + 1, rest.len() as int);
    assert(tail =~= d@.subrange(j + 1, n as int));
    if k != n {
        return String::from_str(d);
    }
    let mut out = String::from_str(d.substring_char(j + 1, n));
    out.append("-");
    out.append(d.substring_char(i + 1, j));
    out.append("-");
    out.append(d.substring_char(0, i));
    assert(rest.subrange(0, j - i - 1) =~= d@.subrange(i + 1, j as int));
    assert(out@ =~= nav_date_iso_spec(d@));
    out
}

/// A refresh that has updated nothing yet.
pub fn refresh_start() -> (r: RefreshResult)
    ensures
        r.updated == 0,
        r.failed == 0,
        r.errors@.len() == 0,
{
    RefreshResult { updated: 0, failed: 0, errors: Vec::new() }
}

/// Counts one holding whose price was fetched: updated when the write
/// succeeded, failed otherwise.
pub fn refresh_written(r: &mut RefreshResult, written: bool)
    requires
        old(r).updated < i64::MAX,
        old(r).failed < i64::MAX,
    ensures
        final(r).updated == old(r).updated + (if written { 1int } else { 0 }),
        final(r).failed == old(r).failed + (if written { 0int } else { 1 }),
        final(r).errors@ == old(r).errors@,
{
    if written {
        r.updated = r.updated + 1;
    } else {
        r.failed = r.failed + 1;
    }
}

/// Counts one holding whose price could not be fetched: failed, with the
/// message `name: error`.
pub fn refresh_failed(r: &mut RefreshResult, name: &str, error: &str)
    requires
        old(r).failed < i64::MAX,
    ensures
        final(r).updated == old(r).updated,
        final(r).failed == old(r).failed + 1,
        final(r).errors@.len() == old(r).errors@.len() + 1,
        final(r).errors@.subrange(0, old(r).errors@.len() as int) == old(r).errors@,
        final(r).errors@.last()@ == name@ + ": "@ + error@,
{
    let mut m = String::from_str(name);
    m.append(": ");
    m.append(error);
    r.errors.push(m);
    r.failed = r.failed + 1;
    assert(r.errors@.subrange(0, old(r).errors@.len() as int) =~= old(r).errors@);
}

} // verus!
