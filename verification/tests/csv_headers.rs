use suvarix::csv_import::{equity_aliases, equity_columns, find_col, normalize_header, parse_bool, parse_bool_int, require_col};
use suvarix::error::AppError;

fn headers(hs: &[&str]) -> Vec<String> {
    hs.iter().map(|h| normalize_header(h)).collect()
}

#[test]
fn headers_are_lowercased_with_separators_collapsed() {
    assert_eq!(normalize_header("Avg. Cost Price"), "avg_cost_price");
    assert_eq!(normalize_header("  Net Qty  "), "_net_qty");
    assert_eq!(normalize_header("ISIN"), "isin");
    assert_eq!(normalize_header("LTP (Rs.)"), "ltp_rs");
    assert_eq!(normalize_header("---"), "");
    assert_eq!(normalize_header(""), "");
}

#[test]
fn find_col_tries_aliases_in_order() {
    let hs = headers(&["Symbol", "Qty", "Instrument"]);
    assert_eq!(find_col(&hs, &["instrument", "symbol"]), Some(2));
    assert_eq!(find_col(&hs, &["scrip", "symbol"]), Some(0));
    assert_eq!(find_col(&hs, &["ltp"]), None);
    assert_eq!(find_col(&hs, &[]), None);
}

#[test]
fn required_column_missing_is_a_parse_error() {
    let hs = headers(&["Symbol"]);
    match require_col(&hs, &["isin"], "isin column not found") {
        Err(AppError::Parse(m)) => assert_eq!(m, "isin column not found"),
        other => panic!("unexpected: {:?}", other.map(|_| ())),
    }
    assert_eq!(require_col(&hs, &["symbol"], "x").unwrap(), 0);
}

#[test]
fn yes_cells_read_as_true() {
    for s in ["true", "YES", " 1 ", "Direct", "growth\t"] {
        assert!(parse_bool(s), "{s}");
        assert_eq!(parse_bool_int(s), 1);
    }
    for s in ["false", "no", "0", "", "regular", "y"] {
        assert!(!parse_bool(s), "{s}");
        assert_eq!(parse_bool_int(s), 0);
    }
}

#[test]
fn zerodha_export_columns_are_found() {
    let hs = headers(&["Instrument", "Qty.", "Avg. cost", "LTP", "ISIN"]);
    let c = equity_columns("zerodha", &hs).unwrap();
    assert_eq!((c.symbol, c.quantity, c.avg_price), (0, 1, 2));
    assert_eq!((c.ltp, c.exchange, c.isin), (Some(3), None, Some(4)));
}

#[test]
fn missing_required_equity_columns_are_reported_in_order() {
    let msg = |r: Result<suvarix::csv_import::EquityColumns, AppError>| match r {
        Err(AppError::Parse(m)) => m,
        _ => panic!("expected a parse error"),
    };
    assert_eq!(msg(equity_columns("groww", &headers(&["Qty", "Avg Price"]))), "Symbol column not found in CSV");
    assert_eq!(msg(equity_columns("groww", &headers(&["Symbol", "Avg Price"]))), "Quantity column not found in CSV");
    assert_eq!(msg(equity_columns("groww", &headers(&["Symbol", "Qty"]))), "Average price column not found in CSV");
}

#[test]
fn unknown_broker_uses_the_generic_aliases() {
    let a = equity_aliases("somebroker");
    assert_eq!(a.symbol, vec!["symbol", "instrument", "scrip"]);
    assert_eq!(a.isin, vec!["isin"]);
    let u = equity_aliases("upstox");
    assert_eq!(u.avg_price[1], "avg__cost_price");
}
