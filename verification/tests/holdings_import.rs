use suvarix::csv_table::{read_grid, strip_commas, ColumnSpec};
use suvarix::error::AppError;
use suvarix::holdings_csv::{
    asset_kind, holding_exchange, holding_isin, AssetKind,
    parse_bond_cells, parse_crypto_cells, parse_equity_cells, parse_fd_cells, parse_gold_cells, parse_mf_cells,
    parse_ppf_epf_cells,
};

fn parse_message(e: AppError) -> String {
    match e {
        AppError::Parse(m) => m,
        _ => panic!("expected a parse error"),
    }
}

#[test]
fn strip_commas_removes_thousands_separators() {
    assert_eq!(strip_commas("1,250.50"), "1250.50");
    assert_eq!(strip_commas(""), "");
    assert_eq!(strip_commas(",,"), "");
}

#[test]
fn grid_trims_cells_and_pads_short_records() {
    let specs = vec![
        ColumnSpec { aliases: vec!["name"], missing: Some("name column not found") },
        ColumnSpec { aliases: vec!["note"], missing: None },
        ColumnSpec { aliases: vec!["extra"], missing: None },
    ];
    let grid = read_grid("Name, Note\n  alpha ,  x \nbeta\n", &specs).unwrap();
    assert_eq!(grid.len(), 2);
    assert_eq!(grid[0], vec![Some("alpha".to_string()), Some("x".to_string()), None]);
    assert_eq!(grid[1], vec![Some("beta".to_string()), Some(String::new()), None]);
}

#[test]
fn grid_reports_first_missing_required_column() {
    let specs = vec![
        ColumnSpec { aliases: vec!["a"], missing: None },
        ColumnSpec { aliases: vec!["b"], missing: Some("b column not found") },
        ColumnSpec { aliases: vec!["c"], missing: Some("c column not found") },
    ];
    let err = read_grid("x,y\n1,2\n", &specs).unwrap_err();
    assert_eq!(parse_message(err), "b column not found");
}

#[test]
fn equity_export_uses_broker_aliases() {
    let csv = "Instrument,Qty.,Avg. cost,LTP,ISIN\nINFY,10,\"1,450.25\",1500,INE009A01021\n,5,100,,\n";
    let rows = parse_equity_cells("zerodha", csv).unwrap();
    assert_eq!(rows.len(), 2);
    let first = rows[0].as_ref().unwrap();
    assert_eq!(first.symbol, "INFY");
    assert_eq!(first.quantity, "10");
    assert_eq!(first.avg_price, "1450.25");
    assert_eq!(first.ltp, Some("1500".to_string()));
    assert_eq!(first.exchange, None);
    assert_eq!(first.isin, Some("INE009A01021".to_string()));
    assert!(rows[1].is_none());
}

#[test]
fn equity_export_without_symbol_column_is_an_error() {
    let err = parse_equity_cells("groww", "qty,avg_price\n1,2\n").unwrap_err();
    assert_eq!(parse_message(err), "Symbol column not found in CSV");
    let err = parse_equity_cells("groww", "symbol,avg_price\nA,2\n").unwrap_err();
    assert_eq!(parse_message(err), "Quantity column not found in CSV");
}

#[test]
fn mf_export_defaults_flags_and_amc() {
    let csv = "Scheme Name,ISIN,Folio,Units,Avg NAV,Direct\nAxis Bluechip,INF846K01DP8,123/45,100.5,40,Yes\nNo Folio,INF1,,1,1,\n";
    let rows = parse_mf_cells(csv).unwrap();
    let first = rows[0].as_ref().unwrap();
    assert_eq!(first.scheme_name, "Axis Bluechip");
    assert_eq!(first.folio_number, "123/45");
    assert_eq!(first.units, "100.5");
    assert_eq!(first.current_nav, None);
    assert!(first.is_direct);
    assert!(first.is_growth);
    assert_eq!(first.amc_name, "Unknown");
    assert!(rows[1].is_none());
}

#[test]
fn mf_export_missing_units_column() {
    let err = parse_mf_cells("scheme_name,isin,folio_number,avg_nav\na,b,c,1\n").unwrap_err();
    assert_eq!(parse_message(err), "units column not found");
}

#[test]
fn fd_export_defaults_compounding_and_cumulative() {
    let csv = "Bank,Principal,Rate,Tenure,Start Date,Maturity Date,Cumulative\n\
               SBI,\"1,00,000\",7.1,12,2024-01-01,2025-01-01,no\n\
               HDFC,5000,7,12,2024-01-01,,\n";
    let rows = parse_fd_cells(csv).unwrap();
    let first = rows[0].as_ref().unwrap();
    assert_eq!(first.bank_name, "SBI");
    assert_eq!(first.principal, "100000");
    assert_eq!(first.compounding, "quarterly");
    assert_eq!(first.account_number, None);
    assert_eq!(first.is_cumulative, 0);
    assert!(rows[1].is_none());
}

#[test]
fn fd_export_missing_tenure_column() {
    let err = parse_fd_cells("bank,principal,rate,start_date,maturity_date\n").unwrap_err();
    assert_eq!(parse_message(err), "tenure_months column not found");
}

#[test]
fn gold_export_keeps_known_kinds_lowercased() {
    let csv = "Gold Type,Weight,Avg Price\nSGB,,5000\nbars,10,6000\n";
    let rows = parse_gold_cells(csv).unwrap();
    let first = rows[0].as_ref().unwrap();
    assert_eq!(first.gold_type, "sgb");
    assert_eq!(first.weight_grams, Some(String::new()));
    assert_eq!(first.avg_buy_price, "5000");
    assert!(rows[1].is_none());
}

#[test]
fn crypto_export_uppercases_coin() {
    let csv = "Exchange,Coin,Qty,Avg Price\nWazirX,btc,0.5,\"30,00,000\"\n,eth,1,1\n";
    let rows = parse_crypto_cells(csv).unwrap();
    let first = rows[0].as_ref().unwrap();
    assert_eq!(first.coin_symbol, "BTC");
    assert_eq!(first.avg_buy_price, "3000000");
    assert!(rows[1].is_none());
}

#[test]
fn bond_export_normalises_kind_and_frequency() {
    let csv = "Issuer,Type,Qty,Buy Price,Coupon Frequency,Purchase Date\n\
               REC,Tax_Free,10,1000,Monthly,2023-05-01\n\
               NHAI,perpetual,1,1000,weekly,2023-05-01\n\
               X,,1,1,,\n";
    let rows = parse_bond_cells(csv).unwrap();
    let first = rows[0].as_ref().unwrap();
    assert_eq!(first.bond_type, "tax_free");
    assert_eq!(first.coupon_frequency, "monthly");
    assert_eq!(first.face_value, None);
    let second = rows[1].as_ref().unwrap();
    assert_eq!(second.bond_type, "corporate");
    assert_eq!(second.coupon_frequency, "semi_annual");
    assert!(rows[2].is_none());
}

#[test]
fn ppf_epf_export_keeps_known_kinds_uppercased() {
    let csv = "Account Type,Balance,Rate,FY\nppf,\"1,50,000\",7.1,2024-25\nrd,100,6,\n";
    let rows = parse_ppf_epf_cells(csv).unwrap();
    let first = rows[0].as_ref().unwrap();
    assert_eq!(first.account_type, "PPF");
    assert_eq!(first.balance, "150000");
    assert_eq!(first.financial_year, Some("2024-25".to_string()));
    assert!(rows[1].is_none());
}

#[test]
fn generic_import_dispatches_by_asset_type() {
    assert_eq!(asset_kind("fd").unwrap(), AssetKind::Fd);
    assert_eq!(asset_kind("ppf_epf").unwrap(), AssetKind::PpfEpf);
    match asset_kind("stamps") {
        Err(AppError::Validation(m)) => assert_eq!(m, "Unknown asset type: stamps"),
        _ => panic!("expected a validation error"),
    }
}

#[test]
fn broker_holding_keys_have_defaults() {
    assert_eq!(holding_isin("INFY", Some("INE009A01021")), "INE009A01021");
    assert_eq!(holding_isin("INFY", Some("")), "INFY");
    assert_eq!(holding_isin("INFY", None), "INFY");
    assert_eq!(holding_exchange(Some("NSE")), "NSE");
    assert_eq!(holding_exchange(None), "-");
}
