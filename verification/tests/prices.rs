use suvarix::prices::{chart_url, nav_date_iso, nav_url, refresh_failed, refresh_start, refresh_written, yahoo_ticker};

#[test]
fn tickers_and_addresses() {
    assert_eq!(yahoo_ticker("INFY", "NSE"), "INFY.NS");
    assert_eq!(yahoo_ticker("INFY", "BSE"), "INFY.BO");
    assert_eq!(
        chart_url("^NSEI"),
        "https://query1.finance.yahoo.com/v8/finance/chart/^NSEI?interval=1d&range=1d"
    );
    assert_eq!(nav_url("120503"), "https://api.mfapi.in/mf/120503");
}

#[test]
fn nav_dates_are_reordered_to_iso() {
    assert_eq!(nav_date_iso("05-03-2024"), "2024-03-05");
    assert_eq!(nav_date_iso("2024-03"), "2024-03");
    assert_eq!(nav_date_iso("1-2-3-4"), "1-2-3-4");
    assert_eq!(nav_date_iso(""), "");
}

#[test]
fn refresh_tally_counts_each_holding() {
    let mut r = refresh_start();
    refresh_written(&mut r, true);
    refresh_written(&mut r, false);
    refresh_failed(&mut r, "INFY", "timeout");
    assert_eq!((r.updated, r.failed), (1, 2));
    assert_eq!(r.errors, vec!["INFY: timeout".to_string()]);
}
