use suvarix::clocks::{a_wins, hlc_fields, hlc_receive, sanitize_hlc, sanitize_hlc_at, text_less, HlcState};
use suvarix::merge::sanitize_legacy_ts;

#[test]
fn sanitize_hlc_rejects_wrong_shape() {
    assert_eq!(sanitize_hlc(None), None);
    assert_eq!(sanitize_hlc(Some("garbage".to_string())), None);
    assert_eq!(sanitize_hlc(Some("123:456:789".to_string())), None); // wrong widths
    assert_eq!(
        sanitize_hlc(Some("1234567890123:000000001:zzzzzzzzzzzzzzzzzzzzzzzzzzzzzzzz".to_string())),
        None,
        "device id must be hex"
    );
}

#[test]
fn sanitize_hlc_rejects_implausible_future_physical_ms() {
    // 13 nines — centuries past any real "now" this app will run at.
    let forged = "9999999999999:000000001:00000000000000000000000000000000".to_string();
    assert_eq!(sanitize_hlc(Some(forged)), None);
}

#[test]
fn sanitize_hlc_accepts_well_formed_current_value() {
    let now_ms = chrono::Utc::now().timestamp_millis();
    let valid = format!("{now_ms:013}:000000001:00000000000000000000000000000000");
    assert_eq!(sanitize_hlc(Some(valid.clone())), Some(valid));
}

#[test]
fn sanitize_legacy_ts_rejects_unparseable_and_implausible_future() {
    assert_eq!(sanitize_legacy_ts("not-a-date".to_string()), "");
    assert_eq!(sanitize_legacy_ts("2099-01-01 00:00:00".to_string()), "");
}

#[test]
fn sanitize_legacy_ts_accepts_ordinary_clock_drift() {
    // A few minutes of real clock drift between devices must not be
    // treated as suspicious — only implausible (multi-day+) jumps are.
    let near_future = (chrono::Utc::now() + chrono::Duration::minutes(5))
        .format("%Y-%m-%d %H:%M:%S")
        .to_string();
    assert_eq!(sanitize_legacy_ts(near_future.clone()), near_future);
}

#[test]
fn sanitize_hlc_at_allows_exactly_one_day_of_skew() {
    let now = 1_700_000_000_000i64;
    let at_limit = format!("{:013}:000000000:{}", now + 86_400_000, "ab".repeat(16));
    let past_limit = format!("{:013}:000000000:{}", now + 86_400_001, "ab".repeat(16));
    assert_eq!(sanitize_hlc_at(Some(at_limit.clone()), now), Some(at_limit));
    assert_eq!(sanitize_hlc_at(Some(past_limit), now), None);
}

#[test]
fn hlc_beats_wall_clock_and_wall_clock_is_the_fallback() {
    let older = "1700000000000:000000001:00000000000000000000000000000000";
    let newer = "1700000000000:000000002:00000000000000000000000000000000";
    // Both sides have a clock: the clock decides, whatever the timestamps say.
    assert!(a_wins(Some(newer), "2020-01-01 00:00:00", Some(older), "2099-01-01 00:00:00", false));
    assert!(!a_wins(Some(older), "2099-01-01 00:00:00", Some(newer), "2020-01-01 00:00:00", false));
    // One side lacks a clock: the wall-clock timestamps decide.
    assert!(a_wins(Some(newer), "2026-01-02 00:00:00", None, "2026-01-01 00:00:00", false));
    assert!(!a_wins(None, "2026-01-01 00:00:00", Some(older), "2026-01-02 00:00:00", false));
}

#[test]
fn identical_clocks_win_only_when_ties_count() {
    let c = "1700000000000:000000001:00000000000000000000000000000000";
    assert!(!a_wins(Some(c), "t", Some(c), "t", false));
    assert!(a_wins(Some(c), "t", Some(c), "t", true));
}

#[test]
fn receiving_a_later_clock_moves_the_state_forward() {
    let st = HlcState { last_physical_ms: 100, last_logical: 5 };
    let r = hlc_receive(st, 200, 3);
    assert_eq!((r.last_physical_ms, r.last_logical), (200, 3));
    let st = HlcState { last_physical_ms: 300, last_logical: 5 };
    let r = hlc_receive(st, 200, 9);
    assert_eq!((r.last_physical_ms, r.last_logical), (300, 5));
}

#[test]
fn hlc_fields_reads_physical_and_logical() {
    assert_eq!(hlc_fields("1700000000000:000000042:abcd"), Some((1700000000000, 42)));
    assert_eq!(hlc_fields("1700000000000"), None);
    assert_eq!(hlc_fields("x:1:abcd"), None);
}

#[test]
fn clock_texts_sort_as_their_clocks() {
    let dev_a = "ffffffffffffffffffffffffffffffff";
    let dev_b = "00000000000000000000000000000000";
    let t1 = format!("1700000000000:000000009:{dev_a}");
    let t2 = format!("1700000000000:000000010:{dev_b}");
    let t3 = format!("1700000000001:000000000:{dev_b}");
    assert!(text_less(&t1, &t2));
    assert!(text_less(&t2, &t3));
    assert!(text_less(&t1, &t3));
    assert!(!text_less(&t3, &t1));
}

#[test]
fn accepted_clock_cannot_drag_local_clock_beyond_a_day() {
    let now: i64 = 1_700_000_000_000;
    let dev = "0123456789abcdef0123456789abcdef";
    let forged = format!("9999999999999:000000000:{dev}");
    assert_eq!(sanitize_hlc_at(Some(forged), now), None);
    let near = format!("{}:000000003:{dev}", now + 1_000);
    let kept = sanitize_hlc_at(Some(near.clone()), now).unwrap();
    let (p, l) = hlc_fields(&kept).unwrap();
    assert_eq!((p, l), (now + 1_000, 3));
    let st = hlc_receive(HlcState { last_physical_ms: now, last_logical: 7 }, p, l);
    assert!(st.last_physical_ms <= now + 86_400_000);
    assert_eq!((st.last_physical_ms, st.last_logical), (now + 1_000, 3));
}

#[test]
fn distinct_clocks_have_exactly_one_winner() {
    let a = "1700000000000:000000001:00000000000000000000000000000000";
    let b = "1700000000000:000000001:ffffffffffffffffffffffffffffffff";
    assert_ne!(
        a_wins(Some(a), "2026-01-01 00:00:00", Some(b), "2026-01-01 00:00:00", false),
        a_wins(Some(b), "2026-01-01 00:00:00", Some(a), "2026-01-01 00:00:00", false)
    );
    assert_ne!(
        a_wins(None, "2026-01-01 00:00:01", Some(b), "2026-01-01 00:00:00", false),
        a_wins(Some(b), "2026-01-01 00:00:00", None, "2026-01-01 00:00:01", false)
    );
}
