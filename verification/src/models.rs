//! Records exchanged with the user interface, and the small rules that
//! decide them: a category's name, the broker connection status, the
//! receipt scanner's availability.

use vstd::prelude::*;
use vstd::string::*;
use crate::calendar::{format_ymd, format_ymd_spec, Date};
use crate::error::AppError;
use crate::numeric::{int_text, push_int};
use crate::text::{str_eq, trim, trim_spec};

verus! {

/// A financial account.
pub struct Account {
    pub id: i64,
    pub name: String,
    pub type_: String,
    pub provider: Option<String>,
    pub external_id: Option<String>,
    pub is_active: bool,
    pub created_at: String,
    pub updated_at: String,
}

/// How a transaction list is filtered, sorted and paged.
pub struct TransactionFilter {
    pub type_: Option<String>,
    pub asset_class: Option<String>,
    pub account_id: Option<i64>,
    pub category: Option<String>,
    pub date_from: Option<String>,
    pub date_to: Option<String>,
    /// Matched against description or category, ignoring case.
    pub search: Option<String>,
    /// `date` (the default) or `amount`.
    pub sort_by: Option<String>,
    /// `asc` or `desc` (the default).
    pub sort_dir: Option<String>,
    pub limit: Option<i64>,
    pub offset: Option<i64>,
}

/// What an import wrote and skipped.
pub struct ImportResult {
    pub imported: i64,
    pub skipped: i64,
}

/// Usage count of one analytics event.
pub struct EventStat {
    pub event_name: String,
    pub count: i64,
    pub last_seen: String,
}

/// One recorded error.
pub struct ErrorEntry {
    pub id: i64,
    pub error_type: String,
    pub message: String,
    pub created_at: String,
}

/// What a price refresh updated.
pub struct RefreshResult {
    pub updated: i64,
    pub failed: i64,
    pub errors: Vec<String>,
}

/// What a broker holdings sync wrote.
pub struct SyncResult {
    pub synced: i64,
    pub errors: Vec<String>,
}

// ── Categories ─────────────────────────────────────────────────────────

/// A spending category.
pub struct Category {
    pub id: i64,
    pub name: String,
    pub created_at: String,
}

/// A category name as entered.
pub struct CategoryPayload {
    pub name: String,
}

/// The name a category is stored under: the entered name trimmed; an empty
/// one is refused.
pub fn category_name(name: &str) -> (r: Result<&str, AppError>)
    ensures
        trim_spec(name@).len() == 0 ==> (r matches Err(AppError::Validation(m)) && m@
            == "Category name cannot be empty"@),
        trim_spec(name@).len() > 0 ==> (r matches Ok(n) && n@ == trim_spec(name@)),
{
    let t = trim(name);
    if t.unicode_len() == 0 {
        Err(AppError::Validation(String::from_str("Category name cannot be empty")))
    } else {
        Ok(t)
    }
}

/// The refusal of a second category with the same name.
pub fn duplicate_category_error(name: &str) -> (e: AppError)
    ensures
        e matches AppError::Validation(m) && m@ == "Category \""@ + name@ + "\" already exists"@,
{
    let mut m = String::from_str("Category \"");
    m.append(name);
    m.append("\" already exists");
    AppError::Validation(m)
}

/// Whether a category can be deleted: only when no record uses it.
pub fn category_deletable(name: &str, in_use: i64) -> (r: Result<(), AppError>)
    ensures
        in_use <= 0 ==> r is Ok,
        in_use > 0 ==> (r matches Err(AppError::Validation(m)) && m@ == "Category \""@ + name@ + "\" is used by "@
            + int_text(in_use as int)
            + " existing record(s) and can't be deleted. Remove or recategorize them first."@),
{
    if in_use <= 0 {
        return Ok(());
    }
    let mut m = String::from_str("Category \"");
    m.append(name);
    m.append("\" is used by ");
    push_int(&mut m, in_use);
    m.append(" existing record(s) and can't be deleted. Remove or recategorize them first.");
    Err(AppError::Validation(m))
}

// ── Broker connections ─────────────────────────────────────────────────

/// Zerodha connection status.
pub struct ZerodhaStatus {
    pub has_config: bool,
    pub is_connected: bool,
    pub token_date: Option<String>,
}

/// Upstox connection status.
pub struct UpstoxStatus {
    pub has_config: bool,
    pub is_connected: bool,
    pub token_date: Option<String>,
}

/// Angel One connection status.
pub struct AngelStatus {
    pub has_config: bool,
    pub is_connected: bool,
    pub token_date: Option<String>,
}

/// Whether a broker session is live on `today`: a token is stored and it
/// was obtained today (its date text is today's `YYYY-MM-DD`).
pub open spec fn connected_spec(has_token: bool, token_date: Option<Seq<char>>, today: Date) -> bool {
    has_token && token_date == Some(format_ymd_spec(today.year as int, today.month as int, today.day as int))
}

/// Plain-value view of an optional text.
pub open spec fn opt_view(o: Option<String>) -> Option<Seq<char>> {
    match o {
        Some(s) => Some(s@),
        None => None,
    }
}

fn connected(has_token: bool, token_date: &Option<String>, today: Date) -> (r: bool)
    requires
        today.wf(),
    ensures
        r == connected_spec(has_token, opt_view(*token_date), today),
{
    if !has_token {
        return false;
    }
    let t = format_ymd(today);
    match token_date {
        Some(d) => str_eq(d.as_str(), t.as_str()),
        None => false,
    }
}

/// Zerodha's status: configured with a key and a secret; connected per
/// `connected_spec`.
pub fn zerodha_status(has_key: bool, has_secret: bool, has_token: bool, token_date: Option<String>, today: Date) -> (s:
    ZerodhaStatus)
    requires
        today.wf(),
    ensures
        s.has_config == (has_key && has_secret),
        s.is_connected == connected_spec(has_token, opt_view(token_date), today),
        opt_view(s.token_date) == opt_view(token_date),
{
    let c = connected(has_token, &token_date, today);
    ZerodhaStatus { has_config: has_key && has_secret, is_connected: c, token_date }
}

/// Upstox's status: configured with a key and a secret; connected per
/// `connected_spec`.
pub fn upstox_status(has_key: bool, has_secret: bool, has_token: bool, token_date: Option<String>, today: Date) -> (s:
    UpstoxStatus)
    requires
        today.wf(),
    ensures
        s.has_config == (has_key && has_secret),
        s.is_connected == connected_spec(has_token, opt_view(token_date), today),
        opt_view(s.token_date) == opt_view(token_date),
{
    let c = connected(has_token, &token_date, today);
    UpstoxStatus { has_config: has_key && has_secret, is_connected: c, token_date }
}

/// Angel One's status: configured with a key and a client id; connected per
/// `connected_spec` (its token is a JWT).
pub fn angel_status(has_key: bool, has_client_id: bool, has_jwt: bool, token_date: Option<String>, today: Date) -> (s:
    AngelStatus)
    requires
        today.wf(),
    ensures
        s.has_config == (has_key && has_client_id),
        s.is_connected == connected_spec(has_jwt, opt_view(token_date), today),
        opt_view(s.token_date) == opt_view(token_date),
{
    let c = connected(has_jwt, &token_date, today);
    AngelStatus { has_config: has_key && has_client_id, is_connected: c, token_date }
}

// ── Receipt scanning ───────────────────────────────────────────────────

/// Where a receipt image comes from: `camera` or `gallery`.
pub struct ScanRequest {
    pub source: String,
}

/// One recognised line of text, with its distance from the top.
pub struct OcrLine {
    pub text: String,
    pub top: i32,
}

/// What a receipt scan recognised.
pub struct ScanResult {
    /// The user backed out without an image.
    pub cancelled: bool,
    pub full_text: String,
    pub lines: Vec<OcrLine>,
}

/// Whether receipt scanning is available: only on Android.
pub fn scanning_supported(android: bool) -> (r: bool)
    ensures
        r == android,
{
    android
}

} // verus!
