//! The decisions of the automatic sync cycle: whether a tick runs at all,
//! what an import's outcome means for the cycle and for the persistent
//! "blocked by a newer backup format" flag, the interval between ticks, and
//! the summaries the cycle and the duplicate cleanup report. Reading and
//! writing the file and the settings are the application's.

use vstd::prelude::*;
use vstd::string::*;
use crate::error::AppError;
use crate::dedupe::DedupePlan;
use crate::numeric::{parse_int_spec, parse_unsigned};
use crate::text::str_eq;

verus! {

/// Interval between ticks, in minutes, when none is configured.
pub const DEFAULT_INTERVAL_MIN: u64 = 30;

/// Shortest interval between ticks, in minutes.
pub const MIN_INTERVAL_MIN: u64 = 5;

/// What an import merged in.
pub struct ImportSummary {
    pub rows_imported: usize,
    pub tables_imported: usize,
}

/// What an export wrote.
pub struct ExportSummary {
    pub rows_exported: usize,
    pub exported_at: String,
}

/// What the duplicate cleanup removed.
pub struct DedupeSummary {
    pub tables_affected: usize,
    pub rows_removed: usize,
}

/// What one sync tick did.
pub struct SyncOutcome {
    pub ran: bool,
    pub imported: bool,
    pub exported_at: Option<String>,
    /// The import was skipped because the remote file is a newer backup
    /// format than this build reads; the export still ran.
    pub blocked_version_mismatch: bool,
}

/// Whether a tick runs: auto-sync is enabled (`"true"`), and a folder and an
/// encrypted sync password are set.
pub fn should_run(enabled: &str, folder: &str, password_enc: &str) -> (r: bool)
    ensures
        r == (enabled@ == "true"@ && folder@.len() > 0 && password_enc@.len() > 0),
{
    str_eq(enabled, "true") && folder.unicode_len() > 0 && password_enc.unicode_len() > 0
}

impl SyncOutcome {
    /// The outcome of a tick that did not run.
    pub fn skipped() -> (o: SyncOutcome)
        ensures
            !o.ran,
            !o.imported,
            o.exported_at is None,
            !o.blocked_version_mismatch,
    {
        SyncOutcome { ran: false, imported: false, exported_at: None, blocked_version_mismatch: false }
    }

    /// The outcome of a tick that ran and exported at `exported_at`.
    pub fn completed(imported: bool, blocked: bool, exported_at: String) -> (o: SyncOutcome)
        ensures
            o.ran,
            o.imported == imported,
            o.blocked_version_mismatch == blocked,
            o.exported_at matches Some(t) && t@ == exported_at@,
    {
        SyncOutcome { ran: true, imported, exported_at: Some(exported_at), blocked_version_mismatch: blocked }
    }
}

/// What an import's outcome means for the tick.
pub struct ImportClassification {
    /// The import merged in at least one row or table.
    pub imported: bool,
    /// The remote file is a newer format than this build reads.
    pub blocked: bool,
    /// The value to store in the "blocked" setting, if it changes.
    pub set_blocked_flag: Option<bool>,
}

/// Classifies an import's outcome. A success clears the blocked flag and
/// counts as imported when it merged anything; a newer-format error sets the
/// flag (it will not fix itself without an update); any other error is
/// swallowed so that this device's own export still runs in the same tick.
pub fn classify_import(result: &Result<ImportSummary, AppError>) -> (c: ImportClassification)
    ensures
        match result {
            Ok(s) => c.imported == (s.rows_imported > 0 || s.tables_imported > 0) && !c.blocked
                && c.set_blocked_flag == Some(false),
            Err(AppError::UnsupportedBackupVersion(_, _)) => !c.imported && c.blocked && c.set_blocked_flag == Some(
                true,
            ),
            Err(_) => !c.imported && !c.blocked && c.set_blocked_flag is None,
        },
{
    match result {
        Ok(s) => ImportClassification {
            imported: s.rows_imported > 0 || s.tables_imported > 0,
            blocked: false,
            set_blocked_flag: Some(false),
        },
        Err(AppError::UnsupportedBackupVersion(_, _)) => ImportClassification {
            imported: false,
            blocked: true,
            set_blocked_flag: Some(true),
        },
        Err(_) => ImportClassification { imported: false, blocked: false, set_blocked_flag: None },
    }
}

/// Whether the stored "blocked" setting says sync is blocked: exactly
/// `"true"`.
pub fn sync_blocked(raw: Option<&str>) -> (r: bool)
    ensures
        r == (raw matches Some(v) && v@ == "true"@),
{
    match raw {
        Some(v) => str_eq(v, "true"),
        None => false,
    }
}

/// The configured interval in minutes: the stored setting when it parses as
/// a `u64`, otherwise the default.
pub fn interval_minutes(raw: Option<&str>) -> (m: u64)
    ensures
        m == match raw {
            Some(v) => match parse_int_spec(v@, false, 0, u64::MAX as int) {
                Some(n) => n as u64,
                None => DEFAULT_INTERVAL_MIN,
            },
            None => DEFAULT_INTERVAL_MIN,
        },
{
    match raw {
        Some(v) => match parse_unsigned(v, u64::MAX) {
            Some(n) => n,
            None => DEFAULT_INTERVAL_MIN,
        },
        None => DEFAULT_INTERVAL_MIN,
    }
}

/// The interval between ticks in seconds before jitter: the configured
/// minutes, at least the minimum, times 60.
pub fn base_interval_secs(interval_min: u64) -> (s: u64)
    requires
        interval_min <= u64::MAX / 60,
    ensures
        s == (if interval_min < MIN_INTERVAL_MIN {
            MIN_INTERVAL_MIN
        } else {
            interval_min
        }) * 60,
{
    let m = if interval_min < MIN_INTERVAL_MIN {
        MIN_INTERVAL_MIN
    } else {
        interval_min
    };
    m * 60
}

/// Whether the one-time duplicate cleanup already ran on this device: its
/// flag is stored as exactly `"true"`.
pub fn dedupe_already_applied(flag: Option<&str>) -> (r: bool)
    ensures
        r == (flag matches Some(v) && v@ == "true"@),
{
    match flag {
        Some(v) => str_eq(v, "true"),
        None => false,
    }
}

/// Number of rows a cleanup plan deletes: those whose survivor is another
/// row.
pub open spec fn removed_count(survivor: Seq<usize>, n: int) -> int
    decreases n,
{
    if n <= 0 {
        0
    } else {
        removed_count(survivor, n - 1) + (if survivor[n - 1] != (n - 1) as usize {
            1int
        } else {
            0
        })
    }
}

/// Number of rows a table's cleanup plan deletes.
pub fn rows_removed(plan: &DedupePlan) -> (k: usize)
    ensures
        k == removed_count(plan.survivor@, plan.survivor@.len() as int),
{
    let n = plan.survivor.len();
    let mut k: usize = 0;
    let mut i: usize = 0;
    while i < n
        invariant
            n == plan.survivor@.len(),
            i <= n,
            k == removed_count(plan.survivor@, i as int),
            k <= i,
        decreases n - i,
    {
        if plan.survivor[i] != i {
            k = k + 1;
        }
        i = i + 1;
    }
    k
}

impl DedupeSummary {
    /// A summary of nothing removed.
    pub fn new() -> (s: DedupeSummary)
        ensures
            s.tables_affected == 0,
            s.rows_removed == 0,
    {
        DedupeSummary { tables_affected: 0, rows_removed: 0 }
    }

    /// Adds one table's cleanup, which removed `removed` rows: the table
    /// counts as affected when it removed any.
    pub fn add_table(&mut self, removed: usize)
        requires
            old(self).rows_removed + removed <= usize::MAX,
            old(self).tables_affected < usize::MAX,
        ensures
            final(self).rows_removed == old(self).rows_removed + removed,
            final(self).tables_affected == old(self).tables_affected + (if removed > 0 {
                1int
            } else {
                0
            }),
    {
        self.rows_removed = self.rows_removed + removed;
        if removed > 0 {
            self.tables_affected = self.tables_affected + 1;
        }
    }
}

} // verus!
