//! The protection pillar of the financial health score: half the marks for
//! life cover, half for health cover, with the matching status and the one
//! fix to suggest. The other pillars weigh money amounts and are the
//! application's.

use vstd::prelude::*;

verus! {

/// The protection pillar's score, status and suggested fix.
#[derive(Debug)]
pub struct Protection {
    pub score: i64,
    pub status: &'static str,
    pub top_fix: &'static str,
}

/// The status line for the covers on record.
pub open spec fn protection_status(has_life: bool, has_health: bool) -> Seq<char> {
    if has_life && has_health {
        "Life and health insurance in place"@
    } else if has_life {
        "Life cover present, health cover missing"@
    } else if has_health {
        "Health cover present, life cover missing"@
    } else {
        "No life or health insurance on record"@
    }
}

/// The fix to suggest: none with both covers, health cover first when it
/// is missing, else life cover.
pub open spec fn protection_fix(has_life: bool, has_health: bool) -> Seq<char> {
    if has_life && has_health {
        ""@
    } else if !has_health {
        "Add a health insurance policy to protect against medical shocks"@
    } else {
        "Add life/term cover if anyone depends on your income"@
    }
}

/// The protection pillar for the covers on record: 50 points for each of
/// life and health cover.
pub fn protection(has_life: bool, has_health: bool) -> (p: Protection)
    ensures
        p.score == (if has_life { 50int } else { 0 }) + (if has_health { 50int } else { 0 }),
        p.status@ == protection_status(has_life, has_health),
        p.top_fix@ == protection_fix(has_life, has_health),
{
    let score: i64 = (if has_life { 50 } else { 0 }) + (if has_health { 50 } else { 0 });
    let status = if has_life && has_health {
        "Life and health insurance in place"
    } else if has_life {
        "Life cover present, health cover missing"
    } else if has_health {
        "Health cover present, life cover missing"
    } else {
        "No life or health insurance on record"
    };
    let top_fix = if has_life && has_health {
        ""
    } else if !has_health {
        "Add a health insurance policy to protect against medical shocks"
    } else {
        "Add life/term cover if anyone depends on your income"
    };
    Protection { score, status, top_fix }
}

} // verus!
