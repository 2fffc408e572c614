//! Recording a paid reminder and applying a recurring transaction: which
//! kind of item was paid, how a credit card payment is labelled, and the next
//! due date each moves on to.

use vstd::prelude::*;
use vstd::string::*;
use crate::calendar::{
    advance_date, advance_defined, advance_is_defined, advance_spec, date_text, format_ymd_spec,
    next_after_spec, next_due_after, parse_date, parse_ymd_spec, Date,
};
use crate::error::AppError;
use crate::text::str_eq;

verus! {

/// The kinds of item a payment reminder is about.
#[derive(Clone, Copy, Debug, PartialEq, Eq, Structural)]
pub enum PaidSource {
    Loan,
    CreditCard,
    Bill,
}

/// The kind of item a reminder's `source` names: `loan`, `credit_card` or
/// `bill`; anything else is an error.
pub open spec fn paid_source_spec(source: Seq<char>) -> Option<PaidSource> {
    if source == "loan"@ {
        Some(PaidSource::Loan)
    } else if source == "credit_card"@ {
        Some(PaidSource::CreditCard)
    } else if source == "bill"@ {
        Some(PaidSource::Bill)
    } else {
        None
    }
}

/// The kind of item a reminder's `source` names; an unknown one is a
/// database error, `unknown reminder source`.
pub fn paid_source(source: &str) -> (r: Result<PaidSource, AppError>)
    ensures
        match paid_source_spec(source@) {
            Some(k) => r == Ok::<PaidSource, AppError>(k),
            None => r matches Err(AppError::Database(m)) && m@ == "unknown reminder source"@,
        },
{
    if str_eq(source, "loan") {
        Ok(PaidSource::Loan)
    } else if str_eq(source, "credit_card") {
        Ok(PaidSource::CreditCard)
    } else if str_eq(source, "bill") {
        Ok(PaidSource::Bill)
    } else {
        Err(AppError::Database(String::from_str("unknown reminder source")))
    }
}

/// The description of a credit card payment: the bank and the card's name
/// with a space between, or the bank alone.
pub open spec fn card_label_spec(bank: Seq<char>, card: Option<Seq<char>>) -> Seq<char> {
    match card {
        Some(c) => bank + " "@ + c,
        None => bank,
    }
}

/// The description of a credit card payment (see `card_label_spec`).
pub fn card_label(bank: &str, card: Option<&str>) -> (r: String)
    ensures
        r@ == card_label_spec(
            bank@,
            match card {
                Some(c) => Some(c@),
                None => None,
            },
        ),
{
    match card {
        Some(c) => {
            let mut s = String::from_str(bank);
            s.append(" ");
            s.append(c);
            s
        },
        None => String::from_str(bank),
    }
}

/// A `YYYY-MM-DD` text as a date, when chrono reads it as one.
pub open spec fn parsed_date(s: Seq<char>) -> Option<Date> {
    match parse_ymd_spec(s) {
        Some((y, m, d)) => Some(Date { year: y as i32, month: m as u32, day: d as u32 }),
        None => None,
    }
}

/// A date as chrono writes it, `YYYY-MM-DD`.
pub open spec fn date_text_spec(d: Date) -> Seq<char> {
    format_ymd_spec(d.year as int, d.month as int, d.day as int)
}

/// The due date a bill moves on to once paid: none for a one-time bill or
/// an unreadable due date, else the next occurrence at its frequency. Also
/// none where that occurrence is past the last representable date.
pub open spec fn bill_next_due_spec(frequency: Seq<char>, current_due: Seq<char>) -> Option<Seq<char>> {
    if frequency == "one_time"@ {
        None
    } else {
        match parsed_date(current_due) {
            Some(d) => if advance_defined(d, frequency) {
                Some(date_text_spec(advance_spec(d, frequency)))
            } else {
                None
            },
            None => None,
        }
    }
}

/// The due date a bill moves on to once paid (see `bill_next_due_spec`).
pub fn bill_next_due(frequency: &str, current_due: &str) -> (r: Option<String>)
    ensures
        match r {
            Some(s) => bill_next_due_spec(frequency@, current_due@) == Some(s@),
            None => bill_next_due_spec(frequency@, current_due@) is None,
        },
{
    if str_eq(frequency, "one_time") {
        return None;
    }
    match parse_date(current_due) {
        Some(d) => {
            if advance_is_defined(d, frequency) {
                let next = advance_date(d, frequency);
                Some(date_text(next))
            } else {
                None
            }
        },
        None => None,
    }
}

/// The due date a recurring transaction moves on to when applied on
/// `today`: the next occurrence after today of its due date; today itself
/// when the due date is unreadable. None where stepping the date fails.
pub open spec fn recurring_next_due_spec(due: Seq<char>, frequency: Seq<char>, today: Date) -> Option<Seq<char>> {
    match parsed_date(due) {
        Some(d) => match next_after_spec(d, frequency, today) {
            Some(n) => Some(date_text_spec(n)),
            None => None,
        },
        None => Some(date_text_spec(today)),
    }
}

/// The due date a recurring transaction moves on to when applied on
/// `today` (see `recurring_next_due_spec`).
pub fn recurring_next_due(due: &str, frequency: &str, today: Date) -> (r: Option<String>)
    requires
        today.wf(),
    ensures
        match r {
            Some(s) => recurring_next_due_spec(due@, frequency@, today) == Some(s@),
            None => recurring_next_due_spec(due@, frequency@, today) is None,
        },
{
    match parse_date(due) {
        Some(d) => match next_due_after(d, frequency, today) {
            Some(n) => Some(date_text(n)),
            None => None,
        },
        None => Some(date_text(today)),
    }
}

} // verus!
