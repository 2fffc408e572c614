//! Income tax returns kept per assessment year: the keys a saved return is
//! stored under and the answer to deleting one that is not there. The
//! amounts are the application's.

use vstd::prelude::*;
use vstd::string::*;
use crate::error::AppError;
use crate::numeric::{int_text, push_int};
use crate::text::{trim, trim_spec};

verus! {

/// The assessment year and form type a return is saved under, trimmed; a
/// blank assessment year, then a blank form type, is a validation error.
pub open spec fn itr_keys_spec(assessment_year: Seq<char>, form_type: Seq<char>) -> Result<
    (Seq<char>, Seq<char>),
    Seq<char>,
> {
    if trim_spec(assessment_year).len() == 0 {
        Err("Assessment year is required"@)
    } else if trim_spec(form_type).len() == 0 {
        Err("Form type is required"@)
    } else {
        Ok((trim_spec(assessment_year), trim_spec(form_type)))
    }
}

/// The keys a return is saved under (see `itr_keys_spec`); an error is a
/// validation error with the message.
pub fn itr_keys(assessment_year: &str, form_type: &str) -> (r: Result<(String, String), AppError>)
    ensures
        match itr_keys_spec(assessment_year@, form_type@) {
            Ok((a, f)) => r matches Ok((x, y)) && x@ == a && y@ == f,
            Err(m) => r matches Err(AppError::Validation(x)) && x@ == m,
        },
{
    let a = trim(assessment_year);
    let f = trim(form_type);
    if a.unicode_len() == 0 {
        Err(AppError::Validation(String::from_str("Assessment year is required")))
    } else if f.unicode_len() == 0 {
        Err(AppError::Validation(String::from_str("Form type is required")))
    } else {
        Ok((String::from_str(a), String::from_str(f)))
    }
}

/// Deleting return `id` that removed `affected` rows: done when one was
/// removed, else not found, `ITR return ` and the id.
pub fn deleted_or_not_found(affected: usize, id: i64) -> (r: Result<(), AppError>)
    ensures
        affected > 0 ==> r is Ok,
        affected == 0 ==> (r matches Err(AppError::NotFound(m)) && m@ == "ITR return "@ + int_text(id as int)),
{
    if affected == 0 {
        let mut m = String::from_str("ITR return ");
        push_int(&mut m, id);
        Err(AppError::NotFound(m))
    } else {
        Ok(())
    }
}

} // verus!
