//! Journal dates: page ids and the long form shown in headings.
use vstd::prelude::*;

use chrono::NaiveDate;

verus! {

/// The id of the journal page of a date: `page:` followed by the date.
pub fn page_id_for(date: &str) -> (r: String)
    ensures
        r@ == "page:"@ + date@,
{
    let mut id = "page:".to_owned();
    id.append(date);
    id
}

#[verifier::external_type_specification]
#[verifier::external_body]
pub struct ExNaiveDate(NaiveDate);

/// The date that chrono reads from a text in the form `YYYY-MM-DD`, `None` where it reads none.
pub uninterp spec fn iso_date_of(s: Seq<char>) -> Option<NaiveDate>;

/// The long form of a date that chrono writes, as in `January 05, 2024`.
pub uninterp spec fn long_form_of(d: NaiveDate) -> Seq<char>;

/// Relies on chrono's `NaiveDate::parse_from_str` with the format `%Y-%m-%d`.
#[verifier::external_body]
fn parse_iso_date(s: &str) -> (r: Option<NaiveDate>)
    ensures
        r == iso_date_of(s@),
{
    NaiveDate::parse_from_str(s, "%Y-%m-%d").ok()
}

/// Relies on chrono's `NaiveDate::format` with the format `%B %d, %Y`, written out.
#[verifier::external_body]
fn long_form(d: &NaiveDate) -> (r: String)
    ensures
        r@ == long_form_of(*d),
{
    d.format("%B %d, %Y").to_string()
}

/// The long form of a `YYYY-MM-DD` date; any other text is returned as it is.
pub fn date_str_format(date: &str) -> (r: String)
    ensures
        r@ == match iso_date_of(date@) {
            Some(d) => long_form_of(d),
            None => date@,
        },
{
    match parse_iso_date(date) {
        Some(d) => long_form(&d),
        None => date.to_owned(),
    }
}

} // verus!
