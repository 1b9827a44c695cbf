//! Event booking enquiries: the public form's server-side limits and the
//! admin view's filters and updates.
//!
//! The browser's captcha, honeypot and timing gate are conveniences for the
//! human. They are not a boundary — anything posting directly skips all three —
//! which is why every field is bounded and checked here.

use vstd::prelude::*;
use chrono::Datelike;
use crate::error::AppError;
use crate::text::{
    ascii_digits, char_count, count_ascii_digits, decimal, has_char, lowercase, push_decimal,
    push_str, spec_trim, str_eq, to_lowercase, trim,
};

verus! {

/// Field caps, in characters. They match the form's `maxlength` attributes.
pub const MAX_NAME: usize = 80;
pub const MAX_EMAIL: usize = 254;
pub const MAX_PHONE: usize = 40;
pub const MAX_DETAILS: usize = 2000;

/// How many years ahead an event may be booked.
pub const MAX_YEARS_AHEAD: i32 = 5;

/// A day of the proleptic Gregorian calendar: its number counted from
/// 0001-01-01 (which is day 1) and its year.
#[derive(Debug, Clone, Copy, PartialEq, Eq, Structural)]
pub struct CalendarDate {
    pub days: i32,
    pub year: i32,
}

#[derive(Debug)]
pub struct SubmitRequest {
    pub first_name: String,
    pub last_name: String,
    pub email: String,
    pub phone: String,
    pub event_date: String,
    pub details: String,
}

#[derive(Debug)]
pub struct SubmitResponse {
    pub received: bool,
}

/// An enquiry that passed every check, cleaned for storage.
#[derive(Debug)]
pub struct CleanEnquiry {
    pub first_name: String,
    pub last_name: String,
    pub email: String,
    pub phone: String,
    pub event_date: CalendarDate,
    pub details: String,
}

#[derive(Debug)]
pub struct ListQuery {
    /// `open` (new + contacted), `all`, or one exact status.
    pub status: Option<String>,
}

#[derive(Debug)]
pub struct UpdateRequest {
    pub status: Option<String>,
    pub staff_notes: Option<String>,
}

/// Which enquiries a listing shows.
#[derive(Debug)]
pub enum StatusFilter {
    All,
    /// Still needing a human: `new` and `contacted`.
    Open,
    Exactly(String),
}

/// The closed set of statuses an enquiry can have.
pub open spec fn spec_is_valid_status(s: Seq<char>) -> bool {
    s == "new"@ || s == "contacted"@ || s == "booked"@ || s == "declined"@
}

/// Every status, in the order they are offered.
pub const STATUSES: [&'static str; 4] = ["new", "contacted", "booked", "declined"];

/// The offered statuses are exactly the valid ones.
pub proof fn lemma_statuses_closed(s: Seq<char>)
    ensures
        spec_is_valid_status(s) <==> exists|i: int| 0 <= i < 4 && (#[trigger] STATUSES@[i])@ == s,
{
    assert(STATUSES@[0]@ == "new"@);
    assert(STATUSES@[1]@ == "contacted"@);
    assert(STATUSES@[2]@ == "booked"@);
    assert(STATUSES@[3]@ == "declined"@);
}

pub fn is_valid_status(s: &str) -> (r: bool)
    ensures
        r == spec_is_valid_status(s@),
{
    str_eq(s, "new") || str_eq(s, "contacted") || str_eq(s, "booked") || str_eq(s, "declined")
}

/// Why a required field is refused, if it is: blank after trimming, or longer
/// than `max` characters.
pub open spec fn required_error(value: Seq<char>, field: Seq<char>, max: nat) -> Option<Seq<char>> {
    let v = spec_trim(value);
    if v.len() == 0 {
        Some(field + " is required"@)
    } else if v.len() > max {
        Some(field + " must be "@ + decimal(max) + " characters or fewer"@)
    } else {
        None
    }
}

/// Trim, then refuse if empty or over the cap (counted in characters, not
/// bytes). Returns the cleaned value.
pub fn required(value: &str, field: &str, max: usize) -> (r: Result<String, AppError>)
    ensures
        match required_error(value@, field@, max as nat) {
            Some(m) => r matches Err(AppError::BadRequest(x)) && x@ == m,
            None => r matches Ok(v) && v@ == spec_trim(value@),
        },
{
    let v = trim(value);
    if v.unicode_len() == 0 {
        let mut m = String::new();
        push_str(&mut m, field);
        push_str(&mut m, " is required");
        return Err(AppError::BadRequest(m));
    }
    if char_count(v) > max {
        let mut m = String::new();
        push_str(&mut m, field);
        push_str(&mut m, " must be ");
        push_decimal(&mut m, max as u64);
        push_str(&mut m, " characters or fewer");
        proof {
            assert(m@ =~= field@ + " must be "@ + decimal(max as nat) + " characters or fewer"@);
        }
        return Err(AppError::BadRequest(m));
    }
    Ok(String::from_str(v))
}

/// The shallow shape check the public forms use: an `@` that is neither the
/// first nor the last character.
pub open spec fn email_shape_ok(e: Seq<char>) -> bool {
    has_char(e, '@') && e[0] != '@' && e.last() != '@'
}

/// What `NaiveDate::parse_from_str(s, "%Y-%m-%d")` reads `s` as.
pub uninterp spec fn ymd_date(s: Seq<char>) -> Option<CalendarDate>;

/// `chrono::NaiveDate::parse_from_str` with the format `%Y-%m-%d`, the day
/// taken by `num_days_from_ce` and `year`. Nothing is claimed of which texts
/// parse: that is chrono's calendar.
#[verifier::external_body]
fn parse_ymd(s: &str) -> (r: Option<CalendarDate>)
    ensures
        r == ymd_date(s@),
{
    match chrono::NaiveDate::parse_from_str(s, "%Y-%m-%d") {
        Ok(d) => Some(CalendarDate { days: d.num_days_from_ce(), year: d.year() }),
        Err(_) => None,
    }
}

/// Why an event date is refused, if it is. One day of slack before today, so a
/// submission late in the evening behind UTC is not refused as "yesterday".
pub open spec fn date_error(date: Option<CalendarDate>, today: CalendarDate) -> Option<Seq<char>> {
    match date {
        None => Some("event date must be a real date"@),
        Some(d) => if d.days < today.days - 1 {
            Some("that event date is in the past"@)
        } else if d.year > today.year + MAX_YEARS_AHEAD {
            Some("that event date is too far in the future"@)
        } else {
            None
        },
    }
}

/// Why a submission is refused, if it is; the checks run in the form's order
/// and the first failure wins. `date` is what the event date reads as.
pub open spec fn submission_error(b: SubmitRequest, date: Option<CalendarDate>, today: CalendarDate) -> Option<Seq<char>> {
    let email = lowercase(spec_trim(b.email@));
    let phone = spec_trim(b.phone@);
    if required_error(b.first_name@, "first name"@, 80) is Some {
        required_error(b.first_name@, "first name"@, 80)
    } else if required_error(b.last_name@, "last name"@, 80) is Some {
        required_error(b.last_name@, "last name"@, 80)
    } else if required_error(b.details@, "event details"@, 2000) is Some {
        required_error(b.details@, "event details"@, 2000)
    } else if required_error(b.email@, "email"@, 254) is Some {
        required_error(b.email@, "email"@, 254)
    } else if !email_shape_ok(email) {
        Some("a valid email is required"@)
    } else if required_error(b.phone@, "phone number"@, 40) is Some {
        required_error(b.phone@, "phone number"@, 40)
    } else if ascii_digits(phone) < 7 {
        Some("a valid phone number is required"@)
    } else {
        date_error(date, today)
    }
}

fn check_date(date: Option<CalendarDate>, today: CalendarDate) -> (r: Result<CalendarDate, AppError>)
    ensures
        match date_error(date, today) {
            Some(m) => r matches Err(AppError::BadRequest(x)) && x@ == m,
            None => r == Ok::<CalendarDate, AppError>(date.unwrap()),
        },
{
    match date {
        None => Err(AppError::BadRequest(String::from_str("event date must be a real date"))),
        Some(d) => {
            if (d.days as i64) < (today.days as i64) - 1 {
                Err(AppError::BadRequest(String::from_str("that event date is in the past")))
            } else if (d.year as i64) > (today.year as i64) + (MAX_YEARS_AHEAD as i64) {
                Err(AppError::BadRequest(String::from_str("that event date is too far in the future")))
            } else {
                Ok(d)
            }
        },
    }
}

/// The public form's checks, given what the event date reads as. On success the
/// fields come back trimmed and the email lower-cased.
pub fn check_submission(body: &SubmitRequest, date: Option<CalendarDate>, today: CalendarDate) -> (r: Result<CleanEnquiry, AppError>)
    ensures
        match submission_error(*body, date, today) {
            Some(m) => r matches Err(AppError::BadRequest(x)) && x@ == m,
            None => r matches Ok(c) && {
                &&& c.first_name@ == spec_trim(body.first_name@)
                &&& c.last_name@ == spec_trim(body.last_name@)
                &&& c.details@ == spec_trim(body.details@)
                &&& c.email@ == lowercase(spec_trim(body.email@))
                &&& c.phone@ == spec_trim(body.phone@)
                &&& Some(c.event_date) == date
            },
        },
{
    let first_name = match required(body.first_name.as_str(), "first name", MAX_NAME) {
        Ok(v) => v,
        Err(e) => return Err(e),
    };
    let last_name = match required(body.last_name.as_str(), "last name", MAX_NAME) {
        Ok(v) => v,
        Err(e) => return Err(e),
    };
    let details = match required(body.details.as_str(), "event details", MAX_DETAILS) {
        Ok(v) => v,
        Err(e) => return Err(e),
    };
    let email = match required(body.email.as_str(), "email", MAX_EMAIL) {
        Ok(v) => to_lowercase(v.as_str()),
        Err(e) => return Err(e),
    };
    let n = email.unicode_len();
    if !crate::text::contains_char(email.as_str(), '@') || email.as_str().get_char(0) == '@'
        || email.as_str().get_char(n - 1) == '@' {
        return Err(AppError::BadRequest(String::from_str("a valid email is required")));
    }
    let phone = match required(body.phone.as_str(), "phone number", MAX_PHONE) {
        Ok(v) => v,
        Err(e) => return Err(e),
    };
    if count_ascii_digits(phone.as_str()) < 7 {
        return Err(AppError::BadRequest(String::from_str("a valid phone number is required")));
    }
    let event_date = match check_date(date, today) {
        Ok(d) => d,
        Err(e) => return Err(e),
    };
    Ok(CleanEnquiry { first_name, last_name, email, phone, event_date, details })
}

/// The public form's checks, reading the event date (trimmed) as `%Y-%m-%d`.
pub fn validate_submission(body: &SubmitRequest, today: CalendarDate) -> (r: Result<CleanEnquiry, AppError>)
    ensures
        match submission_error(*body, ymd_date(spec_trim(body.event_date@)), today) {
            Some(m) => r matches Err(AppError::BadRequest(x)) && x@ == m,
            None => r matches Ok(c) && Some(c.event_date) == ymd_date(spec_trim(body.event_date@)),
        },
{
    let date = parse_ymd(trim(body.event_date.as_str()));
    check_submission(body, date, today)
}

/// Which listing a `status` query asks for: absent or `all` for everything,
/// `open` for what still needs a human, or one exact status.
pub fn status_filter(q: &ListQuery) -> (r: Result<StatusFilter, AppError>)
    ensures
        match q.status {
            None => r matches Ok(StatusFilter::All),
            Some(s) => if s@ == "all"@ {
                r matches Ok(StatusFilter::All)
            } else if s@ == "open"@ {
                r matches Ok(StatusFilter::Open)
            } else if spec_is_valid_status(s@) {
                r matches Ok(StatusFilter::Exactly(x)) && x@ == s@
            } else {
                r matches Err(AppError::BadRequest(m)) && m@ == "unknown status filter '"@ + s@ + "'"@
            },
        },
{
    match &q.status {
        None => Ok(StatusFilter::All),
        Some(s) => {
            if str_eq(s.as_str(), "all") {
                Ok(StatusFilter::All)
            } else if str_eq(s.as_str(), "open") {
                Ok(StatusFilter::Open)
            } else if is_valid_status(s.as_str()) {
                Ok(StatusFilter::Exactly(s.clone()))
            } else {
                let mut m = String::new();
                push_str(&mut m, "unknown status filter '");
                push_str(&mut m, s.as_str());
                push_str(&mut m, "'");
                Err(AppError::BadRequest(m))
            }
        },
    }
}

/// Why an admin update is refused, if it is.
pub open spec fn update_error(b: UpdateRequest) -> Option<Seq<char>> {
    if b.status matches Some(s) && !spec_is_valid_status(s@) {
        Some("status must be one of new, contacted, booked, declined"@)
    } else if b.staff_notes matches Some(n) && n@.len() > MAX_DETAILS {
        Some("notes must be 2000 characters or fewer"@)
    } else if b.status is None && b.staff_notes is None {
        Some("nothing to update"@)
    } else {
        None
    }
}

pub fn check_update(body: &UpdateRequest) -> (r: Result<(), AppError>)
    ensures
        match update_error(*body) {
            Some(m) => r matches Err(AppError::BadRequest(x)) && x@ == m,
            None => r is Ok,
        },
{
    if let Some(s) = &body.status {
        if !is_valid_status(s.as_str()) {
            return Err(AppError::BadRequest(String::from_str(
                "status must be one of new, contacted, booked, declined",
            )));
        }
    }
    if let Some(n) = &body.staff_notes {
        if char_count(n.as_str()) > MAX_DETAILS {
            return Err(AppError::BadRequest(String::from_str("notes must be 2000 characters or fewer")));
        }
    }
    if body.status.is_none() && body.staff_notes.is_none() {
        return Err(AppError::BadRequest(String::from_str("nothing to update")));
    }
    Ok(())
}

} // verus!
