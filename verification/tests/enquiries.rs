use blendbar::enquiries::{
    check_submission, check_update, is_valid_status, required, status_filter, CalendarDate, ListQuery,
    StatusFilter, SubmitRequest, UpdateRequest, STATUSES,
};
use blendbar::error::AppError;

#[test]
fn required_trims_and_bounds() {
    assert_eq!(required("  Ada  ", "first name", 80).unwrap(), "Ada");
    assert!(required("   ", "first name", 80).is_err());
    assert!(required(&"x".repeat(81), "first name", 80).is_err());
    assert!(required(&"é".repeat(80), "first name", 80).is_ok());
}

#[test]
fn status_values_are_closed() {
    for s in STATUSES {
        assert!(is_valid_status(s));
    }
    assert!(!is_valid_status("spam"));
    assert!(!is_valid_status(""));
    assert!(!is_valid_status("open"));
}

fn message(e: AppError) -> String {
    match e {
        AppError::BadRequest(m) => m,
        other => panic!("expected a bad request, got {other:?}"),
    }
}

#[test]
fn required_names_the_field_and_the_cap() {
    assert_eq!(message(required("", "first name", 80).unwrap_err()), "first name is required");
    assert_eq!(
        message(required(&"x".repeat(81), "first name", 80).unwrap_err()),
        "first name must be 80 characters or fewer"
    );
}

fn submission() -> SubmitRequest {
    SubmitRequest {
        first_name: " Ada ".into(),
        last_name: "Lovelace".into(),
        email: " Ada@Example.COM ".into(),
        phone: "(405) 555-0100".into(),
        event_date: "2026-09-01".into(),
        details: "A birthday party for twelve".into(),
    }
}

const TODAY: CalendarDate = CalendarDate { days: 739_000, year: 2026 };

#[test]
fn a_good_submission_is_cleaned() {
    let date = Some(CalendarDate { days: 739_030, year: 2026 });
    let c = check_submission(&submission(), date, TODAY).unwrap();
    assert_eq!(c.first_name, "Ada");
    assert_eq!(c.email, "ada@example.com");
    assert_eq!(c.phone, "(405) 555-0100");
    assert_eq!(c.event_date, date.unwrap());
}

#[test]
fn each_submission_check_has_its_answer() {
    let ok_date = Some(CalendarDate { days: 739_030, year: 2026 });
    let mut b = submission();
    b.email = "@example.com".into();
    assert_eq!(message(check_submission(&b, ok_date, TODAY).unwrap_err()), "a valid email is required");
    let mut b = submission();
    b.phone = "555-01".into();
    assert_eq!(message(check_submission(&b, ok_date, TODAY).unwrap_err()), "a valid phone number is required");
    let b = submission();
    assert_eq!(message(check_submission(&b, None, TODAY).unwrap_err()), "event date must be a real date");
    let yesterday = Some(CalendarDate { days: 738_999, year: 2026 });
    assert!(check_submission(&b, yesterday, TODAY).is_ok());
    let before = Some(CalendarDate { days: 738_998, year: 2026 });
    assert_eq!(message(check_submission(&b, before, TODAY).unwrap_err()), "that event date is in the past");
    let far = Some(CalendarDate { days: 741_200, year: 2032 });
    assert_eq!(
        message(check_submission(&b, far, TODAY).unwrap_err()),
        "that event date is too far in the future"
    );
}

#[test]
fn the_open_filter_is_not_a_status() {
    assert!(matches!(status_filter(&ListQuery { status: None }), Ok(StatusFilter::All)));
    assert!(matches!(status_filter(&ListQuery { status: Some("open".into()) }), Ok(StatusFilter::Open)));
    assert!(matches!(status_filter(&ListQuery { status: Some("booked".into()) }), Ok(StatusFilter::Exactly(s)) if s == "booked"));
    assert_eq!(
        message(status_filter(&ListQuery { status: Some("spam".into()) }).unwrap_err()),
        "unknown status filter 'spam'"
    );
    assert_eq!(
        message(check_update(&UpdateRequest { status: Some("open".into()), staff_notes: None }).unwrap_err()),
        "status must be one of new, contacted, booked, declined"
    );
    assert_eq!(
        message(check_update(&UpdateRequest { status: None, staff_notes: None }).unwrap_err()),
        "nothing to update"
    );
}
