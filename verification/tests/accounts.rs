use blendbar::accounts::{
    bypass_matches, email_search_pattern, full_session, keeps_an_admin, login_status, magic_link, may_enroll_mfa,
    mfa_step, new_employee_email, normalized_email, reorder_allowed, reorder_check, stamps_consent, EmployeeRole,
    MfaStep, ReorderBody, ReorderCheck,
};
use blendbar::error::AppError;
use blendbar::order::{BottleSize, OrderType};

#[test]
fn searches_match_anywhere_in_the_address() {
    assert_eq!(email_search_pattern("ada"), "%ada%");
}

#[test]
fn consent_is_stamped_once() {
    assert!(stamps_consent(Some(true), false));
    assert!(!stamps_consent(Some(true), true));
    assert!(!stamps_consent(Some(false), false));
    assert!(!stamps_consent(None, false));
}

#[test]
fn new_employees_need_an_address() {
    assert_eq!(new_employee_email("  New@Hire.COM ").unwrap(), "new@hire.com");
    assert!(matches!(new_employee_email("nobody"), Err(AppError::BadRequest(m)) if m == "a valid email is required"));
    assert_eq!(EmployeeRole::Admin.as_str(), "admin");
    assert_eq!(EmployeeRole::Worker.as_str(), "worker");
}

#[test]
fn the_last_admin_stays() {
    assert!(matches!(keeps_an_admin(0), Err(AppError::BadRequest(m)) if m == "can't remove the last active admin"));
    assert!(keeps_an_admin(1).is_ok());
}

#[test]
fn sign_in_does_not_tell_who_has_an_account() {
    assert!(matches!(login_status(false, false, true), Err(AppError::Unauthorized)));
    assert!(matches!(login_status(true, false, true), Err(AppError::Unauthorized)));
    assert_eq!(login_status(true, true, true).unwrap(), "mfa_required");
    assert_eq!(login_status(true, true, false).unwrap(), "enroll_required");
    assert_eq!(normalized_email(" Ops@X.com "), "ops@x.com");
}

#[test]
fn the_second_factor_steps() {
    assert!(matches!(may_enroll_mfa(false, false), Err(AppError::BadRequest(m)) if m == "already authenticated"));
    assert!(matches!(may_enroll_mfa(true, true), Err(AppError::BadRequest(_))));
    assert!(may_enroll_mfa(true, false).is_ok());
    assert_eq!(mfa_step(false, false).unwrap(), MfaStep::AlreadyVerified);
    assert!(matches!(mfa_step(true, false), Err(AppError::BadRequest(m)) if m == "start MFA enrollment first"));
    assert_eq!(mfa_step(true, true).unwrap(), MfaStep::CheckCode);
    assert!(matches!(full_session(true), Err(AppError::Unauthorized)));
    assert!(full_session(false).is_ok());
}

#[test]
fn the_preview_bypass_needs_an_exact_match() {
    assert!(bypass_matches(Some(" Owner@Shop.com "), "owner@shop.com"));
    assert!(!bypass_matches(Some("   "), ""));
    assert!(!bypass_matches(None, "owner@shop.com"));
    assert!(!bypass_matches(Some("other@shop.com"), "owner@shop.com"));
}

#[test]
fn builds_the_sign_in_link() {
    assert_eq!(magic_link("https://shop.example", "tok"), "https://shop.example/portal/verify?token=tok");
}

#[test]
fn a_reorder_names_what_it_reorders() {
    let mix = ReorderBody { order_type: OrderType::CustomMix, size: BottleSize::Oz3_4, mix_id: Some(7), scent_id: None };
    assert_eq!(reorder_check(&mix).unwrap(), ReorderCheck::OwnsMix(7));
    let no_mix = ReorderBody { order_type: OrderType::CustomMix, size: BottleSize::Oz3_4, mix_id: None, scent_id: Some(1) };
    assert!(matches!(reorder_check(&no_mix), Err(AppError::BadRequest(m)) if m == "mix_id is required"));
    let scent = ReorderBody { order_type: OrderType::SetPerfume, size: BottleSize::Roller, mix_id: None, scent_id: Some(9) };
    assert_eq!(reorder_check(&scent).unwrap(), ReorderCheck::HadScent(9));
    assert!(matches!(reorder_allowed(&ReorderCheck::OwnsMix(7), false), Err(AppError::NotFound(m)) if m == "mix not found"));
    assert!(matches!(reorder_allowed(&ReorderCheck::HadScent(9), false), Err(AppError::BadRequest(_))));
    assert!(reorder_allowed(&ReorderCheck::HadScent(9), true).is_ok());
}
