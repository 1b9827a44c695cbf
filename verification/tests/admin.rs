use blendbar::audit_log::{default_limit, page, text_filter, ListQuery};
use blendbar::backup_admin::{
    check_label, check_retain, create_config, default_retain, default_tz, merge_update, passphrase_note, restore_mode,
    updated_label, DestinationSettings, UpdateDestination,
};
use blendbar::error::AppError;
use blendbar::json::Json;
use blendbar::money::Amount;
use blendbar::settings::{check_update, UpdateSettings};

fn query(limit: i64, offset: i64) -> ListQuery {
    ListQuery { actor: None, role: None, path: None, failures_only: false, limit, offset }
}

#[test]
fn the_audit_page_is_held_to_its_bounds() {
    assert_eq!(default_limit(), 100);
    let p = page(&query(100, 20));
    assert_eq!((p.limit, p.offset), (100, 20));
    let p = page(&query(0, -5));
    assert_eq!((p.limit, p.offset), (1, 0));
    let p = page(&query(10_000, 0));
    assert_eq!(p.limit, 500);
    assert_eq!(text_filter(&Some("  ".into())), None);
    assert_eq!(text_filter(&Some("ops".into())), Some("ops".to_string()));
}

#[test]
fn backup_defaults_and_checks() {
    assert_eq!(default_tz(), "America/Chicago");
    assert_eq!(default_retain(), 30);
    assert_eq!(check_label("  Nightly ").unwrap(), "Nightly");
    assert!(matches!(check_label(" "), Err(AppError::BadRequest(m)) if m == "a label is required"));
    assert!(check_retain(1).is_ok());
    assert!(check_retain(3650).is_ok());
    assert!(matches!(check_retain(0), Err(AppError::BadRequest(m)) if m == "keep between 1 and 3650 backups"));
    assert!(check_retain(3651).is_err());
    assert!(matches!(create_config(Json::Null), Json::Object(m) if m.is_empty()));
    assert!(matches!(create_config(Json::Bool(true)), Json::Bool(true)));
}

#[test]
fn an_edit_merges_into_the_destination() {
    let existing = DestinationSettings {
        config: Json::Null,
        schedule: "0 2 * * *".into(),
        timezone: "America/Chicago".into(),
        retain_count: 30,
        enabled: true,
    };
    let body = UpdateDestination {
        label: Some("   ".into()),
        config: None,
        schedule: Some("  0 3 * * * ".into()),
        timezone: None,
        retain_count: Some(7),
        enabled: None,
    };
    assert_eq!(updated_label(&body.label), None);
    let merged = merge_update(existing, body);
    assert_eq!(merged.schedule, "0 3 * * *");
    assert_eq!(merged.timezone, "America/Chicago");
    assert_eq!(merged.retain_count, 7);
    assert!(merged.enabled);
}

#[test]
fn a_restore_is_opt_in() {
    assert!(matches!(restore_mode(0, None), Err(AppError::BadRequest(m)) if m == "no file was uploaded"));
    assert_eq!(restore_mode(10, None).unwrap(), false);
    assert_eq!(restore_mode(10, Some("  REPLACE ALL DATA ")).unwrap(), true);
    assert_eq!(restore_mode(10, Some("replace all data")).unwrap(), false);
    assert!(passphrase_note(true).contains("OLD passphrase"));
    assert!(passphrase_note(false).starts_with("Store this passphrase"));
}

fn settings() -> UpdateSettings {
    UpdateSettings {
        custom_price_oz3_4: None,
        custom_price_oz1_7: None,
        custom_price_roller: None,
        custom_price_spray: None,
        referral_enabled: None,
        referral_discount_cents: None,
        referral_reward_cents: None,
        coupon_expiry_days: None,
        audit_retention_days: None,
    }
}

#[test]
fn settings_refuse_what_cannot_be_meant() {
    assert!(check_update(&settings()).is_ok());
    let mut s = settings();
    s.custom_price_spray = Some(Amount { negative: true, mantissa: 100, scale: 2 });
    assert!(matches!(check_update(&s), Err(AppError::BadRequest(m)) if m == "prices can't be negative"));
    let mut s = settings();
    s.custom_price_spray = Some(Amount { negative: true, mantissa: 0, scale: 2 });
    assert!(check_update(&s).is_ok());
    let mut s = settings();
    s.referral_reward_cents = Some(-1);
    assert!(matches!(check_update(&s), Err(AppError::BadRequest(m)) if m == "referral amounts can't be negative"));
    let mut s = settings();
    s.coupon_expiry_days = Some(-1);
    assert!(check_update(&s).is_err());
    let mut s = settings();
    s.audit_retention_days = Some(29);
    assert!(matches!(check_update(&s), Err(AppError::BadRequest(m)) if m.starts_with("audit retention")));
    s.audit_retention_days = Some(0);
    assert!(check_update(&s).is_ok());
    s.audit_retention_days = Some(30);
    assert!(check_update(&s).is_ok());
}
