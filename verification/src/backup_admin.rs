//! Admin management of scheduled backups: the defaults a new destination gets,
//! the checks it passes, and how an edit merges into what is stored.
//!
//! The passphrase is write-only from the browser's point of view: it can be set
//! and its presence reported, never read back.

use vstd::prelude::*;
use crate::error::AppError;
use crate::json::Json;
use crate::text::{blank, is_blank, spec_trim, trim};

verus! {

/// The most backups a destination may keep.
pub const MAX_RETAIN: i32 = 3650;

#[derive(Debug)]
pub struct SetPassphrase {
    pub passphrase: String,
}

#[derive(Debug)]
pub struct CreateDestination {
    pub label: String,
    pub kind: String,
    pub config: Json,
    pub schedule: String,
    pub timezone: String,
    pub retain_count: i32,
}

#[derive(Debug)]
pub struct UpdateDestination {
    pub label: Option<String>,
    pub config: Option<Json>,
    pub schedule: Option<String>,
    pub timezone: Option<String>,
    pub retain_count: Option<i32>,
    pub enabled: Option<bool>,
}

/// What an edit can change of a stored destination, besides its label.
#[derive(Debug)]
pub struct DestinationSettings {
    pub config: Json,
    pub schedule: String,
    pub timezone: String,
    pub retain_count: i32,
    pub enabled: bool,
}

/// The timezone a schedule runs in when none is given.
pub fn default_tz() -> (r: String)
    ensures
        r@ == "America/Chicago"@,
{
    String::from_str("America/Chicago")
}

/// How many backups a destination keeps when nothing is said.
pub fn default_retain() -> (r: i32)
    ensures
        r == 30,
{
    30
}

/// A destination needs a label; it is stored trimmed.
pub fn check_label(label: &str) -> (r: Result<String, AppError>)
    ensures
        is_blank(label@) ==> (r matches Err(AppError::BadRequest(m)) && m@ == "a label is required"@),
        !is_blank(label@) ==> (r matches Ok(l) && l@ == spec_trim(label@)),
{
    let l = trim(label);
    if l.unicode_len() == 0 {
        return Err(AppError::BadRequest(String::from_str("a label is required")));
    }
    Ok(String::from_str(l))
}

/// Between one and 3650 backups are kept.
pub fn check_retain(n: i32) -> (r: Result<(), AppError>)
    ensures
        (1 <= n <= MAX_RETAIN) ==> r is Ok,
        !(1 <= n <= MAX_RETAIN) ==> (r matches Err(AppError::BadRequest(m)) && m@
            == "keep between 1 and 3650 backups"@),
{
    if 1 <= n && n <= MAX_RETAIN {
        Ok(())
    } else {
        Err(AppError::BadRequest(String::from_str("keep between 1 and 3650 backups")))
    }
}

/// A missing (null) configuration is stored as an empty object.
pub fn create_config(config: Json) -> (r: Json)
    ensures
        config is Null ==> (r matches Json::Object(m) && m@.len() == 0),
        !(config is Null) ==> r == config,
{
    match config {
        Json::Null => Json::Object(Vec::new()),
        other => other,
    }
}

/// The settings an edit leaves: each present field replaces the stored one,
/// and the schedule expression is stored trimmed.
pub fn merge_update(existing: DestinationSettings, body: UpdateDestination) -> (r: DestinationSettings)
    ensures
        r.config == match body.config {
            Some(c) => c,
            None => existing.config,
        },
        r.schedule@ == spec_trim(match body.schedule {
            Some(s) => s@,
            None => existing.schedule@,
        }),
        r.timezone@ == match body.timezone {
            Some(t) => t@,
            None => existing.timezone@,
        },
        r.retain_count == match body.retain_count {
            Some(n) => n,
            None => existing.retain_count,
        },
        r.enabled == match body.enabled {
            Some(b) => b,
            None => existing.enabled,
        },
{
    let config = match body.config {
        Some(c) => c,
        None => existing.config,
    };
    let schedule_raw = match body.schedule {
        Some(s) => s,
        None => existing.schedule,
    };
    let timezone = match body.timezone {
        Some(t) => t,
        None => existing.timezone,
    };
    DestinationSettings {
        config,
        schedule: String::from_str(trim(schedule_raw.as_str())),
        timezone,
        retain_count: match body.retain_count {
            Some(n) => n,
            None => existing.retain_count,
        },
        enabled: match body.enabled {
            Some(b) => b,
            None => existing.enabled,
        },
    }
}

/// A new label replaces the stored one only when it is not blank.
pub fn updated_label(label: &Option<String>) -> (r: Option<String>)
    ensures
        match *label {
            Some(l) => if is_blank(l@) { r is None } else { r matches Some(x) && x@ == spec_trim(l@) },
            None => r is None,
        },
{
    match label {
        Some(l) => {
            if blank(l.as_str()) {
                None
            } else {
                Some(String::from_str(trim(l.as_str())))
            }
        },
        None => None,
    }
}

/// What setting the passphrase tells the admin. Replacing it re-encrypts
/// nothing, so earlier backups still need the old one.
pub fn passphrase_note(had_one: bool) -> (r: &'static str)
    ensures
        had_one ==> r@
            == "Backups taken before now still need the OLD passphrase — keep it somewhere safe."@,
        !had_one ==> r@
            == "Store this passphrase somewhere that is not this server. Without it the backups cannot be restored."@,
{
    if had_one {
        "Backups taken before now still need the OLD passphrase — keep it somewhere safe."
    } else {
        "Store this passphrase somewhere that is not this server. Without it the backups cannot be restored."
    }
}

/// The header value that turns an uploaded backup from an inspection into a
/// restore over the live database.
pub open spec fn confirm_phrase() -> Seq<char> {
    "REPLACE ALL DATA"@
}

/// What an uploaded backup is for: `Ok(true)` replaces the live database, and
/// only when the confirmation header, trimmed, reads exactly the phrase;
/// `Ok(false)` inspects. An empty upload is refused. Destruction is opt-in, so a
/// malformed request inspects instead of destroying.
pub fn restore_mode(upload_len: usize, confirm: Option<&str>) -> (r: Result<bool, AppError>)
    ensures
        upload_len == 0 ==> (r matches Err(AppError::BadRequest(m)) && m@ == "no file was uploaded"@),
        upload_len > 0 ==> r == Ok::<bool, AppError>(match confirm {
            Some(c) => spec_trim(c@) == confirm_phrase(),
            None => false,
        }),
{
    if upload_len == 0 {
        return Err(AppError::BadRequest(String::from_str("no file was uploaded")));
    }
    match confirm {
        Some(c) => Ok(crate::text::str_eq(trim(c), "REPLACE ALL DATA")),
        None => Ok(false),
    }
}

} // verus!
