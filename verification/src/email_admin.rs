//! Admin configuration for outbound email: the sender settings a person may
//! change, and the checks they pass before they are stored. Relay credentials
//! never appear here; they live in the environment.

use vstd::prelude::*;
use crate::error::AppError;
use crate::text::{
    after_first, before_first, blank, contains_char, has_char, is_blank, lowercase, push_str,
    spec_trim, split_first, to_lowercase, trim,
};

verus! {

/// The stored sender settings.
#[derive(Debug)]
pub struct EmailSettings {
    pub from_address: Option<String>,
    pub from_name: String,
    pub reply_to: Option<String>,
    pub order_ready_enabled: bool,
}

/// A partial update: each present field replaces the stored one.
#[derive(Debug)]
pub struct UpdateEmailSettings {
    pub from_address: Option<String>,
    pub from_name: Option<String>,
    pub reply_to: Option<String>,
    pub order_ready_enabled: Option<bool>,
}

/// A Google service-account key and the Workspace mailbox to send as.
#[derive(Debug)]
pub struct ConnectGoogle {
    /// The downloaded service-account JSON, pasted whole.
    pub service_account_json: String,
    pub impersonate: String,
}

#[derive(Debug)]
pub struct TestRequest {
    pub to: String,
}

/// A cheap sanity check on an address, after trimming: something before the
/// first `@`, a domain after it that has a dot but neither starts nor ends with
/// one, and no space anywhere. Real validation is the relay accepting mail.
pub open spec fn spec_looks_like_an_address(value: Seq<char>) -> bool {
    let v = spec_trim(value);
    let local = before_first(v, '@');
    let domain = after_first(v, '@');
    &&& local.len() > 0
    &&& has_char(domain, '.')
    &&& domain[0] != '.'
    &&& domain.last() != '.'
    &&& !has_char(v, ' ')
}

pub fn looks_like_an_address(value: &str) -> (r: bool)
    ensures
        r == spec_looks_like_an_address(value@),
{
    let v = trim(value);
    let (local, domain) = split_first(v, '@');
    if local.unicode_len() == 0 {
        return false;
    }
    if !contains_char(domain.as_str(), '.') {
        return false;
    }
    let n = domain.unicode_len();
    if domain.as_str().get_char(0) == '.' || domain.as_str().get_char(n - 1) == '.' {
        return false;
    }
    !contains_char(v, ' ')
}

/// A present, non-blank value that does not look like an address.
pub open spec fn bad_address(v: Option<String>) -> bool {
    match v {
        Some(a) => !is_blank(a@) && !spec_looks_like_an_address(a@),
        None => false,
    }
}

/// Why an update is refused, if it is; the first failing check wins.
pub open spec fn update_error(body: UpdateEmailSettings) -> Option<Seq<char>> {
    if bad_address(body.from_address) {
        Some("the From address doesn't look like an email address"@)
    } else if bad_address(body.reply_to) {
        Some("the Reply-to address doesn't look like an email address"@)
    } else if (match body.from_name {
        Some(n) => is_blank(n@),
        None => false,
    }) {
        Some("the sender name can't be blank"@)
    } else {
        None
    }
}

fn address_is_bad(v: &Option<String>) -> (r: bool)
    ensures
        r == bad_address(*v),
{
    match v {
        Some(a) => !blank(a.as_str()) && !looks_like_an_address(a.as_str()),
        None => false,
    }
}

/// The checks an update passes before anything is written. A blank address
/// clears the field and is accepted; a blank sender name is not.
pub fn check_update(body: &UpdateEmailSettings) -> (r: Result<(), AppError>)
    ensures
        match update_error(*body) {
            Some(m) => r matches Err(AppError::BadRequest(x)) && x@ == m,
            None => r is Ok,
        },
{
    if address_is_bad(&body.from_address) {
        return Err(AppError::BadRequest(String::from_str("the From address doesn't look like an email address")));
    }
    if address_is_bad(&body.reply_to) {
        return Err(AppError::BadRequest(String::from_str("the Reply-to address doesn't look like an email address")));
    }
    if let Some(name) = &body.from_name {
        if blank(name.as_str()) {
            return Err(AppError::BadRequest(String::from_str("the sender name can't be blank")));
        }
    }
    Ok(())
}

fn trimmed_or(v: &Option<String>, current: &Option<String>) -> (r: Option<String>)
    ensures
        match *v {
            Some(a) => r matches Some(x) && x@ == spec_trim(a@),
            None => r == *current,
        },
{
    match v {
        Some(a) => Some(String::from_str(trim(a.as_str()))),
        None => match current {
            Some(c) => Some(c.clone()),
            None => None,
        },
    }
}

/// The settings an accepted update leaves: every present field, trimmed,
/// replaces the stored one; absent fields keep their value.
pub fn apply_update(current: &EmailSettings, body: &UpdateEmailSettings) -> (r: EmailSettings)
    ensures
        match body.from_address {
            Some(a) => r.from_address matches Some(x) && x@ == spec_trim(a@),
            None => r.from_address == current.from_address,
        },
        match body.reply_to {
            Some(a) => r.reply_to matches Some(x) && x@ == spec_trim(a@),
            None => r.reply_to == current.reply_to,
        },
        r.from_name@ == match body.from_name {
            Some(n) => spec_trim(n@),
            None => current.from_name@,
        },
        r.order_ready_enabled == match body.order_ready_enabled {
            Some(b) => b,
            None => current.order_ready_enabled,
        },
{
    EmailSettings {
        from_address: trimmed_or(&body.from_address, &current.from_address),
        from_name: match &body.from_name {
            Some(n) => String::from_str(trim(n.as_str())),
            None => current.from_name.clone(),
        },
        reply_to: trimmed_or(&body.reply_to, &current.reply_to),
        order_ready_enabled: match body.order_ready_enabled {
            Some(b) => b,
            None => current.order_ready_enabled,
        },
    }
}

/// Which mailbox a Google connection sends as: the trimmed, lower-cased
/// address. Refused while the key is managed by the server environment, and
/// when the address does not look like one.
pub fn google_mailbox(env_managed: bool, impersonate: &str) -> (r: Result<String, AppError>)
    ensures
        env_managed ==> (r matches Err(AppError::Conflict(m)) && m@ == google_env_message()),
        !env_managed ==> ({
            let addr = lowercase(spec_trim(impersonate@));
            &&& spec_looks_like_an_address(addr) ==> (r matches Ok(a) && a@ == addr)
            &&& !spec_looks_like_an_address(addr) ==> (r matches Err(AppError::BadRequest(m))
                && m@ == "enter the Workspace mailbox to send as, e.g. hello@theblendbarokc.com"@)
        }),
{
    if env_managed {
        return Err(AppError::Conflict(String::from_str(
            "a Google key is configured in the server environment, which takes precedence. Remove GOOGLE_SA_KEY_FILE / GOOGLE_SA_KEY_JSON from .env to manage it from here instead.",
        )));
    }
    let addr = to_lowercase(trim(impersonate));
    if !looks_like_an_address(addr.as_str()) {
        return Err(AppError::BadRequest(String::from_str(
            "enter the Workspace mailbox to send as, e.g. hello@theblendbarokc.com",
        )));
    }
    Ok(addr)
}

pub open spec fn google_env_message() -> Seq<char> {
    "a Google key is configured in the server environment, which takes precedence. Remove GOOGLE_SA_KEY_FILE / GOOGLE_SA_KEY_JSON from .env to manage it from here instead."@
}

/// What the connect answer says, depending on whether the mailer came up.
pub fn connect_detail(live: bool) -> (r: &'static str)
    ensures
        live ==> r@ == "Connected. Send a test to confirm the delegation is authorised."@,
        !live ==> r@ == "Saved, but the mailer did not come up — check the server logs."@,
{
    if live {
        "Connected. Send a test to confirm the delegation is authorised."
    } else {
        "Saved, but the mailer did not come up — check the server logs."
    }
}

/// The trimmed recipient of a test message, refused when it does not look like
/// an address.
pub fn test_recipient(body: &TestRequest) -> (r: Result<String, AppError>)
    ensures
        spec_looks_like_an_address(body.to@) ==> (r matches Ok(t) && t@ == spec_trim(body.to@)),
        !spec_looks_like_an_address(body.to@) ==> (r matches Err(AppError::BadRequest(m)) && m@
            == "enter a valid address to test with"@),
{
    let to = trim(body.to.as_str());
    if !looks_like_an_address(body.to.as_str()) {
        return Err(AppError::BadRequest(String::from_str("enter a valid address to test with")));
    }
    Ok(String::from_str(to))
}

pub open spec fn no_relay_message() -> Seq<char> {
    "No SMTP relay is configured, so nothing was actually sent — the message was written to the server log instead."@
}

/// What the test button reports. A send through the mock succeeds without
/// anything arriving, so it is not reported as sent.
pub fn test_outcome(sent: Result<(), String>, live: bool, to: &str) -> (r: (bool, String))
    ensures
        (sent is Ok && live) ==> r.0 && r.1@ == "Test message sent to "@ + to@ + "."@,
        (sent is Ok && !live) ==> !r.0 && r.1@ == no_relay_message(),
        sent matches Err(e) ==> !r.0 && r.1@ == e@,
{
    match sent {
        Ok(()) => {
            if live {
                let mut m = String::new();
                push_str(&mut m, "Test message sent to ");
                push_str(&mut m, to);
                push_str(&mut m, ".");
                (true, m)
            } else {
                (false, String::from_str(
                    "No SMTP relay is configured, so nothing was actually sent — the message was written to the server log instead.",
                ))
            }
        },
        Err(e) => (false, e),
    }
}

} // verus!
