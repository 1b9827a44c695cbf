//! Verified core of the Blend Bar stand-intake service: money conversion, the
//! Square and Squarespace boundaries' data models and pure logic (what is
//! sent, how answers are read, how failures are classified, and the in-process
//! mocks), carts and checkout, reconciliation against Square, the outbox retry
//! policy, webhook verification and routing, and the checks every request
//! passes before anything is written.
//!
//! Everything here is plain computation on plain values. Database access, HTTP,
//! clocks and environment reads live in the application crate around it.

pub mod text;
pub mod error;
pub mod json;
pub mod money;
pub mod ident;
pub mod order;
pub mod cart;
pub mod square;
pub mod square_api;
pub mod square_requests;
pub mod square_mock;
pub mod squarespace;
pub mod checkout;
pub mod reconcile;
pub mod outbox;
pub mod status_counts;
pub mod webhook;
pub mod qr;
pub mod catalog;
pub mod bundles;
pub mod intake;
pub mod accounts;
pub mod deletions;
pub mod enquiries;
pub mod email_admin;
pub mod notifications;
pub mod public_checkout;
pub mod audit_log;
pub mod backup_admin;
pub mod settings;
