//! Captchas that guard the sending of a mail.
//!
//! A captcha is a short text that a client reads off an image and sends
//! back. The store issues captchas, accepts each answer at most once and
//! only within thirty minutes, and forgets the captchas nobody answered. A
//! mail goes out only with an accepted answer.
//!
//! - [`captcha`]: one captcha, its text and its instant of creation.
//! - [`ledger`]: the captchas that are out, held by one owner.
//! - [`model`]: the ledger as a map, and what issuing, sweeping and
//!   answering do to it.
//! - [`laws`]: what holds of that map, proved.
//! - [`captchas`]: the ledger behind a lock, shared by request handlers.
//! - [`mail`]: the request to send a mail, and the decision on it.
//! - [`error`]: the failures, and the HTTP status and message of each.
//! - [`clock`] and [`fold`]: time and letter case.

pub mod captcha;
pub mod captchas;
pub mod clock;
pub mod error;
pub mod fold;
pub mod laws;
pub mod ledger;
pub mod mail;
pub mod model;
