//! Client-side logic of the Growl Notification Transport Protocol (GNTP 1.0): the REGISTER
//! and NOTIFY messages, the three ways of delivering icons (binary resources, `file://` and
//! `data:` URLs, or HTTP URLs), the judgement of the server's replies, and the decisions of
//! the `sendgrowl` command (icon mode names, host lists, retries).
//!
//! The library builds the bytes to send and interprets what comes back; opening the
//! connection, reading icon files and printing are left to the caller.

pub mod base64;
pub mod client;
pub mod delivery;
pub mod error;
pub mod laws;
pub mod notification;
pub mod resource;
pub mod text;

pub use client::{GntpClient, GntpRequest, ReadOutcome, Registration};
pub use delivery::{parse_icon_mode, AttemptResult, HostTarget, NextStep, RetryPlan};
pub use error::GntpError;
pub use notification::{NotificationType, NotifyOptions};
pub use resource::{IconMode, Resource};
