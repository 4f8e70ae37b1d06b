//! A passphrase prompt for terminals whose echo is a row of coloured stars:
//! the colours are derived from what was typed, so that a user can tell at a
//! glance whether the passphrase is the usual one without it being shown.

pub mod askpass;
pub mod colorhash;
pub mod dialog;
pub mod encoding;
pub mod keys;
pub mod laws;
pub mod request_laws;
pub mod dialog_laws;
pub mod key_laws;
pub mod pinentry;
pub mod prompt;
pub mod utils;

pub use askpass::{AskPass, Event, Key, Step};
