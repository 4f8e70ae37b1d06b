//! The Assuan status texts that the pinentry answers with.

use vstd::prelude::*;

verus! {

pub const START: &'static str = "Pleased to meet you";

pub const CLOSE: &'static str = "closing connection";

pub const USER_UNKNOWN_COMMAND: &'static str = "536871187 Unknown IPC command <User defined source 1>";

pub const USER_NOT_IMPLEMENTED: &'static str = "536870981 Not implemented <User defined source 1>";

pub const PINENTRY_OPERATION_CANCELLED: &'static str = "83886179 Operation cancelled <Pinentry>";

pub const PINENTRY_NOT_CONFIRMED: &'static str = "83886194 Not confirmed <Pinentry>";

pub const PINENTRY_PARAMETER_ERROR: &'static str = "83886360 IPC parameter error <Pinentry>";

pub const PINENTRY_UNKNOWN_OPTION: &'static str = "83886254 Unknown option <Pinentry>";

} // verus!
