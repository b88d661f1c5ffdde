//! A price watch for one asset quoted in one currency.
//!
//! The crate holds the decisions of the watch: how a quoted rate is read from
//! text, when a new sample counts as a break upward or downward, what a reply
//! of the rate service amounts to, and how the polling loop moves from one
//! fetch to the next. Fetching, sleeping and sound are left to the caller.
//!
//! - [`rate`], [`reading`], [`writing`] and [`numeral`]: rates as exact
//!   decimal amounts, read from and written as decimal numerals.
//! - [`tracker`]: the two remembered rates and the rule that moves them.
//! - [`source`], [`json`] and [`status`]: the request to the rate service,
//!   the reading of its reply, and the writing of its status.
//! - [`monitor`]: the loop from fetch to fetch, as a machine that the caller
//!   drives.
//! - [`config`] and [`alert`]: what is watched, and the sound of each alert.

pub mod alert;
pub mod config;
pub mod json;
pub mod monitor;
pub mod numeral;
pub mod rate;
pub mod reading;
pub mod source;
pub mod status;
pub mod tracker;
pub mod writing;
