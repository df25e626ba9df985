//! Validation of the commits between two references against the tickets of a tracker.
//!
//! Every commit of the range must name, in the first line of its message, a ticket that
//! the tracker knows. [`git_utils`] puts the range in order, [`ticket_key`] and
//! [`jira_utils`] find the ticket keys of a summary and read the tracker's replies, and
//! [`validation`] goes through the commits and sums up.
//!
//! The library reads no repository and sends no request. Its callers do, and hand it what
//! came back.
pub mod git_utils;
pub mod jira_utils;
pub mod ticket_key;
pub mod validation;

mod text;
