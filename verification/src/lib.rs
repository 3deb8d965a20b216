//! A minimal web todo list: a table of text entries under unique,
//! never-reused identifiers, viewed as an HTML page, grown by an add
//! request and shrunk by a delete request.
//!
//! The crate holds the verified core: the write-time escaping of user
//! text ([`escape`]), the table model with its ordering and uniqueness
//! invariant ([`store`]), the rendering of the table into the HTML
//! document ([`render`]), and the compute part of each HTTP handler
//! ([`handler`]). The surrounding server owns the HTTP listener and
//! the database file and hands plain values in and out.

pub mod escape;
pub mod handler;
pub mod render;
pub mod store;
