//! A CalDAV client library: WebDAV multistatus documents are decoded into
//! calendars and to-do items by a verified single-pass state machine.

pub mod text;
pub mod xml_items;
pub mod calendar;
pub mod todo;
pub mod config;
pub mod api;
pub mod login;
pub mod framing;
