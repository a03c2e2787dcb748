//! Reader for the library database of a connected e-reader device.
//!
//! The library reconstructs a typed view of the user's reading state
//! (books, reading events, bookmarks, vocabulary) from the device's
//! embedded relational store, together with small pieces of pure decision
//! logic for the surrounding desktop application (issue reporting and
//! document conversion).

pub mod convert;
pub mod db;
pub mod errors;
pub mod issues;
pub mod lookup;
pub mod model;
pub mod order;
pub mod paths;
pub mod raw;
pub mod readers;
pub mod rows;
pub mod snapshot;
pub mod text;
