//! Finds and removes the intermediate files that a workflow engine leaves
//! behind in an object-storage bucket.
//!
//! The crate holds the decisions of a sweep: how a locator is read, which
//! object keys count as intermediate files, which requests a page of a
//! listing leads to, and when the listing is over. Talking to the storage
//! backend is left to the caller.

pub mod chars;
pub mod classes;
pub mod lister;
pub mod locator;
pub mod object;
pub mod pattern;
pub mod removal;
pub mod sweep;
