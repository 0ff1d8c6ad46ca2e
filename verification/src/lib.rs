//! Attachments, the blobs behind them, and time-limited share links.
//!
//! A user uploads a file; the object storage keeps the bytes under a key,
//! a *blob* row describes the stored object, and an *attachment* row binds
//! the blob to its owner and to the record that it belongs to. The owner may
//! hand out *share links*: whoever holds a link's token, and is the
//! recipient that the link names, may view the attachment until the link
//! expires.
//!
//! The crate keeps the three tables in memory ([`tables::Tables`]) and
//! decides everything that can be decided without touching a disk or a
//! network: which rows an operation makes or removes, who may do what, what
//! a page holds, which address a blob has, whether a link still lets a
//! viewer in. Writing and deleting the stored bytes is left to the caller,
//! who reports to the operations how that went.
//!
//! The decisions themselves are functions on plain values ([`rules`]): the
//! operations on the tables look the rows up and ask them, and so can a
//! server that keeps its rows in a database.
//!
//! Every operation carries a contract over a mathematical model of the
//! tables ([`tables_view::TablesView`]), proved by Verus; [`laws`] states
//! what holds of the operations taken together.

pub mod error;
pub mod clock;
pub mod token;
pub mod url;
pub mod pagination;
pub mod filtered;
pub mod row;
pub mod models;
pub mod tables_view;
pub mod tables;
pub mod rules;
pub mod invariants;
pub mod laws;
pub mod services;
