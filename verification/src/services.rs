//! The operations that users ask for: attaching and detaching uploads,
//! making share links and resolving them.

pub mod attachments;
pub mod shares;
