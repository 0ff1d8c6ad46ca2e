//! The rows of the three tables, and the values from which rows are made.

pub mod attachment_blobs;
pub mod attachments;
pub mod video_shares;
