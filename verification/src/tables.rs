use vstd::prelude::*;
use crate::clock::Timestamp;
use crate::tables_view::TablesView;
use crate::models::attachment_blobs::{AttachmentBlob, CreateAttachmentBlob};
use crate::models::attachments::{Attachment, CreateAttachment};
use crate::models::video_shares::{CreateVideoShare, VideoShare};

verus! {

/// The three tables, held in memory.
pub struct Tables {
    blobs: Vec<AttachmentBlob>,
    attachments: Vec<Attachment>,
    shares: Vec<VideoShare>,
    next_blob_id: i32,
    next_attachment_id: i32,
    next_share_id: i32,
}

impl View for Tables {
    type V = TablesView;

    closed spec fn view(&self) -> TablesView {
        TablesView {
            blobs: self.blobs@,
            attachments: self.attachments@,
            shares: self.shares@,
            next_blob_id: self.next_blob_id as int,
            next_attachment_id: self.next_attachment_id as int,
            next_share_id: self.next_share_id as int,
        }
    }
}

impl Tables {
    /// What holds of every value of this type: its tables are well formed.
    #[verifier::type_invariant]
    pub open spec fn well_formed(&self) -> bool {
        self@.wf()
    }

    /// Empty tables.
    pub fn new() -> (db: Tables)
        ensures
            db@ == TablesView::empty(),
            db@.wf(),
            db@.intact(),
    {
        Tables {
            blobs: Vec::new(),
            attachments: Vec::new(),
            shares: Vec::new(),
            next_blob_id: 1,
            next_attachment_id: 1,
            next_share_id: 1,
        }
    }

    /// Empty tables that count their keys on from the given ones: for a
    /// store that has held rows before. A key below 1 counts as 1.
    pub fn resuming(next_blob_id: i32, next_attachment_id: i32, next_share_id: i32) -> (db: Tables)
        ensures
            db@ == TablesView::resuming(next_blob_id, next_attachment_id, next_share_id),
            db@.wf(),
            db@.intact(),
    {
        Tables {
            blobs: Vec::new(),
            attachments: Vec::new(),
            shares: Vec::new(),
            next_blob_id: if next_blob_id < 1 {
                1
            } else {
                next_blob_id
            },
            next_attachment_id: if next_attachment_id < 1 {
                1
            } else {
                next_attachment_id
            },
            next_share_id: if next_share_id < 1 {
                1
            } else {
                next_share_id
            },
        }
    }

    /// The blob table, in the order of creation.
    pub fn blobs(&self) -> (rows: &Vec<AttachmentBlob>)
        ensures
            rows@ == self@.blobs,
            self@.wf(),
    {
        proof {
            use_type_invariant(self);
        }
        &self.blobs
    }

    /// The attachment table, in the order of creation.
    pub fn attachments(&self) -> (rows: &Vec<Attachment>)
        ensures
            rows@ == self@.attachments,
            self@.wf(),
    {
        proof {
            use_type_invariant(self);
        }
        &self.attachments
    }

    /// The table of share links, in the order of creation.
    pub fn shares(&self) -> (rows: &Vec<VideoShare>)
        ensures
            rows@ == self@.shares,
            self@.wf(),
    {
        proof {
            use_type_invariant(self);
        }
        &self.shares
    }

    pub(crate) fn next_blob_id(&self) -> (id: i32)
        ensures
            id == self@.next_blob_id,
    {
        self.next_blob_id
    }

    pub(crate) fn next_attachment_id(&self) -> (id: i32)
        ensures
            id == self@.next_attachment_id,
    {
        self.next_attachment_id
    }

    pub(crate) fn next_share_id(&self) -> (id: i32)
        ensures
            id == self@.next_share_id,
    {
        self.next_share_id
    }

    /// Appends a blob under the next key.
    pub(crate) fn push_blob(&mut self, item: &CreateAttachmentBlob, now: Timestamp) -> (row: AttachmentBlob)
        requires
            old(self)@.next_blob_id < i32::MAX,
            old(self)@.with_blob(item.as_row(old(self)@.next_blob_id as i32, now)).wf(),
        ensures
            row == item.as_row(old(self)@.next_blob_id as i32, now),
            final(self)@ == old(self)@.with_blob(row),
    {
        proof {
            use_type_invariant(&*self);
        }
        let row: AttachmentBlob = item.to_row(self.next_blob_id, now);
        let mut rows: Vec<AttachmentBlob> = Vec::new();
        std::mem::swap(&mut rows, &mut self.blobs);
        self.next_blob_id = self.next_blob_id + 1;
        rows.push(row.clone());
        self.blobs = rows;
        row
    }

    /// Appends an attachment under the next key.
    pub(crate) fn push_attachment(&mut self, item: &CreateAttachment, now: Timestamp) -> (row: Attachment)
        requires
            old(self)@.next_attachment_id < i32::MAX,
            old(self)@.with_attachment(item.as_row(old(self)@.next_attachment_id as i32, now)).wf(),
        ensures
            row == item.as_row(old(self)@.next_attachment_id as i32, now),
            final(self)@ == old(self)@.with_attachment(row),
    {
        proof {
            use_type_invariant(&*self);
        }
        let row: Attachment = item.to_row(self.next_attachment_id, now);
        let mut rows: Vec<Attachment> = Vec::new();
        std::mem::swap(&mut rows, &mut self.attachments);
        self.next_attachment_id = self.next_attachment_id + 1;
        rows.push(row.clone());
        self.attachments = rows;
        row
    }

    /// Appends a share link under the next key.
    pub(crate) fn push_share(&mut self, item: &CreateVideoShare, now: Timestamp) -> (row: VideoShare)
        requires
            old(self)@.next_share_id < i32::MAX,
            old(self)@.with_share(item.as_row(old(self)@.next_share_id as i32, now)).wf(),
        ensures
            row == item.as_row(old(self)@.next_share_id as i32, now),
            final(self)@ == old(self)@.with_share(row),
    {
        proof {
            use_type_invariant(&*self);
        }
        let row: VideoShare = item.to_row(self.next_share_id, now);
        let mut rows: Vec<VideoShare> = Vec::new();
        std::mem::swap(&mut rows, &mut self.shares);
        self.next_share_id = self.next_share_id + 1;
        rows.push(row.clone());
        self.shares = rows;
        row
    }

    /// Takes the blob at place `at` out of its table.
    pub(crate) fn remove_blob(&mut self, at: usize)
        requires
            at < old(self)@.blobs.len(),
        ensures
            final(self)@ == (TablesView { blobs: old(self)@.blobs.remove(at as int), ..old(self)@ }),
    {
        proof {
            use_type_invariant(&*self);
        }
        let mut rows: Vec<AttachmentBlob> = Vec::new();
        std::mem::swap(&mut rows, &mut self.blobs);
        rows.remove(at);
        self.blobs = rows;
    }

    /// Puts `rows` in the place of the blob table.
    pub(crate) fn set_blobs(&mut self, rows: Vec<AttachmentBlob>)
        requires
            (TablesView { blobs: rows@, ..old(self)@ }).wf(),
        ensures
            final(self)@ == (TablesView { blobs: rows@, ..old(self)@ }),
    {
        self.blobs = rows;
    }

    /// Puts `row` in the place of the blob at place `at`.
    pub(crate) fn replace_blob(&mut self, at: usize, row: AttachmentBlob)
        requires
            at < old(self)@.blobs.len(),
            row.id == old(self)@.blobs[at as int].id,
            row.key == old(self)@.blobs[at as int].key,
            row.byte_size == old(self)@.blobs[at as int].byte_size,
        ensures
            final(self)@ == (TablesView { blobs: old(self)@.blobs.update(at as int, row), ..old(self)@ }),
    {
        proof {
            use_type_invariant(&*self);
        }
        let mut rows: Vec<AttachmentBlob> = Vec::new();
        std::mem::swap(&mut rows, &mut self.blobs);
        rows.set(at, row);
        self.blobs = rows;
    }

    /// Takes the attachment at place `at` out of its table.
    pub(crate) fn remove_attachment(&mut self, at: usize)
        requires
            at < old(self)@.attachments.len(),
        ensures
            final(self)@ == (TablesView {
                attachments: old(self)@.attachments.remove(at as int),
                ..old(self)@
            }),
    {
        proof {
            use_type_invariant(&*self);
        }
        let mut rows: Vec<Attachment> = Vec::new();
        std::mem::swap(&mut rows, &mut self.attachments);
        rows.remove(at);
        self.attachments = rows;
    }

    /// Puts `row` in the place of the attachment at place `at`.
    pub(crate) fn replace_attachment(&mut self, at: usize, row: Attachment)
        requires
            at < old(self)@.attachments.len(),
            row.id == old(self)@.attachments[at as int].id,
            row.user_id == old(self)@.attachments[at as int].user_id,
            row.blob_id == old(self)@.attachments[at as int].blob_id,
        ensures
            final(self)@ == (TablesView {
                attachments: old(self)@.attachments.update(at as int, row),
                ..old(self)@
            }),
    {
        proof {
            use_type_invariant(&*self);
        }
        let mut rows: Vec<Attachment> = Vec::new();
        std::mem::swap(&mut rows, &mut self.attachments);
        rows.set(at, row);
        self.attachments = rows;
    }
}

} // verus!
