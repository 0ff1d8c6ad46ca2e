use vstd::prelude::*;
use crate::clock::Timestamp;
use crate::error::ServiceError;
use crate::models::attachment_blobs::{AttachmentBlob, CreateAttachmentBlob, UpdateAttachmentBlob, Upload};
use crate::models::attachments::{Attachment, CreateAttachment, RecordType, UpdateAttachment};
use crate::models::video_shares::{state_at, CreateVideoShare, ShareState, ShareVideoRequest, VideoShare};
use crate::rules::first_free;
use crate::row::{has_id, ids_ascend, ids_below, index_of, lookup, without, Row};
use crate::token::ShareToken;
use crate::url::url_of;

verus! {

/// What the tables hold, as mathematics: the rows of each table in the order
/// of their creation, and the key that the next row of each table gets.
pub struct TablesView {
    pub blobs: Seq<AttachmentBlob>,
    pub attachments: Seq<Attachment>,
    pub shares: Seq<VideoShare>,
    pub next_blob_id: int,
    pub next_attachment_id: int,
    pub next_share_id: int,
}

/// Whether some blob is stored under `key`.
pub open spec fn key_taken(blobs: Seq<AttachmentBlob>, key: Seq<char>) -> bool {
    exists|i: int| 0 <= i < blobs.len() && (#[trigger] blobs[i]).key@ == key
}

/// No storage key occurs twice.
pub open spec fn keys_distinct(blobs: Seq<AttachmentBlob>) -> bool {
    forall|i: int, j: int|
        0 <= i < j < blobs.len() ==> (#[trigger] blobs[i]).key@ != (#[trigger] blobs[j]).key@
}

/// No blob claims a negative size.
pub open spec fn sizes_valid(blobs: Seq<AttachmentBlob>) -> bool {
    forall|i: int| 0 <= i < blobs.len() ==> (#[trigger] blobs[i]).byte_size >= 0
}

/// Whether some attachment points at the blob `blob_id`.
pub open spec fn blob_attached(attachments: Seq<Attachment>, blob_id: i32) -> bool {
    exists|i: int| 0 <= i < attachments.len() && (#[trigger] attachments[i]).blob_id == blob_id
}

/// No two attachments point at one blob, and none points at a blob that is
/// yet to be made.
pub open spec fn blobs_exclusive(attachments: Seq<Attachment>, next_blob_id: int) -> bool {
    &&& forall|i: int, j: int|
        0 <= i < j < attachments.len() ==> (#[trigger] attachments[i]).blob_id != (
        #[trigger] attachments[j]).blob_id
    &&& forall|i: int| 0 <= i < attachments.len() ==> (#[trigger] attachments[i]).blob_id < next_blob_id
}

/// Whether the share link at place `at` carries `token`.
pub open spec fn token_at(shares: Seq<VideoShare>, token: ShareToken, at: int) -> bool {
    0 <= at < shares.len() && shares[at].share_token == token
}

/// Whether some share link carries `token`.
pub open spec fn token_taken(shares: Seq<VideoShare>, token: ShareToken) -> bool {
    exists|at: int| token_at(shares, token, at)
}

/// No token occurs twice.
pub open spec fn tokens_distinct(shares: Seq<VideoShare>) -> bool {
    forall|i: int, j: int|
        0 <= i < j < shares.len() ==> (#[trigger] shares[i]).share_token != (
        #[trigger] shares[j]).share_token
}

/// Every share link was made by the owner of its attachment, as far as the
/// attachment still exists, and none points at an attachment that is yet to
/// be made.
pub open spec fn shared_by_owners(
    shares: Seq<VideoShare>,
    attachments: Seq<Attachment>,
    next_attachment_id: int,
) -> bool {
    &&& forall|s: int| 0 <= s < shares.len() ==> (#[trigger] shares[s]).video_id < next_attachment_id
    &&& forall|s: int, a: int|
        0 <= s < shares.len() && 0 <= a < attachments.len() && (#[trigger] attachments[a]).id == (
        #[trigger] shares[s]).video_id ==> attachments[a].user_id == shares[s].shared_by
}

/// The attachments of the user `user`, in the order of creation.
pub open spec fn owned_by(attachments: Seq<Attachment>, user: i32) -> Seq<Attachment> {
    attachments.filter(|a: Attachment| a.user_id == user)
}

/// The address of the blob `blob_id`, if `blobs` holds it.
pub open spec fn blob_url(blobs: Seq<AttachmentBlob>, blob_id: i32, base: Seq<char>) -> Option<Seq<char>> {
    match lookup(blobs, blob_id) {
        Some(blob) => Some(url_of(base, blob.key@)),
        None => None,
    }
}

/// The keys of the blobs that `items` point at, one for one.
pub open spec fn blob_ids_of(items: Seq<Attachment>) -> Seq<i32> {
    Seq::new(items.len(), |i: int| items[i].blob_id)
}

/// Whether `blobs` holds the blob of each of `items`.
pub open spec fn all_have_blobs(items: Seq<Attachment>, blobs: Seq<AttachmentBlob>) -> bool {
    forall|i: int| 0 <= i < items.len() ==> has_id(blobs, (#[trigger] items[i]).blob_id)
}

/// Whether `urls` are the addresses of `items`, one for one.
pub open spec fn urls_match(
    urls: Seq<String>,
    items: Seq<Attachment>,
    blobs: Seq<AttachmentBlob>,
    base: Seq<char>,
) -> bool {
    &&& urls.len() == items.len()
    &&& forall|i: int|
        0 <= i < items.len() ==> blob_url(blobs, (#[trigger] items[i]).blob_id, base) == Some(urls[i]@)
}

impl TablesView {
    /// The tables before anything was stored.
    pub open spec fn empty() -> TablesView {
        TablesView {
            blobs: Seq::empty(),
            attachments: Seq::empty(),
            shares: Seq::empty(),
            next_blob_id: 1,
            next_attachment_id: 1,
            next_share_id: 1,
        }
    }

    /// Empty tables whose next rows get the keys `next_blob_id`,
    /// `next_attachment_id` and `next_share_id`, or 1 where one of these is
    /// below 1.
    pub open spec fn resuming(next_blob_id: i32, next_attachment_id: i32, next_share_id: i32) -> TablesView {
        TablesView {
            blobs: Seq::empty(),
            attachments: Seq::empty(),
            shares: Seq::empty(),
            next_blob_id: if next_blob_id < 1 {
                1
            } else {
                next_blob_id as int
            },
            next_attachment_id: if next_attachment_id < 1 {
                1
            } else {
                next_attachment_id as int
            },
            next_share_id: if next_share_id < 1 {
                1
            } else {
                next_share_id as int
            },
        }
    }

    /// What holds of the tables at all times: keys are never reused, storage
    /// keys and tokens are unique, a blob belongs to at most one attachment,
    /// and a share link was made by its attachment's owner.
    pub open spec fn wf(self) -> bool {
        &&& 1 <= self.next_blob_id <= i32::MAX
        &&& 1 <= self.next_attachment_id <= i32::MAX
        &&& 1 <= self.next_share_id <= i32::MAX
        &&& ids_ascend(self.blobs)
        &&& ids_below(self.blobs, self.next_blob_id)
        &&& self.blobs.len() < self.next_blob_id
        &&& ids_ascend(self.attachments)
        &&& ids_below(self.attachments, self.next_attachment_id)
        &&& self.attachments.len() < self.next_attachment_id
        &&& ids_ascend(self.shares)
        &&& ids_below(self.shares, self.next_share_id)
        &&& self.shares.len() < self.next_share_id
        &&& keys_distinct(self.blobs)
        &&& sizes_valid(self.blobs)
        &&& blobs_exclusive(self.attachments, self.next_blob_id)
        &&& tokens_distinct(self.shares)
        &&& shared_by_owners(self.shares, self.attachments, self.next_attachment_id)
    }

    /// Referential integrity between attachments and blobs: every attachment
    /// has its blob, and every blob its attachment.
    pub open spec fn intact(self) -> bool {
        &&& forall|a: int|
            0 <= a < self.attachments.len() ==> has_id(self.blobs, (#[trigger] self.attachments[a]).blob_id)
        &&& forall|b: int|
            0 <= b < self.blobs.len() ==> blob_attached(self.attachments, (#[trigger] self.blobs[b]).id)
    }
}

/// How many rows a removal by the key `id` takes away: one or none.
pub open spec fn removed_by_id<R: Row>(rows: Seq<R>, id: i32) -> int {
    if has_id(rows, id) {
        1
    } else {
        0
    }
}

/// The blobs whose keys are among `ids`, in the order of creation.
pub open spec fn blobs_among(blobs: Seq<AttachmentBlob>, ids: Seq<i32>) -> Seq<AttachmentBlob> {
    blobs.filter(|b: AttachmentBlob| ids.contains(b.id))
}

/// The blobs whose keys are not among `ids`, in the order of creation.
pub open spec fn blobs_beside(blobs: Seq<AttachmentBlob>, ids: Seq<i32>) -> Seq<AttachmentBlob> {
    blobs.filter(|b: AttachmentBlob| !ids.contains(b.id))
}

// The blob table.
impl TablesView {
    /// Why a blob cannot be stored, if it cannot: a negative size, a storage
    /// key that is in use, or no key left for the row.
    pub open spec fn blob_refusal(self, item: CreateAttachmentBlob) -> Option<ServiceError> {
        if item.byte_size < 0 {
            Some(ServiceError::ValidationError)
        } else if key_taken(self.blobs, item.key@) {
            Some(ServiceError::Conflict)
        } else if self.next_blob_id >= i32::MAX {
            Some(ServiceError::Internal)
        } else {
            None
        }
    }

    /// The row that storing `item` at `now` gives.
    pub open spec fn create_blob(self, item: CreateAttachmentBlob, now: Timestamp) -> Result<
        AttachmentBlob,
        ServiceError,
    > {
        match self.blob_refusal(item) {
            Some(e) => Err(e),
            None => Ok(item.as_row(self.next_blob_id as i32, now)),
        }
    }

    /// The tables with `row` as their newest blob.
    pub open spec fn with_blob(self, row: AttachmentBlob) -> TablesView {
        TablesView { blobs: self.blobs.push(row), next_blob_id: self.next_blob_id + 1, ..self }
    }

    /// The tables after `item` was stored, or refused.
    pub open spec fn after_create_blob(self, item: CreateAttachmentBlob, now: Timestamp) -> TablesView {
        match self.create_blob(item, now) {
            Ok(row) => self.with_blob(row),
            Err(_) => self,
        }
    }

    /// The blob with the key `id`.
    pub open spec fn find_blob(self, id: i32) -> Result<AttachmentBlob, ServiceError> {
        match lookup(self.blobs, id) {
            Some(row) => Ok(row),
            None => Err(ServiceError::NotFound),
        }
    }

    /// The blob `id` as it is after the update `changes`.
    pub open spec fn update_blob(self, id: i32, changes: UpdateAttachmentBlob) -> Result<
        AttachmentBlob,
        ServiceError,
    > {
        match lookup(self.blobs, id) {
            Some(row) => Ok(changes.applied(row)),
            None => Err(ServiceError::NotFound),
        }
    }

    /// The tables after the update `changes` of the blob `id`.
    pub open spec fn after_update_blob(self, id: i32, changes: UpdateAttachmentBlob) -> TablesView {
        match lookup(self.blobs, id) {
            Some(row) => TablesView {
                blobs: self.blobs.update(index_of(self.blobs, id), changes.applied(row)),
                ..self
            },
            None => self,
        }
    }

    /// The tables without the blob `id`.
    pub open spec fn after_delete_blob(self, id: i32) -> TablesView {
        TablesView { blobs: without(self.blobs, id), ..self }
    }

    /// The tables without the blobs whose keys are among `ids`.
    pub open spec fn after_delete_blobs(self, ids: Seq<i32>) -> TablesView {
        TablesView { blobs: blobs_beside(self.blobs, ids), ..self }
    }
}

// The attachment table.
impl TablesView {
    /// Why an attachment cannot be made, if it cannot: its blob is missing,
    /// its blob belongs to another attachment, or no key is left for the row.
    pub open spec fn attachment_refusal(self, item: CreateAttachment) -> Option<ServiceError> {
        if !has_id(self.blobs, item.blob_id) {
            Some(ServiceError::NotFound)
        } else if blob_attached(self.attachments, item.blob_id) {
            Some(ServiceError::Conflict)
        } else if self.next_attachment_id >= i32::MAX {
            Some(ServiceError::Internal)
        } else {
            None
        }
    }

    /// The row that making an attachment of `item` at `now` gives.
    pub open spec fn create_attachment(self, item: CreateAttachment, now: Timestamp) -> Result<
        Attachment,
        ServiceError,
    > {
        match self.attachment_refusal(item) {
            Some(e) => Err(e),
            None => Ok(item.as_row(self.next_attachment_id as i32, now)),
        }
    }

    /// The tables with `row` as their newest attachment.
    pub open spec fn with_attachment(self, row: Attachment) -> TablesView {
        TablesView {
            attachments: self.attachments.push(row),
            next_attachment_id: self.next_attachment_id + 1,
            ..self
        }
    }

    /// The tables after an attachment was made of `item`, or refused.
    pub open spec fn after_create_attachment(self, item: CreateAttachment, now: Timestamp) -> TablesView {
        match self.create_attachment(item, now) {
            Ok(row) => self.with_attachment(row),
            Err(_) => self,
        }
    }

    /// The attachment with the key `id`.
    pub open spec fn read_attachment(self, id: i32) -> Result<Attachment, ServiceError> {
        match lookup(self.attachments, id) {
            Some(row) => Ok(row),
            None => Err(ServiceError::NotFound),
        }
    }

    /// The attachment `id` as it is after the update `changes`.
    pub open spec fn update_attachment(self, id: i32, changes: UpdateAttachment) -> Result<
        Attachment,
        ServiceError,
    > {
        match lookup(self.attachments, id) {
            Some(row) => Ok(changes.applied(row)),
            None => Err(ServiceError::NotFound),
        }
    }

    /// The tables after the update `changes` of the attachment `id`.
    pub open spec fn after_update_attachment(self, id: i32, changes: UpdateAttachment) -> TablesView {
        match lookup(self.attachments, id) {
            Some(row) => TablesView {
                attachments: self.attachments.update(index_of(self.attachments, id), changes.applied(row)),
                ..self
            },
            None => self,
        }
    }

    /// How many rows the removal of the attachment `id` takes away. An
    /// attachment whose blob is still in its table is not removed: the blob
    /// would be left without an owner.
    pub open spec fn delete_attachment(self, id: i32) -> Result<usize, ServiceError> {
        match lookup(self.attachments, id) {
            None => Ok(0),
            Some(row) => if has_id(self.blobs, row.blob_id) {
                Err(ServiceError::Conflict)
            } else {
                Ok(1)
            },
        }
    }

    /// The tables after the removal of the attachment `id`.
    pub open spec fn after_delete_attachment(self, id: i32) -> TablesView {
        if self.delete_attachment(id) == Ok::<usize, ServiceError>(1) {
            TablesView { attachments: without(self.attachments, id), ..self }
        } else {
            self
        }
    }

    /// The address of the bytes of the attachment `id`: the CDN base `base`
    /// composed with the storage key of the attachment's blob.
    pub open spec fn resolve_url(self, id: i32, base: Seq<char>) -> Result<Seq<char>, ServiceError> {
        match lookup(self.attachments, id) {
            None => Err(ServiceError::NotFound),
            Some(row) => match blob_url(self.blobs, row.blob_id, base) {
                None => Err(ServiceError::NotFound),
                Some(url) => Ok(url),
            },
        }
    }
}

/// The share link that carries `token`, if there is one.
pub open spec fn share_of_token(shares: Seq<VideoShare>, token: ShareToken) -> Option<VideoShare> {
    if token_taken(shares, token) {
        Some(shares[choose|at: int| token_at(shares, token, at)])
    } else {
        None
    }
}

// The table of share links.
impl TablesView {
    /// Why the user `shared_by` cannot share the attachment `video_id`, if
    /// they cannot: there is no such attachment, it belongs to another user,
    /// or no key is left for the row.
    pub open spec fn share_refusal(self, video_id: i32, shared_by: i32) -> Option<ServiceError> {
        match lookup(self.attachments, video_id) {
            None => Some(ServiceError::NotFound),
            Some(row) => if row.user_id != shared_by {
                Some(ServiceError::Forbidden)
            } else if self.next_share_id >= i32::MAX {
                Some(ServiceError::Internal)
            } else {
                None
            },
        }
    }

    /// The row that making a share link of `item` at `now` gives. A token
    /// that another link carries is a `Conflict`.
    pub open spec fn create_share(self, item: CreateVideoShare, now: Timestamp) -> Result<
        VideoShare,
        ServiceError,
    > {
        match self.share_refusal(item.video_id, item.shared_by) {
            Some(e) => Err(e),
            None => if token_taken(self.shares, item.share_token) {
                Err(ServiceError::Conflict)
            } else {
                Ok(item.as_row(self.next_share_id as i32, now))
            },
        }
    }

    /// The tables with `row` as their newest share link.
    pub open spec fn with_share(self, row: VideoShare) -> TablesView {
        TablesView { shares: self.shares.push(row), next_share_id: self.next_share_id + 1, ..self }
    }

    /// The tables after a share link was made of `item`, or refused.
    pub open spec fn after_create_share(self, item: CreateVideoShare, now: Timestamp) -> TablesView {
        match self.create_share(item, now) {
            Ok(row) => self.with_share(row),
            Err(_) => self,
        }
    }

    /// The token under which `owner` shares what `request` names, given
    /// the tokens that were drawn for it: the first that no link carries.
    /// `Internal` where every draw is in use.
    pub open spec fn share_from(self, owner: i32, request: ShareVideoRequest, draws: Seq<ShareToken>) -> Result<
        ShareToken,
        ServiceError,
    > {
        match self.share_refusal(request.video_id, owner) {
            Some(e) => Err(e),
            None => match first_free(self.shares, draws) {
                Some(token) => Ok(token),
                None => Err(ServiceError::Internal),
            },
        }
    }

    /// The tables after `owner` shared what `request` names under one of
    /// `draws`: with the new link, or as they were.
    pub open spec fn after_share_from(
        self,
        owner: i32,
        request: ShareVideoRequest,
        draws: Seq<ShareToken>,
        now: Timestamp,
    ) -> TablesView {
        match self.share_from(owner, request, draws) {
            Ok(token) => self.after_create_share(request.as_share(owner, token), now),
            Err(_) => self,
        }
    }

    /// The share link with the key `id`.
    pub open spec fn read_share(self, id: i32) -> Result<VideoShare, ServiceError> {
        match lookup(self.shares, id) {
            Some(row) => Ok(row),
            None => Err(ServiceError::NotFound),
        }
    }
}

/// Whether a share link lets a viewer in at `now`: not once it has expired,
/// and, where identities are checked, only the recipient that it names.
pub open spec fn admission(
    share: VideoShare,
    identity: Option<Seq<char>>,
    now: Timestamp,
    check_identity: bool,
) -> Result<(), ServiceError> {
    if state_at(share.expires_at, now) == ShareState::Expired {
        Err(ServiceError::Expired)
    } else if check_identity && identity != Some(share.shared_with@) {
        Err(ServiceError::Forbidden)
    } else {
        Ok(())
    }
}

// The attachment service and the share service.
impl TablesView {
    /// The attachment that an upload becomes: a blob for the stored object
    /// and an attachment of `owner` that points at it.
    pub open spec fn attach(
        self,
        owner: i32,
        name: String,
        record_type: RecordType,
        record_id: i32,
        upload: Upload,
        now: Timestamp,
    ) -> Result<Attachment, ServiceError> {
        match upload {
            Upload::Failed => Err(ServiceError::StorageError),
            Upload::Stored(descriptor) => match self.create_blob(descriptor, now) {
                Err(e) => Err(e),
                Ok(blob) => self.with_blob(blob).create_attachment(
                    CreateAttachment { user_id: owner, name, record_type, record_id, blob_id: blob.id },
                    now,
                ),
            },
        }
    }

    /// The tables after an upload was attached: with both new rows, or as
    /// they were.
    pub open spec fn after_attach(
        self,
        owner: i32,
        name: String,
        record_type: RecordType,
        record_id: i32,
        upload: Upload,
        now: Timestamp,
    ) -> TablesView {
        match (upload, self.attach(owner, name, record_type, record_id, upload, now)) {
            (Upload::Stored(descriptor), Ok(row)) => self.with_blob(
                descriptor.as_row(self.next_blob_id as i32, now),
            ).with_attachment(row),
            _ => self,
        }
    }

    /// The storage key of the object that goes when `user` detaches the
    /// attachment `id`; `None` where the attachment's blob is gone already.
    pub open spec fn detach_key(self, id: i32, user: i32) -> Result<Option<String>, ServiceError> {
        match lookup(self.attachments, id) {
            None => Err(ServiceError::NotFound),
            Some(row) => if row.user_id != user {
                Err(ServiceError::Forbidden)
            } else {
                Ok(
                    match lookup(self.blobs, row.blob_id) {
                        Some(blob) => Some(blob.key),
                        None => None,
                    },
                )
            },
        }
    }

    /// Whether `user` detaches the attachment `id`, given what the storage
    /// did with the object.
    pub open spec fn detach(self, id: i32, user: i32, object_deleted: bool) -> Result<(), ServiceError> {
        match self.detach_key(id, user) {
            Err(e) => Err(e),
            Ok(Some(_)) => if object_deleted {
                Ok(())
            } else {
                Err(ServiceError::StorageError)
            },
            Ok(None) => Ok(()),
        }
    }

    /// The tables after `user` asked to detach the attachment `id`: without
    /// the attachment and its blob, or as they were.
    pub open spec fn after_detach(self, id: i32, user: i32, object_deleted: bool) -> TablesView {
        match (self.detach(id, user, object_deleted), lookup(self.attachments, id)) {
            (Ok(_), Some(row)) => TablesView {
                blobs: without(self.blobs, row.blob_id),
                attachments: without(self.attachments, id),
                ..self
            },
            _ => self,
        }
    }

    /// What the holder of `token` gets at `now`: the share link and the
    /// address of its attachment. A link that has expired is reported like
    /// one that never was.
    pub open spec fn resolve_share(
        self,
        token: ShareToken,
        identity: Option<Seq<char>>,
        now: Timestamp,
        check_identity: bool,
        base: Seq<char>,
    ) -> Result<(VideoShare, Seq<char>), ServiceError> {
        match share_of_token(self.shares, token) {
            None => Err(ServiceError::NotFound),
            Some(share) => match admission(share, identity, now, check_identity) {
                Err(e) => Err(e.surfaced_spec()),
                Ok(_) => match self.resolve_url(share.video_id, base) {
                    Err(e) => Err(e),
                    Ok(url) => Ok((share, url)),
                },
            },
        }
    }
}

} // verus!
