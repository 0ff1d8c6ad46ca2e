use vstd::prelude::*;
use crate::clock::Timestamp;
use crate::error::ServiceError;
use crate::invariants::{lemma_attach_keeps_invariants, lemma_detach_keeps_invariants};
use crate::models::attachment_blobs::{AttachmentBlob, Upload};
use crate::models::attachments::{Attachment, CreateAttachment, RecordType};
use crate::row::position;
use crate::rules::{detach_plan, detach_verdict, stored};
use crate::tables::Tables;

verus! {

/// Attaches an upload at the instant `now`: records the blob of the stored
/// object and an attachment of `owner_id` that points at it, both or
/// neither. An upload that the storage failed to write is a `StorageError`.
pub fn attach_at(
    db: &mut Tables,
    owner_id: i32,
    display_name: String,
    record_type: RecordType,
    record_id: i32,
    upload: &Upload,
    now: Timestamp,
) -> (result: Result<Attachment, ServiceError>)
    ensures
        result == old(db)@.attach(owner_id, display_name, record_type, record_id, *upload, now),
        final(db)@ == old(db)@.after_attach(owner_id, display_name, record_type, record_id, *upload, now),
        final(db)@.wf(),
        old(db)@.intact() ==> final(db)@.intact(),
{
    proof {
        use_type_invariant(&*db);
    }
    proof {
        lemma_attach_keeps_invariants(db@, owner_id, display_name, record_type, record_id, *upload, now);
    }
    match stored(upload) {
        Err(e) => Err(e),
        Ok(descriptor) => {
            match AttachmentBlob::refusal(db, &descriptor) {
                Some(e) => Err(e),
                None => {
                    if db.next_attachment_id() >= i32::MAX {
                        Err(ServiceError::Internal)
                    } else {
                        let blob: AttachmentBlob = db.push_blob(&descriptor, now);
                        let item = CreateAttachment {
                            user_id: owner_id,
                            name: display_name,
                            record_type,
                            record_id,
                            blob_id: blob.id,
                        };
                        let row: Attachment = db.push_attachment(&item, now);
                        Ok(row)
                    }
                },
            }
        },
    }
}

/// Attaches an upload now. See [`attach_at`]; the instant is read from the
/// clock.
pub fn attach(
    db: &mut Tables,
    owner_id: i32,
    display_name: String,
    record_type: RecordType,
    record_id: i32,
    upload: &Upload,
) -> (result: Result<Attachment, ServiceError>)
    ensures
        exists|now: Timestamp|
            {
                &&& result == #[trigger] old(db)@.attach(
                    owner_id,
                    display_name,
                    record_type,
                    record_id,
                    *upload,
                    now,
                )
                &&& final(db)@ == old(db)@.after_attach(
                    owner_id,
                    display_name,
                    record_type,
                    record_id,
                    *upload,
                    now,
                )
            },
        final(db)@.wf(),
        old(db)@.intact() ==> final(db)@.intact(),
{
    proof {
        use_type_invariant(&*db);
    }
    let now: Timestamp = Timestamp::now();
    attach_at(db, owner_id, display_name, record_type, record_id, upload, now)
}

/// The storage key of the object that must go before the attachment
/// `attachment_id` is detached for `requesting_user_id`. `Forbidden` unless
/// that user owns the attachment; `None` where the blob is gone already and
/// nothing is left to delete.
pub fn detach_key(db: &Tables, attachment_id: i32, requesting_user_id: i32) -> (result: Result<
    Option<String>,
    ServiceError,
>)
    ensures
        result == db@.detach_key(attachment_id, requesting_user_id),
{
    let attachment: Option<&Attachment> = Attachment::find(db, attachment_id);
    let blob: Option<&AttachmentBlob> = match attachment {
        Some(row) => AttachmentBlob::find(db, row.blob_id),
        None => None,
    };
    detach_plan(attachment, blob, requesting_user_id)
}

/// Detaches the attachment `attachment_id` for `requesting_user_id`, once
/// the storage was asked to delete the object under [`detach_key`]:
/// `object_deleted` says whether it did. `Forbidden` unless that user owns
/// the attachment, `StorageError` if the object is still there; the tables
/// stay as they were then. Else the blob's row goes, then the attachment's.
pub fn detach(db: &mut Tables, attachment_id: i32, requesting_user_id: i32, object_deleted: bool) -> (result:
    Result<(), ServiceError>)
    ensures
        result == old(db)@.detach(attachment_id, requesting_user_id, object_deleted),
        final(db)@ == old(db)@.after_detach(attachment_id, requesting_user_id, object_deleted),
        final(db)@.wf(),
        old(db)@.intact() ==> final(db)@.intact(),
{
    proof {
        use_type_invariant(&*db);
    }
    proof {
        lemma_detach_keeps_invariants(db@, attachment_id, requesting_user_id, object_deleted);
    }
    let plan: Result<Option<String>, ServiceError> = detach_key(db, attachment_id, requesting_user_id);
    let verdict: Result<(), ServiceError> = detach_verdict(&plan, object_deleted);
    if verdict.is_ok() {
        match position(db.attachments(), attachment_id) {
            None => {},
            Some(at) => {
                match position(db.blobs(), db.attachments()[at].blob_id) {
                    Some(b) => {
                        db.remove_blob(b);
                    },
                    None => {},
                }
                db.remove_attachment(at);
            },
        }
    }
    verdict
}

} // verus!
