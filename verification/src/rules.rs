//! The decisions of the services, on plain values. Whoever holds the rows,
//! the tables of this crate or a database, looks them up and asks here what
//! follows: the operations on [`crate::tables::Tables`] do, and so can a
//! server in front of a database.

use vstd::prelude::*;
use crate::clock::Timestamp;
use crate::error::ServiceError;
use crate::models::attachment_blobs::{AttachmentBlob, CreateAttachmentBlob, Upload};
use crate::models::attachments::Attachment;
use crate::models::video_shares::VideoShare;
use crate::services::shares::{answers, check_admission, named, SharedVideo};
use crate::tables_view::{admission, token_at, token_taken};
use crate::token::ShareToken;
use crate::url::{compose, url_of};

verus! {

/// The value behind an optional reference.
pub open spec fn held<T>(row: Option<&T>) -> Option<T> {
    match row {
        Some(row) => Some(*row),
        None => None,
    }
}

/// Why a blob cannot be stored, if it cannot: a negative size, a storage
/// key that is in use, or no key left for the row.
pub open spec fn blob_refusal_rule(byte_size: i64, key_in_use: bool, keys_left: bool) -> Option<ServiceError> {
    if byte_size < 0 {
        Some(ServiceError::ValidationError)
    } else if key_in_use {
        Some(ServiceError::Conflict)
    } else if !keys_left {
        Some(ServiceError::Internal)
    } else {
        None
    }
}

pub fn blob_refusal(item: &CreateAttachmentBlob, key_in_use: bool, keys_left: bool) -> (refusal: Option<
    ServiceError,
>)
    ensures
        refusal == blob_refusal_rule(item.byte_size, key_in_use, keys_left),
{
    if item.byte_size < 0 {
        Some(ServiceError::ValidationError)
    } else if key_in_use {
        Some(ServiceError::Conflict)
    } else if !keys_left {
        Some(ServiceError::Internal)
    } else {
        None
    }
}

/// The descriptor of an upload: a `StorageError` where the storage holds
/// nothing.
pub open spec fn stored_rule(upload: Upload) -> Result<CreateAttachmentBlob, ServiceError> {
    match upload {
        Upload::Stored(descriptor) => Ok(descriptor),
        Upload::Failed => Err(ServiceError::StorageError),
    }
}

pub fn stored(upload: &Upload) -> (result: Result<CreateAttachmentBlob, ServiceError>)
    ensures
        result == stored_rule(*upload),
{
    match upload {
        Upload::Stored(descriptor) => Ok(descriptor.clone()),
        Upload::Failed => Err(ServiceError::StorageError),
    }
}

/// Why an attachment cannot be made, if it cannot: its blob is missing, its
/// blob belongs to another attachment, or no key is left for the row.
pub open spec fn attachment_refusal_rule(blob_present: bool, blob_attached: bool, keys_left: bool) -> Option<
    ServiceError,
> {
    if !blob_present {
        Some(ServiceError::NotFound)
    } else if blob_attached {
        Some(ServiceError::Conflict)
    } else if !keys_left {
        Some(ServiceError::Internal)
    } else {
        None
    }
}

pub fn attachment_refusal(blob_present: bool, blob_attached: bool, keys_left: bool) -> (refusal: Option<
    ServiceError,
>)
    ensures
        refusal == attachment_refusal_rule(blob_present, blob_attached, keys_left),
{
    if !blob_present {
        Some(ServiceError::NotFound)
    } else if blob_attached {
        Some(ServiceError::Conflict)
    } else if !keys_left {
        Some(ServiceError::Internal)
    } else {
        None
    }
}

/// How many rows the removal of an attachment takes away: none where there
/// is no such attachment, one where its blob is gone already. While the
/// blob is there the removal is a `Conflict`.
pub open spec fn removal_rule(attachment_present: bool, blob_present: bool) -> Result<usize, ServiceError> {
    if !attachment_present {
        Ok(0)
    } else if blob_present {
        Err(ServiceError::Conflict)
    } else {
        Ok(1)
    }
}

pub fn removal(attachment_present: bool, blob_present: bool) -> (result: Result<usize, ServiceError>)
    ensures
        result == removal_rule(attachment_present, blob_present),
{
    if !attachment_present {
        Ok(0)
    } else if blob_present {
        Err(ServiceError::Conflict)
    } else {
        Ok(1)
    }
}

/// The address of an attachment, given the attachment and its blob as far
/// as they exist: `NotFound` unless both do.
pub open spec fn address_rule(attachment: Option<Attachment>, blob: Option<AttachmentBlob>, base: Seq<char>) -> Result<
    Seq<char>,
    ServiceError,
> {
    match (attachment, blob) {
        (Some(_), Some(blob)) => Ok(url_of(base, blob.key@)),
        _ => Err(ServiceError::NotFound),
    }
}

pub fn address(attachment: Option<&Attachment>, blob: Option<&AttachmentBlob>, cdn_base: &str) -> (result: Result<
    String,
    ServiceError,
>)
    ensures
        match result {
            Ok(url) => address_rule(held(attachment), held(blob), cdn_base@) == Ok::<Seq<char>, ServiceError>(
                url@,
            ),
            Err(e) => address_rule(held(attachment), held(blob), cdn_base@) == Err::<Seq<char>, ServiceError>(e),
        },
{
    match (attachment, blob) {
        (Some(_), Some(blob)) => Ok(compose(cdn_base, blob.key.as_str())),
        _ => Err(ServiceError::NotFound),
    }
}

/// What must go from the storage before `user` may detach an attachment,
/// given the attachment and its blob as far as they exist: `NotFound`
/// without the attachment, `Forbidden` unless `user` owns it, else the
/// storage key of the blob, or `None` where the blob is gone already.
pub open spec fn detach_plan_rule(attachment: Option<Attachment>, blob: Option<AttachmentBlob>, user: i32) -> Result<
    Option<String>,
    ServiceError,
> {
    match attachment {
        None => Err(ServiceError::NotFound),
        Some(row) => if row.user_id != user {
            Err(ServiceError::Forbidden)
        } else {
            Ok(
                match blob {
                    Some(blob) => Some(blob.key),
                    None => None,
                },
            )
        },
    }
}

pub fn detach_plan(attachment: Option<&Attachment>, blob: Option<&AttachmentBlob>, requesting_user_id: i32) -> (plan:
    Result<Option<String>, ServiceError>)
    ensures
        plan == detach_plan_rule(held(attachment), held(blob), requesting_user_id),
{
    match attachment {
        None => Err(ServiceError::NotFound),
        Some(row) => match row.owner_only(requesting_user_id) {
            Err(e) => Err(e),
            Ok(_) => Ok(
                match blob {
                    Some(blob) => Some(blob.key.clone()),
                    None => None,
                },
            ),
        },
    }
}

/// Whether the rows of an attachment may go, given the plan and what the
/// storage did: a `StorageError` while the object that the plan names is
/// still there.
pub open spec fn detach_rule(plan: Result<Option<String>, ServiceError>, object_deleted: bool) -> Result<
    (),
    ServiceError,
> {
    match plan {
        Err(e) => Err(e),
        Ok(Some(_)) => if object_deleted {
            Ok(())
        } else {
            Err(ServiceError::StorageError)
        },
        Ok(None) => Ok(()),
    }
}

pub fn detach_verdict(plan: &Result<Option<String>, ServiceError>, object_deleted: bool) -> (result: Result<
    (),
    ServiceError,
>)
    ensures
        result == detach_rule(*plan, object_deleted),
{
    match plan {
        Err(e) => Err(*e),
        Ok(Some(_)) => if object_deleted {
            Ok(())
        } else {
            Err(ServiceError::StorageError)
        },
        Ok(None) => Ok(()),
    }
}

/// Why `shared_by` cannot share an attachment, if they cannot, given the
/// attachment as far as it exists: `NotFound` without it, `Forbidden`
/// unless `shared_by` owns it, `Internal` with no key left for the row.
pub open spec fn share_refusal_rule(attachment: Option<Attachment>, shared_by: i32, keys_left: bool) -> Option<
    ServiceError,
> {
    match attachment {
        None => Some(ServiceError::NotFound),
        Some(row) => if row.user_id != shared_by {
            Some(ServiceError::Forbidden)
        } else if !keys_left {
            Some(ServiceError::Internal)
        } else {
            None
        },
    }
}

pub fn share_refusal(attachment: Option<&Attachment>, shared_by: i32, keys_left: bool) -> (refusal: Option<
    ServiceError,
>)
    ensures
        refusal == share_refusal_rule(held(attachment), shared_by, keys_left),
{
    match attachment {
        None => Some(ServiceError::NotFound),
        Some(row) => {
            if let Err(e) = row.owner_only(shared_by) {
                Some(e)
            } else if !keys_left {
                Some(ServiceError::Internal)
            } else {
                None
            }
        },
    }
}

/// The place of the share link that carries `token` among `shares`.
pub fn token_place(shares: &Vec<VideoShare>, token: ShareToken) -> (place: Option<usize>)
    ensures
        match place {
            Some(at) => token_at(shares@, token, at as int),
            None => !token_taken(shares@, token),
        },
{
    let mut i: usize = 0;
    while i < shares.len()
        invariant
            i <= shares.len(),
            forall|j: int| 0 <= j < i ==> (#[trigger] shares[j]).share_token != token,
        decreases shares.len() - i,
    {
        if shares[i].share_token.bits == token.bits {
            return Some(i);
        }
        i += 1;
    }
    None
}

/// Whether the draw at place `at` is the first that no link of `shares`
/// carries.
pub open spec fn is_first_free(shares: Seq<VideoShare>, draws: Seq<ShareToken>, at: int) -> bool {
    &&& 0 <= at < draws.len()
    &&& !token_taken(shares, draws[at])
    &&& forall|j: int| 0 <= j < at ==> token_taken(shares, #[trigger] draws[j])
}

/// The first of `draws` that no link of `shares` carries, if there is one.
pub open spec fn first_free(shares: Seq<VideoShare>, draws: Seq<ShareToken>) -> Option<ShareToken> {
    if exists|at: int| is_first_free(shares, draws, at) {
        Some(draws[choose|at: int| is_first_free(shares, draws, at)])
    } else {
        None
    }
}

/// The first free draw stands at one place only.
pub proof fn lemma_first_free(shares: Seq<VideoShare>, draws: Seq<ShareToken>, at: int)
    requires
        is_first_free(shares, draws, at),
    ensures
        first_free(shares, draws) == Some(draws[at]),
{
    let chosen = choose|k: int| is_first_free(shares, draws, k);
    if chosen < at {
        assert(token_taken(shares, draws[chosen]));
    } else if at < chosen {
        assert(token_taken(shares, draws[at]));
    }
}

/// The token for a new share link: the first of the drawn tokens that no
/// link carries yet. Each draw that is in use is passed over; `Internal` if
/// all are in use.
pub fn pick_free(draws: &Vec<ShareToken>, shares: &Vec<VideoShare>) -> (result: Result<ShareToken, ServiceError>)
    ensures
        result == (match first_free(shares@, draws@) {
            Some(token) => Ok::<ShareToken, ServiceError>(token),
            None => Err::<ShareToken, ServiceError>(ServiceError::Internal),
        }),
        result matches Ok(token) ==> !token_taken(shares@, token),
{
    let mut i: usize = 0;
    while i < draws.len()
        invariant
            i <= draws.len(),
            forall|j: int| 0 <= j < i ==> token_taken(shares@, #[trigger] draws[j]),
        decreases draws.len() - i,
    {
        if token_place(shares, draws[i]).is_none() {
            proof {
                lemma_first_free(shares@, draws@, i as int);
            }
            return Ok(draws[i]);
        }
        i += 1;
    }
    assert(forall|at: int| !is_first_free(shares@, draws@, at));
    Err(ServiceError::Internal)
}

/// What the holder of a token gets at `now`, given the link that carries
/// the token, if there is one, and what its attachment resolves to:
/// `NotFound` without a link or for one that has expired, `Forbidden` for
/// the wrong viewer, else the address with the link's own values, or why
/// there is no address.
pub open spec fn shared_video_rule(
    share: Option<VideoShare>,
    address: Result<Seq<char>, ServiceError>,
    identity: Option<Seq<char>>,
    now: Timestamp,
    check_identity: bool,
) -> Result<(VideoShare, Seq<char>), ServiceError> {
    match share {
        None => Err(ServiceError::NotFound),
        Some(share) => match admission(share, identity, now, check_identity) {
            Err(e) => Err(e.surfaced_spec()),
            Ok(_) => match address {
                Err(e) => Err(e),
                Ok(url) => Ok((share, url)),
            },
        },
    }
}

/// The characters of an address, or why there is none.
pub open spec fn spelled(address: Result<String, ServiceError>) -> Result<Seq<char>, ServiceError> {
    match address {
        Ok(url) => Ok(url@),
        Err(e) => Err(e),
    }
}

pub fn shared_video(
    share: Option<&VideoShare>,
    address: Result<String, ServiceError>,
    requesting_identity: Option<&str>,
    now: Timestamp,
    check_identity: bool,
) -> (result: Result<SharedVideo, ServiceError>)
    ensures
        answers(
            result,
            shared_video_rule(held(share), spelled(address), named(requesting_identity), now, check_identity),
        ),
{
    match share {
        None => Err(ServiceError::NotFound),
        Some(share) => match check_admission(share, requesting_identity, now, check_identity) {
            Err(e) => Err(e.surfaced()),
            Ok(_) => match address {
                Err(e) => Err(e),
                Ok(url) => Ok(
                    SharedVideo {
                        video: url,
                        start_time: share.start_time,
                        shared_by: share.shared_by,
                        shared_with: share.shared_with.clone(),
                    },
                ),
            },
        },
    }
}

} // verus!
