//! What holds of the operations taken together. Each law is stated over
//! the model of the tables and proved from the definitions of the
//! operations.

use vstd::prelude::*;
use crate::clock::Timestamp;
use crate::error::ServiceError;
use crate::invariants::{lemma_attach_keeps_invariants, lemma_new_share_keeps_wf, lemma_share_of_token};
use crate::tables_view::{admission, share_of_token, token_at, token_taken, TablesView};
use crate::models::attachment_blobs::{CreateAttachmentBlob, UpdateAttachmentBlob, Upload};
use crate::models::attachments::{Attachment, CreateAttachment, RecordType, UpdateAttachment};
use crate::models::video_shares::{state_at, CreateVideoShare, ShareState, ShareVideoRequest, VideoShare};
use crate::rules::lemma_first_free;
use crate::row::{has_id, index_of, lemma_index_of_unique, lemma_lookup_found, lookup};
use crate::token::ShareToken;
use crate::url::url_of;

verus! {

/// An upload that was just attached resolves to the CDN base, one slash,
/// and the storage key under which the upload was stored.
pub proof fn law_attach_then_resolve_url(
    tables: TablesView,
    owner: i32,
    name: String,
    record_type: RecordType,
    record_id: i32,
    descriptor: CreateAttachmentBlob,
    now: Timestamp,
    base: Seq<char>,
)
    requires
        tables.wf(),
        tables.attach(owner, name, record_type, record_id, Upload::Stored(descriptor), now) is Ok,
    ensures
        ({
            let made = tables.attach(owner, name, record_type, record_id, Upload::Stored(descriptor), now).unwrap();
            let after = tables.after_attach(owner, name, record_type, record_id, Upload::Stored(descriptor), now);
            &&& made.user_id == owner
            &&& made.id == tables.next_attachment_id
            &&& after.resolve_url(made.id, base) == Ok::<Seq<char>, ServiceError>(url_of(base, descriptor.key@))
        }),
{
    let upload = Upload::Stored(descriptor);
    lemma_attach_keeps_invariants(tables, owner, name, record_type, record_id, upload, now);
    let made = tables.attach(owner, name, record_type, record_id, upload, now).unwrap();
    let after = tables.after_attach(owner, name, record_type, record_id, upload, now);
    lemma_index_of_unique(after.attachments, made.id, tables.attachments.len() as int);
    lemma_index_of_unique(after.blobs, made.blob_id, tables.blobs.len() as int);
}

/// Detaching is for the owner alone: for any other user it fails with
/// `Forbidden`, names no object to delete, and leaves the tables as they
/// were, whatever the storage reports.
pub proof fn law_detach_by_other_user_changes_nothing(tables: TablesView, id: i32, user: i32, object_deleted: bool)
    requires
        lookup(tables.attachments, id) matches Some(row) && row.user_id != user,
    ensures
        tables.detach_key(id, user) == Err::<Option<String>, ServiceError>(ServiceError::Forbidden),
        tables.detach(id, user, object_deleted) == Err::<(), ServiceError>(ServiceError::Forbidden),
        tables.after_detach(id, user, object_deleted) == tables,
{
}

/// Detaching by the owner, once the stored object is deleted, removes the
/// attachment and its blob: the attachment no longer resolves.
pub proof fn law_detach_by_owner_removes(tables: TablesView, id: i32, owner: i32, base: Seq<char>)
    requires
        tables.wf(),
        lookup(tables.attachments, id) matches Some(row) && row.user_id == owner,
    ensures
        tables.detach(id, owner, true) == Ok::<(), ServiceError>(()),
        ({
            let row = lookup(tables.attachments, id).unwrap();
            let after = tables.after_detach(id, owner, true);
            &&& !has_id(after.attachments, id)
            &&& !has_id(after.blobs, row.blob_id)
            &&& after.read_attachment(id) == Err::<Attachment, ServiceError>(ServiceError::NotFound)
            &&& after.resolve_url(id, base) == Err::<Seq<char>, ServiceError>(ServiceError::NotFound)
        }),
{
    lemma_lookup_found(tables.attachments, id);
    let at = index_of(tables.attachments, id);
    let row = tables.attachments[at];
    let after = tables.after_detach(id, owner, true);
    assert(after.attachments == tables.attachments.remove(at));
    assert forall|k: int| 0 <= k < after.attachments.len() implies (#[trigger] after.attachments[k]).id != id by {
        if k < at {
            assert(after.attachments[k] == tables.attachments[k]);
            assert(tables.attachments[k].id < tables.attachments[at].id);
        } else {
            assert(after.attachments[k] == tables.attachments[k + 1]);
            assert(tables.attachments[at].id < tables.attachments[k + 1].id);
        }
    }
    if has_id(tables.blobs, row.blob_id) {
        lemma_lookup_found(tables.blobs, row.blob_id);
        let gone = index_of(tables.blobs, row.blob_id);
        assert(after.blobs == tables.blobs.remove(gone));
        assert forall|k: int| 0 <= k < after.blobs.len() implies (#[trigger] after.blobs[k]).id != row.blob_id by {
            if k < gone {
                assert(after.blobs[k] == tables.blobs[k]);
                assert(tables.blobs[k].id < tables.blobs[gone].id);
            } else {
                assert(after.blobs[k] == tables.blobs[k + 1]);
                assert(tables.blobs[gone].id < tables.blobs[k + 1].id);
            }
        }
    }
}

/// A share link is made only under a token that no link carries yet, and
/// carries it from then on.
pub proof fn law_share_token_is_fresh(tables: TablesView, item: CreateVideoShare, now: Timestamp)
    requires
        tables.wf(),
        tables.create_share(item, now) is Ok,
    ensures
        !token_taken(tables.shares, item.share_token),
        token_taken(tables.after_create_share(item, now).shares, item.share_token),
        tables.after_create_share(item, now).wf(),
{
    let after = tables.after_create_share(item, now);
    assert(token_at(after.shares, item.share_token, tables.shares.len() as int));
    assert(after.shares[tables.shares.len() as int].share_token == item.share_token);
    lemma_new_share_keeps_wf(tables, item, now);
}

/// The owner of an attachment who shares it under a token that no link
/// carries gets that token back, and the table of share links gains
/// exactly one row, with the values that were asked for.
pub proof fn law_owner_share_is_made(
    tables: TablesView,
    owner: i32,
    request: ShareVideoRequest,
    token: ShareToken,
    now: Timestamp,
)
    requires
        tables.wf(),
        lookup(tables.attachments, request.video_id) matches Some(row) && row.user_id == owner,
        tables.next_share_id < i32::MAX,
        !token_taken(tables.shares, token),
    ensures
        tables.create_share(request.as_share(owner, token), now) matches Ok(made) && {
            &&& made.id == tables.next_share_id
            &&& made.share_token == token
            &&& made.video_id == request.video_id
            &&& made.shared_by == owner
            &&& made.shared_with == request.shared_with
            &&& made.start_time == request.start_time
            &&& made.expires_at == request.expires_at
            &&& made.created_at == Some(now)
            &&& tables.after_create_share(request.as_share(owner, token), now).shares == tables.shares.push(made)
            &&& tables.after_create_share(request.as_share(owner, token), now).blobs == tables.blobs
            &&& tables.after_create_share(request.as_share(owner, token), now).attachments == tables.attachments
        },
        forall|draws: Seq<ShareToken>|
            draws.len() > 0 && draws[0] == token ==> #[trigger] tables.share_from(owner, request, draws) == Ok::<
                ShareToken,
                ServiceError,
            >(token),
{
    assert forall|draws: Seq<ShareToken>| draws.len() > 0 && draws[0] == token implies #[trigger] tables.share_from(
        owner,
        request,
        draws,
    ) == Ok::<ShareToken, ServiceError>(token) by {
        lemma_first_free(tables.shares, draws, 0);
    }
}

/// From upload to share link and back: a user attaches an upload and
/// shares it under a token that no link carries. Before the link's expiry
/// its recipient gets the address of the upload; from the expiry on, and
/// once the owner has detached the attachment, nobody gets anything but
/// `NotFound`.
pub proof fn law_upload_shared_and_resolved(
    tables: TablesView,
    owner: i32,
    name: String,
    record_type: RecordType,
    record_id: i32,
    descriptor: CreateAttachmentBlob,
    recipient: String,
    start_time: Option<Timestamp>,
    expires_at: Timestamp,
    token: ShareToken,
    uploaded: Timestamp,
    shared: Timestamp,
    now: Timestamp,
    check_identity: bool,
    base: Seq<char>,
)
    requires
        tables.wf(),
        tables.attach(owner, name, record_type, record_id, Upload::Stored(descriptor), uploaded) is Ok,
        tables.next_share_id < i32::MAX,
        !token_taken(tables.shares, token),
    ensures
        ({
            let attached = tables.after_attach(owner, name, record_type, record_id, Upload::Stored(descriptor), uploaded);
            let made = tables.attach(owner, name, record_type, record_id, Upload::Stored(descriptor), uploaded).unwrap();
            let request = ShareVideoRequest {
                video_id: made.id,
                shared_with: recipient,
                start_time,
                expires_at: Some(expires_at),
            };
            let with_link = attached.after_create_share(request.as_share(owner, token), shared);
            let detached = with_link.after_detach(made.id, owner, true);
            &&& attached.create_share(request.as_share(owner, token), shared) is Ok
            &&& now.micros < expires_at.micros ==> (with_link.resolve_share(
                token,
                Some(recipient@),
                now,
                check_identity,
                base,
            ) matches Ok(found) && found.1 == url_of(base, descriptor.key@) && found.0.shared_by == owner
                && found.0.shared_with == recipient && found.0.start_time == start_time)
            &&& now.micros >= expires_at.micros ==> with_link.resolve_share(
                token,
                Some(recipient@),
                now,
                check_identity,
                base,
            ) == Err::<(VideoShare, Seq<char>), ServiceError>(ServiceError::NotFound)
            &&& with_link.detach(made.id, owner, true) == Ok::<(), ServiceError>(())
            &&& detached.resolve_share(token, Some(recipient@), now, check_identity, base) == Err::<
                (VideoShare, Seq<char>),
                ServiceError,
            >(ServiceError::NotFound)
        }),
{
    let upload = Upload::Stored(descriptor);
    let attached = tables.after_attach(owner, name, record_type, record_id, upload, uploaded);
    let made = tables.attach(owner, name, record_type, record_id, upload, uploaded).unwrap();
    let request = ShareVideoRequest { video_id: made.id, shared_with: recipient, start_time, expires_at: Some(expires_at) };
    let item = request.as_share(owner, token);
    lemma_attach_keeps_invariants(tables, owner, name, record_type, record_id, upload, uploaded);
    law_attach_then_resolve_url(tables, owner, name, record_type, record_id, descriptor, uploaded, base);
    lemma_index_of_unique(attached.attachments, made.id, tables.attachments.len() as int);
    assert(attached.shares == tables.shares);
    law_owner_share_is_made(attached, owner, request, token, shared);
    let link = attached.create_share(item, shared).unwrap();
    let with_link = attached.after_create_share(item, shared);
    lemma_new_share_keeps_wf(attached, item, shared);
    assert(token_at(with_link.shares, token, attached.shares.len() as int));
    lemma_share_of_token(with_link.shares, token, attached.shares.len() as int);
    assert(share_of_token(with_link.shares, token) == Some(link));
    assert(with_link.resolve_url(made.id, base) == attached.resolve_url(made.id, base));
    law_link_of_detached_attachment_is_not_found(with_link, token, Some(recipient@), now, check_identity, base);
}

/// A token that some share link carries is never given to another link.
pub proof fn law_token_in_use_is_refused(tables: TablesView, item: CreateVideoShare, now: Timestamp)
    requires
        token_taken(tables.shares, item.share_token),
    ensures
        tables.create_share(item, now) is Err,
        tables.after_create_share(item, now) == tables,
{
}

/// No two share links get the same token: a link that is made after
/// another one carries another token.
pub proof fn law_later_share_differs(
    tables: TablesView,
    first: CreateVideoShare,
    first_now: Timestamp,
    second: CreateVideoShare,
    second_now: Timestamp,
)
    requires
        tables.wf(),
        tables.create_share(first, first_now) is Ok,
        tables.after_create_share(first, first_now).create_share(second, second_now) is Ok,
    ensures
        first.share_token != second.share_token,
{
    law_share_token_is_fresh(tables, first, first_now);
}

/// No operation takes a share link away or changes one: whatever is done
/// to blobs and attachments, the links stay as they are, and a new link
/// is put behind them.
pub proof fn law_share_links_are_kept(
    tables: TablesView,
    blob: CreateAttachmentBlob,
    attachment: CreateAttachment,
    changes: UpdateAttachment,
    blob_changes: UpdateAttachmentBlob,
    share: CreateVideoShare,
    upload: Upload,
    id: i32,
    ids: Seq<i32>,
    user: i32,
    flag: bool,
    now: Timestamp,
)
    ensures
        tables.after_create_blob(blob, now).shares == tables.shares,
        tables.after_update_blob(id, blob_changes).shares == tables.shares,
        tables.after_delete_blob(id).shares == tables.shares,
        tables.after_delete_blobs(ids).shares == tables.shares,
        tables.after_create_attachment(attachment, now).shares == tables.shares,
        tables.after_update_attachment(id, changes).shares == tables.shares,
        tables.after_delete_attachment(id).shares == tables.shares,
        tables.after_attach(user, attachment.name, attachment.record_type, attachment.record_id, upload, now).shares
            == tables.shares,
        tables.after_detach(id, user, flag).shares == tables.shares,
        tables.after_create_share(share, now).shares == tables.shares || tables.after_create_share(
            share,
            now,
        ).shares == tables.shares.push(tables.create_share(share, now).unwrap()),
{
}

/// A link that has expired stays expired: from its expiry on, at every
/// instant, it resolves like a link that never was.
pub proof fn law_expired_link_never_resolves(
    tables: TablesView,
    token: ShareToken,
    identity: Option<Seq<char>>,
    now: Timestamp,
    later: Timestamp,
    check_identity: bool,
    base: Seq<char>,
)
    requires
        share_of_token(tables.shares, token) matches Some(share) && state_at(share.expires_at, now)
            == ShareState::Expired,
        now.micros <= later.micros,
    ensures
        state_at(share_of_token(tables.shares, token).unwrap().expires_at, later) == ShareState::Expired,
        tables.resolve_share(token, identity, later, check_identity, base) == Err::<
            (VideoShare, Seq<char>),
            ServiceError,
        >(ServiceError::NotFound),
{
}

/// Before its expiry, and always where it has none, a link resolves for
/// its recipient to whatever its attachment resolves to at that moment.
pub proof fn law_active_link_resolves(
    tables: TablesView,
    token: ShareToken,
    identity: Option<Seq<char>>,
    now: Timestamp,
    check_identity: bool,
    base: Seq<char>,
)
    requires
        share_of_token(tables.shares, token) matches Some(share) && (match share.expires_at {
            Some(end) => now.micros < end.micros,
            None => true,
        }) && (check_identity ==> identity == Some(share.shared_with@)),
    ensures
        ({
            let share = share_of_token(tables.shares, token).unwrap();
            tables.resolve_share(token, identity, now, check_identity, base) == (match tables.resolve_url(
                share.video_id,
                base,
            ) {
                Ok(url) => Ok((share, url)),
                Err(e) => Err(e),
            })
        }),
{
}

/// Where identities are checked, a link that is active is `Forbidden` to
/// everyone but the recipient that it names, character for character.
/// Where they are not checked, the identity decides nothing.
pub proof fn law_identity_gate(
    tables: TablesView,
    token: ShareToken,
    identity: Option<Seq<char>>,
    other: Option<Seq<char>>,
    now: Timestamp,
    base: Seq<char>,
)
    requires
        share_of_token(tables.shares, token) matches Some(share) && state_at(share.expires_at, now)
            == ShareState::Active && identity != Some(share.shared_with@),
    ensures
        tables.resolve_share(token, identity, now, true, base) == Err::<(VideoShare, Seq<char>), ServiceError>(
            ServiceError::Forbidden,
        ),
        tables.resolve_share(token, identity, now, false, base) == tables.resolve_share(
            token,
            other,
            now,
            false,
            base,
        ),
{
}

/// The start of playback is a hint: it never decides whether a viewer is
/// let in.
pub proof fn law_start_time_gates_nothing(
    share: VideoShare,
    start_time: Option<Timestamp>,
    identity: Option<Seq<char>>,
    now: Timestamp,
    check_identity: bool,
)
    ensures
        admission(VideoShare { start_time, ..share }, identity, now, check_identity) == admission(
            share,
            identity,
            now,
            check_identity,
        ),
{
}

/// A link outlives its attachment but no longer resolves: once the owner
/// has detached the attachment, the link is `NotFound`, expired or not.
pub proof fn law_link_of_detached_attachment_is_not_found(
    tables: TablesView,
    token: ShareToken,
    identity: Option<Seq<char>>,
    now: Timestamp,
    check_identity: bool,
    base: Seq<char>,
)
    requires
        tables.wf(),
        share_of_token(tables.shares, token) matches Some(share) && has_id(tables.attachments, share.video_id)
            && (check_identity ==> identity == Some(share.shared_with@)),
    ensures
        ({
            let share = share_of_token(tables.shares, token).unwrap();
            let after = tables.after_detach(share.video_id, share.shared_by, true);
            &&& tables.detach(share.video_id, share.shared_by, true) == Ok::<(), ServiceError>(())
            &&& share_of_token(after.shares, token) == Some(share)
            &&& after.resolve_share(token, identity, now, check_identity, base) == Err::<
                (VideoShare, Seq<char>),
                ServiceError,
            >(ServiceError::NotFound)
        }),
{
    let share = share_of_token(tables.shares, token).unwrap();
    let s = choose|k: int| token_at(tables.shares, token, k);
    lemma_lookup_found(tables.attachments, share.video_id);
    let a = index_of(tables.attachments, share.video_id);
    assert(tables.attachments[a].user_id == tables.shares[s].shared_by);
    law_detach_by_owner_removes(tables, share.video_id, share.shared_by, base);
}

} // verus!
