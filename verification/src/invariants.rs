//! Why the operations keep the tables well formed, and attachments and
//! blobs together.

use vstd::prelude::*;
use crate::clock::Timestamp;
use crate::error::ServiceError;
use crate::filtered::{lemma_filter_keeps, lemma_filter_order, lemma_filter_source};
use crate::tables_view::{blob_attached, blobs_among, blobs_beside, share_of_token, token_at, tokens_distinct, TablesView};
use crate::models::attachment_blobs::{AttachmentBlob, Upload};
use crate::models::attachments::{Attachment, CreateAttachment, RecordType};
use crate::models::video_shares::{CreateVideoShare, VideoShare};
use crate::row::{has_id, ids_ascend, index_of, lemma_index_of_unique, lemma_lookup_found, lookup};
use crate::token::ShareToken;

verus! {

/// A batch of blobs that was loaded by their keys answers for each of those
/// keys as the whole table does.
pub proof fn lemma_batch_answers_like_table(blobs: Seq<AttachmentBlob>, ids: Seq<i32>, id: i32)
    requires
        ids_ascend(blobs),
        ids.contains(id),
    ensures
        lookup(blobs_among(blobs, ids), id) == lookup(blobs, id),
        has_id(blobs_among(blobs, ids), id) == has_id(blobs, id),
{
    let wanted = |b: AttachmentBlob| ids.contains(b.id);
    let batch = blobs_among(blobs, ids);
    assert forall|k1: int, k2: int| 0 <= k1 < k2 < batch.len() implies (#[trigger] batch[k1]).id < (
    #[trigger] batch[k2]).id by {
        let places = lemma_filter_order(blobs, wanted, k1, k2);
    }
    if has_id(blobs, id) {
        lemma_lookup_found(blobs, id);
        let at = index_of(blobs, id);
        let k = lemma_filter_keeps(blobs, wanted, at);
        lemma_index_of_unique(batch, id, k);
    } else if has_id(batch, id) {
        lemma_lookup_found(batch, id);
        let k = index_of(batch, id);
        let at = lemma_filter_source(blobs, wanted, k);
        assert(blobs[at].id == id);
    }
}

/// Taking blobs away by their keys leaves the tables well formed.
pub proof fn lemma_filter_keeps_wf_blobs(tables: TablesView, ids: Seq<i32>)
    requires
        tables.wf(),
    ensures
        tables.after_delete_blobs(ids).wf(),
{
    let pred = |b: AttachmentBlob| !ids.contains(b.id);
    let kept = blobs_beside(tables.blobs, ids);
    tables.blobs.lemma_filter_len(pred);
    assert forall|k: int| 0 <= k < kept.len() implies 1 <= (#[trigger] kept[k]).id < tables.next_blob_id
        && kept[k].byte_size >= 0 by {
        let i = lemma_filter_source(tables.blobs, pred, k);
    }
    assert forall|k1: int, k2: int| 0 <= k1 < k2 < kept.len() implies (#[trigger] kept[k1]).id < (
    #[trigger] kept[k2]).id && kept[k1].key@ != kept[k2].key@ by {
        let places = lemma_filter_order(tables.blobs, pred, k1, k2);
    }
}

/// A share link that is made leaves the tables well formed.
pub proof fn lemma_new_share_keeps_wf(tables: TablesView, item: CreateVideoShare, now: Timestamp)
    requires
        tables.wf(),
    ensures
        tables.after_create_share(item, now).wf(),
{
    if let Ok(row) = tables.create_share(item, now) {
        let after = tables.with_share(row);
        lemma_lookup_found(tables.attachments, item.video_id);
        assert forall|i: int, j: int| 0 <= i < j < after.shares.len() implies (#[trigger] after.shares[i]).share_token
            != (#[trigger] after.shares[j]).share_token by {
            if j == tables.shares.len() {
                assert(!token_at(tables.shares, item.share_token, i));
            }
        }
        assert forall|s: int, a: int|
            0 <= s < after.shares.len() && 0 <= a < after.attachments.len() && (
            #[trigger] after.attachments[a]).id == (#[trigger] after.shares[s]).video_id implies after.attachments[a].user_id
            == after.shares[s].shared_by by {
            if s == tables.shares.len() {
                lemma_index_of_unique(tables.attachments, item.video_id, a);
            }
        }
    }
}

/// Attaching an upload keeps the tables well formed, and keeps every
/// attachment with its blob and every blob with its attachment.
pub proof fn lemma_attach_keeps_invariants(
    tables: TablesView,
    owner: i32,
    name: String,
    record_type: RecordType,
    record_id: i32,
    upload: Upload,
    now: Timestamp,
)
    requires
        tables.wf(),
    ensures
        tables.after_attach(owner, name, record_type, record_id, upload, now).wf(),
        tables.intact() ==> tables.after_attach(owner, name, record_type, record_id, upload, now).intact(),
        tables.attach(owner, name, record_type, record_id, upload, now) == (match upload {
            Upload::Failed => Err(ServiceError::StorageError),
            Upload::Stored(descriptor) => match tables.blob_refusal(descriptor) {
                Some(e) => Err(e),
                None => if tables.next_attachment_id >= i32::MAX {
                    Err(ServiceError::Internal)
                } else {
                    Ok(
                        (CreateAttachment {
                            user_id: owner,
                            name,
                            record_type,
                            record_id,
                            blob_id: tables.next_blob_id as i32,
                        }).as_row(tables.next_attachment_id as i32, now),
                    )
                },
            },
        }),
{
    if let Upload::Stored(descriptor) = upload {
        if let Ok(blob) = tables.create_blob(descriptor, now) {
            let mid = tables.with_blob(blob);
            let at = tables.blobs.len() as int;
            assert(mid.blobs[at].id == blob.id);
            assert(has_id(mid.blobs, blob.id));
            let item = CreateAttachment { user_id: owner, name, record_type, record_id, blob_id: blob.id };
            if let Ok(row) = mid.create_attachment(item, now) {
                let after = mid.with_attachment(row);
                assert(after == tables.after_attach(owner, name, record_type, record_id, upload, now));
                if tables.intact() {
                    assert forall|a: int| 0 <= a < after.attachments.len() implies has_id(
                        after.blobs,
                        (#[trigger] after.attachments[a]).blob_id,
                    ) by {
                        if a < tables.attachments.len() {
                            let found = tables.attachments[a].blob_id;
                            lemma_lookup_found(tables.blobs, found);
                            let place = index_of(tables.blobs, found);
                            assert(after.blobs[place].id == found);
                        }
                    }
                    assert forall|b: int| 0 <= b < after.blobs.len() implies blob_attached(
                        after.attachments,
                        (#[trigger] after.blobs[b]).id,
                    ) by {
                        if b < tables.blobs.len() {
                            let a = choose|a: int|
                                0 <= a < tables.attachments.len() && (#[trigger] tables.attachments[a]).blob_id
                                    == tables.blobs[b].id;
                            assert(after.attachments[a].blob_id == after.blobs[b].id);
                        } else {
                            let a = tables.attachments.len() as int;
                            assert(after.attachments[a].blob_id == after.blobs[b].id);
                        }
                    }
                }
            }
        }
    }
}

/// A blob that is taken out leaves the tables well formed.
pub proof fn lemma_removed_blob_keeps_wf(tables: TablesView, gone: int)
    requires
        tables.wf(),
        0 <= gone < tables.blobs.len(),
    ensures
        (TablesView { blobs: tables.blobs.remove(gone), ..tables }).wf(),
{
}

/// An attachment that is taken out leaves the tables well formed.
pub proof fn lemma_removed_attachment_keeps_wf(tables: TablesView, at: int)
    requires
        tables.wf(),
        0 <= at < tables.attachments.len(),
    ensures
        (TablesView { attachments: tables.attachments.remove(at), ..tables }).wf(),
{
}

/// An attachment that is taken out together with its blob leaves every
/// other attachment with its blob, and every other blob with its attachment.
pub proof fn lemma_removed_pair_keeps_intact(tables: TablesView, at: int, gone: int)
    requires
        tables.wf(),
        tables.intact(),
        0 <= at < tables.attachments.len(),
        0 <= gone < tables.blobs.len(),
        tables.attachments[at].blob_id == tables.blobs[gone].id,
    ensures
        (TablesView {
            blobs: tables.blobs.remove(gone),
            attachments: tables.attachments.remove(at),
            ..tables
        }).intact(),
{
    let blobs = tables.blobs.remove(gone);
    let attachments = tables.attachments.remove(at);
    assert forall|a: int| 0 <= a < attachments.len() implies has_id(blobs, (#[trigger] attachments[a]).blob_id) by {
        let before = if a < at {
            a
        } else {
            a + 1
        };
        assert(attachments[a] == tables.attachments[before]);
        let wanted = tables.attachments[before].blob_id;
        assert(wanted != tables.attachments[at].blob_id) by {
            if before < at {
                assert(tables.attachments[before].blob_id != tables.attachments[at].blob_id);
            } else {
                assert(tables.attachments[at].blob_id != tables.attachments[before].blob_id);
            }
        }
        let place = choose|i: int| 0 <= i < tables.blobs.len() && (#[trigger] tables.blobs[i]).id == wanted;
        let moved = if place < gone {
            place
        } else {
            place - 1
        };
        assert(blobs[moved] == tables.blobs[place]);
    }
    assert forall|b: int| 0 <= b < blobs.len() implies blob_attached(attachments, (#[trigger] blobs[b]).id) by {
        let before = if b < gone {
            b
        } else {
            b + 1
        };
        assert(blobs[b] == tables.blobs[before]);
        let wanted = tables.blobs[before].id;
        assert(wanted != tables.blobs[gone].id) by {
            if before < gone {
                assert(tables.blobs[before].id < tables.blobs[gone].id);
            } else {
                assert(tables.blobs[gone].id < tables.blobs[before].id);
            }
        }
        let place = choose|i: int|
            0 <= i < tables.attachments.len() && (#[trigger] tables.attachments[i]).blob_id == wanted;
        let moved = if place < at {
            place
        } else {
            place - 1
        };
        assert(attachments[moved] == tables.attachments[place]);
    }
}

/// Detaching keeps the tables well formed, and keeps every attachment with
/// its blob and every blob with its attachment.
pub proof fn lemma_detach_keeps_invariants(tables: TablesView, id: i32, user: i32, object_deleted: bool)
    requires
        tables.wf(),
    ensures
        tables.after_detach(id, user, object_deleted).wf(),
        tables.intact() ==> tables.after_detach(id, user, object_deleted).intact(),
{
    if tables.detach(id, user, object_deleted) is Ok {
        lemma_lookup_found(tables.attachments, id);
        let at = index_of(tables.attachments, id);
        let row = tables.attachments[at];
        if has_id(tables.blobs, row.blob_id) {
            lemma_lookup_found(tables.blobs, row.blob_id);
            let gone = index_of(tables.blobs, row.blob_id);
            let between = TablesView { blobs: tables.blobs.remove(gone), ..tables };
            lemma_removed_blob_keeps_wf(tables, gone);
            lemma_removed_attachment_keeps_wf(between, at);
            if tables.intact() {
                lemma_removed_pair_keeps_intact(tables, at, gone);
            }
        } else {
            lemma_removed_attachment_keeps_wf(tables, at);
        }
    }
}

/// Where tokens are unique, the link that carries a token is found at the
/// one place where it stands.
pub proof fn lemma_share_of_token(shares: Seq<VideoShare>, token: ShareToken, at: int)
    requires
        tokens_distinct(shares),
        token_at(shares, token, at),
    ensures
        share_of_token(shares, token) == Some(shares[at]),
{
    let chosen = choose|k: int| token_at(shares, token, k);
    if chosen < at {
        assert(shares[chosen].share_token != shares[at].share_token);
    } else if at < chosen {
        assert(shares[at].share_token != shares[chosen].share_token);
    }
}

/// A blob that is described anew under its key stays with its attachment.
pub proof fn lemma_replaced_blob_keeps_intact(tables: TablesView, at: int, row: AttachmentBlob)
    requires
        tables.intact(),
        0 <= at < tables.blobs.len(),
        row.id == tables.blobs[at].id,
    ensures
        (TablesView { blobs: tables.blobs.update(at, row), ..tables }).intact(),
{
    let after = TablesView { blobs: tables.blobs.update(at, row), ..tables };
    assert forall|a: int| 0 <= a < after.attachments.len() implies has_id(
        after.blobs,
        (#[trigger] after.attachments[a]).blob_id,
    ) by {
        let wanted = tables.attachments[a].blob_id;
        let place = choose|i: int| 0 <= i < tables.blobs.len() && (#[trigger] tables.blobs[i]).id == wanted;
        assert(after.blobs[place].id == wanted);
    }
    assert forall|b: int| 0 <= b < after.blobs.len() implies blob_attached(
        after.attachments,
        (#[trigger] after.blobs[b]).id,
    ) by {
        assert(after.blobs[b].id == tables.blobs[b].id);
    }
}

/// An attachment that is changed but points at the same blob stays with it.
pub proof fn lemma_replaced_attachment_keeps_intact(tables: TablesView, at: int, row: Attachment)
    requires
        tables.intact(),
        0 <= at < tables.attachments.len(),
        row.blob_id == tables.attachments[at].blob_id,
    ensures
        (TablesView { attachments: tables.attachments.update(at, row), ..tables }).intact(),
{
    let after = TablesView { attachments: tables.attachments.update(at, row), ..tables };
    assert forall|a: int| 0 <= a < after.attachments.len() implies has_id(
        after.blobs,
        (#[trigger] after.attachments[a]).blob_id,
    ) by {
        assert(after.attachments[a].blob_id == tables.attachments[a].blob_id);
    }
    assert forall|b: int| 0 <= b < after.blobs.len() implies blob_attached(
        after.attachments,
        (#[trigger] after.blobs[b]).id,
    ) by {
        let wanted = tables.blobs[b].id;
        let place = choose|i: int|
            0 <= i < tables.attachments.len() && (#[trigger] tables.attachments[i]).blob_id == wanted;
        assert(after.attachments[place].blob_id == wanted);
    }
}

} // verus!
