use vstd::prelude::*;
use vstd::string::StringExecFns;
use crate::clock::Timestamp;
use crate::error::ServiceError;
use crate::invariants::lemma_batch_answers_like_table;
use crate::tables_view::{all_have_blobs, blob_attached, blob_ids_of, blob_url, owned_by, urls_match};
use crate::models::attachment_blobs::AttachmentBlob;
use crate::pagination::{
    effective_size, lemma_page_bounds, lemma_page_len, page_of, page_range, pages_needed, remaining,
    PaginationResult,
};
use crate::row::{copy_range, has_id, lemma_lookup_found, lookup, position, Row};
use crate::rules::{address, attachment_refusal, held, removal};
use crate::tables::Tables;
use crate::url::compose;

verus! {

/// The kinds of record that can own an attachment.
#[derive(Clone, Copy, Debug, PartialEq, Eq, Hash, Structural)]
pub enum RecordType {
    Video,
}

impl RecordType {
    /// The name under which a kind is stored and sent.
    pub open spec fn name_spec(self) -> Seq<char> {
        match self {
            RecordType::Video => seq!['v', 'i', 'd', 'e', 'o'],
        }
    }

    /// The kind that a name stands for, if it stands for one.
    pub open spec fn parse_spec(name: Seq<char>) -> Option<RecordType> {
        if name == RecordType::Video.name_spec() {
            Some(RecordType::Video)
        } else {
            None
        }
    }

    pub fn name(&self) -> (name: String)
        ensures
            name@ == self.name_spec(),
    {
        match self {
            RecordType::Video => {
                proof {
                    reveal_strlit("video");
                }
                let name: String = String::from_str("video");
                assert(name@ =~= self.name_spec());
                name
            },
        }
    }

    pub fn parse(name: &str) -> (kind: Option<RecordType>)
        ensures
            kind == RecordType::parse_spec(name@),
    {
        let given: String = String::from_str(name);
        if given == RecordType::Video.name() {
            Some(RecordType::Video)
        } else {
            None
        }
    }
}

/// A named, owned pointer from a record to exactly one blob.
#[derive(Debug, PartialEq, Eq)]
pub struct Attachment {
    pub id: i32,
    /// The owner: the only user who may change or remove the attachment.
    pub user_id: i32,
    pub name: String,
    pub record_type: RecordType,
    pub record_id: i32,
    pub blob_id: i32,
    pub created_at: Timestamp,
}

/// The values from which an attachment is made.
#[derive(Debug, PartialEq, Eq)]
pub struct CreateAttachment {
    pub user_id: i32,
    pub name: String,
    pub record_type: RecordType,
    pub record_id: i32,
    pub blob_id: i32,
}

/// A partial update: only the fields that may change after creation, each
/// left as it is where `None`.
#[derive(Debug, PartialEq, Eq)]
pub struct UpdateAttachment {
    pub name: Option<String>,
    pub record_type: Option<RecordType>,
    pub record_id: Option<i32>,
}

/// One page of a user's attachments, each with the address of its bytes.
#[derive(Debug)]
pub struct Videos {
    /// `urls[i]` is the address of `info.items[i]`.
    pub urls: Vec<String>,
    pub info: PaginationResult<Attachment>,
}

/// The query of a request for one attachment's address.
#[derive(Clone, Copy, Debug, PartialEq, Eq, Structural)]
pub struct ViewParams {
    pub id: i32,
}

impl Clone for Attachment {
    fn clone(&self) -> (copy: Self)
        ensures
            copy == *self,
    {
        Attachment {
            id: self.id,
            user_id: self.user_id,
            name: self.name.clone(),
            record_type: self.record_type,
            record_id: self.record_id,
            blob_id: self.blob_id,
            created_at: self.created_at,
        }
    }
}

impl Clone for CreateAttachment {
    fn clone(&self) -> (copy: Self)
        ensures
            copy == *self,
    {
        CreateAttachment {
            user_id: self.user_id,
            name: self.name.clone(),
            record_type: self.record_type,
            record_id: self.record_id,
            blob_id: self.blob_id,
        }
    }
}

impl Row for Attachment {
    open spec fn row_id(&self) -> i32 {
        self.id
    }

    fn id(&self) -> (id: i32) {
        self.id
    }

    fn duplicate(&self) -> (copy: Self) {
        self.clone()
    }
}

impl CreateAttachment {
    /// The row that these values become under the key `id`.
    pub open spec fn as_row(self, id: i32, now: Timestamp) -> Attachment {
        Attachment {
            id,
            user_id: self.user_id,
            name: self.name,
            record_type: self.record_type,
            record_id: self.record_id,
            blob_id: self.blob_id,
            created_at: now,
        }
    }

    pub fn to_row(&self, id: i32, now: Timestamp) -> (row: Attachment)
        ensures
            row == self.as_row(id, now),
    {
        Attachment {
            id,
            user_id: self.user_id,
            name: self.name.clone(),
            record_type: self.record_type,
            record_id: self.record_id,
            blob_id: self.blob_id,
            created_at: now,
        }
    }
}

impl UpdateAttachment {
    /// The row after the update: identity, owner, blob and creation time stay.
    pub open spec fn applied(self, row: Attachment) -> Attachment {
        Attachment {
            id: row.id,
            user_id: row.user_id,
            name: match self.name {
                Some(name) => name,
                None => row.name,
            },
            record_type: match self.record_type {
                Some(kind) => kind,
                None => row.record_type,
            },
            record_id: match self.record_id {
                Some(id) => id,
                None => row.record_id,
            },
            blob_id: row.blob_id,
            created_at: row.created_at,
        }
    }

    pub fn apply(&self, row: &Attachment) -> (updated: Attachment)
        ensures
            updated == self.applied(*row),
    {
        Attachment {
            id: row.id,
            user_id: row.user_id,
            name: match &self.name {
                Some(name) => name.clone(),
                None => row.name.clone(),
            },
            record_type: match self.record_type {
                Some(kind) => kind,
                None => row.record_type,
            },
            record_id: match self.record_id {
                Some(id) => id,
                None => row.record_id,
            },
            blob_id: row.blob_id,
            created_at: row.created_at,
        }
    }
}

impl Videos {
    /// Puts the items of one page together with their addresses, each
    /// composed from the CDN base and the key of the item's blob in `blobs`.
    /// Fails with `NotFound` if `blobs` lacks the blob of an item.
    pub fn assemble(
        items: Vec<Attachment>,
        blobs: &Vec<AttachmentBlob>,
        total_items: i64,
        page: i64,
        page_size: i64,
        cdn_base: &str,
    ) -> (result: Result<Videos, ServiceError>)
        requires
            total_items >= 0,
        ensures
            match result {
                Ok(videos) => {
                    &&& all_have_blobs(items@, blobs@)
                    &&& videos.info.items == items
                    &&& videos.info.total_items == total_items
                    &&& videos.info.page == page
                    &&& videos.info.page_size == effective_size(page_size as int)
                    &&& videos.info.num_pages == pages_needed(
                        total_items as int,
                        effective_size(page_size as int),
                    )
                    &&& urls_match(videos.urls@, items@, blobs@, cdn_base@)
                },
                Err(e) => e == ServiceError::NotFound && !all_have_blobs(items@, blobs@),
            },
    {
        let mut urls: Vec<String> = Vec::new();
        let mut i: usize = 0;
        while i < items.len()
            invariant
                i <= items.len(),
                urls_match(urls@, items@.subrange(0, i as int), blobs@, cdn_base@),
                all_have_blobs(items@.subrange(0, i as int), blobs@),
            decreases items.len() - i,
        {
            match position(blobs, items[i].blob_id) {
                None => {
                    return Err(ServiceError::NotFound);
                },
                Some(at) => {
                    let url: String = compose(cdn_base, blobs[at].key.as_str());
                    urls.push(url);
                    proof {
                        let seen = items@.subrange(0, i as int);
                        let more = items@.subrange(0, i + 1);
                        assert(more =~= seen.push(items[i as int]));
                        assert forall|k: int| 0 <= k < more.len() implies has_id(
                            blobs@,
                            (#[trigger] more[k]).blob_id,
                        ) by {
                            if k < i {
                                assert(more[k] == seen[k]);
                            }
                        }
                        assert forall|k: int| 0 <= k < more.len() implies blob_url(
                            blobs@,
                            (#[trigger] more[k]).blob_id,
                            cdn_base@,
                        ) == Some(urls[k]@) by {
                            if k < i {
                                assert(more[k] == seen[k]);
                            }
                        }
                    }
                },
            }
            i += 1;
        }
        assert(items@.subrange(0, i as int) =~= items@);
        let info: PaginationResult<Attachment> = PaginationResult::assemble(
            items,
            total_items,
            page,
            page_size,
        );
        Ok(Videos { urls, info })
    }
}

impl Attachment {
    /// Whether `user_id` owns the attachment: the one user who may detach
    /// or share it.
    pub fn is_owned_by(&self, user_id: i32) -> (owned: bool)
        ensures
            owned == (self.user_id == user_id),
    {
        self.user_id == user_id
    }

    /// Lets the owner pass: `Forbidden` for every other user.
    pub fn owner_only(&self, user_id: i32) -> (result: Result<(), ServiceError>)
        ensures
            result == (if self.user_id == user_id {
                Ok::<(), ServiceError>(())
            } else {
                Err::<(), ServiceError>(ServiceError::Forbidden)
            }),
    {
        if self.is_owned_by(user_id) {
            Ok(())
        } else {
            Err(ServiceError::Forbidden)
        }
    }

    /// Whether some attachment points at the blob `blob_id`.
    pub fn blob_in_use(db: &Tables, blob_id: i32) -> (attached: bool)
        ensures
            attached == blob_attached(db@.attachments, blob_id),
    {
        let rows: &Vec<Attachment> = db.attachments();
        let mut i: usize = 0;
        while i < rows.len()
            invariant
                i <= rows.len(),
                rows@ == db@.attachments,
                forall|j: int| 0 <= j < i ==> (#[trigger] rows[j]).blob_id != blob_id,
            decreases rows.len() - i,
        {
            if rows[i].blob_id == blob_id {
                assert(db@.attachments[i as int].blob_id == blob_id);
                return true;
            }
            i += 1;
        }
        false
    }

    /// Why an attachment cannot be made of `item`, if it cannot.
    pub fn refusal(db: &Tables, item: &CreateAttachment) -> (refusal: Option<ServiceError>)
        ensures
            refusal == db@.attachment_refusal(*item),
    {
        attachment_refusal(
            position(db.blobs(), item.blob_id).is_some(),
            Attachment::blob_in_use(db, item.blob_id),
            db.next_attachment_id() < i32::MAX,
        )
    }

    /// Makes an attachment that points at an existing blob. The row gets the
    /// next key and `now` as its time of creation. A blob that is missing is
    /// `NotFound`; one that another attachment points at is a `Conflict`;
    /// the tables stay as they were then.
    pub fn create(db: &mut Tables, item: &CreateAttachment, now: Timestamp) -> (result: Result<
        Attachment,
        ServiceError,
    >)
        ensures
            result == old(db)@.create_attachment(*item, now),
            final(db)@ == old(db)@.after_create_attachment(*item, now),
            final(db)@.wf(),
    {
        proof {
            use_type_invariant(&*db);
        }
        match Attachment::refusal(db, item) {
            Some(e) => Err(e),
            None => {
                proof {
                    lemma_lookup_found(db@.blobs, item.blob_id);
                }
                let row: Attachment = db.push_attachment(item, now);
                Ok(row)
            },
        }
    }

    /// The attachment with the key `id`, where it stands in the table.
    pub fn find(db: &Tables, id: i32) -> (found: Option<&Attachment>)
        ensures
            held(found) == lookup(db@.attachments, id),
    {
        let rows: &Vec<Attachment> = db.attachments();
        match position(rows, id) {
            Some(at) => Some(&rows[at]),
            None => None,
        }
    }

    /// The attachment with the key `param_id`, or `NotFound`.
    pub fn read(db: &Tables, param_id: i32) -> (result: Result<Attachment, ServiceError>)
        ensures
            result == db@.read_attachment(param_id),
    {
        let rows: &Vec<Attachment> = db.attachments();
        match position(rows, param_id) {
            Some(at) => Ok(rows[at].clone()),
            None => Err(ServiceError::NotFound),
        }
    }

    /// The address of the bytes of the attachment `param_id`: the CDN base,
    /// a slash, and the storage key of the attachment's blob. `NotFound` if
    /// the attachment or its blob is missing.
    pub fn read_id(db: &Tables, param_id: i32, cdn_base: &str) -> (result: Result<String, ServiceError>)
        ensures
            match result {
                Ok(url) => db@.resolve_url(param_id, cdn_base@) == Ok::<Seq<char>, ServiceError>(url@),
                Err(e) => db@.resolve_url(param_id, cdn_base@) == Err::<Seq<char>, ServiceError>(e),
            },
    {
        let attachment: Option<&Attachment> = Attachment::find(db, param_id);
        let blob: Option<&AttachmentBlob> = match attachment {
            Some(row) => AttachmentBlob::find(db, row.blob_id),
            None => None,
        };
        address(attachment, blob, cdn_base)
    }

    /// Changes the name or the owning record of the attachment `param_id`
    /// and hands the new row out. Its key, owner, blob and time of creation
    /// stay. `NotFound` if there is no such attachment.
    pub fn update(db: &mut Tables, param_id: i32, item: &UpdateAttachment) -> (result: Result<
        Attachment,
        ServiceError,
    >)
        ensures
            result == old(db)@.update_attachment(param_id, *item),
            final(db)@ == old(db)@.after_update_attachment(param_id, *item),
            final(db)@.wf(),
            old(db)@.intact() ==> final(db)@.intact(),
    {
        proof {
            use_type_invariant(&*db);
        }
        match position(db.attachments(), param_id) {
            None => Err(ServiceError::NotFound),
            Some(at) => {
                let updated: Attachment = item.apply(&db.attachments()[at]);
                proof {
                    if db@.intact() {
                        crate::invariants::lemma_replaced_attachment_keeps_intact(db@, at as int, updated);
                    }
                }
                db.replace_attachment(at, updated.clone());
                Ok(updated)
            },
        }
    }

    /// Removes the attachment `param_id` and says how many rows went: one or
    /// none. While the attachment's blob is still in its table the removal
    /// is refused with `Conflict`, so that no blob is left without an owner:
    /// the blob goes first.
    pub fn delete(db: &mut Tables, param_id: i32) -> (result: Result<usize, ServiceError>)
        ensures
            result == old(db)@.delete_attachment(param_id),
            final(db)@ == old(db)@.after_delete_attachment(param_id),
            final(db)@.wf(),
    {
        proof {
            use_type_invariant(&*db);
        }
        match position(db.attachments(), param_id) {
            None => removal(false, false),
            Some(at) => {
                let blob_present: bool = position(db.blobs(), db.attachments()[at].blob_id).is_some();
                let result: Result<usize, ServiceError> = removal(true, blob_present);
                if result.is_ok() {
                    db.remove_attachment(at);
                }
                result
            },
        }
    }

    /// The keys of the blobs that `items` point at, one for one.
    pub fn blob_ids(items: &Vec<Attachment>) -> (ids: Vec<i32>)
        ensures
            ids@ == blob_ids_of(items@),
    {
        let mut ids: Vec<i32> = Vec::new();
        let mut i: usize = 0;
        while i < items.len()
            invariant
                i <= items.len(),
                ids@.len() == i,
                forall|k: int| 0 <= k < i ==> ids[k] == (#[trigger] items[k]).blob_id,
            decreases items.len() - i,
        {
            ids.push(items[i].blob_id);
            i += 1;
        }
        assert(ids@ =~= blob_ids_of(items@));
        ids
    }

    /// The attachments of the user `user_id`, in the order of creation.
    pub fn owned_by(db: &Tables, user_id: i32) -> (owned: Vec<Attachment>)
        ensures
            owned@ == owned_by(db@.attachments, user_id),
    {
        let rows: &Vec<Attachment> = db.attachments();
        let ghost belongs = |a: Attachment| a.user_id == user_id;
        let mut owned: Vec<Attachment> = Vec::new();
        let mut i: usize = 0;
        proof {
            reveal(Seq::filter);
            assert(rows@.subrange(0, 0) =~= Seq::<Attachment>::empty());
        }
        while i < rows.len()
            invariant
                i <= rows.len(),
                belongs == (|a: Attachment| a.user_id == user_id),
                owned@ == rows@.subrange(0, i as int).filter(belongs),
            decreases rows.len() - i,
        {
            proof {
                let seen = rows@.subrange(0, i as int);
                assert(rows@.subrange(0, i + 1) =~= seen.push(rows[i as int]));
                seen.lemma_filter_push(rows[i as int], belongs);
            }
            if rows[i].user_id == user_id {
                owned.push(rows[i].clone());
            }
            i += 1;
        }
        assert(rows@.subrange(0, i as int) =~= rows@);
        owned
    }

    /// One page of a user's attachments with the address of each. `page`
    /// counts from 0, and a page size below 1 counts as 1. The total is the
    /// number of the user's attachments, whatever the page. A negative page
    /// is a `ValidationError`; an item of the page whose blob is missing is
    /// `NotFound`.
    pub fn paginate(db: &Tables, page: i64, page_size: i64, user_id_input: i32, cdn_base: &str) -> (result:
        Result<Videos, ServiceError>)
        ensures
            page < 0 ==> (result matches Err(e) && e == ServiceError::ValidationError),
            page >= 0 ==> match result {
                Ok(videos) => {
                    let owned = owned_by(db@.attachments, user_id_input);
                    let size = effective_size(page_size as int);
                    &&& videos.info.items@ == page_of(owned, page as int, size)
                    &&& all_have_blobs(videos.info.items@, db@.blobs)
                    &&& urls_match(videos.urls@, videos.info.items@, db@.blobs, cdn_base@)
                    &&& videos.info.total_items == owned.len()
                    &&& videos.info.page == page
                    &&& videos.info.page_size == size
                    &&& videos.info.num_pages == pages_needed(owned.len() as int, size)
                    &&& videos.info.items@.len() == (if size < remaining(owned.len() as int, page as int, size) {
                        size
                    } else {
                        remaining(owned.len() as int, page as int, size)
                    })
                },
                Err(e) => e == ServiceError::NotFound && !all_have_blobs(
                    page_of(owned_by(db@.attachments, user_id_input), page as int, effective_size(page_size as int)),
                    db@.blobs,
                ),
            },
    {
        proof {
            use_type_invariant(db);
        }
        let owned: Vec<Attachment> = Attachment::owned_by(db, user_id_input);
        proof {
            db@.attachments.lemma_filter_len(|a: Attachment| a.user_id == user_id_input);
        }
        let total: usize = owned.len();
        match page_range(total, page, page_size) {
            Err(e) => Err(e),
            Ok((start, end)) => {
                proof {
                    lemma_page_bounds(total as int, page as int, effective_size(page_size as int));
                    lemma_page_len(total as int, page as int, effective_size(page_size as int));
                }
                let items: Vec<Attachment> = copy_range(&owned, start, end);
                let ids: Vec<i32> = Attachment::blob_ids(&items);
                let batch: Vec<AttachmentBlob> = AttachmentBlob::find_all_by_id(db, ids);
                proof {
                    assert forall|i: int| 0 <= i < items.len() implies has_id(
                        batch@,
                        (#[trigger] items[i]).blob_id,
                    ) == has_id(db@.blobs, items[i].blob_id) && blob_url(batch@, items[i].blob_id, cdn_base@)
                        == blob_url(db@.blobs, items[i].blob_id, cdn_base@) by {
                        assert(ids@[i] == items[i].blob_id);
                        lemma_batch_answers_like_table(db@.blobs, ids@, items[i].blob_id);
                    }
                }
                Videos::assemble(items, &batch, total as i64, page, page_size, cdn_base)
            },
        }
    }
}

} // verus!
