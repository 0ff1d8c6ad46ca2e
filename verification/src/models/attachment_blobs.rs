use vstd::prelude::*;
use crate::clock::Timestamp;
use crate::error::ServiceError;
use crate::tables_view::{blobs_among, blobs_beside, key_taken, removed_by_id};
use crate::pagination::{
    effective_size, lemma_page_bounds, lemma_page_len, page_of, page_range, pages_needed, remaining,
    PaginationResult,
};
use crate::row::{copy_range, duplicate_text, lookup, position, Row};
use crate::rules::{blob_refusal, held};
use crate::tables::Tables;

verus! {

/// The metadata of one stored object.
#[derive(Debug, PartialEq, Eq)]
pub struct AttachmentBlob {
    pub id: i32,
    /// Where the object storage keeps the bytes.
    pub key: String,
    pub file_name: String,
    pub content_type: Option<String>,
    pub byte_size: i64,
    pub checksum: String,
    pub service_name: String,
    pub created_at: Timestamp,
}

/// What the object storage reports of an object that it has written.
#[derive(Debug, PartialEq, Eq)]
pub struct CreateAttachmentBlob {
    pub key: String,
    pub file_name: String,
    pub content_type: Option<String>,
    pub byte_size: i64,
    pub checksum: String,
    pub service_name: String,
}

pub type AttachmentBlobChangeset = CreateAttachmentBlob;

/// A partial update: only what describes the object to a reader, each
/// field left as it is where `None`. The storage key, the size and the
/// checksum belong to the stored bytes and never change.
#[derive(Debug, PartialEq, Eq)]
pub struct UpdateAttachmentBlob {
    pub file_name: Option<String>,
    /// `Some(None)` takes the content type away.
    pub content_type: Option<Option<String>>,
    pub service_name: Option<String>,
}

/// What the object storage reports of a write: the descriptor of the object
/// that it holds now, or that it holds nothing.
#[derive(Debug, PartialEq, Eq)]
pub enum Upload {
    Stored(CreateAttachmentBlob),
    Failed,
}

impl Clone for AttachmentBlob {
    fn clone(&self) -> (copy: Self)
        ensures
            copy == *self,
    {
        AttachmentBlob {
            id: self.id,
            key: self.key.clone(),
            file_name: self.file_name.clone(),
            content_type: duplicate_text(&self.content_type),
            byte_size: self.byte_size,
            checksum: self.checksum.clone(),
            service_name: self.service_name.clone(),
            created_at: self.created_at,
        }
    }
}

impl Clone for CreateAttachmentBlob {
    fn clone(&self) -> (copy: Self)
        ensures
            copy == *self,
    {
        CreateAttachmentBlob {
            key: self.key.clone(),
            file_name: self.file_name.clone(),
            content_type: duplicate_text(&self.content_type),
            byte_size: self.byte_size,
            checksum: self.checksum.clone(),
            service_name: self.service_name.clone(),
        }
    }
}

impl Row for AttachmentBlob {
    open spec fn row_id(&self) -> i32 {
        self.id
    }

    fn id(&self) -> (id: i32) {
        self.id
    }

    fn duplicate(&self) -> (copy: Self) {
        self.clone()
    }
}

impl CreateAttachmentBlob {
    /// Describes an object that the storage `service_name` holds under
    /// `key`: its size is the number of bytes in `data`. `None` for more
    /// bytes than an `i64` counts.
    pub fn describe(
        key: String,
        checksum: String,
        file_name: String,
        content_type: Option<String>,
        service_name: String,
        data: &Vec<u8>,
    ) -> (descriptor: Option<CreateAttachmentBlob>)
        ensures
            data@.len() > i64::MAX ==> descriptor.is_none(),
            data@.len() <= i64::MAX ==> descriptor == Some(
                CreateAttachmentBlob {
                    key,
                    file_name,
                    content_type,
                    byte_size: data@.len() as i64,
                    checksum,
                    service_name,
                },
            ),
    {
        let size: u64 = data.len() as u64;
        if size > 0x7fff_ffff_ffff_ffffu64 {
            None
        } else {
            Some(
                CreateAttachmentBlob {
                    key,
                    file_name,
                    content_type,
                    byte_size: size as i64,
                    checksum,
                    service_name,
                },
            )
        }
    }

    /// The row that this descriptor becomes under the key `id`.
    pub open spec fn as_row(self, id: i32, now: Timestamp) -> AttachmentBlob {
        AttachmentBlob {
            id,
            key: self.key,
            file_name: self.file_name,
            content_type: self.content_type,
            byte_size: self.byte_size,
            checksum: self.checksum,
            service_name: self.service_name,
            created_at: now,
        }
    }

    pub fn to_row(&self, id: i32, now: Timestamp) -> (row: AttachmentBlob)
        ensures
            row == self.as_row(id, now),
    {
        AttachmentBlob {
            id,
            key: self.key.clone(),
            file_name: self.file_name.clone(),
            content_type: duplicate_text(&self.content_type),
            byte_size: self.byte_size,
            checksum: self.checksum.clone(),
            service_name: self.service_name.clone(),
            created_at: now,
        }
    }
}

impl UpdateAttachmentBlob {
    /// The row after the update.
    pub open spec fn applied(self, row: AttachmentBlob) -> AttachmentBlob {
        AttachmentBlob {
            id: row.id,
            key: row.key,
            file_name: match self.file_name {
                Some(name) => name,
                None => row.file_name,
            },
            content_type: match self.content_type {
                Some(kind) => kind,
                None => row.content_type,
            },
            byte_size: row.byte_size,
            checksum: row.checksum,
            service_name: match self.service_name {
                Some(name) => name,
                None => row.service_name,
            },
            created_at: row.created_at,
        }
    }

    pub fn apply(&self, row: &AttachmentBlob) -> (updated: AttachmentBlob)
        ensures
            updated == self.applied(*row),
    {
        AttachmentBlob {
            id: row.id,
            key: row.key.clone(),
            file_name: match &self.file_name {
                Some(name) => name.clone(),
                None => row.file_name.clone(),
            },
            content_type: match &self.content_type {
                Some(kind) => duplicate_text(kind),
                None => duplicate_text(&row.content_type),
            },
            byte_size: row.byte_size,
            checksum: row.checksum.clone(),
            service_name: match &self.service_name {
                Some(name) => name.clone(),
                None => row.service_name.clone(),
            },
            created_at: row.created_at,
        }
    }
}

/// Whether `id` is one of `ids`.
pub fn holds_id(ids: &Vec<i32>, id: i32) -> (found: bool)
    ensures
        found == ids@.contains(id),
{
    let mut i: usize = 0;
    while i < ids.len()
        invariant
            i <= ids.len(),
            forall|j: int| 0 <= j < i ==> ids[j] != id,
        decreases ids.len() - i,
    {
        if ids[i] == id {
            return true;
        }
        i += 1;
    }
    false
}

impl AttachmentBlob {
    /// Whether some blob of the table is stored under `key`.
    pub fn key_in_use(db: &Tables, key: &String) -> (taken: bool)
        ensures
            taken == key_taken(db@.blobs, key@),
    {
        let rows: &Vec<AttachmentBlob> = db.blobs();
        let mut i: usize = 0;
        while i < rows.len()
            invariant
                i <= rows.len(),
                rows@ == db@.blobs,
                forall|j: int| 0 <= j < i ==> (#[trigger] rows[j]).key@ != key@,
            decreases rows.len() - i,
        {
            if rows[i].key == *key {
                assert(db@.blobs[i as int].key@ == key@);
                return true;
            }
            i += 1;
        }
        false
    }

    /// Why `item` cannot be stored, if it cannot.
    pub fn refusal(db: &Tables, item: &CreateAttachmentBlob) -> (refusal: Option<ServiceError>)
        ensures
            refusal == db@.blob_refusal(*item),
    {
        blob_refusal(item, AttachmentBlob::key_in_use(db, &item.key), db.next_blob_id() < i32::MAX)
    }

    /// Records the metadata of an object that the storage has written. The
    /// row gets the next key and `now` as its time of creation. A negative
    /// size is refused with `ValidationError`, a storage key that is in use
    /// with `Conflict`; the tables stay as they were then.
    pub fn create(db: &mut Tables, item: &CreateAttachmentBlob, now: Timestamp) -> (result: Result<
        AttachmentBlob,
        ServiceError,
    >)
        ensures
            result == old(db)@.create_blob(*item, now),
            final(db)@ == old(db)@.after_create_blob(*item, now),
            final(db)@.wf(),
    {
        proof {
            use_type_invariant(&*db);
        }
        match AttachmentBlob::refusal(db, item) {
            Some(e) => Err(e),
            None => {
                let row: AttachmentBlob = db.push_blob(item, now);
                Ok(row)
            },
        }
    }

    /// The blob with the key `id`, where it stands in the table.
    pub fn find(db: &Tables, id: i32) -> (found: Option<&AttachmentBlob>)
        ensures
            held(found) == lookup(db@.blobs, id),
    {
        let rows: &Vec<AttachmentBlob> = db.blobs();
        match position(rows, id) {
            Some(at) => Some(&rows[at]),
            None => None,
        }
    }

    /// The blob with the key `item_id`, or `NotFound`.
    pub fn find_by_id(db: &Tables, item_id: i32) -> (result: Result<AttachmentBlob, ServiceError>)
        ensures
            result == db@.find_blob(item_id),
    {
        let rows: &Vec<AttachmentBlob> = db.blobs();
        match position(rows, item_id) {
            Some(at) => Ok(rows[at].clone()),
            None => Err(ServiceError::NotFound),
        }
    }

    /// The blob with the key `param_id`, or `NotFound`.
    pub fn read(db: &Tables, param_id: i32) -> (result: Result<AttachmentBlob, ServiceError>)
        ensures
            result == db@.find_blob(param_id),
    {
        AttachmentBlob::find_by_id(db, param_id)
    }

    /// The blobs whose keys are among `item_ids`, in the order of creation.
    pub fn find_all_by_id(db: &Tables, item_ids: Vec<i32>) -> (found: Vec<AttachmentBlob>)
        ensures
            found@ == blobs_among(db@.blobs, item_ids@),
    {
        let rows: &Vec<AttachmentBlob> = db.blobs();
        let ghost wanted = |b: AttachmentBlob| item_ids@.contains(b.id);
        let mut found: Vec<AttachmentBlob> = Vec::new();
        let mut i: usize = 0;
        proof {
            reveal(Seq::filter);
            assert(rows@.subrange(0, 0) =~= Seq::<AttachmentBlob>::empty());
        }
        while i < rows.len()
            invariant
                i <= rows.len(),
                wanted == (|b: AttachmentBlob| item_ids@.contains(b.id)),
                found@ == rows@.subrange(0, i as int).filter(wanted),
            decreases rows.len() - i,
        {
            proof {
                let seen = rows@.subrange(0, i as int);
                assert(rows@.subrange(0, i + 1) =~= seen.push(rows[i as int]));
                seen.lemma_filter_push(rows[i as int], wanted);
            }
            if holds_id(&item_ids, rows[i].id) {
                found.push(rows[i].clone());
            }
            i += 1;
        }
        assert(rows@.subrange(0, i as int) =~= rows@);
        found
    }

    /// One page of the blob table. `page` counts from 0, and a page size
    /// below 1 counts as 1. A negative page is a `ValidationError`.
    pub fn paginate(db: &Tables, page: i64, page_size: i64) -> (result: Result<
        PaginationResult<AttachmentBlob>,
        ServiceError,
    >)
        ensures
            page < 0 ==> (result matches Err(e) && e == ServiceError::ValidationError),
            page >= 0 ==> (result matches Ok(listing) && {
                let total = db@.blobs.len() as int;
                let size = effective_size(page_size as int);
                &&& listing.items@ == page_of(db@.blobs, page as int, size)
                &&& listing.total_items == total
                &&& listing.page == page
                &&& listing.page_size == size
                &&& listing.num_pages == pages_needed(total, size)
                &&& listing.items@.len() == (if size < remaining(total, page as int, size) {
                    size
                } else {
                    remaining(total, page as int, size)
                })
            }),
    {
        proof {
            use_type_invariant(db);
        }
        let rows: &Vec<AttachmentBlob> = db.blobs();
        let total: usize = rows.len();
        match page_range(total, page, page_size) {
            Err(e) => Err(e),
            Ok((start, end)) => {
                proof {
                    lemma_page_bounds(total as int, page as int, effective_size(page_size as int));
                    lemma_page_len(total as int, page as int, effective_size(page_size as int));
                }
                let items: Vec<AttachmentBlob> = copy_range(rows, start, end);
                Ok(PaginationResult::assemble(items, total as i64, page, page_size))
            },
        }
    }

    /// Changes how the blob `param_id` is described and hands the new row
    /// out. `NotFound` if there is no such blob.
    pub fn update(db: &mut Tables, param_id: i32, item: &UpdateAttachmentBlob) -> (result: Result<
        AttachmentBlob,
        ServiceError,
    >)
        ensures
            result == old(db)@.update_blob(param_id, *item),
            final(db)@ == old(db)@.after_update_blob(param_id, *item),
            final(db)@.wf(),
            old(db)@.intact() ==> final(db)@.intact(),
    {
        proof {
            use_type_invariant(&*db);
        }
        match position(db.blobs(), param_id) {
            None => Err(ServiceError::NotFound),
            Some(at) => {
                let updated: AttachmentBlob = item.apply(&db.blobs()[at]);
                proof {
                    if db@.intact() {
                        crate::invariants::lemma_replaced_blob_keeps_intact(db@, at as int, updated);
                    }
                }
                db.replace_blob(at, updated.clone());
                Ok(updated)
            },
        }
    }

    /// Removes the metadata row of the blob `item_id` and says how many rows
    /// went: one or none. The stored object itself is not touched.
    pub fn delete(db: &mut Tables, item_id: i32) -> (count: usize)
        ensures
            count == removed_by_id(old(db)@.blobs, item_id),
            final(db)@ == old(db)@.after_delete_blob(item_id),
            final(db)@.wf(),
    {
        proof {
            use_type_invariant(&*db);
        }
        match position(db.blobs(), item_id) {
            Some(at) => {
                db.remove_blob(at);
                1
            },
            None => 0,
        }
    }

    /// Removes the metadata rows of the blobs whose keys are among
    /// `item_ids` and says how many rows went.
    pub fn delete_all(db: &mut Tables, item_ids: Vec<i32>) -> (count: usize)
        ensures
            count == old(db)@.blobs.len() - blobs_beside(old(db)@.blobs, item_ids@).len(),
            final(db)@ == old(db)@.after_delete_blobs(item_ids@),
            final(db)@.wf(),
    {
        proof {
            use_type_invariant(&*db);
        }
        let rows: &Vec<AttachmentBlob> = db.blobs();
        let ghost kept_rows = |b: AttachmentBlob| !item_ids@.contains(b.id);
        let mut kept: Vec<AttachmentBlob> = Vec::new();
        let mut i: usize = 0;
        proof {
            reveal(Seq::filter);
            assert(rows@.subrange(0, 0) =~= Seq::<AttachmentBlob>::empty());
        }
        while i < rows.len()
            invariant
                i <= rows.len(),
                kept_rows == (|b: AttachmentBlob| !item_ids@.contains(b.id)),
                kept@ == rows@.subrange(0, i as int).filter(kept_rows),
                kept@.len() <= i,
            decreases rows.len() - i,
        {
            proof {
                let seen = rows@.subrange(0, i as int);
                assert(rows@.subrange(0, i + 1) =~= seen.push(rows[i as int]));
                seen.lemma_filter_push(rows[i as int], kept_rows);
            }
            if !holds_id(&item_ids, rows[i].id) {
                kept.push(rows[i].clone());
            }
            i += 1;
        }
        assert(rows@.subrange(0, i as int) =~= rows@);
        let count: usize = rows.len() - kept.len();
        proof {
            crate::invariants::lemma_filter_keeps_wf_blobs(old(db)@, item_ids@);
        }
        db.set_blobs(kept);
        count
    }
}

} // verus!
