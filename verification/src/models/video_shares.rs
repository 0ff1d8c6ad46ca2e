use vstd::prelude::*;
use crate::clock::Timestamp;
use crate::error::ServiceError;
use crate::tables_view::{share_of_token, token_at, token_taken};
use crate::pagination::{
    effective_size, lemma_page_bounds, lemma_page_len, page_of, page_range, pages_needed, remaining,
    PaginationResult,
};
use crate::invariants::lemma_share_of_token;
use crate::models::attachments::Attachment;
use crate::row::{copy_range, lemma_lookup_found, position, Row};
use crate::rules::{share_refusal, token_place};
use crate::tables::Tables;
use crate::token::ShareToken;

verus! {

/// A share link: whoever presents its token may view one attachment until
/// the link expires.
#[derive(Debug, PartialEq, Eq)]
pub struct VideoShare {
    pub id: i32,
    /// The attachment that is shared.
    pub video_id: i32,
    /// The user who shares it: the attachment's owner.
    pub shared_by: i32,
    /// The identity of the recipient, such as an e-mail address.
    pub shared_with: String,
    pub share_token: ShareToken,
    /// Where playback starts. A hint for the player; it gates nothing.
    pub start_time: Option<Timestamp>,
    /// The instant from which the link is inert; `None` for a link that never expires.
    pub expires_at: Option<Timestamp>,
    pub created_at: Option<Timestamp>,
}

/// The values from which a share link is made.
#[derive(Debug, PartialEq, Eq)]
pub struct CreateVideoShare {
    pub video_id: i32,
    pub shared_by: i32,
    pub shared_with: String,
    pub share_token: ShareToken,
    pub start_time: Option<Timestamp>,
    pub expires_at: Option<Timestamp>,
}

/// What an owner asks for when sharing an attachment.
#[derive(Debug, PartialEq, Eq)]
pub struct ShareVideoRequest {
    pub video_id: i32,
    pub shared_with: String,
    pub start_time: Option<Timestamp>,
    pub expires_at: Option<Timestamp>,
}

/// The two states of a share link. The state is not stored: it follows from
/// the link's expiry and the time of the reading.
#[derive(Clone, Copy, Debug, PartialEq, Eq, Structural)]
pub enum ShareState {
    Active,
    Expired,
}

/// The state of a link with the expiry `expires_at` at the instant `now`:
/// expired from the expiry on, active before it and where there is none.
pub open spec fn state_at(expires_at: Option<Timestamp>, now: Timestamp) -> ShareState {
    match expires_at {
        Some(end) => if now.micros < end.micros {
            ShareState::Active
        } else {
            ShareState::Expired
        },
        None => ShareState::Active,
    }
}

impl Clone for VideoShare {
    fn clone(&self) -> (copy: Self)
        ensures
            copy == *self,
    {
        VideoShare {
            id: self.id,
            video_id: self.video_id,
            shared_by: self.shared_by,
            shared_with: self.shared_with.clone(),
            share_token: self.share_token,
            start_time: self.start_time,
            expires_at: self.expires_at,
            created_at: self.created_at,
        }
    }
}

impl Clone for CreateVideoShare {
    fn clone(&self) -> (copy: Self)
        ensures
            copy == *self,
    {
        CreateVideoShare {
            video_id: self.video_id,
            shared_by: self.shared_by,
            shared_with: self.shared_with.clone(),
            share_token: self.share_token,
            start_time: self.start_time,
            expires_at: self.expires_at,
        }
    }
}

impl Row for VideoShare {
    open spec fn row_id(&self) -> i32 {
        self.id
    }

    fn id(&self) -> (id: i32) {
        self.id
    }

    fn duplicate(&self) -> (copy: Self) {
        self.clone()
    }
}

impl VideoShare {
    /// The link's state at the instant `now`.
    pub fn state(&self, now: Timestamp) -> (state: ShareState)
        ensures
            state == state_at(self.expires_at, now),
    {
        match self.expires_at {
            Some(end) => if now.is_before(&end) {
                ShareState::Active
            } else {
                ShareState::Expired
            },
            None => ShareState::Active,
        }
    }
}

impl VideoShare {
    /// The place of the share link that carries `token`.
    pub fn token_position(db: &Tables, token: ShareToken) -> (place: Option<usize>)
        ensures
            match place {
                Some(at) => token_at(db@.shares, token, at as int),
                None => !token_taken(db@.shares, token),
            },
    {
        token_place(db.shares(), token)
    }

    /// Why the user `shared_by` cannot share the attachment `video_id`, if
    /// they cannot.
    pub fn refusal(db: &Tables, video_id: i32, shared_by: i32) -> (refusal: Option<ServiceError>)
        ensures
            refusal == db@.share_refusal(video_id, shared_by),
    {
        share_refusal(Attachment::find(db, video_id), shared_by, db.next_share_id() < i32::MAX)
    }

    /// Makes a share link. The row gets the next key and `now` as its time
    /// of creation. `NotFound` if the attachment is missing, `Forbidden` if
    /// it belongs to another user than `item.shared_by`, `Conflict` if
    /// another link carries the token; the tables stay as they were then.
    pub fn create(db: &mut Tables, item: &CreateVideoShare, now: Timestamp) -> (result: Result<
        VideoShare,
        ServiceError,
    >)
        ensures
            result == old(db)@.create_share(*item, now),
            final(db)@ == old(db)@.after_create_share(*item, now),
            final(db)@.wf(),
    {
        proof {
            use_type_invariant(&*db);
        }
        match VideoShare::refusal(db, item.video_id, item.shared_by) {
            Some(e) => Err(e),
            None => {
                if VideoShare::token_position(db, item.share_token).is_some() {
                    Err(ServiceError::Conflict)
                } else {
                    proof {
                        lemma_lookup_found(db@.attachments, item.video_id);
                        crate::invariants::lemma_new_share_keeps_wf(db@, *item, now);
                    }
                    let row: VideoShare = db.push_share(item, now);
                    Ok(row)
                }
            },
        }
    }

    /// The share link with the key `param_id`, or `NotFound`.
    pub fn read(db: &Tables, param_id: i32) -> (result: Result<VideoShare, ServiceError>)
        ensures
            result == db@.read_share(param_id),
    {
        let rows: &Vec<VideoShare> = db.shares();
        match position(rows, param_id) {
            Some(at) => Ok(rows[at].clone()),
            None => Err(ServiceError::NotFound),
        }
    }

    /// The share link that carries `token`, if there is one.
    pub fn find_by_token(db: &Tables, token: ShareToken) -> (found: Option<VideoShare>)
        ensures
            found == share_of_token(db@.shares, token),
    {
        proof {
            use_type_invariant(db);
        }
        match VideoShare::token_position(db, token) {
            Some(at) => {
                proof {
                    lemma_share_of_token(db@.shares, token, at as int);
                }
                Some(db.shares()[at].clone())
            },
            None => None,
        }
    }

    /// One page of the table of share links. `page` counts from 0, and a
    /// page size below 1 counts as 1. A negative page is a `ValidationError`.
    pub fn paginate(db: &Tables, page: i64, page_size: i64) -> (result: Result<
        PaginationResult<VideoShare>,
        ServiceError,
    >)
        ensures
            page < 0 ==> (result matches Err(e) && e == ServiceError::ValidationError),
            page >= 0 ==> (result matches Ok(listing) && {
                let total = db@.shares.len() as int;
                let size = effective_size(page_size as int);
                &&& listing.items@ == page_of(db@.shares, page as int, size)
                &&& listing.total_items == total
                &&& listing.page == page
                &&& listing.page_size == size
                &&& listing.num_pages == pages_needed(total, size)
                &&& listing.items@.len() == (if size < remaining(total, page as int, size) {
                    size
                } else {
                    remaining(total, page as int, size)
                })
            }),
    {
        proof {
            use_type_invariant(db);
        }
        let rows: &Vec<VideoShare> = db.shares();
        let total: usize = rows.len();
        match page_range(total, page, page_size) {
            Err(e) => Err(e),
            Ok((start, end)) => {
                proof {
                    lemma_page_bounds(total as int, page as int, effective_size(page_size as int));
                    lemma_page_len(total as int, page as int, effective_size(page_size as int));
                }
                let items: Vec<VideoShare> = copy_range(rows, start, end);
                Ok(PaginationResult::assemble(items, total as i64, page, page_size))
            },
        }
    }
}

impl CreateVideoShare {
    /// The row that these values become under the key `id`.
    pub open spec fn as_row(self, id: i32, now: Timestamp) -> VideoShare {
        VideoShare {
            id,
            video_id: self.video_id,
            shared_by: self.shared_by,
            shared_with: self.shared_with,
            share_token: self.share_token,
            start_time: self.start_time,
            expires_at: self.expires_at,
            created_at: Some(now),
        }
    }

    pub fn to_row(&self, id: i32, now: Timestamp) -> (row: VideoShare)
        ensures
            row == self.as_row(id, now),
    {
        VideoShare {
            id,
            video_id: self.video_id,
            shared_by: self.shared_by,
            shared_with: self.shared_with.clone(),
            share_token: self.share_token,
            start_time: self.start_time,
            expires_at: self.expires_at,
            created_at: Some(now),
        }
    }
}

impl ShareVideoRequest {
    /// The values of the link that `owner` asks for, under the token `token`.
    pub open spec fn as_share(self, owner: i32, token: ShareToken) -> CreateVideoShare {
        CreateVideoShare {
            video_id: self.video_id,
            shared_by: owner,
            shared_with: self.shared_with,
            share_token: token,
            start_time: self.start_time,
            expires_at: self.expires_at,
        }
    }

    pub fn to_share(&self, owner: i32, token: ShareToken) -> (item: CreateVideoShare)
        ensures
            item == self.as_share(owner, token),
    {
        CreateVideoShare {
            video_id: self.video_id,
            shared_by: owner,
            shared_with: self.shared_with.clone(),
            share_token: token,
            start_time: self.start_time,
            expires_at: self.expires_at,
        }
    }
}

} // verus!
