use vstd::prelude::*;
use vstd::string::StringExecFns;
use crate::clock::Timestamp;
use crate::error::ServiceError;
use crate::tables_view::{admission, token_at, token_taken};
use crate::models::attachments::Attachment;
use crate::models::video_shares::{CreateVideoShare, ShareState, ShareVideoRequest, VideoShare};
use crate::tables::Tables;
use crate::rules::{is_first_free, pick_free, shared_video};
use crate::token::{all_random, is_random_layout, ShareToken};

verus! {

/// How the services are set up.
#[derive(Debug, PartialEq, Eq)]
pub struct Settings {
    /// The prefix of every address that is handed out.
    pub cdn_base: String,
    /// Whether a share link is only for the recipient that it names.
    pub check_identity: bool,
}

/// What the holder of a valid share link gets.
#[derive(Debug, PartialEq, Eq)]
pub struct SharedVideo {
    /// The address of the attachment's bytes.
    pub video: String,
    pub start_time: Option<Timestamp>,
    pub shared_by: i32,
    pub shared_with: String,
}

impl Clone for Settings {
    fn clone(&self) -> (copy: Self)
        ensures
            copy == *self,
    {
        Settings { cdn_base: self.cdn_base.clone(), check_identity: self.check_identity }
    }
}

impl Clone for SharedVideo {
    fn clone(&self) -> (copy: Self)
        ensures
            copy == *self,
    {
        SharedVideo {
            video: self.video.clone(),
            start_time: self.start_time,
            shared_by: self.shared_by,
            shared_with: self.shared_with.clone(),
        }
    }
}

/// How many tokens are drawn for one share link before giving up.
pub const TOKEN_DRAWS: usize = 8;

/// The characters of an identity, if one was given.
pub open spec fn named(identity: Option<&str>) -> Option<Seq<char>> {
    match identity {
        Some(name) => Some(name@),
        None => None,
    }
}

/// Whether `result` says what `expected` says: the same error, or the
/// address and the share link's own values.
pub open spec fn answers(
    result: Result<SharedVideo, ServiceError>,
    expected: Result<(VideoShare, Seq<char>), ServiceError>,
) -> bool {
    match (result, expected) {
        (Ok(shared), Ok((share, url))) => {
            &&& shared.video@ == url
            &&& shared.start_time == share.start_time
            &&& shared.shared_by == share.shared_by
            &&& shared.shared_with == share.shared_with
        },
        (Err(e), Err(expected_e)) => e == expected_e,
        _ => false,
    }
}

/// Whether the share link `share` lets a viewer of the identity `identity`
/// in at `now`: `Expired` from the link's expiry on; `Forbidden`, where
/// identities are checked, unless `identity` is exactly the recipient that
/// the link names.
pub fn check_admission(share: &VideoShare, identity: Option<&str>, now: Timestamp, check_identity: bool) -> (result:
    Result<(), ServiceError>)
    ensures
        result == admission(*share, named(identity), now, check_identity),
{
    match share.state(now) {
        ShareState::Expired => Err(ServiceError::Expired),
        ShareState::Active => {
            if !check_identity {
                Ok(())
            } else {
                match identity {
                    None => Err(ServiceError::Forbidden),
                    Some(name) => {
                        let given: String = String::from_str(name);
                        if given == share.shared_with {
                            Ok(())
                        } else {
                            Err(ServiceError::Forbidden)
                        }
                    },
                }
            }
        },
    }
}

/// Resolves a share link at the instant `now`. `NotFound` if no link carries
/// the token, if the link has expired, or if its attachment or blob is gone;
/// `Forbidden`, where identities are checked, unless `requesting_identity`
/// is exactly the link's recipient. Else the address of the attachment with
/// the link's own values.
pub fn resolve_share_at(
    db: &Tables,
    settings: &Settings,
    token: ShareToken,
    requesting_identity: Option<&str>,
    now: Timestamp,
) -> (result: Result<SharedVideo, ServiceError>)
    ensures
        answers(
            result,
            db@.resolve_share(token, named(requesting_identity), now, settings.check_identity, settings.cdn_base@),
        ),
{
    proof {
        use_type_invariant(db);
    }
    let share: Option<VideoShare> = VideoShare::find_by_token(db, token);
    match &share {
        None => shared_video(None, Err(ServiceError::NotFound), requesting_identity, now, settings.check_identity),
        Some(link) => {
            let address: Result<String, ServiceError> = Attachment::read_id(
                db,
                link.video_id,
                settings.cdn_base.as_str(),
            );
            shared_video(Some(link), address, requesting_identity, now, settings.check_identity)
        },
    }
}

/// Resolves a share link now. See [`resolve_share_at`]; the instant is read
/// from the clock.
pub fn resolve_share(db: &Tables, settings: &Settings, token: ShareToken, requesting_identity: Option<&str>) -> (result:
    Result<SharedVideo, ServiceError>)
    ensures
        exists|now: Timestamp|
            answers(
                result,
                #[trigger] db@.resolve_share(
                    token,
                    named(requesting_identity),
                    now,
                    settings.check_identity,
                    settings.cdn_base@,
                ),
            ),
{
    proof {
        use_type_invariant(db);
    }
    let now: Timestamp = Timestamp::now();
    resolve_share_at(db, settings, token, requesting_identity, now)
}

/// Makes a share link for `owner_id` under the token `token` at the instant
/// `now`, and hands the token out. `NotFound` if the attachment is missing,
/// `Forbidden` unless `owner_id` owns it, `Conflict` if another link carries
/// the token; the tables stay as they were then.
pub fn create_share_with(
    db: &mut Tables,
    owner_id: i32,
    request: &ShareVideoRequest,
    token: ShareToken,
    now: Timestamp,
) -> (result: Result<ShareToken, ServiceError>)
    ensures
        match old(db)@.create_share(request.as_share(owner_id, token), now) {
            Ok(_) => result == Ok::<ShareToken, ServiceError>(token),
            Err(e) => result == Err::<ShareToken, ServiceError>(e),
        },
        final(db)@ == old(db)@.after_create_share(request.as_share(owner_id, token), now),
        final(db)@.wf(),
        old(db)@.intact() ==> final(db)@.intact(),
{
    proof {
        use_type_invariant(&*db);
    }
    let item: CreateVideoShare = request.to_share(owner_id, token);
    match VideoShare::create(db, &item, now) {
        Ok(_) => Ok(token),
        Err(e) => Err(e),
    }
}

/// Whether no link of `shares` carries a token that a draw can give: one
/// laid out as a random UUID. So it is of the empty table.
pub open spec fn none_random(shares: Seq<VideoShare>) -> bool {
    forall|i: int| 0 <= i < shares.len() ==> !is_random_layout((#[trigger] shares[i]).share_token.bits)
}

/// Makes a share link for `owner_id` under the first of the tokens `draws`
/// that no link carries yet, at the instant `now`, and hands that token
/// out. `NotFound` if the attachment is missing, `Forbidden` unless
/// `owner_id` owns it. A draw that is in use is passed over and never
/// reported; `Internal` if every draw is in use. Whenever the link is not
/// made the tables stay as they were.
pub fn create_share_from(
    db: &mut Tables,
    owner_id: i32,
    request: &ShareVideoRequest,
    draws: &Vec<ShareToken>,
    now: Timestamp,
) -> (result: Result<ShareToken, ServiceError>)
    ensures
        result == old(db)@.share_from(owner_id, *request, draws@),
        final(db)@ == old(db)@.after_share_from(owner_id, *request, draws@, now),
        result matches Ok(token) ==> !token_taken(old(db)@.shares, token) && token_taken(final(db)@.shares, token),
        final(db)@.wf(),
        old(db)@.intact() ==> final(db)@.intact(),
{
    proof {
        use_type_invariant(&*db);
    }
    if let Some(e) = VideoShare::refusal(db, request.video_id, owner_id) {
        return Err(e);
    }
    match pick_free(draws, db.shares()) {
        Err(e) => Err(e),
        Ok(token) => {
            let made: Result<ShareToken, ServiceError> = create_share_with(db, owner_id, request, token, now);
            proof {
                assert(token_at(db@.shares, token, old(db)@.shares.len() as int));
            }
            made
        },
    }
}

/// Makes a share link for `owner_id` under a fresh random token and hands
/// the token out. `NotFound` if the attachment is missing, `Forbidden`
/// unless `owner_id` owns it. [`TOKEN_DRAWS`] tokens are drawn and the
/// instant is read from the clock; the rest is [`create_share_from`]. So
/// the link is made wherever no draw can be in use.
pub fn create_share(db: &mut Tables, owner_id: i32, request: &ShareVideoRequest) -> (result: Result<
    ShareToken,
    ServiceError,
>)
    ensures
        exists|draws: Seq<ShareToken>, now: Timestamp|
            {
                &&& draws.len() == TOKEN_DRAWS
                &&& all_random(draws)
                &&& result == old(db)@.share_from(owner_id, *request, draws)
                &&& final(db)@ == #[trigger] old(db)@.after_share_from(owner_id, *request, draws, now)
            },
        old(db)@.share_refusal(request.video_id, owner_id).is_none() && none_random(old(db)@.shares) ==> result
            is Ok,
        result matches Ok(token) ==> {
            &&& is_random_layout(token.bits)
            &&& !token_taken(old(db)@.shares, token)
            &&& token_taken(final(db)@.shares, token)
        },
        result is Err ==> final(db)@ == old(db)@,
        final(db)@.wf(),
        old(db)@.intact() ==> final(db)@.intact(),
{
    proof {
        use_type_invariant(&*db);
    }
    let draws: Vec<ShareToken> = ShareToken::draw(TOKEN_DRAWS);
    let now: Timestamp = Timestamp::now();
    let result: Result<ShareToken, ServiceError> = create_share_from(db, owner_id, request, &draws, now);
    proof {
        let shares = old(db)@.shares;
        if none_random(shares) {
            assert(is_random_layout(draws@[0].bits));
            assert(!token_taken(shares, draws@[0])) by {
                if token_taken(shares, draws@[0]) {
                    let at = choose|at: int| token_at(shares, draws@[0], at);
                    assert(is_random_layout(shares[at].share_token.bits));
                }
            }
            assert(is_first_free(shares, draws@, 0));
        }
        if let Ok(token) = result {
            let at = choose|at: int| is_first_free(shares, draws@, at);
            assert(token == draws@[at]);
        }
    }
    result
}

} // verus!
